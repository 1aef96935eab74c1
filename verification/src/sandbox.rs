//! Configuring a sandbox: what is mounted, what can run, and under which limits.
use crate::engine::LoadError;
use crate::host::HostCommand;
use crate::kernel::mounts::{Mount, MountView, Mounts, Overlay, ProgramId};
use crate::kernel::path::{join, normal, normalize, path_of};
use crate::kernel::state::{default_limits, kinds_of, Limits, ProgramEntry, ProgramKind};
use crate::text::{in_order, insert_sorted, lemma_in_order, same, strictly_sorted, texts};
use crate::vfs::{Vfs, VfsFile};
use vstd::prelude::*;
use vstd::std_specs::convert::FromSpecImpl;
use vstd::string::*;

verus! {

/// The text that the standard library's debug formatting gives for a string.
pub uninterp spec fn quoted_text(text: Seq<char>) -> Seq<char>;

/// `format!` with `{:?}`: the string in quotes, with what the standard library escapes. The
/// result depends on the string alone.
#[verifier::external_body]
pub(crate) fn quoted(text: &str) -> (r: String)
    ensures
        r@ == quoted_text(text@),
{
    format!("{:?}", text)
}

/// Something that stopped a sandbox from doing what was asked.
#[derive(Debug)]
pub enum Error {
    /// A program could not be found or loaded.
    Load(LoadError),
    /// No program of that name is in this sandbox. [`Sandbox::programs`] lists what is.
    NoSuchProgram(String),
    /// A command was to be run to completion with a filesystem or a host command that asked to
    /// be called again. Drive it step by step instead.
    WouldBlock,
    /// The session's processes are all waiting for something that will never arrive.
    Deadlock,
    /// A mount point was not an absolute, normalized path.
    BadMountPoint(String),
    /// Nothing was mounted, and the program needs a filesystem.
    NoMounts,
    /// No program could be loaded, so the sandbox would have nothing to run.
    NoPrograms,
}

impl Error {
    /// The error in words.
    pub open spec fn text(self) -> Seq<char> {
        match self {
            Error::Load(e) => e.text(),
            Error::NoSuchProgram(name) => "no such program: "@ + name@,
            Error::WouldBlock =>
                "the filesystem needs to be awaited; drive this command with Session::step"@,
            Error::Deadlock => "every process is blocked with nothing to wait for"@,
            Error::BadMountPoint(at) => "mount point "@ + quoted_text(at@)
                + " must be an absolute path"@,
            Error::NoMounts => "nothing is mounted"@,
            Error::NoPrograms =>
                "no programs are available: this build has no usable backend. Enable the `interp` feature, or build bin/libwasmux-images.a for this target."@,
        }
    }

    /// The error in words.
    pub fn message(&self) -> (r: String)
        ensures
            r@ == self.text(),
    {
        match self {
            Error::Load(e) => e.message(),
            Error::NoSuchProgram(name) => {
                let mut out = "no such program: ".to_owned();
                out.append(name.as_str());
                out
            },
            Error::WouldBlock => {
                "the filesystem needs to be awaited; drive this command with Session::step".to_owned()
            },
            Error::Deadlock => "every process is blocked with nothing to wait for".to_owned(),
            Error::BadMountPoint(at) => {
                let mut out = "mount point ".to_owned();
                out.append(quoted(at.as_str()).as_str());
                out.append(" must be an absolute path");
                out
            },
            Error::NoMounts => "nothing is mounted".to_owned(),
            Error::NoPrograms => {
                "no programs are available: this build has no usable backend. Enable the `interp` feature, or build bin/libwasmux-images.a for this target.".to_owned()
            },
        }
    }
}

impl FromSpecImpl<LoadError> for Error {
    open spec fn obeys_from_spec() -> bool {
        true
    }

    open spec fn from_spec(e: LoadError) -> Error {
        Error::Load(e)
    }
}

impl From<LoadError> for Error {
    fn from(e: LoadError) -> (r: Error) {
        Error::Load(e)
    }
}

// ---------------------------------------------------------------------------------------------
// programs

/// One program a sandbox can run.
#[derive(Clone, Debug, PartialEq, Eq)]
pub struct ProgramInfo {
    /// The command name, as the guest would type it: `sh`, `jq`, `sed`.
    pub name: String,
    /// Where it appears in the guest's filesystem.
    pub path: String,
}

/// One image and every command it answers to.
pub struct Layout {
    /// The image's name, as the engine knows it.
    pub image: String,
    pub commands: Vec<ProgramInfo>,
}

/// A command's name and path.
pub open spec fn info_view(p: ProgramInfo) -> (Seq<char>, Seq<char>) {
    (p.name@, p.path@)
}

pub open spec fn infos(v: Seq<ProgramInfo>) -> Seq<(Seq<char>, Seq<char>)> {
    v.map_values(|p: ProgramInfo| info_view(p))
}

/// A name at which a program can be found, with its path and which program it is.
pub struct Registered {
    pub name: String,
    pub path: String,
    pub id: ProgramId,
}

/// The content of a [`Registered`].
#[verifier::ext_equal]
pub struct RegView {
    pub name: Seq<char>,
    pub path: Seq<char>,
    pub id: ProgramId,
}

impl View for Registered {
    type V = RegView;

    open spec fn view(&self) -> RegView {
        RegView { name: self.name@, path: self.path@, id: self.id }
    }
}

pub open spec fn regs(v: Seq<Registered>) -> Seq<RegView> {
    v.map_values(|r: Registered| r@)
}

/// The last registration of a name among the first `n`: a later one replaces an earlier one.
pub open spec fn reg_among(list: Seq<RegView>, name: Seq<char>, n: int) -> Option<RegView>
    decreases n,
{
    if n <= 0 {
        None
    } else if list[n - 1].name == name {
        Some(list[n - 1])
    } else {
        reg_among(list, name, n - 1)
    }
}

/// What a command name stands for.
pub open spec fn reg_of(list: Seq<RegView>, name: Seq<char>) -> Option<RegView> {
    reg_among(list, name, list.len() as int)
}

/// The names registered among the first `n`.
pub open spec fn reg_names(list: Seq<RegView>, n: int) -> Set<Seq<char>>
    decreases n,
{
    if n <= 0 {
        Set::empty()
    } else {
        reg_names(list, n - 1).insert(list[n - 1].name)
    }
}

/// Every name with its path, sorted by name.
pub open spec fn program_list(list: Seq<RegView>) -> Seq<(Seq<char>, Seq<char>)> {
    in_order(reg_names(list, list.len() as int)).map_values(
        |name: Seq<char>|
            (
                name,
                match reg_of(list, name) {
                    Some(r) => r.path,
                    None => Seq::empty(),
                },
            ),
    )
}

/// Find what a command name stands for.
fn find_reg(list: &Vec<Registered>, name: &str) -> (r: Option<usize>)
    ensures
        match r {
            Some(i) => i < list@.len() && reg_of(regs(list@), name@) == Some(list@[i as int]@),
            None => reg_of(regs(list@), name@) is None,
        },
{
    let ghost all = regs(list@);
    let mut n: usize = list.len();
    while n > 0
        invariant
            n <= list@.len(),
            all == regs(list@),
            reg_of(all, name@) == reg_among(all, name@, n as int),
        decreases n,
    {
        assert(all[n - 1] == list@[n - 1]@);
        if same(list[n - 1].name.as_str(), name) {
            return Some(n - 1);
        }
        n = n - 1;
    }
    None
}

/// The names registered, sorted.
fn sorted_names(list: &Vec<Registered>) -> (r: Vec<String>)
    ensures
        texts(r@) == in_order(reg_names(regs(list@), list@.len() as int)),
{
    let ghost all = regs(list@);
    let mut out: Vec<String> = Vec::new();
    let mut i: usize = 0;
    assert(texts(out@).to_set() =~= Set::empty());
    while i < list.len()
        invariant
            i <= list@.len(),
            all == regs(list@),
            strictly_sorted(texts(out@)),
            texts(out@).to_set() == reg_names(all, i as int),
        decreases list@.len() - i,
    {
        assert(all[i as int] == list@[i as int]@);
        insert_sorted(&mut out, list[i].name.clone());
        i = i + 1;
    }
    proof {
        lemma_in_order(texts(out@));
    }
    out
}

/// Every name with its path, sorted by name.
fn list_programs(list: &Vec<Registered>) -> (r: Vec<ProgramInfo>)
    ensures
        infos(r@) == program_list(regs(list@)),
{
    let ghost all = regs(list@);
    let ghost whole = program_list(all);
    let names = sorted_names(list);
    let mut out: Vec<ProgramInfo> = Vec::new();
    let mut i: usize = 0;
    assert(infos(out@) =~= whole.subrange(0, 0));
    while i < names.len()
        invariant
            i <= names@.len(),
            all == regs(list@),
            texts(names@) == in_order(reg_names(all, all.len() as int)),
            whole == program_list(all),
            infos(out@) == whole.subrange(0, i as int),
        decreases names@.len() - i,
    {
        assert(texts(names@)[i as int] == names@[i as int]@);
        let path = match find_reg(list, names[i].as_str()) {
            Some(j) => list[j].path.clone(),
            None => String::new(),
        };
        let info = ProgramInfo { name: names[i].clone(), path };
        let ghost before = infos(out@);
        let ghost added = info_view(info);
        out.push(info);
        assert(whole[i as int] == added);
        assert(infos(out@) =~= before.push(added));
        i = i + 1;
        assert(infos(out@) =~= whole.subrange(0, i as int));
    }
    assert(whole.len() == names@.len());
    assert(whole.subrange(0, i as int) =~= whole);
    out
}

/// Whether a command may be offered.
pub open spec fn is_wanted(wanted: Option<Seq<Seq<char>>>, name: Seq<char>) -> bool {
    match wanted {
        None => true,
        Some(names) => names.contains(name),
    }
}

/// The registrations with those of an image's first `n` commands that are wanted.
pub open spec fn with_commands(
    list: Seq<RegView>,
    commands: Seq<(Seq<char>, Seq<char>)>,
    wanted: Option<Seq<Seq<char>>>,
    id: int,
    n: int,
) -> Seq<RegView>
    decreases n,
{
    if n <= 0 {
        list
    } else {
        let rest = with_commands(list, commands, wanted, id, n - 1);
        let (name, path) = commands[n - 1];
        if is_wanted(wanted, name) {
            rest.push(RegView { name, path, id: id as usize })
        } else {
            rest
        }
    }
}

/// The registrations of the first `n` images. An image's place in the list is its program id.
pub open spec fn image_regs(
    layouts: Seq<Seq<(Seq<char>, Seq<char>)>>,
    wanted: Option<Seq<Seq<char>>>,
    n: int,
) -> Seq<RegView>
    decreases n,
{
    if n <= 0 {
        Seq::empty()
    } else {
        with_commands(
            image_regs(layouts, wanted, n - 1),
            layouts[n - 1],
            wanted,
            n - 1,
            layouts[n - 1].len() as int,
        )
    }
}

/// Whether a host command takes a name.
pub open spec fn is_taken(hosts: Seq<(Seq<char>, Seq<char>)>, name: Seq<char>) -> bool {
    exists|i: int| 0 <= i < hosts.len() && (#[trigger] hosts[i]).0 == name
}

/// The first `n` registrations without those whose name a host command takes: it replaces the
/// tool of that name wherever the tool would appear.
pub open spec fn untaken(
    list: Seq<RegView>,
    hosts: Seq<(Seq<char>, Seq<char>)>,
    n: int,
) -> Seq<RegView>
    decreases n,
{
    if n <= 0 {
        Seq::empty()
    } else if is_taken(hosts, list[n - 1].name) {
        untaken(list, hosts, n - 1)
    } else {
        untaken(list, hosts, n - 1).push(list[n - 1])
    }
}

/// The registrations with those of the first `n` host commands. They come last on purpose: of
/// two host commands of one name the later counts.
pub open spec fn with_hosts(
    list: Seq<RegView>,
    hosts: Seq<(Seq<char>, Seq<char>)>,
    first_id: int,
    n: int,
) -> Seq<RegView>
    decreases n,
{
    if n <= 0 {
        list
    } else {
        with_hosts(list, hosts, first_id, n - 1).push(
            RegView {
                name: hosts[n - 1].0,
                path: hosts[n - 1].1,
                id: (first_id + n - 1) as usize,
            },
        )
    }
}

pub open spec fn layouts_view(v: Seq<Layout>) -> Seq<Seq<(Seq<char>, Seq<char>)>> {
    v.map_values(|l: Layout| infos(l.commands@))
}

/// The commands of the first `n` images, in order, as registrations.
pub open spec fn all_regs(layouts: Seq<Layout>) -> Seq<RegView> {
    image_regs(layouts_view(layouts), None, layouts.len() as int)
}

/// The first path registered for a name from the `i`th registration on.
pub open spec fn first_path(list: Seq<RegView>, name: Seq<char>, i: int) -> Seq<char>
    decreases list.len() - i,
{
    if i >= list.len() {
        Seq::empty()
    } else if list[i].name == name {
        list[i].path
    } else {
        first_path(list, name, i + 1)
    }
}

/// Every command of some images, sorted by name; of two of one name the first counts.
pub open spec fn command_list(list: Seq<RegView>) -> Seq<(Seq<char>, Seq<char>)> {
    in_order(reg_names(list, list.len() as int)).map_values(
        |name: Seq<char>| (name, first_path(list, name, 0)),
    )
}

fn find_first(list: &Vec<Registered>, name: &str) -> (r: String)
    ensures
        r@ == first_path(regs(list@), name@, 0),
{
    let ghost all = regs(list@);
    let mut i: usize = 0;
    while i < list.len()
        invariant
            i <= list@.len(),
            all == regs(list@),
            first_path(all, name@, 0) == first_path(all, name@, i as int),
        decreases list@.len() - i,
    {
        assert(all[i as int] == list@[i as int]@);
        if same(list[i].name.as_str(), name) {
            return list[i].path.clone();
        }
        i = i + 1;
    }
    String::new()
}

fn push_reg(out: &mut Vec<Registered>, name: String, path: String, id: ProgramId)
    ensures
        regs(final(out)@) == regs(old(out)@).push(RegView { name: name@, path: path@, id }),
{
    let ghost before = regs(out@);
    let r = Registered { name, path, id };
    let ghost added = r@;
    out.push(r);
    assert(regs(out@) =~= before.push(added));
}

/// What the names of an option stand for.
pub open spec fn wanted_view(w: Option<Vec<String>>) -> Option<Seq<Seq<char>>> {
    match w {
        Some(names) => Some(texts(names@)),
        None => None,
    }
}

fn wants(wanted: &Option<Vec<String>>, name: &str) -> (r: bool)
    ensures
        r == is_wanted(wanted_view(*wanted), name@),
{
    match wanted {
        None => true,
        Some(names) => {
            let ghost all = texts(names@);
            let mut i: usize = 0;
            while i < names.len()
                invariant
                    i <= names@.len(),
                    all == texts(names@),
                    wanted_view(*wanted) == Some(all),
                    forall|j: int| 0 <= j < i ==> #[trigger] all[j] != name@,
                decreases names@.len() - i,
            {
                assert(all[i as int] == names@[i as int]@);
                if same(names[i].as_str(), name) {
                    assert(all.contains(name@));
                    return true;
                }
                i = i + 1;
            }
            assert(!all.contains(name@));
            false
        },
    }
}

fn register_images(layouts: &Vec<Layout>, wanted: &Option<Vec<String>>) -> (r: Vec<Registered>)
    ensures
        regs(r@) == image_regs(
            layouts_view(layouts@),
            wanted_view(*wanted),
            layouts@.len() as int,
        ),
{
    let ghost all = layouts_view(layouts@);
    let ghost w = wanted_view(*wanted);
    let mut out: Vec<Registered> = Vec::new();
    let mut i: usize = 0;
    assert(regs(out@) =~= Seq::empty());
    while i < layouts.len()
        invariant
            i <= layouts@.len(),
            all == layouts_view(layouts@),
            w == wanted_view(*wanted),
            regs(out@) == image_regs(all, w, i as int),
        decreases layouts@.len() - i,
    {
        let ghost before = regs(out@);
        let commands = &layouts[i].commands;
        assert(all[i as int] == infos(commands@));
        let mut j: usize = 0;
        while j < commands.len()
            invariant
                j <= commands@.len(),
                i < layouts@.len(),
                w == wanted_view(*wanted),
                regs(out@) == with_commands(before, infos(commands@), w, i as int, j as int),
            decreases commands@.len() - j,
        {
            let c = &commands[j];
            assert(infos(commands@)[j as int] == info_view(commands@[j as int]));
            if wants(wanted, c.name.as_str()) {
                push_reg(&mut out, c.name.clone(), c.path.clone(), i);
            }
            j = j + 1;
        }
        i = i + 1;
    }
    out
}

/// Every command compiled into some images, sorted by name.
///
/// No sandbox, nothing to configure: what *could* run. [`Sandbox::programs`] is what a
/// particular sandbox will run, which is narrower when [`Builder::programs`] was used and wider
/// when a [`HostCommand`] was registered.
pub fn commands(layouts: &Vec<Layout>) -> (r: Vec<ProgramInfo>)
    ensures
        infos(r@) == command_list(all_regs(layouts@)),
{
    let list = register_images(layouts, &None);
    let ghost all = regs(list@);
    let ghost whole = command_list(all);
    let names = sorted_names(&list);
    let mut out: Vec<ProgramInfo> = Vec::new();
    let mut i: usize = 0;
    assert(infos(out@) =~= whole.subrange(0, 0));
    while i < names.len()
        invariant
            i <= names@.len(),
            all == regs(list@),
            texts(names@) == in_order(reg_names(all, all.len() as int)),
            whole == command_list(all),
            infos(out@) == whole.subrange(0, i as int),
        decreases names@.len() - i,
    {
        assert(texts(names@)[i as int] == names@[i as int]@);
        let path = find_first(&list, names[i].as_str());
        let info = ProgramInfo { name: names[i].clone(), path };
        let ghost before = infos(out@);
        let ghost added = info_view(info);
        out.push(info);
        assert(whole[i as int] == added);
        assert(infos(out@) =~= before.push(added));
        i = i + 1;
        assert(infos(out@) =~= whole.subrange(0, i as int));
    }
    assert(whole.len() == names@.len());
    assert(whole.subrange(0, i as int) =~= whole);
    out
}

// ---------------------------------------------------------------------------------------------
// the environment

/// One environment variable.
pub struct EnvVar {
    pub key: String,
    pub value: String,
}

pub open spec fn env_view(v: Seq<EnvVar>) -> Seq<(Seq<char>, Seq<char>)> {
    v.map_values(|e: EnvVar| (e.key@, e.value@))
}

/// The variables of other names.
pub open spec fn env_without(env: Seq<(Seq<char>, Seq<char>)>, key: Seq<char>) -> Seq<
    (Seq<char>, Seq<char>),
>
    decreases env.len(),
{
    if env.len() == 0 {
        env
    } else {
        let rest = env_without(env.drop_last(), key);
        if env.last().0 == key {
            rest
        } else {
            rest.push(env.last())
        }
    }
}

/// An environment with one variable set: what it had under that name is gone.
pub open spec fn env_with(
    env: Seq<(Seq<char>, Seq<char>)>,
    key: Seq<char>,
    value: Seq<char>,
) -> Seq<(Seq<char>, Seq<char>)> {
    env_without(env, key).push((key, value))
}

/// Set a variable.
pub fn set_env(env: &Vec<EnvVar>, key: &str, value: &str) -> (r: Vec<EnvVar>)
    ensures
        env_view(r@) == env_with(env_view(env@), key@, value@),
{
    let ghost all = env_view(env@);
    let mut out: Vec<EnvVar> = Vec::new();
    let mut i: usize = 0;
    assert(all.subrange(0, 0) =~= Seq::empty());
    assert(env_view(out@) =~= env_without(all.subrange(0, 0), key@));
    while i < env.len()
        invariant
            i <= env@.len(),
            all == env_view(env@),
            env_view(out@) == env_without(all.subrange(0, i as int), key@),
        decreases env@.len() - i,
    {
        assert(all.subrange(0, i + 1).drop_last() =~= all.subrange(0, i as int));
        assert(all.subrange(0, i + 1).last() == (env@[i as int].key@, env@[i as int].value@));
        let ghost before = env_view(out@);
        if !same(env[i].key.as_str(), key) {
            out.push(EnvVar { key: env[i].key.clone(), value: env[i].value.clone() });
            assert(env_view(out@) =~= before.push(all[i as int]));
        }
        i = i + 1;
    }
    assert(all.subrange(0, i as int) =~= all);
    let ghost before = env_view(out@);
    out.push(EnvVar { key: key.to_owned(), value: value.to_owned() });
    assert(env_view(out@) =~= before.push((key@, value@)));
    out
}

/// A second environment with the same variables.
pub fn copy_env(env: &Vec<EnvVar>) -> (r: Vec<EnvVar>)
    ensures
        env_view(r@) == env_view(env@),
{
    let ghost all = env_view(env@);
    let mut out: Vec<EnvVar> = Vec::new();
    let mut i: usize = 0;
    assert(env_view(out@) =~= all.subrange(0, 0));
    while i < env.len()
        invariant
            i <= env@.len(),
            all == env_view(env@),
            env_view(out@) == all.subrange(0, i as int),
        decreases env@.len() - i,
    {
        let ghost before = env_view(out@);
        out.push(EnvVar { key: env[i].key.clone(), value: env[i].value.clone() });
        assert(env_view(out@) =~= before.push(all[i as int]));
        i = i + 1;
        assert(env_view(out@) =~= all.subrange(0, i as int));
    }
    assert(all.subrange(0, i as int) =~= all);
    out
}

/// The variables a sandbox has unless told otherwise.
pub open spec fn default_env() -> Seq<(Seq<char>, Seq<char>)> {
    seq![
        ("PATH"@, "/bin:/usr/bin:/sbin:/usr/sbin"@),
        ("HOME"@, "/"@),
        ("TERM"@, "dumb"@),
        ("PS1"@, "$ "@),
    ]
}

// ---------------------------------------------------------------------------------------------
// the builder

/// One registered [`HostCommand`] and where it appears.
pub struct HostEntry<H> {
    pub name: String,
    pub path: String,
    pub command: H,
}

pub open spec fn hosts_view<H>(v: Seq<HostEntry<H>>) -> Seq<(Seq<char>, Seq<char>)> {
    v.map_values(|h: HostEntry<H>| (h.name@, h.path@))
}

/// Configures a [`Sandbox`].
pub struct Builder<V, H> {
    mounts: Mounts<V>,
    limits: Limits,
    env: Vec<EnvVar>,
    cwd: String,
    programs: Option<Vec<String>>,
    commands: Vec<HostEntry<H>>,
}

/// The content of a [`Builder`].
#[verifier::ext_equal]
pub struct BuilderView<S> {
    pub mounts: Seq<MountView<S>>,
    pub limits: Limits,
    pub env: Seq<(Seq<char>, Seq<char>)>,
    pub cwd: Seq<char>,
    pub programs: Option<Seq<Seq<char>>>,
    pub commands: Seq<(Seq<char>, Seq<char>)>,
}

impl<S> BuilderView<S> {
    /// The default limits, a default environment and every available program.
    pub open spec fn fresh() -> BuilderView<S> {
        BuilderView {
            mounts: Seq::empty(),
            limits: default_limits(),
            env: default_env(),
            cwd: "/"@,
            programs: None,
            commands: Seq::empty(),
        }
    }

    /// With one more filesystem.
    pub open spec fn with_mount(self, at: Seq<char>, state: S, read_only: bool) -> BuilderView<S> {
        BuilderView { mounts: self.mounts.push(MountView { at, state, read_only }), ..self }
    }
}

impl<V: Vfs, H> View for Builder<V, H> {
    type V = BuilderView<<V as VfsFile>::State>;

    closed spec fn view(&self) -> Self::V {
        BuilderView {
            mounts: self.mounts@,
            limits: self.limits,
            env: env_view(self.env@),
            cwd: self.cwd@,
            programs: wanted_view(self.programs),
            commands: hosts_view(self.commands@),
        }
    }
}

impl<V: Vfs, H: HostCommand> Builder<V, H> {
    /// Every filesystem keeps what it promises of itself.
    pub closed spec fn wf(&self) -> bool {
        self.mounts.wf()
    }

    /// The host commands, in the order they were registered.
    pub closed spec fn host_commands(&self) -> Seq<H> {
        self.commands@.map_values(|h: HostEntry<H>| h.command)
    }

    /// A builder with the default limits, a default environment and every available program.
    pub fn new() -> (r: Builder<V, H>)
        ensures
            r@ == BuilderView::<<V as VfsFile>::State>::fresh(),
            r.wf(),
            r.host_commands() == Seq::<H>::empty(),
    {
        let mut env: Vec<EnvVar> = Vec::new();
        env.push(
            EnvVar {
                key: "PATH".to_owned(),
                value: "/bin:/usr/bin:/sbin:/usr/sbin".to_owned(),
            },
        );
        env.push(EnvVar { key: "HOME".to_owned(), value: "/".to_owned() });
        env.push(EnvVar { key: "TERM".to_owned(), value: "dumb".to_owned() });
        env.push(EnvVar { key: "PS1".to_owned(), value: "$ ".to_owned() });
        let r: Builder<V, H> = Builder {
            mounts: Mounts::new(),
            limits: Limits::default(),
            env,
            cwd: "/".to_owned(),
            programs: None,
            commands: Vec::new(),
        };
        assert(r@.env =~= default_env());
        assert(r@.commands =~= Seq::empty());
        assert(r.host_commands() =~= Seq::empty());
        r
    }

    /// Mount a filesystem, writable, at `at`.
    ///
    /// `at` must be absolute and normalized: `/` or `/work`, not `work` or `/work/`. The
    /// longest matching mount wins, so mounting an in-memory filesystem at `/tmp` over a slow
    /// store at `/` gives scratch space that never touches it.
    pub fn mount(self, at: &str, vfs: V) -> (r: Builder<V, H>)
        requires
            self.wf(),
            vfs.wf(),
        ensures
            r.wf(),
            r@ == self@.with_mount(at@, vfs.state(), false),
            r.host_commands() == self.host_commands(),
    {
        self.mount_arc(at, vfs, false)
    }

    /// Mount a filesystem that refuses writes. The refusal is the kernel's, so the [`Vfs`]
    /// needs no logic of its own.
    pub fn mount_ro(self, at: &str, vfs: V) -> (r: Builder<V, H>)
        requires
            self.wf(),
            vfs.wf(),
        ensures
            r.wf(),
            r@ == self@.with_mount(at@, vfs.state(), true),
            r.host_commands() == self.host_commands(),
    {
        self.mount_arc(at, vfs, true)
    }

    /// Mount a filesystem, saying whether it is read-only. A handle on a shared filesystem can
    /// back several sandboxes.
    pub fn mount_arc(self, at: &str, vfs: V, read_only: bool) -> (r: Builder<V, H>)
        requires
            self.wf(),
            vfs.wf(),
        ensures
            r.wf(),
            r@ == self@.with_mount(at@, vfs.state(), read_only),
            r.host_commands() == self.host_commands(),
    {
        let mut b = self;
        b.mounts.push(Mount { at: at.to_owned(), vfs, read_only });
        b
    }

    /// Replace the resource limits.
    pub fn limits(self, limits: Limits) -> (r: Builder<V, H>)
        ensures
            self.wf() ==> r.wf(),
            r@ == (BuilderView { limits, ..self@ }),
            r.host_commands() == self.host_commands(),
    {
        Builder { limits, ..self }
    }

    /// Set an environment variable for every command.
    pub fn env(self, key: &str, value: &str) -> (r: Builder<V, H>)
        ensures
            self.wf() ==> r.wf(),
            r@ == (BuilderView { env: env_with(self@.env, key@, value@), ..self@ }),
            r.host_commands() == self.host_commands(),
    {
        let env = set_env(&self.env, key, value);
        Builder { env, ..self }
    }

    /// Remove every default environment variable.
    pub fn clear_env(self) -> (r: Builder<V, H>)
        ensures
            self.wf() ==> r.wf(),
            r@ == (BuilderView { env: Seq::empty(), ..self@ }),
            r.host_commands() == self.host_commands(),
    {
        let env: Vec<EnvVar> = Vec::new();
        assert(env_view(env@) =~= Seq::empty());
        Builder { env, ..self }
    }

    /// The working directory commands start in. Defaults to `/`.
    pub fn current_dir(self, path: &str) -> (r: Builder<V, H>)
        ensures
            self.wf() ==> r.wf(),
            r@ == (BuilderView { cwd: path@, ..self@ }),
            r.host_commands() == self.host_commands(),
    {
        Builder { cwd: path.to_owned(), ..self }
    }

    /// Offer only these programs, by command name.
    ///
    /// The default is everything available. What this controls is the *namespace*: a command
    /// left out has no path, so nothing can `exec` it. It is not a security boundary: a program
    /// with its tools inside it runs most of them without an `exec` at all.
    pub fn programs(self, names: Vec<String>) -> (r: Builder<V, H>)
        ensures
            self.wf() ==> r.wf(),
            r@ == (BuilderView { programs: Some(texts(names@)), ..self@ }),
            r.host_commands() == self.host_commands(),
    {
        Builder { programs: Some(names), ..self }
    }

    /// Add a command implemented in Rust, at `/usr/bin/<name>`.
    ///
    /// It is a program in every respect the guest can observe. Registering a name a shipped
    /// image already uses replaces it, which is the supported way to override one.
    pub fn command(self, name: &str, command: H) -> (r: Builder<V, H>)
        ensures
            self.wf() ==> r.wf(),
            r@ == (BuilderView {
                commands: self@.commands.push((name@, "/usr/bin/"@ + name@)),
                ..self@
            }),
            r.host_commands() == self.host_commands().push(command),
    {
        let mut path = "/usr/bin/".to_owned();
        path.append(name);
        self.command_at(name, path.as_str(), command)
    }

    /// As [`Builder::command`], but you choose the path.
    pub fn command_at(self, name: &str, path: &str, command: H) -> (r: Builder<V, H>)
        ensures
            self.wf() ==> r.wf(),
            r@ == (BuilderView { commands: self@.commands.push((name@, path@)), ..self@ }),
            r.host_commands() == self.host_commands().push(command),
    {
        let mut b = self;
        b.commands.push(HostEntry { name: name.to_owned(), path: path.to_owned(), command });
        assert(b@.commands =~= self@.commands.push((name@, path@)));
        assert(b.host_commands() =~= self.host_commands().push(command));
        b
    }

    /// Finish, or say why not. `layouts` names the images the engine can run, in the order of
    /// their program ids.
    pub fn build(self, layouts: &Vec<Layout>) -> (r: Result<Sandbox<V, H>, Error>)
        requires
            self.wf(),
            layouts@.len() + self@.commands.len() <= usize::MAX,
        ensures
            match r {
                Ok(s) => {
                    &&& built(self@, layouts_view(layouts@)) == Ok::<_, Refusal>(s@)
                    &&& s.wf()
                    &&& s.host_commands() == self.host_commands()
                },
                Err(e) => built(self@, layouts_view(layouts@)) == Err::<
                    SandboxView<<V as VfsFile>::State>,
                    _,
                >(refusal_of(e)),
            },
    {
        let mut i: usize = 0;
        while i < self.mounts.len()
            invariant
                i <= self@.mounts.len(),
                self@.mounts == self.mounts@,
                forall|j: int| 0 <= j < i ==> is_mount_point((#[trigger] self@.mounts[j]).at),
                bad_mount(self@.mounts, 0) == bad_mount(self@.mounts, i as int),
            decreases self@.mounts.len() - i,
        {
            let at = self.mounts.mount_point(i);
            let normalized = join(&normalize("/", at));
            if !same(at, normalized.as_str()) {
                return Err(Error::BadMountPoint(at.to_owned()));
            }
            i = i + 1;
        }
        if self.mounts.len() == 0 {
            return Err(Error::NoMounts);
        }
        let offered = register_images(layouts, &self.programs);
        let mut registered = keep_untaken(&offered, &self.commands);
        let ghost images = regs(registered@);
        let mut entries: Vec<ProgramEntry> = Vec::new();
        let mut i: usize = 0;
        assert(kinds_of(entries@) =~= Seq::empty());
        while i < layouts.len()
            invariant
                i <= layouts@.len(),
                kinds_of(entries@) == Seq::new(i as nat, |j: int| ProgramKind::Guest),
            decreases layouts@.len() - i,
        {
            let ghost before = kinds_of(entries@);
            entries.push(
                ProgramEntry { name: layouts[i].image.clone(), kind: ProgramKind::Guest },
            );
            assert(kinds_of(entries@) =~= before.push(ProgramKind::Guest));
            i = i + 1;
            assert(kinds_of(entries@) =~= Seq::new(i as nat, |j: int| ProgramKind::Guest));
        }
        let ghost hosts = hosts_view(self.commands@);
        let ghost n = layouts@.len() as int;
        let mut i: usize = 0;
        assert(kinds_of(entries@) =~= kinds(n, 0));
        while i < self.commands.len()
            invariant
                i <= self.commands@.len(),
                hosts == hosts_view(self.commands@),
                n == layouts@.len(),
                n + self.commands@.len() <= usize::MAX,
                regs(registered@) == with_hosts(images, hosts, n, i as int),
                kinds_of(entries@) == kinds(n, i as int),
            decreases self.commands@.len() - i,
        {
            let h = &self.commands[i];
            assert(hosts[i as int] == (h.name@, h.path@));
            push_reg(&mut registered, h.name.clone(), h.path.clone(), layouts.len() + i);
            let ghost before = kinds_of(entries@);
            entries.push(ProgramEntry { name: h.name.clone(), kind: ProgramKind::Host });
            assert(kinds_of(entries@) =~= before.push(ProgramKind::Host));
            i = i + 1;
            assert(kinds_of(entries@) =~= kinds(n, i as int));
        }
        if entries.len() == 0 {
            assert(kinds_of(entries@).len() == 0);
            return Err(Error::NoPrograms);
        }
        assert(kinds_of(entries@).len() != 0);
        let overlay = place_all(&registered);
        Ok(
            Sandbox {
                mounts: self.mounts,
                overlay,
                programs: entries,
                registered,
                limits: self.limits,
                env: self.env,
                cwd: self.cwd,
                commands: self.commands,
            },
        )
    }
}

impl<V: Vfs, H: HostCommand> Default for Builder<V, H> {
    fn default() -> (r: Builder<V, H>)
        ensures
            r@ == BuilderView::<<V as VfsFile>::State>::fresh(),
            r.wf(),
            r.host_commands() == Seq::<H>::empty(),
    {
        Builder::new()
    }
}

/// Whether a path can be a mount point: absolute, and normal already.
pub open spec fn is_mount_point(at: Seq<char>) -> bool {
    at == path_of(normal("/"@, at))
}

/// The first mount point from the `i`th on that cannot be one.
pub open spec fn bad_mount<S>(mounts: Seq<MountView<S>>, i: int) -> Option<Seq<char>>
    decreases mounts.len() - i,
{
    if i >= mounts.len() {
        None
    } else if !is_mount_point(mounts[i].at) {
        Some(mounts[i].at)
    } else {
        bad_mount(mounts, i + 1)
    }
}

/// Why a sandbox is not built.
#[verifier::ext_equal]
pub enum Refusal {
    BadMountPoint(Seq<char>),
    NoMounts,
    NoPrograms,
    Other,
}

pub open spec fn refusal_of(e: Error) -> Refusal {
    match e {
        Error::BadMountPoint(at) => Refusal::BadMountPoint(at@),
        Error::NoMounts => Refusal::NoMounts,
        Error::NoPrograms => Refusal::NoPrograms,
        _ => Refusal::Other,
    }
}

/// The kinds of `n` images and then `m` host commands.
pub open spec fn kinds(n: int, m: int) -> Seq<ProgramKind> {
    Seq::new(
        (n + m) as nat,
        |i: int|
            if i < n {
                ProgramKind::Guest
            } else {
                ProgramKind::Host
            },
    )
}

/// The paths of registrations.
pub open spec fn placements(list: Seq<RegView>) -> Seq<(Seq<char>, ProgramId)> {
    list.map_values(|r: RegView| (r.path, r.id))
}

/// The sandbox a builder makes, or why it makes none.
pub open spec fn built<S>(
    b: BuilderView<S>,
    layouts: Seq<Seq<(Seq<char>, Seq<char>)>>,
) -> Result<SandboxView<S>, Refusal> {
    let n = layouts.len() as int;
    let m = b.commands.len() as int;
    let images = image_regs(layouts, b.programs, n);
    let shipped = untaken(images, b.commands, images.len() as int);
    let list = with_hosts(shipped, b.commands, n, m);
    match bad_mount(b.mounts, 0) {
        Some(at) => Err(Refusal::BadMountPoint(at)),
        None => if b.mounts.len() == 0 {
            Err(Refusal::NoMounts)
        } else if n + m == 0 {
            Err(Refusal::NoPrograms)
        } else {
            Ok(
                SandboxView {
                    mounts: b.mounts,
                    overlay: placements(list),
                    programs: kinds(n, m),
                    registered: list,
                    limits: b.limits,
                    env: b.env,
                    cwd: b.cwd,
                },
            )
        },
    }
}

fn place_all(list: &Vec<Registered>) -> (r: Overlay)
    ensures
        r@ == placements(regs(list@)),
{
    let ghost whole = placements(regs(list@));
    let mut out = Overlay::new();
    let mut i: usize = 0;
    assert(out@ =~= whole.subrange(0, 0));
    while i < list.len()
        invariant
            i <= list@.len(),
            whole == placements(regs(list@)),
            out@ == whole.subrange(0, i as int),
        decreases list@.len() - i,
    {
        assert(whole[i as int] == (list@[i as int].path@, list@[i as int].id));
        out.place(list[i].path.clone(), list[i].id);
        i = i + 1;
        assert(out@ =~= whole.subrange(0, i as int));
    }
    assert(whole.subrange(0, i as int) =~= whole);
    out
}

// ---------------------------------------------------------------------------------------------
// the sandbox

/// A configured sandbox: mounts, limits, and the programs that can run.
///
/// The mounted filesystems belong to it: every session reads and writes the same ones.
pub struct Sandbox<V, H> {
    pub mounts: Mounts<V>,
    pub overlay: Overlay,
    pub programs: Vec<ProgramEntry>,
    pub registered: Vec<Registered>,
    pub limits: Limits,
    pub env: Vec<EnvVar>,
    pub cwd: String,
    pub commands: Vec<HostEntry<H>>,
}

/// The content of a [`Sandbox`].
#[verifier::ext_equal]
pub struct SandboxView<S> {
    pub mounts: Seq<MountView<S>>,
    pub overlay: Seq<(Seq<char>, ProgramId)>,
    pub programs: Seq<ProgramKind>,
    pub registered: Seq<RegView>,
    pub limits: Limits,
    pub env: Seq<(Seq<char>, Seq<char>)>,
    pub cwd: Seq<char>,
}

impl<V: Vfs, H> View for Sandbox<V, H> {
    type V = SandboxView<<V as VfsFile>::State>;

    open spec fn view(&self) -> Self::V {
        SandboxView {
            mounts: self.mounts@,
            overlay: self.overlay@,
            programs: kinds_of(self.programs@),
            registered: regs(self.registered@),
            limits: self.limits,
            env: env_view(self.env@),
            cwd: self.cwd@,
        }
    }
}

/// Copy a program table.
pub fn copy_programs(list: &Vec<ProgramEntry>) -> (r: Vec<ProgramEntry>)
    ensures
        kinds_of(r@) == kinds_of(list@),
{
    let ghost all = kinds_of(list@);
    let mut out: Vec<ProgramEntry> = Vec::new();
    let mut i: usize = 0;
    assert(kinds_of(out@) =~= all.subrange(0, 0));
    while i < list.len()
        invariant
            i <= list@.len(),
            all == kinds_of(list@),
            kinds_of(out@) == all.subrange(0, i as int),
        decreases list@.len() - i,
    {
        let ghost before = kinds_of(out@);
        out.push(ProgramEntry { name: list[i].name.clone(), kind: list[i].kind });
        assert(kinds_of(out@) =~= before.push(all[i as int]));
        i = i + 1;
        assert(kinds_of(out@) =~= all.subrange(0, i as int));
    }
    assert(all.subrange(0, i as int) =~= all);
    out
}

fn takes<H>(hosts: &Vec<HostEntry<H>>, name: &str) -> (r: bool)
    ensures
        r == is_taken(hosts_view(hosts@), name@),
{
    let ghost all = hosts_view(hosts@);
    let mut i: usize = 0;
    while i < hosts.len()
        invariant
            i <= hosts@.len(),
            all == hosts_view(hosts@),
            forall|j: int| 0 <= j < i ==> (#[trigger] all[j]).0 != name@,
        decreases hosts@.len() - i,
    {
        assert(all[i as int] == (hosts@[i as int].name@, hosts@[i as int].path@));
        if same(hosts[i].name.as_str(), name) {
            return true;
        }
        i = i + 1;
    }
    false
}

/// The registrations whose names no host command takes.
fn keep_untaken<H>(list: &Vec<Registered>, hosts: &Vec<HostEntry<H>>) -> (r: Vec<Registered>)
    ensures
        regs(r@) == untaken(regs(list@), hosts_view(hosts@), list@.len() as int),
{
    let ghost all = regs(list@);
    let mut out: Vec<Registered> = Vec::new();
    let mut i: usize = 0;
    assert(regs(out@) =~= Seq::empty());
    while i < list.len()
        invariant
            i <= list@.len(),
            all == regs(list@),
            regs(out@) == untaken(all, hosts_view(hosts@), i as int),
        decreases list@.len() - i,
    {
        assert(all[i as int] == list@[i as int]@);
        if !takes(hosts, list[i].name.as_str()) {
            push_reg(&mut out, list[i].name.clone(), list[i].path.clone(), list[i].id);
        }
        i = i + 1;
    }
    out
}

/// The first registration from the `i`th on at a path, of those that no later one of the same
/// name has replaced, in the order of their names.
pub open spec fn reg_at_path(list: Seq<RegView>, names: Seq<Seq<char>>, path: Seq<char>, i: int) -> Option<
    RegView,
>
    decreases names.len() - i,
{
    if i >= names.len() {
        None
    } else {
        match reg_of(list, names[i]) {
            Some(r) => if r.path == path {
                Some(r)
            } else {
                reg_at_path(list, names, path, i + 1)
            },
            None => reg_at_path(list, names, path, i + 1),
        }
    }
}

/// Which program a command line names: by command name, or else by path.
pub open spec fn program_named(list: Seq<RegView>, program: Seq<char>) -> Option<RegView> {
    match reg_of(list, program) {
        Some(r) => Some(r),
        None => reg_at_path(list, in_order(reg_names(list, list.len() as int)), program, 0),
    }
}

impl<V: Vfs, H: HostCommand> Sandbox<V, H> {
    /// Every filesystem keeps what it promises of itself.
    pub open spec fn wf(&self) -> bool {
        self.mounts.wf()
    }

    /// The host commands, in the order they were registered.
    pub open spec fn host_commands(&self) -> Seq<H> {
        self.commands@.map_values(|h: HostEntry<H>| h.command)
    }

    /// Start configuring a sandbox.
    pub fn builder() -> (r: Builder<V, H>)
        ensures
            r@ == BuilderView::<<V as VfsFile>::State>::fresh(),
            r.wf(),
            r.host_commands() == Seq::<H>::empty(),
    {
        Builder::new()
    }

    /// Every program this sandbox can run, sorted by name.
    ///
    /// Generate your tool's documentation from this rather than hardcoding a list: it is the
    /// truth about what can run.
    pub fn programs(&self) -> (r: Vec<ProgramInfo>)
        ensures
            infos(r@) == program_list(self@.registered),
    {
        list_programs(&self.registered)
    }

    /// Whether `name` is one of them.
    pub fn has_program(&self, name: &str) -> (r: bool)
        ensures
            r == (reg_of(self@.registered, name@) is Some),
    {
        find_reg(&self.registered, name).is_some()
    }

    /// The limits every session of this sandbox runs under.
    pub fn limits(&self) -> (r: Limits)
        ensures
            r == self@.limits,
    {
        self.limits
    }

    /// Which program a command line names, and where it appears.
    pub fn find_program(&self, program: &str) -> (r: Option<(ProgramId, String)>)
        ensures
            match r {
                Some((id, path)) => program_named(self@.registered, program@) matches Some(reg)
                    && id == reg.id && path@ == reg.path,
                None => program_named(self@.registered, program@) is None,
            },
    {
        let ghost all = regs(self.registered@);
        match find_reg(&self.registered, program) {
            Some(i) => {
                return Some((self.registered[i].id, self.registered[i].path.clone()));
            },
            None => {},
        }
        let names = sorted_names(&self.registered);
        let ghost order = texts(names@);
        let mut i: usize = 0;
        while i < names.len()
            invariant
                i <= names@.len(),
                all == regs(self.registered@),
                order == texts(names@),
                order == in_order(reg_names(all, all.len() as int)),
                reg_of(all, program@) is None,
                reg_at_path(all, order, program@, 0) == reg_at_path(
                    all,
                    order,
                    program@,
                    i as int,
                ),
            decreases names@.len() - i,
        {
            assert(order[i as int] == names@[i as int]@);
            match find_reg(&self.registered, names[i].as_str()) {
                Some(j) => {
                    if same(self.registered[j].path.as_str(), program) {
                        return Some((self.registered[j].id, self.registered[j].path.clone()));
                    }
                },
                None => {},
            }
            i = i + 1;
        }
        None
    }
}

} // verus!
