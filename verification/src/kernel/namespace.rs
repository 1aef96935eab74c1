//! What a path means: a program, a device, a file the kernel makes up, or a place on a mount.
//!
//! The kernel owns the virtual namespace. `/bin`, `/dev`, `/proc` and the programs are
//! synthesized and never reach a mount, so an integrator implements storage and nothing else.
//! A directory the kernel invents yields to a real one of the same name.
use crate::errno::{Errno, VfsResult};
use crate::kernel::mounts::{
    called, has_links, owner, program_at, MountView, Mounts, Overlay, ProgramId,
};
use crate::kernel::path::{
    begins, first_parts, is_absolute, is_prefix, join, normal, normalize, parts, parts_between,
    path_of, split, starts_at_root, walk, walked,
};
use crate::text::{chars_of, decimal, push_decimal, same, texts};
use crate::vfs::{FileType, Vfs, VfsAnswer, VfsCall, VfsFile};
use vstd::prelude::*;

verus! {

/// How many symbolic links one path may lead through.
pub const MAX_LINKS: u32 = 40;

/// A device the kernel provides.
#[derive(Clone, Copy, PartialEq, Eq, Debug, Structural)]
pub enum Device {
    /// `/dev/null`.
    Null,
    /// `/dev/zero`.
    Zero,
    /// `/dev/random` and `/dev/urandom`.
    Random,
    /// `/dev/tty`.
    Tty,
    /// A descriptor of the process that asks: `/dev/fd/3`, `/dev/stdin`.
    Fd(i32),
}

/// What stands at a place of the kernel's own making.
#[derive(Clone, Copy, PartialEq, Eq, Debug, Structural)]
pub enum Special {
    /// Nothing of the kernel's.
    Nothing,
    /// A directory.
    Dir,
    Device(Device),
    /// A file whose content the kernel generates.
    Synth,
    /// A link to the program the process runs.
    Exe,
    /// A link to the directory the process is in.
    Cwd,
}

/// What a path was resolved to.
pub enum Node {
    /// A program of the sandbox.
    Program { id: ProgramId, guest: String },
    Device { device: Device, guest: String },
    /// A generated file.
    Synth { guest: String },
    /// A directory no mount has.
    VirtualDir { guest: String },
    /// A generated link that was not to be followed.
    VirtualLink { target: String, guest: String },
    /// A place on a mount, there or not.
    Mounted { mount: usize, rel: String, guest: String },
}

/// The content of a [`Node`].
#[verifier::ext_equal]
pub enum NodeView {
    Program { id: ProgramId, guest: Seq<char> },
    Device { device: Device, guest: Seq<char> },
    Synth { guest: Seq<char> },
    VirtualDir { guest: Seq<char> },
    VirtualLink { target: Seq<char>, guest: Seq<char> },
    Mounted { mount: usize, rel: Seq<char>, guest: Seq<char> },
}

impl View for Node {
    type V = NodeView;

    open spec fn view(&self) -> NodeView {
        match *self {
            Node::Program { id, guest } => NodeView::Program { id, guest: guest@ },
            Node::Device { device, guest } => NodeView::Device { device, guest: guest@ },
            Node::Synth { guest } => NodeView::Synth { guest: guest@ },
            Node::VirtualDir { guest } => NodeView::VirtualDir { guest: guest@ },
            Node::VirtualLink { target, guest } => NodeView::VirtualLink {
                target: target@,
                guest: guest@,
            },
            Node::Mounted { mount, rel, guest } => NodeView::Mounted {
                mount,
                rel: rel@,
                guest: guest@,
            },
        }
    }
}

/// Who is asking: what `/proc/self` depends on.
#[verifier::ext_equal]
pub struct WhoView {
    pub cwd: Seq<char>,
    pub exe: Seq<char>,
    pub pid: i32,
}

/// The value of a digit, for a character that is one.
pub open spec fn digit_value(c: char) -> Option<int> {
    if 48 <= c as u32 <= 57 {
        Some(c as u32 - 48)
    } else {
        None
    }
}

/// The number the first `n` characters spell, if they are all digits and it is small enough
/// for a descriptor.
pub open spec fn number_upto(name: Seq<char>, n: int) -> Option<int>
    decreases n,
{
    if n <= 0 {
        Some(0)
    } else {
        match (number_upto(name, n - 1), digit_value(name[n - 1])) {
            (Some(v), Some(d)) => if v * 10 + d <= i32::MAX {
                Some(v * 10 + d)
            } else {
                None
            },
            _ => None,
        }
    }
}

/// The descriptor a name under `/dev/fd` stands for.
pub open spec fn fd_number(name: Seq<char>) -> Option<int> {
    if name.len() == 0 {
        None
    } else {
        number_upto(name, name.len() as int)
    }
}

/// The descriptor a name under `/dev/fd` stands for.
pub fn parse_fd(name: &str) -> (r: Option<i32>)
    ensures
        match r {
            Some(v) => fd_number(name@) == Some(v as int),
            None => fd_number(name@) is None,
        },
{
    let chars = chars_of(name);
    if chars.len() == 0 {
        return None;
    }
    let mut v: i32 = 0;
    let mut i: usize = 0;
    while i < chars.len()
        invariant
            i <= chars@.len(),
            chars@ == name@,
            0 <= v,
            number_upto(name@, i as int) == Some(v as int),
        decreases chars@.len() - i,
    {
        let c: u32 = chars[i] as u32;
        if c < 48 || c > 57 {
            proof {
                lemma_number_stays_none(name@, i + 1, name@.len() as int);
            }
            return None;
        }
        let next: i64 = v as i64 * 10 + (c - 48) as i64;
        if next > i32::MAX as i64 {
            proof {
                lemma_number_stays_none(name@, i + 1, name@.len() as int);
            }
            return None;
        }
        v = next as i32;
        i = i + 1;
    }
    Some(v)
}

proof fn lemma_number_stays_none(name: Seq<char>, n: int, m: int)
    requires
        0 < n <= m,
        number_upto(name, n) is None,
    ensures
        number_upto(name, m) is None,
    decreases m,
{
    if n < m {
        lemma_number_stays_none(name, n, m - 1);
    }
}

/// The name of a process's own directory under `/proc`.
pub open spec fn pid_name(pid: i32) -> Seq<char> {
    if pid >= 0 {
        decimal(pid as nat)
    } else {
        Seq::empty()
    }
}

/// What a name under `/dev` is.
pub open spec fn dev_special(name: Seq<char>) -> Special {
    if name == "null"@ {
        Special::Device(Device::Null)
    } else if name == "zero"@ {
        Special::Device(Device::Zero)
    } else if name == "random"@ || name == "urandom"@ {
        Special::Device(Device::Random)
    } else if name == "tty"@ {
        Special::Device(Device::Tty)
    } else if name == "stdin"@ {
        Special::Device(Device::Fd(0))
    } else if name == "stdout"@ {
        Special::Device(Device::Fd(1))
    } else if name == "stderr"@ {
        Special::Device(Device::Fd(2))
    } else if name == "fd"@ {
        Special::Dir
    } else {
        Special::Nothing
    }
}

/// What a name under `/proc` is.
pub open spec fn proc_special(name: Seq<char>, pid: i32) -> Special {
    if name == "self"@ || name == pid_name(pid) {
        Special::Dir
    } else if name == "cpuinfo"@ || name == "meminfo"@ || name == "uptime"@ || name == "version"@
        || name == "loadavg"@ || name == "filesystems"@ || name == "mounts"@ || name == "stat"@ {
        Special::Synth
    } else {
        Special::Nothing
    }
}

/// What a name under `/proc/self` is.
pub open spec fn self_special(name: Seq<char>) -> Special {
    if name == "exe"@ {
        Special::Exe
    } else if name == "cwd"@ {
        Special::Cwd
    } else if name == "fd"@ {
        Special::Dir
    } else if name == "cmdline"@ || name == "comm"@ || name == "stat"@ || name == "status"@ {
        Special::Synth
    } else {
        Special::Nothing
    }
}

/// The descriptor device a name stands for.
pub open spec fn fd_special(name: Seq<char>) -> Special {
    match fd_number(name) {
        Some(n) => Special::Device(Device::Fd(n as i32)),
        None => Special::Nothing,
    }
}

/// What the kernel puts at a place, for the process `pid`.
pub open spec fn special(comps: Seq<Seq<char>>, pid: i32) -> Special {
    if comps.len() == 0 {
        Special::Nothing
    } else if comps[0] == "dev"@ {
        if comps.len() == 1 {
            Special::Dir
        } else if comps.len() == 2 {
            dev_special(comps[1])
        } else if comps.len() == 3 && comps[1] == "fd"@ {
            fd_special(comps[2])
        } else {
            Special::Nothing
        }
    } else if comps[0] == "proc"@ {
        if comps.len() == 1 {
            Special::Dir
        } else if comps.len() == 2 {
            proc_special(comps[1], pid)
        } else if comps[1] == "self"@ || comps[1] == pid_name(pid) {
            if comps.len() == 3 {
                self_special(comps[2])
            } else if comps.len() == 4 && comps[2] == "fd"@ {
                fd_special(comps[3])
            } else {
                Special::Nothing
            }
        } else {
            Special::Nothing
        }
    } else {
        Special::Nothing
    }
}

fn fd_device(name: &str) -> (r: Special)
    ensures
        r == fd_special(name@),
{
    match parse_fd(name) {
        Some(n) => Special::Device(Device::Fd(n)),
        None => Special::Nothing,
    }
}

fn dev_entry(name: &str) -> (r: Special)
    ensures
        r == dev_special(name@),
{
    if same(name, "null") {
        Special::Device(Device::Null)
    } else if same(name, "zero") {
        Special::Device(Device::Zero)
    } else if same(name, "random") || same(name, "urandom") {
        Special::Device(Device::Random)
    } else if same(name, "tty") {
        Special::Device(Device::Tty)
    } else if same(name, "stdin") {
        Special::Device(Device::Fd(0))
    } else if same(name, "stdout") {
        Special::Device(Device::Fd(1))
    } else if same(name, "stderr") {
        Special::Device(Device::Fd(2))
    } else if same(name, "fd") {
        Special::Dir
    } else {
        Special::Nothing
    }
}

fn is_own_dir(name: &str, pid: i32) -> (r: bool)
    ensures
        r == (name@ == "self"@ || name@ == pid_name(pid)),
{
    let mut own = String::new();
    if pid >= 0 {
        push_decimal(&mut own, pid as u64);
    }
    assert(own@ =~= pid_name(pid));
    same(name, "self") || same(name, own.as_str())
}

fn proc_entry(name: &str, pid: i32) -> (r: Special)
    ensures
        r == proc_special(name@, pid),
{
    if is_own_dir(name, pid) {
        Special::Dir
    } else if same(name, "cpuinfo") || same(name, "meminfo") || same(name, "uptime") || same(
        name,
        "version",
    ) || same(name, "loadavg") || same(name, "filesystems") || same(name, "mounts") || same(
        name,
        "stat",
    ) {
        Special::Synth
    } else {
        Special::Nothing
    }
}

fn self_entry(name: &str) -> (r: Special)
    ensures
        r == self_special(name@),
{
    if same(name, "exe") {
        Special::Exe
    } else if same(name, "cwd") {
        Special::Cwd
    } else if same(name, "fd") {
        Special::Dir
    } else if same(name, "cmdline") || same(name, "comm") || same(name, "stat") || same(
        name,
        "status",
    ) {
        Special::Synth
    } else {
        Special::Nothing
    }
}

/// What the kernel puts at a place, for the process `pid`.
pub fn special_at(comps: &Vec<String>, pid: i32) -> (r: Special)
    ensures
        r == special(texts(comps@), pid),
{
    let n: usize = comps.len();
    if n == 0 {
        Special::Nothing
    } else if same(comps[0].as_str(), "dev") {
        if n == 1 {
            Special::Dir
        } else if n == 2 {
            dev_entry(comps[1].as_str())
        } else if n == 3 && same(comps[1].as_str(), "fd") {
            fd_device(comps[2].as_str())
        } else {
            Special::Nothing
        }
    } else if same(comps[0].as_str(), "proc") {
        if n == 1 {
            Special::Dir
        } else if n == 2 {
            proc_entry(comps[1].as_str(), pid)
        } else if is_own_dir(comps[1].as_str(), pid) {
            if n == 3 {
                self_entry(comps[2].as_str())
            } else if n == 4 && same(comps[2].as_str(), "fd") {
                fd_device(comps[3].as_str())
            } else {
                Special::Nothing
            }
        } else {
            Special::Nothing
        }
    } else {
        Special::Nothing
    }
}

// ---------------------------------------------------------------------------------------------
// listings

/// One name in a directory the kernel lists.
pub struct Named {
    pub name: String,
    pub kind: FileType,
}

pub open spec fn named(list: Seq<Named>) -> Seq<(Seq<char>, FileType)> {
    list.map_values(|e: Named| (e.name@, e.kind))
}

/// Whether a listing has a name already.
pub open spec fn lists(list: Seq<(Seq<char>, FileType)>, name: Seq<char>) -> bool {
    exists|i: int| 0 <= i < list.len() && (#[trigger] list[i]).0 == name
}

/// The listing with one more name, unless it is there already.
pub open spec fn with_name(
    list: Seq<(Seq<char>, FileType)>,
    name: Seq<char>,
    kind: FileType,
) -> Seq<(Seq<char>, FileType)> {
    if lists(list, name) {
        list
    } else {
        list.push((name, kind))
    }
}

/// What the kernel itself puts into a directory.
pub open spec fn fixed_names(comps: Seq<Seq<char>>) -> Seq<(Seq<char>, FileType)> {
    if comps.len() == 0 {
        seq![("dev"@, FileType::Dir), ("proc"@, FileType::Dir)]
    } else if comps.len() == 1 && comps[0] == "dev"@ {
        seq![
            ("null"@, FileType::File),
            ("zero"@, FileType::File),
            ("random"@, FileType::File),
            ("urandom"@, FileType::File),
            ("tty"@, FileType::File),
            ("stdin"@, FileType::File),
            ("stdout"@, FileType::File),
            ("stderr"@, FileType::File),
            ("fd"@, FileType::Dir),
        ]
    } else if comps.len() == 1 && comps[0] == "proc"@ {
        seq![
            ("cpuinfo"@, FileType::File),
            ("meminfo"@, FileType::File),
            ("uptime"@, FileType::File),
            ("version"@, FileType::File),
            ("loadavg"@, FileType::File),
            ("filesystems"@, FileType::File),
            ("mounts"@, FileType::File),
            ("stat"@, FileType::File),
            ("self"@, FileType::Dir),
        ]
    } else if comps.len() == 2 && comps[0] == "proc"@ && comps[1] == "self"@ {
        seq![
            ("exe"@, FileType::Symlink),
            ("cwd"@, FileType::Symlink),
            ("cmdline"@, FileType::File),
            ("comm"@, FileType::File),
            ("stat"@, FileType::File),
            ("status"@, FileType::File),
            ("fd"@, FileType::Dir),
        ]
    } else {
        Seq::empty()
    }
}

/// Whether `of` lies below `comps`.
pub open spec fn lies_below(comps: Seq<Seq<char>>, of: Seq<Seq<char>>) -> bool {
    comps.len() < of.len() && begins(comps, of)
}

/// The listing with the entries that lead to the first `n` programs.
pub open spec fn with_programs(
    list: Seq<(Seq<char>, FileType)>,
    programs: Seq<(Seq<char>, ProgramId)>,
    comps: Seq<Seq<char>>,
    n: int,
) -> Seq<(Seq<char>, FileType)>
    decreases n,
{
    if n <= 0 {
        list
    } else {
        let rest = with_programs(list, programs, comps, n - 1);
        let place = normal("/"@, programs[n - 1].0);
        if lies_below(comps, place) {
            with_name(
                rest,
                place[comps.len() as int],
                if place.len() == comps.len() + 1 {
                    FileType::File
                } else {
                    FileType::Dir
                },
            )
        } else {
            rest
        }
    }
}

/// The listing with the entries that lead to the first `n` mount points.
pub open spec fn with_mounts<S>(
    list: Seq<(Seq<char>, FileType)>,
    ms: Seq<MountView<S>>,
    comps: Seq<Seq<char>>,
    n: int,
) -> Seq<(Seq<char>, FileType)>
    decreases n,
{
    if n <= 0 {
        list
    } else {
        let rest = with_mounts(list, ms, comps, n - 1);
        let place = ms[n - 1].comps();
        if lies_below(comps, place) {
            with_name(rest, place[comps.len() as int], FileType::Dir)
        } else {
            rest
        }
    }
}

/// Everything the kernel adds to the listing of a directory.
pub open spec fn virtual_names<S>(
    programs: Seq<(Seq<char>, ProgramId)>,
    ms: Seq<MountView<S>>,
    comps: Seq<Seq<char>>,
) -> Seq<(Seq<char>, FileType)> {
    with_mounts(
        with_programs(fixed_names(comps), programs, comps, programs.len() as int),
        ms,
        comps,
        ms.len() as int,
    )
}

fn push_fixed(out: &mut Vec<Named>, name: &str, kind: FileType)
    ensures
        named(final(out)@) == named(old(out)@).push((name@, kind)),
{
    let ghost before = named(out@);
    out.push(Named { name: name.to_owned(), kind });
    assert(named(out@) =~= before.push((name@, kind)));
}

fn fixed_entries(comps: &Vec<String>) -> (r: Vec<Named>)
    ensures
        named(r@) == fixed_names(texts(comps@)),
{
    let mut out: Vec<Named> = Vec::new();
    assert(named(out@) =~= Seq::empty());
    let n: usize = comps.len();
    if n == 0 {
        push_fixed(&mut out, "dev", FileType::Dir);
        push_fixed(&mut out, "proc", FileType::Dir);
    } else if n == 1 && same(comps[0].as_str(), "dev") {
        push_fixed(&mut out, "null", FileType::File);
        push_fixed(&mut out, "zero", FileType::File);
        push_fixed(&mut out, "random", FileType::File);
        push_fixed(&mut out, "urandom", FileType::File);
        push_fixed(&mut out, "tty", FileType::File);
        push_fixed(&mut out, "stdin", FileType::File);
        push_fixed(&mut out, "stdout", FileType::File);
        push_fixed(&mut out, "stderr", FileType::File);
        push_fixed(&mut out, "fd", FileType::Dir);
    } else if n == 1 && same(comps[0].as_str(), "proc") {
        push_fixed(&mut out, "cpuinfo", FileType::File);
        push_fixed(&mut out, "meminfo", FileType::File);
        push_fixed(&mut out, "uptime", FileType::File);
        push_fixed(&mut out, "version", FileType::File);
        push_fixed(&mut out, "loadavg", FileType::File);
        push_fixed(&mut out, "filesystems", FileType::File);
        push_fixed(&mut out, "mounts", FileType::File);
        push_fixed(&mut out, "stat", FileType::File);
        push_fixed(&mut out, "self", FileType::Dir);
    } else if n == 2 && same(comps[0].as_str(), "proc") && same(comps[1].as_str(), "self") {
        push_fixed(&mut out, "exe", FileType::Symlink);
        push_fixed(&mut out, "cwd", FileType::Symlink);
        push_fixed(&mut out, "cmdline", FileType::File);
        push_fixed(&mut out, "comm", FileType::File);
        push_fixed(&mut out, "stat", FileType::File);
        push_fixed(&mut out, "status", FileType::File);
        push_fixed(&mut out, "fd", FileType::Dir);
    }
    assert(named(out@) =~= fixed_names(texts(comps@)));
    out
}

/// Add a name to a listing, unless it is there already.
pub fn add_name(out: &mut Vec<Named>, name: &str, kind: FileType)
    ensures
        named(final(out)@) == with_name(named(old(out)@), name@, kind),
{
    let ghost before = named(out@);
    let mut i: usize = 0;
    while i < out.len()
        invariant
            i <= out@.len(),
            before == named(out@),
            forall|j: int| 0 <= j < i ==> (#[trigger] before[j]).0 != name@,
        decreases out@.len() - i,
    {
        if same(out[i].name.as_str(), name) {
            assert(before[i as int].0 == name@);
            return ;
        }
        assert(before[i as int].0 == out@[i as int].name@);
        i = i + 1;
    }
    out.push(Named { name: name.to_owned(), kind });
    assert(named(out@) =~= before.push((name@, kind)));
}

/// Everything the kernel adds to the listing of a directory: its own entries, and those that
/// lead to a program or a mount point.
pub fn virtual_entries<V: Vfs>(overlay: &Overlay, fs: &Mounts<V>, guest: &str) -> (r: Vec<Named>)
    ensures
        named(r@) == virtual_names(overlay@, fs@, normal("/"@, guest@)),
{
    let comps = normalize("/", guest);
    let ghost place = texts(comps@);
    let mut out = fixed_entries(&comps);
    let mut i: usize = 0;
    while i < overlay.len()
        invariant
            i <= overlay@.len(),
            place == texts(comps@),
            named(out@) == with_programs(fixed_names(place), overlay@, place, i as int),
        decreases overlay@.len() - i,
    {
        let at = normalize("/", overlay.path(i));
        if comps.len() < at.len() && is_prefix(&comps, &at) {
            let kind = if at.len() == comps.len() + 1 {
                FileType::File
            } else {
                FileType::Dir
            };
            assert(texts(at@)[place.len() as int] == at@[place.len() as int]@);
            add_name(&mut out, at[comps.len()].as_str(), kind);
        }
        i = i + 1;
    }
    let ghost first = named(out@);
    let mut i: usize = 0;
    while i < fs.len()
        invariant
            i <= fs@.len(),
            place == texts(comps@),
            named(out@) == with_mounts(first, fs@, place, i as int),
        decreases fs@.len() - i,
    {
        let at = normalize("/", fs.mount_point(i));
        if comps.len() < at.len() && is_prefix(&comps, &at) {
            assert(texts(at@)[place.len() as int] == at@[place.len() as int]@);
            add_name(&mut out, at[comps.len()].as_str(), FileType::Dir);
        }
        i = i + 1;
    }
    out
}

/// Whether a program appears somewhere below a place.
pub open spec fn above_program(
    programs: Seq<(Seq<char>, ProgramId)>,
    comps: Seq<Seq<char>>,
) -> bool {
    exists|i: int|
        0 <= i < programs.len() && lies_below(comps, normal("/"@, (#[trigger] programs[i]).0))
}

/// Whether something is mounted somewhere below a place.
pub open spec fn above_mount<S>(ms: Seq<MountView<S>>, comps: Seq<Seq<char>>) -> bool {
    exists|i: int| 0 <= i < ms.len() && lies_below(comps, (#[trigger] ms[i]).comps())
}

/// Whether the kernel has to invent a directory, so that what lies below it can be reached.
pub open spec fn is_invented<S>(
    programs: Seq<(Seq<char>, ProgramId)>,
    ms: Seq<MountView<S>>,
    comps: Seq<Seq<char>>,
    pid: i32,
) -> bool {
    special(comps, pid) is Dir || above_program(programs, comps) || above_mount(ms, comps)
}

fn invented<V: Vfs>(overlay: &Overlay, fs: &Mounts<V>, comps: &Vec<String>, pid: i32) -> (r: bool)
    ensures
        r == is_invented(overlay@, fs@, texts(comps@), pid),
{
    let ghost place = texts(comps@);
    if special_at(comps, pid) == Special::Dir {
        return true;
    }
    let mut i: usize = 0;
    while i < overlay.len()
        invariant
            i <= overlay@.len(),
            place == texts(comps@),
            forall|j: int|
                0 <= j < i ==> !lies_below(place, normal("/"@, (#[trigger] overlay@[j]).0)),
        decreases overlay@.len() - i,
    {
        let at = normalize("/", overlay.path(i));
        if comps.len() < at.len() && is_prefix(comps, &at) {
            assert(lies_below(place, normal("/"@, overlay@[i as int].0)));
            return true;
        }
        i = i + 1;
    }
    let mut i: usize = 0;
    while i < fs.len()
        invariant
            i <= fs@.len(),
            place == texts(comps@),
            forall|j: int| 0 <= j < i ==> !lies_below(place, (#[trigger] fs@[j]).comps()),
        decreases fs@.len() - i,
    {
        let at = normalize("/", fs.mount_point(i));
        if comps.len() < at.len() && is_prefix(comps, &at) {
            assert(lies_below(place, fs@[i as int].comps()));
            return true;
        }
        i = i + 1;
    }
    false
}

// ---------------------------------------------------------------------------------------------
// symbolic links

/// What looking for links along a path comes to.
#[verifier::ext_equal]
pub enum Probed {
    /// There are none left.
    Clear,
    /// One was found; the path leads here instead.
    Elsewhere(Seq<Seq<char>>),
    Fail(Errno),
}

/// Where a path leads once the link at its `k`th component is replaced by its target.
pub open spec fn redirected(comps: Seq<Seq<char>>, k: int, target: Seq<char>) -> Seq<Seq<char>> {
    let start = if is_absolute(target) {
        Seq::empty()
    } else {
        comps.subrange(0, k - 1)
    };
    walked(walked(start, parts(target)), comps.subrange(k, comps.len() as int))
}

/// The mount to ask whether a place is a symlink, if any: not for what the kernel provides,
/// not for a mount point, and not where there are no symlinks.
pub open spec fn link_owner<V: Vfs>(
    programs: Seq<(Seq<char>, ProgramId)>,
    ms: Seq<MountView<<V as VfsFile>::State>>,
    comps: Seq<Seq<char>>,
    pid: i32,
) -> Option<int> {
    if !(special(comps, pid) is Nothing) || program_at(programs, path_of(comps)) is Some {
        None
    } else {
        match owner(ms, comps) {
            Some(i) => if has_links::<V>(ms, i) && comps.len() > ms[i].comps().len() {
                Some(i)
            } else {
                None
            },
            None => None,
        }
    }
}

/// Look for a link along a path, from its `k`th component on. The last one counts only where
/// it is to be followed.
pub open spec fn probed<V: Vfs>(
    programs: Seq<(Seq<char>, ProgramId)>,
    ms: Seq<MountView<<V as VfsFile>::State>>,
    who: WhoView,
    comps: Seq<Seq<char>>,
    k: int,
    follow: bool,
) -> (Seq<MountView<<V as VfsFile>::State>>, Probed)
    decreases comps.len() - k + 1,
{
    if k > comps.len() || (k == comps.len() && !follow) {
        (ms, Probed::Clear)
    } else {
        let place = comps.subrange(0, k);
        if special(place, who.pid) is Exe {
            (ms, Probed::Elsewhere(redirected(comps, k, who.exe)))
        } else if special(place, who.pid) is Cwd {
            (ms, Probed::Elsewhere(redirected(comps, k, who.cwd)))
        } else {
            match link_owner::<V>(programs, ms, place, who.pid) {
                None => probed::<V>(programs, ms, who, comps, k + 1, follow),
                Some(i) => {
                    let rel = ms[i].rel(place);
                    let (next, answer) = called::<V>(
                        ms,
                        i,
                        VfsCall::Stat { path: rel, follow: false },
                    );
                    match answer {
                        VfsAnswer::Stat(st) => if st.file_type is Symlink {
                            let (after, link) = called::<V>(
                                next,
                                i,
                                VfsCall::Readlink { path: rel },
                            );
                            match link {
                                VfsAnswer::Target(t) => (
                                    after,
                                    Probed::Elsewhere(redirected(comps, k, t)),
                                ),
                                VfsAnswer::Fail(e) => (after, Probed::Fail(e)),
                                _ => (after, Probed::Fail(Errno::IO)),
                            }
                        } else {
                            probed::<V>(programs, next, who, comps, k + 1, follow)
                        },
                        VfsAnswer::Fail(e) => if e.is_same(Errno::NOENT) || e.is_same(
                            Errno::NOTDIR,
                        ) {
                            probed::<V>(programs, next, who, comps, k + 1, follow)
                        } else {
                            (next, Probed::Fail(e))
                        },
                        _ => (next, Probed::Fail(Errno::IO)),
                    }
                },
            }
        }
    }
}

/// What stands at a place that no link leads away from.
pub open spec fn settled<V: Vfs>(
    programs: Seq<(Seq<char>, ProgramId)>,
    ms: Seq<MountView<<V as VfsFile>::State>>,
    who: WhoView,
    comps: Seq<Seq<char>>,
) -> (Seq<MountView<<V as VfsFile>::State>>, VfsResult<NodeView>) {
    let guest = path_of(comps);
    match program_at(programs, guest) {
        Some(id) => (ms, Ok(NodeView::Program { id, guest })),
        None => match special(comps, who.pid) {
            Special::Device(d) => (ms, Ok(NodeView::Device { device: d, guest })),
            Special::Synth => (ms, Ok(NodeView::Synth { guest })),
            Special::Exe => (ms, Ok(NodeView::VirtualLink { target: who.exe, guest })),
            Special::Cwd => (ms, Ok(NodeView::VirtualLink { target: who.cwd, guest })),
            _ => {
                let invented = is_invented(programs, ms, comps, who.pid);
                match owner(ms, comps) {
                    None => if invented {
                        (ms, Ok(NodeView::VirtualDir { guest }))
                    } else {
                        (ms, Err(Errno::NOENT))
                    },
                    Some(i) => {
                        let rel = ms[i].rel(comps);
                        let here = NodeView::Mounted { mount: i as usize, rel, guest };
                        if invented {
                            let (next, answer) = called::<V>(
                                ms,
                                i,
                                VfsCall::Stat { path: rel, follow: true },
                            );
                            match answer {
                                VfsAnswer::Stat(st) => if st.file_type is Dir {
                                    (next, Ok(here))
                                } else {
                                    (next, Ok(NodeView::VirtualDir { guest }))
                                },
                                VfsAnswer::Fail(e) => if e.is_same(Errno::AGAIN) {
                                    (next, Err(Errno::AGAIN))
                                } else {
                                    (next, Ok(NodeView::VirtualDir { guest }))
                                },
                                _ => (next, Ok(NodeView::VirtualDir { guest })),
                            }
                        } else {
                            (ms, Ok(here))
                        }
                    },
                }
            },
        },
    }
}

/// What a place means after `depth` links were followed to it.
pub open spec fn resolved_from<V: Vfs>(
    programs: Seq<(Seq<char>, ProgramId)>,
    ms: Seq<MountView<<V as VfsFile>::State>>,
    who: WhoView,
    comps: Seq<Seq<char>>,
    follow: bool,
    depth: int,
) -> (Seq<MountView<<V as VfsFile>::State>>, VfsResult<NodeView>)
    decreases MAX_LINKS - depth,
{
    let (next, found) = probed::<V>(programs, ms, who, comps, 1, follow);
    match found {
        Probed::Fail(e) => (next, Err(e)),
        Probed::Clear => settled::<V>(programs, next, who, comps),
        Probed::Elsewhere(there) => if depth >= MAX_LINKS {
            (next, Err(Errno::LOOP))
        } else {
            resolved_from::<V>(programs, next, who, there, follow, depth + 1)
        },
    }
}

/// What `path` means, seen from `base`.
pub open spec fn resolved<V: Vfs>(
    programs: Seq<(Seq<char>, ProgramId)>,
    ms: Seq<MountView<<V as VfsFile>::State>>,
    who: WhoView,
    base: Seq<char>,
    path: Seq<char>,
    follow: bool,
) -> (Seq<MountView<<V as VfsFile>::State>>, VfsResult<NodeView>) {
    resolved_from::<V>(programs, ms, who, normal(base, path), follow, 0)
}

/// The result of a resolution, as its model.
pub open spec fn node_result(r: VfsResult<Node>) -> VfsResult<NodeView> {
    match r {
        Ok(node) => Ok(node@),
        Err(e) => Err(e),
    }
}

/// What looking for links along a path comes to.
enum Found {
    Clear,
    Elsewhere(Vec<String>),
    Fail(Errno),
}

spec fn found_view(f: Found) -> Probed {
    match f {
        Found::Clear => Probed::Clear,
        Found::Elsewhere(there) => Probed::Elsewhere(texts(there@)),
        Found::Fail(e) => Probed::Fail(e),
    }
}

fn redirect(comps: &Vec<String>, k: usize, target: &str) -> (r: Vec<String>)
    requires
        1 <= k <= comps@.len(),
    ensures
        texts(r@) == redirected(texts(comps@), k as int, target@),
{
    let start: Vec<String> = if starts_at_root(target) {
        let none: Vec<String> = Vec::new();
        assert(texts(none@) =~= Seq::empty());
        none
    } else {
        first_parts(comps, k - 1)
    };
    let there = walk(start, &split(target));
    walk(there, &parts_between(comps, k, comps.len()))
}

/// The mount to ask whether a place is a symlink, if any, and the place's path there.
fn link_mount<V: Vfs>(overlay: &Overlay, fs: &Mounts<V>, place: &Vec<String>, pid: i32) -> (r:
    Option<(usize, String)>)
    requires
        fs.wf(),
    ensures
        match r {
            Some((i, rel)) => {
                &&& i < fs@.len()
                &&& link_owner::<V>(overlay@, fs@, texts(place@), pid) == Some(i as int)
                &&& rel@ == fs@[i as int].rel(texts(place@))
            },
            None => link_owner::<V>(overlay@, fs@, texts(place@), pid) is None,
        },
{
    if special_at(place, pid) != Special::Nothing {
        return None;
    }
    if overlay.program(join(place).as_str()).is_some() {
        return None;
    }
    match fs.find(place) {
        Some((i, rel)) => if fs.has_symlinks(i) && place.len() > fs.depth(i) {
            Some((i, rel))
        } else {
            None
        },
        None => None,
    }
}

fn probe<V: Vfs>(
    overlay: &Overlay,
    fs: &mut Mounts<V>,
    cwd: &str,
    exe: &str,
    pid: i32,
    comps: &Vec<String>,
    follow: bool,
) -> (r: Found)
    requires
        old(fs).wf(),
    ensures
        final(fs).wf(),
        probed::<V>(
            overlay@,
            old(fs)@,
            (WhoView { cwd: cwd@, exe: exe@, pid }),
            texts(comps@),
            1,
            follow,
        ) == (final(fs)@, found_view(r)),
{
    let ghost who = WhoView { cwd: cwd@, exe: exe@, pid };
    let ghost start = fs@;
    let mut done: usize = 0;
    loop
        invariant
            fs.wf(),
            start == old(fs)@,
            done <= comps@.len(),
            who == (WhoView { cwd: cwd@, exe: exe@, pid }),
            probed::<V>(overlay@, start, who, texts(comps@), 1, follow) == probed::<V>(
                overlay@,
                fs@,
                who,
                texts(comps@),
                done + 1,
                follow,
            ),
        decreases comps@.len() - done,
    {
        let n: usize = comps.len();
        if done == n {
            return Found::Clear;
        }
        let k: usize = done + 1;
        if k == n && !follow {
            return Found::Clear;
        }
        let place = first_parts(comps, k);
        let what = special_at(&place, pid);
        if what == Special::Exe {
            return Found::Elsewhere(redirect(comps, k, exe));
        }
        if what == Special::Cwd {
            return Found::Elsewhere(redirect(comps, k, cwd));
        }
        match link_mount(overlay, fs, &place, pid) {
            None => {},
            Some((i, rel)) => {
                match fs.stat(i, rel.as_str(), false) {
                    Ok(st) => {
                        if st.file_type == FileType::Symlink {
                            return match fs.readlink(i, rel.as_str()) {
                                Ok(target) => Found::Elsewhere(
                                    redirect(comps, k, target.as_str()),
                                ),
                                Err(e) => Found::Fail(e),
                            };
                        }
                    },
                    Err(e) => {
                        if !e.same_as(Errno::NOENT) && !e.same_as(Errno::NOTDIR) {
                            return Found::Fail(e);
                        }
                    },
                }
            },
        }
        done = k;
    }
}

fn settle<V: Vfs>(
    overlay: &Overlay,
    fs: &mut Mounts<V>,
    cwd: &str,
    exe: &str,
    pid: i32,
    comps: &Vec<String>,
) -> (r: VfsResult<Node>)
    requires
        old(fs).wf(),
    ensures
        final(fs).wf(),
        settled::<V>(
            overlay@,
            old(fs)@,
            (WhoView { cwd: cwd@, exe: exe@, pid }),
            texts(comps@),
        ) == (final(fs)@, node_result(r)),
{
    let guest = join(comps);
    match overlay.program(guest.as_str()) {
        Some(id) => return Ok(Node::Program { id, guest }),
        None => {},
    }
    match special_at(comps, pid) {
        Special::Device(d) => return Ok(Node::Device { device: d, guest }),
        Special::Synth => return Ok(Node::Synth { guest }),
        Special::Exe => return Ok(Node::VirtualLink { target: exe.to_owned(), guest }),
        Special::Cwd => return Ok(Node::VirtualLink { target: cwd.to_owned(), guest }),
        Special::Dir | Special::Nothing => {},
    }
    let invented = invented(overlay, fs, comps, pid);
    match fs.find(comps) {
        None => if invented {
            Ok(Node::VirtualDir { guest })
        } else {
            Err(Errno::NOENT)
        },
        Some((mount, rel)) => {
            if !invented {
                return Ok(Node::Mounted { mount, rel, guest });
            }
            match fs.stat(mount, rel.as_str(), true) {
                Ok(st) => if st.file_type == FileType::Dir {
                    Ok(Node::Mounted { mount, rel, guest })
                } else {
                    Ok(Node::VirtualDir { guest })
                },
                Err(e) => if e.same_as(Errno::AGAIN) {
                    Err(Errno::AGAIN)
                } else {
                    Ok(Node::VirtualDir { guest })
                },
            }
        },
    }
}

/// Find out what `path` means, seen from `base`, for a process in `cwd` that runs `exe`.
/// With `follow` false a link at the very end is left alone.
pub fn resolve<V: Vfs>(
    overlay: &Overlay,
    fs: &mut Mounts<V>,
    cwd: &str,
    exe: &str,
    pid: i32,
    base: &str,
    path: &str,
    follow: bool,
) -> (r: VfsResult<Node>)
    requires
        old(fs).wf(),
    ensures
        final(fs).wf(),
        resolved::<V>(
            overlay@,
            old(fs)@,
            (WhoView { cwd: cwd@, exe: exe@, pid }),
            base@,
            path@,
            follow,
        ) == (final(fs)@, node_result(r)),
{
    let ghost who = WhoView { cwd: cwd@, exe: exe@, pid };
    let ghost start = fs@;
    let ghost first = normal(base@, path@);
    let mut comps = normalize(base, path);
    let mut depth: u32 = 0;
    loop
        invariant
            depth <= MAX_LINKS,
            fs.wf(),
            start == old(fs)@,
            first == normal(base@, path@),
            who == (WhoView { cwd: cwd@, exe: exe@, pid }),
            resolved_from::<V>(overlay@, start, who, first, follow, 0) == resolved_from::<V>(
                overlay@,
                fs@,
                who,
                texts(comps@),
                follow,
                depth as int,
            ),
        decreases MAX_LINKS - depth,
    {
        match probe(overlay, fs, cwd, exe, pid, &comps, follow) {
            Found::Fail(e) => return Err(e),
            Found::Clear => return settle(overlay, fs, cwd, exe, pid, &comps),
            Found::Elsewhere(there) => {
                if depth >= MAX_LINKS {
                    return Err(Errno::LOOP);
                }
                comps = there;
                depth = depth + 1;
            },
        }
    }
}

} // verus!
