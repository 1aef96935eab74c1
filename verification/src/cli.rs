//! What the command line front end decides: what its arguments ask for, what to do with each
//! report of a session, and what to exit with.
use crate::host::HostCommand;
use crate::kernel::mem::Nanos;
use crate::kernel::state::{default_limits, Limits};
use crate::sandbox::{env_view, infos, EnvVar, ProgramInfo, Sandbox, SandboxView};
use crate::session::{
    prepared, shell_code_of, Command, CommandView, ExitStatus, FinishedView, Output, Progress,
    ProgressView, Wait,
};
use crate::text::{chars_of, number_of, parse_number, same, text_of, texts};
use crate::vfs::Vfs;
use vstd::prelude::*;
use vstd::string::*;

verus! {

// ---------------------------------------------------------------------------------------------
// arguments

/// What the arguments ask for.
pub struct Options {
    /// Say how it is used, and nothing else.
    pub help: bool,
    /// List the programs.
    pub list: bool,
    /// A host directory to mount at `/`.
    pub dir: Option<String>,
    /// A host directory to mount read-only at `/ro`.
    pub readonly: Option<String>,
    pub script: Option<String>,
    pub env: Vec<EnvVar>,
    pub memory_mib: u64,
    pub timeout: u64,
    pub stream: bool,
    pub stats: bool,
    pub command: Vec<String>,
}

/// The content of some [`Options`].
#[verifier::ext_equal]
pub struct OptionsView {
    pub help: bool,
    pub list: bool,
    pub dir: Option<Seq<char>>,
    pub readonly: Option<Seq<char>>,
    pub script: Option<Seq<char>>,
    pub env: Seq<(Seq<char>, Seq<char>)>,
    pub memory_mib: u64,
    pub timeout: u64,
    pub stream: bool,
    pub stats: bool,
    pub command: Seq<Seq<char>>,
}

/// The text of an optional string.
pub open spec fn maybe(s: Option<String>) -> Option<Seq<char>> {
    match s {
        Some(s) => Some(s@),
        None => None,
    }
}

impl View for Options {
    type V = OptionsView;

    open spec fn view(&self) -> OptionsView {
        OptionsView {
            help: self.help,
            list: self.list,
            dir: maybe(self.dir),
            readonly: maybe(self.readonly),
            script: maybe(self.script),
            env: env_view(self.env@),
            memory_mib: self.memory_mib,
            timeout: self.timeout,
            stream: self.stream,
            stats: self.stats,
            command: texts(self.command@),
        }
    }
}

impl OptionsView {
    /// What is asked for where nothing is said.
    pub open spec fn fresh() -> OptionsView {
        OptionsView {
            help: false,
            list: false,
            dir: None,
            readonly: None,
            script: None,
            env: Seq::empty(),
            memory_mib: 256,
            timeout: 60,
            stream: false,
            stats: false,
            command: Seq::empty(),
        }
    }
}

/// The position of the first equals sign at or after `i`, or the end.
pub open spec fn equals_at(t: Seq<char>, i: int) -> int
    decreases t.len() - i,
{
    if i >= t.len() || t[i] == '=' {
        i
    } else {
        equals_at(t, i + 1)
    }
}

/// A variable and its value, parted at the first equals sign.
pub open spec fn parted(t: Seq<char>) -> Option<(Seq<char>, Seq<char>)> {
    let at = equals_at(t, 0);
    if at < t.len() {
        Some((t.subrange(0, at), t.subrange(at + 1, t.len() as int)))
    } else {
        None
    }
}

/// What the arguments from the `i`th on ask for, on top of `o`, or what is wrong with them. The
/// first argument that is no option is the command, and everything behind it is the command's.
pub open spec fn asked_for(args: Seq<Seq<char>>, i: int, o: OptionsView) -> Result<
    OptionsView,
    Seq<char>,
>
    decreases args.len() - i,
{
    if i >= args.len() {
        Ok(o)
    } else {
        let arg = args[i];
        let has_next = i + 1 < args.len();
        let next = args[i + 1];
        if arg == "-h"@ || arg == "--help"@ {
            Ok(OptionsView { help: true, ..o })
        } else if arg == "--programs"@ {
            asked_for(args, i + 1, OptionsView { list: true, ..o })
        } else if arg == "-d"@ || arg == "--dir"@ {
            if has_next {
                asked_for(args, i + 2, OptionsView { dir: Some(next), ..o })
            } else {
                Err("--dir needs a path"@)
            }
        } else if arg == "--ro"@ {
            if has_next {
                asked_for(args, i + 2, OptionsView { readonly: Some(next), ..o })
            } else {
                Err("--ro needs a path"@)
            }
        } else if arg == "-c"@ {
            if has_next {
                asked_for(args, i + 2, OptionsView { script: Some(next), ..o })
            } else {
                Err("-c needs a script"@)
            }
        } else if arg == "-e"@ || arg == "--env"@ {
            if has_next && parted(next) is Some {
                asked_for(args, i + 2, OptionsView { env: o.env.push(parted(next)->0), ..o })
            } else {
                Err("--env needs KEY=VALUE"@)
            }
        } else if arg == "--memory"@ {
            if has_next && number_of(next) is Some {
                asked_for(args, i + 2, OptionsView { memory_mib: number_of(next)->0, ..o })
            } else {
                Err("--memory needs a number"@)
            }
        } else if arg == "--timeout"@ {
            if has_next && number_of(next) is Some {
                asked_for(args, i + 2, OptionsView { timeout: number_of(next)->0, ..o })
            } else {
                Err("--timeout needs a number"@)
            }
        } else if arg == "--stream"@ {
            asked_for(args, i + 1, OptionsView { stream: true, ..o })
        } else if arg == "--stats"@ {
            asked_for(args, i + 1, OptionsView { stats: true, ..o })
        } else {
            Ok(OptionsView { command: o.command + args.subrange(i, args.len() as int), ..o })
        }
    }
}

/// Part a variable from its value.
fn part(text: &str) -> (r: Option<EnvVar>)
    ensures
        match r {
            Some(e) => parted(text@) == Some((e.key@, e.value@)),
            None => parted(text@) is None,
        },
{
    let t = chars_of(text);
    let n: usize = t.len();
    let mut at: usize = 0;
    while at < n && t[at] != '='
        invariant
            at <= n,
            n == t@.len(),
            equals_at(t@, 0) == equals_at(t@, at as int),
        decreases n - at,
    {
        at = at + 1;
    }
    if at >= n {
        return None;
    }
    let key = text_of(vstd::slice::slice_subrange(t.as_slice(), 0, at));
    let value = text_of(vstd::slice::slice_subrange(t.as_slice(), at + 1, n));
    Some(EnvVar { key, value })
}

impl Options {
    /// What is asked for where nothing is said.
    pub fn new() -> (r: Options)
        ensures
            r@ == OptionsView::fresh(),
    {
        let r = Options {
            help: false,
            list: false,
            dir: None,
            readonly: None,
            script: None,
            env: Vec::new(),
            memory_mib: 256,
            timeout: 60,
            stream: false,
            stats: false,
            command: Vec::new(),
        };
        assert(env_view(r.env@) =~= Seq::empty());
        assert(texts(r.command@) =~= Seq::empty());
        r
    }

    fn push_env(&mut self, e: EnvVar)
        ensures
            final(self)@ == (OptionsView {
                env: old(self)@.env.push((e.key@, e.value@)),
                ..old(self)@
            }),
    {
        let ghost before = self@;
        let ghost added = (e.key@, e.value@);
        self.env.push(e);
        assert(self@.env =~= before.env.push(added));
    }

    fn take_command(&mut self, args: &Vec<String>, from: usize)
        requires
            from <= args@.len(),
        ensures
            final(self)@ == (OptionsView {
                command: old(self)@.command + texts(args@).subrange(
                    from as int,
                    args@.len() as int,
                ),
                ..old(self)@
            }),
    {
        let ghost before = self@;
        let ghost all = texts(args@);
        let n: usize = args.len();
        let mut i: usize = from;
        assert(self@.command =~= before.command + all.subrange(from as int, from as int));
        while i < n
            invariant
                from <= i <= n,
                n == args@.len(),
                all == texts(args@),
                self@ == (OptionsView {
                    command: before.command + all.subrange(from as int, i as int),
                    ..before
                }),
            decreases n - i,
        {
            let ghost held = self@.command;
            self.command.push(args[i].clone());
            assert(all[i as int] == args@[i as int]@);
            assert(self@.command =~= held.push(all[i as int]));
            i = i + 1;
            assert(self@.command =~= before.command + all.subrange(from as int, i as int));
        }
    }

    /// What the arguments ask for, or what is wrong with them.
    pub fn parse(args: &Vec<String>) -> (r: Result<Options, String>)
        ensures
            match r {
                Ok(o) => asked_for(texts(args@), 0, OptionsView::fresh()) == Ok::<
                    OptionsView,
                    Seq<char>,
                >(o@),
                Err(e) => asked_for(texts(args@), 0, OptionsView::fresh()) == Err::<
                    OptionsView,
                    Seq<char>,
                >(e@),
            },
    {
        let ghost all = texts(args@);
        let mut o = Options::new();
        let n: usize = args.len();
        let mut i: usize = 0;
        while i < n
            invariant
                i <= n,
                n == args@.len(),
                all == texts(args@),
                asked_for(all, 0, OptionsView::fresh()) == asked_for(all, i as int, o@),
            decreases n - i,
        {
            let arg = args[i].as_str();
            assert(all[i as int] == arg@);
            let more = n - i > 1;
            let next = if more {
                assert(all[i + 1] == args@[i + 1]@);
                args[i + 1].as_str()
            } else {
                ""
            };
            if same(arg, "-h") || same(arg, "--help") {
                o.help = true;
                return Ok(o);
            } else if same(arg, "--programs") {
                o.list = true;
                i = i + 1;
            } else if same(arg, "-d") || same(arg, "--dir") {
                if !more {
                    return Err("--dir needs a path".to_owned());
                }
                o.dir = Some(next.to_owned());
                i = i + 2;
            } else if same(arg, "--ro") {
                if !more {
                    return Err("--ro needs a path".to_owned());
                }
                o.readonly = Some(next.to_owned());
                i = i + 2;
            } else if same(arg, "-c") {
                if !more {
                    return Err("-c needs a script".to_owned());
                }
                o.script = Some(next.to_owned());
                i = i + 2;
            } else if same(arg, "-e") || same(arg, "--env") {
                if !more {
                    return Err("--env needs KEY=VALUE".to_owned());
                }
                match part(next) {
                    Some(e) => o.push_env(e),
                    None => return Err("--env needs KEY=VALUE".to_owned()),
                }
                i = i + 2;
            } else if same(arg, "--memory") {
                if !more {
                    return Err("--memory needs a number".to_owned());
                }
                match parse_number(next) {
                    Some(v) => o.memory_mib = v,
                    None => return Err("--memory needs a number".to_owned()),
                }
                i = i + 2;
            } else if same(arg, "--timeout") {
                if !more {
                    return Err("--timeout needs a number".to_owned());
                }
                match parse_number(next) {
                    Some(v) => o.timeout = v,
                    None => return Err("--timeout needs a number".to_owned()),
                }
                i = i + 2;
            } else if same(arg, "--stream") {
                o.stream = true;
                i = i + 1;
            } else if same(arg, "--stats") {
                o.stats = true;
                i = i + 1;
            } else {
                o.take_command(args, i);
                return Ok(o);
            }
        }
        Ok(o)
    }

    /// The limits the session runs under: the memory asked for, a quarter of it for any one
    /// process, and the time asked for.
    pub fn limits(&self) -> (r: Limits)
        ensures
            r == limits_of(self@),
    {
        let wide: u128 = self.memory_mib as u128 * 0x10_0000;
        let memory: u64 = if wide > u64::MAX as u128 {
            u64::MAX
        } else {
            wide as u64
        };
        let wall_clock: Nanos = self.timeout as u128 * 1_000_000_000;
        Limits {
            memory,
            memory_per_process: memory / 4,
            wall_clock: Some(wall_clock),
            ..Limits::default()
        }
    }

    /// The command to run: the script, or the command and its arguments, or a shell.
    pub fn command<'a, V: Vfs, H: HostCommand>(&self, sandbox: &'a Sandbox<V, H>) -> (r: Command<
        'a,
        V,
        H,
    >)
        ensures
            r@ == command_of(self@, sandbox@),
            r.sandbox == sandbox,
    {
        match &self.script {
            Some(script) => return sandbox.shell(script.as_str()),
            None => {},
        }
        if self.command.len() == 0 {
            return sandbox.command("sh");
        }
        assert(texts(self.command@)[0] == self.command@[0]@);
        let mut rest: Vec<String> = Vec::new();
        let ghost all = texts(self.command@);
        let mut i: usize = 1;
        assert(texts(rest@) =~= all.subrange(1, 1));
        while i < self.command.len()
            invariant
                1 <= i <= self.command@.len(),
                all == texts(self.command@),
                texts(rest@) == all.subrange(1, i as int),
            decreases self.command@.len() - i,
        {
            let ghost held = texts(rest@);
            rest.push(self.command[i].clone());
            assert(all[i as int] == self.command@[i as int]@);
            assert(texts(rest@) =~= held.push(all[i as int]));
            i = i + 1;
            assert(texts(rest@) =~= all.subrange(1, i as int));
        }
        let r = sandbox.command(self.command[0].as_str()).args(rest);
        assert(r@.args =~= all.subrange(1, all.len() as int));
        r
    }
}

/// The limits some options ask for.
pub open spec fn limits_of(o: OptionsView) -> Limits {
    let memory = if o.memory_mib * 0x10_0000 > u64::MAX {
        u64::MAX
    } else {
        (o.memory_mib * 0x10_0000) as u64
    };
    Limits {
        memory,
        memory_per_process: memory / 4,
        wall_clock: Some((o.timeout * 1_000_000_000) as Nanos),
        ..default_limits()
    }
}

/// The command some options ask for.
pub open spec fn command_of<S>(o: OptionsView, s: SandboxView<S>) -> CommandView {
    match o.script {
        Some(script) => CommandView { args: seq!["-c"@, script], ..prepared(s, "sh"@) },
        None => if o.command.len() == 0 {
            prepared(s, "sh"@)
        } else {
            CommandView {
                args: o.command.subrange(1, o.command.len() as int),
                ..prepared(s, o.command[0])
            }
        },
    }
}

// ---------------------------------------------------------------------------------------------
// driving a session

/// The longest nap between two looks at a sleeping session.
pub const LONGEST_NAP: Nanos = 50_000_000;

/// What to do with a report.
pub enum Move {
    /// The command is over.
    Finish(Output),
    /// Go on.
    Again,
    /// Read the host's standard input and feed it.
    ReadInput,
    /// Sleep so long, and go on.
    Sleep(Nanos),
    /// Something asked to be awaited, which a command line cannot do.
    Refuse,
}

/// The content of a [`Move`].
#[verifier::ext_equal]
pub enum MoveView {
    Finish(FinishedView),
    Again,
    ReadInput,
    Sleep(Nanos),
    Refuse,
}

impl View for Move {
    type V = MoveView;

    open spec fn view(&self) -> MoveView {
        match *self {
            Move::Finish(output) => MoveView::Finish(output@),
            Move::Again => MoveView::Again,
            Move::ReadInput => MoveView::ReadInput,
            Move::Sleep(nap) => MoveView::Sleep(nap),
            Move::Refuse => MoveView::Refuse,
        }
    }
}

/// What to do with a report.
pub open spec fn move_for(p: ProgressView) -> MoveView {
    match p {
        ProgressView::Done(output) => MoveView::Finish(output),
        ProgressView::Yielded => MoveView::Again,
        ProgressView::Waiting(Wait::Stdin) => MoveView::ReadInput,
        ProgressView::Waiting(Wait::Until(delay)) => MoveView::Sleep(
            if delay < LONGEST_NAP {
                delay
            } else {
                LONGEST_NAP
            },
        ),
        ProgressView::Waiting(Wait::Vfs) => MoveView::Refuse,
        ProgressView::Waiting(Wait::Host) => MoveView::Refuse,
    }
}

/// What to do with a report.
pub fn next_move(progress: Progress) -> (r: Move)
    ensures
        r@ == move_for(progress@),
{
    match progress {
        Progress::Done(output) => Move::Finish(output),
        Progress::Yielded => Move::Again,
        Progress::Waiting(Wait::Stdin) => Move::ReadInput,
        Progress::Waiting(Wait::Until(delay)) => {
            if delay < LONGEST_NAP {
                Move::Sleep(delay)
            } else {
                Move::Sleep(LONGEST_NAP)
            }
        },
        Progress::Waiting(Wait::Vfs) => Move::Refuse,
        Progress::Waiting(Wait::Host) => Move::Refuse,
    }
}

/// What the process exits with: what a shell would say of the command.
pub fn exit_code(status: ExitStatus) -> (r: u8)
    ensures
        r == shell_code_of(status@),
{
    status.shell_code() as u8
}

// ---------------------------------------------------------------------------------------------
// listing programs

/// A text with spaces behind it, up to a width.
pub open spec fn widened(t: Seq<char>, width: int) -> Seq<char>
    decreases width - t.len(),
{
    if t.len() >= width {
        t
    } else {
        widened(t.push(' '), width)
    }
}

/// One line for each program: its name, and where it is.
pub open spec fn listing_text(programs: Seq<(Seq<char>, Seq<char>)>) -> Seq<char>
    decreases programs.len(),
{
    if programs.len() == 0 {
        Seq::empty()
    } else {
        listing_text(programs.drop_last()) + widened(programs.last().0, 12) + " "@
            + programs.last().1 + "\n"@
    }
}

fn widen(text: &str) -> (r: String)
    ensures
        r@ == widened(text@, 12),
{
    let mut out = text.to_owned();
    let mut n: usize = text.unicode_len();
    while n < 12
        invariant
            n == out@.len(),
            widened(text@, 12) == widened(out@, 12),
        decreases 12 - n,
    {
        out.push(' ');
        n = n + 1;
    }
    out
}

/// One line for each program: its name, and where it is.
pub fn listing(programs: &Vec<ProgramInfo>) -> (r: String)
    ensures
        r@ == listing_text(infos(programs@)),
{
    let ghost all = infos(programs@);
    let mut out = String::new();
    let mut i: usize = 0;
    assert(all.subrange(0, 0) =~= Seq::empty());
    assert(out@ =~= listing_text(all.subrange(0, 0)));
    while i < programs.len()
        invariant
            i <= programs@.len(),
            all == infos(programs@),
            out@ == listing_text(all.subrange(0, i as int)),
        decreases programs@.len() - i,
    {
        assert(all.subrange(0, i + 1).drop_last() =~= all.subrange(0, i as int));
        assert(all.subrange(0, i + 1).last() == (programs@[i as int].name@, programs@[i as int].path@));
        out.append(widen(programs[i].name.as_str()).as_str());
        out.append(" ");
        out.append(programs[i].path.as_str());
        out.append("\n");
        i = i + 1;
    }
    assert(all.subrange(0, i as int) =~= all);
    out
}

} // verus!
