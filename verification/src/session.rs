//! Running a command: preparing it, driving it, and what it leaves behind.
use crate::engine::LoadError;
use crate::host::HostCommand;
use crate::kernel::mem::{byte_strings, copy_bytes, Nanos};
use crate::kernel::run::{first_spawn, fresh_shared, min_count, Idle, Kernel, KernelView, Slice};
use crate::kernel::state::{OutputView, SharedView, Spawn, SpawnView, StdinView};
use crate::kernel::tty::{TerminalView, TermiosView};
use crate::sandbox::{
    copy_env, copy_programs, env_view, env_with, program_named, set_env, EnvVar, Error, Sandbox,
    SandboxView,
};
use crate::text::{decimal, lossy, lossy_text, push_decimal, texts};
use crate::vfs::{Vfs, VfsFile};
use vstd::prelude::*;
use vstd::string::*;
use vstd::utf8::encode_utf8;

verus! {

// ---------------------------------------------------------------------------------------------
// a command

/// A command about to run.
pub struct Command<'a, V, H> {
    pub sandbox: &'a Sandbox<V, H>,
    pub program: String,
    pub args: Vec<String>,
    pub env: Vec<EnvVar>,
    pub cwd: String,
    pub stdin: Vec<u8>,
    pub stdin_closed: bool,
    pub terminal: Option<(u16, u16)>,
}

/// The content of a [`Command`], but for the sandbox.
#[verifier::ext_equal]
pub struct CommandView {
    pub program: Seq<char>,
    pub args: Seq<Seq<char>>,
    pub env: Seq<(Seq<char>, Seq<char>)>,
    pub cwd: Seq<char>,
    pub stdin: Seq<u8>,
    pub stdin_closed: bool,
    pub terminal: Option<(u16, u16)>,
}

impl<'a, V, H> View for Command<'a, V, H> {
    type V = CommandView;

    open spec fn view(&self) -> CommandView {
        CommandView {
            program: self.program@,
            args: texts(self.args@),
            env: env_view(self.env@),
            cwd: self.cwd@,
            stdin: self.stdin@,
            stdin_closed: self.stdin_closed,
            terminal: self.terminal,
        }
    }
}

/// A command as a sandbox prepares it: no arguments, the sandbox's environment and directory,
/// an empty standard input and no terminal.
pub open spec fn prepared<S>(s: SandboxView<S>, program: Seq<char>) -> CommandView {
    CommandView {
        program,
        args: Seq::empty(),
        env: s.env,
        cwd: s.cwd,
        stdin: Seq::empty(),
        stdin_closed: true,
        terminal: None,
    }
}

/// The argument vector of a command: the program's name as it was given, then the arguments.
pub open spec fn argv_of(c: CommandView) -> Seq<Seq<u8>> {
    seq![encode_utf8(c.program)] + c.args.map_values(|a: Seq<char>| encode_utf8(a))
}

/// One variable as a program sees it: `NAME=value`.
pub open spec fn env_entry(e: (Seq<char>, Seq<char>)) -> Seq<u8> {
    encode_utf8(e.0 + "="@ + e.1)
}

/// The environment of a command.
pub open spec fn envp_of(c: CommandView) -> Seq<Seq<u8>> {
    c.env.map_values(|e: (Seq<char>, Seq<char>)| env_entry(e))
}

/// Why a command does not start.
#[verifier::ext_equal]
pub enum SpawnRefusal {
    NoSuchProgram(Seq<char>),
    OutOfMemory,
    Other,
}

pub open spec fn spawn_refusal(e: Error) -> SpawnRefusal {
    match e {
        Error::NoSuchProgram(name) => SpawnRefusal::NoSuchProgram(name@),
        Error::Load(LoadError::OutOfMemory) => SpawnRefusal::OutOfMemory,
        _ => SpawnRefusal::Other,
    }
}

/// The session a command starts and its first process, or why it does not start.
pub open spec fn spawned<S, F>(c: CommandView, s: SandboxView<S>) -> Result<
    (KernelView<F>, SpawnView),
    SpawnRefusal,
> {
    match program_named(s.registered, c.program) {
        None => Err(SpawnRefusal::NoSuchProgram(c.program)),
        Some(found) => {
            let base = fresh_shared::<F>(s.overlay, s.programs, s.limits);
            let sh = SharedView {
                terminal: match c.terminal {
                    Some((cols, rows)) => Some(
                        TerminalView { cols, rows, termios: TermiosView::cooked() },
                    ),
                    None => None,
                },
                ..base
            };
            match first_spawn(sh, found.id, found.path, argv_of(c), envp_of(c), c.cwd) {
                None => Err(SpawnRefusal::OutOfMemory),
                Some((sh, first)) => Ok(
                    (
                        KernelView {
                            shared: SharedView {
                                stdin: StdinView {
                                    data: c.stdin,
                                    closed: c.stdin_closed,
                                    wanted: false,
                                },
                                ..sh
                            },
                            procs: Seq::empty(),
                            exit_status: None,
                            next_key: 0,
                            starting: 1,
                        },
                        first,
                    ),
                ),
            }
        },
    }
}

impl<V: Vfs, H: HostCommand> Sandbox<V, H> {
    /// Prepare to run `program`, which may be a command name or an absolute path.
    pub fn command<'a>(&'a self, program: &str) -> (r: Command<'a, V, H>)
        ensures
            r@ == prepared(self@, program@),
            r.sandbox == self,
    {
        let r = Command {
            sandbox: self,
            program: program.to_owned(),
            args: Vec::new(),
            env: copy_env(&self.env),
            cwd: self.cwd.clone(),
            stdin: Vec::new(),
            stdin_closed: true,
            terminal: None,
        };
        assert(texts(r.args@) =~= Seq::empty());
        r
    }

    /// Prepare to run a shell script: `sh -c <script>`.
    pub fn shell<'a>(&'a self, script: &str) -> (r: Command<'a, V, H>)
        ensures
            r@ == (CommandView { args: seq!["-c"@, script@], ..prepared(self@, "sh"@) }),
            r.sandbox == self,
    {
        let r = self.command("sh").arg("-c").arg(script);
        assert(r@.args =~= seq!["-c"@, script@]);
        r
    }
}

impl<'a, V: Vfs, H: HostCommand> Command<'a, V, H> {
    /// Add one argument.
    pub fn arg(self, value: &str) -> (r: Command<'a, V, H>)
        ensures
            r@ == (CommandView { args: self@.args.push(value@), ..self@ }),
            r.sandbox == self.sandbox,
    {
        let mut c = self;
        c.args.push(value.to_owned());
        assert(texts(c.args@) =~= self@.args.push(value@));
        c
    }

    /// Add several arguments.
    pub fn args(self, values: Vec<String>) -> (r: Command<'a, V, H>)
        ensures
            r@ == (CommandView { args: self@.args + texts(values@), ..self@ }),
            r.sandbox == self.sandbox,
    {
        let mut c = self;
        let ghost all = texts(values@);
        let mut i: usize = 0;
        assert(texts(c.args@) =~= self@.args + all.subrange(0, 0));
        while i < values.len()
            invariant
                i <= values@.len(),
                all == texts(values@),
                c@ == (CommandView { args: self@.args + all.subrange(0, i as int), ..self@ }),
                c.sandbox == self.sandbox,
            decreases values@.len() - i,
        {
            let ghost before = texts(c.args@);
            c.args.push(values[i].clone());
            assert(texts(c.args@) =~= before.push(all[i as int]));
            i = i + 1;
            assert(texts(c.args@) =~= self@.args + all.subrange(0, i as int));
        }
        assert(all.subrange(0, i as int) =~= all);
        c
    }

    /// Set an environment variable for this command only.
    pub fn env(self, key: &str, value: &str) -> (r: Command<'a, V, H>)
        ensures
            r@ == (CommandView { env: env_with(self@.env, key@, value@), ..self@ }),
            r.sandbox == self.sandbox,
    {
        let env = set_env(&self.env, key, value);
        Command { env, ..self }
    }

    /// Run in this directory instead of the sandbox's default.
    pub fn current_dir(self, path: &str) -> (r: Command<'a, V, H>)
        ensures
            r@ == (CommandView { cwd: path@, ..self@ }),
            r.sandbox == self.sandbox,
    {
        Command { cwd: path.to_owned(), ..self }
    }

    /// Feed these bytes as standard input, then end of file.
    pub fn stdin(self, bytes: Vec<u8>) -> (r: Command<'a, V, H>)
        ensures
            r@ == (CommandView { stdin: bytes@, stdin_closed: true, ..self@ }),
            r.sandbox == self.sandbox,
    {
        Command { stdin: bytes, stdin_closed: true, ..self }
    }

    /// Leave standard input open, to be fed with [`Session::write_stdin`].
    pub fn interactive_stdin(self) -> (r: Command<'a, V, H>)
        ensures
            r@ == (CommandView { stdin_closed: false, ..self@ }),
            r.sandbox == self.sandbox,
    {
        Command { stdin_closed: false, ..self }
    }

    /// Tell the guest its standard streams are a terminal `columns` by `rows`.
    ///
    /// Off by default, and the default is what a caller that wants text gets: with no terminal
    /// `isatty` says no, which keeps a tool from emitting colour codes and keeps a shell out of
    /// its line editor. Pass this only when a person is at a keyboard on the other end of the
    /// streams, poll [`Session::terminal_raw`] each time round the loop, and match it.
    pub fn terminal(self, columns: u16, rows: u16) -> (r: Command<'a, V, H>)
        ensures
            r@ == (CommandView { terminal: Some((columns, rows)), ..self@ }),
            r.sandbox == self.sandbox,
    {
        Command { terminal: Some((columns, rows)), ..self }
    }

    fn argv(&self) -> (r: Vec<Vec<u8>>)
        ensures
            byte_strings(r@) == argv_of(self@),
    {
        let ghost whole = argv_of(self@);
        let mut out: Vec<Vec<u8>> = Vec::new();
        out.push(self.program.as_str().as_bytes_vec());
        let mut i: usize = 0;
        assert(byte_strings(out@) =~= whole.subrange(0, 1));
        while i < self.args.len()
            invariant
                i <= self.args@.len(),
                whole == argv_of(self@),
                byte_strings(out@) == whole.subrange(0, i + 1),
            decreases self.args@.len() - i,
        {
            let ghost before = byte_strings(out@);
            assert(self@.args[i as int] == self.args@[i as int]@);
            let arg = self.args[i].as_str().as_bytes_vec();
            assert(whole[i + 1] == arg@);
            out.push(arg);
            assert(byte_strings(out@) =~= before.push(whole[i + 1]));
            i = i + 1;
            assert(byte_strings(out@) =~= whole.subrange(0, i + 1));
        }
        assert(whole.subrange(0, i + 1) =~= whole);
        out
    }

    fn envp(&self) -> (r: Vec<Vec<u8>>)
        ensures
            byte_strings(r@) == envp_of(self@),
    {
        let ghost whole = envp_of(self@);
        let mut out: Vec<Vec<u8>> = Vec::new();
        let mut i: usize = 0;
        assert(byte_strings(out@) =~= whole.subrange(0, 0));
        while i < self.env.len()
            invariant
                i <= self.env@.len(),
                whole == envp_of(self@),
                byte_strings(out@) == whole.subrange(0, i as int),
            decreases self.env@.len() - i,
        {
            let ghost before = byte_strings(out@);
            let mut entry = self.env[i].key.clone();
            entry.append("=");
            entry.append(self.env[i].value.as_str());
            assert(self@.env[i as int] == (self.env@[i as int].key@, self.env@[i as int].value@));
            assert(entry@ =~= self.env@[i as int].key@ + "="@ + self.env@[i as int].value@);
            let bytes = entry.as_str().as_bytes_vec();
            assert(whole[i as int] == bytes@);
            out.push(bytes);
            assert(byte_strings(out@) =~= before.push(whole[i as int]));
            i = i + 1;
            assert(byte_strings(out@) =~= whole.subrange(0, i as int));
        }
        assert(whole.subrange(0, i as int) =~= whole);
        out
    }

    /// Start the command without running it, so the caller drives it step by step. The engine
    /// is to start the first process next.
    pub fn spawn(self) -> (r: Result<(Session<<V as VfsFile>::Handle>, Spawn), Error>)
        ensures
            match r {
                Ok((session, first)) => {
                    &&& spawned::<_, <V as VfsFile>::Handle>(self@, self.sandbox@) == Ok::<_, SpawnRefusal>(
                        (session@.kernel, first@),
                    )
                    &&& session@.finished is None
                    &&& session@.kernel.wf()
                },
                Err(e) => spawned::<_, <V as VfsFile>::Handle>(self@, self.sandbox@) == Err::<
                    (KernelView<<V as VfsFile>::Handle>, SpawnView),
                    _,
                >(spawn_refusal(e)),
            },
    {
        let (id, path) = match self.sandbox.find_program(self.program.as_str()) {
            Some(found) => found,
            None => {
                return Err(Error::NoSuchProgram(self.program.clone()));
            },
        };
        let mut kernel: Kernel<<V as VfsFile>::Handle> = Kernel::new(
            self.sandbox.overlay.copy(),
            copy_programs(&self.sandbox.programs),
            self.sandbox.limits,
        );
        let argv = self.argv();
        let envp = self.envp();
        match self.terminal {
            Some((columns, rows)) => {
                kernel.set_terminal(columns, rows);
            },
            None => {},
        }
        let first = match kernel.spawn_first(id, path, argv, envp, self.cwd.clone()) {
            Ok(first) => first,
            Err(_) => {
                return Err(Error::Load(LoadError::OutOfMemory));
            },
        };
        assert(kernel@.shared.stdin.data =~= Seq::empty());
        kernel.shared.stdin.feed(self.stdin.as_slice());
        kernel.shared.stdin.closed = self.stdin_closed;
        assert(kernel@.shared.stdin.data =~= self@.stdin);
        Ok((Session { kernel, finished: None }, first))
    }

    /// Run to completion: what to do with each report when nothing can be awaited. The output
    /// ends the run, a request to come back later ends it with [`Error::WouldBlock`], and on
    /// anything else the session goes on, without standard input once the command wants more
    /// of it than it was given.
    pub fn output(
        session: &mut Session<<V as VfsFile>::Handle>,
        progress: Progress,
    ) -> (r: Result<Option<Output>, Error>)
        ensures
            final(session)@ == completed(old(session)@, progress@).0,
            match r {
                Ok(Some(output)) => completed(old(session)@, progress@).1 == Some(
                    Ok::<FinishedView, ()>(output@),
                ),
                Ok(None) => completed(old(session)@, progress@).1 is None,
                Err(e) => e is WouldBlock && completed(old(session)@, progress@).1 == Some(
                    Err::<FinishedView, ()>(()),
                ),
            },
    {
        match progress {
            Progress::Done(output) => Ok(Some(output)),
            Progress::Yielded => Ok(None),
            Progress::Waiting(Wait::Vfs) => Err(Error::WouldBlock),
            Progress::Waiting(Wait::Host) => Err(Error::WouldBlock),
            Progress::Waiting(Wait::Stdin) => {
                session.close_stdin();
                Ok(None)
            },
            Progress::Waiting(Wait::Until(_)) => Ok(None),
        }
    }
}

// ---------------------------------------------------------------------------------------------
// progress

/// How far a [`Session`] got.
#[derive(Debug)]
pub enum Progress {
    /// Everything is finished.
    Done(Output),
    /// The budget ran out with work still to do. Run it again; in between is where an
    /// asynchronous caller lets its own event loop run.
    Yielded,
    /// Nothing can progress until the caller does something.
    Waiting(Wait),
}

/// What a waiting session needs.
#[derive(Debug, Clone, Copy, PartialEq, Eq, Structural)]
pub enum Wait {
    /// A [`Vfs`] returned `AGAIN`. Await whatever it started, then step again.
    Vfs,
    /// A [`HostCommand`] returned `AGAIN`. Await whatever it started, then step again. Handled
    /// identically to [`Wait::Vfs`]: the two are separate only so a driver can tell which of
    /// its own subsystems it is waiting on.
    Host,
    /// A process is reading standard input. Call [`Session::write_stdin`] or
    /// [`Session::close_stdin`].
    Stdin,
    /// Everyone is sleeping. Wait roughly this long, then step again.
    Until(Nanos),
}

/// A finished command.
#[derive(Debug)]
pub struct Output {
    /// How it ended.
    pub status: ExitStatus,
    /// Everything it wrote to standard output.
    pub stdout: Vec<u8>,
    /// Everything it wrote to standard error.
    pub stderr: Vec<u8>,
    /// Bytes dropped because the limit on output was reached.
    pub dropped: u64,
}

/// The content of an [`Output`].
#[verifier::ext_equal]
pub struct FinishedView {
    pub status: i32,
    pub stdout: Seq<u8>,
    pub stderr: Seq<u8>,
    pub dropped: u64,
}

impl View for Output {
    type V = FinishedView;

    open spec fn view(&self) -> FinishedView {
        FinishedView {
            status: self.status@,
            stdout: self.stdout@,
            stderr: self.stderr@,
            dropped: self.dropped,
        }
    }
}

/// The content of a [`Progress`].
#[verifier::ext_equal]
pub enum ProgressView {
    Done(FinishedView),
    Yielded,
    Waiting(Wait),
}

impl View for Progress {
    type V = ProgressView;

    open spec fn view(&self) -> ProgressView {
        match *self {
            Progress::Done(output) => ProgressView::Done(output@),
            Progress::Yielded => ProgressView::Yielded,
            Progress::Waiting(wait) => ProgressView::Waiting(wait),
        }
    }
}

impl Output {
    /// Standard output as text, with invalid sequences replaced.
    pub fn stdout_string(&self) -> (r: String)
        ensures
            r@ == lossy_text(self@.stdout),
    {
        lossy(self.stdout.as_slice())
    }

    /// Standard error as text, with invalid sequences replaced.
    pub fn stderr_string(&self) -> (r: String)
        ensures
            r@ == lossy_text(self@.stderr),
    {
        lossy(self.stderr.as_slice())
    }

    /// Whether any output was truncated.
    pub fn truncated(&self) -> (r: bool)
        ensures
            r == (self@.dropped > 0),
    {
        self.dropped > 0
    }
}

/// How a command ended: the wait status a shell would report.
#[derive(Debug, Clone, Copy, PartialEq, Eq, Structural)]
pub struct ExitStatus(i32);

impl View for ExitStatus {
    type V = i32;

    closed spec fn view(&self) -> i32 {
        self.0
    }
}

/// The signal in a wait status, or 0.
pub open spec fn signal_in(status: i32) -> int {
    status as int % 128
}

/// The exit code in a wait status.
pub open spec fn code_in(status: i32) -> int {
    (status as int / 256) % 256
}

/// What a shell says of a wait status.
pub open spec fn shell_code_of(status: i32) -> int {
    if signal_in(status) != 0 {
        128 + signal_in(status)
    } else {
        code_in(status)
    }
}

/// A wait status in words.
pub open spec fn status_text(status: i32) -> Seq<char> {
    if signal_in(status) != 0 {
        "killed by signal "@ + decimal(signal_in(status) as nat)
    } else {
        "exit status "@ + decimal(code_in(status) as nat)
    }
}

impl ExitStatus {
    /// The status a wait status stands for.
    pub(crate) fn of(status: i32) -> (r: ExitStatus)
        ensures
            r@ == status,
    {
        ExitStatus(status)
    }

    /// Exited with status zero.
    pub fn success(self) -> (r: bool)
        ensures
            r == (signal_in(self@) == 0 && code_in(self@) == 0),
    {
        match self.code() {
            Some(code) => code == 0,
            None => false,
        }
    }

    /// The exit code, if it exited normally.
    pub fn code(self) -> (r: Option<i32>)
        ensures
            match r {
                Some(code) => signal_in(self@) == 0 && code == code_in(self@),
                None => signal_in(self@) != 0,
            },
    {
        let status: i64 = self.0 as i64 + 0x8000_0000;
        if status % 128 == 0 {
            Some(((status / 256) % 256) as i32)
        } else {
            None
        }
    }

    /// The signal that killed it, if one did.
    pub fn signal(self) -> (r: Option<i32>)
        ensures
            match r {
                Some(signal) => signal == signal_in(self@) && signal != 0,
                None => signal_in(self@) == 0,
            },
    {
        let status: i64 = self.0 as i64 + 0x8000_0000;
        let signal: i32 = (status % 128) as i32;
        if signal == 0 {
            None
        } else {
            Some(signal)
        }
    }

    /// What a shell would put in `$?`: the code, or 128 plus the signal.
    pub fn shell_code(self) -> (r: i32)
        ensures
            r == shell_code_of(self@),
    {
        match self.signal() {
            Some(signal) => 128 + signal,
            None => match self.code() {
                Some(code) => code,
                None => 0,
            },
        }
    }

    /// The status in words.
    pub fn message(self) -> (r: String)
        ensures
            r@ == status_text(self@),
    {
        match self.signal() {
            Some(signal) => {
                let mut out = "killed by signal ".to_owned();
                push_decimal(&mut out, signal as u64);
                out
            },
            None => {
                let mut out = "exit status ".to_owned();
                let code: i32 = match self.code() {
                    Some(code) => code,
                    None => 0,
                };
                push_decimal(&mut out, code as u64);
                out
            },
        }
    }
}

// ---------------------------------------------------------------------------------------------
// a session

/// A running command, driven by the caller.
///
/// Each time, the kernel is run until the budget is spent or nothing can progress, so a caller
/// with its own event loop keeps control. Output can be read as it appears with
/// [`Session::take_stdout`], which is what a tool that streams to a user needs.
pub struct Session<F> {
    pub kernel: Kernel<F>,
    pub finished: Option<i32>,
}

/// The content of a [`Session`].
#[verifier::ext_equal]
pub struct SessionView<F> {
    pub kernel: KernelView<F>,
    pub finished: Option<i32>,
}

impl<F> View for Session<F> {
    type V = SessionView<F>;

    open spec fn view(&self) -> SessionView<F> {
        SessionView { kernel: self.kernel@, finished: self.finished }
    }
}

/// The sum of two counts, held within 64 bits.
pub open spec fn sum_held(a: u64, b: u64) -> u64 {
    if a + b > u64::MAX {
        u64::MAX
    } else {
        (a + b) as u64
    }
}

impl<F> SessionView<F> {
    /// What a session that ended with `status` leaves behind.
    pub open spec fn output(self, status: i32) -> FinishedView {
        FinishedView {
            status,
            stdout: self.kernel.shared.stdout.data,
            stderr: self.kernel.shared.stderr.data,
            dropped: sum_held(self.kernel.shared.stdout.dropped, self.kernel.shared.stderr.dropped),
        }
    }

    /// The session once its output has been handed over. It keeps the bytes, so that what was
    /// not streamed yet still can be.
    pub open spec fn collected(self, status: i32) -> SessionView<F> {
        SessionView { finished: Some(status), ..self }
    }

    pub open spec fn with_stdin(self, stdin: StdinView) -> SessionView<F> {
        SessionView {
            kernel: KernelView {
                shared: SharedView { stdin, ..self.kernel.shared },
                ..self.kernel
            },
            ..self
        }
    }

    pub open spec fn with_stdout(self, stdout: OutputView) -> SessionView<F> {
        SessionView {
            kernel: KernelView {
                shared: SharedView { stdout, ..self.kernel.shared },
                ..self.kernel
            },
            ..self
        }
    }

    pub open spec fn with_stderr(self, stderr: OutputView) -> SessionView<F> {
        SessionView {
            kernel: KernelView {
                shared: SharedView { stderr, ..self.kernel.shared },
                ..self.kernel
            },
            ..self
        }
    }
}

/// What a session reports of a slice, `None` where every process waits for nothing. One that
/// has finished stays so.
pub open spec fn reported<F>(s: SessionView<F>, ran: Slice, elapsed: Nanos) -> (
    SessionView<F>,
    Option<ProgressView>,
) {
    match s.finished {
        Some(status) => (s.collected(status), Some(ProgressView::Done(s.output(status)))),
        None => match ran {
            Slice::Finished(status) => (
                s.collected(status),
                Some(ProgressView::Done(s.output(status))),
            ),
            Slice::Budget => (s, Some(ProgressView::Yielded)),
            Slice::Idle(Idle::Vfs) => (s, Some(ProgressView::Waiting(Wait::Vfs))),
            Slice::Idle(Idle::Host) => (s, Some(ProgressView::Waiting(Wait::Host))),
            Slice::Idle(Idle::Stdin) => (s, Some(ProgressView::Waiting(Wait::Stdin))),
            Slice::Idle(Idle::Until(when)) => (
                s,
                Some(
                    ProgressView::Waiting(
                        Wait::Until(
                            if when > elapsed {
                                (when - elapsed) as Nanos
                            } else {
                                0
                            },
                        ),
                    ),
                ),
            ),
            Slice::Idle(Idle::Deadlock) => (s, None),
        },
    }
}

/// What running a command to completion does with one report: it ends with the output, ends
/// with an error because nothing can be awaited, or goes on, closing standard input where the
/// command asks for more of it.
pub open spec fn completed<F>(s: SessionView<F>, progress: ProgressView) -> (
    SessionView<F>,
    Option<Result<FinishedView, ()>>,
) {
    match progress {
        ProgressView::Done(output) => (s, Some(Ok(output))),
        ProgressView::Waiting(Wait::Vfs) => (s, Some(Err(()))),
        ProgressView::Waiting(Wait::Host) => (s, Some(Err(()))),
        ProgressView::Waiting(Wait::Stdin) => (
            s.with_stdin(
                StdinView { closed: true, wanted: false, ..s.kernel.shared.stdin },
            ),
            None,
        ),
        ProgressView::Yielded => (s, None),
        ProgressView::Waiting(Wait::Until(_)) => (s, None),
    }
}

impl<F> Session<F> {
    /// Take note of what the kernel did with a slice, `elapsed` after the session began. Where
    /// the session has finished there is nothing to run, and what is passed does not matter.
    pub fn step(&mut self, ran: Slice, elapsed: Nanos) -> (r: Result<Progress, Error>)
        ensures
            match r {
                Ok(progress) => reported(old(self)@, ran, elapsed) == (
                    final(self)@,
                    Some(progress@),
                ),
                Err(e) => e is Deadlock && reported(old(self)@, ran, elapsed) == (
                    final(self)@,
                    None::<ProgressView>,
                ),
            },
    {
        match self.finished {
            Some(status) => {
                return Ok(Progress::Done(self.collect(status)));
            },
            None => {},
        }
        match ran {
            Slice::Finished(status) => Ok(Progress::Done(self.collect(status))),
            Slice::Budget => Ok(Progress::Yielded),
            Slice::Idle(Idle::Vfs) => Ok(Progress::Waiting(Wait::Vfs)),
            Slice::Idle(Idle::Host) => Ok(Progress::Waiting(Wait::Host)),
            Slice::Idle(Idle::Stdin) => Ok(Progress::Waiting(Wait::Stdin)),
            Slice::Idle(Idle::Until(when)) => {
                let rest: Nanos = if when > elapsed {
                    when - elapsed
                } else {
                    0
                };
                Ok(Progress::Waiting(Wait::Until(rest)))
            },
            Slice::Idle(Idle::Deadlock) => Err(Error::Deadlock),
        }
    }

    /// Feed standard input.
    pub fn write_stdin(&mut self, bytes: &[u8])
        ensures
            final(self)@ == old(self)@.with_stdin(
                StdinView {
                    data: old(self)@.kernel.shared.stdin.data + bytes@,
                    wanted: false,
                    ..old(self)@.kernel.shared.stdin
                },
            ),
    {
        self.kernel.shared.stdin.feed(bytes);
        self.kernel.shared.stdin.wanted = false;
    }

    /// Signal end of file on standard input.
    pub fn close_stdin(&mut self)
        ensures
            final(self)@ == old(self)@.with_stdin(
                StdinView { closed: true, wanted: false, ..old(self)@.kernel.shared.stdin },
            ),
    {
        self.kernel.shared.stdin.closed = true;
        self.kernel.shared.stdin.wanted = false;
    }

    /// Standard output written since the last call.
    pub fn take_stdout(&mut self) -> (r: Vec<u8>)
        ensures
            r@ == old(self)@.kernel.shared.stdout.fresh(),
            final(self)@ == old(self)@.with_stdout(
                OutputView {
                    taken: old(self)@.kernel.shared.stdout.data.len() as usize,
                    ..old(self)@.kernel.shared.stdout
                },
            ),
    {
        self.kernel.shared.stdout.drain_new()
    }

    /// Standard error written since the last call.
    pub fn take_stderr(&mut self) -> (r: Vec<u8>)
        ensures
            r@ == old(self)@.kernel.shared.stderr.fresh(),
            final(self)@ == old(self)@.with_stderr(
                OutputView {
                    taken: old(self)@.kernel.shared.stderr.data.len() as usize,
                    ..old(self)@.kernel.shared.stderr
                },
            ),
    {
        self.kernel.shared.stderr.drain_new()
    }

    /// How many processes are alive, the first one included while it is about to start.
    pub fn process_count(&self) -> (r: usize)
        ensures
            r == min_count(self@.kernel.process_count()),
    {
        self.kernel.processes()
    }

    /// Syscalls served so far, which is the cheapest measure of work done.
    pub fn syscall_count(&self) -> (r: u64)
        ensures
            r == self@.kernel.shared.syscalls,
    {
        self.kernel.shared.syscalls
    }

    /// Whether the guest has put its terminal into raw mode, and the host should match.
    ///
    /// Always false without [`Command::terminal`]. With it, this is how a shell says it has
    /// taken over line editing: it has cleared `ICANON`, so it wants a keystroke at a time and
    /// will echo and erase for itself. It flips back while a command runs and again for the
    /// next line, so read it every time round the loop rather than once.
    pub fn terminal_raw(&self) -> (r: bool)
        ensures
            r == (self@.kernel.shared.terminal matches Some(t) && t.termios.is_raw()),
    {
        self.kernel.terminal_raw()
    }

    /// Whether the guest still wants Ctrl-C and friends to raise signals.
    pub fn terminal_signals(&self) -> (r: bool)
        ensures
            r == (self@.kernel.shared.terminal matches Some(t) && t.termios.wants_signals()),
    {
        self.kernel.terminal_signals()
    }

    fn collect(&mut self, status: i32) -> (r: Output)
        ensures
            r@ == old(self)@.output(status),
            final(self)@ == old(self)@.collected(status),
    {
        let stdout = copy_bytes(&self.kernel.shared.stdout.data);
        let stderr = copy_bytes(&self.kernel.shared.stderr.data);
        let a: u64 = self.kernel.shared.stdout.dropped;
        let b: u64 = self.kernel.shared.stderr.dropped;
        let dropped: u64 = if b > u64::MAX - a {
            u64::MAX
        } else {
            a + b
        };
        self.finished = Some(status);
        Output { status: ExitStatus::of(status), stdout, stderr, dropped }
    }
}

} // verus!
