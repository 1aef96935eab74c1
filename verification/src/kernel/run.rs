//! The scheduler: one session's processes, and what happens to each in turn.
//!
//! There is one thread, and a guest calls into the kernel from deep inside its own call stack.
//! Anything that cannot be answered at once is handled the same way: the kernel records what
//! the process was doing, asks Asyncify to unwind its stack, and the scheduler runs somebody
//! else. When the syscall can finish, the stack is rewound and the import returns as if it had
//! blocked. `setjmp`, `longjmp`, `exit` and `execve` ride the same machinery.
//!
//! Entering a guest, instantiating a program and calling a host command is the embedder's
//! work. Everything around it is decided here: [`Kernel::pick`] says what to do next, and each
//! of the other methods is told how that went.
use super::fd::{free_from, live_descs, with_fd, Desc, DescKind, DescView, Fd, FdTable, KindView};
use super::mem::{byte_strings, Nanos};
use super::mounts::{MountView, Mounts, Overlay, ProgramId};
use super::state::{
    kinds_of, released_all, tasks, Budget, Call, Ctx, CtxView, ExecState, ExecView, Limits,
    OutputBuffer, OutputView, ProgramEntry, ProgramKind, Shared, SharedView, Spawn, SpawnView,
    StdinBuffer, StdinView, ASYNCIFY_PAGES, PAGE,
};
use super::task::{exited, status_exited, ProcRecord, RecordView, Task, TaskView};
use super::tty::{Terminal, TerminalView, TermiosView};
use crate::abi::{O_RDONLY, O_WRONLY};
use crate::engine::LoadError;
use crate::slab::{Slab, SlabView};
use crate::syscall::fds::{desc_cap, desc_limit};
use crate::text::{lossy, lossy_text};
use crate::vfs::{Vfs, VfsFile};
use vstd::prelude::*;
use vstd::string::*;

verus! {

/// How a process continues the next time the scheduler reaches it.
#[derive(Clone, Copy, PartialEq, Eq, Debug, Structural)]
pub enum Resume {
    /// Call `_start`.
    Fresh,
    /// Rewind the saved stack and re-enter the import that unwound it.
    Rewind,
    /// A syscall is outstanding: retry it, and only rewind once it can answer.
    Blocked { call: Call },
}

/// How far a host command has come.
pub enum Phase {
    /// Draining standard input into the buffer the command will be handed.
    Reading(Vec<u8>),
    /// Standard input is drained, and this is what came of it. It is kept until the command has
    /// answered, so that asking again is asking the same.
    Drained(Vec<u8>),
    /// The command has produced its output; flushing it to the descriptors. A pipe can take it
    /// a piece at a time, so the cursors persist across steps.
    Flushing {
        status: i32,
        stdout: Vec<u8>,
        stderr: Vec<u8>,
        out_done: usize,
        err_done: usize,
    },
}

/// The content of a [`Phase`].
#[verifier::ext_equal]
pub enum PhaseView {
    Reading(Seq<u8>),
    Drained(Seq<u8>),
    Flushing {
        status: i32,
        stdout: Seq<u8>,
        stderr: Seq<u8>,
        out_done: usize,
        err_done: usize,
    },
}

impl View for Phase {
    type V = PhaseView;

    open spec fn view(&self) -> PhaseView {
        match *self {
            Phase::Reading(buffer) => PhaseView::Reading(buffer@),
            Phase::Drained(buffer) => PhaseView::Drained(buffer@),
            Phase::Flushing { status, stdout, stderr, out_done, err_done } => PhaseView::Flushing {
                status,
                stdout: stdout@,
                stderr: stderr@,
                out_done,
                err_done,
            },
        }
    }
}

/// What a process actually is.
pub enum Body {
    /// A wasm instance, driven by the engine.
    Guest,
    /// A host command: whether its arguments say that it reads standard input, and how far it
    /// has come.
    Host { reads_stdin: bool, phase: Phase },
}

/// The content of a [`Body`].
#[verifier::ext_equal]
pub enum BodyView {
    Guest,
    Host { reads_stdin: bool, phase: PhaseView },
}

impl View for Body {
    type V = BodyView;

    open spec fn view(&self) -> BodyView {
        match *self {
            Body::Guest => BodyView::Guest,
            Body::Host { reads_stdin, phase } => BodyView::Host { reads_stdin, phase: phase@ },
        }
    }
}

/// One running process: what it is, its context, and how to continue it.
pub struct Proc {
    /// By which the embedder knows the instance.
    pub key: u64,
    pub ctx: Ctx,
    pub body: Body,
    pub resume: Resume,
    /// Waiting on something outside the sandbox: a filesystem or a host command that answered
    /// `AGAIN`. Such a process is not stepped again until the caller has been given control,
    /// because `AGAIN` means "come back later" and later has to mean *after* the caller could
    /// make progress.
    pub parked: bool,
}

/// The content of a [`Proc`].
#[verifier::ext_equal]
pub struct ProcView {
    pub key: u64,
    pub ctx: CtxView,
    pub body: BodyView,
    pub resume: Resume,
    pub parked: bool,
}

impl View for Proc {
    type V = ProcView;

    open spec fn view(&self) -> ProcView {
        ProcView {
            key: self.key,
            ctx: self.ctx@,
            body: self.body@,
            resume: self.resume,
            parked: self.parked,
        }
    }
}

pub open spec fn procs_of(v: Seq<Proc>) -> Seq<ProcView> {
    v.map_values(|p: Proc| p@)
}

/// What one pass over the process list achieved.
#[derive(Clone, Copy, PartialEq, Eq, Debug, Structural)]
pub enum Slice {
    /// The first process exited; the session is over.
    Finished(i32),
    /// Nothing can run until the world changes.
    Idle(Idle),
    /// The session's budget ran out. Call again when convenient.
    Budget,
}

/// Why nothing could run.
#[derive(Clone, Copy, PartialEq, Eq, Debug, Structural)]
pub enum Idle {
    /// A host command returned `AGAIN`.
    Host,
    /// A [`Vfs`] returned `AGAIN`.
    Vfs,
    /// A process wants standard input.
    Stdin,
    /// Everyone is sleeping until this moment, counted from the start of the session.
    Until(Nanos),
    /// Nothing is runnable and nothing will change: a deadlock the kernel refuses to sit in.
    Deadlock,
}

/// How one step of a process ended.
#[derive(Clone, Copy, PartialEq, Eq, Debug, Structural)]
pub enum ProcStep {
    Ran,
    Stuck,
    Ended(i32),
    Replaced,
}

/// Where the scheduler is in its round.
#[derive(Clone, Copy, PartialEq, Eq, Debug, Structural)]
pub struct Pass {
    /// Whether pending children are being started before the round begins.
    pub starting: bool,
    /// The process whose turn it is.
    pub index: usize,
    /// Whether anything ran in this round.
    pub progressed: bool,
    /// How many syscalls had been served when the slice began.
    pub served_before: u64,
    /// When the slice began, counted from the start of the session.
    pub began: Nanos,
    /// What was pending before the process was stepped: while it runs, only what it asks for
    /// itself is.
    pub vfs_before: bool,
    pub host_before: bool,
}

/// What to do next.
pub enum Pick {
    /// Start this child.
    Start(Spawn),
    /// Step the guest at this place in the list.
    Guest(usize),
    /// Step the host command at this place in the list.
    Host(usize),
    /// Ask again: a round is over and the next begins.
    Again,
    /// Tell the caller.
    Report(Slice),
}

/// The content of a [`Pick`].
#[verifier::ext_equal]
pub enum PickView {
    Start(SpawnView),
    Guest(usize),
    Host(usize),
    Again,
    Report(Slice),
}

impl View for Pick {
    type V = PickView;

    open spec fn view(&self) -> PickView {
        match *self {
            Pick::Start(s) => PickView::Start(s@),
            Pick::Guest(i) => PickView::Guest(i),
            Pick::Host(i) => PickView::Host(i),
            Pick::Again => PickView::Again,
            Pick::Report(slice) => PickView::Report(slice),
        }
    }
}

/// One session's worth of running processes.
pub struct Kernel<F> {
    pub shared: Shared<F>,
    pub procs: Vec<Proc>,
    /// Wait status of the first process, once it has exited.
    pub exit_status: Option<i32>,
    /// The key of the next process.
    pub next_key: u64,
    /// How many processes the embedder was handed to start and has not started yet.
    pub starting: usize,
}

/// The content of a [`Kernel`].
#[verifier::ext_equal]
pub struct KernelView<F> {
    pub shared: SharedView<F>,
    pub procs: Seq<ProcView>,
    pub exit_status: Option<i32>,
    pub next_key: u64,
    pub starting: usize,
}

impl<F> View for Kernel<F> {
    type V = KernelView<F>;

    open spec fn view(&self) -> KernelView<F> {
        KernelView {
            shared: self.shared@,
            procs: procs_of(self.procs@),
            exit_status: self.exit_status,
            next_key: self.next_key,
            starting: self.starting,
        }
    }
}

impl<F> KernelView<F> {
    pub open spec fn wf(self) -> bool {
        self.shared.wf()
    }

    /// With one more process handed out to be started.
    pub open spec fn handed_out(self) -> KernelView<F> {
        KernelView {
            starting: if self.starting < usize::MAX {
                (self.starting + 1) as usize
            } else {
                self.starting
            },
            ..self
        }
    }

    /// With one process fewer to be started.
    pub open spec fn handed_back(self) -> KernelView<F> {
        KernelView {
            starting: if self.starting > 0 {
                (self.starting - 1) as usize
            } else {
                0
            },
            ..self
        }
    }

    /// How many processes there are, those included that are about to start.
    pub open spec fn process_count(self) -> int {
        self.procs.len() + self.starting
    }

    /// With nobody known to want standard input.
    pub open spec fn unasked(self) -> KernelView<F> {
        KernelView {
            shared: SharedView {
                stdin: StdinView { wanted: false, ..self.shared.stdin },
                ..self.shared
            },
            ..self
        }
    }

    /// With this pending.
    pub open spec fn with_pending(self, vfs: bool, host: bool) -> KernelView<F> {
        KernelView {
            shared: SharedView { vfs_pending: vfs, host_pending: host, ..self.shared },
            ..self
        }
    }

    /// With one process replaced.
    pub open spec fn with_proc(self, i: int, p: ProcView) -> KernelView<F> {
        KernelView { procs: self.procs.update(i, p), ..self }
    }

    /// With every parked process free to run again, and nothing outside waited for.
    pub open spec fn unparked(self) -> KernelView<F> {
        KernelView {
            shared: SharedView { vfs_pending: false, host_pending: false, ..self.shared },
            procs: self.procs.map_values(|p: ProcView| ProcView { parked: false, ..p }),
            ..self
        }
    }
}

// ---------------------------------------------------------------------------------------------
// beginning

/// A session in which nothing has happened.
pub open spec fn fresh_shared<F>(
    overlay: Seq<(Seq<char>, ProgramId)>,
    programs: Seq<ProgramKind>,
    limits: Limits,
) -> SharedView<F> {
    SharedView {
        overlay,
        programs,
        limits,
        descs: SlabView::empty(),
        pipes: SlabView::empty(),
        table: Seq::empty(),
        next_pid: 1,
        spawn: Seq::empty(),
        stdin: StdinView { data: Seq::empty(), closed: false, wanted: false },
        stdout: OutputView::empty(),
        stderr: OutputView::empty(),
        memory_used: 0,
        vfs_pending: false,
        host_pending: false,
        syscalls: 0,
        terminal: None,
        random: 0,
    }
}

/// One of the three standard streams put into place: a description, and the lowest free
/// descriptor if there is one.
pub open spec fn stream_added<F>(
    sh: SharedView<F>,
    fds: Seq<Option<Fd>>,
    kind: KindView<F>,
    path: Seq<char>,
    flags: u32,
) -> (SharedView<F>, Seq<Option<Fd>>) {
    let key = sh.descs.next_key();
    let fd = free_from(fds, 0);
    (
        SharedView { descs: sh.descs.insert(DescView::fresh(kind, path, flags)), ..sh },
        if fd < sh.limits.open_files && fd < i32::MAX {
            with_fd(fds, fd, Fd { desc: key, cloexec: false })
        } else {
            fds
        },
    )
}

/// The name a process goes by: its first argument, as text.
pub open spec fn comm_of(argv: Seq<Seq<u8>>) -> Seq<char> {
    if argv.len() > 0 {
        lossy_text(argv[0])
    } else {
        Seq::empty()
    }
}

/// The first process: standard input, output and error, a pid and a record. There is none
/// where three descriptions are more than the session may have.
pub open spec fn first_spawn<F>(
    sh: SharedView<F>,
    program: ProgramId,
    exe: Seq<char>,
    argv: Seq<Seq<u8>>,
    envp: Seq<Seq<u8>>,
    cwd: Seq<char>,
) -> Option<(SharedView<F>, SpawnView)> {
    let pid = sh.next_pid;
    let cap = desc_cap(sh.limits.open_files);
    let s0 = sh.with_pid();
    let (s1, f1) = stream_added(s0, Seq::empty(), KindView::Stdin, "/dev/stdin"@, O_RDONLY);
    let (s2, f2) = stream_added(s1, f1, KindView::Stdout(1), "/dev/stdout"@, O_WRONLY);
    let (s3, f3) = stream_added(s2, f2, KindView::Stdout(2), "/dev/stderr"@, O_WRONLY);
    if !s0.descs.has_room(cap) || !s1.descs.has_room(cap) || !s2.descs.has_room(cap) {
        None
    } else {
        Some(
            (
                SharedView {
                    table: s3.table.push(RecordView::fresh(pid, 0, pid, pid, comm_of(argv))),
                    ..s3
                },
                SpawnView {
                    task: TaskView { cwd, ..TaskView::fresh(pid, f3) },
                    program,
                    exe,
                    argv,
                    envp,
                },
            ),
        )
    }
}

/// The context a child starts with: its program's name and path, and no handlers but ignored
/// signals.
pub open spec fn launched(s: SpawnView) -> CtxView {
    CtxView {
        task: (TaskView { exe: s.exe, comm: comm_of(s.argv), ..s.task }).reset_for_exec(),
        program: s.program,
        argv: s.argv,
        envp: s.envp,
        exec_request: None,
        vfork_stack: Seq::empty(),
        state: ExecView::fresh(),
    }
}

/// The kernel with a process put into the list at `at`.
pub open spec fn installed<F>(k: KernelView<F>, at: int, p: ProcView) -> KernelView<F> {
    KernelView {
        procs: k.procs.insert(at, p),
        next_key: if k.next_key < u64::MAX {
            (k.next_key + 1) as u64
        } else {
            k.next_key
        },
        ..k.handed_back()
    }
}

/// The kernel and the mounts once a process could not be started: its descriptors are released,
/// and it is reported the way a failed exec is. The first process, or the last one, decides how
/// the session ended.
pub open spec fn not_started<V: Vfs>(
    k: KernelView<<V as VfsFile>::Handle>,
    fs: Seq<MountView<<V as VfsFile>::State>>,
    task: TaskView,
) -> (KernelView<<V as VfsFile>::Handle>, Seq<MountView<<V as VfsFile>::State>>) {
    let (s, f) = released_all::<V>(k.shared, fs, live_descs(task.fds));
    (
        KernelView {
            shared: s.with_exit(task.pid, exited(126)),
            exit_status: if k.exit_status is None && (task.pid == 1 || (k.procs.len() == 0
                && k.shared.spawn.len() == 0)) {
                Some(exited(126))
            } else {
                k.exit_status
            },
            ..k.handed_back()
        },
        f,
    )
}

fn comm_text(argv: &Vec<Vec<u8>>) -> (r: String)
    ensures
        r@ == comm_of(byte_strings(argv@)),
{
    if argv.len() > 0 {
        lossy(argv[0].as_slice())
    } else {
        String::new()
    }
}

fn add_stream<F>(
    sh: &mut Shared<F>,
    fds: &mut FdTable,
    kind: DescKind<F>,
    path: &str,
    flags: u32,
) -> (r: bool)
    requires
        old(sh)@.wf(),
    ensures
        final(sh)@.wf(),
        r == old(sh)@.descs.has_room(desc_cap(old(sh)@.limits.open_files)),
        r ==> stream_added(old(sh)@, old(fds)@, kind@, path@, flags) == (
            final(sh)@,
            final(fds)@,
        ),
{
    let limit: usize = sh.limits.open_files;
    match sh.descs.insert(Desc::new(kind, path.to_owned(), flags), desc_limit(limit)) {
        Some(key) => {
            let _ = fds.allocate(Fd { desc: key, cloexec: false }, 0, limit);
            true
        },
        None => false,
    }
}

impl<F> Kernel<F> {
    pub fn new(overlay: Overlay, programs: Vec<ProgramEntry>, limits: Limits) -> (r: Kernel<F>)
        ensures
            r@ == (KernelView {
                shared: fresh_shared::<F>(overlay@, kinds_of(programs@), limits),
                procs: Seq::empty(),
                exit_status: None,
                next_key: 0,
                starting: 0,
            }),
            r@.wf(),
    {
        let shared = Shared {
            overlay,
            programs,
            limits,
            descs: Slab::new(),
            pipes: Slab::new(),
            table: Vec::new(),
            next_pid: 1,
            spawn: Vec::new(),
            stdin: StdinBuffer::new(),
            stdout: OutputBuffer::new(),
            stderr: OutputBuffer::new(),
            memory_used: 0,
            vfs_pending: false,
            host_pending: false,
            syscalls: 0,
            terminal: None,
            random: 0,
        };
        let r = Kernel { shared, procs: Vec::new(), exit_status: None, next_key: 0, starting: 0 };
        assert(r@.shared =~= fresh_shared::<F>(overlay@, kinds_of(programs@), limits));
        assert(r@.procs =~= Seq::empty());
        r
    }

    /// Give this session a terminal of the given size. Before the first process starts.
    pub fn set_terminal(&mut self, cols: u16, rows: u16)
        ensures
            final(self)@ == (KernelView {
                shared: SharedView {
                    terminal: Some(TerminalView { cols, rows, termios: TermiosView::cooked() }),
                    ..old(self)@.shared
                },
                ..old(self)@
            }),
    {
        self.shared.terminal = Some(Terminal::new(cols, rows));
    }

    /// Whether the guest has put the terminal into raw mode, so the host can match it.
    pub fn terminal_raw(&self) -> (r: bool)
        ensures
            r == (self@.shared.terminal matches Some(t) && t.termios.is_raw()),
    {
        match &self.shared.terminal {
            Some(t) => t.termios.raw(),
            None => false,
        }
    }

    /// Whether the guest still wants Ctrl-C to raise a signal rather than arrive as a byte.
    pub fn terminal_signals(&self) -> (r: bool)
        ensures
            r == (self@.shared.terminal matches Some(t) && t.termios.wants_signals()),
    {
        match &self.shared.terminal {
            Some(t) => t.termios.signals(),
            None => false,
        }
    }

    /// Make the first process. Its descriptors are standard input, output and error.
    pub fn spawn_first(
        &mut self,
        program: ProgramId,
        exe: String,
        argv: Vec<Vec<u8>>,
        envp: Vec<Vec<u8>>,
        cwd: String,
    ) -> (r: Result<Spawn, LoadError>)
        requires
            old(self)@.wf(),
        ensures
            final(self)@.wf(),
            match r {
                Ok(spawn) => first_spawn(
                    old(self)@.shared,
                    program,
                    exe@,
                    byte_strings(argv@),
                    byte_strings(envp@),
                    cwd@,
                ) == Some((final(self)@.shared, spawn@)) && final(self)@ == (KernelView {
                    shared: final(self)@.shared,
                    ..old(self)@.handed_out()
                }),
                Err(e) => first_spawn(
                    old(self)@.shared,
                    program,
                    exe@,
                    byte_strings(argv@),
                    byte_strings(envp@),
                    cwd@,
                ) is None && e is OutOfMemory && final(self)@ == (KernelView {
                    shared: final(self)@.shared,
                    ..old(self)@
                }),
            },
    {
        let pid: i32 = self.shared.allocate_pid();
        let mut fds = FdTable::new();
        if !add_stream(&mut self.shared, &mut fds, DescKind::Stdin, "/dev/stdin", O_RDONLY) {
            return Err(LoadError::OutOfMemory);
        }
        if !add_stream(&mut self.shared, &mut fds, DescKind::Stdout(1), "/dev/stdout", O_WRONLY) {
            return Err(LoadError::OutOfMemory);
        }
        if !add_stream(&mut self.shared, &mut fds, DescKind::Stdout(2), "/dev/stderr", O_WRONLY) {
            return Err(LoadError::OutOfMemory);
        }
        let mut task = Task::new(pid, fds);
        task.cwd = cwd;
        let ghost table = self.shared@.table;
        let record = ProcRecord::new(pid, 0, pid, pid, comm_text(&argv));
        self.shared.table.push(record);
        assert(self.shared@.table =~= table.push(record@));
        self.hand_out();
        Ok(Spawn { task, program, exe, argv, envp })
    }

    /// One more process is handed out to be started.
    pub fn hand_out(&mut self)
        ensures
            final(self)@ == old(self)@.handed_out(),
    {
        if self.starting < usize::MAX {
            self.starting = self.starting + 1;
        }
    }

    /// One process fewer is to be started.
    fn hand_back(&mut self)
        ensures
            final(self)@ == old(self)@.handed_back(),
    {
        if self.starting > 0 {
            self.starting = self.starting - 1;
        }
    }

    /// Turn a pending spawn into a context, and say what kind of program it runs.
    pub fn launch(&self, spawn: Spawn) -> (r: (Ctx, Result<ProgramKind, LoadError>))
        ensures
            r.0@ == launched(spawn@),
            match r.1 {
                Ok(kind) => {
                    &&& spawn.program < self@.shared.programs.len()
                    &&& kind == self@.shared.programs[spawn.program as int]
                },
                Err(e) => spawn.program >= self@.shared.programs.len() && e is NotWasm,
            },
    {
        let program: usize = spawn.program;
        let kind = if program < self.shared.programs.len() {
            Ok(self.shared.programs[program].kind)
        } else {
            Err(LoadError::NotWasm)
        };
        let mut task = spawn.task;
        task.exe = spawn.exe;
        task.comm = comm_text(&spawn.argv);
        task.reset_handlers_for_exec();
        let ctx = Ctx {
            task,
            program,
            argv: spawn.argv,
            envp: spawn.envp,
            exec_request: None,
            vfork_stack: Vec::new(),
            state: ExecState::new(),
        };
        assert(tasks(ctx.vfork_stack@) =~= Seq::empty());
        (ctx, kind)
    }

    /// Put a process into the list at `at`.
    fn install(&mut self, at: usize, ctx: Ctx, body: Body) -> (r: u64)
        requires
            at <= old(self).procs@.len(),
        ensures
            r == old(self)@.next_key,
            final(self)@ == installed(
                old(self)@,
                at as int,
                ProcView {
                    key: r,
                    ctx: ctx@,
                    body: body@,
                    resume: Resume::Fresh,
                    parked: false,
                },
            ),
    {
        let ghost before = self@;
        let key: u64 = self.next_key;
        if self.next_key < u64::MAX {
            self.next_key = self.next_key + 1;
        }
        let p = Proc { key, ctx, body, resume: Resume::Fresh, parked: false };
        let ghost added = p@;
        self.procs.insert(at, p);
        self.hand_back();
        assert(self@.procs =~= before.procs.insert(at as int, added));
        key
    }

    /// Start a host command. It has no memory, no Asyncify area and nothing to charge: it is a
    /// function, and the process record around it is all the state there is.
    pub fn install_host(&mut self, at: usize, ctx: Ctx, reads_stdin: bool) -> (r: u64)
        requires
            at <= old(self).procs@.len(),
        ensures
            r == old(self)@.next_key,
            final(self)@ == installed(
                old(self)@,
                at as int,
                ProcView {
                    key: r,
                    ctx: ctx@,
                    body: BodyView::Host {
                        reads_stdin,
                        phase: PhaseView::Reading(Seq::empty()),
                    },
                    resume: Resume::Fresh,
                    parked: false,
                },
            ),
    {
        let buffer: Vec<u8> = Vec::new();
        assert(buffer@ =~= Seq::empty());
        self.install(at, ctx, Body::Host { reads_stdin, phase: Phase::Reading(buffer) })
    }

    /// Charge for a program's memory and the Asyncify scratch area on top of it. The engine
    /// has instantiated the program, and is to grow its memory by [`ASYNCIFY_PAGES`] next.
    pub fn charge_guest(&mut self, mem_size: u64) -> (r: Result<u64, LoadError>)
        ensures
            match r {
                Ok(charge) => {
                    &&& charge == start_charge(mem_size)
                    &&& old(self)@.shared.affords(charge)
                    &&& final(self)@ == (KernelView {
                        shared: old(self)@.shared.charged(charge),
                        ..old(self)@
                    })
                },
                Err(e) => {
                    &&& !old(self)@.shared.affords(start_charge(mem_size))
                    &&& e is OutOfMemory
                    &&& final(self)@ == old(self)@
                },
            },
    {
        let area: u64 = 1_048_576;
        let charge: u64 = if mem_size > u64::MAX - area {
            u64::MAX
        } else {
            mem_size + area
        };
        if self.shared.charge_memory(charge) {
            Ok(charge)
        } else {
            Err(LoadError::OutOfMemory)
        }
    }

    /// Start a guest, with the scratch area at the end of the `previous` pages it had. Where
    /// the engine could not grow its memory the charge is given back, and so is the context.
    pub fn install_guest(&mut self, at: usize, ctx: Ctx, charge: u64, previous: Option<u64>) -> (r:
        Result<u64, (Ctx, LoadError)>)
        requires
            at <= old(self).procs@.len(),
        ensures
            match r {
                Ok(key) => previous is Some && key == old(self)@.next_key && final(self)@
                    == installed(
                    old(self)@,
                    at as int,
                    guest_proc(key, ctx@, charge, previous->0),
                ),
                Err((c, e)) => previous is None && c == ctx && e is OutOfMemory && final(self)@ == (
                KernelView {
                    shared: old(self)@.shared.refunded(charge),
                    ..old(self)@
                }),
            },
    {
        match previous {
            None => {
                self.shared.release_memory(charge);
                Err((ctx, LoadError::OutOfMemory))
            },
            Some(pages) => {
                let mut ctx = ctx;
                ctx.state.asyncify_data = (pages as u128 * PAGE as u128 % 0x1_0000_0000) as u32;
                ctx.state.charge(charge);
                Ok(self.install(at, ctx, Body::Guest))
            },
        }
    }

    /// A process could not be started: release its descriptors, and report it the way a failed
    /// exec is.
    pub fn start_failed<V: Vfs<Handle = F>>(&mut self, fs: &mut Mounts<V>, ctx: Ctx)
        requires
            old(self)@.wf(),
            old(fs).wf(),
        ensures
            final(self)@.wf(),
            final(fs).wf(),
            not_started::<V>(old(self)@, old(fs)@, ctx@.task) == (final(self)@, final(fs)@),
    {
        let pid: i32 = ctx.task.pid;
        self.hand_back();
        if self.exit_status.is_none() && (pid == 1 || (self.procs.len() == 0
            && self.shared.spawn.len() == 0)) {
            self.exit_status = Some(status_exited(126));
        }
        self.shared.release_fds(fs, ctx.task.fds);
        self.shared.set_exit(pid, status_exited(126));
    }
}

/// A count, held within what an index can be.
pub open spec fn min_count(n: int) -> int {
    if n > usize::MAX {
        usize::MAX as int
    } else {
        n
    }
}

/// What a program costs to start: its memory and the scratch area.
pub open spec fn start_charge(mem_size: u64) -> u64 {
    if mem_size + ASYNCIFY_PAGES * PAGE > u64::MAX {
        u64::MAX
    } else {
        (mem_size + ASYNCIFY_PAGES * PAGE) as u64
    }
}

/// A guest that has not run yet, its scratch area behind its first `pages` pages.
pub open spec fn guest_proc(key: u64, ctx: CtxView, charge: u64, pages: u64) -> ProcView {
    ProcView {
        key,
        ctx: CtxView {
            state: ExecView {
                asyncify_data: (pages * PAGE % 0x1_0000_0000) as u32,
                ..ctx.state.charging(charge)
            },
            ..ctx
        },
        body: BodyView::Guest,
        resume: Resume::Fresh,
        parked: false,
    }
}

} // verus!
