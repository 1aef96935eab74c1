//! What a session's processes share, and what one process has to itself.
use crate::abi::SIGCHLD;
use crate::kernel::fd::{
    fewer, live_descs, Desc, DescKey, DescKind, DescView, FdTable, KindView, Pipe, PipeKey,
    PipeView, PIPE_CAPACITY,
};
use crate::kernel::mem::{byte_strings, Nanos};
use crate::kernel::mounts::{file_called, MountView, Mounts, Overlay, ProgramId};
use crate::kernel::namespace::WhoView;
use crate::kernel::task::{ProcRecord, RecordView, Task, TaskView};
use crate::kernel::tty::{Terminal, TerminalView};
use crate::slab::{Slab, SlabView};
use crate::vfs::{FileCall, Vfs, VfsFile};
use std::collections::VecDeque;
use vstd::prelude::*;

verus! {

/// 64 KiB, the wasm page size, and the unit of memory growth.
pub const PAGE: u64 = 65536;

/// How much guest memory the Asyncify scratch area gets. A saved stack is a few hundred bytes
/// per frame, so this bounds recursion depth as much as the call-depth fuse does.
pub const ASYNCIFY_PAGES: u64 = 16;

/// What a session is allowed to consume.
///
/// Every limit is a ceiling the guest is told about honestly: memory becomes `ENOMEM`,
/// processes become `EAGAIN`, descriptors become `EMFILE`. Nothing here aborts the host.
#[derive(Clone, Copy, Debug)]
pub struct Limits {
    /// Total guest memory across every live process, in bytes.
    pub memory: u64,
    /// Memory one process may reach, in bytes.
    pub memory_per_process: u64,
    /// Live processes at once.
    pub processes: usize,
    /// Open descriptors per process.
    pub open_files: usize,
    /// Bytes of standard output and standard error kept before truncating.
    pub output: usize,
    /// Wall-clock ceiling for the whole session, enforced at syscall boundaries.
    pub wall_clock: Option<Nanos>,
}

/// The limits of a sandbox nobody gave any.
pub open spec fn default_limits() -> Limits {
    Limits {
        memory: 0x1000_0000,
        memory_per_process: 0x400_0000,
        processes: 64,
        open_files: 256,
        output: 0x80_0000,
        wall_clock: Some(60_000_000_000),
    }
}

impl Default for Limits {
    fn default() -> (r: Limits)
        ensures
            r == default_limits(),
    {
        Limits {
            memory: 0x1000_0000,
            memory_per_process: 0x400_0000,
            processes: 64,
            open_files: 256,
            output: 0x80_0000,
            wall_clock: Some(60_000_000_000),
        }
    }
}

/// How much work one call to the scheduler may do.
#[derive(Clone, Copy, Debug)]
pub struct Budget {
    /// Syscalls to serve before handing control back.
    pub syscalls: Option<u64>,
    /// Wall-clock slice.
    pub duration: Option<Nanos>,
}

impl Budget {
    /// Run until the session finishes or blocks.
    pub fn unlimited() -> (r: Budget)
        ensures
            r == (Budget { syscalls: None, duration: None }),
    {
        Budget { syscalls: None, duration: None }
    }

    /// Hand control back after roughly `n` syscalls.
    pub fn syscalls(n: u64) -> (r: Budget)
        ensures
            r == (Budget { syscalls: Some(n), duration: None }),
    {
        Budget { syscalls: Some(n), duration: None }
    }

    /// Hand control back after roughly `d`.
    pub fn duration(d: Nanos) -> (r: Budget)
        ensures
            r == (Budget { syscalls: None, duration: Some(d) }),
    {
        Budget { syscalls: None, duration: Some(d) }
    }

    /// Whether nothing is left after `served` syscalls and `elapsed` nanoseconds.
    pub open spec fn is_spent(self, served: u64, elapsed: Nanos) -> bool {
        (self.syscalls matches Some(limit) && served >= limit) || (self.duration matches Some(limit)
            && elapsed >= limit)
    }

    pub fn spent(&self, served: u64, elapsed: Nanos) -> (r: bool)
        ensures
            r == self.is_spent(served, elapsed),
    {
        if let Some(limit) = self.syscalls {
            if served >= limit {
                return true;
            }
        }
        if let Some(limit) = self.duration {
            if elapsed >= limit {
                return true;
            }
        }
        false
    }
}

/// What the clocks say while a syscall is served.
pub struct Clock {
    /// Time since the session started.
    pub elapsed: Nanos,
    /// Time since the Unix epoch.
    pub realtime: Nanos,
    /// The time since the session started, in seconds, as `/proc/uptime` prints it.
    pub uptime: String,
}

impl Clock {
    /// Both times count in seconds that fit a 64-bit word.
    pub open spec fn wf(&self) -> bool {
        self.elapsed / 1_000_000_000 <= u64::MAX && self.realtime / 1_000_000_000 <= u64::MAX
    }
}

/// Bytes fed to the session's standard input.
pub struct StdinBuffer {
    pub data: VecDeque<u8>,
    /// No more will arrive: reads return end of file.
    pub closed: bool,
    /// A process is blocked wanting more.
    pub wanted: bool,
}

/// The content of a [`StdinBuffer`].
#[verifier::ext_equal]
pub struct StdinView {
    pub data: Seq<u8>,
    pub closed: bool,
    pub wanted: bool,
}

impl View for StdinBuffer {
    type V = StdinView;

    open spec fn view(&self) -> StdinView {
        StdinView { data: self.data@, closed: self.closed, wanted: self.wanted }
    }
}

impl StdinBuffer {
    pub fn new() -> (r: StdinBuffer)
        ensures
            r@ == (StdinView { data: Seq::empty(), closed: false, wanted: false }),
    {
        StdinBuffer { data: VecDeque::new(), closed: false, wanted: false }
    }

    /// Add bytes at the end.
    pub fn feed(&mut self, bytes: &[u8])
        ensures
            final(self)@ == (StdinView { data: old(self)@.data + bytes@, ..old(self)@ }),
    {
        let ghost before = self@;
        let mut i: usize = 0;
        assert(self@.data =~= before.data + bytes@.subrange(0, 0));
        while i < bytes.len()
            invariant
                i <= bytes@.len(),
                self@ == (StdinView { data: before.data + bytes@.subrange(0, i as int), ..before }),
            decreases bytes@.len() - i,
        {
            self.data.push_back(bytes[i]);
            i = i + 1;
            assert(self@.data =~= before.data + bytes@.subrange(0, i as int));
        }
        assert(bytes@.subrange(0, i as int) =~= bytes@);
    }
}

/// Captured standard output or standard error, bounded.
pub struct OutputBuffer {
    pub data: Vec<u8>,
    /// Bytes dropped because the limit was reached.
    pub dropped: u64,
    /// Where the caller has already read up to, for streaming.
    pub taken: usize,
}

/// The content of an [`OutputBuffer`].
#[verifier::ext_equal]
pub struct OutputView {
    pub data: Seq<u8>,
    pub dropped: u64,
    pub taken: usize,
}

impl View for OutputBuffer {
    type V = OutputView;

    open spec fn view(&self) -> OutputView {
        OutputView { data: self.data@, dropped: self.dropped, taken: self.taken }
    }
}

/// A count of bytes, held within 64 bits.
pub open spec fn held(n: int) -> u64 {
    if n > u64::MAX {
        u64::MAX
    } else {
        n as u64
    }
}

impl OutputView {
    pub open spec fn empty() -> OutputView {
        OutputView { data: Seq::empty(), dropped: 0, taken: 0 }
    }

    /// How many of `n` more bytes are kept under `limit`.
    pub open spec fn kept(self, n: int, limit: int) -> int {
        if self.data.len() >= limit {
            0
        } else if n < limit - self.data.len() {
            n
        } else {
            limit - self.data.len()
        }
    }

    /// With more bytes, as far as `limit` allows; the rest is counted and dropped.
    pub open spec fn pushed(self, bytes: Seq<u8>, limit: int) -> OutputView {
        let take = self.kept(bytes.len() as int, limit);
        OutputView {
            data: self.data + bytes.subrange(0, take),
            dropped: held(self.dropped + (bytes.len() - take)),
            ..self
        }
    }

    /// The bytes not yet handed to the caller.
    pub open spec fn fresh(self) -> Seq<u8> {
        if self.taken <= self.data.len() {
            self.data.subrange(self.taken as int, self.data.len() as int)
        } else {
            Seq::empty()
        }
    }
}

impl OutputBuffer {
    pub fn new() -> (r: OutputBuffer)
        ensures
            r@ == OutputView::empty(),
    {
        OutputBuffer { data: Vec::new(), dropped: 0, taken: 0 }
    }

    /// Append as much as `limit` allows, and count the rest.
    pub fn push(&mut self, bytes: &[u8], limit: usize)
        ensures
            final(self)@ == old(self)@.pushed(bytes@, limit as int),
    {
        let ghost before = self@;
        let room: usize = if self.data.len() < limit {
            limit - self.data.len()
        } else {
            0
        };
        let take: usize = if bytes.len() < room {
            bytes.len()
        } else {
            room
        };
        let mut i: usize = 0;
        assert(self@.data =~= before.data + bytes@.subrange(0, 0));
        while i < take
            invariant
                i <= take <= bytes@.len(),
                self@ == (OutputView { data: before.data + bytes@.subrange(0, i as int), ..before }),
            decreases take - i,
        {
            self.data.push(bytes[i]);
            i = i + 1;
            assert(self@.data =~= before.data + bytes@.subrange(0, i as int));
        }
        let lost: u64 = (bytes.len() - take) as u64;
        self.dropped = if lost > u64::MAX - self.dropped {
            u64::MAX
        } else {
            self.dropped + lost
        };
    }

    /// Bytes not yet handed to the caller.
    pub fn drain_new(&mut self) -> (r: Vec<u8>)
        ensures
            r@ == old(self)@.fresh(),
            final(self)@ == (OutputView { taken: old(self)@.data.len() as usize, ..old(self)@ }),
    {
        let mut out: Vec<u8> = Vec::new();
        let from: usize = if self.taken < self.data.len() {
            self.taken
        } else {
            self.data.len()
        };
        let mut i: usize = from;
        while i < self.data.len()
            invariant
                from <= i <= self.data@.len(),
                self@ == old(self)@,
                out@ == self.data@.subrange(from as int, i as int),
            decreases self.data@.len() - i,
        {
            out.push(self.data[i]);
            i = i + 1;
            assert(out@ =~= self.data@.subrange(from as int, i as int));
        }
        assert(out@ =~= old(self)@.fresh());
        self.taken = self.data.len();
        out
    }
}

/// One program the sandbox can run.
pub struct ProgramEntry {
    /// The image or command name, for diagnostics.
    pub name: String,
    pub kind: ProgramKind,
}

/// The two ways a program can be implemented.
///
/// Both live in one table and share one id space, which is the reason host commands need no
/// support anywhere else: path resolution, `execve`, `/proc/self/exe`, `which` and the program
/// listing all see a program and do not care which kind it is.
#[derive(Clone, Copy, PartialEq, Eq, Debug, Structural)]
pub enum ProgramKind {
    /// A wasm module: memory, Asyncify, syscalls.
    Guest,
    /// Rust supplied by the embedder.
    Host,
}

/// The kinds of a program table.
pub open spec fn kinds_of(programs: Seq<ProgramEntry>) -> Seq<ProgramKind> {
    programs.map_values(|p: ProgramEntry| p.kind)
}

/// A child waiting for the scheduler to give it an instance.
pub struct Spawn {
    pub task: Task,
    pub program: ProgramId,
    pub exe: String,
    pub argv: Vec<Vec<u8>>,
    pub envp: Vec<Vec<u8>>,
}

/// The content of a [`Spawn`].
#[verifier::ext_equal]
pub struct SpawnView {
    pub task: TaskView,
    pub program: ProgramId,
    pub exe: Seq<char>,
    pub argv: Seq<Seq<u8>>,
    pub envp: Seq<Seq<u8>>,
}

impl View for Spawn {
    type V = SpawnView;

    open spec fn view(&self) -> SpawnView {
        SpawnView {
            task: self.task@,
            program: self.program,
            exe: self.exe@,
            argv: byte_strings(self.argv@),
            envp: byte_strings(self.envp@),
        }
    }
}

pub open spec fn spawns(v: Seq<Spawn>) -> Seq<SpawnView> {
    v.map_values(|s: Spawn| s@)
}

pub open spec fn records(v: Seq<ProcRecord>) -> Seq<RecordView> {
    v.map_values(|r: ProcRecord| r@)
}

pub open spec fn tasks(v: Seq<Task>) -> Seq<TaskView> {
    v.map_values(|t: Task| t@)
}

/// Everything a session shares between its processes. `F` is an open file of a mount.
pub struct Shared<F> {
    pub overlay: Overlay,
    pub programs: Vec<ProgramEntry>,
    pub limits: Limits,
    pub descs: Slab<Desc<F>>,
    pub pipes: Slab<Pipe>,
    pub table: Vec<ProcRecord>,
    pub next_pid: i32,
    /// Children whose `execve` happened inside a parent's `vfork` window, waiting to be given
    /// an instance of their own by the scheduler.
    pub spawn: Vec<Spawn>,
    pub stdin: StdinBuffer,
    pub stdout: OutputBuffer,
    pub stderr: OutputBuffer,
    /// Guest memory currently allocated, in bytes.
    pub memory_used: u64,
    /// Set when a syscall could not finish because a [`Vfs`] returned `AGAIN`, so the session
    /// can tell its caller to await something.
    pub vfs_pending: bool,
    /// A host command returned `AGAIN`. Same meaning as `vfs_pending`, reported separately so
    /// the caller knows which of its own things to await.
    pub host_pending: bool,
    /// Syscalls served, for accounting and tests.
    pub syscalls: u64,
    /// The terminal this session was given, if it was given one. `None` is the default and the
    /// only thing an agent should ever see: with no terminal, `isatty` says no and every
    /// terminal `ioctl` is `ENOTTY`.
    pub terminal: Option<Terminal>,
    /// The state of the pseudo-random bytes.
    pub random: u64,
}

/// The content of a [`Shared`].
#[verifier::ext_equal]
pub struct SharedView<F> {
    pub overlay: Seq<(Seq<char>, ProgramId)>,
    pub programs: Seq<ProgramKind>,
    pub limits: Limits,
    pub descs: SlabView<DescView<F>>,
    pub pipes: SlabView<PipeView>,
    pub table: Seq<RecordView>,
    pub next_pid: i32,
    pub spawn: Seq<SpawnView>,
    pub stdin: StdinView,
    pub stdout: OutputView,
    pub stderr: OutputView,
    pub memory_used: u64,
    pub vfs_pending: bool,
    pub host_pending: bool,
    pub syscalls: u64,
    pub terminal: Option<TerminalView>,
    pub random: u64,
}

pub open spec fn terminal_view(t: Option<Terminal>) -> Option<TerminalView> {
    match t {
        Some(t) => Some(t@),
        None => None,
    }
}

impl<F> View for Shared<F> {
    type V = SharedView<F>;

    open spec fn view(&self) -> SharedView<F> {
        SharedView {
            overlay: self.overlay@,
            programs: kinds_of(self.programs@),
            limits: self.limits,
            descs: self.descs@,
            pipes: self.pipes@,
            table: records(self.table@),
            next_pid: self.next_pid,
            spawn: spawns(self.spawn@),
            stdin: self.stdin@,
            stdout: self.stdout@,
            stderr: self.stderr@,
            memory_used: self.memory_used,
            vfs_pending: self.vfs_pending,
            host_pending: self.host_pending,
            syscalls: self.syscalls,
            terminal: terminal_view(self.terminal),
            random: self.random,
        }
    }
}

/// The position of the first record of a process, from `i` on.
pub open spec fn record_from(table: Seq<RecordView>, pid: i32, i: int) -> Option<int>
    decreases table.len() - i,
{
    if i >= table.len() {
        None
    } else if table[i].pid == pid {
        Some(i)
    } else {
        record_from(table, pid, i + 1)
    }
}

/// The position of a process's record.
pub open spec fn record_at(table: Seq<RecordView>, pid: i32) -> Option<int> {
    record_from(table, pid, 0)
}

/// The signals pending for a process.
pub open spec fn pending_of(table: Seq<RecordView>, pid: i32) -> u64 {
    match record_at(table, pid) {
        Some(i) => table[i].pending,
        None => 0,
    }
}

/// The process group of a process.
pub open spec fn group_of(table: Seq<RecordView>, pid: i32) -> i32 {
    match record_at(table, pid) {
        Some(i) => table[i].pgid,
        None => pid,
    }
}

/// How many processes are alive.
pub open spec fn alive_count(table: Seq<RecordView>) -> nat
    decreases table.len(),
{
    if table.len() == 0 {
        0
    } else {
        alive_count(table.drop_last()) + if table.last().alive() {
            1nat
        } else {
            0nat
        }
    }
}

/// The table without the records of a process.
pub open spec fn without_pid(table: Seq<RecordView>, pid: i32) -> Seq<RecordView>
    decreases table.len(),
{
    if table.len() == 0 {
        table
    } else {
        let rest = without_pid(table.drop_last(), pid);
        if table.last().pid == pid {
            rest
        } else {
            rest.push(table.last())
        }
    }
}

/// The table with the orphans of a process given to the first one.
pub open spec fn reparented(table: Seq<RecordView>, pid: i32) -> Seq<RecordView> {
    table.map_values(
        |r: RecordView|
            if r.ppid == pid {
                RecordView { ppid: 1, ..r }
            } else {
                r
            },
    )
}

/// The record of a process that has ended: the first status it ended with counts.
pub open spec fn ended(r: RecordView, status: i32) -> RecordView {
    RecordView {
        exit: if r.exit is Some {
            r.exit
        } else {
            Some(status)
        },
        wake_at: None,
        ..r
    }
}

/// The table after a process ended: its orphans are given away, and its parent is told if
/// there is one alive. Otherwise nobody will ask, and the record goes at once.
pub open spec fn exited_table(table: Seq<RecordView>, pid: i32, status: i32) -> Seq<RecordView> {
    let (marked, parent) = match record_at(table, pid) {
        Some(i) => (table.update(i, ended(table[i], status)), table[i].ppid),
        None => (table, 0i32),
    };
    let orphaned = reparented(marked, pid);
    match record_at(orphaned, parent) {
        Some(j) => if orphaned[j].alive() {
            orphaned.update(j, orphaned[j].raised(SIGCHLD))
        } else {
            without_pid(orphaned, pid)
        },
        None => without_pid(orphaned, pid),
    }
}

/// The pipes with one end of one closed, and the pipe gone once both are.
pub open spec fn pipe_released(
    pipes: SlabView<PipeView>,
    k: PipeKey,
    reader: bool,
) -> SlabView<PipeView> {
    match pipes.get(k) {
        None => pipes,
        Some(p) => {
            let left = if reader {
                PipeView { readers: fewer(p.readers), ..p }
            } else {
                PipeView { writers: fewer(p.writers), ..p }
            };
            if left.readers == 0 && left.writers == 0 {
                pipes.set(k, left).remove(k)
            } else {
                pipes.set(k, left)
            }
        },
    }
}

/// The session and its mounts with one reference less to a description. The last one closes
/// it: a file is closed on its mount, a pipe loses an end.
pub open spec fn released<V: Vfs>(
    sh: SharedView<<V as VfsFile>::Handle>,
    fs: Seq<MountView<<V as VfsFile>::State>>,
    k: DescKey,
) -> (SharedView<<V as VfsFile>::Handle>, Seq<MountView<<V as VfsFile>::State>>) {
    match sh.descs.get(k) {
        None => (sh, fs),
        Some(d) => {
            let less = sh.descs.set(k, DescView { refs: fewer(d.refs), ..d });
            if fewer(d.refs) != 0 {
                (SharedView { descs: less, ..sh }, fs)
            } else {
                let gone = SharedView { descs: less.remove(k), ..sh };
                match d.kind {
                    KindView::File { file, mount, closed } => if closed {
                        (gone, fs)
                    } else {
                        (gone, file_called::<V>(fs, mount as int, file, FileCall::Close).0)
                    },
                    KindView::PipeRead(p) => (
                        SharedView { pipes: pipe_released(gone.pipes, p, true), ..gone },
                        fs,
                    ),
                    KindView::PipeWrite(p) => (
                        SharedView { pipes: pipe_released(gone.pipes, p, false), ..gone },
                        fs,
                    ),
                    _ => (gone, fs),
                }
            }
        },
    }
}

/// The session and its mounts with one reference less to each description listed.
pub open spec fn released_all<V: Vfs>(
    sh: SharedView<<V as VfsFile>::Handle>,
    fs: Seq<MountView<<V as VfsFile>::State>>,
    keys: Seq<DescKey>,
) -> (SharedView<<V as VfsFile>::Handle>, Seq<MountView<<V as VfsFile>::State>>)
    decreases keys.len(),
{
    if keys.len() == 0 {
        (sh, fs)
    } else {
        let (s, f) = released_all::<V>(sh, fs, keys.drop_last());
        released::<V>(s, f, keys.last())
    }
}

/// Whether no pipe holds more than its capacity.
pub open spec fn pipes_hold(pipes: SlabView<PipeView>) -> bool {
    forall|k: int|
        0 <= k < pipes.slots.len() ==> ((#[trigger] pipes.slots[k]) matches Some(p) ==> p.data.len()
            <= PIPE_CAPACITY)
}

impl<F> SharedView<F> {
    /// The two slabs keep their free lists exact, and the session stays within its limits: no
    /// more output is kept and no more memory is in use than they allow, and no pipe holds more
    /// than its capacity.
    pub open spec fn wf(self) -> bool {
        &&& self.descs.wf()
        &&& self.pipes.wf()
        &&& self.stdout.data.len() <= self.limits.output
        &&& self.stderr.data.len() <= self.limits.output
        &&& self.memory_used <= self.limits.memory
        &&& pipes_hold(self.pipes)
    }

    /// After a process ended.
    pub open spec fn with_exit(self, pid: i32, status: i32) -> SharedView<F> {
        SharedView { table: exited_table(self.table, pid, status), ..self }
    }

    /// Whether `bytes` more memory may be used.
    pub open spec fn affords(self, bytes: u64) -> bool {
        self.memory_used + bytes <= self.limits.memory
    }

    /// With `bytes` more memory in use.
    pub open spec fn charged(self, bytes: u64) -> SharedView<F> {
        SharedView { memory_used: (self.memory_used + bytes) as u64, ..self }
    }

    /// With `bytes` of memory given back.
    pub open spec fn refunded(self, bytes: u64) -> SharedView<F> {
        SharedView {
            memory_used: if self.memory_used >= bytes {
                (self.memory_used - bytes) as u64
            } else {
                0
            },
            ..self
        }
    }

    /// With one more process in the table.
    pub open spec fn with_pid(self) -> SharedView<F> {
        SharedView {
            next_pid: if self.next_pid < i32::MAX {
                (self.next_pid + 1) as i32
            } else {
                self.next_pid
            },
            ..self
        }
    }

    /// The record of a child of `parent`.
    pub open spec fn child_record(self, parent: TaskView) -> RecordView {
        match record_at(self.table, parent.pid) {
            Some(i) => RecordView::fresh(
                self.next_pid,
                self.table[i].pid,
                self.table[i].pgid,
                self.table[i].sid,
                parent.comm,
            ),
            None => RecordView::fresh(
                self.next_pid,
                parent.pid,
                parent.pid,
                parent.pid,
                parent.comm,
            ),
        }
    }

    /// With bytes written to standard output or, for 2, standard error.
    pub open spec fn with_output(self, which: u8, bytes: Seq<u8>) -> SharedView<F> {
        if which == 2 {
            SharedView { stderr: self.stderr.pushed(bytes, self.limits.output as int), ..self }
        } else {
            SharedView { stdout: self.stdout.pushed(bytes, self.limits.output as int), ..self }
        }
    }
}

impl<F> Shared<F> {
    pub fn allocate_pid(&mut self) -> (r: i32)
        ensures
            r == old(self)@.next_pid,
            final(self)@ == old(self)@.with_pid(),
    {
        let pid: i32 = self.next_pid;
        if self.next_pid < i32::MAX {
            self.next_pid = self.next_pid + 1;
        }
        pid
    }

    /// The position of a process's record.
    pub fn record(&self, pid: i32) -> (r: Option<usize>)
        ensures
            match r {
                Some(i) => i < self.table@.len() && record_at(self@.table, pid) == Some(i as int),
                None => record_at(self@.table, pid) is None,
            },
    {
        let mut i: usize = 0;
        while i < self.table.len()
            invariant
                i <= self.table@.len(),
                record_at(self@.table, pid) == record_from(self@.table, pid, i as int),
            decreases self.table@.len() - i,
        {
            assert(self@.table[i as int].pid == self.table@[i as int].pid);
            if self.table[i].pid == pid {
                return Some(i);
            }
            i = i + 1;
        }
        None
    }

    /// The signals pending for a process.
    pub fn pending(&self, pid: i32) -> (r: u64)
        ensures
            r == pending_of(self@.table, pid),
    {
        match self.record(pid) {
            Some(i) => self.table[i].pending,
            None => 0,
        }
    }

    /// The process group of a process.
    pub fn group(&self, pid: i32) -> (r: i32)
        ensures
            r == group_of(self@.table, pid),
    {
        match self.record(pid) {
            Some(i) => self.table[i].pgid,
            None => pid,
        }
    }

    /// How many processes are alive.
    pub fn alive(&self) -> (r: usize)
        ensures
            r == alive_count(self@.table),
    {
        let ghost all = self@.table;
        let mut n: usize = 0;
        let mut i: usize = 0;
        assert(all.subrange(0, 0) =~= Seq::empty());
        while i < self.table.len()
            invariant
                i <= self.table@.len(),
                all == self@.table,
                n <= i,
                n == alive_count(all.subrange(0, i as int)),
            decreases self.table@.len() - i,
        {
            assert(all.subrange(0, i + 1).drop_last() =~= all.subrange(0, i as int));
            assert(all.subrange(0, i + 1).last() == self.table@[i as int]@);
            if self.table[i].is_alive() {
                n = n + 1;
            }
            i = i + 1;
        }
        assert(all.subrange(0, i as int) =~= all);
        n
    }

    /// A new pid for a `vfork` child, with a record of its own. None when the limit on live
    /// processes is reached.
    pub fn fork_record(&mut self, parent: &Task) -> (r: Option<i32>)
        ensures
            match r {
                Some(pid) => {
                    &&& alive_count(old(self)@.table) < old(self)@.limits.processes
                    &&& pid == old(self)@.next_pid
                    &&& final(self)@ == (SharedView {
                        table: old(self)@.table.push(old(self)@.child_record(parent@)),
                        ..old(self)@.with_pid()
                    })
                },
                None => {
                    &&& alive_count(old(self)@.table) >= old(self)@.limits.processes
                    &&& final(self)@ == old(self)@
                },
            },
    {
        if self.alive() >= self.limits.processes {
            return None;
        }
        let ghost before = self@;
        let (ppid, pgid, sid): (i32, i32, i32) = match self.record(parent.pid) {
            Some(i) => (self.table[i].pid, self.table[i].pgid, self.table[i].sid),
            None => (parent.pid, parent.pid, parent.pid),
        };
        let pid: i32 = self.allocate_pid();
        let record = ProcRecord::new(pid, ppid, pgid, sid, parent.comm.clone());
        self.table.push(record);
        assert(self@.table =~= before.table.push(record@));
        Some(pid)
    }

    /// Note when a process wants to be woken.
    pub fn set_wake(&mut self, pid: i32, when: Option<Nanos>)
        ensures
            final(self)@ == (SharedView {
                table: with_wake(old(self)@.table, pid, when),
                ..old(self)@
            }),
    {
        let ghost before = self@;
        match self.record(pid) {
            Some(i) => {
                self.table[i].wake_at = when;
                assert(self@.table =~= with_wake(before.table, pid, when));
            },
            None => {},
        }
    }

    /// Raise a signal for a process.
    pub fn raise(&mut self, pid: i32, sig: i32)
        ensures
            final(self)@ == (SharedView {
                table: with_signal(old(self)@.table, pid, sig),
                ..old(self)@
            }),
    {
        let ghost before = self@;
        match self.record(pid) {
            Some(i) => {
                self.table[i].raise(sig);
                assert(self@.table =~= with_signal(before.table, pid, sig));
            },
            None => {},
        }
    }

    /// Lower some of a process's pending signals.
    pub fn lower(&mut self, pid: i32, set: u64)
        ensures
            final(self)@ == (SharedView {
                table: without_signals(old(self)@.table, pid, set),
                ..old(self)@
            }),
    {
        let ghost before = self@;
        match self.record(pid) {
            Some(i) => {
                self.table[i].pending = self.table[i].pending & !set;
                assert(self@.table =~= without_signals(before.table, pid, set));
            },
            None => {},
        }
    }

    /// Drop the records of a process.
    pub fn forget(&mut self, pid: i32)
        ensures
            final(self)@ == (SharedView {
                table: without_pid(old(self)@.table, pid),
                ..old(self)@
            }),
    {
        let ghost before = self@;
        let ghost all = before.table;
        let mut i: usize = self.table.len();
        assert(all.subrange(0, i as int) =~= all);
        assert(without_pid(all, pid) =~= without_pid(all.subrange(0, i as int), pid)
            + self@.table.subrange(i as int, self@.table.len() as int));
        while i > 0
            invariant
                i <= self.table@.len(),
                i <= all.len(),
                self@ == (SharedView { table: self@.table, ..before }),
                forall|j: int| 0 <= j < i ==> #[trigger] self@.table[j] == all[j],
                without_pid(all, pid) == without_pid(all.subrange(0, i as int), pid)
                    + self@.table.subrange(i as int, self@.table.len() as int),
            decreases i,
        {
            let ghost now = self@.table;
            let at: usize = i - 1;
            assert(all.subrange(0, i as int).drop_last() =~= all.subrange(0, at as int));
            assert(all.subrange(0, i as int).last() == now[at as int]);
            assert(now[at as int].pid == self.table@[at as int].pid);
            if self.table[at].pid == pid {
                self.table.remove(at);
                assert(self@.table =~= now.remove(at as int));
                assert(self@.table.subrange(at as int, self@.table.len() as int)
                    =~= now.subrange(i as int, now.len() as int));
            } else {
                assert(without_pid(all, pid) =~= without_pid(all.subrange(0, at as int), pid)
                    + now.subrange(at as int, now.len() as int));
            }
            i = at;
        }
        assert(all.subrange(0, 0) =~= Seq::empty());
        assert(self@.table =~= without_pid(all, pid));
    }

    /// Record an exit, reparent any orphans, and tell the parent.
    pub fn set_exit(&mut self, pid: i32, status: i32)
        ensures
            final(self)@ == old(self)@.with_exit(pid, status),
    {
        let ghost before = self@;
        let mut parent: i32 = 0;
        match self.record(pid) {
            Some(i) => {
                if self.table[i].exit.is_none() {
                    self.table[i].exit = Some(status);
                }
                self.table[i].wake_at = None;
                parent = self.table[i].ppid;
                assert(self@.table =~= before.table.update(
                    i as int,
                    ended(before.table[i as int], status),
                ));
            },
            None => {},
        }
        let ghost marked = self@.table;
        let mut i: usize = 0;
        while i < self.table.len()
            invariant
                i <= self.table@.len(),
                self@ == (SharedView { table: self@.table, ..before }),
                self@.table.len() == marked.len(),
                forall|j: int|
                    0 <= j < i ==> self@.table[j] == #[trigger] reparented(marked, pid)[j],
                forall|j: int| i <= j < marked.len() ==> #[trigger] self@.table[j] == marked[j],
            decreases self.table@.len() - i,
        {
            let ghost now = self@.table;
            assert(now[i as int] == self.table@[i as int]@);
            if self.table[i].ppid == pid {
                self.table[i].ppid = 1;
            }
            assert(self@.table =~= now.update(i as int, reparented(marked, pid)[i as int]));
            i = i + 1;
        }
        assert(self@.table =~= reparented(marked, pid));
        match self.record(parent) {
            Some(j) => {
                assert(self@.table[j as int] == self.table@[j as int]@);
                if self.table[j].is_alive() {
                    let ghost orphaned = self@.table;
                    self.table[j].raise(SIGCHLD);
                    assert(self@.table =~= orphaned.update(
                        j as int,
                        orphaned[j as int].raised(SIGCHLD),
                    ));
                } else {
                    self.forget(pid);
                }
            },
            None => {
                self.forget(pid);
            },
        }
    }

    /// Charge guest memory against the session's limit.
    pub fn charge_memory(&mut self, bytes: u64) -> (r: bool)
        ensures
            r == old(self)@.affords(bytes),
            final(self)@ == if r {
                old(self)@.charged(bytes)
            } else {
                old(self)@
            },
    {
        if bytes > u64::MAX - self.memory_used || self.memory_used + bytes > self.limits.memory {
            return false;
        }
        self.memory_used = self.memory_used + bytes;
        true
    }

    pub fn release_memory(&mut self, bytes: u64)
        ensures
            final(self)@ == old(self)@.refunded(bytes),
    {
        self.memory_used = if self.memory_used >= bytes {
            self.memory_used - bytes
        } else {
            0
        };
    }

    /// Close one end of a pipe.
    fn release_pipe(&mut self, k: PipeKey, reader: bool)
        requires
            old(self)@.wf(),
        ensures
            final(self)@ == (SharedView {
                pipes: pipe_released(old(self)@.pipes, k, reader),
                ..old(self)@
            }),
            final(self)@.wf(),
    {
        let ghost before = self@;
        let mut gone = false;
        match self.pipes.get_mut(k) {
            Some(pipe) => {
                if reader {
                    if pipe.readers > 0 {
                        pipe.readers = pipe.readers - 1;
                    }
                } else {
                    if pipe.writers > 0 {
                        pipe.writers = pipe.writers - 1;
                    }
                }
                gone = pipe.readers == 0 && pipe.writers == 0;
            },
            None => {},
        }
        if gone {
            let _ = self.pipes.remove(k);
        }
    }

    /// Drop one reference to a description, closing it when the last goes.
    ///
    /// A file whose close wants to block cannot be retried here, so what the close answers is
    /// not looked at: the write-back has to happen eagerly.
    pub fn release_desc<V: Vfs<Handle = F>>(&mut self, fs: &mut Mounts<V>, k: DescKey)
        requires
            old(self)@.wf(),
            old(fs).wf(),
        ensures
            (final(self)@, final(fs)@) == released::<V>(old(self)@, old(fs)@, k),
            final(self)@.wf(),
            final(fs).wf(),
    {
        let ghost before = self@;
        let mut done = false;
        match self.descs.get_mut(k) {
            Some(desc) => {
                if desc.refs > 0 {
                    desc.refs = desc.refs - 1;
                }
                done = desc.refs == 0;
            },
            None => {},
        }
        if !done {
            return ;
        }
        match self.descs.remove(k) {
            Some(desc) => match desc.kind {
                DescKind::File { file, mount, closed } => {
                    if !closed {
                        let mut file = file;
                        let _ = fs.file_close(mount, &mut file);
                    }
                },
                DescKind::PipeRead(p) => {
                    self.release_pipe(p, true);
                },
                DescKind::PipeWrite(p) => {
                    self.release_pipe(p, false);
                },
                _ => {},
            },
            None => {},
        }
    }

    /// Drop one reference to each of a list of descriptions.
    pub fn release_descs<V: Vfs<Handle = F>>(&mut self, fs: &mut Mounts<V>, keys: &Vec<DescKey>)
        requires
            old(self)@.wf(),
            old(fs).wf(),
        ensures
            (final(self)@, final(fs)@) == released_all::<V>(old(self)@, old(fs)@, keys@),
            final(self)@.wf(),
            final(fs).wf(),
    {
        let mut i: usize = 0;
        assert(keys@.subrange(0, 0) =~= Seq::empty());
        while i < keys.len()
            invariant
                i <= keys@.len(),
                (self@, fs@) == released_all::<V>(
                    old(self)@,
                    old(fs)@,
                    keys@.subrange(0, i as int),
                ),
                self@.wf(),
                fs.wf(),
            decreases keys@.len() - i,
        {
            assert(keys@.subrange(0, i + 1).drop_last() =~= keys@.subrange(0, i as int));
            self.release_desc(fs, keys[i]);
            i = i + 1;
        }
        assert(keys@.subrange(0, i as int) =~= keys@);
    }

    /// Release every descriptor of a dying process.
    pub fn release_fds<V: Vfs<Handle = F>>(&mut self, fs: &mut Mounts<V>, table: FdTable)
        requires
            old(self)@.wf(),
            old(fs).wf(),
        ensures
            (final(self)@, final(fs)@) == released_all::<V>(
                old(self)@,
                old(fs)@,
                live_descs(table@),
            ),
            final(self)@.wf(),
            final(fs).wf(),
    {
        let mut table = table;
        let keys = table.drain_all();
        self.release_descs(fs, &keys);
    }

    /// Append to the session's standard output or error.
    pub fn write_output(&mut self, which: u8, bytes: &[u8]) -> (r: usize)
        ensures
            r == bytes@.len(),
            final(self)@ == old(self)@.with_output(which, bytes@),
    {
        let limit: usize = self.limits.output;
        if which == 2 {
            self.stderr.push(bytes, limit);
        } else {
            self.stdout.push(bytes, limit);
        }
        bytes.len()
    }

    /// Note that a `Vfs` asked to be called again.
    pub fn note_vfs_pending(&mut self)
        ensures
            final(self)@ == (SharedView { vfs_pending: true, ..old(self)@ }),
    {
        self.vfs_pending = true;
    }
}

/// The table with the time noted at which a process wants to be woken.
pub open spec fn with_wake(table: Seq<RecordView>, pid: i32, when: Option<Nanos>) -> Seq<
    RecordView,
> {
    match record_at(table, pid) {
        Some(i) => table.update(i, RecordView { wake_at: when, ..table[i] }),
        None => table,
    }
}

/// The table with a signal raised for a process.
pub open spec fn with_signal(table: Seq<RecordView>, pid: i32, sig: i32) -> Seq<RecordView> {
    match record_at(table, pid) {
        Some(i) => table.update(i, table[i].raised(sig)),
        None => table,
    }
}

/// The table with some of a process's pending signals lowered.
pub open spec fn without_signals(table: Seq<RecordView>, pid: i32, set: u64) -> Seq<RecordView> {
    match record_at(table, pid) {
        Some(i) => table.update(
            i,
            RecordView { pending: table[i].pending & !set, ..table[i] },
        ),
        None => table,
    }
}

/// Why the guest's stack was unwound.
#[derive(Clone, Copy, PartialEq, Eq, Debug, Structural)]
pub enum Suspension {
    /// `setjmp`: snapshot the stack for this `jmp_buf`, then rewind and return zero.
    Setjmp { env: u32, sp: u32 },
    /// `longjmp`: restore that snapshot, then rewind and return `val`.
    Longjmp { env: u32, val: i32 },
    /// A syscall that could not finish. Retried before the stack is rewound.
    Blocked { call: Call },
    /// The process is over.
    Exit(i32),
    /// `execve` succeeded: replace this process's instance.
    Exec,
}

/// A syscall and its six arguments.
#[derive(Clone, Copy, PartialEq, Eq, Debug, Structural)]
pub struct Call {
    pub number: i32,
    pub a0: i32,
    pub a1: i32,
    pub a2: i32,
    pub a3: i32,
    pub a4: i32,
    pub a5: i32,
}

/// A saved stack and the stack pointer that went with it.
pub struct Saved {
    pub env: u32,
    pub stack: Vec<u8>,
    pub sp: u32,
}

/// The Asyncify bookkeeping for one process.
pub struct ExecState {
    /// Base of the scratch area in guest memory.
    pub asyncify_data: u32,
    /// A rewind is in progress and the next import call is the one being resumed.
    pub rewinding: bool,
    /// What that import should return.
    pub resume_value: i32,
    /// The `__stack_pointer` to restore when the rewind lands.
    pub resume_sp: u32,
    /// Why the stack is being unwound, read by the scheduler once `_start` returns.
    pub suspension: Option<Suspension>,
    /// Saved stacks, keyed by the guest's `jmp_buf` address. Asyncify saves locals but not
    /// globals, so the stack pointer is saved separately.
    pub jmp_bufs: Vec<Saved>,
    /// Where musl keeps its "a signal is pending" flag, from the `init` import.
    pub signal_flag: u32,
    /// Deadline of a sleep or a timed wait, kept across retries.
    pub deadline: Option<Nanos>,
    /// The signal mask to put back when a `sigsuspend` finally returns. It has to stay in
    /// effect for as long as the call is blocked, because that mask is what decides which
    /// signal wakes it.
    pub mask_to_restore: Option<u64>,
    /// Guest memory charged to the accounting, at the start and as it grew, so it can be
    /// returned on exit.
    pub charged: u64,
    /// What a file mapping is to show, read before the memory is grown for it.
    pub staged: Vec<u8>,
    /// Where a file that was read for a mapping is to be put back, kept across retries.
    pub put_back: Option<u64>,
}

/// The content of an [`ExecState`]; of the saved stacks, each one's address, bytes and stack
/// pointer.
#[verifier::ext_equal]
pub struct ExecView {
    pub asyncify_data: u32,
    pub rewinding: bool,
    pub resume_value: i32,
    pub resume_sp: u32,
    pub suspension: Option<Suspension>,
    pub jmp_bufs: Seq<(u32, Seq<u8>, u32)>,
    pub signal_flag: u32,
    pub deadline: Option<Nanos>,
    pub mask_to_restore: Option<u64>,
    pub charged: u64,
    pub staged: Seq<u8>,
    pub put_back: Option<u64>,
}

pub open spec fn saved_stacks(v: Seq<Saved>) -> Seq<(u32, Seq<u8>, u32)> {
    v.map_values(|s: Saved| (s.env, s.stack@, s.sp))
}

impl View for ExecState {
    type V = ExecView;

    open spec fn view(&self) -> ExecView {
        ExecView {
            asyncify_data: self.asyncify_data,
            rewinding: self.rewinding,
            resume_value: self.resume_value,
            resume_sp: self.resume_sp,
            suspension: self.suspension,
            jmp_bufs: saved_stacks(self.jmp_bufs@),
            signal_flag: self.signal_flag,
            deadline: self.deadline,
            mask_to_restore: self.mask_to_restore,
            charged: self.charged,
            staged: self.staged@,
            put_back: self.put_back,
        }
    }
}

impl ExecView {
    /// A process that has not run yet.
    pub open spec fn fresh() -> ExecView {
        ExecView {
            asyncify_data: 0,
            rewinding: false,
            resume_value: 0,
            resume_sp: 0,
            suspension: None,
            jmp_bufs: Seq::empty(),
            signal_flag: 0,
            deadline: None,
            mask_to_restore: None,
            charged: 0,
            staged: Seq::empty(),
            put_back: None,
        }
    }

    /// With `bytes` more memory charged to the process.
    pub open spec fn charging(self, bytes: u64) -> ExecView {
        ExecView {
            charged: if self.charged + bytes > u64::MAX {
                u64::MAX
            } else {
                (self.charged + bytes) as u64
            },
            ..self
        }
    }

    /// With `bytes` of memory charged to the process no longer.
    pub open spec fn refunding(self, bytes: u64) -> ExecView {
        ExecView {
            charged: if self.charged >= bytes {
                (self.charged - bytes) as u64
            } else {
                0
            },
            ..self
        }
    }
}

impl ExecState {
    /// Charge the process for `bytes` more memory.
    pub fn charge(&mut self, bytes: u64)
        ensures
            final(self)@ == old(self)@.charging(bytes),
    {
        self.charged = if bytes > u64::MAX - self.charged {
            u64::MAX
        } else {
            self.charged + bytes
        };
    }

    /// Charge the process for `bytes` of memory no longer.
    pub fn refund(&mut self, bytes: u64)
        ensures
            final(self)@ == old(self)@.refunding(bytes),
    {
        self.charged = if self.charged >= bytes {
            self.charged - bytes
        } else {
            0
        };
    }

    pub fn new() -> (r: ExecState)
        ensures
            r@ == ExecView::fresh(),
    {
        let r = ExecState {
            asyncify_data: 0,
            rewinding: false,
            resume_value: 0,
            resume_sp: 0,
            suspension: None,
            jmp_bufs: Vec::new(),
            signal_flag: 0,
            deadline: None,
            mask_to_restore: None,
            charged: 0,
            staged: Vec::new(),
            put_back: None,
        };
        assert(r@ =~= ExecView::fresh());
        r
    }
}

/// One process's own state.
pub struct Ctx {
    pub task: Task,
    /// Which program is running.
    pub program: ProgramId,
    pub argv: Vec<Vec<u8>>,
    pub envp: Vec<Vec<u8>>,
    /// Set by `execve`, consumed by the scheduler.
    pub exec_request: Option<Spawn>,
    /// Identities of the processes whose `vfork` children are running inside this instance.
    pub vfork_stack: Vec<Task>,
    pub state: ExecState,
}

/// The content of a [`Ctx`].
#[verifier::ext_equal]
pub struct CtxView {
    pub task: TaskView,
    pub program: ProgramId,
    pub argv: Seq<Seq<u8>>,
    pub envp: Seq<Seq<u8>>,
    pub exec_request: Option<SpawnView>,
    pub vfork_stack: Seq<TaskView>,
    pub state: ExecView,
}

pub open spec fn request_view(r: Option<Spawn>) -> Option<SpawnView> {
    match r {
        Some(s) => Some(s@),
        None => None,
    }
}

impl View for Ctx {
    type V = CtxView;

    open spec fn view(&self) -> CtxView {
        CtxView {
            task: self.task@,
            program: self.program,
            argv: byte_strings(self.argv@),
            envp: byte_strings(self.envp@),
            exec_request: request_view(self.exec_request),
            vfork_stack: tasks(self.vfork_stack@),
            state: self.state@,
        }
    }
}

impl CtxView {
    /// Who is asking when this process resolves a path.
    pub open spec fn who(self) -> WhoView {
        WhoView { cwd: self.task.cwd, exe: self.task.exe, pid: self.task.pid }
    }
}

} // verus!
