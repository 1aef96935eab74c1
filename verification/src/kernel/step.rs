//! One step of a process: a guest that is entered and comes back, or a host command that reads,
//! runs and writes.
use super::mem::{byte_strings, bytes, copy_bytes, fits, put, read_u32, store, word_at};
use super::mounts::{MountView, Mounts};
use super::run::{
    Body, BodyView, Kernel, KernelView, Phase, PhaseView, Proc, ProcStep, ProcView, Resume,
};
use super::state::{
    saved_stacks, Call, Clock, Ctx, CtxView, ExecView, Saved, Shared, SharedView, Spawn, Suspension,
};
use super::task::{
    exited, first_signal, lowest_signal, signaled, status_exited, status_signaled, triage, NSIG,
};
use crate::abi::SIGSEGV;
use crate::engine::Exit;
use crate::errno::{Errno, VfsResult};
use crate::host::{Invocation, InvocationView};
use crate::syscall::base::{Fault, World};
use crate::syscall::io::{read_bytes, read_spec, write_bytes, write_spec};
use crate::syscall::signal::live_signals;
use crate::syscall::table::{
    concluded, dispatch, dispatch_grown, dispatched, handled_grown, ClockView, Outcome,
};
use crate::vfs::{Vfs, VfsFile};
use vstd::prelude::*;
use vstd::string::*;
use vstd::utf8::encode_utf8;

verus! {

// ---------------------------------------------------------------------------------------------
// guests

/// What the engine has to do with a guest whose turn it is.
#[derive(Clone, Copy, PartialEq, Eq, Debug, Structural)]
pub enum Go {
    /// Call `_start`, after starting a rewind from this address if there is one.
    Enter(Option<u32>),
    /// Grow its memory by so many pages, then ask [`Kernel::resume_grown`].
    Grow { call: Call, pages: u64 },
    /// Nothing: the step is over.
    Done(ProcStep),
    /// Replace the instance; see [`Kernel::take_exec`].
    Replace,
}

/// The process set to rewind, with what the import should return.
pub open spec fn rewinding(p: ProcView) -> ProcView {
    ProcView {
        ctx: CtxView { state: ExecView { rewinding: true, ..p.ctx.state }, ..p.ctx },
        resume: Resume::Fresh,
        ..p
    }
}

/// What a retried call comes to: still blocked, over, replaced, or a value to rewind with.
pub open spec fn retried(p: ProcView, call: Call, o: Outcome) -> (ProcView, Go) {
    let blocked = ProcView { resume: Resume::Blocked { call }, ..p };
    let idle = ProcView { resume: Resume::Fresh, ..p };
    match o {
        Outcome::Blocked => (blocked, Go::Done(ProcStep::Stuck)),
        Outcome::Exit(status) => (idle, Go::Done(ProcStep::Ended(status))),
        Outcome::Exec => (idle, Go::Replace),
        Outcome::Grow(pages) => (blocked, Go::Grow { call, pages }),
        Outcome::Value(v) => {
            let q = ProcView {
                ctx: CtxView { state: ExecView { resume_value: v, ..p.ctx.state }, ..p.ctx },
                ..p
            };
            (rewinding(q), Go::Enter(Some(p.ctx.state.asyncify_data)))
        },
    }
}

/// The world a process sees.
pub open spec fn world_of<V: Vfs>(
    k: KernelView<<V as VfsFile>::Handle>,
    fs: Seq<MountView<<V as VfsFile>::State>>,
    mem: Seq<u8>,
    index: int,
) -> World<<V as VfsFile>::State, <V as VfsFile>::Handle> {
    World { sh: k.shared, ctx: k.procs[index].ctx, fs, mem }
}

/// The kernel with one process's world put back.
pub open spec fn with_world<V: Vfs>(
    k: KernelView<<V as VfsFile>::Handle>,
    w: World<<V as VfsFile>::State, <V as VfsFile>::Handle>,
    index: int,
) -> KernelView<<V as VfsFile>::Handle> {
    KernelView {
        shared: w.sh,
        procs: k.procs.update(index, ProcView { ctx: w.ctx, ..k.procs[index] }),
        ..k
    }
}

/// Continuing a guest.
pub open spec fn resumed<V: Vfs>(
    k: KernelView<<V as VfsFile>::Handle>,
    fs: Seq<MountView<<V as VfsFile>::State>>,
    mem: Seq<u8>,
    c: ClockView,
    index: int,
) -> (
    KernelView<<V as VfsFile>::Handle>,
    Seq<MountView<<V as VfsFile>::State>>,
    Seq<u8>,
    Go,
) {
    let p = k.procs[index];
    match p.resume {
        Resume::Fresh => (k, fs, mem, Go::Enter(None)),
        Resume::Rewind => (
            k.with_proc(index, rewinding(p)),
            fs,
            mem,
            Go::Enter(Some(p.ctx.state.asyncify_data)),
        ),
        Resume::Blocked { call } => {
            let (w, o) = dispatched::<V>(world_of::<V>(k, fs, mem, index), c, call);
            let k1 = with_world::<V>(k, w, index);
            let (q, go) = retried(k1.procs[index], call, o);
            (k1.with_proc(index, q), w.fs, w.mem, go)
        },
    }
}

/// Continuing a guest whose outstanding call asked for memory.
pub open spec fn resumed_grown<V: Vfs>(
    k: KernelView<<V as VfsFile>::Handle>,
    fs: Seq<MountView<<V as VfsFile>::State>>,
    mem: Seq<u8>,
    index: int,
    call: Call,
    previous: Option<u64>,
) -> (
    KernelView<<V as VfsFile>::Handle>,
    Seq<MountView<<V as VfsFile>::State>>,
    Seq<u8>,
    Go,
) {
    let (after, r) = handled_grown::<V>(world_of::<V>(k, fs, mem, index), call, previous);
    let (w, o) = concluded(after, r);
    let k1 = with_world::<V>(k, w, index);
    let (q, go) = retried(k1.procs[index], call, o);
    (k1.with_proc(index, q), w.fs, w.mem, go)
}

/// The saved stack in the Asyncify area at `data`: from the area's beginning up to where its
/// first word says.
pub open spec fn saved_stack(mem: Seq<u8>, data: u32) -> Seq<u8> {
    if !fits(mem, data as int, 8) {
        Seq::empty()
    } else {
        let end = word_at(mem, data as int);
        if data < end <= mem.len() {
            mem.subrange(data as int, end as int)
        } else {
            Seq::empty()
        }
    }
}

/// The position of the stack saved for a `jmp_buf`, from `i` on.
pub open spec fn saved_from(list: Seq<(u32, Seq<u8>, u32)>, env: u32, i: int) -> Option<int>
    decreases list.len() - i,
{
    if i >= list.len() {
        None
    } else if list[i].0 == env {
        Some(i)
    } else {
        saved_from(list, env, i + 1)
    }
}

/// The saved stacks with one for a `jmp_buf`, in place of the one it had.
pub open spec fn with_saved(
    list: Seq<(u32, Seq<u8>, u32)>,
    env: u32,
    stack: Seq<u8>,
    sp: u32,
) -> Seq<(u32, Seq<u8>, u32)> {
    match saved_from(list, env, 0) {
        Some(i) => list.update(i, (env, stack, sp)),
        None => list.push((env, stack, sp)),
    }
}

/// What comes of a guest that has returned.
#[derive(Clone, Copy, PartialEq, Eq, Debug, Structural)]
pub enum After {
    /// The step is over.
    Done(ProcStep),
    /// Replace the instance; see [`Kernel::take_exec`].
    Replace,
}

/// `_start` came back: the program is done, or an import unwound its stack.
pub open spec fn returned(p: ProcView, mem: Seq<u8>) -> (ProcView, Seq<u8>, After) {
    let st = ExecView { suspension: None, ..p.ctx.state };
    let q = ProcView { ctx: CtxView { state: st, ..p.ctx }, ..p };
    match p.ctx.state.suspension {
        // main returned without calling exit: status zero.
        None => (p, mem, After::Done(ProcStep::Ended(exited(0)))),
        Some(Suspension::Setjmp { env, sp }) => (
            ProcView {
                ctx: CtxView {
                    state: ExecView {
                        jmp_bufs: with_saved(
                            st.jmp_bufs,
                            env,
                            saved_stack(mem, st.asyncify_data),
                            sp,
                        ),
                        resume_value: 0,
                        resume_sp: sp,
                        ..st
                    },
                    ..q.ctx
                },
                resume: Resume::Rewind,
                ..q
            },
            mem,
            After::Done(ProcStep::Ran),
        ),
        Some(Suspension::Longjmp { env, val }) => match saved_from(st.jmp_bufs, env, 0) {
            // longjmp to a jmp_buf that was never set: the guest's bug, its death.
            None => (q, mem, After::Done(ProcStep::Ended(signaled(SIGSEGV)))),
            Some(i) => {
                let (_, stack, sp) = st.jmp_bufs[i];
                match store(mem, st.asyncify_data as int, stack) {
                    (m, Err(_)) => (q, m, After::Done(ProcStep::Ended(signaled(SIGSEGV)))),
                    (m, Ok(())) => (
                        ProcView {
                            ctx: CtxView {
                                state: ExecView { resume_value: val, resume_sp: sp, ..st },
                                ..q.ctx
                            },
                            resume: Resume::Rewind,
                            ..q
                        },
                        m,
                        After::Done(ProcStep::Ran),
                    ),
                }
            },
        },
        Some(Suspension::Blocked { call }) => (
            ProcView { resume: Resume::Blocked { call }, ..q },
            mem,
            After::Done(ProcStep::Ran),
        ),
        Some(Suspension::Exit(status)) => (q, mem, After::Done(ProcStep::Ended(status))),
        Some(Suspension::Exec) => (q, mem, After::Replace),
    }
}

/// What is said about a program that trapped.
pub open spec fn trap_message(comm: Seq<char>, what: Seq<char>) -> Seq<char> {
    "wasmux: "@ + comm + ": "@ + what + "\n"@
}

fn read_stack(mem: &[u8], data: u32) -> (r: Vec<u8>)
    ensures
        r@ == saved_stack(mem@, data),
{
    let none: Vec<u8> = Vec::new();
    assert(none@ =~= Seq::empty());
    let size: usize = mem.len();
    if size < 8 || data as usize > size - 8 {
        return none;
    }
    let end: u32 = match read_u32(mem, data) {
        Ok(end) => end,
        Err(_) => return none,
    };
    if end <= data {
        return none;
    }
    match bytes(mem, data, end - data) {
        Ok(stack) => stack,
        Err(_) => none,
    }
}

fn message_bytes(comm: &String, what: &str) -> (r: Vec<u8>)
    ensures
        r@ == encode_utf8(trap_message(comm@, what@)),
{
    let mut out = "wasmux: ".to_owned();
    out.append(comm.as_str());
    out.append(": ");
    out.append(what);
    out.append("\n");
    out.as_str().as_bytes_vec()
}

fn find_saved(list: &Vec<Saved>, env: u32) -> (r: Option<usize>)
    ensures
        match r {
            Some(i) => i < list@.len() && saved_from(saved_stacks(list@), env, 0) == Some(
                i as int,
            ),
            None => saved_from(saved_stacks(list@), env, 0) is None,
        },
{
    let ghost all = saved_stacks(list@);
    let mut i: usize = 0;
    while i < list.len()
        invariant
            i <= list@.len(),
            all == saved_stacks(list@),
            saved_from(all, env, 0) == saved_from(all, env, i as int),
        decreases list@.len() - i,
    {
        assert(all[i as int].0 == list@[i as int].env);
        if list[i].env == env {
            return Some(i);
        }
        i = i + 1;
    }
    None
}

fn save_stack(list: &mut Vec<Saved>, env: u32, stack: Vec<u8>, sp: u32)
    ensures
        saved_stacks(final(list)@) == with_saved(saved_stacks(old(list)@), env, stack@, sp),
{
    let ghost before = saved_stacks(list@);
    let saved = Saved { env, stack, sp };
    let ghost added = (env, stack@, sp);
    match find_saved(list, env) {
        Some(i) => {
            list[i] = saved;
            assert(saved_stacks(list@) =~= before.update(i as int, added));
        },
        None => {
            list.push(saved);
            assert(saved_stacks(list@) =~= before.push(added));
        },
    }
}

impl Proc {
    /// Take the result of a retried call.
    fn take_retry(&mut self, call: Call, o: Outcome) -> (r: Go)
        ensures
            retried(old(self)@, call, o) == (final(self)@, r),
    {
        match o {
            Outcome::Blocked => {
                self.resume = Resume::Blocked { call };
                Go::Done(ProcStep::Stuck)
            },
            Outcome::Exit(status) => {
                self.resume = Resume::Fresh;
                Go::Done(ProcStep::Ended(status))
            },
            Outcome::Exec => {
                self.resume = Resume::Fresh;
                Go::Replace
            },
            Outcome::Grow(pages) => {
                self.resume = Resume::Blocked { call };
                Go::Grow { call, pages }
            },
            Outcome::Value(v) => {
                self.resume = Resume::Fresh;
                self.ctx.state.resume_value = v;
                self.ctx.state.rewinding = true;
                Go::Enter(Some(self.ctx.state.asyncify_data))
            },
        }
    }

    /// `_start` came back: either the program is done, or an import unwound its stack.
    fn after_return(&mut self, mem: &mut [u8]) -> (r: After)
        ensures
            returned(old(self)@, old(mem)@) == (final(self)@, final(mem)@, r),
    {
        let suspension = match self.ctx.state.suspension {
            None => return After::Done(ProcStep::Ended(status_exited(0))),
            Some(suspension) => suspension,
        };
        self.ctx.state.suspension = None;
        let data: u32 = self.ctx.state.asyncify_data;
        match suspension {
            Suspension::Setjmp { env, sp } => {
                let stack = read_stack(mem, data);
                save_stack(&mut self.ctx.state.jmp_bufs, env, stack, sp);
                self.ctx.state.resume_value = 0;
                self.ctx.state.resume_sp = sp;
                self.resume = Resume::Rewind;
                After::Done(ProcStep::Ran)
            },
            Suspension::Longjmp { env, val } => {
                let i: usize = match find_saved(&self.ctx.state.jmp_bufs, env) {
                    Some(i) => i,
                    None => return After::Done(ProcStep::Ended(status_signaled(SIGSEGV))),
                };
                let sp: u32 = self.ctx.state.jmp_bufs[i].sp;
                if put(mem, data, self.ctx.state.jmp_bufs[i].stack.as_slice()).is_err() {
                    return After::Done(ProcStep::Ended(status_signaled(SIGSEGV)));
                }
                self.ctx.state.resume_value = val;
                self.ctx.state.resume_sp = sp;
                self.resume = Resume::Rewind;
                After::Done(ProcStep::Ran)
            },
            Suspension::Blocked { call } => {
                self.resume = Resume::Blocked { call };
                After::Done(ProcStep::Ran)
            },
            Suspension::Exit(status) => After::Done(ProcStep::Ended(status)),
            Suspension::Exec => After::Replace,
        }
    }
}

impl<F> Kernel<F> {
    /// Continue the guest at `index`: what the engine has to do. A call that is outstanding is
    /// retried outside the guest, with the same handler.
    pub fn resume<V: Vfs<Handle = F>>(
        &mut self,
        fs: &mut Mounts<V>,
        mem: &mut [u8],
        clock: &Clock,
        index: usize,
    ) -> (r: Go)
        requires
            old(self)@.wf(),
            old(fs).wf(),
            clock.wf(),
            index < old(self)@.procs.len(),
        ensures
            final(self)@.wf(),
            final(fs).wf(),
            resumed::<V>(old(self)@, old(fs)@, old(mem)@, clock@, index as int) == (
                final(self)@,
                final(fs)@,
                final(mem)@,
                r,
            ),
    {
        let ghost before = self@;
        let ghost p0 = before.procs[index as int];
        let p = &mut self.procs[index];
        assert(p@ == p0);
        let go = match p.resume {
            Resume::Fresh => Go::Enter(None),
            Resume::Rewind => {
                p.ctx.state.rewinding = true;
                p.resume = Resume::Fresh;
                Go::Enter(Some(p.ctx.state.asyncify_data))
            },
            Resume::Blocked { call } => {
                let o = dispatch(&mut self.shared, &mut p.ctx, fs, mem, clock, call);
                p.take_retry(call, o)
            },
        };
        assert(self@.procs =~= before.procs.update(
            index as int,
            resumed::<V>(before, old(fs)@, old(mem)@, clock@, index as int).0.procs[index as int],
        ));
        assert(self@.procs =~= resumed::<V>(
            before,
            old(fs)@,
            old(mem)@,
            clock@,
            index as int,
        ).0.procs);
        go
    }

    /// Continue a guest whose outstanding call asked for memory, once the engine has tried.
    pub fn resume_grown<V: Vfs<Handle = F>>(
        &mut self,
        fs: &mut Mounts<V>,
        mem: &mut [u8],
        index: usize,
        call: Call,
        previous: Option<u64>,
    ) -> (r: Go)
        requires
            old(self)@.wf(),
            old(fs).wf(),
            index < old(self)@.procs.len(),
        ensures
            final(self)@.wf(),
            final(fs).wf(),
            resumed_grown::<V>(
                old(self)@,
                old(fs)@,
                old(mem)@,
                index as int,
                call,
                previous,
            ) == (final(self)@, final(fs)@, final(mem)@, r),
    {
        let ghost before = self@;
        let ghost p0 = before.procs[index as int];
        let p = &mut self.procs[index];
        assert(p@ == p0);
        let o = dispatch_grown(&mut self.shared, &mut p.ctx, fs, mem, call, previous);
        let go = p.take_retry(call, o);
        assert(self@.procs =~= resumed_grown::<V>(
            before,
            old(fs)@,
            old(mem)@,
            index as int,
            call,
            previous,
        ).0.procs);
        go
    }

    /// A guest came back out of `_start`. A trap kills the process and says so on standard
    /// error. Where an import unwound the stack the engine has stopped the unwinding.
    pub fn after_run(&mut self, mem: &mut [u8], index: usize, exit: Exit) -> (r: After)
        requires
            old(self)@.wf(),
            index < old(self)@.procs.len(),
        ensures
            final(self)@.wf(),
            match exit {
                Exit::Trap(kind) => {
                    &&& r == After::Done(ProcStep::Ended(signaled(SIGSEGV)))
                    &&& final(mem)@ == old(mem)@
                    &&& final(self)@ == (KernelView {
                        shared: old(self)@.shared.with_output(
                            2,
                            encode_utf8(
                                trap_message(
                                    old(self)@.procs[index as int].ctx.task.comm,
                                    kind.text(),
                                ),
                            ),
                        ),
                        ..old(self)@
                    })
                },
                Exit::Returned => {
                    let (p, m, after) = returned(old(self)@.procs[index as int], old(mem)@);
                    &&& r == after
                    &&& final(mem)@ == m
                    &&& final(self)@ == old(self)@.with_proc(index as int, p)
                },
            },
    {
        let ghost before = self@;
        assert(before.procs[index as int] == self.procs@[index as int]@);
        match exit {
            Exit::Trap(kind) => {
                let message = message_bytes(&self.procs[index].ctx.task.comm, kind.as_str());
                let _ = self.shared.write_output(2, message.as_slice());
                After::Done(ProcStep::Ended(status_signaled(SIGSEGV)))
            },
            Exit::Returned => {
                let r = self.procs[index].after_return(mem);
                assert(self@.procs =~= before.procs.update(
                    index as int,
                    returned(before.procs[index as int], old(mem)@).0,
                ));
                r
            },
        }
    }

    /// `execve` in a process that was not a `vfork` child: take its old self out of the list,
    /// and give out what is to take its place, with the key of the instance that is gone. The
    /// memory is given back; the pid, the descriptors and the parent stay.
    pub fn take_exec(&mut self, index: usize) -> (r: Result<(Spawn, u64), ProcStep>)
        requires
            old(self)@.wf(),
            index < old(self)@.procs.len(),
        ensures
            final(self)@.wf(),
            ({
                let p = old(self)@.procs[index as int];
                match r {
                    Ok((spawn, key)) => {
                        &&& p.ctx.exec_request == Some(spawn@)
                        &&& key == p.key
                        &&& final(self)@ == (KernelView {
                            shared: old(self)@.shared.refunded(p.ctx.state.charged),
                            procs: old(self)@.procs.remove(index as int),
                            ..old(self)@.handed_out()
                        })
                    },
                    Err(step) => {
                        &&& p.ctx.exec_request is None
                        &&& step == ProcStep::Ended(exited(126))
                        &&& final(self)@ == old(self)@
                    },
                }
            }),
    {
        let ghost before = self@;
        assert(before.procs[index as int] == self.procs@[index as int]@);
        if self.procs[index].ctx.exec_request.is_none() {
            return Err(ProcStep::Ended(status_exited(126)));
        }
        let p = self.procs.remove(index);
        assert(self@.procs =~= before.procs.remove(index as int));
        self.shared.release_memory(p.ctx.state.charged);
        self.hand_out();
        match p.ctx.exec_request {
            Some(spawn) => Ok((spawn, p.key)),
            None => {
                assert(false);
                Err(ProcStep::Ended(status_exited(126)))
            },
        }
    }
}

// ---------------------------------------------------------------------------------------------
// host commands

/// How much a host command's standard input is read at a time.
pub const CHUNK: usize = 8192;

/// What is to be done with a host command whose turn it is.
pub enum HostGo {
    /// More standard input may come: ask again.
    More,
    /// Run the command with this, and tell [`Kernel::host_answer`].
    Run(Invocation),
    /// Nothing: the step is over.
    Done(ProcStep),
}

/// The content of a [`HostGo`].
#[verifier::ext_equal]
pub enum HostGoView {
    More,
    Run(InvocationView),
    Done(ProcStep),
}

impl View for HostGo {
    type V = HostGoView;

    open spec fn view(&self) -> HostGoView {
        match *self {
            HostGo::More => HostGoView::More,
            HostGo::Run(call) => HostGoView::Run(call@),
            HostGo::Done(step) => HostGoView::Done(step),
        }
    }
}

/// What a command is asked to do.
pub open spec fn invocation_of(ctx: CtxView, stdin: Seq<u8>) -> InvocationView {
    InvocationView { argv: ctx.argv, envp: ctx.envp, cwd: ctx.task.cwd, stdin }
}

/// Writing one of a command's streams out from `done` on: how far it came, and whether that
/// was because the descriptor takes no more for now. A descriptor that cannot be written at
/// all takes the rest unwritten.
pub open spec fn flushed<V: Vfs>(
    sh: SharedView<<V as VfsFile>::Handle>,
    ctx: CtxView,
    fs: Seq<MountView<<V as VfsFile>::State>>,
    fd: i32,
    data: Seq<u8>,
    done: int,
) -> (
    SharedView<<V as VfsFile>::Handle>,
    Seq<MountView<<V as VfsFile>::State>>,
    int,
    bool,
)
    decreases data.len() - done,
{
    if done >= data.len() {
        (sh, fs, done, false)
    } else {
        let (s, f, r) = write_spec::<V>(
            sh,
            ctx,
            fs,
            fd,
            data.subrange(done, data.len() as int),
        );
        match r {
            Ok(n) => if 0 < n <= data.len() - done {
                flushed::<V>(s, ctx, f, fd, data, done + n)
            } else {
                (s, f, done, false)
            },
            Err(Fault::Block) => (s, f, done, true),
            Err(_) => (s, f, done, false),
        }
    }
}

/// The signal that ends a host command: the lowest that is delivered to it. It has no handlers,
/// so that every signal it neither ignores nor blocks is fatal.
pub open spec fn killer<F>(sh: SharedView<F>, ctx: CtxView) -> Option<i32> {
    let low = lowest_signal(live_signals(sh, ctx), 1);
    if low < NSIG {
        Some(low as i32)
    } else {
        None
    }
}

/// One step of a host command. A signal ends it. Reading: drain standard input if it is wanted,
/// then run. Flushing: standard output first, then standard error, each resumable where it
/// stopped.
pub open spec fn host_stepped<V: Vfs>(
    k: KernelView<<V as VfsFile>::Handle>,
    fs: Seq<MountView<<V as VfsFile>::State>>,
    realtime: u128,
    index: int,
) -> (
    KernelView<<V as VfsFile>::Handle>,
    Seq<MountView<<V as VfsFile>::State>>,
    HostGoView,
) {
    let p = k.procs[index];
    match p.body {
        BodyView::Guest => (k, fs, HostGoView::Done(ProcStep::Stuck)),
        BodyView::Host { reads_stdin, phase } => if killer(k.shared, p.ctx) is Some {
            (k, fs, HostGoView::Done(ProcStep::Ended(signaled(killer(k.shared, p.ctx)->0))))
        } else {
            match phase {
                PhaseView::Drained(buffer) => (
                    k,
                    fs,
                    HostGoView::Run(invocation_of(p.ctx, buffer)),
                ),
                PhaseView::Reading(buffer) => {
                    let ready = HostGoView::Run(invocation_of(p.ctx, buffer));
                    let drained = ProcView {
                        body: BodyView::Host { reads_stdin, phase: PhaseView::Drained(buffer) },
                        ..p
                    };
                    if !reads_stdin {
                        (k.with_proc(index, drained), fs, ready)
                    } else {
                        let (s, f, got) = read_spec::<V>(k.shared, p.ctx, fs, realtime, 0, CHUNK);
                        let k1 = KernelView { shared: s, ..k };
                        match got {
                            Ok(data) => if data.len() == 0 {
                                (k1.with_proc(index, drained), f, ready)
                            } else {
                                (
                                    k1.with_proc(
                                        index,
                                        ProcView {
                                            body: BodyView::Host {
                                                reads_stdin,
                                                phase: PhaseView::Reading(buffer + data),
                                            },
                                            ..p
                                        },
                                    ),
                                    f,
                                    HostGoView::More,
                                )
                            },
                            Err(Fault::Block) => (k1, f, HostGoView::Done(ProcStep::Stuck)),
                            // A standard input that cannot be read is an empty one.
                            Err(_) => (k1.with_proc(index, drained), f, ready),
                        }
                    }
                },
                PhaseView::Flushing { status, stdout, stderr, out_done, err_done } => {
                    let (s1, f1, d1, full1) = flushed::<V>(
                        k.shared,
                        p.ctx,
                        fs,
                        1,
                        stdout,
                        out_done as int,
                    );
                    let (s2, f2, d2, full2) = if full1 {
                        (s1, f1, err_done as int, false)
                    } else {
                        flushed::<V>(s1, p.ctx, f1, 2, stderr, err_done as int)
                    };
                    (
                        (KernelView { shared: s2, ..k }).with_proc(
                            index,
                            ProcView {
                                body: BodyView::Host {
                                    reads_stdin,
                                    phase: PhaseView::Flushing {
                                        status,
                                        stdout,
                                        stderr,
                                        out_done: d1 as usize,
                                        err_done: d2 as usize,
                                    },
                                },
                                ..p
                            },
                        ),
                        f2,
                        HostGoView::Done(
                            if full1 || full2 {
                                ProcStep::Stuck
                            } else {
                                ProcStep::Ended(status)
                            },
                        ),
                    )
                },
            }
        },
    }
}

/// What a command's answer makes of its process. `AGAIN` leaves everything as it is, so that
/// the retry gets the identical invocation; any other error is a failure to run it at all,
/// reported the way a shell reports one.
pub open spec fn host_answered<F>(
    k: KernelView<F>,
    index: int,
    answer: Result<(i32, Seq<u8>, Seq<u8>), Errno>,
) -> (KernelView<F>, bool) {
    let p = k.procs[index];
    match p.body {
        BodyView::Guest => (k, false),
        BodyView::Host { reads_stdin, .. } => match answer {
            Err(e) => if e.is_same(Errno::AGAIN) {
                (
                    KernelView { shared: SharedView { host_pending: true, ..k.shared }, ..k },
                    false,
                )
            } else {
                (
                    k.with_proc(
                        index,
                        ProcView {
                            body: BodyView::Host {
                                reads_stdin,
                                phase: PhaseView::Flushing {
                                    status: exited(126),
                                    stdout: Seq::empty(),
                                    stderr: encode_utf8(
                                        trap_message(p.ctx.task.comm, e.short_name()),
                                    ),
                                    out_done: 0,
                                    err_done: 0,
                                },
                            },
                            ..p
                        },
                    ),
                    true,
                )
            },
            Ok((status, stdout, stderr)) => (
                k.with_proc(
                    index,
                    ProcView {
                        body: BodyView::Host {
                            reads_stdin,
                            phase: PhaseView::Flushing {
                                status: exited(status),
                                stdout,
                                stderr,
                                out_done: 0,
                                err_done: 0,
                            },
                        },
                        ..p
                    },
                ),
                true,
            ),
        },
    }
}

/// A command's answer, as its model.
pub open spec fn answer_view(r: VfsResult<crate::host::Exit>) -> Result<
    (i32, Seq<u8>, Seq<u8>),
    Errno,
> {
    match r {
        Ok(exit) => Ok((exit.status, exit.stdout@, exit.stderr@)),
        Err(e) => Err(e),
    }
}

fn copy_strings(list: &Vec<Vec<u8>>) -> (r: Vec<Vec<u8>>)
    ensures
        byte_strings(r@) == byte_strings(list@),
{
    let ghost all = byte_strings(list@);
    let mut out: Vec<Vec<u8>> = Vec::new();
    let mut i: usize = 0;
    assert(byte_strings(out@) =~= all.subrange(0, 0));
    while i < list.len()
        invariant
            i <= list@.len(),
            all == byte_strings(list@),
            byte_strings(out@) == all.subrange(0, i as int),
        decreases list@.len() - i,
    {
        let ghost before = byte_strings(out@);
        let b = copy_bytes(&list[i]);
        out.push(b);
        assert(byte_strings(out@) =~= before.push(b@));
        i = i + 1;
        assert(byte_strings(out@) =~= all.subrange(0, i as int));
    }
    assert(all.subrange(0, i as int) =~= all);
    out
}

fn invocation(ctx: &Ctx, stdin: &Vec<u8>) -> (r: Invocation)
    ensures
        r@ == invocation_of(ctx@, stdin@),
{
    Invocation {
        argv: copy_strings(&ctx.argv),
        envp: copy_strings(&ctx.envp),
        cwd: ctx.task.cwd.clone(),
        stdin: copy_bytes(stdin),
    }
}

/// Write one of a command's streams out from `done` on. Says whether the descriptor takes no
/// more for now.
fn flush<V: Vfs>(
    sh: &mut Shared<<V as VfsFile>::Handle>,
    ctx: &Ctx,
    fs: &mut Mounts<V>,
    fd: i32,
    data: &Vec<u8>,
    done: &mut usize,
) -> (r: bool)
    requires
        old(sh)@.wf(),
        old(fs).wf(),
    ensures
        final(sh)@.wf(),
        final(fs).wf(),
        flushed::<V>(old(sh)@, ctx@, old(fs)@, fd, data@, *old(done) as int) == (
            final(sh)@,
            final(fs)@,
            *final(done) as int,
            r,
        ),
{
    while *done < data.len()
        invariant
            sh@.wf(),
            fs.wf(),
            flushed::<V>(old(sh)@, ctx@, old(fs)@, fd, data@, *old(done) as int) == flushed::<V>(
                sh@,
                ctx@,
                fs@,
                fd,
                data@,
                *done as int,
            ),
        decreases data@.len() - *done,
    {
        let rest = vstd::slice::slice_subrange(data.as_slice(), *done, data.len());
        match write_bytes(sh, ctx, fs, fd, rest) {
            Ok(n) => {
                if n == 0 {
                    return false;
                }
                *done = *done + n;
            },
            Err(Fault::Block) => return true,
            // SIGPIPE, a closed descriptor, a full disk: the same as any program writing into
            // one. Stop writing this stream and finish.
            Err(_) => return false,
        }
    }
    false
}

impl<F> Kernel<F> {
    /// Advance the host command at `index`.
    ///
    /// A signal that is delivered ends it, as the default action does. Three things can stop
    /// it, and all three are ordinary suspension: standard input has not
    /// arrived, the command said `AGAIN`, or a pipe downstream is full. Its reads and writes go
    /// through the same descriptors as a guest's, which is why redirection, pipelines and the
    /// limit on output apply to it exactly as they do to a guest.
    pub fn host_step<V: Vfs<Handle = F>>(
        &mut self,
        fs: &mut Mounts<V>,
        clock: &Clock,
        index: usize,
    ) -> (r: HostGo)
        requires
            old(self)@.wf(),
            old(fs).wf(),
            index < old(self)@.procs.len(),
        ensures
            final(self)@.wf(),
            final(fs).wf(),
            host_stepped::<V>(old(self)@, old(fs)@, clock.realtime, index as int) == (
                final(self)@,
                final(fs)@,
                r@,
            ),
    {
        let ghost before = self@;
        let p = &mut self.procs[index];
        assert(p@ == before.procs[index as int]);
        let pending: u64 = self.shared.pending(p.ctx.task.pid);
        let (live, _) = triage(pending, p.ctx.task.sigmask, &p.ctx.task);
        let fatal: Option<i32> = first_signal(live);
        let go = match &mut p.body {
            Body::Guest => HostGo::Done(ProcStep::Stuck),
            Body::Host { reads_stdin, phase } => if let Some(sig) = fatal {
                HostGo::Done(ProcStep::Ended(status_signaled(sig)))
            } else {
                match phase {
                    Phase::Drained(buffer) => HostGo::Run(invocation(&p.ctx, buffer)),
                    Phase::Reading(buffer) => {
                        let more: Option<HostGo> = if !*reads_stdin {
                            None
                        } else {
                            match read_bytes(&mut self.shared, &p.ctx, fs, clock, 0, CHUNK) {
                                Ok(data) => {
                                    if data.len() == 0 {
                                        None
                                    } else {
                                        let mut data = data;
                                        buffer.append(&mut data);
                                        Some(HostGo::More)
                                    }
                                },
                                Err(Fault::Block) => Some(HostGo::Done(ProcStep::Stuck)),
                                Err(_) => None,
                            }
                        };
                        match more {
                            Some(go) => go,
                            None => {
                                let call = invocation(&p.ctx, buffer);
                                let mut all: Vec<u8> = Vec::new();
                                core::mem::swap(buffer, &mut all);
                                *phase = Phase::Drained(all);
                                HostGo::Run(call)
                            },
                        }
                    },
                    Phase::Flushing { status, stdout, stderr, out_done, err_done } => {
                        let full = flush(&mut self.shared, &p.ctx, fs, 1, stdout, out_done);
                        let full = full || flush(&mut self.shared, &p.ctx, fs, 2, stderr, err_done);
                        if full {
                            HostGo::Done(ProcStep::Stuck)
                        } else {
                            HostGo::Done(ProcStep::Ended(*status))
                        }
                    },
                }
            },
        };
        assert(self@.procs =~= host_stepped::<V>(
            before,
            old(fs)@,
            clock.realtime,
            index as int,
        ).0.procs);
        go
    }

    /// Take a host command's answer. Says whether the command is done, and there is output to
    /// flush; otherwise it asked to be run again later, and the step is over.
    pub fn host_answer(&mut self, index: usize, answer: VfsResult<crate::host::Exit>) -> (r: bool)
        requires
            old(self)@.wf(),
            index < old(self)@.procs.len(),
        ensures
            final(self)@.wf(),
            host_answered(old(self)@, index as int, answer_view(answer)) == (final(self)@, r),
    {
        let ghost before = self@;
        let p = &mut self.procs[index];
        assert(p@ == before.procs[index as int]);
        let done = match &mut p.body {
            Body::Guest => false,
            Body::Host { phase, .. } => match answer {
                Ok(exit) => {
                    *phase = Phase::Flushing {
                        status: status_exited(exit.status),
                        stdout: exit.stdout,
                        stderr: exit.stderr,
                        out_done: 0,
                        err_done: 0,
                    };
                    true
                },
                Err(e) => {
                    if e.same_as(Errno::AGAIN) {
                        self.shared.host_pending = true;
                        false
                    } else {
                        let stdout: Vec<u8> = Vec::new();
                        assert(stdout@ =~= Seq::empty());
                        *phase = Phase::Flushing {
                            status: status_exited(126),
                            stdout,
                            stderr: message_bytes(&p.ctx.task.comm, e.name()),
                            out_done: 0,
                            err_done: 0,
                        };
                        true
                    }
                },
            },
        };
        assert(self@.procs =~= host_answered(
            before,
            index as int,
            answer_view(answer),
        ).0.procs);
        done
    }
}

} // verus!
