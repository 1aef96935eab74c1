//! What holds of processes: being made, replaced, ended and collected, and host commands.
use crate::abi::SIGCHLD;
use crate::errno::Errno;
use crate::kernel::fd::without_cloexec;
use crate::kernel::mem::{le32, patched, store, word_of};
use crate::kernel::mounts::{MountView, ProgramId};
use crate::kernel::run::{KernelView, ProcStep, ProcView, Resume};
use crate::kernel::state::{
    alive_count, record_at, record_from, reparented, without_pid, Call, CtxView, ExecView,
    SharedView, Suspension,
};
use crate::kernel::step::{
    host_answered, host_stepped, killer, retried, returned, saved_from, saved_stack, with_saved,
    After, Go, HostGoView,
};
use crate::kernel::task::{
    exited, has_signal, lemma_lowest_from, lowest_signal, signaled, RecordView, NSIG,
};
use crate::syscall::base::{errno, Sys};
use crate::syscall::exec::exec_done;
use crate::syscall::process::{
    clone_spec, dead_child, exit_spec, has_child, is_vfork, is_waited_for, wait4_spec,
};
use crate::syscall::signal::live_signals;
use crate::syscall::table::Outcome;
use crate::vfs::{Vfs, VfsFile};
use vstd::prelude::*;

verus! {

// ---------------------------------------------------------------------------------------------
// vfork

/// A `vfork` child that exits hands the instance back: the parent is exactly the process it
/// was, and is told the child's pid.
pub proof fn law_a_vfork_child_hands_back_its_parent<V: Vfs>(
    sh: SharedView<<V as VfsFile>::Handle>,
    ctx: CtxView,
    fs: Seq<MountView<<V as VfsFile>::State>>,
    flags: u32,
    code: i32,
)
    requires
        clone_spec(sh, ctx, flags).2 is Ok,
    ensures
        ({
            let (s, child, _) = clone_spec(sh, ctx, flags);
            let (_, after, _, r) = exit_spec::<V>(s, child, fs, code);
            after == ctx && r == Sys::Ok(sh.next_pid)
        }),
{
    let (s, child, r) = clone_spec(sh, ctx, flags);
    assert(child.vfork_stack.drop_last() =~= ctx.vfork_stack);
    assert(child.vfork_stack.last() == ctx.task);
}

/// A `vfork` child that executes a program is handed to the scheduler with the descriptors that
/// are not closed by it, and the parent goes on as the process it was, with the child's pid.
pub proof fn law_a_vfork_child_that_executes_becomes_a_process<V: Vfs>(
    sh: SharedView<<V as VfsFile>::Handle>,
    ctx: CtxView,
    fs: Seq<MountView<<V as VfsFile>::State>>,
    flags: u32,
    program: ProgramId,
    exe: Seq<char>,
    argv: Seq<Seq<u8>>,
    envp: Seq<Seq<u8>>,
)
    requires
        clone_spec(sh, ctx, flags).2 is Ok,
    ensures
        ({
            let (s, child, _) = clone_spec(sh, ctx, flags);
            let (s2, after, _, r) = exec_done::<V>(s, child, fs, program, exe, argv, envp);
            &&& after == ctx
            &&& r == Sys::Ok(sh.next_pid)
            &&& s2.spawn.len() > 0
            &&& s2.spawn.last().task.pid == sh.next_pid
            &&& s2.spawn.last().task.fds == without_cloexec(ctx.task.fds)
            &&& s2.spawn.last().task.cwd == ctx.task.cwd
            &&& s2.spawn.last().program == program
            &&& s2.spawn.last().argv == argv
            &&& s2.spawn.last().envp == envp
        }),
{
    let (s, child, r) = clone_spec(sh, ctx, flags);
    assert(child.vfork_stack.drop_last() =~= ctx.vfork_stack);
    assert(child.vfork_stack.last() == ctx.task);
}

/// There is no fork but `vfork`, and there are no threads.
pub proof fn law_only_vfork_is_a_clone<F>(sh: SharedView<F>, ctx: CtxView, flags: u32)
    requires
        !is_vfork(flags),
    ensures
        clone_spec(sh, ctx, flags) == (sh, ctx, errno::<i32>(Errno::NOSYS)),
{
}

proof fn lemma_alive_push(table: Seq<RecordView>, r: RecordView)
    ensures
        alive_count(table.push(r)) == alive_count(table) + if r.alive() {
            1nat
        } else {
            0nat
        },
{
    assert(table.push(r).drop_last() =~= table);
}

/// The limit on processes is a ceiling: a clone that succeeds stays within it, and one that
/// would not is refused with `EAGAIN` and changes nothing.
pub proof fn law_the_process_limit_holds<F>(sh: SharedView<F>, ctx: CtxView, flags: u32)
    requires
        is_vfork(flags),
    ensures
        ({
            let (s, c, r) = clone_spec(sh, ctx, flags);
            if alive_count(sh.table) < sh.limits.processes {
                r is Ok && alive_count(s.table) <= sh.limits.processes
            } else {
                (s, c, r) == (sh, ctx, errno::<i32>(Errno::AGAIN))
            }
        }),
{
    lemma_alive_push(sh.table, sh.child_record(ctx.task));
}

// ---------------------------------------------------------------------------------------------
// ending and waiting

/// Whether no two records are of one process.
pub open spec fn pids_apart(table: Seq<RecordView>) -> bool {
    forall|i: int, j: int|
        0 <= i < j < table.len() ==> (#[trigger] table[i]).pid != (#[trigger] table[j]).pid
}

proof fn lemma_record_from(table: Seq<RecordView>, pid: i32, i: int)
    requires
        0 <= i,
    ensures
        match record_from(table, pid, i) {
            Some(j) => i <= j < table.len() && table[j].pid == pid,
            None => forall|j: int| i <= j < table.len() ==> (#[trigger] table[j]).pid != pid,
        },
    decreases table.len() - i,
{
    if i < table.len() && table[i].pid != pid {
        lemma_record_from(table, pid, i + 1);
    }
}

proof fn lemma_dead_child(
    table: Seq<RecordView>,
    pid: i32,
    pgid: i32,
    which: i32,
    i: int,
    at: int,
)
    requires
        0 <= i <= at < table.len(),
        is_waited_for(table[at], pid, pgid, which),
        table[at].exit is Some,
        forall|j: int| i <= j < at ==> !is_waited_for(#[trigger] table[j], pid, pgid, which),
    ensures
        dead_child(table, pid, pgid, which, i) == Some(at),
    decreases at - i,
{
    if i < at {
        lemma_dead_child(table, pid, pgid, which, i + 1, at);
    }
}

proof fn lemma_without_pid(table: Seq<RecordView>, pid: i32)
    ensures
        forall|i: int|
            0 <= i < without_pid(table, pid).len() ==> (#[trigger] without_pid(table, pid)[i]).pid
                != pid,
    decreases table.len(),
{
    if table.len() > 0 {
        lemma_without_pid(table.drop_last(), pid);
    }
}

/// A child that ends stays in the table, with its status, until its parent waits for it: then
/// the parent gets its pid and exactly that status, and the record is gone.
pub proof fn law_a_parent_collects_its_child<F>(
    sh: SharedView<F>,
    parent: CtxView,
    child: i32,
    status: i32,
    mem: Seq<u8>,
    status_at: u32,
    options: i32,
)
    requires
        pids_apart(sh.table),
        child > 0,
        child != parent.task.pid,
        record_at(sh.table, child) matches Some(i) && sh.table[i].ppid == parent.task.pid
            && sh.table[i].exit is None,
        record_at(sh.table, parent.task.pid) matches Some(i) && sh.table[i].alive(),
        status_at != 0,
        store(mem, status_at as int, le32(word_of(status))).1 is Ok,
    ensures
        ({
            let s = sh.with_exit(child, status);
            let (after, m, r) = wait4_spec(s, parent, mem, child, status_at, options, 0);
            &&& r == Sys::Ok(child)
            &&& m == patched(mem, status_at as int, le32(word_of(status)))
            &&& record_at(after.table, child) is None
        }),
{
    let pid = parent.task.pid;
    let table = sh.table;
    lemma_record_from(table, child, 0);
    lemma_record_from(table, pid, 0);
    let i = record_at(table, child)->0;
    let p = record_at(table, pid)->0;
    let marked = table.update(i, crate::kernel::state::ended(table[i], status));
    let orphaned = reparented(marked, child);
    assert(orphaned[p].pid == pid);
    assert(orphaned[p].alive());
    lemma_record_from(orphaned, pid, 0);
    let q = record_at(orphaned, pid);
    assert(q is Some) by {
        if q is None {
            assert(orphaned[p].pid != pid);
        }
    }
    assert(q->0 == p) by {
        if q->0 < p {
            assert(table[q->0].pid == orphaned[q->0].pid);
        } else if q->0 > p {
            assert(table[q->0].pid == orphaned[q->0].pid);
        }
    }
    let now = sh.with_exit(child, status).table;
    assert(now == orphaned.update(p, orphaned[p].raised(SIGCHLD)));
    assert(now[i].pid == child && now[i].exit == Some(status));
    assert(now[i].ppid == pid) by {
        assert(pid != child);
    }
    let pgid = crate::kernel::state::group_of(now, pid);
    assert(is_waited_for(now[i], pid, pgid, child));
    assert forall|j: int| 0 <= j < i implies !is_waited_for(
        #[trigger] now[j],
        pid,
        pgid,
        child,
    ) by {
        assert(now[j].pid == table[j].pid);
        assert(table[j].pid != table[i].pid);
    }
    assert(has_child(now, pid, pgid, child, 0));
    lemma_dead_child(now, pid, pgid, child, 0, i);
    lemma_without_pid(now, child);
    let left = without_pid(now, child);
    lemma_record_from(left, child, 0);
    if let Some(x) = record_at(left, child) {
        assert(left[x].pid != child);
    }
}

// ---------------------------------------------------------------------------------------------
// setjmp and longjmp

/// `longjmp` goes back to where `setjmp` was: the saved stack is put back byte for byte, the
/// stack pointer is the one it had, and `setjmp` returns the value again.
pub proof fn law_longjmp_returns_to_setjmp(
    p: ProcView,
    mem: Seq<u8>,
    env: u32,
    sp: u32,
    later: Seq<u8>,
    val: i32,
)
    requires
        p.ctx.state.suspension == Some(Suspension::Setjmp { env, sp }),
        later.len() == mem.len(),
    ensures
        ({
            let set = returned(p, mem).0;
            let jump = ProcView {
                ctx: CtxView {
                    state: ExecView {
                        suspension: Some(Suspension::Longjmp { env, val }),
                        ..set.ctx.state
                    },
                    ..set.ctx
                },
                ..set
            };
            let (back, after, _) = returned(jump, later);
            let data = p.ctx.state.asyncify_data as int;
            let stack = saved_stack(mem, p.ctx.state.asyncify_data);
            &&& set.ctx.state.resume_value == 0
            &&& set.resume is Rewind
            &&& stack.len() > 0 ==> {
                &&& back.resume is Rewind
                &&& back.ctx.state.resume_value == val
                &&& back.ctx.state.resume_sp == sp
                &&& after.subrange(data, data + stack.len()) == stack
            }
        }),
{
    let st = ExecView { suspension: None, ..p.ctx.state };
    let stack = saved_stack(mem, st.asyncify_data);
    let bufs = with_saved(st.jmp_bufs, env, stack, sp);
    lemma_saved_from(st.jmp_bufs, env, 0);
    lemma_saved_from(bufs, env, 0);
    let i = saved_from(bufs, env, 0);
    if let Some(k) = saved_from(st.jmp_bufs, env, 0) {
        assert(bufs[k].0 == env);
        assert(i == Some(k)) by {
            if i is None {
                assert(bufs[k].0 != env);
            } else if i->0 < k {
                assert(bufs[i->0] == st.jmp_bufs[i->0]);
                assert(st.jmp_bufs[i->0].0 != env);
            } else if i->0 > k {
                assert(bufs[k].0 != env);
            }
        }
    } else {
        let k = st.jmp_bufs.len() as int;
        assert(bufs[k] == (env, stack, sp));
        assert(i == Some(k)) by {
            if i is None {
                assert(bufs[k].0 != env);
            } else if i->0 < k {
                assert(bufs[i->0] == st.jmp_bufs[i->0]);
                assert(st.jmp_bufs[i->0].0 != env);
            }
        }
    }
    assert(bufs[i->0] == (env, stack, sp));
    if stack.len() > 0 {
        let data = st.asyncify_data as int;
        let after = patched(later, data, stack);
        assert(after.subrange(data, data + stack.len()) =~= stack);
    }
}

proof fn lemma_saved_from(list: Seq<(u32, Seq<u8>, u32)>, env: u32, i: int)
    requires
        0 <= i,
    ensures
        match saved_from(list, env, i) {
            Some(j) => i <= j < list.len() && list[j].0 == env && forall|x: int|
                i <= x < j ==> (#[trigger] list[x]).0 != env,
            None => forall|x: int| i <= x < list.len() ==> (#[trigger] list[x]).0 != env,
        },
    decreases list.len() - i,
{
    if i < list.len() && list[i].0 != env {
        lemma_saved_from(list, env, i + 1);
    }
}

// ---------------------------------------------------------------------------------------------
// host commands

/// A host command that asks to be run again gets the identical invocation, the same arguments,
/// environment, directory and input, whatever became of the session and of the mounts meanwhile,
/// unless a signal ends it first.
pub proof fn law_a_retry_is_identical<V: Vfs>(
    k: KernelView<<V as VfsFile>::Handle>,
    fs: Seq<MountView<<V as VfsFile>::State>>,
    now: u128,
    meanwhile: SharedView<<V as VfsFile>::Handle>,
    later: Seq<MountView<<V as VfsFile>::State>>,
    then: u128,
    index: int,
)
    requires
        0 <= index < k.procs.len(),
        host_stepped::<V>(k, fs, now, index).2 is Run,
        killer(meanwhile, k.procs[index].ctx) is None,
    ensures
        ({
            let (ran, _, first) = host_stepped::<V>(k, fs, now, index);
            let (asked, done) = host_answered(ran, index, Err(Errno::AGAIN));
            let again = KernelView { shared: meanwhile, ..asked };
            &&& !done
            &&& asked.procs == ran.procs
            &&& asked.shared.host_pending
            &&& host_stepped::<V>(again, later, then, index) == (again, later, first)
        }),
{
}

/// A host command's status is what its process ends with: once it has answered, a step either
/// waits for a descriptor to take more, or ends the process with that status, unless a signal
/// ends it first.
pub proof fn law_a_host_commands_status_is_its_exit<V: Vfs>(
    k: KernelView<<V as VfsFile>::Handle>,
    fs: Seq<MountView<<V as VfsFile>::State>>,
    realtime: u128,
    index: int,
    answer: (i32, Seq<u8>, Seq<u8>),
)
    requires
        0 <= index < k.procs.len(),
        k.procs[index].body is Host,
        killer(k.shared, k.procs[index].ctx) is None,
    ensures
        ({
            let (told, done) = host_answered(k, index, Ok(answer));
            let step = host_stepped::<V>(told, fs, realtime, index).2;
            &&& done
            &&& step == HostGoView::Done(ProcStep::Stuck) || step == HostGoView::Done(
                ProcStep::Ended(exited(answer.0)),
            )
        }),
{
}

// ---------------------------------------------------------------------------------------------
// retrying

/// A call that a guest waits for is asked again exactly as it was: it is what the process is
/// left with when its stack is unwound, and again each time the call cannot finish.
pub proof fn law_a_retried_call_is_the_same_call(p: ProcView, mem: Seq<u8>, call: Call)
    ensures
        p.ctx.state.suspension == Some(Suspension::Blocked { call }) ==> {
            let (q, m, after) = returned(p, mem);
            &&& q.resume == Resume::Blocked { call }
            &&& m == mem
            &&& after == After::Done(ProcStep::Ran)
        },
        retried(p, call, Outcome::Blocked).0.resume == (Resume::Blocked { call }),
        retried(p, call, Outcome::Blocked).1 == Go::Done(ProcStep::Stuck),
{
}

/// A signal that a host command neither ignores nor blocks ends it, whatever it is doing; of
/// several, the lowest is the one its status names.
pub proof fn law_kill_ends_a_host_command<V: Vfs>(
    k: KernelView<<V as VfsFile>::Handle>,
    fs: Seq<MountView<<V as VfsFile>::State>>,
    realtime: u128,
    index: int,
    sig: i32,
)
    requires
        0 <= index < k.procs.len(),
        k.procs[index].body is Host,
        0 < sig < NSIG,
        has_signal(live_signals(k.shared, k.procs[index].ctx), sig),
    ensures
        ({
            let live = live_signals(k.shared, k.procs[index].ctx);
            &&& killer(k.shared, k.procs[index].ctx) matches Some(low)
            &&& 0 < low <= sig && has_signal(live, low)
            &&& host_stepped::<V>(k, fs, realtime, index) == (
                k,
                fs,
                HostGoView::Done(ProcStep::Ended(signaled(low))),
            )
        }),
{
    let live = live_signals(k.shared, k.procs[index].ctx);
    lemma_lowest_from(live, 1);
    assert(lowest_signal(live, 1) <= sig) by {
        if lowest_signal(live, 1) > sig {
            assert(!has_signal(live, sig));
        }
    }
}

} // verus!
