//! What holds of the scheduler and of every step it takes.
use super::access::{
    law_a_grown_syscall_respects_the_mounts, law_a_syscall_respects_the_mounts, lemma_read,
    lemma_released_all, lemma_write,
};
use super::mounts::{
    asked, asked_all, kept_at, lemma_respected_same, lemma_respected_then, may_ask, may_ask_all,
    respected, seat_of, Ask, Seat,
};
use crate::abi::SIGKILL;
use crate::kernel::fd::live_descs;
use crate::kernel::mem::Nanos;
use crate::kernel::mounts::MountView;
use crate::kernel::run::{
    not_started, BodyView, Idle, KernelView, Pass, PhaseView, PickView, ProcStep, Resume, Slice,
};
use crate::kernel::sched::{
    all_torn_down, children_ended, earliest_wake, idle_because, out_of_time, picked, stepped,
    torn_down,
};
use crate::kernel::state::{
    record_at, record_from, released_all, with_wake, Budget, Call, CtxView, SharedView,
};
use crate::kernel::step::{flushed, host_stepped, resumed, resumed_grown, world_of, CHUNK};
use crate::kernel::task::{signaled, RecordView, TaskView};
use crate::syscall::base::World;
use crate::syscall::io::write_spec;
use crate::syscall::table::{counted, dispatched, handled, ClockView};
use crate::vfs::{Vfs, VfsFile};
use crate::vfs::memory::{MemModel, MemVfs};
use vstd::prelude::*;

verus! {

proof fn lemma_children_ended<V: Vfs>(
    sh: SharedView<<V as VfsFile>::Handle>,
    fs: Seq<MountView<<V as VfsFile>::State>>,
    task: TaskView,
    stack: Seq<TaskView>,
)
    ensures
        respected::<V>(fs, children_ended::<V>(sh, fs, task, stack).1),
    decreases stack.len(),
{
    lemma_respected_same::<V>(fs);
    if stack.len() > 0 {
        let (s, f) = released_all::<V>(sh, fs, live_descs(task.fds));
        lemma_released_all::<V>(sh, fs, live_descs(task.fds));
        let told = s.with_exit(task.pid, signaled(SIGKILL));
        lemma_children_ended::<V>(told, f, stack.last(), stack.drop_last());
        let after = children_ended::<V>(told, f, stack.last(), stack.drop_last()).1;
        lemma_respected_then::<V>(fs, f, after);
    }
}

proof fn lemma_torn_down<V: Vfs>(
    k: KernelView<<V as VfsFile>::Handle>,
    fs: Seq<MountView<<V as VfsFile>::State>>,
    index: int,
    status: i32,
)
    ensures
        respected::<V>(fs, torn_down::<V>(k, fs, index, status).1),
{
    lemma_respected_same::<V>(fs);
    if 0 <= index < k.procs.len() {
        let p = k.procs[index];
        let start = k.shared.refunded(p.ctx.state.charged);
        let (s1, f1, task) = children_ended::<V>(start, fs, p.ctx.task, p.ctx.vfork_stack);
        lemma_children_ended::<V>(start, fs, p.ctx.task, p.ctx.vfork_stack);
        lemma_released_all::<V>(s1, f1, live_descs(task.fds));
        lemma_respected_then::<V>(fs, f1, released_all::<V>(s1, f1, live_descs(task.fds)).1);
    }
}

proof fn lemma_all_torn_down<V: Vfs>(
    k: KernelView<<V as VfsFile>::Handle>,
    fs: Seq<MountView<<V as VfsFile>::State>>,
    status: i32,
)
    ensures
        respected::<V>(fs, all_torn_down::<V>(k, fs, status).1),
        all_torn_down::<V>(k, fs, status).0.procs.len() == 0,
        all_torn_down::<V>(k, fs, status).0.exit_status is Some,
    decreases k.procs.len(),
{
    lemma_respected_same::<V>(fs);
    if k.procs.len() > 0 {
        let (next, f) = torn_down::<V>(k, fs, 0, status);
        lemma_torn_down::<V>(k, fs, 0, status);
        lemma_all_torn_down::<V>(next, f, status);
        lemma_respected_then::<V>(fs, f, all_torn_down::<V>(next, f, status).1);
    }
}

/// Deciding what to do next, which may end every process, asks the mounts only what they may be
/// asked.
pub proof fn law_picking_respects_the_mounts<V: Vfs>(
    k: KernelView<<V as VfsFile>::Handle>,
    fs: Seq<MountView<<V as VfsFile>::State>>,
    pass: Pass,
    elapsed: Nanos,
    budget: Budget,
)
    ensures
        respected::<V>(fs, picked::<V>(k, fs, pass, elapsed, budget).1),
{
    lemma_respected_same::<V>(fs);
    lemma_all_torn_down::<V>(k, fs, signaled(SIGKILL));
}

/// Taking note of how a step ended, which may tear a process down, asks the mounts only what
/// they may be asked.
pub proof fn law_settling_respects_the_mounts<V: Vfs>(
    k: KernelView<<V as VfsFile>::Handle>,
    fs: Seq<MountView<<V as VfsFile>::State>>,
    pass: Pass,
    step: ProcStep,
)
    ensures
        respected::<V>(fs, stepped::<V>(k, fs, pass, step).1),
{
    lemma_respected_same::<V>(fs);
    let i = pass.index as int;
    if let ProcStep::Ended(status) = step {
        lemma_torn_down::<V>(k.with_pending(pass.vfs_before, pass.host_before), fs, i, status);
    }
}

/// A process that could not be started closes what it had open, and asks the mounts no more.
pub proof fn law_a_failed_start_respects_the_mounts<V: Vfs>(
    k: KernelView<<V as VfsFile>::Handle>,
    fs: Seq<MountView<<V as VfsFile>::State>>,
    task: TaskView,
)
    ensures
        respected::<V>(fs, not_started::<V>(k, fs, task).1),
{
    lemma_released_all::<V>(k.shared, fs, live_descs(task.fds));
}

/// Continuing a guest asks the mounts only what they may be asked.
pub proof fn law_resuming_respects_the_mounts<V: Vfs>(
    k: KernelView<<V as VfsFile>::Handle>,
    fs: Seq<MountView<<V as VfsFile>::State>>,
    mem: Seq<u8>,
    c: ClockView,
    index: int,
)
    requires
        fs.len() <= usize::MAX,
    ensures
        respected::<V>(fs, resumed::<V>(k, fs, mem, c, index).1),
{
    lemma_respected_same::<V>(fs);
    if let Resume::Blocked { call } = k.procs[index].resume {
        law_a_syscall_respects_the_mounts::<V>(world_of::<V>(k, fs, mem, index), c, call);
    }
}

/// Continuing a guest whose memory has grown asks the mounts only what they may be asked.
pub proof fn law_resuming_grown_respects_the_mounts<V: Vfs>(
    k: KernelView<<V as VfsFile>::Handle>,
    fs: Seq<MountView<<V as VfsFile>::State>>,
    mem: Seq<u8>,
    index: int,
    call: Call,
    previous: Option<u64>,
)
    ensures
        respected::<V>(fs, resumed_grown::<V>(k, fs, mem, index, call, previous).1),
{
    law_a_grown_syscall_respects_the_mounts::<V>(
        world_of::<V>(k, fs, mem, index),
        call,
        previous,
    );
}

proof fn lemma_flushed<V: Vfs>(
    sh: SharedView<<V as VfsFile>::Handle>,
    ctx: CtxView,
    fs: Seq<MountView<<V as VfsFile>::State>>,
    fd: i32,
    data: Seq<u8>,
    done: int,
)
    ensures
        respected::<V>(fs, flushed::<V>(sh, ctx, fs, fd, data, done).1),
    decreases data.len() - done,
{
    lemma_respected_same::<V>(fs);
    if done < data.len() {
        let rest = data.subrange(done, data.len() as int);
        lemma_write::<V>(sh, ctx, fs, fd, rest);
        let (s, f, r) = write_spec::<V>(sh, ctx, fs, fd, rest);
        if let Ok(n) = r {
            if 0 < n <= data.len() - done {
                lemma_flushed::<V>(s, ctx, f, fd, data, done + n);
                let after = flushed::<V>(s, ctx, f, fd, data, done + n).1;
                lemma_respected_then::<V>(fs, f, after);
            }
        }
    }
}

/// A host command's reading and writing asks the mounts only what they may be asked: it goes
/// through the same descriptors as a guest's.
pub proof fn law_a_host_step_respects_the_mounts<V: Vfs>(
    k: KernelView<<V as VfsFile>::Handle>,
    fs: Seq<MountView<<V as VfsFile>::State>>,
    realtime: u128,
    index: int,
)
    ensures
        respected::<V>(fs, host_stepped::<V>(k, fs, realtime, index).1),
{
    lemma_respected_same::<V>(fs);
    let p = k.procs[index];
    if let BodyView::Host { reads_stdin, phase } = p.body {
        match phase {
            PhaseView::Drained(_) => {},
            PhaseView::Reading(buffer) => {
                lemma_read::<V>(k.shared, p.ctx, fs, realtime, 0, CHUNK);
            },
            PhaseView::Flushing { status, stdout, stderr, out_done, err_done } => {
                lemma_flushed::<V>(k.shared, p.ctx, fs, 1, stdout, out_done as int);
                let (s1, f1, d1, full1) = flushed::<V>(
                    k.shared,
                    p.ctx,
                    fs,
                    1,
                    stdout,
                    out_done as int,
                );
                lemma_flushed::<V>(s1, p.ctx, f1, 2, stderr, err_done as int);
                let f2 = flushed::<V>(s1, p.ctx, f1, 2, stderr, err_done as int).1;
                lemma_respected_then::<V>(fs, f1, f2);
            },
        }
    }
}

// ---------------------------------------------------------------------------------------------
// a read-only mount

proof fn lemma_reading_changes_nothing(
    seat: Seat,
    s: MemModel,
    asks: Seq<Ask<<MemVfs as VfsFile>::Handle>>,
)
    requires
        seat.read_only,
        may_ask_all(seat, asks),
    ensures
        asked_all::<MemVfs>(s, asks) == s,
    decreases asks.len(),
{
    if asks.len() > 0 {
        assert(may_ask_all(seat, asks.drop_last())) by {
            assert forall|i: int| 0 <= i < asks.drop_last().len() implies may_ask(
                seat,
                #[trigger] asks.drop_last()[i],
            ) by {
                assert(asks.drop_last()[i] == asks[i]);
            }
        }
        lemma_reading_changes_nothing(seat, s, asks.drop_last());
        assert(may_ask(seat, asks[asks.len() - 1]));
        assert(asked::<MemVfs>(s, asks.last()) == s);
    }
}

/// What a filesystem in memory holds cannot be changed through a read-only mount: whatever
/// respects the mounts leaves it exactly as it was.
pub proof fn law_a_read_only_mount_is_never_changed(
    before: Seq<MountView<MemModel>>,
    after: Seq<MountView<MemModel>>,
    i: int,
)
    requires
        respected::<MemVfs>(before, after),
        0 <= i < before.len(),
        before[i].read_only,
    ensures
        after[i] == before[i],
{
    assert(kept_at::<MemVfs>(before, after, i));
    let seat = seat_of(before, i);
    let asks = choose|asks: Seq<Ask<<MemVfs as VfsFile>::Handle>>|
        may_ask_all(seat, asks) && #[trigger] asked_all::<MemVfs>(before[i].state, asks)
            == after[i].state;
    lemma_reading_changes_nothing(seat, before[i].state, asks);
}

/// A session that has run out of time is over: no process is left, and there is a status.
pub proof fn law_the_clock_ends_the_session<V: Vfs>(
    k: KernelView<<V as VfsFile>::Handle>,
    fs: Seq<MountView<<V as VfsFile>::State>>,
    pass: Pass,
    elapsed: Nanos,
    budget: Budget,
)
    requires
        pass.starting,
        k.shared.spawn.len() == 0,
        out_of_time(k.shared.limits.wall_clock, elapsed),
    ensures
        ({
            let (after, _, _, pick) = picked::<V>(k, fs, pass, elapsed, budget);
            &&& after.procs.len() == 0
            &&& after.exit_status matches Some(status) && pick == PickView::Report(
                Slice::Finished(status),
            )
        }),
{
    lemma_all_torn_down::<V>(k, fs, signaled(SIGKILL));
}

// ---------------------------------------------------------------------------------------------
// sleeping

proof fn lemma_earliest(table: Seq<RecordView>, n: int)
    requires
        0 <= n <= table.len(),
    ensures
        match earliest_wake(table, n) {
            Some(when) => {
                &&& exists|i: int| 0 <= i < n && (#[trigger] table[i]).wake_at == Some(when)
                &&& forall|i: int|
                    0 <= i < n ==> ((#[trigger] table[i]).wake_at matches Some(w) ==> when <= w)
            },
            None => forall|i: int| 0 <= i < n ==> (#[trigger] table[i]).wake_at is None,
        },
    decreases n,
{
    if n > 0 {
        lemma_earliest(table, n - 1);
        assert(table[n - 1] == table[n - 1]);
    }
}

/// The caller is told to wait until a moment only where some process sleeps until then, and it
/// is the earliest of them; where nobody sleeps and somebody wants standard input, that is what
/// it is told.
pub proof fn law_idle_until_the_first_sleeper<F>(k: KernelView<F>)
    requires
        !k.shared.vfs_pending,
        !k.shared.host_pending,
    ensures
        ({
            let table = k.shared.table;
            match idle_because(k).1 {
                Idle::Until(when) => {
                    &&& exists|i: int|
                        0 <= i < table.len() && (#[trigger] table[i]).wake_at == Some(when)
                    &&& forall|i: int|
                        0 <= i < table.len() ==> ((#[trigger] table[i]).wake_at matches Some(w)
                            ==> when <= w)
                },
                why => {
                    &&& forall|i: int| 0 <= i < table.len() ==> (#[trigger] table[i]).wake_at is None
                    &&& (why is Stdin) == (k.shared.stdin.wanted && !k.shared.stdin.closed)
                },
            }
        }),
{
    lemma_earliest(k.shared.table, k.shared.table.len() as int);
}

/// A process whose call has been answered sleeps no longer, and waits for no mount.
pub proof fn law_an_answered_process_is_awake<V: Vfs>(
    w: World<<V as VfsFile>::State, <V as VfsFile>::Handle>,
    k: ClockView,
    c: Call,
)
    requires
        dispatched::<V>(w, k, c).1 is Value,
    ensures
        ({
            let after = dispatched::<V>(w, k, c).0;
            &&& record_at(after.sh.table, after.ctx.task.pid) matches Some(i) ==> 0 <= i
                < after.sh.table.len() && after.sh.table[i].wake_at is None
            &&& !after.sh.vfs_pending
        }),
{
    let (done, r) = handled::<V>(counted(w), k, c);
    lemma_woken(done.sh.table, done.ctx.task.pid, 0);
}

proof fn lemma_woken(table: Seq<RecordView>, pid: i32, i: int)
    requires
        0 <= i <= table.len(),
        record_from(table, pid, i) == record_at(table, pid),
    ensures
        ({
            let woken = with_wake(table, pid, None);
            &&& record_from(woken, pid, i) == record_from(table, pid, i)
            &&& record_from(table, pid, i) matches Some(j) ==> i <= j < table.len()
                && woken[j].wake_at is None
        }),
    decreases table.len() - i,
{
    let woken = with_wake(table, pid, None);
    if i < table.len() {
        lemma_first(table, pid, 0);
        if table[i].pid != pid {
            lemma_woken(table, pid, i + 1);
        }
    }
}

proof fn lemma_first(table: Seq<RecordView>, pid: i32, i: int)
    requires
        0 <= i,
    ensures
        record_from(table, pid, i) matches Some(j) ==> i <= j < table.len() && table[j].pid == pid,
    decreases table.len() - i,
{
    if i < table.len() && table[i].pid != pid {
        lemma_first(table, pid, i + 1);
    }
}

} // verus!
