//! The memory in use is what the processes that are there have been charged, no more and no less.
use super::rules::{
    asked_for, law_a_guest_cannot_change_the_rules, law_refused_memory_is_given_back,
    lemma_released_rules, same_holdings,
};
use crate::nr;
use crate::abi::SIGKILL;
use crate::errno::Errno;
use crate::kernel::fd::live_descs;
use crate::kernel::mem::Nanos;
use crate::kernel::mounts::MountView;
use crate::kernel::run::{
    guest_proc, installed, launched, not_started, BodyView, KernelView, Pass, PhaseView, ProcStep,
    ProcView, Resume,
};
use crate::kernel::sched::{all_torn_down, children_ended, idle_because, picked, stepped, torn_down};
use crate::kernel::state::{released_all, Budget, Call, CtxView, SharedView, SpawnView};
use crate::kernel::step::{
    flushed, host_answered, host_stepped, resumed, resumed_grown, returned, with_world, world_of,
    CHUNK,
};
use crate::kernel::task::{signaled, TaskView};
use crate::syscall::io::{read_spec, write_spec};
use crate::syscall::table::{concluded, dispatched, handled_grown, ClockView};
use crate::vfs::{Vfs, VfsFile};
use vstd::prelude::*;

verus! {

/// What some processes have been charged.
pub open spec fn charges(procs: Seq<ProcView>) -> int
    decreases procs.len(),
{
    if procs.len() == 0 {
        0
    } else {
        charges(procs.drop_last()) + procs.last().ctx.state.charged
    }
}

/// Whether the memory in use is what the processes have been charged, and within the limit.
pub open spec fn accounted<F>(k: KernelView<F>) -> bool {
    k.shared.memory_used == charges(k.procs) && k.shared.memory_used <= k.shared.limits.memory
}

proof fn lemma_charges_remove(procs: Seq<ProcView>, i: int)
    requires
        0 <= i < procs.len(),
    ensures
        charges(procs.remove(i)) == charges(procs) - procs[i].ctx.state.charged,
    decreases procs.len(),
{
    if i == procs.len() - 1 {
        assert(procs.remove(i) =~= procs.drop_last());
    } else {
        lemma_charges_remove(procs.drop_last(), i);
        assert(procs.remove(i).drop_last() =~= procs.drop_last().remove(i));
        assert(procs.remove(i).last() == procs.last());
    }
}

proof fn lemma_charges_insert(procs: Seq<ProcView>, i: int, p: ProcView)
    requires
        0 <= i <= procs.len(),
    ensures
        charges(procs.insert(i, p)) == charges(procs) + p.ctx.state.charged,
{
    lemma_charges_remove(procs.insert(i, p), i);
    assert(procs.insert(i, p).remove(i) =~= procs);
}

proof fn lemma_charges_update(procs: Seq<ProcView>, i: int, p: ProcView)
    requires
        0 <= i < procs.len(),
    ensures
        charges(procs.update(i, p)) == charges(procs) - procs[i].ctx.state.charged
            + p.ctx.state.charged,
{
    lemma_charges_remove(procs, i);
    lemma_charges_remove(procs.update(i, p), i);
    assert(procs.update(i, p).remove(i) =~= procs.remove(i));
}

proof fn lemma_charges_cover(procs: Seq<ProcView>, i: int)
    requires
        0 <= i < procs.len(),
    ensures
        0 <= procs[i].ctx.state.charged <= charges(procs),
{
    lemma_charges_remove(procs, i);
    lemma_charges_positive(procs.remove(i));
}

proof fn lemma_charges_positive(procs: Seq<ProcView>)
    ensures
        0 <= charges(procs),
    decreases procs.len(),
{
    if procs.len() > 0 {
        lemma_charges_positive(procs.drop_last());
    }
}

// ---------------------------------------------------------------------------------------------
// starting

/// Starting a guest charges it for what it starts with, and nothing is charged where it could
/// not be started. A host command costs nothing.
pub proof fn law_starting_is_accounted<F>(
    k: KernelView<F>,
    at: int,
    s: SpawnView,
    key: u64,
    charge: u64,
    pages: u64,
    body: BodyView,
)
    requires
        accounted(k),
        0 <= at <= k.procs.len(),
    ensures
        ({
            let charged = KernelView { shared: k.shared.charged(charge), ..k };
            k.shared.affords(charge) ==> {
                &&& accounted(installed(charged, at, guest_proc(key, launched(s), charge, pages)))
                &&& accounted(KernelView { shared: charged.shared.refunded(charge), ..charged })
            }
        }),
        accounted(
            installed(
                k,
                at,
                ProcView { key, ctx: launched(s), body, resume: Resume::Fresh, parked: false },
            ),
        ),
{
    lemma_charges_insert(k.procs, at, guest_proc(key, launched(s), charge, pages));
    lemma_charges_insert(
        k.procs,
        at,
        ProcView { key, ctx: launched(s), body, resume: Resume::Fresh, parked: false },
    );
}

/// A process that could not be started leaves nothing charged.
pub proof fn law_a_failed_start_is_accounted<V: Vfs>(
    k: KernelView<<V as VfsFile>::Handle>,
    fs: Seq<MountView<<V as VfsFile>::State>>,
    task: TaskView,
)
    requires
        accounted(k),
    ensures
        accounted(not_started::<V>(k, fs, task).0),
{
    lemma_released_rules::<V>(k.shared, fs, live_descs(task.fds));
}

// ---------------------------------------------------------------------------------------------
// ending

proof fn lemma_children_holdings<V: Vfs>(
    sh: SharedView<<V as VfsFile>::Handle>,
    fs: Seq<MountView<<V as VfsFile>::State>>,
    task: TaskView,
    stack: Seq<TaskView>,
)
    ensures
        same_holdings(sh, children_ended::<V>(sh, fs, task, stack).0),
    decreases stack.len(),
{
    if stack.len() > 0 {
        let (s, f) = released_all::<V>(sh, fs, live_descs(task.fds));
        lemma_released_rules::<V>(sh, fs, live_descs(task.fds));
        lemma_children_holdings::<V>(
            s.with_exit(task.pid, signaled(SIGKILL)),
            f,
            stack.last(),
            stack.drop_last(),
        );
    }
}

/// A process that ends gives back everything it was charged, at its start and as it grew.
pub proof fn law_memory_comes_back<V: Vfs>(
    k: KernelView<<V as VfsFile>::Handle>,
    fs: Seq<MountView<<V as VfsFile>::State>>,
    index: int,
    status: i32,
)
    requires
        accounted(k),
        0 <= index < k.procs.len(),
    ensures
        ({
            let after = torn_down::<V>(k, fs, index, status).0;
            &&& after.shared.memory_used == k.shared.memory_used
                - k.procs[index].ctx.state.charged
            &&& accounted(after)
        }),
{
    let p = k.procs[index];
    let start = k.shared.refunded(p.ctx.state.charged);
    lemma_charges_cover(k.procs, index);
    lemma_charges_remove(k.procs, index);
    lemma_children_holdings::<V>(start, fs, p.ctx.task, p.ctx.vfork_stack);
    let (s1, f1, task) = children_ended::<V>(start, fs, p.ctx.task, p.ctx.vfork_stack);
    lemma_released_rules::<V>(s1, f1, live_descs(task.fds));
}

/// The instance an `execve` takes out of the list gives back what it was charged.
pub proof fn law_exec_gives_memory_back<F>(k: KernelView<F>, index: int)
    requires
        accounted(k),
        0 <= index < k.procs.len(),
    ensures
        accounted(
            KernelView {
                shared: k.shared.refunded(k.procs[index].ctx.state.charged),
                procs: k.procs.remove(index),
                ..k.handed_out()
            },
        ),
{
    lemma_charges_cover(k.procs, index);
    lemma_charges_remove(k.procs, index);
}

/// Once every process has ended no memory is in use.
pub proof fn law_all_memory_comes_back<V: Vfs>(
    k: KernelView<<V as VfsFile>::Handle>,
    fs: Seq<MountView<<V as VfsFile>::State>>,
    status: i32,
)
    requires
        accounted(k),
    ensures
        accounted(all_torn_down::<V>(k, fs, status).0),
        all_torn_down::<V>(k, fs, status).0.shared.memory_used == 0,
    decreases k.procs.len(),
{
    if k.procs.len() > 0 {
        law_memory_comes_back::<V>(k, fs, 0, status);
        let (next, f) = torn_down::<V>(k, fs, 0, status);
        law_all_memory_comes_back::<V>(next, f, status);
    }
}

// ---------------------------------------------------------------------------------------------
// running

/// The scheduler keeps the account, whatever it picks.
pub proof fn law_picking_is_accounted<V: Vfs>(
    k: KernelView<<V as VfsFile>::Handle>,
    fs: Seq<MountView<<V as VfsFile>::State>>,
    pass: Pass,
    elapsed: Nanos,
    budget: Budget,
)
    requires
        accounted(k),
    ensures
        accounted(picked::<V>(k, fs, pass, elapsed, budget).0),
{
    law_all_memory_comes_back::<V>(k, fs, signaled(SIGKILL));
    assert(accounted(idle_because(k).0));
}

/// The scheduler keeps the account, however a step ended.
pub proof fn law_settling_is_accounted<V: Vfs>(
    k: KernelView<<V as VfsFile>::Handle>,
    fs: Seq<MountView<<V as VfsFile>::State>>,
    pass: Pass,
    step: ProcStep,
)
    requires
        accounted(k),
    ensures
        accounted(stepped::<V>(k, fs, pass, step).0),
{
    let i = pass.index as int;
    if i < k.procs.len() {
        let parked = ProcView { parked: true, ..k.procs[i] };
        lemma_charges_update(k.procs, i, parked);
        if let ProcStep::Ended(status) = step {
            law_memory_comes_back::<V>(
                k.with_pending(pass.vfs_before, pass.host_before),
                fs,
                i,
                status,
            );
        }
    }
}

/// A guest's calls keep the account: what memory grows by is charged to the guest.
pub proof fn law_a_syscall_is_accounted<V: Vfs>(
    k: KernelView<<V as VfsFile>::Handle>,
    fs: Seq<MountView<<V as VfsFile>::State>>,
    mem: Seq<u8>,
    c: ClockView,
    index: int,
    call: Call,
)
    requires
        accounted(k),
        0 <= index < k.procs.len(),
    ensures
        accounted(
            with_world::<V>(
                k,
                dispatched::<V>(world_of::<V>(k, fs, mem, index), c, call).0,
                index,
            ),
        ),
{
    let w = world_of::<V>(k, fs, mem, index);
    lemma_charges_cover(k.procs, index);
    law_a_guest_cannot_change_the_rules::<V>(w, c, call);
    let after = dispatched::<V>(w, c, call).0;
    lemma_charges_update(k.procs, index, ProcView { ctx: after.ctx, ..k.procs[index] });
}

/// So does a call that goes on once the engine was asked for memory, whether or not the engine
/// gave any.
pub proof fn law_a_grown_syscall_is_accounted<V: Vfs>(
    k: KernelView<<V as VfsFile>::Handle>,
    fs: Seq<MountView<<V as VfsFile>::State>>,
    mem: Seq<u8>,
    index: int,
    call: Call,
    previous: Option<u64>,
)
    requires
        accounted(k),
        0 <= index < k.procs.len(),
        call.number == nr::BRK || call.number == nr::MMAP,
        asked_for(call, mem.len() as int) <= k.procs[index].ctx.state.charged,
    ensures
        ({
            let (after, r) = handled_grown::<V>(world_of::<V>(k, fs, mem, index), call, previous);
            accounted(with_world::<V>(k, concluded(after, r).0, index))
        }),
        accounted(resumed_grown::<V>(k, fs, mem, index, call, previous).0),
{
    let w = world_of::<V>(k, fs, mem, index);
    lemma_charges_cover(k.procs, index);
    law_refused_memory_is_given_back::<V>(w, call, previous);
    let (after, r) = handled_grown::<V>(w, call, previous);
    let done = concluded(after, r).0;
    lemma_charges_update(k.procs, index, ProcView { ctx: done.ctx, ..k.procs[index] });
    let k1 = with_world::<V>(k, done, index);
    let q = resumed_grown::<V>(k, fs, mem, index, call, previous).0.procs[index];
    lemma_charges_update(k1.procs, index, q);
}

/// Continuing a guest keeps the account.
pub proof fn law_resuming_is_accounted<V: Vfs>(
    k: KernelView<<V as VfsFile>::Handle>,
    fs: Seq<MountView<<V as VfsFile>::State>>,
    mem: Seq<u8>,
    c: ClockView,
    index: int,
)
    requires
        accounted(k),
        0 <= index < k.procs.len(),
    ensures
        accounted(resumed::<V>(k, fs, mem, c, index).0),
{
    let after = resumed::<V>(k, fs, mem, c, index).0;
    match k.procs[index].resume {
        Resume::Fresh => {},
        Resume::Rewind => {
            lemma_charges_update(k.procs, index, after.procs[index]);
        },
        Resume::Blocked { call } => {
            law_a_syscall_is_accounted::<V>(k, fs, mem, c, index, call);
            let w = dispatched::<V>(world_of::<V>(k, fs, mem, index), c, call).0;
            let k1 = with_world::<V>(k, w, index);
            lemma_charges_update(k1.procs, index, after.procs[index]);
        },
    }
}

/// A guest that comes back has been charged what it was charged before.
pub proof fn law_returning_is_accounted<F>(k: KernelView<F>, index: int, mem: Seq<u8>)
    requires
        accounted(k),
        0 <= index < k.procs.len(),
    ensures
        accounted(k.with_proc(index, returned(k.procs[index], mem).0)),
{
    lemma_charges_update(k.procs, index, returned(k.procs[index], mem).0);
}

proof fn lemma_flushed_holdings<V: Vfs>(
    sh: SharedView<<V as VfsFile>::Handle>,
    ctx: CtxView,
    fs: Seq<MountView<<V as VfsFile>::State>>,
    fd: i32,
    data: Seq<u8>,
    done: int,
)
    ensures
        same_holdings(sh, flushed::<V>(sh, ctx, fs, fd, data, done).0),
    decreases data.len() - done,
{
    if done < data.len() {
        let rest = data.subrange(done, data.len() as int);
        let (s, f, r) = write_spec::<V>(sh, ctx, fs, fd, rest);
        assert(same_holdings(sh, s));
        if let Ok(n) = r {
            if 0 < n <= data.len() - done {
                lemma_flushed_holdings::<V>(s, ctx, f, fd, data, done + n);
            }
        }
    }
}

/// A host command is charged nothing, whatever it does.
pub proof fn law_a_host_step_is_accounted<V: Vfs>(
    k: KernelView<<V as VfsFile>::Handle>,
    fs: Seq<MountView<<V as VfsFile>::State>>,
    realtime: u128,
    index: int,
    answer: Result<(i32, Seq<u8>, Seq<u8>), Errno>,
)
    requires
        accounted(k),
        0 <= index < k.procs.len(),
    ensures
        accounted(host_stepped::<V>(k, fs, realtime, index).0),
        accounted(host_answered(k, index, answer).0),
{
    let p = k.procs[index];
    let after = host_stepped::<V>(k, fs, realtime, index).0;
    let told = host_answered(k, index, answer).0;
    lemma_charges_update(k.procs, index, after.procs[index]);
    lemma_charges_update(k.procs, index, told.procs[index]);
    if let BodyView::Host { reads_stdin, phase } = p.body {
        match phase {
            PhaseView::Drained(_) => {},
            PhaseView::Reading(buffer) => {
                let s = read_spec::<V>(k.shared, p.ctx, fs, realtime, 0, CHUNK).0;
                assert(same_holdings(k.shared, s));
            },
            PhaseView::Flushing { status, stdout, stderr, out_done, err_done } => {
                lemma_flushed_holdings::<V>(k.shared, p.ctx, fs, 1, stdout, out_done as int);
                let (s1, f1, d1, full1) = flushed::<V>(
                    k.shared,
                    p.ctx,
                    fs,
                    1,
                    stdout,
                    out_done as int,
                );
                lemma_flushed_holdings::<V>(s1, p.ctx, f1, 2, stderr, err_done as int);
            },
        }
    }
    assert(after.procs =~= k.procs.update(index, after.procs[index]));
    assert(told.procs =~= k.procs.update(index, told.procs[index]));
}

} // verus!
