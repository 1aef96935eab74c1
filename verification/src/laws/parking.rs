//! `AGAIN` means "come back later", and later means after the caller has had control: a process
//! that waits for something outside the sandbox has no turn before the next slice begins.
use crate::abi::SIGKILL;
use crate::errno::Errno;
use crate::kernel::fd::live_descs;
use crate::kernel::mem::Nanos;
use crate::kernel::mounts::MountView;
use crate::kernel::run::{
    installed, not_started, Idle, KernelView, Pass, PickView, ProcStep, ProcView, Slice,
};
use crate::kernel::sched::{
    all_torn_down, children_ended, next_unparked, picked, stepped, torn_down, waits_outside,
};
use crate::kernel::state::{released_all, Budget, Call, SharedView};
use crate::kernel::step::{
    host_answered, host_stepped, resumed, resumed_grown, returned, with_world,
};
use crate::kernel::task::{signaled, TaskView};
use crate::syscall::base::World;
use crate::syscall::table::ClockView;
use crate::vfs::{Vfs, VfsFile};
use vstd::prelude::*;

verus! {

/// Whether no two processes are one instance, and the next one will be another.
pub open spec fn keys_apart<F>(k: KernelView<F>) -> bool {
    &&& forall|i: int, j: int|
        0 <= i < j < k.procs.len() ==> (#[trigger] k.procs[i]).key != (#[trigger] k.procs[j]).key
    &&& forall|i: int| 0 <= i < k.procs.len() ==> (#[trigger] k.procs[i]).key < k.next_key
}

/// Whether the process of a key has no turn.
pub open spec fn has_no_turn<F>(k: KernelView<F>, key: u64) -> bool {
    &&& key < k.next_key
    &&& forall|i: int|
        0 <= i < k.procs.len() && (#[trigger] k.procs[i]).key == key ==> k.procs[i].parked
}

/// Whether some process waits for something outside.
pub open spec fn somebody_waits<F>(k: KernelView<F>) -> bool {
    exists|i: int| 0 <= i < k.procs.len() && (#[trigger] k.procs[i]).parked
}

// ---------------------------------------------------------------------------------------------
// who is parked

/// A step parks its process exactly where the process is still there and what it asked last
/// answered `AGAIN`, whoever else has been answered so before; and it parks nobody else.
pub proof fn law_again_parks_who_asked<V: Vfs>(
    k: KernelView<<V as VfsFile>::Handle>,
    fs: Seq<MountView<<V as VfsFile>::State>>,
    pass: Pass,
    step: ProcStep,
)
    requires
        !(step is Ended),
    ensures
        ({
            let after = stepped::<V>(k, fs, pass, step).0;
            &&& after.procs.len() == k.procs.len()
            &&& forall|i: int|
                0 <= i < k.procs.len() ==> (#[trigger] after.procs[i]).key == k.procs[i].key
                    && after.procs[i].parked == (k.procs[i].parked || (i == pass.index
                    && waits_outside(k, pass, step)))
        }),
{
}

/// After a step that answered `AGAIN` the process has no turn.
pub proof fn law_again_takes_the_turn_away<V: Vfs>(
    k: KernelView<<V as VfsFile>::Handle>,
    fs: Seq<MountView<<V as VfsFile>::State>>,
    pass: Pass,
    step: ProcStep,
)
    requires
        keys_apart(k),
        waits_outside(k, pass, step),
    ensures
        has_no_turn(stepped::<V>(k, fs, pass, step).0, k.procs[pass.index as int].key),
{
    let after = stepped::<V>(k, fs, pass, step).0;
    let key = k.procs[pass.index as int].key;
    assert forall|i: int| 0 <= i < after.procs.len() && (#[trigger] after.procs[i]).key
        == key implies after.procs[i].parked by {
        assert(k.procs[i].key == key);
    }
}

proof fn lemma_next_unparked(procs: Seq<ProcView>, i: int)
    requires
        0 <= i,
    ensures
        i <= next_unparked(procs, i),
        next_unparked(procs, i) < procs.len() ==> !procs[next_unparked(procs, i)].parked,
    decreases procs.len() - i,
{
    if i < procs.len() && procs[i].parked {
        lemma_next_unparked(procs, i + 1);
    }
}

/// A process that has no turn is not picked.
pub proof fn law_who_has_no_turn_is_not_picked<V: Vfs>(
    k: KernelView<<V as VfsFile>::Handle>,
    fs: Seq<MountView<<V as VfsFile>::State>>,
    pass: Pass,
    elapsed: Nanos,
    budget: Budget,
    key: u64,
)
    requires
        k.procs.len() <= usize::MAX,
        has_no_turn(k, key),
    ensures
        match picked::<V>(k, fs, pass, elapsed, budget).3 {
            PickView::Guest(i) => i < k.procs.len() && k.procs[i as int].key != key,
            PickView::Host(i) => i < k.procs.len() && k.procs[i as int].key != key,
            _ => true,
        },
{
    lemma_next_unparked(k.procs, pass.index as int);
    lemma_next_unparked(k.procs, 0);
}

// ---------------------------------------------------------------------------------------------
// how long

proof fn lemma_removed<F>(k: KernelView<F>, after: KernelView<F>, index: int, key: u64)
    requires
        0 <= index < k.procs.len(),
        after.procs == k.procs.remove(index),
        after.next_key == k.next_key,
    ensures
        has_no_turn(k, key) ==> has_no_turn(after, key),
        keys_apart(k) ==> keys_apart(after),
{
    if has_no_turn(k, key) {
        assert forall|i: int| 0 <= i < after.procs.len() && (#[trigger] after.procs[i]).key
            == key implies after.procs[i].parked by {
            let j = if i < index {
                i
            } else {
                i + 1
            };
            assert(k.procs[j] == after.procs[i]);
        }
    }
    if keys_apart(k) {
        assert forall|i: int, j: int| 0 <= i < j < after.procs.len() implies (
        #[trigger] after.procs[i]).key != (#[trigger] after.procs[j]).key by {
            let a = if i < index {
                i
            } else {
                i + 1
            };
            let b = if j < index {
                j
            } else {
                j + 1
            };
            assert(k.procs[a] == after.procs[i]);
            assert(k.procs[b] == after.procs[j]);
        }
        assert forall|i: int| 0 <= i < after.procs.len() implies (#[trigger] after.procs[i]).key
            < after.next_key by {
            let a = if i < index {
                i
            } else {
                i + 1
            };
            assert(k.procs[a] == after.procs[i]);
        }
    }
}

/// Whether two kernels have the same processes with the same turns, whatever else they did.
pub open spec fn same_turns<F>(a: KernelView<F>, b: KernelView<F>) -> bool {
    &&& b.procs.len() == a.procs.len()
    &&& b.next_key == a.next_key
    &&& forall|i: int|
        0 <= i < a.procs.len() ==> (#[trigger] b.procs[i]).key == a.procs[i].key
            && b.procs[i].parked == a.procs[i].parked
}

proof fn lemma_same_turns<F>(a: KernelView<F>, b: KernelView<F>, key: u64)
    requires
        same_turns(a, b),
    ensures
        has_no_turn(a, key) ==> has_no_turn(b, key),
        keys_apart(a) ==> keys_apart(b),
{
    if has_no_turn(a, key) {
        assert forall|i: int| 0 <= i < b.procs.len() && (#[trigger] b.procs[i]).key
            == key implies b.procs[i].parked by {
            assert(a.procs[i].key == key);
        }
    }
    if keys_apart(a) {
        assert forall|i: int, j: int| 0 <= i < j < b.procs.len() implies (
        #[trigger] b.procs[i]).key != (#[trigger] b.procs[j]).key by {
            assert(a.procs[i].key != a.procs[j].key);
        }
        assert forall|i: int| 0 <= i < b.procs.len() implies (#[trigger] b.procs[i]).key
            < b.next_key by {
            assert(a.procs[i].key < a.next_key);
        }
    }
}

proof fn lemma_all_torn_down<V: Vfs>(
    k: KernelView<<V as VfsFile>::Handle>,
    fs: Seq<MountView<<V as VfsFile>::State>>,
    status: i32,
)
    ensures
        all_torn_down::<V>(k, fs, status).0.procs.len() == 0,
        all_torn_down::<V>(k, fs, status).0.next_key == k.next_key,
    decreases k.procs.len(),
{
    if k.procs.len() > 0 {
        let (next, f) = torn_down::<V>(k, fs, 0, status);
        lemma_all_torn_down::<V>(next, f, status);
    }
}

/// Deciding what to do next gives nobody a turn who had none.
pub proof fn law_picking_gives_no_turn<V: Vfs>(
    k: KernelView<<V as VfsFile>::Handle>,
    fs: Seq<MountView<<V as VfsFile>::State>>,
    pass: Pass,
    elapsed: Nanos,
    budget: Budget,
    key: u64,
)
    ensures
        ({
            let after = picked::<V>(k, fs, pass, elapsed, budget).0;
            &&& has_no_turn(k, key) ==> has_no_turn(after, key)
            &&& keys_apart(k) ==> keys_apart(after)
        }),
{
    let after = picked::<V>(k, fs, pass, elapsed, budget).0;
    lemma_all_torn_down::<V>(k, fs, signaled(SIGKILL));
    if same_turns(k, after) {
        lemma_same_turns(k, after, key);
    }
}

/// Nor does taking note of a step, of this process or another.
pub proof fn law_settling_gives_no_turn<V: Vfs>(
    k: KernelView<<V as VfsFile>::Handle>,
    fs: Seq<MountView<<V as VfsFile>::State>>,
    pass: Pass,
    step: ProcStep,
    key: u64,
)
    ensures
        ({
            let after = stepped::<V>(k, fs, pass, step).0;
            &&& has_no_turn(k, key) ==> has_no_turn(after, key)
            &&& keys_apart(k) ==> keys_apart(after)
        }),
{
    let after = stepped::<V>(k, fs, pass, step).0;
    let i = pass.index as int;
    if step is Ended {
        if i < k.procs.len() {
            lemma_removed(k, after, i, key);
        } else {
            lemma_same_turns(k, after, key);
        }
    } else {
        if keys_apart(k) {
            assert forall|a: int, b: int| 0 <= a < b < after.procs.len() implies (
            #[trigger] after.procs[a]).key != (#[trigger] after.procs[b]).key by {
                assert(k.procs[a].key != k.procs[b].key);
            }
            assert forall|a: int| 0 <= a < after.procs.len() implies (
            #[trigger] after.procs[a]).key < after.next_key by {
                assert(k.procs[a].key < k.next_key);
            }
        }
        if has_no_turn(k, key) {
            assert forall|a: int| 0 <= a < after.procs.len() && (#[trigger] after.procs[a]).key
                == key implies after.procs[a].parked by {
                assert(k.procs[a].key == key);
            }
        }
    }
}

/// Nor does anything a guest does in its turn: serving its calls, continuing it, or taking it
/// back.
pub proof fn law_a_guest_gives_no_turn<V: Vfs>(
    k: KernelView<<V as VfsFile>::Handle>,
    fs: Seq<MountView<<V as VfsFile>::State>>,
    mem: Seq<u8>,
    c: ClockView,
    index: int,
    w: World<<V as VfsFile>::State, <V as VfsFile>::Handle>,
    call: Call,
    previous: Option<u64>,
)
    requires
        0 <= index < k.procs.len(),
    ensures
        same_turns(k, with_world::<V>(k, w, index)),
        same_turns(k, resumed::<V>(k, fs, mem, c, index).0),
        same_turns(k, resumed_grown::<V>(k, fs, mem, index, call, previous).0),
        same_turns(k, k.with_proc(index, returned(k.procs[index], mem).0)),
{
}

/// Nor does a step of a host command, or its answer.
pub proof fn law_a_host_command_gives_no_turn<V: Vfs>(
    k: KernelView<<V as VfsFile>::Handle>,
    fs: Seq<MountView<<V as VfsFile>::State>>,
    realtime: u128,
    index: int,
    answer: Result<(i32, Seq<u8>, Seq<u8>), Errno>,
)
    requires
        0 <= index < k.procs.len(),
    ensures
        same_turns(k, host_stepped::<V>(k, fs, realtime, index).0),
        same_turns(k, host_answered(k, index, answer).0),
{
}

/// Two kernels with the same turns give the same processes none.
pub proof fn law_the_same_turns_are_the_same<F>(a: KernelView<F>, b: KernelView<F>, key: u64)
    requires
        same_turns(a, b),
    ensures
        has_no_turn(a, key) == has_no_turn(b, key),
        keys_apart(a) == keys_apart(b),
{
    lemma_same_turns(a, b, key);
    lemma_same_turns(b, a, key);
}

/// Nor does a process that starts, that cannot be started, or that is taken out to be replaced.
/// Keys do not run out as long as the next one is less than the greatest there is.
pub proof fn law_starting_gives_no_turn<V: Vfs>(
    k: KernelView<<V as VfsFile>::Handle>,
    fs: Seq<MountView<<V as VfsFile>::State>>,
    at: int,
    p: ProcView,
    task: TaskView,
    index: int,
    key: u64,
)
    requires
        0 <= at <= k.procs.len(),
        0 <= index < k.procs.len(),
        p.key == k.next_key,
        k.next_key < u64::MAX,
    ensures
        has_no_turn(k, key) ==> has_no_turn(installed(k, at, p), key),
        keys_apart(k) ==> keys_apart(installed(k, at, p)),
        has_no_turn(k, key) ==> has_no_turn(not_started::<V>(k, fs, task).0, key),
        keys_apart(k) ==> keys_apart(not_started::<V>(k, fs, task).0),
        has_no_turn(k, key) ==> has_no_turn(
            KernelView { procs: k.procs.remove(index), ..k.handed_out() },
            key,
        ),
        keys_apart(k) ==> keys_apart(
            KernelView { procs: k.procs.remove(index), ..k.handed_out() },
        ),
{
    let after = installed(k, at, p);
    lemma_same_turns(k, not_started::<V>(k, fs, task).0, key);
    lemma_removed(k, KernelView { procs: k.procs.remove(index), ..k.handed_out() }, index, key);
    if has_no_turn(k, key) {
        assert forall|i: int| 0 <= i < after.procs.len() && (#[trigger] after.procs[i]).key
            == key implies after.procs[i].parked by {
            if i < at {
                assert(k.procs[i] == after.procs[i]);
            } else if i > at {
                assert(k.procs[i - 1] == after.procs[i]);
            }
        }
    }
    if keys_apart(k) {
        assert forall|i: int| 0 <= i < after.procs.len() implies (#[trigger] after.procs[i]).key
            < after.next_key by {
            if i < at {
                assert(k.procs[i] == after.procs[i]);
            } else if i > at {
                assert(k.procs[i - 1] == after.procs[i]);
            }
        }
        assert forall|i: int, j: int| 0 <= i < j < after.procs.len() implies (
        #[trigger] after.procs[i]).key != (#[trigger] after.procs[j]).key by {
            if i < at {
                assert(k.procs[i] == after.procs[i]);
            } else if i > at {
                assert(k.procs[i - 1] == after.procs[i]);
            }
            if j < at {
                assert(k.procs[j] == after.procs[j]);
            } else if j > at {
                assert(k.procs[j - 1] == after.procs[j]);
            }
        }
    }
}

/// A slice that begins gives everybody a turn, and nothing outside is waited for.
pub proof fn law_a_slice_begins_afresh<F>(k: KernelView<F>)
    ensures
        !somebody_waits(k.unparked()),
        !k.unparked().shared.vfs_pending && !k.unparked().shared.host_pending,
        keys_apart(k) ==> keys_apart(k.unparked()),
{
    let after = k.unparked();
    if keys_apart(k) {
        assert forall|i: int, j: int| 0 <= i < j < after.procs.len() implies (
        #[trigger] after.procs[i]).key != (#[trigger] after.procs[j]).key by {
            assert(k.procs[i].key != k.procs[j].key);
        }
        assert forall|i: int| 0 <= i < after.procs.len() implies (#[trigger] after.procs[i]).key
            < after.next_key by {
            assert(k.procs[i].key < k.next_key);
        }
    }
}

// ---------------------------------------------------------------------------------------------
// what the caller is told

/// Whether what is pending is waited for by somebody.
pub open spec fn waits_are_real<F>(k: KernelView<F>) -> bool {
    k.shared.vfs_pending || k.shared.host_pending ==> somebody_waits(k)
}

/// The caller is told of a mount or a host command only where some process waits for one. What
/// was pending when a process was picked is kept for it meanwhile.
pub proof fn law_the_caller_is_told_of_real_waits<V: Vfs>(
    k: KernelView<<V as VfsFile>::Handle>,
    fs: Seq<MountView<<V as VfsFile>::State>>,
    pass: Pass,
    elapsed: Nanos,
    budget: Budget,
)
    requires
        k.procs.len() <= usize::MAX,
        waits_are_real(k),
    ensures
        ({
            let (after, _, p, pick) = picked::<V>(k, fs, pass, elapsed, budget);
            match pick {
                PickView::Guest(i) => p.index == i && !after.procs[i as int].parked && (
                p.vfs_before || p.host_before ==> somebody_waits(after)),
                PickView::Host(i) => p.index == i && !after.procs[i as int].parked && (
                p.vfs_before || p.host_before ==> somebody_waits(after)),
                PickView::Report(Slice::Finished(_)) => true,
                PickView::Report(Slice::Idle(Idle::Vfs)) => somebody_waits(k),
                PickView::Report(Slice::Idle(Idle::Host)) => somebody_waits(k),
                _ => waits_are_real(after),
            }
        }),
{
    lemma_next_unparked(k.procs, pass.index as int);
    lemma_next_unparked(k.procs, 0);
    let (after, _, p, pick) = picked::<V>(k, fs, pass, elapsed, budget);
    if somebody_waits(k) && after.procs == k.procs {
        let i = choose|i: int| 0 <= i < k.procs.len() && (#[trigger] k.procs[i]).parked;
        assert(after.procs[i].parked);
    }
}

proof fn lemma_released_pending<V: Vfs>(
    sh: SharedView<<V as VfsFile>::Handle>,
    fs: Seq<MountView<<V as VfsFile>::State>>,
    keys: Seq<u32>,
)
    ensures
        released_all::<V>(sh, fs, keys).0.vfs_pending == sh.vfs_pending,
        released_all::<V>(sh, fs, keys).0.host_pending == sh.host_pending,
    decreases keys.len(),
{
    if keys.len() > 0 {
        lemma_released_pending::<V>(sh, fs, keys.drop_last());
    }
}

proof fn lemma_children_pending<V: Vfs>(
    sh: SharedView<<V as VfsFile>::Handle>,
    fs: Seq<MountView<<V as VfsFile>::State>>,
    task: TaskView,
    stack: Seq<TaskView>,
)
    ensures
        children_ended::<V>(sh, fs, task, stack).0.vfs_pending == sh.vfs_pending,
        children_ended::<V>(sh, fs, task, stack).0.host_pending == sh.host_pending,
    decreases stack.len(),
{
    if stack.len() > 0 {
        let (s, f) = released_all::<V>(sh, fs, live_descs(task.fds));
        lemma_released_pending::<V>(sh, fs, live_descs(task.fds));
        lemma_children_pending::<V>(
            s.with_exit(task.pid, signaled(SIGKILL)),
            f,
            stack.last(),
            stack.drop_last(),
        );
    }
}

/// Tearing a process down leaves what is pending as it is.
proof fn lemma_tearing_asks_nothing<V: Vfs>(
    k: KernelView<<V as VfsFile>::Handle>,
    fs: Seq<MountView<<V as VfsFile>::State>>,
    index: int,
    status: i32,
)
    requires
        0 <= index < k.procs.len(),
    ensures
        ({
            let after = torn_down::<V>(k, fs, index, status).0;
            &&& after.shared.vfs_pending == k.shared.vfs_pending
            &&& after.shared.host_pending == k.shared.host_pending
        }),
{
    let p = k.procs[index];
    let start = k.shared.refunded(p.ctx.state.charged);
    lemma_children_pending::<V>(start, fs, p.ctx.task, p.ctx.vfork_stack);
    let (s1, f1, task) = children_ended::<V>(start, fs, p.ctx.task, p.ctx.vfork_stack);
    lemma_released_pending::<V>(s1, f1, live_descs(task.fds));
}

/// And that stays so after a step. The process that was picked was not waiting itself.
pub proof fn law_settling_keeps_waits_real<V: Vfs>(
    k: KernelView<<V as VfsFile>::Handle>,
    fs: Seq<MountView<<V as VfsFile>::State>>,
    pass: Pass,
    step: ProcStep,
)
    requires
        pass.vfs_before || pass.host_before ==> somebody_waits(k),
        step is Ended && pass.index < k.procs.len() ==> !k.procs[pass.index as int].parked,
    ensures
        waits_are_real(stepped::<V>(k, fs, pass, step).0),
{
    let after = stepped::<V>(k, fs, pass, step).0;
    let at = pass.index as int;
    if waits_outside(k, pass, step) {
        assert(after.procs[at].parked);
    } else if somebody_waits(k) {
        let i = choose|i: int| 0 <= i < k.procs.len() && (#[trigger] k.procs[i]).parked;
        if step is Ended && at < k.procs.len() {
            lemma_tearing_asks_nothing::<V>(
                k.with_pending(pass.vfs_before, pass.host_before),
                fs,
                at,
                step->Ended_0,
            );
            let j = if i < at {
                i
            } else {
                i - 1
            };
            assert(after.procs[j] == k.procs[i]);
        } else {
            assert(after.procs[i].parked);
        }
    } else if step is Ended && at < k.procs.len() {
        lemma_tearing_asks_nothing::<V>(
            k.with_pending(pass.vfs_before, pass.host_before),
            fs,
            at,
            step->Ended_0,
        );
    }
}

} // verus!
