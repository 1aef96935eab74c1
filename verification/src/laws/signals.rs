//! What the signal calls do to each signal: actions, masks, pending signals and delivery.
use super::plain::{double_in, lemma_patched_double, lemma_patched_word, word_in};
use crate::errno::Errno;
use crate::kernel::mem::{le32, le64, patched, stores};
use crate::kernel::state::{record_at, record_from, CtxView, SharedView};
use crate::kernel::task::{
    bit_of, deliverable, discarded, has_signal, law_raise_adds_one_signal,
    law_triage_splits_the_pending_signals, lemma_lowest, lemma_lowest_from, lowest_signal,
    RecordView, SigAction, TaskView,
};
use crate::syscall::base::{errno, Fault, Sys, World};
use crate::syscall::signal::{
    delivery_written, fetched, kill_spec, settled_ctx, sigaction_spec, sigpending_spec,
    sigprocmask_spec, sigsuspend_spec, swept, SignalDelivery,
};
use crate::syscall::table::{concluded, Outcome};
use vstd::prelude::*;

verus! {

// ---------------------------------------------------------------------------------------------
// sets and records

/// Whether signal `s` is in a set: bit `s` of the number says so.
pub open spec fn in_set(set: u64, s: i32) -> bool {
    (set >> (s as u64)) & 1u64 == 1u64
}

/// Whether record `i` is the one of process `pid`.
pub open spec fn is_record(table: Seq<RecordView>, pid: i32, i: int) -> bool {
    &&& 0 <= i < table.len()
    &&& table[i].pid == pid
    &&& forall|k: int| 0 <= k < i ==> (#[trigger] table[k]).pid != pid
}

/// Whether an action leaves its signal without effect: because it says so, or because it says
/// nothing and the signal is one of those that do nothing by themselves.
pub open spec fn without_effect(a: SigAction, s: i32) -> bool {
    a.handler == 1 || (a.handler == 0 && (17 <= s <= 23 || s == 28))
}

/// Whether a process with this mask and these actions is to act on pending signal `s` now.
pub open spec fn due(pending: u64, mask: u64, t: TaskView, s: i32) -> bool {
    &&& 0 < s < 64
    &&& in_set(pending, s)
    &&& !without_effect(t.action(s), s)
    &&& !in_set(mask, s) || s == 9 || s == 19
}

pub proof fn lemma_in_set(set: u64, s: i32)
    requires
        0 < s < 64,
    ensures
        has_signal(set, s) == in_set(set, s),
{
    let x = s as u64;
    assert((set & (1u64 << x) != 0) == ((set >> x) & 1u64 == 1u64)) by (bit_vector)
        requires
            0 < x < 64,
    ;
}

proof fn lemma_record_from(table: Seq<RecordView>, pid: i32, from: int, i: int)
    requires
        0 <= from <= i < table.len(),
        table[i].pid == pid,
        forall|k: int| from <= k < i ==> (#[trigger] table[k]).pid != pid,
    ensures
        record_from(table, pid, from) == Some(i),
    decreases i - from,
{
    if from < i {
        lemma_record_from(table, pid, from + 1, i);
    }
}

pub proof fn lemma_is_record(table: Seq<RecordView>, pid: i32, i: int)
    requires
        is_record(table, pid, i),
    ensures
        record_at(table, pid) == Some(i),
{
    lemma_record_from(table, pid, 0, i);
}

/// Nothing is in no signals, and taking none away changes nothing.
proof fn lemma_no_signals(s: i32, set: u64)
    ensures
        !has_signal(0, s),
        set & !0u64 == set,
{
    let b = bit_of(s);
    assert(0u64 & b == 0 && set & !0u64 == set) by (bit_vector);
}

/// What set operations do to each signal.
proof fn lemma_set_operations(a: u64, b: u64, s: i32)
    requires
        0 < s < 64,
    ensures
        in_set(a | b, s) == (in_set(a, s) || in_set(b, s)),
        in_set(a & !b, s) == (in_set(a, s) && !in_set(b, s)),
        in_set(a & !(bit_of(9) | bit_of(19)), s) == (in_set(a, s) && s != 9 && s != 19),
{
    let x = s as u64;
    assert(((((a | b) >> x) & 1u64 == 1u64) == ((a >> x) & 1u64 == 1u64 || (b >> x) & 1u64 == 1u64))
        && ((((a & !b) >> x) & 1u64 == 1u64) == ((a >> x) & 1u64 == 1u64 && (b >> x) & 1u64 != 1u64))
        && ((((a & !((1u64 << 9u64) | (1u64 << 19u64))) >> x) & 1u64 == 1u64) == ((a >> x) & 1u64
        == 1u64 && x != 9 && x != 19))) by (bit_vector)
        requires
            0 < x < 64,
    ;
}

// ---------------------------------------------------------------------------------------------
// masks

/// A successful `rt_sigprocmask` treats every signal by itself. To block adds the signals of
/// the set, to unblock takes them away, to set leaves exactly them; a signal that the set does
/// not name stays as it was, or for the last goes. The two signals that cannot be blocked are
/// never added. The mask from before is stored where the caller wants it.
pub proof fn law_sigprocmask_treats_each_signal(
    ctx: CtxView,
    mem: Seq<u8>,
    how: i32,
    set_at: u32,
    old_at: u32,
    given: u64,
    s: i32,
)
    requires
        0 < s < 64,
        set_at != 0,
        given == double_in(mem, set_at as int),
    ensures
        ({
            let (c, m, r) = sigprocmask_spec(ctx, mem, how, set_at, old_at);
            let named = in_set(given, s) && s != 9 && s != 19;
            let was = in_set(ctx.task.sigmask, s);
            let is = in_set(c.task.sigmask, s);
            &&& r is Ok ==> {
                &&& 0 <= how <= 2
                &&& how == 0 ==> is == (was || named)
                &&& how == 1 ==> is == (was && !named)
                &&& how == 2 ==> is == named
                &&& c == (CtxView {
                    task: TaskView { sigmask: c.task.sigmask, ..ctx.task },
                    ..ctx
                })
                &&& old_at != 0 ==> double_in(m, old_at as int) == ctx.task.sigmask
                &&& old_at == 0 ==> m == mem
            }
            &&& r is Ok <==> 0 <= how <= 2 && set_at + 8 <= mem.len() && (old_at == 0 || old_at + 8
                <= mem.len())
            &&& how < 0 || how > 2 ==> c == ctx && m == mem
        }),
{
    lemma_set_operations(given, 0, s);
    let set = given & !(bit_of(9) | bit_of(19));
    lemma_set_operations(ctx.task.sigmask, set, s);
    lemma_patched_double(mem, old_at as int, ctx.task.sigmask);
}

/// Asked without a set, `rt_sigprocmask` changes no mask and stores the one there is.
pub proof fn law_sigprocmask_without_a_set_only_asks(
    ctx: CtxView,
    mem: Seq<u8>,
    how: i32,
    old_at: u32,
)
    ensures
        ({
            let (c, m, r) = sigprocmask_spec(ctx, mem, how, 0, old_at);
            &&& c == ctx
            &&& r is Ok && old_at != 0 ==> double_in(m, old_at as int) == ctx.task.sigmask
        }),
{
    lemma_patched_double(mem, old_at as int, ctx.task.sigmask);
}

/// To block a set and to unblock it again leaves every signal of it unblocked and every other
/// as it was.
pub proof fn law_unblocking_undoes_blocking(
    ctx: CtxView,
    mem: Seq<u8>,
    set_at: u32,
    given: u64,
    s: i32,
)
    requires
        0 < s < 64,
        s != 9,
        s != 19,
        set_at != 0,
        set_at + 8 <= mem.len(),
        given == double_in(mem, set_at as int),
    ensures
        ({
            let c = sigprocmask_spec(ctx, mem, 0, set_at, 0).0;
            let d = sigprocmask_spec(c, mem, 1, set_at, 0).0;
            &&& in_set(given, s) ==> in_set(c.task.sigmask, s) && !in_set(d.task.sigmask, s)
            &&& !in_set(given, s) ==> in_set(c.task.sigmask, s) == in_set(ctx.task.sigmask, s)
                && in_set(d.task.sigmask, s) == in_set(ctx.task.sigmask, s)
        }),
{
    law_sigprocmask_treats_each_signal(ctx, mem, 0, set_at, 0, given, s);
    let c = sigprocmask_spec(ctx, mem, 0, set_at, 0).0;
    law_sigprocmask_treats_each_signal(c, mem, 1, set_at, 0, given, s);
}

/// `rt_sigsuspend` waits under the mask that stands at its address, is over once a signal that
/// this mask lets through is due, and leaves the mask from before to be put back; settling the
/// call puts it back.
pub proof fn law_sigsuspend_lends_a_mask<F>(
    sh: SharedView<F>,
    ctx: CtxView,
    mem: Seq<u8>,
    at: u32,
    i: int,
    s: i32,
)
    requires
        at + 8 <= mem.len(),
        is_record(sh.table, ctx.task.pid, i),
        ctx.state.mask_to_restore is None,
    ensures
        ({
            let (c, r) = sigsuspend_spec(sh, ctx, mem, at);
            &&& c.task.sigmask == double_in(mem, at as int)
            &&& due(sh.table[i].pending, c.task.sigmask, ctx.task, s) ==> r == errno::<i32>(
                Errno::INTR,
            )
            &&& r == errno::<i32>(Errno::INTR) || r == Sys::Err(Fault::Block)
            &&& settled_ctx(c).task == ctx.task
        }),
{
    lemma_is_record(sh.table, ctx.task.pid, i);
    let (c, r) = sigsuspend_spec(sh, ctx, mem, at);
    let pending = sh.table[i].pending;
    if due(pending, c.task.sigmask, ctx.task, s) {
        lemma_due(pending, c.task.sigmask, c.task, s);
        lemma_lowest(pending, c.task.sigmask, c.task);
        lemma_no_signals(s, 0);
    }
}

// ---------------------------------------------------------------------------------------------
// actions

/// `rt_sigaction` sets the action of one signal from the words at its address, stores the one
/// from before where the caller wants it, and leaves every other signal alone. It takes the
/// signals below 64 but those two whose action cannot be set.
pub proof fn law_sigaction_sets_one_action(
    ctx: CtxView,
    mem: Seq<u8>,
    signal: i32,
    action: u32,
    previous: u32,
    other: i32,
)
    requires
        ctx.task.wf(),
        previous + 20 <= mem.len() || previous == 0,
        previous + 20 <= u32::MAX,
        action + 16 <= mem.len() || action == 0,
        action + 16 <= u32::MAX,
    ensures
        ({
            let (c, m, r) = sigaction_spec(ctx, mem, signal, action, previous);
            let before = ctx.task.action(signal);
            let after = c.task.action(signal);
            &&& r is Ok <==> 0 < signal < 64 && (action == 0 || (signal != 9 && signal != 19))
            &&& r is Err ==> r == errno::<i32>(Errno::INVAL) && c == ctx
            &&& 0 < signal < 64 && previous != 0 ==> {
                &&& word_in(m, previous as int) == before.handler
                &&& word_in(m, previous + 4) == before.flags
                &&& double_in(m, previous + 8) == before.mask
            }
            &&& r is Ok && action == 0 ==> c == ctx
            &&& r is Ok && action != 0 ==> {
                &&& after.handler == word_in(m, action as int)
                &&& after.flags == word_in(m, action + 4)
                &&& after.mask == double_in(m, action + 8)
            }
            &&& other != signal ==> c.task.action(other) == ctx.task.action(other)
        }),
{
    if 0 < signal < 64 && previous != 0 {
        lemma_action_stored(mem, previous, ctx.task.action(signal));
    }
}

proof fn lemma_action_stored(mem: Seq<u8>, at: u32, a: SigAction)
    requires
        at + 20 <= mem.len(),
        at + 20 <= u32::MAX,
    ensures
        ({
            let (m, r) = stores(mem, crate::syscall::signal::action_stores(at, a));
            &&& r is Ok
            &&& m.len() == mem.len()
            &&& word_in(m, at as int) == a.handler
            &&& word_in(m, at + 4) == a.flags
            &&& double_in(m, at + 8) == a.mask
        }),
{
    let list = crate::syscall::signal::action_stores(at, a);
    let l1 = list.drop_first();
    let l2 = l1.drop_first();
    let l3 = l2.drop_first();
    let l4 = l3.drop_first();
    assert(le32(a.handler).len() == 4 && le32(a.flags).len() == 4 && le64(a.mask).len() == 8);
    let m1 = patched(mem, at as int, le32(a.handler));
    let m2 = patched(m1, at + 4, le32(a.flags));
    let m3 = patched(m2, at + 8, le64(a.mask));
    let m4 = patched(m3, at + 16, le32(0));
    assert(stores(m4, l4) == (m4, Ok::<(), Errno>(())));
    assert(stores(m3, l3) == (m4, Ok::<(), Errno>(())));
    assert(stores(m2, l2) == (m4, Ok::<(), Errno>(())));
    assert(stores(m1, l1) == (m4, Ok::<(), Errno>(())));
    lemma_patched_word(mem, at as int, a.handler);
    lemma_patched_word(m1, at + 4, a.flags);
    lemma_patched_double(m2, at + 8, a.mask);
    assert(word_in(m4, at as int) == word_in(m1, at as int));
    assert(word_in(m4, at + 4) == word_in(m2, at + 4));
    assert(word_in(m4, at + 8) == word_in(m3, at + 8));
    assert(word_in(m4, at + 12) == word_in(m3, at + 12));
}

// ---------------------------------------------------------------------------------------------
// pending signals

/// `rt_sigpending` stores the pending signals of the process that asks.
pub proof fn law_sigpending_tells_what_is_pending<F>(
    sh: SharedView<F>,
    ctx: CtxView,
    mem: Seq<u8>,
    at: u32,
    i: int,
)
    requires
        is_record(sh.table, ctx.task.pid, i),
        at + 8 <= mem.len(),
    ensures
        ({
            let (m, r) = sigpending_spec(sh, ctx, mem, at);
            r == Sys::Ok(0) && double_in(m, at as int) == sh.table[i].pending
        }),
{
    lemma_is_record(sh.table, ctx.task.pid, i);
    lemma_patched_double(mem, at as int, sh.table[i].pending);
}

/// Whom `kill` means: one process, the caller's group, everyone but the first process and the
/// caller, or a group. The last three mean the living.
pub open spec fn meant(r: RecordView, target: i32, me: i32, group: i32) -> bool {
    if target > 0 {
        r.pid == target
    } else {
        r.exit is None && if target == 0 {
            r.pgid == group
        } else if target == -1 {
            r.pid != 1 && r.pid != me
        } else {
            r.pgid == -target
        }
    }
}

/// `kill` makes its signal pending with those it means, ends their sleep, and changes nothing
/// else; signal 0 changes nothing at all. It fails where there is no such signal, and where it
/// means nobody.
pub proof fn law_kill_signals_whom_it_means<F>(
    sh: SharedView<F>,
    ctx: CtxView,
    target: i32,
    signal: i32,
    mine: int,
    i: int,
    s: i32,
)
    requires
        is_record(sh.table, ctx.task.pid, mine),
        target > i32::MIN,
        0 <= i < sh.table.len(),
        0 < s < 64,
    ensures
        ({
            let (after, r) = kill_spec(sh, ctx, target, signal);
            let group = sh.table[mine].pgid;
            let hit = meant(sh.table[i], target, ctx.task.pid, group);
            &&& signal < 0 || signal >= 64 ==> r == errno::<i32>(Errno::INVAL) && after == sh
            &&& 0 <= signal < 64 ==> {
                &&& hit ==> r == Sys::Ok(0)
                &&& r == Sys::Ok(0) || r == errno::<i32>(Errno::SRCH)
                &&& r == errno::<i32>(Errno::SRCH) <==> forall|k: int|
                    0 <= k < sh.table.len() ==> !meant(
                        #[trigger] sh.table[k],
                        target,
                        ctx.task.pid,
                        group,
                    )
                &&& after.table.len() == sh.table.len()
                &&& in_set(after.table[i].pending, s) == (in_set(sh.table[i].pending, s) || (hit
                    && s == signal))
                &&& after.table[i] == (RecordView {
                    pending: after.table[i].pending,
                    wake_at: if hit && signal != 0 {
                        None
                    } else {
                        sh.table[i].wake_at
                    },
                    ..sh.table[i]
                })
            }
        }),
{
    lemma_is_record(sh.table, ctx.task.pid, mine);
    lemma_in_set(sh.table[i].pending, s);
    if 0 < signal < 64 {
        law_raise_adds_one_signal(sh.table[i], signal, s);
        lemma_in_set(sh.table[i].raised(signal).pending, s);
    }
    let group = sh.table[mine].pgid;
    assert forall|k: int| 0 <= k < sh.table.len() implies meant(
        #[trigger] sh.table[k],
        target,
        ctx.task.pid,
        group,
    ) == crate::syscall::signal::is_hit(sh.table[k], target, ctx.task.pid, group) by {}
}

// ---------------------------------------------------------------------------------------------
// delivery

proof fn lemma_due(pending: u64, mask: u64, t: TaskView, s: i32)
    requires
        0 < s < 64,
    ensures
        has_signal(deliverable(pending, mask, t), s) == due(pending, mask, t, s),
        has_signal(discarded(pending, t), s) == (in_set(pending, s) && without_effect(
            t.action(s),
            s,
        )),
{
    law_triage_splits_the_pending_signals(pending, mask, t, s);
    lemma_in_set(pending, s);
    lemma_in_set(mask, s);
}

/// What is left pending once `discard` and then one signal have been taken.
proof fn lemma_taken(pending: u64, discard: u64, signal: i32, s: i32)
    requires
        0 < signal < 64,
        0 < s < 64,
    ensures
        in_set(pending & !discard, s) == (in_set(pending, s) && !in_set(discard, s)),
        in_set(pending & !discard & !bit_of(signal), s) == (in_set(pending, s) && !in_set(
            discard,
            s,
        ) && s != signal),
{
    lemma_set_operations(pending, discard, s);
    lemma_set_operations(pending & !discard, bit_of(signal), s);
    let x = s as u64;
    let y = signal as u64;
    assert((((1u64 << y) >> x) & 1u64 == 1u64) == (x == y)) by (bit_vector)
        requires
            0 < x < 64,
            0 < y < 64,
    ;
}

/// Taking a signal takes the lowest one that is due. Its number, its handler and the flags of
/// its action are stored for the handler to be run; where it has none the process dies of it,
/// and its wait status is the signal's number. Where none is due nothing happens. Signals
/// without effect are dropped on the way, and all others stay pending.
pub proof fn law_the_lowest_due_signal_is_taken<F>(
    sh: SharedView<F>,
    ctx: CtxView,
    mem: Seq<u8>,
    out: u32,
    i: int,
    s: i32,
)
    requires
        is_record(sh.table, ctx.task.pid, i),
        out + 20 <= mem.len(),
        out + 20 <= u32::MAX,
        0 < s < 64,
    ensures
        ({
            let (after, c, m, did) = fetched(sh, ctx, mem, out);
            let pending = sh.table[i].pending;
            let left = after.table[i].pending;
            let mask = ctx.task.sigmask;
            let kept = in_set(pending, s) && !without_effect(ctx.task.action(s), s);
            match did {
                SignalDelivery::Nothing => {
                    &&& !due(pending, mask, ctx.task, s)
                    &&& in_set(left, s) == kept
                    &&& c == ctx
                    &&& 0 < ctx.state.signal_flag && ctx.state.signal_flag + 4 <= mem.len()
                        ==> word_in(m, ctx.state.signal_flag as int) == 0
                },
                SignalDelivery::Handler => {
                    let taken = word_in(m, out as int);
                    let a = ctx.task.action(taken as i32);
                    &&& due(pending, mask, ctx.task, taken as i32)
                    &&& s < taken ==> !due(pending, mask, ctx.task, s)
                    &&& a.handler > 1
                    &&& word_in(m, out + 4) == a.handler
                    &&& word_in(m, out + 8) == a.flags
                    &&& in_set(left, s) == (kept && s != taken)
                    &&& s != taken ==> c.task.action(s) == ctx.task.action(s)
                    &&& c.task.action(taken as i32) == if a.flags >= 0x8000_0000 {
                        SigAction { handler: 0, flags: 0, mask: 0 }
                    } else {
                        a
                    }
                },
                SignalDelivery::Fatal(taken) => {
                    &&& due(pending, mask, ctx.task, taken)
                    &&& s < taken ==> !due(pending, mask, ctx.task, s)
                    &&& ctx.task.action(taken).handler == 0
                    &&& in_set(left, s) == (kept && s != taken)
                    &&& c == ctx
                },
            }
        }),
{
    lemma_is_record(sh.table, ctx.task.pid, i);
    let pending = sh.table[i].pending;
    let mask = ctx.task.sigmask;
    let live = deliverable(pending, mask, ctx.task);
    let discard = discarded(pending, ctx.task);
    let low = lowest_signal(live, 1);
    lemma_lowest(pending, mask, ctx.task);
    lemma_lowest_from(live, 1);
    lemma_due(pending, mask, ctx.task, s);
    lemma_in_set(discard, s);
    lemma_no_signals(s, pending);
    let table = swept(sh.table, ctx.task.pid, discard);
    assert(is_record(table, ctx.task.pid, i)) by {
        assert forall|k: int| 0 <= k < i implies (#[trigger] table[k]).pid != ctx.task.pid by {
            assert(sh.table[k].pid != ctx.task.pid);
        }
    }
    lemma_is_record(table, ctx.task.pid, i);
    assert(table[i].pending == pending & !discard);
    if live != 0 {
        let signal = low as i32;
        lemma_due(pending, mask, ctx.task, signal);
        lemma_taken(pending, discard, signal, s);
        if s < low {
            assert(!has_signal(live, s));
        }
        let a = ctx.task.action(signal);
        let flags = a.flags;
        assert((flags & 0x8000_0000u32 != 0) == (flags >= 0x8000_0000u32)) by (bit_vector);
        if a.handler != 0 {
            lemma_delivery(mem, out, signal, a);
        }
    } else {
        lemma_taken(pending, discard, 1, s);
        lemma_patched_word(mem, ctx.state.signal_flag as int, 0);
    }
}

#[verifier::rlimit(40)]
proof fn lemma_delivery(mem: Seq<u8>, out: u32, signal: i32, a: SigAction)
    requires
        out + 20 <= mem.len(),
        out + 20 <= u32::MAX,
        0 < signal < 64,
    ensures
        word_in(delivery_written(mem, out, signal, a), out as int) == signal,
        word_in(delivery_written(mem, out, signal, a), out + 4) == a.handler,
        word_in(delivery_written(mem, out, signal, a), out + 8) == a.flags,
{
    let m0 = patched(mem, out as int, le32(signal as u32));
    let m1 = patched(m0, out + 4, le32(a.handler));
    let m2 = patched(m1, out + 8, le32(a.flags));
    let m3 = patched(m2, out + 12, le32(0));
    let m4 = patched(m3, out + 16, le32(0));
    lemma_patched_word(mem, out as int, signal as u32);
    lemma_patched_word(m0, out + 4, a.handler);
    lemma_patched_word(m1, out + 8, a.flags);
    lemma_patched_word(m2, out + 12, 0);
    assert(delivery_written(mem, out, signal, a) == m4);
    assert(word_in(m4, out as int) == word_in(m0, out as int));
    assert(word_in(m4, out + 4) == word_in(m1, out + 4));
    assert(word_in(m4, out + 8) == word_in(m2, out + 8));
}

// ---------------------------------------------------------------------------------------------
// being told

/// Something is due exactly when the kernel finds something to deliver.
proof fn lemma_some_due(pending: u64, mask: u64, t: TaskView)
    ensures
        deliverable(pending, mask, t) != 0 <==> exists|s: i32| #[trigger] due(pending, mask, t, s),
{
    let live = deliverable(pending, mask, t);
    let low = lowest_signal(live, 1);
    lemma_lowest(pending, mask, t);
    lemma_lowest_from(live, 1);
    if live != 0 {
        lemma_due(pending, mask, t, low as i32);
        assert(due(pending, mask, t, low as i32));
    }
    assert forall|s: i32| #[trigger] due(pending, mask, t, s) implies live != 0 by {
        lemma_due(pending, mask, t, s);
        lemma_no_signals(s, 0);
    }
}

/// A wait is over with `EINTR` exactly when a signal is due, and goes on otherwise.
pub proof fn law_a_due_signal_ends_a_wait<S, F>(w: World<S, F>, i: int)
    requires
        is_record(w.sh.table, w.ctx.task.pid, i),
    ensures
        ({
            let o = concluded(w, Sys::Err(Fault::Block)).1;
            let any = exists|s: i32| #[trigger]
                due(w.sh.table[i].pending, w.ctx.task.sigmask, w.ctx.task, s);
            &&& any ==> o == Outcome::Value((-4int) as i32)
            &&& !any ==> o == Outcome::Blocked
        }),
{
    lemma_is_record(w.sh.table, w.ctx.task.pid, i);
    lemma_some_due(w.sh.table[i].pending, w.ctx.task.sigmask, w.ctx.task);
}

/// With every answer a guest is told in the word it named whether a signal is due, under the
/// mask that is in force again.
pub proof fn law_a_guest_is_told_of_due_signals<S, F>(w: World<S, F>, v: i32, i: int)
    requires
        is_record(w.sh.table, w.ctx.task.pid, i),
        w.ctx.state.signal_flag != 0,
        w.ctx.state.signal_flag + 4 <= w.mem.len(),
    ensures
        ({
            let (after, o) = concluded(w, Sys::Ok(v));
            let t = after.ctx.task;
            let any = exists|s: i32| #[trigger] due(w.sh.table[i].pending, t.sigmask, t, s);
            &&& o == Outcome::Value(v)
            &&& word_in(after.mem, w.ctx.state.signal_flag as int) == if any {
                1int
            } else {
                0int
            }
            &&& w.ctx.state.mask_to_restore matches Some(mask) ==> t.sigmask == mask
            &&& w.ctx.state.mask_to_restore is None ==> t == w.ctx.task
        }),
{
    let t = settled_ctx(w.ctx).task;
    lemma_is_record(w.sh.table, w.ctx.task.pid, i);
    lemma_some_due(w.sh.table[i].pending, t.sigmask, t);
    lemma_patched_word(w.mem, w.ctx.state.signal_flag as int, 1);
    lemma_patched_word(w.mem, w.ctx.state.signal_flag as int, 0);
}

} // verus!
