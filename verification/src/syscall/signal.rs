//! Signals: actions, masks, sending, and what `sigfetch` hands to the guest.
use super::base::{errno, Fault, Sys};
use crate::abi::{SA_RESETHAND, SIGKILL, SIGSTOP, SIG_BLOCK, SIG_DFL, SIG_SETMASK, SIG_UNBLOCK};
use crate::errno::Errno;
use crate::kernel::mem::{
    le32, le64, load32, load64, put_u32, put_u64, read_u32, read_u64, store, stores, word, word_of,
    wrap, wrapped,
};
use crate::kernel::state::{
    group_of, pending_of, with_wake, without_signals, Ctx, CtxView, ExecView, Shared, SharedView,
};
use crate::kernel::task::{
    bit, bit_of, default_action, deliverable, discarded, first_signal, lemma_lowest, lowest_signal,
    signaled, status_signaled, triage, RecordView, SigAction, TaskView, NSIG,
};
use vstd::prelude::*;

verus! {

/// The stores that write an action at `at`.
pub open spec fn action_stores(at: u32, a: SigAction) -> Seq<(int, Seq<u8>)> {
    seq![
        (at as int, le32(a.handler)),
        (wrapped(at, 4) as int, le32(a.flags)),
        (wrapped(at, 8) as int, le64(a.mask)),
        (wrapped(at, 16) as int, le32(0)),
    ]
}

/// The action the guest put at `at`.
pub open spec fn action_at(mem: Seq<u8>, at: u32) -> Result<SigAction, Errno> {
    match load32(mem, at as int) {
        Err(e) => Err(e),
        Ok(handler) => match load32(mem, wrapped(at, 4) as int) {
            Err(e) => Err(e),
            Ok(flags) => match load64(mem, wrapped(at, 8) as int) {
                Err(e) => Err(e),
                Ok(mask) => Ok(SigAction { handler, flags, mask }),
            },
        },
    }
}

fn put_action(mem: &mut [u8], at: u32, a: SigAction) -> (r: Result<(), Errno>)
    ensures
        (final(mem)@, r) == stores(old(mem)@, action_stores(at, a)),
{
    proof {
        reveal_with_fuel(stores, 5);
    }
    match put_u32(mem, at, a.handler) {
        Ok(()) => {},
        Err(e) => return Err(e),
    }
    match put_u32(mem, wrap(at, 4), a.flags) {
        Ok(()) => {},
        Err(e) => return Err(e),
    }
    match put_u64(mem, wrap(at, 8), a.mask) {
        Ok(()) => {},
        Err(e) => return Err(e),
    }
    put_u32(mem, wrap(at, 16), 0)
}

fn read_action(mem: &[u8], at: u32) -> (r: Result<SigAction, Errno>)
    ensures
        r == action_at(mem@, at),
{
    let handler: u32 = match read_u32(mem, at) {
        Ok(v) => v,
        Err(e) => return Err(e),
    };
    let flags: u32 = match read_u32(mem, wrap(at, 4)) {
        Ok(v) => v,
        Err(e) => return Err(e),
    };
    match read_u64(mem, wrap(at, 8)) {
        Ok(mask) => Ok(SigAction { handler, flags, mask }),
        Err(e) => Err(e),
    }
}

/// `rt_sigaction`: hand out the old action, then take the new one. `SIGKILL` and `SIGSTOP`
/// keep theirs.
pub open spec fn sigaction_spec(
    ctx: CtxView,
    mem: Seq<u8>,
    signal: i32,
    action: u32,
    previous: u32,
) -> (CtxView, Seq<u8>, Sys) {
    if signal <= 0 || signal >= NSIG {
        (ctx, mem, errno(Errno::INVAL))
    } else {
        let (m, done) = if previous != 0 {
            stores(mem, action_stores(previous, ctx.task.action(signal)))
        } else {
            (mem, Ok(()))
        };
        match done {
            Err(e) => (ctx, m, errno(e)),
            Ok(()) => if action == 0 {
                (ctx, m, Ok(0))
            } else if signal == SIGKILL || signal == SIGSTOP {
                (ctx, m, errno(Errno::INVAL))
            } else {
                match action_at(m, action) {
                    Err(e) => (ctx, m, errno(e)),
                    Ok(a) => (
                        CtxView { task: ctx.task.with_action(signal, a), ..ctx },
                        m,
                        Ok(0),
                    ),
                }
            },
        }
    }
}

pub fn sys_sigaction(ctx: &mut Ctx, mem: &mut [u8], signal: i32, action: u32, previous: u32) -> (r:
    Sys)
    ensures
        sigaction_spec(old(ctx)@, old(mem)@, signal, action, previous) == (
            final(ctx)@,
            final(mem)@,
            r,
        ),
{
    if signal <= 0 || signal as usize >= NSIG {
        return Err(Fault::Errno(Errno::INVAL));
    }
    if previous != 0 {
        match put_action(mem, previous, ctx.task.action(signal)) {
            Ok(()) => {},
            Err(e) => return Err(Fault::Errno(e)),
        }
    }
    if action != 0 {
        if signal == SIGKILL || signal == SIGSTOP {
            return Err(Fault::Errno(Errno::INVAL));
        }
        match read_action(mem, action) {
            Ok(a) => {
                ctx.task.set_action(signal, a);
            },
            Err(e) => return Err(Fault::Errno(e)),
        }
    }
    Ok(0)
}

/// The process with another signal mask.
pub open spec fn with_mask(ctx: CtxView, mask: u64) -> CtxView {
    CtxView { task: TaskView { sigmask: mask, ..ctx.task }, ..ctx }
}

/// The mask that `how` makes of the old one and a set. `SIGKILL` and `SIGSTOP` cannot be
/// blocked.
pub open spec fn new_mask(how: i32, old_mask: u64, given: u64) -> Option<u64> {
    let set = given & !(bit_of(SIGKILL) | bit_of(SIGSTOP));
    if how == SIG_BLOCK {
        Some(old_mask | set)
    } else if how == SIG_UNBLOCK {
        Some(old_mask & !set)
    } else if how == SIG_SETMASK {
        Some(set)
    } else {
        None
    }
}

/// `rt_sigprocmask`.
pub open spec fn sigprocmask_spec(
    ctx: CtxView,
    mem: Seq<u8>,
    how: i32,
    set_at: u32,
    old_at: u32,
) -> (CtxView, Seq<u8>, Sys) {
    let previous = ctx.task.sigmask;
    let changed = if set_at == 0 {
        Ok(ctx)
    } else {
        match load64(mem, set_at as int) {
            Err(e) => Err(e),
            Ok(given) => match new_mask(how, previous, given) {
                None => Err(Errno::INVAL),
                Some(mask) => Ok(with_mask(ctx, mask)),
            },
        }
    };
    match changed {
        Err(e) => (ctx, mem, errno(e)),
        Ok(c) => if old_at == 0 {
            (c, mem, Ok(0))
        } else {
            match store(mem, old_at as int, le64(previous)) {
                (m, Err(e)) => (c, m, errno(e)),
                (m, Ok(())) => (c, m, Ok(0)),
            }
        },
    }
}

pub fn sys_sigprocmask(ctx: &mut Ctx, mem: &mut [u8], how: i32, set_at: u32, old_at: u32) -> (r:
    Sys)
    ensures
        sigprocmask_spec(old(ctx)@, old(mem)@, how, set_at, old_at) == (
            final(ctx)@,
            final(mem)@,
            r,
        ),
{
    let previous: u64 = ctx.task.sigmask;
    if set_at != 0 {
        let given: u64 = match read_u64(mem, set_at) {
            Ok(given) => given,
            Err(e) => return Err(Fault::Errno(e)),
        };
        let set: u64 = given & !(bit(SIGKILL) | bit(SIGSTOP));
        ctx.task.sigmask = match how {
            SIG_BLOCK => previous | set,
            SIG_UNBLOCK => previous & !set,
            SIG_SETMASK => set,
            _ => return Err(Fault::Errno(Errno::INVAL)),
        };
    }
    if old_at != 0 {
        match put_u64(mem, old_at, previous) {
            Ok(()) => {},
            Err(e) => return Err(Fault::Errno(e)),
        }
    }
    Ok(0)
}

/// `rt_sigpending`.
pub open spec fn sigpending_spec<F>(sh: SharedView<F>, ctx: CtxView, mem: Seq<u8>, at: u32) -> (
    Seq<u8>,
    Sys,
) {
    match store(mem, at as int, le64(pending_of(sh.table, ctx.task.pid))) {
        (m, Err(e)) => (m, errno(e)),
        (m, Ok(())) => (m, Ok(0)),
    }
}

pub fn sys_sigpending<F>(sh: &Shared<F>, ctx: &Ctx, mem: &mut [u8], at: u32) -> (r: Sys)
    ensures
        sigpending_spec(sh@, ctx@, old(mem)@, at) == (final(mem)@, r),
{
    let pending: u64 = sh.pending(ctx.task.pid);
    match put_u64(mem, at, pending) {
        Ok(()) => Ok(0),
        Err(e) => Err(Fault::Errno(e)),
    }
}

/// The signals that would be delivered to a process now.
pub open spec fn live_signals<F>(sh: SharedView<F>, ctx: CtxView) -> u64 {
    deliverable(pending_of(sh.table, ctx.task.pid), ctx.task.sigmask, ctx.task)
}

/// Whether a blocked call should give up with `EINTR`.
///
/// Any deliverable signal ends the wait, `SA_RESTART` included. Linux would restart the call
/// itself after running the handler; nothing here can, because the handler runs in the guest
/// on the way out of the syscall.
pub fn interrupted<F>(sh: &Shared<F>, ctx: &Ctx) -> (r: bool)
    ensures
        r == (live_signals(sh@, ctx@) != 0),
{
    let pending: u64 = sh.pending(ctx.task.pid);
    let (live, _): (u64, u64) = triage(pending, ctx.task.sigmask, &ctx.task);
    live != 0
}

/// `rt_sigsuspend`: the temporary mask is installed once and stays until the call returns,
/// because it is what decides which signal may wake the process.
pub open spec fn sigsuspend_spec<F>(sh: SharedView<F>, ctx: CtxView, mem: Seq<u8>, at: u32) -> (
    CtxView,
    Sys,
) {
    match load64(mem, at as int) {
        Err(e) => (ctx, errno(e)),
        Ok(mask) => {
            let c = CtxView {
                state: ExecView {
                    mask_to_restore: if ctx.state.mask_to_restore is None {
                        Some(ctx.task.sigmask)
                    } else {
                        ctx.state.mask_to_restore
                    },
                    ..ctx.state
                },
                ..with_mask(ctx, mask)
            };
            if live_signals(sh, c) != 0 {
                (c, errno(Errno::INTR))
            } else {
                (c, Err(Fault::Block))
            }
        },
    }
}

pub fn sys_sigsuspend<F>(sh: &Shared<F>, ctx: &mut Ctx, mem: &[u8], at: u32) -> (r: Sys)
    ensures
        sigsuspend_spec(sh@, old(ctx)@, mem@, at) == (final(ctx)@, r),
{
    let mask: u64 = match read_u64(mem, at) {
        Ok(mask) => mask,
        Err(e) => return Err(Fault::Errno(e)),
    };
    if ctx.state.mask_to_restore.is_none() {
        ctx.state.mask_to_restore = Some(ctx.task.sigmask);
    }
    ctx.task.sigmask = mask;
    if interrupted(sh, ctx) {
        Err(Fault::Errno(Errno::INTR))
    } else {
        Err(Fault::Block)
    }
}

// ---------------------------------------------------------------------------------------------
// sending

/// Whether `kill` reaches a process.
pub open spec fn is_hit(r: RecordView, target: i32, me: i32, my_group: i32) -> bool {
    if target > 0 {
        r.pid == target
    } else if target == 0 {
        r.pgid == my_group && r.alive()
    } else if target == -1 {
        r.pid != 1 && r.pid != me && r.alive()
    } else {
        r.pgid == super::process::negated(target) && r.alive()
    }
}

/// A record after `kill`: the signal is pending and a sleep is over. Signal zero only asks.
pub open spec fn after_kill(
    r: RecordView,
    target: i32,
    me: i32,
    my_group: i32,
    signal: i32,
) -> RecordView {
    if is_hit(r, target, me, my_group) && signal != 0 {
        RecordView { wake_at: None, ..r.raised(signal) }
    } else {
        r
    }
}

/// `kill`: every process the target names.
pub open spec fn kill_spec<F>(sh: SharedView<F>, ctx: CtxView, target: i32, signal: i32) -> (
    SharedView<F>,
    Sys,
) {
    let me = ctx.task.pid;
    let my_group = group_of(sh.table, me);
    if signal < 0 || signal >= NSIG {
        (sh, errno(Errno::INVAL))
    } else {
        let s = SharedView {
            table: sh.table.map_values(
                |r: RecordView| after_kill(r, target, me, my_group, signal),
            ),
            ..sh
        };
        if exists|i: int|
            0 <= i < sh.table.len() && is_hit(#[trigger] sh.table[i], target, me, my_group) {
            (s, Ok(0))
        } else {
            (s, errno(Errno::SRCH))
        }
    }
}

pub fn send_signal<F>(sh: &mut Shared<F>, ctx: &Ctx, target: i32, signal: i32) -> (r: Sys)
    ensures
        kill_spec(old(sh)@, ctx@, target, signal) == (final(sh)@, r),
{
    if signal < 0 || signal as usize >= NSIG {
        return Err(Fault::Errno(Errno::INVAL));
    }
    let me: i32 = ctx.task.pid;
    let my_group: i32 = sh.group(me);
    let ghost before = sh@;
    let ghost after = before.table.map_values(
        |r: RecordView| after_kill(r, target, me, my_group, signal),
    );
    let mut delivered = false;
    let mut i: usize = 0;
    while i < sh.table.len()
        invariant
            i <= sh.table@.len(),
            before == old(sh)@,
            me == ctx@.task.pid,
            my_group == group_of(before.table, me),
            after == before.table.map_values(
                |r: RecordView| after_kill(r, target, me, my_group, signal),
            ),
            sh@ == (SharedView { table: sh@.table, ..before }),
            sh@.table.len() == before.table.len(),
            0 <= signal < NSIG,
            delivered == exists|j: int|
                0 <= j < i && is_hit(#[trigger] before.table[j], target, me, my_group),
            forall|j: int| 0 <= j < i ==> sh@.table[j] == #[trigger] after[j],
            forall|j: int| i <= j < before.table.len() ==> #[trigger] sh@.table[j]
                == before.table[j],
        decreases sh.table@.len() - i,
    {
        let ghost now = sh@.table;
        assert(now[i as int] == sh.table@[i as int]@);
        assert(now[i as int] == before.table[i as int]);
        let record = &sh.table[i];
        let hit = if target > 0 {
            record.pid == target
        } else if target == 0 {
            record.pgid == my_group && record.is_alive()
        } else if target == -1 {
            record.pid != 1 && record.pid != me && record.is_alive()
        } else if target == i32::MIN {
            record.pgid == target && record.is_alive()
        } else {
            record.pgid == -target && record.is_alive()
        };
        if hit {
            delivered = true;
            if signal != 0 {
                sh.table[i].raise(signal);
                sh.table[i].wake_at = None;
            }
        }
        assert(sh@.table =~= now.update(i as int, after[i as int]));
        i = i + 1;
    }
    assert(sh@.table =~= after);
    if delivered {
        Ok(0)
    } else {
        Err(Fault::Errno(Errno::SRCH))
    }
}

// ---------------------------------------------------------------------------------------------
// delivery

/// What `sigfetch` should tell the guest.
#[derive(Clone, Copy, PartialEq, Eq, Debug, Structural)]
pub enum SignalDelivery {
    /// Nothing to do.
    Nothing,
    /// The buffer has been filled; run the handler.
    Handler,
    /// The default action is to die, with this wait status.
    Fatal(i32),
}

/// The layout musl's delivery stub reads: signal, handler, flags, `si_code`, `si_pid`. A word
/// that cannot be written is left out.
pub open spec fn delivery_written(mem: Seq<u8>, out: u32, signal: i32, a: SigAction) -> Seq<u8> {
    let m0 = store(mem, out as int, le32(word_of(signal))).0;
    let m1 = store(m0, wrapped(out, 4) as int, le32(a.handler)).0;
    let m2 = store(m1, wrapped(out, 8) as int, le32(a.flags)).0;
    let m3 = store(m2, wrapped(out, 12) as int, le32(0)).0;
    store(m3, wrapped(out, 16) as int, le32(0)).0
}

/// The guest's memory with its pending-signal flag set or cleared, if it has told where that
/// is.
pub open spec fn flag_written(mem: Seq<u8>, flag: u32, on: bool) -> Seq<u8> {
    if flag == 0 {
        mem
    } else {
        store(
            mem,
            flag as int,
            le32(
                if on {
                    1
                } else {
                    0
                },
            ),
        ).0
    }
}

/// The table once the ignored signals of a process are dropped.
pub open spec fn swept(table: Seq<RecordView>, pid: i32, discard: u64) -> Seq<RecordView> {
    if discard != 0 {
        without_signals(table, pid, discard)
    } else {
        table
    }
}

/// Taking the next deliverable signal: ignored ones are dropped, and of the rest the lowest
/// number goes first.
pub open spec fn fetched<F>(sh: SharedView<F>, ctx: CtxView, mem: Seq<u8>, out: u32) -> (
    SharedView<F>,
    CtxView,
    Seq<u8>,
    SignalDelivery,
) {
    let pid = ctx.task.pid;
    let pending = pending_of(sh.table, pid);
    let live = deliverable(pending, ctx.task.sigmask, ctx.task);
    let table = swept(sh.table, pid, discarded(pending, ctx.task));
    if live == 0 {
        (
            SharedView { table, ..sh },
            ctx,
            flag_written(mem, ctx.state.signal_flag, false),
            SignalDelivery::Nothing,
        )
    } else {
        let signal = lowest_signal(live, 1) as i32;
        let s = SharedView { table: without_signals(table, pid, bit_of(signal)), ..sh };
        let action = ctx.task.action(signal);
        if action.handler == SIG_DFL {
            (s, ctx, mem, SignalDelivery::Fatal(signaled(signal)))
        } else {
            (
                s,
                if action.flags & SA_RESETHAND != 0 {
                    CtxView { task: ctx.task.with_action(signal, default_action()), ..ctx }
                } else {
                    ctx
                },
                delivery_written(mem, out, signal, action),
                SignalDelivery::Handler,
            )
        }
    }
}

/// Take the next deliverable signal, if any, and describe it to the guest.
pub fn next_signal<F>(sh: &mut Shared<F>, ctx: &mut Ctx, mem: &mut [u8], out: u32) -> (r:
    SignalDelivery)
    ensures
        fetched(old(sh)@, old(ctx)@, old(mem)@, out) == (
            final(sh)@,
            final(ctx)@,
            final(mem)@,
            r,
        ),
{
    let pid: i32 = ctx.task.pid;
    let pending: u64 = sh.pending(pid);
    let (live, discard): (u64, u64) = triage(pending, ctx.task.sigmask, &ctx.task);
    if discard != 0 {
        sh.lower(pid, discard);
    }
    proof {
        lemma_lowest(pending, ctx@.task.sigmask, ctx@.task);
    }
    let signal: i32 = match first_signal(live) {
        Some(signal) => signal,
        None => {
            let flag: u32 = ctx.state.signal_flag;
            if flag != 0 {
                let _ = put_u32(mem, flag, 0);
            }
            return SignalDelivery::Nothing;
        },
    };
    sh.lower(pid, bit(signal));
    let action: SigAction = ctx.task.action(signal);
    if action.handler == SIG_DFL {
        return SignalDelivery::Fatal(status_signaled(signal));
    }
    if action.flags & SA_RESETHAND != 0 {
        ctx.task.set_action(signal, SigAction { handler: SIG_DFL, flags: 0, mask: 0 });
    }
    let _ = put_u32(mem, out, word(signal));
    let _ = put_u32(mem, wrap(out, 4), action.handler);
    let _ = put_u32(mem, wrap(out, 8), action.flags);
    let _ = put_u32(mem, wrap(out, 12), 0);
    let _ = put_u32(mem, wrap(out, 16), 0);
    SignalDelivery::Handler
}

/// Tell musl whether a signal is waiting, so that it calls `sigfetch` on the way out of the
/// syscall.
pub fn raise_signal_flag<F>(sh: &Shared<F>, ctx: &Ctx, mem: &mut [u8])
    ensures
        final(mem)@ == flag_written(
            old(mem)@,
            ctx@.state.signal_flag,
            live_signals(sh@, ctx@) != 0,
        ),
{
    let flag: u32 = ctx.state.signal_flag;
    if flag == 0 {
        return ;
    }
    let live = interrupted(sh, ctx);
    let _ = put_u32(
        mem,
        flag,
        if live {
            1
        } else {
            0
        },
    );
}

/// The process once a syscall is no longer outstanding: what it kept across retries is dropped
/// and a temporary signal mask put back.
pub open spec fn settled_ctx(ctx: CtxView) -> CtxView {
    let c = CtxView {
        state: ExecView { deadline: None, mask_to_restore: None, put_back: None, ..ctx.state },
        ..ctx
    };
    match ctx.state.mask_to_restore {
        Some(mask) => with_mask(c, mask),
        None => c,
    }
}

/// A syscall is no longer outstanding: the process neither sleeps nor waits for a mount, what it
/// kept across retries is dropped, a temporary signal mask put back, and the guest told whether
/// a signal is waiting.
pub fn finish<F>(sh: &mut Shared<F>, ctx: &mut Ctx, mem: &mut [u8])
    ensures
        final(sh)@ == (SharedView {
            table: with_wake(old(sh)@.table, old(ctx)@.task.pid, None),
            vfs_pending: false,
            ..old(sh)@
        }),
        final(ctx)@ == settled_ctx(old(ctx)@),
        final(mem)@ == flag_written(
            old(mem)@,
            old(ctx)@.state.signal_flag,
            live_signals(old(sh)@, settled_ctx(old(ctx)@)) != 0,
        ),
{
    ctx.state.deadline = None;
    ctx.state.put_back = None;
    match ctx.state.mask_to_restore {
        Some(mask) => {
            ctx.task.sigmask = mask;
            ctx.state.mask_to_restore = None;
        },
        None => {},
    }
    raise_signal_flag(sh, ctx, mem);
    sh.set_wake(ctx.task.pid, None);
    sh.vfs_pending = false;
}

} // verus!
