//! Clocks and sleeping.
use super::base::{errno, Fault, Sys};
use crate::abi::{
    CLOCK_BOOTTIME, CLOCK_MONOTONIC, CLOCK_PROCESS_CPUTIME_ID, CLOCK_REALTIME,
    CLOCK_THREAD_CPUTIME_ID,
};
use crate::errno::Errno;
use crate::kernel::mem::{
    le32, put_timespec, put_u32, stores, timespec, timespec_at, timespec_stores, wrap, wrapped,
    Nanos, SECOND,
};
use crate::kernel::state::{with_wake, Clock, Ctx, CtxView, ExecView, Shared, SharedView};
use vstd::prelude::*;

verus! {

/// The last moment a deadline can name, counted from the start of the session.
pub const LAST_MOMENT: Nanos = 9_223_372_036_854_775_807_999_999_999;

/// What a clock shows. Every clock but the real one counts from the start of the session.
pub open spec fn clock_value(id: i32, elapsed: Nanos, realtime: Nanos) -> Option<Nanos> {
    if id == CLOCK_REALTIME {
        Some(realtime)
    } else if id == CLOCK_MONOTONIC || id == CLOCK_BOOTTIME || id == CLOCK_PROCESS_CPUTIME_ID || id
        == CLOCK_THREAD_CPUTIME_ID {
        Some(elapsed)
    } else {
        None
    }
}

/// `clock_gettime`.
pub open spec fn gettime_spec(mem: Seq<u8>, elapsed: Nanos, realtime: Nanos, id: i32, at: u32) -> (
    Seq<u8>,
    Sys,
) {
    match clock_value(id, elapsed, realtime) {
        None => (mem, errno(Errno::INVAL)),
        Some(value) => match stores(mem, timespec_stores(at as int, value)) {
            (m, Err(e)) => (m, errno(e)),
            (m, Ok(())) => (m, Ok(0)),
        },
    }
}

pub fn sys_gettime(mem: &mut [u8], clock: &Clock, id: i32, at: u32) -> (r: Sys)
    requires
        clock.wf(),
    ensures
        gettime_spec(old(mem)@, clock.elapsed, clock.realtime, id, at) == (final(mem)@, r),
{
    let value: Nanos = match id {
        CLOCK_REALTIME => clock.realtime,
        CLOCK_MONOTONIC
        | CLOCK_BOOTTIME
        | CLOCK_PROCESS_CPUTIME_ID
        | CLOCK_THREAD_CPUTIME_ID => clock.elapsed,
        _ => return Err(Fault::Errno(Errno::INVAL)),
    };
    match put_timespec(mem, at, value) {
        Ok(()) => Ok(0),
        Err(e) => Err(Fault::Errno(e)),
    }
}

/// `clock_getres`: a nanosecond.
pub open spec fn getres_spec(mem: Seq<u8>, at: u32) -> (Seq<u8>, Sys) {
    if at == 0 {
        (mem, Ok(0))
    } else {
        match stores(mem, timespec_stores(at as int, 1)) {
            (m, Err(e)) => (m, errno(e)),
            (m, Ok(())) => (m, Ok(0)),
        }
    }
}

pub fn sys_getres(mem: &mut [u8], at: u32) -> (r: Sys)
    ensures
        getres_spec(old(mem)@, at) == (final(mem)@, r),
{
    if at == 0 {
        return Ok(0);
    }
    match put_timespec(mem, at, 1) {
        Ok(()) => Ok(0),
        Err(e) => Err(Fault::Errno(e)),
    }
}

/// `gettimeofday`: seconds and microseconds.
pub open spec fn timeofday_spec(mem: Seq<u8>, realtime: Nanos, at: u32) -> (Seq<u8>, Sys) {
    match stores(
        mem,
        seq![
            (at as int, le32((realtime / SECOND % 0x1_0000_0000) as u32)),
            (wrapped(at, 4) as int, le32((realtime % SECOND / 1000) as u32)),
        ],
    ) {
        (m, Err(e)) => (m, errno(e)),
        (m, Ok(())) => (m, Ok(0)),
    }
}

pub fn sys_timeofday(mem: &mut [u8], clock: &Clock, at: u32) -> (r: Sys)
    ensures
        timeofday_spec(old(mem)@, clock.realtime, at) == (final(mem)@, r),
{
    proof {
        reveal_with_fuel(stores, 3);
    }
    match put_u32(mem, at, (clock.realtime / SECOND % 0x1_0000_0000) as u32) {
        Ok(()) => {},
        Err(e) => return Err(Fault::Errno(e)),
    }
    match put_u32(mem, wrap(at, 4), (clock.realtime % SECOND / 1000) as u32) {
        Ok(()) => Ok(0),
        Err(e) => Err(Fault::Errno(e)),
    }
}

/// When a wait of `after` ends. A deadline set by an earlier try stays, and one that no clock
/// can reach is now.
pub open spec fn deadline_of(ctx: CtxView, elapsed: Nanos, after: Nanos) -> Nanos {
    match ctx.state.deadline {
        Some(when) => when,
        None => if elapsed + after > LAST_MOMENT {
            elapsed
        } else {
            (elapsed + after) as u128
        },
    }
}

/// The process with its deadline noted.
pub open spec fn with_deadline(ctx: CtxView, when: Nanos) -> CtxView {
    CtxView { state: ExecView { deadline: Some(when), ..ctx.state }, ..ctx }
}

/// A deadline that survives being retried.
pub fn deadline(ctx: &mut Ctx, clock: &Clock, after: Nanos) -> (r: Nanos)
    ensures
        r == deadline_of(old(ctx)@, clock.elapsed, after),
        final(ctx)@ == with_deadline(old(ctx)@, r),
{
    match ctx.state.deadline {
        Some(when) => when,
        None => {
            let when: Nanos = if clock.elapsed > LAST_MOMENT || after > LAST_MOMENT
                - clock.elapsed {
                clock.elapsed
            } else {
                clock.elapsed + after
            };
            ctx.state.deadline = Some(when);
            when
        },
    }
}

/// How long to sleep for a time that was asked for, as a span or as a moment of a clock.
pub open spec fn sleep_span(
    requested: Nanos,
    absolute: bool,
    id: i32,
    elapsed: Nanos,
    realtime: Nanos,
) -> Nanos {
    let now = if id == CLOCK_REALTIME {
        realtime
    } else {
        elapsed
    };
    if !absolute {
        requested
    } else if requested > now {
        (requested - now) as u128
    } else {
        0
    }
}

/// `nanosleep` and `clock_nanosleep`: wait until the deadline, then say nothing. The moment to be
/// woken at stays until the call is answered, and goes with its deadline.
pub open spec fn sleep_spec<F>(
    sh: SharedView<F>,
    ctx: CtxView,
    mem: Seq<u8>,
    elapsed: Nanos,
    realtime: Nanos,
    request_at: u32,
    absolute: bool,
    id: i32,
) -> (SharedView<F>, CtxView, Sys) {
    match timespec_at(mem, request_at as int) {
        Err(e) => (sh, ctx, errno(e)),
        Ok(requested) => {
            let until = deadline_of(
                ctx,
                elapsed,
                sleep_span(requested, absolute, id, elapsed, realtime),
            );
            let c = with_deadline(ctx, until);
            if elapsed >= until {
                (sh, c, Ok(0))
            } else {
                (
                    SharedView { table: with_wake(sh.table, ctx.task.pid, Some(until)), ..sh },
                    c,
                    Err(Fault::Block),
                )
            }
        },
    }
}

pub fn sys_sleep<F>(
    sh: &mut Shared<F>,
    ctx: &mut Ctx,
    mem: &[u8],
    clock: &Clock,
    request_at: u32,
    absolute: bool,
    id: i32,
) -> (r: Sys)
    ensures
        sleep_spec(
            old(sh)@,
            old(ctx)@,
            mem@,
            clock.elapsed,
            clock.realtime,
            request_at,
            absolute,
            id,
        ) == (final(sh)@, final(ctx)@, r),
{
    let requested: Nanos = match timespec(mem, request_at) {
        Ok(requested) => requested,
        Err(e) => return Err(Fault::Errno(e)),
    };
    let now: Nanos = if id == CLOCK_REALTIME {
        clock.realtime
    } else {
        clock.elapsed
    };
    let span: Nanos = if !absolute {
        requested
    } else if requested > now {
        requested - now
    } else {
        0
    };
    let until: Nanos = deadline(ctx, clock, span);
    if clock.elapsed >= until {
        return Ok(0);
    }
    sh.set_wake(ctx.task.pid, Some(until));
    Err(Fault::Block)
}

} // verus!
