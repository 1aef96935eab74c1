//! The six imports of the guest ABI, shared by every engine.
//!
//! An engine turns its own calling convention into these calls and does what the answer says:
//! return a value into the guest, stop a rewind first, or unwind the stack.
use super::mem::{
    le32, load32, put, put_u32, read_u32, signed, signed_of, store, word, word_of, wrap, wrapped,
};
use super::mounts::Mounts;
use super::state::{Call, Clock, Ctx, CtxView, ExecView, Shared, SharedView, Suspension};
use crate::errno::{Errno, VfsResult};
use crate::syscall::base::World;
use crate::syscall::io::{seed_of, stepped};
use crate::syscall::signal::{fetched, next_signal, SignalDelivery};
use crate::syscall::start::{start_block, start_bytes, SEED};
use crate::syscall::table::{
    concluded, dispatch, dispatch_grown, dispatched, handled_grown, negative, world, ClockView,
    Outcome,
};
use crate::vfs::{Vfs, VfsFile};
use vstd::prelude::*;

verus! {

/// What the engine has to do once an import is answered.
#[derive(Clone, Copy, PartialEq, Eq, Debug, Structural)]
pub enum Reply {
    /// Return this value into the guest.
    Return(u32),
    /// A rewind has reached its import: stop it, restore the stack pointer unless it is zero,
    /// and return the value the import should have returned.
    Rewound { sp: u32, value: u32 },
    /// Ask Asyncify to save the stack into the area at this address, and return zero.
    Unwind(u32),
    /// Grow the memory by this many pages, then finish the call with [`syscall_grown`].
    Grow { call: Call, pages: u64 },
}

/// How much of the Asyncify area holds frames: everything but its two-word header.
pub const FRAMES: u32 = 1_048_568;

/// An address so many bytes on, staying within the address space.
pub open spec fn held_address(at: u32, by: int) -> u32 {
    if at + by > u32::MAX {
        u32::MAX
    } else {
        (at + by) as u32
    }
}

fn hold_address(at: u32, by: u32) -> (r: u32)
    ensures
        r == held_address(at, by as int),
{
    if by > u32::MAX - at {
        u32::MAX
    } else {
        at + by
    }
}

/// The Asyncify header: where to write next, and where to stop. What cannot be written is left
/// out.
pub open spec fn header_written(mem: Seq<u8>, data: u32) -> Seq<u8> {
    let begin = held_address(data, 8);
    let m = store(mem, data as int, le32(begin)).0;
    store(m, held_address(data, 4) as int, le32(held_address(begin, FRAMES as int))).0
}

/// The process with the reason noted why its stack is unwound.
pub open spec fn suspended(ctx: CtxView, why: Suspension) -> CtxView {
    CtxView { state: ExecView { suspension: Some(why), ..ctx.state }, ..ctx }
}

/// Record why we are leaving and prepare the area Asyncify saves the stack into.
fn unwind(ctx: &mut Ctx, mem: &mut [u8], why: Suspension) -> (r: Reply)
    ensures
        final(ctx)@ == suspended(old(ctx)@, why),
        final(mem)@ == header_written(old(mem)@, old(ctx)@.state.asyncify_data),
        r == Reply::Unwind(old(ctx)@.state.asyncify_data),
{
    let data: u32 = ctx.state.asyncify_data;
    let begin: u32 = hold_address(data, 8);
    let _ = put_u32(mem, data, begin);
    let _ = put_u32(mem, hold_address(data, 4), hold_address(begin, FRAMES));
    ctx.state.suspension = Some(why);
    Reply::Unwind(data)
}

/// The process once its rewind has landed.
pub open spec fn landed(ctx: CtxView) -> CtxView {
    CtxView { state: ExecView { rewinding: false, ..ctx.state }, ..ctx }
}

/// The rewind reached the import that unwound: hand back the value the import should have
/// returned.
fn finish_rewind(ctx: &mut Ctx) -> (r: Reply)
    ensures
        final(ctx)@ == landed(old(ctx)@),
        r == (Reply::Rewound {
            sp: old(ctx)@.state.resume_sp,
            value: word_of(old(ctx)@.state.resume_value),
        }),
{
    ctx.state.rewinding = false;
    Reply::Rewound { sp: ctx.state.resume_sp, value: word(ctx.state.resume_value) }
}

/// The six words at `at`.
pub open spec fn call_at(mem: Seq<u8>, number: u32, at: u32) -> VfsResult<Call> {
    match (
        load32(mem, at as int),
        load32(mem, wrapped(at, 4) as int),
        load32(mem, wrapped(at, 8) as int),
        load32(mem, wrapped(at, 12) as int),
        load32(mem, wrapped(at, 16) as int),
        load32(mem, wrapped(at, 20) as int),
    ) {
        (Ok(a0), Ok(a1), Ok(a2), Ok(a3), Ok(a4), Ok(a5)) => Ok(
            Call {
                number: signed_of(number),
                a0: signed_of(a0),
                a1: signed_of(a1),
                a2: signed_of(a2),
                a3: signed_of(a3),
                a4: signed_of(a4),
                a5: signed_of(a5),
            },
        ),
        _ => Err(Errno::FAULT),
    }
}

fn read_call(mem: &[u8], number: u32, at: u32) -> (r: VfsResult<Call>)
    ensures
        r == call_at(mem@, number, at),
{
    match (
        read_u32(mem, at),
        read_u32(mem, wrap(at, 4)),
        read_u32(mem, wrap(at, 8)),
        read_u32(mem, wrap(at, 12)),
        read_u32(mem, wrap(at, 16)),
        read_u32(mem, wrap(at, 20)),
    ) {
        (Ok(a0), Ok(a1), Ok(a2), Ok(a3), Ok(a4), Ok(a5)) => Ok(
            Call {
                number: signed(number),
                a0: signed(a0),
                a1: signed(a1),
                a2: signed(a2),
                a3: signed(a3),
                a4: signed(a4),
                a5: signed(a5),
            },
        ),
        _ => Err(Errno::FAULT),
    }
}

/// What the engine does about an outcome, with the process and its memory once it is noted. A
/// call that could not finish remembers the stack pointer.
pub open spec fn replied(ctx: CtxView, mem: Seq<u8>, call: Call, sp: u32, o: Outcome) -> (
    CtxView,
    Seq<u8>,
    Reply,
) {
    let header = header_written(mem, ctx.state.asyncify_data);
    let unwound = Reply::Unwind(ctx.state.asyncify_data);
    match o {
        Outcome::Value(v) => (ctx, mem, Reply::Return(word_of(v))),
        Outcome::Blocked => {
            let c = CtxView { state: ExecView { resume_sp: sp, ..ctx.state }, ..ctx };
            (suspended(c, Suspension::Blocked { call }), header, unwound)
        },
        Outcome::Exit(status) => (suspended(ctx, Suspension::Exit(status)), header, unwound),
        Outcome::Exec => (suspended(ctx, Suspension::Exec), header, unwound),
        Outcome::Grow(pages) => (ctx, mem, Reply::Grow { call, pages }),
    }
}

fn reply(ctx: &mut Ctx, mem: &mut [u8], call: Call, sp: u32, o: Outcome) -> (r: Reply)
    ensures
        replied(old(ctx)@, old(mem)@, call, sp, o) == (final(ctx)@, final(mem)@, r),
{
    match o {
        Outcome::Value(v) => Reply::Return(word(v)),
        Outcome::Blocked => {
            ctx.state.resume_sp = sp;
            unwind(ctx, mem, Suspension::Blocked { call })
        },
        Outcome::Exit(status) => unwind(ctx, mem, Suspension::Exit(status)),
        Outcome::Exec => unwind(ctx, mem, Suspension::Exec),
        Outcome::Grow(pages) => Reply::Grow { call, pages },
    }
}

/// `syscall`: a rewind that has landed, or a call to serve.
pub open spec fn entered<V: Vfs>(
    w: World<<V as VfsFile>::State, <V as VfsFile>::Handle>,
    k: ClockView,
    sp: u32,
    number: u32,
    args: u32,
) -> (World<<V as VfsFile>::State, <V as VfsFile>::Handle>, Reply) {
    if w.ctx.state.rewinding {
        (
            World { ctx: landed(w.ctx), ..w },
            Reply::Rewound {
                sp: w.ctx.state.resume_sp,
                value: word_of(w.ctx.state.resume_value),
            },
        )
    } else {
        match call_at(w.mem, number, args) {
            Err(e) => (w, Reply::Return(word_of(negative(e)))),
            Ok(call) => {
                let (after, o) = dispatched::<V>(w, k, call);
                let (ctx, mem, r) = replied(after.ctx, after.mem, call, sp, o);
                (World { ctx, mem, ..after }, r)
            },
        }
    }
}

/// `wasmux.syscall(number, args) -> result`. `sp` is the guest's stack pointer.
pub fn syscall_entry<V: Vfs>(
    sh: &mut Shared<<V as VfsFile>::Handle>,
    ctx: &mut Ctx,
    fs: &mut Mounts<V>,
    mem: &mut [u8],
    clock: &Clock,
    sp: u32,
    number: u32,
    args: u32,
) -> (r: Reply)
    requires
        old(sh)@.wf(),
        old(fs).wf(),
        clock.wf(),
    ensures
        final(sh)@.wf(),
        final(fs).wf(),
        entered::<V>(
            world(*old(sh), *old(ctx), *old(fs), old(mem)@),
            clock@,
            sp,
            number,
            args,
        ) == (world(*final(sh), *final(ctx), *final(fs), final(mem)@), r),
{
    if ctx.state.rewinding {
        return finish_rewind(ctx);
    }
    let call: Call = match read_call(mem, number, args) {
        Ok(call) => call,
        Err(e) => return Reply::Return(word(e.as_neg())),
    };
    let o = dispatch(sh, ctx, fs, mem, clock, call);
    reply(ctx, mem, call, sp, o)
}

/// Finishing a call that asked for memory.
pub open spec fn entered_grown<V: Vfs>(
    w: World<<V as VfsFile>::State, <V as VfsFile>::Handle>,
    sp: u32,
    call: Call,
    previous: Option<u64>,
) -> (World<<V as VfsFile>::State, <V as VfsFile>::Handle>, Reply) {
    let (after, done) = handled_grown::<V>(w, call, previous);
    let (over, o) = concluded(after, done);
    let (ctx, mem, r) = replied(over.ctx, over.mem, call, sp, o);
    (World { ctx, mem, ..over }, r)
}

/// The rest of `wasmux.syscall`, once the engine has tried to grow the memory.
pub fn syscall_grown<V: Vfs>(
    sh: &mut Shared<<V as VfsFile>::Handle>,
    ctx: &mut Ctx,
    fs: &mut Mounts<V>,
    mem: &mut [u8],
    sp: u32,
    call: Call,
    previous: Option<u64>,
) -> (r: Reply)
    requires
        old(sh)@.wf(),
        old(fs).wf(),
    ensures
        final(sh)@.wf(),
        final(fs).wf(),
        entered_grown::<V>(
            world(*old(sh), *old(ctx), *old(fs), old(mem)@),
            sp,
            call,
            previous,
        ) == (world(*final(sh), *final(ctx), *final(fs), final(mem)@), r),
{
    let o = dispatch_grown(sh, ctx, fs, mem, call, previous);
    reply(ctx, mem, call, sp, o)
}

/// `wasmux.setjmp(jmp_buf) -> value`
pub fn setjmp_entry(ctx: &mut Ctx, mem: &mut [u8], sp: u32, env: u32) -> (r: Reply)
    ensures
        old(ctx)@.state.rewinding ==> {
            &&& final(ctx)@ == landed(old(ctx)@)
            &&& final(mem)@ == old(mem)@
            &&& r == (Reply::Rewound {
                sp: old(ctx)@.state.resume_sp,
                value: word_of(old(ctx)@.state.resume_value),
            })
        },
        !old(ctx)@.state.rewinding ==> {
            &&& final(ctx)@ == suspended(old(ctx)@, Suspension::Setjmp { env, sp })
            &&& final(mem)@ == header_written(old(mem)@, old(ctx)@.state.asyncify_data)
            &&& r == Reply::Unwind(old(ctx)@.state.asyncify_data)
        },
{
    if ctx.state.rewinding {
        return finish_rewind(ctx);
    }
    unwind(ctx, mem, Suspension::Setjmp { env, sp })
}

/// `wasmux.longjmp(jmp_buf, value)`
pub fn longjmp_entry(ctx: &mut Ctx, mem: &mut [u8], env: u32, val: i32) -> (r: Reply)
    ensures
        final(ctx)@ == suspended(old(ctx)@, Suspension::Longjmp { env, val }),
        final(mem)@ == header_written(old(mem)@, old(ctx)@.state.asyncify_data),
        r == Reply::Unwind(old(ctx)@.state.asyncify_data),
{
    unwind(ctx, mem, Suspension::Longjmp { env, val })
}

/// `wasmux.init(signal_flag)`: musl tells the kernel where its pending-signal flag lives.
pub fn init_entry(ctx: &mut Ctx, signal_flag: u32)
    ensures
        final(ctx)@ == (CtxView {
            state: ExecView { signal_flag, ..old(ctx)@.state },
            ..old(ctx)@
        }),
{
    ctx.state.signal_flag = signal_flag;
}

/// `args`: the block's size, or the block itself where there is room for it.
pub open spec fn args_written(mem: Seq<u8>, block: Seq<u8>, buffer: u32, capacity: u32) -> (
    Seq<u8>,
    u32,
) {
    let size = (block.len() as int % 0x1_0000_0000) as u32;
    if capacity == 0 {
        (mem, size)
    } else if capacity < block.len() {
        (mem, word_of(negative(Errno::TOOBIG)))
    } else {
        match store(mem, buffer as int, block) {
            (m, Ok(())) => (m, size),
            (m, Err(e)) => (m, word_of(negative(e))),
        }
    }
}

/// `wasmux.args(buffer, capacity) -> size`: the startup block, or its size when capacity is
/// zero.
pub fn args_entry<F>(
    sh: &mut Shared<F>,
    ctx: &Ctx,
    mem: &mut [u8],
    clock: &Clock,
    buffer: u32,
    capacity: u32,
) -> (r: u32)
    ensures
        args_written(
            old(mem)@,
            start_bytes(ctx@, buffer, seed_of(old(sh)@.random, clock.realtime)),
            buffer,
            capacity,
        ) == (final(mem)@, r),
        final(sh)@ == (SharedView {
            random: stepped(seed_of(old(sh)@.random, clock.realtime), SEED as nat),
            ..old(sh)@
        }),
{
    let block = start_block(sh, ctx, clock, buffer);
    let size: u32 = (block.len() as u64 % 0x1_0000_0000) as u32;
    if capacity == 0 {
        return size;
    }
    if (capacity as usize) < block.len() {
        return word(Errno::TOOBIG.as_neg());
    }
    match put(mem, buffer, block.as_slice()) {
        Ok(()) => size,
        Err(e) => word(e.as_neg()),
    }
}

/// `sigfetch`: one if a handler is to run; a signal that kills unwinds the stack.
pub open spec fn sigfetched<F>(sh: SharedView<F>, ctx: CtxView, mem: Seq<u8>, out: u32) -> (
    SharedView<F>,
    CtxView,
    Seq<u8>,
    Reply,
) {
    let (s, c, m, delivery) = fetched(sh, ctx, mem, out);
    match delivery {
        SignalDelivery::Nothing => (s, c, m, Reply::Return(0)),
        SignalDelivery::Handler => (s, c, m, Reply::Return(1)),
        SignalDelivery::Fatal(status) => (
            s,
            suspended(c, Suspension::Exit(status)),
            header_written(m, c.state.asyncify_data),
            Reply::Unwind(c.state.asyncify_data),
        ),
    }
}

/// `wasmux.sigfetch(out) -> 1 if a handler should run`
pub fn sigfetch_entry<F>(sh: &mut Shared<F>, ctx: &mut Ctx, mem: &mut [u8], out: u32) -> (r: Reply)
    ensures
        sigfetched(old(sh)@, old(ctx)@, old(mem)@, out) == (
            final(sh)@,
            final(ctx)@,
            final(mem)@,
            r,
        ),
{
    match next_signal(sh, ctx, mem, out) {
        SignalDelivery::Nothing => Reply::Return(0),
        SignalDelivery::Handler => Reply::Return(1),
        SignalDelivery::Fatal(status) => unwind(ctx, mem, Suspension::Exit(status)),
    }
}

} // verus!
