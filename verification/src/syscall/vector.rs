//! `readv` and `writev`: one read or write per buffer, until one comes up short.
use super::base::{errno, held_sum, Fault, Sys};
use super::io::{sys_read, sys_read_spec, sys_write, sys_write_spec};
use crate::errno::Errno;
use crate::kernel::mem::{load32, read_u32, word, word_of, wrap, wrapped};
use crate::kernel::mounts::{MountView, Mounts};
use crate::kernel::state::{Clock, Ctx, CtxView, Shared, SharedView};
use crate::vfs::{Vfs, VfsFile};
use vstd::prelude::*;

verus! {

/// The address of the `i`th buffer description.
pub open spec fn iovec_at(vector: u32, i: int) -> u32 {
    wrapped(vector, i * 8)
}

/// Where the `i`th buffer lies and how long it is.
pub open spec fn iovec(mem: Seq<u8>, vector: u32, i: int) -> Result<(u32, u32), Errno> {
    let entry = iovec_at(vector, i);
    match load32(mem, entry as int) {
        Err(e) => Err(e),
        Ok(at) => match load32(mem, wrapped(entry, 4) as int) {
            Err(e) => Err(e),
            Ok(len) => Ok((at, len)),
        },
    }
}

fn read_iovec(mem: &[u8], vector: u32, i: u32) -> (r: Result<(u32, u32), Errno>)
    ensures
        r == iovec(mem@, vector, i as int),
{
    let entry: u32 = ((vector as u64 + i as u64 * 8) % 0x1_0000_0000) as u32;
    let at: u32 = match read_u32(mem, entry) {
        Ok(at) => at,
        Err(e) => return Err(e),
    };
    match read_u32(mem, wrap(entry, 4)) {
        Ok(len) => Ok((at, len)),
        Err(e) => Err(e),
    }
}

/// `readv` from the `i`th buffer on, with `total` bytes read already.
pub open spec fn readv_from<V: Vfs>(
    sh: SharedView<<V as VfsFile>::Handle>,
    ctx: CtxView,
    fs: Seq<MountView<<V as VfsFile>::State>>,
    mem: Seq<u8>,
    realtime: u128,
    fd: i32,
    vector: u32,
    count: int,
    i: int,
    total: i32,
) -> (
    SharedView<<V as VfsFile>::Handle>,
    Seq<MountView<<V as VfsFile>::State>>,
    Seq<u8>,
    Sys,
)
    decreases count - i,
{
    if i >= count {
        (sh, fs, mem, Ok(total))
    } else {
        match iovec(mem, vector, i) {
            Err(e) => (sh, fs, mem, errno(e)),
            Ok((at, len)) => if len == 0 {
                readv_from::<V>(sh, ctx, fs, mem, realtime, fd, vector, count, i + 1, total)
            } else {
                let (s, f, m, r) = sys_read_spec::<V>(sh, ctx, fs, mem, realtime, fd, at, len);
                match r {
                    Err(x) => (
                        s,
                        f,
                        m,
                        if total > 0 {
                            Ok(total)
                        } else {
                            Err(x)
                        },
                    ),
                    Ok(done) => if word_of(done) < len {
                        (s, f, m, Ok(held_sum(total, done)))
                    } else {
                        readv_from::<V>(
                            s,
                            ctx,
                            f,
                            m,
                            realtime,
                            fd,
                            vector,
                            count,
                            i + 1,
                            held_sum(total, done),
                        )
                    },
                }
            },
        }
    }
}

/// How many buffers a count argument asks for.
pub open spec fn vector_count(count: i32) -> int {
    if count > 0 {
        count as int
    } else {
        0
    }
}

fn add_held(a: i32, b: i32) -> (r: i32)
    ensures
        r == held_sum(a, b),
{
    let sum: i64 = a as i64 + b as i64;
    if sum > i32::MAX as i64 {
        i32::MAX
    } else if sum < i32::MIN as i64 {
        i32::MIN
    } else {
        sum as i32
    }
}

pub fn sys_readv<V: Vfs>(
    sh: &mut Shared<<V as VfsFile>::Handle>,
    ctx: &Ctx,
    fs: &mut Mounts<V>,
    mem: &mut [u8],
    clock: &Clock,
    fd: i32,
    vector: u32,
    count: i32,
) -> (r: Sys)
    requires
        old(sh)@.wf(),
        old(fs).wf(),
    ensures
        final(sh)@.wf(),
        final(fs).wf(),
        readv_from::<V>(
            old(sh)@,
            ctx@,
            old(fs)@,
            old(mem)@,
            clock.realtime,
            fd,
            vector,
            vector_count(count),
            0,
            0,
        ) == (final(sh)@, final(fs)@, final(mem)@, r),
{
    let n: u32 = if count > 0 {
        count as u32
    } else {
        0
    };
    let mut total: i32 = 0;
    let mut i: u32 = 0;
    while i < n
        invariant
            i <= n,
            n == vector_count(count),
            sh@.wf(),
            fs.wf(),
            readv_from::<V>(
                old(sh)@,
                ctx@,
                old(fs)@,
                old(mem)@,
                clock.realtime,
                fd,
                vector,
                n as int,
                0,
                0,
            ) == readv_from::<V>(
                sh@,
                ctx@,
                fs@,
                mem@,
                clock.realtime,
                fd,
                vector,
                n as int,
                i as int,
                total,
            ),
        decreases n - i,
    {
        let (at, len): (u32, u32) = match read_iovec(mem, vector, i) {
            Ok(pair) => pair,
            Err(e) => return Err(Fault::Errno(e)),
        };
        if len != 0 {
            match sys_read(sh, ctx, fs, mem, clock, fd, at, len) {
                Ok(done) => {
                    total = add_held(total, done);
                    if word(done) < len {
                        return Ok(total);
                    }
                },
                Err(x) => {
                    return if total > 0 {
                        Ok(total)
                    } else {
                        Err(x)
                    };
                },
            }
        }
        i = i + 1;
    }
    Ok(total)
}

/// `writev` from the `i`th buffer on, with `total` bytes written already.
pub open spec fn writev_from<V: Vfs>(
    sh: SharedView<<V as VfsFile>::Handle>,
    ctx: CtxView,
    fs: Seq<MountView<<V as VfsFile>::State>>,
    mem: Seq<u8>,
    fd: i32,
    vector: u32,
    count: int,
    i: int,
    total: i32,
) -> (SharedView<<V as VfsFile>::Handle>, Seq<MountView<<V as VfsFile>::State>>, Sys)
    decreases count - i,
{
    if i >= count {
        (sh, fs, Ok(total))
    } else {
        match iovec(mem, vector, i) {
            Err(e) => (sh, fs, errno(e)),
            Ok((at, len)) => if len == 0 {
                writev_from::<V>(sh, ctx, fs, mem, fd, vector, count, i + 1, total)
            } else {
                let (s, f, r) = sys_write_spec::<V>(sh, ctx, fs, mem, fd, at, len);
                match r {
                    Err(x) => (
                        s,
                        f,
                        if total > 0 {
                            Ok(total)
                        } else {
                            Err(x)
                        },
                    ),
                    Ok(done) => if word_of(done) < len {
                        (s, f, Ok(held_sum(total, done)))
                    } else {
                        writev_from::<V>(
                            s,
                            ctx,
                            f,
                            mem,
                            fd,
                            vector,
                            count,
                            i + 1,
                            held_sum(total, done),
                        )
                    },
                }
            },
        }
    }
}

pub fn sys_writev<V: Vfs>(
    sh: &mut Shared<<V as VfsFile>::Handle>,
    ctx: &Ctx,
    fs: &mut Mounts<V>,
    mem: &[u8],
    fd: i32,
    vector: u32,
    count: i32,
) -> (r: Sys)
    requires
        old(sh)@.wf(),
        old(fs).wf(),
    ensures
        final(sh)@.wf(),
        final(fs).wf(),
        writev_from::<V>(
            old(sh)@,
            ctx@,
            old(fs)@,
            mem@,
            fd,
            vector,
            vector_count(count),
            0,
            0,
        ) == (final(sh)@, final(fs)@, r),
{
    let n: u32 = if count > 0 {
        count as u32
    } else {
        0
    };
    let mut total: i32 = 0;
    let mut i: u32 = 0;
    while i < n
        invariant
            i <= n,
            n == vector_count(count),
            sh@.wf(),
            fs.wf(),
            writev_from::<V>(old(sh)@, ctx@, old(fs)@, mem@, fd, vector, n as int, 0, 0)
                == writev_from::<V>(
                sh@,
                ctx@,
                fs@,
                mem@,
                fd,
                vector,
                n as int,
                i as int,
                total,
            ),
        decreases n - i,
    {
        let (at, len): (u32, u32) = match read_iovec(mem, vector, i) {
            Ok(pair) => pair,
            Err(e) => return Err(Fault::Errno(e)),
        };
        if len != 0 {
            match sys_write(sh, ctx, fs, mem, fd, at, len) {
                Ok(done) => {
                    total = add_held(total, done);
                    if word(done) < len {
                        return Ok(total);
                    }
                },
                Err(x) => {
                    return if total > 0 {
                        Ok(total)
                    } else {
                        Err(x)
                    };
                },
            }
        }
        i = i + 1;
    }
    Ok(total)
}

} // verus!
