//! `brk` and `mmap`: growing the guest's memory within the limits.
//!
//! Only the engine can grow a memory, so each call comes in two halves. The first decides
//! whether the memory may grow, charges for it, and asks with [`Fault::Grow`]. The second is
//! told what became of it: the number of pages there were before, or nothing if the engine
//! refused. Whatever a call has to wait for comes in the first half, before anything is charged,
//! because a memory that has grown cannot shrink.
use super::base::{errno, fault_of, noted, vfs_fault, Fault, Sys};
use crate::abi::{MAP_ANONYMOUS, MAP_FIXED};
use crate::errno::{Errno, VfsResult};
use crate::kernel::fd::{fd_at, DescKind, DescView, KindView};
use crate::kernel::mem::{count_word, low_word, put, signed, signed_of, store, zeroed, zeros};
use crate::kernel::mounts::{file_called, MountView, Mounts};
use crate::kernel::state::{Ctx, CtxView, ExecView, Shared, SharedView, PAGE};
use crate::vfs::{FileAnswer, FileCall, SeekFrom, Vfs, VfsFile};
use vstd::prelude::*;

verus! {

/// How many pages hold `bytes` bytes.
pub open spec fn pages_for(bytes: int) -> int {
    (bytes + PAGE - 1) / (PAGE as int)
}

fn page_count(bytes: u64) -> (r: u64)
    requires
        bytes <= u32::MAX,
    ensures
        r == pages_for(bytes as int),
        r * PAGE <= 0x1_0000_0000,
{
    (bytes + PAGE - 1) / PAGE
}

/// The session and the process with `bytes` more memory charged to them.
pub open spec fn grown_by<F>(sh: SharedView<F>, ctx: CtxView, bytes: u64) -> (
    SharedView<F>,
    CtxView,
) {
    (sh.charged(bytes), CtxView { state: ctx.state.charging(bytes), ..ctx })
}

/// The session and the process with `bytes` of memory given back.
pub open spec fn shrunk_by<F>(sh: SharedView<F>, ctx: CtxView, bytes: u64) -> (
    SharedView<F>,
    CtxView,
) {
    (sh.refunded(bytes), CtxView { state: ctx.state.refunding(bytes), ..ctx })
}

/// The first half of `brk`: the break starts at the end of the memory and only ever grows it.
/// A request that cannot be met is answered with the break as it is.
pub open spec fn brk_spec<F>(sh: SharedView<F>, ctx: CtxView, size: int, request: u32) -> (
    SharedView<F>,
    CtxView,
    Sys,
) {
    let pages = pages_for(request - size);
    if request <= size || request > sh.limits.memory_per_process {
        (sh, ctx, Ok(low_word(size)))
    } else if !sh.affords((pages * PAGE) as u64) {
        (sh, ctx, Ok(low_word(size)))
    } else {
        let (s, c) = grown_by(sh, ctx, (pages * PAGE) as u64);
        (s, c, Err(Fault::Grow(pages as u64)))
    }
}

pub fn sys_brk<F>(sh: &mut Shared<F>, ctx: &mut Ctx, mem: &[u8], request: u32) -> (r: Sys)
    ensures
        brk_spec(old(sh)@, old(ctx)@, mem@.len() as int, request) == (final(sh)@, final(ctx)@, r),
{
    let size: usize = mem.len();
    if request as u64 <= size as u64 || request as u64 > sh.limits.memory_per_process {
        return Ok(count_word(size));
    }
    let pages: u64 = page_count(request as u64 - size as u64);
    if !sh.charge_memory(pages * PAGE) {
        return Ok(count_word(size));
    }
    ctx.state.charge(pages * PAGE);
    Err(Fault::Grow(pages))
}

/// The second half of `brk`.
pub open spec fn brk_grown<F>(
    sh: SharedView<F>,
    ctx: CtxView,
    size: int,
    request: u32,
    grown: bool,
) -> (SharedView<F>, CtxView, Sys) {
    if grown || request <= size {
        (sh, ctx, Ok(signed_of(request)))
    } else {
        let (s, c) = shrunk_by(sh, ctx, (pages_for(request - size) * PAGE) as u64);
        (s, c, Ok(low_word(size)))
    }
}

pub fn sys_brk_grown<F>(
    sh: &mut Shared<F>,
    ctx: &mut Ctx,
    mem: &[u8],
    request: u32,
    grown: bool,
) -> (r: Sys)
    ensures
        brk_grown(old(sh)@, old(ctx)@, mem@.len() as int, request, grown) == (
            final(sh)@,
            final(ctx)@,
            r,
        ),
{
    let size: usize = mem.len();
    if grown || request as u64 <= size as u64 {
        return Ok(signed(request));
    }
    let pages: u64 = page_count(request as u64 - size as u64);
    sh.release_memory(pages * PAGE);
    ctx.state.refund(pages * PAGE);
    Ok(count_word(size))
}

/// Reading a file until there are `want` bytes or it ends, with `got` read already.
pub open spec fn read_on<V: Vfs>(
    fs: Seq<MountView<<V as VfsFile>::State>>,
    mount: int,
    file: <V as VfsFile>::Handle,
    got: Seq<u8>,
    want: int,
) -> (Seq<MountView<<V as VfsFile>::State>>, <V as VfsFile>::Handle, VfsResult<Seq<u8>>)
    decreases
        if got.len() < want {
            want - got.len()
        } else {
            0
        },
{
    if got.len() >= want {
        (fs, file, Ok(got))
    } else {
        let (next, handle, answer) = file_called::<V>(
            fs,
            mount,
            file,
            FileCall::Read { max: (want - got.len()) as usize },
        );
        match answer {
            FileAnswer::Fail(e) => (next, handle, Err(e)),
            FileAnswer::Data(data) => if data.len() == 0 {
                (next, handle, Ok(got))
            } else {
                read_on::<V>(next, mount, handle, got + data, want)
            },
            _ => (next, handle, Err(Errno::IO)),
        }
    }
}

/// A page offset as the byte offset it stands for, held within 64 bits.
pub open spec fn byte_offset(pages: i32) -> u64 {
    let wide = if pages >= 0 {
        pages as int
    } else {
        pages + 0x1_0000_0000_0000_0000
    };
    if wide * 4096 > u64::MAX {
        u64::MAX
    } else {
        (wide * 4096) as u64
    }
}

/// The bytes a file mapping shows: `want` of them from an offset on. The position is put back
/// where it was whether they could be read or not; where that is to be waited for, so is the
/// mapping, and the next try knows where the position belongs.
pub open spec fn mapped<V: Vfs>(
    fs: Seq<MountView<<V as VfsFile>::State>>,
    mount: int,
    file: <V as VfsFile>::Handle,
    put_back: Option<u64>,
    offset: u64,
    want: int,
) -> (
    Seq<MountView<<V as VfsFile>::State>>,
    <V as VfsFile>::Handle,
    Option<u64>,
    VfsResult<Seq<u8>>,
) {
    let (f1, h1, here) = position_of::<V>(fs, mount, file, put_back);
    match here {
        FileAnswer::Position(saved) => {
            let (f2, h2, there) = file_called::<V>(
                f1,
                mount,
                h1,
                FileCall::Seek { from: SeekFrom::Start(offset) },
            );
            let (f3, h3, got) = match there {
                FileAnswer::Fail(e) => (f2, h2, Err(e)),
                FileAnswer::Position(_) => read_on::<V>(f2, mount, h2, Seq::empty(), want),
                _ => (f2, h2, Err(Errno::IO)),
            };
            let (f4, h4, back) = file_called::<V>(
                f3,
                mount,
                h3,
                FileCall::Seek { from: SeekFrom::Start(saved) },
            );
            if back matches FileAnswer::Fail(e) && e.is_same(Errno::AGAIN) {
                (f4, h4, Some(saved), Err(Errno::AGAIN))
            } else {
                (f4, h4, None, got)
            }
        },
        FileAnswer::Fail(e) => (f1, h1, None, Err(e)),
        _ => (f1, h1, None, Err(Errno::IO)),
    }
}

/// The position of a file: where it belongs if that is known, and otherwise where it is.
pub open spec fn position_of<V: Vfs>(
    fs: Seq<MountView<<V as VfsFile>::State>>,
    mount: int,
    file: <V as VfsFile>::Handle,
    put_back: Option<u64>,
) -> (Seq<MountView<<V as VfsFile>::State>>, <V as VfsFile>::Handle, FileAnswer) {
    match put_back {
        Some(p) => (fs, file, FileAnswer::Position(p)),
        None => file_called::<V>(
            fs,
            mount,
            file,
            FileCall::Seek { from: SeekFrom::Current(0) },
        ),
    }
}

/// What a descriptor shows from a page offset on, with the session and the mounts after
/// finding out. A mapping is a read, once, because there is no page fault to make it lazy.
pub open spec fn shown<V: Vfs>(
    sh: SharedView<<V as VfsFile>::Handle>,
    ctx: CtxView,
    fs: Seq<MountView<<V as VfsFile>::State>>,
    length: u32,
    fd: i32,
    offset: i32,
) -> (
    SharedView<<V as VfsFile>::Handle>,
    CtxView,
    Seq<MountView<<V as VfsFile>::State>>,
    Result<Seq<u8>, Fault>,
) {
    match fd_at(ctx.task.fds, fd as int) {
        None => (sh, ctx, fs, errno(Errno::BADF)),
        Some(entry) => match sh.descs.get(entry.desc) {
            None => (sh, ctx, fs, errno(Errno::BADF)),
            Some(d) => match d.kind {
                KindView::File { file, mount, closed } => {
                    let (next, handle, put_back, got) = mapped::<V>(
                        fs,
                        mount as int,
                        file,
                        ctx.state.put_back,
                        byte_offset(offset),
                        length as int,
                    );
                    let s = SharedView {
                        descs: sh.descs.set(
                            entry.desc,
                            DescView { kind: KindView::File { file: handle, mount, closed }, ..d },
                        ),
                        ..sh
                    };
                    let c = CtxView { state: ExecView { put_back, ..ctx.state }, ..ctx };
                    match got {
                        Err(e) => (noted(s, e), c, next, Err(fault_of(e))),
                        Ok(data) => (s, c, next, Ok(data)),
                    }
                },
                _ => (sh, ctx, fs, errno(Errno::NODEV)),
            },
        },
    }
}

/// The first half of `mmap`: memory at a fixed place is refused, and a limit is `ENOMEM`. What
/// a file mapping is to show is read before anything is charged or grown, so that a file that
/// is to be waited for leaves no trace.
pub open spec fn mmap_spec<V: Vfs>(
    sh: SharedView<<V as VfsFile>::Handle>,
    ctx: CtxView,
    fs: Seq<MountView<<V as VfsFile>::State>>,
    size: int,
    addr: u32,
    length: u32,
    flags: i32,
    fd: i32,
    offset: i32,
) -> (SharedView<<V as VfsFile>::Handle>, CtxView, Seq<MountView<<V as VfsFile>::State>>, Sys) {
    let pages = pages_for(length as int);
    let bytes = (pages * PAGE) as u64;
    if length == 0 {
        (sh, ctx, fs, errno(Errno::INVAL))
    } else if flags & MAP_FIXED != 0 && addr != 0 {
        (sh, ctx, fs, errno(Errno::NOMEM))
    } else if size + bytes > sh.limits.memory_per_process || !sh.affords(bytes) {
        (sh, ctx, fs, errno(Errno::NOMEM))
    } else if flags & MAP_ANONYMOUS != 0 {
        let (s, c) = grown_by(sh, ctx, bytes);
        (s, c, fs, Err(Fault::Grow(pages as u64)))
    } else {
        let (s1, c1, f1, data) = shown::<V>(sh, ctx, fs, length, fd, offset);
        match data {
            Err(x) => (s1, c1, f1, Err(x)),
            Ok(data) => {
                let (s2, c2) = grown_by(s1, c1, bytes);
                (
                    s2,
                    CtxView { state: ExecView { staged: data, ..c2.state }, ..c2 },
                    f1,
                    Err(Fault::Grow(pages as u64)),
                )
            },
        }
    }
}

/// Bytes, and zeros behind them up to a length.
pub open spec fn padded(data: Seq<u8>, length: int) -> Seq<u8> {
    if data.len() < length {
        data + zeros((length - data.len()) as nat)
    } else {
        data
    }
}

/// The second half of `mmap`: what was read goes into the new memory, and is kept no longer.
pub open spec fn mmap_grown<F>(
    sh: SharedView<F>,
    ctx: CtxView,
    mem: Seq<u8>,
    length: u32,
    flags: i32,
    previous: Option<u64>,
) -> (SharedView<F>, CtxView, Seq<u8>, Sys) {
    let spent = CtxView { state: ExecView { staged: Seq::empty(), ..ctx.state }, ..ctx };
    match previous {
        None => {
            let (s, c) = shrunk_by(sh, spent, (pages_for(length as int) * PAGE) as u64);
            (s, c, mem, errno(Errno::NOMEM))
        },
        Some(pages) => {
            let at = (pages * PAGE % 0x1_0000_0000) as u32;
            if flags & MAP_ANONYMOUS != 0 {
                (sh, spent, mem, Ok(signed_of(at)))
            } else {
                match store(mem, at as int, padded(ctx.state.staged, length as int)) {
                    (m, Err(e)) => (sh, spent, m, errno(e)),
                    (m, Ok(())) => (sh, spent, m, Ok(signed_of(at))),
                }
            }
        },
    }
}

/// What reading came to, as its model.
spec fn bytes_result(r: VfsResult<Vec<u8>>) -> VfsResult<Seq<u8>> {
    match r {
        Ok(data) => Ok(data@),
        Err(e) => Err(e),
    }
}

fn read_rest<V: Vfs>(
    fs: &mut Mounts<V>,
    mount: usize,
    file: &mut <V as VfsFile>::Handle,
    want: usize,
) -> (r: VfsResult<Vec<u8>>)
    requires
        old(fs).wf(),
    ensures
        final(fs).wf(),
        read_on::<V>(old(fs)@, mount as int, *old(file), Seq::empty(), want as int) == (
            final(fs)@,
            *final(file),
            bytes_result(r),
        ),
        r matches Ok(data) ==> data@.len() <= want,
{
    let mut out: Vec<u8> = Vec::new();
    assert(out@ =~= Seq::empty());
    while out.len() < want
        invariant
            fs.wf(),
            out@.len() <= want,
            read_on::<V>(old(fs)@, mount as int, *old(file), Seq::empty(), want as int)
                == read_on::<V>(fs@, mount as int, *file, out@, want as int),
        decreases want - out@.len(),
    {
        match fs.file_read(mount, file, want - out.len()) {
            Err(e) => return Err(e),
            Ok(data) => {
                if data.len() == 0 {
                    return Ok(out);
                }
                let mut data = data;
                out.append(&mut data);
            },
        }
    }
    Ok(out)
}

fn read_mapped<V: Vfs>(
    fs: &mut Mounts<V>,
    mount: usize,
    file: &mut <V as VfsFile>::Handle,
    put_back: Option<u64>,
    offset: u64,
    want: usize,
) -> (r: (Option<u64>, VfsResult<Vec<u8>>))
    requires
        old(fs).wf(),
    ensures
        final(fs).wf(),
        mapped::<V>(old(fs)@, mount as int, *old(file), put_back, offset, want as int) == (
            final(fs)@,
            *final(file),
            r.0,
            bytes_result(r.1),
        ),
        r.1 matches Ok(data) ==> data@.len() <= want,
{
    let saved: u64 = match put_back {
        Some(saved) => saved,
        None => match fs.file_seek(mount, file, SeekFrom::Current(0)) {
            Ok(saved) => saved,
            Err(e) => return (None, Err(e)),
        },
    };
    let got = match fs.file_seek(mount, file, SeekFrom::Start(offset)) {
        Ok(_) => read_rest(fs, mount, file, want),
        Err(e) => Err(e),
    };
    match fs.file_seek(mount, file, SeekFrom::Start(saved)) {
        Ok(_) => (None, got),
        Err(e) => if e.same_as(Errno::AGAIN) {
            (Some(saved), Err(Errno::AGAIN))
        } else {
            (None, got)
        },
    }
}

fn offset_bytes(pages: i32) -> (r: u64)
    ensures
        r == byte_offset(pages),
{
    if pages < 0 {
        u64::MAX
    } else {
        pages as u64 * 4096
    }
}

fn show<V: Vfs>(
    sh: &mut Shared<<V as VfsFile>::Handle>,
    ctx: &mut Ctx,
    fs: &mut Mounts<V>,
    length: u32,
    fd: i32,
    offset: i32,
) -> (r: Result<Vec<u8>, Fault>)
    requires
        old(sh)@.wf(),
        old(fs).wf(),
    ensures
        final(sh)@.wf(),
        final(fs).wf(),
        shown::<V>(old(sh)@, old(ctx)@, old(fs)@, length, fd, offset) == (
            final(sh)@,
            final(ctx)@,
            final(fs)@,
            match r {
                Ok(data) => Ok::<Seq<u8>, Fault>(data@),
                Err(x) => Err(x),
            },
        ),
{
    let entry = match ctx.task.fds.get(fd) {
        Ok(entry) => entry,
        Err(e) => return Err(Fault::Errno(e)),
    };
    let (put_back, done): (Option<u64>, VfsResult<Vec<u8>>) = match sh.descs.get_mut(entry.desc) {
        None => return Err(Fault::Errno(Errno::BADF)),
        Some(desc) => match &mut desc.kind {
            DescKind::File { file, mount, .. } => read_mapped(
                fs,
                *mount,
                file,
                ctx.state.put_back,
                offset_bytes(offset),
                length as usize,
            ),
            _ => return Err(Fault::Errno(Errno::NODEV)),
        },
    };
    ctx.state.put_back = put_back;
    match done {
        Err(e) => Err(vfs_fault(sh, e)),
        Ok(data) => Ok(data),
    }
}

pub fn sys_mmap<V: Vfs>(
    sh: &mut Shared<<V as VfsFile>::Handle>,
    ctx: &mut Ctx,
    fs: &mut Mounts<V>,
    mem: &[u8],
    addr: u32,
    length: u32,
    flags: i32,
    fd: i32,
    offset: i32,
) -> (r: Sys)
    requires
        old(sh)@.wf(),
        old(fs).wf(),
    ensures
        final(sh)@.wf(),
        final(fs).wf(),
        mmap_spec::<V>(
            old(sh)@,
            old(ctx)@,
            old(fs)@,
            mem@.len() as int,
            addr,
            length,
            flags,
            fd,
            offset,
        ) == (final(sh)@, final(ctx)@, final(fs)@, r),
{
    if length == 0 {
        return Err(Fault::Errno(Errno::INVAL));
    }
    if flags & MAP_FIXED != 0 && addr != 0 {
        return Err(Fault::Errno(Errno::NOMEM));
    }
    let pages: u64 = page_count(length as u64);
    let bytes: u64 = pages * PAGE;
    let size: usize = mem.len();
    if size as u128 + bytes as u128 > sh.limits.memory_per_process as u128 {
        return Err(Fault::Errno(Errno::NOMEM));
    }
    if sh.memory_used as u128 + bytes as u128 > sh.limits.memory as u128 {
        return Err(Fault::Errno(Errno::NOMEM));
    }
    if flags & MAP_ANONYMOUS == 0 {
        match show(sh, ctx, fs, length, fd, offset) {
            Ok(data) => {
                ctx.state.staged = data;
            },
            Err(x) => return Err(x),
        }
    }
    let charged = sh.charge_memory(bytes);
    assert(charged);
    ctx.state.charge(bytes);
    Err(Fault::Grow(pages))
}

pub fn sys_mmap_grown<F>(
    sh: &mut Shared<F>,
    ctx: &mut Ctx,
    mem: &mut [u8],
    length: u32,
    flags: i32,
    previous: Option<u64>,
) -> (r: Sys)
    requires
        old(sh)@.wf(),
    ensures
        final(sh)@.wf(),
        mmap_grown(old(sh)@, old(ctx)@, old(mem)@, length, flags, previous) == (
            final(sh)@,
            final(ctx)@,
            final(mem)@,
            r,
        ),
{
    let mut data: Vec<u8> = Vec::new();
    assert(data@ =~= Seq::empty());
    core::mem::swap(&mut data, &mut ctx.state.staged);
    let pages: u64 = match previous {
        Some(pages) => pages,
        None => {
            let bytes: u64 = page_count(length as u64) * PAGE;
            sh.release_memory(bytes);
            ctx.state.refund(bytes);
            return Err(Fault::Errno(Errno::NOMEM));
        },
    };
    let at: u32 = (pages as u128 * PAGE as u128 % 0x1_0000_0000) as u32;
    if flags & MAP_ANONYMOUS != 0 {
        return Ok(signed(at));
    }
    if data.len() < length as usize {
        let mut rest = zeroed(length as usize - data.len());
        data.append(&mut rest);
    }
    match put(mem, at, data.as_slice()) {
        Ok(()) => Ok(signed(at)),
        Err(e) => Err(Fault::Errno(e)),
    }
}

} // verus!
