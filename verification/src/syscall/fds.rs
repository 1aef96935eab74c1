//! Calls on descriptors: duplicating, closing, positions, pipes, flags and listings.
use super::base::{errno, fault_of, noted, vfs_fault, Fault, Sys};
use crate::abi::{
    FD_CLOEXEC, F_DUPFD, F_DUPFD_CLOEXEC, F_GETFD, F_GETFL, F_GETLK, F_SETFD, F_SETFL, F_SETLK,
    F_SETLKW, O_ACCMODE, O_APPEND, O_CLOEXEC, O_NONBLOCK, O_RDONLY, O_WRONLY, SEEK_CUR, SEEK_END,
    SEEK_SET,
};
use crate::errno::{Errno, VfsResult};
use crate::kernel::fd::{
    fd_at, free_from, listing, retain, retained, with_fd, Desc, DescKind, DescView, DirEnt,
    DirEntView, Fd, KindView, Pipe, PipeView,
};
use crate::kernel::mem::{
    bytes16, bytes64, count_word, fits, le16, le32, le64, low_word, patched, put, put_u32, signed,
    signed_of, store, word, word_of, wrap, wrapped, zeros,
};
use crate::kernel::mounts::{file_called, refuses_writes, MountView, Mounts};
use crate::kernel::state::{released, Ctx, CtxView, Shared, SharedView};
use crate::kernel::task::TaskView;
use crate::vfs::{FileAnswer, FileCall, SeekFrom, Vfs, VfsFile};
use vstd::prelude::*;
use vstd::string::*;
use vstd::utf8::encode_utf8;

verus! {

/// The process with another descriptor table.
pub open spec fn with_fds(ctx: CtxView, fds: Seq<Option<Fd>>) -> CtxView {
    CtxView { task: TaskView { fds, ..ctx.task }, ..ctx }
}

/// Putting a description at the lowest free descriptor at or above `min`.
pub open spec fn placed(ctx: CtxView, entry: Fd, min: int, limit: usize) -> (CtxView, Sys) {
    let fd = free_from(ctx.task.fds, min);
    if fd < limit && fd < i32::MAX {
        (with_fds(ctx, with_fd(ctx.task.fds, fd, entry)), Ok(fd as i32))
    } else {
        (ctx, errno(Errno::MFILE))
    }
}

/// Put a description at the lowest free descriptor at or above `min`.
pub fn place(ctx: &mut Ctx, entry: Fd, min: usize, limit: usize) -> (r: Sys)
    ensures
        placed(old(ctx)@, entry, min as int, limit) == (final(ctx)@, r),
{
    match ctx.task.fds.allocate(entry, min, limit) {
        Ok(fd) => Ok(fd),
        Err(e) => Err(Fault::Errno(e)),
    }
}

/// A second descriptor for the description behind `fd`. It counts only where there is one.
pub open spec fn dup_spec<F>(
    sh: SharedView<F>,
    ctx: CtxView,
    fd: i32,
    min: int,
    cloexec: bool,
) -> (SharedView<F>, CtxView, Sys) {
    match fd_at(ctx.task.fds, fd as int) {
        None => (sh, ctx, errno(Errno::BADF)),
        Some(entry) => {
            let (c, r) = placed(ctx, Fd { desc: entry.desc, cloexec }, min, sh.limits.open_files);
            if r is Ok {
                (SharedView { descs: retained(sh.descs, entry.desc), ..sh }, c, r)
            } else {
                (sh, ctx, r)
            }
        },
    }
}

pub fn sys_dup<F>(sh: &mut Shared<F>, ctx: &mut Ctx, fd: i32, min: usize, cloexec: bool) -> (r: Sys)
    requires
        old(sh)@.wf(),
    ensures
        final(sh)@.wf(),
        dup_spec(old(sh)@, old(ctx)@, fd, min as int, cloexec) == (final(sh)@, final(ctx)@, r),
{
    let entry = match ctx.task.fds.get(fd) {
        Ok(entry) => entry,
        Err(e) => return Err(Fault::Errno(e)),
    };
    let limit: usize = sh.limits.open_files;
    let r = place(ctx, Fd { desc: entry.desc, cloexec }, min, limit);
    if r.is_ok() {
        retain(&mut sh.descs, entry.desc);
    }
    r
}

/// `dup3`: at exactly this descriptor, closing what was there.
pub open spec fn dup3_spec<V: Vfs>(
    sh: SharedView<<V as VfsFile>::Handle>,
    ctx: CtxView,
    fs: Seq<MountView<<V as VfsFile>::State>>,
    fd: i32,
    to: i32,
    flags: u32,
) -> (SharedView<<V as VfsFile>::Handle>, CtxView, Seq<MountView<<V as VfsFile>::State>>, Sys) {
    if fd == to {
        (sh, ctx, fs, errno(Errno::INVAL))
    } else {
        match fd_at(ctx.task.fds, fd as int) {
            None => (sh, ctx, fs, errno(Errno::BADF)),
            Some(entry) => {
                let s = SharedView { descs: retained(sh.descs, entry.desc), ..sh };
                if 0 <= to < sh.limits.open_files && to < i32::MAX {
                    let c = with_fds(
                        ctx,
                        with_fd(
                            ctx.task.fds,
                            to as int,
                            Fd { desc: entry.desc, cloexec: flags & O_CLOEXEC != 0 },
                        ),
                    );
                    match fd_at(ctx.task.fds, to as int) {
                        None => (s, c, fs, Ok(to)),
                        Some(was) => {
                            let (s2, f2) = released::<V>(s, fs, was.desc);
                            (s2, c, f2, Ok(to))
                        },
                    }
                } else {
                    (sh, ctx, fs, errno(Errno::BADF))
                }
            },
        }
    }
}

pub fn sys_dup3<V: Vfs>(
    sh: &mut Shared<<V as VfsFile>::Handle>,
    ctx: &mut Ctx,
    fs: &mut Mounts<V>,
    fd: i32,
    to: i32,
    flags: u32,
) -> (r: Sys)
    requires
        old(sh)@.wf(),
        old(fs).wf(),
    ensures
        final(sh)@.wf(),
        final(fs).wf(),
        dup3_spec::<V>(old(sh)@, old(ctx)@, old(fs)@, fd, to, flags) == (
            final(sh)@,
            final(ctx)@,
            final(fs)@,
            r,
        ),
{
    if fd == to {
        return Err(Fault::Errno(Errno::INVAL));
    }
    let entry = match ctx.task.fds.get(fd) {
        Ok(entry) => entry,
        Err(e) => return Err(Fault::Errno(e)),
    };
    let limit: usize = sh.limits.open_files;
    let fresh = Fd { desc: entry.desc, cloexec: flags & O_CLOEXEC != 0 };
    match ctx.task.fds.replace(to, fresh, limit) {
        Ok(Some(was)) => {
            retain(&mut sh.descs, entry.desc);
            sh.release_desc(fs, was.desc);
            Ok(to)
        },
        Ok(None) => {
            retain(&mut sh.descs, entry.desc);
            Ok(to)
        },
        Err(e) => Err(Fault::Errno(e)),
    }
}

/// What closing a file on its mount says, where this is its last descriptor: it is asked before
/// the description goes, so that a store which commits on close can report how that went.
pub open spec fn file_closing<V: Vfs>(
    sh: SharedView<<V as VfsFile>::Handle>,
    fs: Seq<MountView<<V as VfsFile>::State>>,
    key: u32,
) -> (SharedView<<V as VfsFile>::Handle>, Seq<MountView<<V as VfsFile>::State>>, VfsResult<()>) {
    match sh.descs.get(key) {
        None => (sh, fs, Ok(())),
        Some(d) => match d.kind {
            KindView::File { file, mount, closed } => if closed || d.refs > 1 {
                (sh, fs, Ok(()))
            } else {
                let (next, handle, answer) = file_called::<V>(
                    fs,
                    mount as int,
                    file,
                    FileCall::Close,
                );
                let r = match answer {
                    FileAnswer::Fail(e) => Err(e),
                    _ => Ok(()),
                };
                let kind = KindView::File {
                    file: handle,
                    mount,
                    closed: !(r matches Err(e) && e.is_same(Errno::AGAIN)),
                };
                (
                    SharedView { descs: sh.descs.set(key, DescView { kind, ..d }), ..sh },
                    next,
                    r,
                )
            },
            _ => (sh, fs, Ok(())),
        },
    }
}

/// `close`. A file whose mount asks to be called again stays open meanwhile; any other error of
/// the mount is reported once the descriptor is gone.
pub open spec fn close_spec<V: Vfs>(
    sh: SharedView<<V as VfsFile>::Handle>,
    ctx: CtxView,
    fs: Seq<MountView<<V as VfsFile>::State>>,
    fd: i32,
) -> (SharedView<<V as VfsFile>::Handle>, CtxView, Seq<MountView<<V as VfsFile>::State>>, Sys) {
    match fd_at(ctx.task.fds, fd as int) {
        None => (sh, ctx, fs, errno(Errno::BADF)),
        Some(entry) => {
            let (s1, f1, said) = file_closing::<V>(sh, fs, entry.desc);
            if said matches Err(e) && e.is_same(Errno::AGAIN) {
                (noted(s1, Errno::AGAIN), ctx, f1, Err(Fault::Block))
            } else {
                let (s2, f2) = released::<V>(s1, f1, entry.desc);
                (
                    s2,
                    with_fds(ctx, ctx.task.fds.update(fd as int, None)),
                    f2,
                    match said {
                        Ok(()) => Ok(0),
                        Err(e) => errno(e),
                    },
                )
            }
        },
    }
}

fn close_file<V: Vfs>(
    sh: &mut Shared<<V as VfsFile>::Handle>,
    fs: &mut Mounts<V>,
    key: u32,
) -> (r: VfsResult<()>)
    requires
        old(sh)@.wf(),
        old(fs).wf(),
    ensures
        final(sh)@.wf(),
        final(fs).wf(),
        file_closing::<V>(old(sh)@, old(fs)@, key) == (final(sh)@, final(fs)@, r),
{
    match sh.descs.get(key) {
        None => return Ok(()),
        Some(desc) => match &desc.kind {
            DescKind::File { closed, .. } => {
                if *closed || desc.refs > 1 {
                    return Ok(());
                }
            },
            _ => return Ok(()),
        },
    }
    let ghost before = sh@;
    let said = match sh.descs.get_mut(key) {
        None => Ok(()),
        Some(desc) => match &mut desc.kind {
            DescKind::File { file, mount, closed } => {
                let said = fs.file_close(*mount, file);
                let again = match &said {
                    Err(e) => e.same_as(Errno::AGAIN),
                    Ok(()) => false,
                };
                *closed = !again;
                match said {
                    Ok(()) => Ok(()),
                    Err(e) => Err(e),
                }
            },
            _ => Ok(()),
        },
    };
    assert(sh@ =~= file_closing::<V>(before, old(fs)@, key).0);
    said
}

pub fn sys_close<V: Vfs>(
    sh: &mut Shared<<V as VfsFile>::Handle>,
    ctx: &mut Ctx,
    fs: &mut Mounts<V>,
    fd: i32,
) -> (r: Sys)
    requires
        old(sh)@.wf(),
        old(fs).wf(),
    ensures
        final(sh)@.wf(),
        final(fs).wf(),
        close_spec::<V>(old(sh)@, old(ctx)@, old(fs)@, fd) == (
            final(sh)@,
            final(ctx)@,
            final(fs)@,
            r,
        ),
{
    let entry = match ctx.task.fds.get(fd) {
        Ok(entry) => entry,
        Err(e) => return Err(Fault::Errno(e)),
    };
    let said = close_file(sh, fs, entry.desc);
    match &said {
        Err(e) => {
            if e.same_as(Errno::AGAIN) {
                return Err(vfs_fault(sh, Errno::AGAIN));
            }
        },
        Ok(()) => {},
    }
    let _ = ctx.task.fds.take(fd);
    sh.release_desc(fs, entry.desc);
    match said {
        Ok(()) => Ok(0),
        Err(e) => Err(Fault::Errno(e)),
    }
}

/// Four times the limit on descriptors: how many descriptions a session may have.
pub open spec fn desc_cap(open_files: usize) -> usize {
    if open_files * 4 > usize::MAX {
        usize::MAX
    } else {
        (open_files * 4) as usize
    }
}

pub fn desc_limit(open_files: usize) -> (r: usize)
    ensures
        r == desc_cap(open_files),
{
    if open_files > usize::MAX / 4 {
        usize::MAX
    } else {
        open_files * 4
    }
}

/// The description of one end of a pipe.
pub open spec fn pipe_end<F>(k: u32, reader: bool, flags: u32) -> DescView<F> {
    if reader {
        DescView::fresh(KindView::PipeRead(k), "pipe:"@, O_RDONLY | (flags & O_NONBLOCK))
    } else {
        DescView::fresh(KindView::PipeWrite(k), "pipe:"@, O_WRONLY | (flags & O_NONBLOCK))
    }
}

/// `pipe2`: a pipe, a description and a descriptor for each end, and the two numbers in the
/// guest's memory. Where any of these cannot be had nothing is made.
pub open spec fn pipe2_spec<F>(
    sh: SharedView<F>,
    ctx: CtxView,
    mem: Seq<u8>,
    at: u32,
    flags: u32,
) -> (SharedView<F>, CtxView, Seq<u8>, Sys) {
    let limit = sh.limits.open_files;
    let cloexec = flags & O_CLOEXEC != 0;
    let k = sh.pipes.next_key();
    let with_reader = sh.descs.insert(pipe_end(k, true, flags));
    let read_fd = free_from(ctx.task.fds, 0);
    let write_fd = free_from(ctx.task.fds, read_fd + 1);
    if !sh.pipes.has_room(limit) || !sh.descs.has_rooms(2, desc_cap(limit)) || write_fd >= limit
        || write_fd >= i32::MAX {
        (sh, ctx, mem, errno(Errno::MFILE))
    } else if !fits(mem, at as int, 4) || !fits(mem, wrapped(at, 4) as int, 4) {
        (sh, ctx, mem, errno(Errno::FAULT))
    } else {
        let fds = with_fd(
            with_fd(ctx.task.fds, read_fd, Fd { desc: sh.descs.next_key(), cloexec }),
            write_fd,
            Fd { desc: with_reader.next_key(), cloexec },
        );
        (
            SharedView {
                pipes: sh.pipes.insert(PipeView::fresh()),
                descs: with_reader.insert(pipe_end(k, false, flags)),
                ..sh
            },
            with_fds(ctx, fds),
            patched(
                patched(mem, at as int, le32(read_fd as u32)),
                wrapped(at, 4) as int,
                le32(write_fd as u32),
            ),
            Ok(0),
        )
    }
}

fn has_word(mem: &[u8], at: u32) -> (r: bool)
    ensures
        r == fits(mem@, at as int, 4),
{
    let size: usize = mem.len();
    at as usize <= size && 4 <= size - at as usize
}

pub fn sys_pipe2<F>(
    sh: &mut Shared<F>,
    ctx: &mut Ctx,
    mem: &mut [u8],
    at: u32,
    flags: u32,
) -> (r: Sys)
    requires
        old(sh)@.wf(),
    ensures
        final(sh)@.wf(),
        pipe2_spec(old(sh)@, old(ctx)@, old(mem)@, at, flags) == (
            final(sh)@,
            final(ctx)@,
            final(mem)@,
            r,
        ),
{
    let limit: usize = sh.limits.open_files;
    let cap: usize = desc_limit(limit);
    let cloexec = flags & O_CLOEXEC != 0;
    let ghost fds = ctx@.task.fds;
    proof {
        lemma_free_from(fds, 0);
        lemma_free_from(fds, free_from(fds, 0) + 1);
    }
    let read_fd: usize = ctx.task.fds.lowest_free(0);
    if read_fd >= limit || read_fd >= 0x7fff_ffff {
        return Err(Fault::Errno(Errno::MFILE));
    }
    let write_fd: usize = ctx.task.fds.lowest_free(read_fd + 1);
    if write_fd >= limit || write_fd >= 0x7fff_ffff || !sh.descs.rooms(2, cap) {
        return Err(Fault::Errno(Errno::MFILE));
    }
    if !sh.pipes.rooms(1, limit) {
        return Err(Fault::Errno(Errno::MFILE));
    }
    if !has_word(mem, at) || !has_word(mem, wrap(at, 4)) {
        return Err(Fault::Errno(Errno::FAULT));
    }
    let k: u32 = match sh.pipes.insert(Pipe::new(), limit) {
        Some(k) => k,
        None => {
            assert(false);
            return Err(Fault::Errno(Errno::MFILE));
        },
    };
    let reader = Desc::new(
        DescKind::PipeRead(k),
        "pipe:".to_owned(),
        O_RDONLY | (flags & O_NONBLOCK),
    );
    let read_key: u32 = match sh.descs.insert(reader, cap) {
        Some(key) => key,
        None => {
            assert(false);
            return Err(Fault::Errno(Errno::MFILE));
        },
    };
    let writer = Desc::new(
        DescKind::PipeWrite(k),
        "pipe:".to_owned(),
        O_WRONLY | (flags & O_NONBLOCK),
    );
    let write_key: u32 = match sh.descs.insert(writer, cap) {
        Some(key) => key,
        None => {
            assert(false);
            return Err(Fault::Errno(Errno::MFILE));
        },
    };
    let _ = ctx.task.fds.allocate(Fd { desc: read_key, cloexec }, 0, limit);
    proof {
        lemma_free_above(fds, read_fd as int, Fd { desc: read_key, cloexec }, read_fd + 1);
    }
    let _ = ctx.task.fds.allocate(Fd { desc: write_key, cloexec }, read_fd + 1, limit);
    let _ = put_u32(mem, at, read_fd as u32);
    let _ = put_u32(mem, wrap(at, 4), write_fd as u32);
    Ok(0)
}

/// Taking a descriptor leaves those above it as they were.
proof fn lemma_free_above(slots: Seq<Option<Fd>>, fd: int, entry: Fd, i: int)
    requires
        0 <= fd < i,
    ensures
        free_from(with_fd(slots, fd, entry), i) == free_from(slots, i),
    decreases slots.len() - i,
{
    if i < slots.len() && slots[i] is Some {
        lemma_free_above(slots, fd, entry, i + 1);
    }
}

proof fn lemma_free_from(slots: Seq<Option<Fd>>, i: int)
    requires
        0 <= i,
    ensures
        free_from(slots, i) >= i,
        fd_at(slots, free_from(slots, i)) is None,
    decreases slots.len() - i,
{
    if i < slots.len() && slots[i] is Some {
        lemma_free_from(slots, i + 1);
    }
}

/// The lowest descriptor a duplicate may get.
pub open spec fn lowest(argument: i32) -> int {
    if argument > 0 {
        argument as int
    } else {
        0
    }
}

/// The status flags a guest may change, in place of the old ones.
pub open spec fn with_status(flags: u32, wanted: u32) -> u32 {
    (flags & O_ACCMODE) | (wanted & (O_APPEND | O_NONBLOCK))
}

/// `fcntl`.
pub open spec fn fcntl_spec<F>(
    sh: SharedView<F>,
    ctx: CtxView,
    fd: i32,
    command: i32,
    argument: i32,
) -> (SharedView<F>, CtxView, Sys) {
    if command == F_DUPFD || command == F_DUPFD_CLOEXEC {
        dup_spec(sh, ctx, fd, lowest(argument), command == F_DUPFD_CLOEXEC)
    } else if command == F_GETFD {
        match fd_at(ctx.task.fds, fd as int) {
            None => (sh, ctx, errno(Errno::BADF)),
            Some(entry) => (
                sh,
                ctx,
                Ok(
                    if entry.cloexec {
                        FD_CLOEXEC
                    } else {
                        0
                    },
                ),
            ),
        }
    } else if command == F_SETFD {
        match fd_at(ctx.task.fds, fd as int) {
            None => (sh, ctx, errno(Errno::BADF)),
            Some(entry) => (
                sh,
                with_fds(
                    ctx,
                    ctx.task.fds.update(
                        fd as int,
                        Some(Fd { desc: entry.desc, cloexec: argument & FD_CLOEXEC != 0 }),
                    ),
                ),
                Ok(0),
            ),
        }
    } else if command == F_GETFL || command == F_SETFL {
        match fd_at(ctx.task.fds, fd as int) {
            None => (sh, ctx, errno(Errno::BADF)),
            Some(entry) => match sh.descs.get(entry.desc) {
                None => (sh, ctx, errno(Errno::BADF)),
                Some(d) => if command == F_GETFL {
                    (sh, ctx, Ok(signed_of(d.flags)))
                } else {
                    (
                        SharedView {
                            descs: sh.descs.set(
                                entry.desc,
                                DescView { flags: with_status(d.flags, word_of(argument)), ..d },
                            ),
                            ..sh
                        },
                        ctx,
                        Ok(0),
                    )
                },
            },
        }
    } else if command == F_GETLK || command == F_SETLK || command == F_SETLKW {
        match fd_at(ctx.task.fds, fd as int) {
            None => (sh, ctx, errno(Errno::BADF)),
            Some(_) => (sh, ctx, Ok(0)),
        }
    } else {
        (sh, ctx, errno(Errno::INVAL))
    }
}

pub fn sys_fcntl<F>(
    sh: &mut Shared<F>,
    ctx: &mut Ctx,
    fd: i32,
    command: i32,
    argument: i32,
) -> (r: Sys)
    requires
        old(sh)@.wf(),
    ensures
        final(sh)@.wf(),
        fcntl_spec(old(sh)@, old(ctx)@, fd, command, argument) == (final(sh)@, final(ctx)@, r),
{
    match command {
        F_DUPFD | F_DUPFD_CLOEXEC => {
            let min: usize = if argument > 0 {
                argument as usize
            } else {
                0
            };
            sys_dup(sh, ctx, fd, min, command == F_DUPFD_CLOEXEC)
        },
        F_GETFD => match ctx.task.fds.get(fd) {
            Ok(entry) => if entry.cloexec {
                Ok(FD_CLOEXEC)
            } else {
                Ok(0)
            },
            Err(e) => Err(Fault::Errno(e)),
        },
        F_SETFD => match ctx.task.fds.set_cloexec(fd, argument & FD_CLOEXEC != 0) {
            Ok(()) => Ok(0),
            Err(e) => Err(Fault::Errno(e)),
        },
        F_GETFL => match ctx.task.fds.get(fd) {
            Ok(entry) => match sh.descs.get(entry.desc) {
                Some(desc) => Ok(signed(desc.flags)),
                None => Err(Fault::Errno(Errno::BADF)),
            },
            Err(e) => Err(Fault::Errno(e)),
        },
        F_SETFL => match ctx.task.fds.get(fd) {
            Ok(entry) => match sh.descs.get_mut(entry.desc) {
                Some(desc) => {
                    desc.flags = (desc.flags & O_ACCMODE) | (word(argument) & (O_APPEND
                        | O_NONBLOCK));
                    Ok(0)
                },
                None => Err(Fault::Errno(Errno::BADF)),
            },
            Err(e) => Err(Fault::Errno(e)),
        },
        F_GETLK | F_SETLK | F_SETLKW => match ctx.task.fds.get(fd) {
            Ok(_) => Ok(0),
            Err(e) => Err(Fault::Errno(e)),
        },
        _ => Err(Fault::Errno(Errno::INVAL)),
    }
}

/// Where a seek is counted from.
pub open spec fn seek_from(offset: i32, whence: i32) -> Option<SeekFrom> {
    if whence == SEEK_SET {
        Some(
            SeekFrom::Start(
                if offset > 0 {
                    offset as u64
                } else {
                    0
                },
            ),
        )
    } else if whence == SEEK_CUR {
        Some(SeekFrom::Current(offset as i64))
    } else if whence == SEEK_END {
        Some(SeekFrom::End(offset as i64))
    } else {
        None
    }
}

/// A file position the guest can be told.
pub open spec fn position_result(position: u64) -> Sys {
    if position > i32::MAX {
        errno(Errno::OVERFLOW)
    } else {
        Ok(position as i32)
    }
}

/// `lseek`.
pub open spec fn lseek_spec<V: Vfs>(
    sh: SharedView<<V as VfsFile>::Handle>,
    ctx: CtxView,
    fs: Seq<MountView<<V as VfsFile>::State>>,
    fd: i32,
    offset: i32,
    whence: i32,
) -> (SharedView<<V as VfsFile>::Handle>, Seq<MountView<<V as VfsFile>::State>>, Sys) {
    match fd_at(ctx.task.fds, fd as int) {
        None => (sh, fs, errno(Errno::BADF)),
        Some(entry) => match sh.descs.get(entry.desc) {
            None => (sh, fs, errno(Errno::BADF)),
            Some(d) => match d.kind {
                KindView::File { file, mount, closed } => match seek_from(offset, whence) {
                    None => (sh, fs, errno(Errno::INVAL)),
                    Some(from) => {
                        let (next, handle, answer) = file_called::<V>(
                            fs,
                            mount as int,
                            file,
                            FileCall::Seek { from },
                        );
                        let s = SharedView {
                            descs: sh.descs.set(
                                entry.desc,
                                DescView {
                                    kind: KindView::File { file: handle, mount, closed },
                                    ..d
                                },
                            ),
                            ..sh
                        };
                        match answer {
                            FileAnswer::Position(p) => (s, next, position_result(p)),
                            FileAnswer::Fail(e) => (noted(s, e), next, Err(fault_of(e))),
                            _ => (s, next, errno(Errno::IO)),
                        }
                    },
                },
                KindView::Dir { entries, pos } => if whence == SEEK_SET && offset == 0 {
                    (
                        SharedView {
                            descs: sh.descs.set(
                                entry.desc,
                                DescView { kind: KindView::Dir { entries, pos: 0 }, ..d },
                            ),
                            ..sh
                        },
                        fs,
                        Ok(0),
                    )
                } else {
                    (sh, fs, Ok(0))
                },
                KindView::Null => (sh, fs, Ok(0)),
                KindView::Zero => (sh, fs, Ok(0)),
                KindView::Random => (sh, fs, Ok(0)),
                _ => (sh, fs, errno(Errno::SPIPE)),
            },
        },
    }
}

pub fn sys_lseek<V: Vfs>(
    sh: &mut Shared<<V as VfsFile>::Handle>,
    ctx: &Ctx,
    fs: &mut Mounts<V>,
    fd: i32,
    offset: i32,
    whence: i32,
) -> (r: Sys)
    requires
        old(sh)@.wf(),
        old(fs).wf(),
    ensures
        final(sh)@.wf(),
        final(fs).wf(),
        lseek_spec::<V>(old(sh)@, ctx@, old(fs)@, fd, offset, whence) == (
            final(sh)@,
            final(fs)@,
            r,
        ),
{
    let entry = match ctx.task.fds.get(fd) {
        Ok(entry) => entry,
        Err(e) => return Err(Fault::Errno(e)),
    };
    let done = match sh.descs.get_mut(entry.desc) {
        None => return Err(Fault::Errno(Errno::BADF)),
        Some(desc) => match &mut desc.kind {
            DescKind::File { file, mount, .. } => {
                let from: SeekFrom = match whence {
                    SEEK_SET => SeekFrom::Start(
                        if offset > 0 {
                            offset as u64
                        } else {
                            0
                        },
                    ),
                    SEEK_CUR => SeekFrom::Current(offset as i64),
                    SEEK_END => SeekFrom::End(offset as i64),
                    _ => return Err(Fault::Errno(Errno::INVAL)),
                };
                fs.file_seek(*mount, file, from)
            },
            DescKind::Dir { pos, .. } => {
                if whence == SEEK_SET && offset == 0 {
                    *pos = 0;
                }
                return Ok(0);
            },
            DescKind::Null | DescKind::Zero | DescKind::Random => return Ok(0),
            _ => return Err(Fault::Errno(Errno::SPIPE)),
        },
    };
    match done {
        Ok(position) => if position > i32::MAX as u64 {
            Err(Fault::Errno(Errno::OVERFLOW))
        } else {
            Ok(position as i32)
        },
        Err(e) => Err(vfs_fault(sh, e)),
    }
}

/// `ftruncate`: only a file has a length, and not on a read-only mount.
pub open spec fn ftruncate_spec<V: Vfs>(
    sh: SharedView<<V as VfsFile>::Handle>,
    ctx: CtxView,
    fs: Seq<MountView<<V as VfsFile>::State>>,
    fd: i32,
    len: u64,
) -> (SharedView<<V as VfsFile>::Handle>, Seq<MountView<<V as VfsFile>::State>>, Sys) {
    match fd_at(ctx.task.fds, fd as int) {
        None => (sh, fs, errno(Errno::BADF)),
        Some(entry) => match sh.descs.get(entry.desc) {
            None => (sh, fs, errno(Errno::BADF)),
            Some(d) => match d.kind {
                KindView::File { file, mount, closed } => if refuses_writes(fs, mount as int) {
                    (sh, fs, errno(Errno::ROFS))
                } else {
                    let (next, handle, answer) = file_called::<V>(
                        fs,
                        mount as int,
                        file,
                        FileCall::SetLen { len },
                    );
                    let s = SharedView {
                        descs: sh.descs.set(
                            entry.desc,
                            DescView { kind: KindView::File { file: handle, mount, closed }, ..d },
                        ),
                        ..sh
                    };
                    match answer {
                        FileAnswer::Fail(e) => (noted(s, e), next, Err(fault_of(e))),
                        _ => (s, next, Ok(0)),
                    }
                },
                _ => (sh, fs, errno(Errno::INVAL)),
            },
        },
    }
}

pub fn sys_ftruncate<V: Vfs>(
    sh: &mut Shared<<V as VfsFile>::Handle>,
    ctx: &Ctx,
    fs: &mut Mounts<V>,
    fd: i32,
    len: u64,
) -> (r: Sys)
    requires
        old(sh)@.wf(),
        old(fs).wf(),
    ensures
        final(sh)@.wf(),
        final(fs).wf(),
        ftruncate_spec::<V>(old(sh)@, ctx@, old(fs)@, fd, len) == (final(sh)@, final(fs)@, r),
{
    let entry = match ctx.task.fds.get(fd) {
        Ok(entry) => entry,
        Err(e) => return Err(Fault::Errno(e)),
    };
    let done = match sh.descs.get_mut(entry.desc) {
        None => return Err(Fault::Errno(Errno::BADF)),
        Some(desc) => match &mut desc.kind {
            DescKind::File { file, mount, .. } => {
                if fs.is_read_only(*mount) {
                    return Err(Fault::Errno(Errno::ROFS));
                }
                fs.file_set_len(*mount, file, len)
            },
            _ => return Err(Fault::Errno(Errno::INVAL)),
        },
    };
    match done {
        Ok(()) => Ok(0),
        Err(e) => Err(vfs_fault(sh, e)),
    }
}

// ---------------------------------------------------------------------------------------------
// listings

/// The length of one record: nineteen bytes before the name, the name, a NUL, and padding to
/// a multiple of eight.
pub open spec fn record_len(name: Seq<char>) -> int {
    (19 + encode_utf8(name).len() as int + 1 + 7) / 8 * 8
}

/// One record of a listing: inode, where the next entry is, length, type, and the name.
pub open spec fn record_bytes(e: DirEntView, pos: int) -> Seq<u8> {
    let name = encode_utf8(e.name);
    let len = record_len(e.name);
    le64(e.ino) + le64((pos + 1) as u64) + le16((len % 65536) as u16) + seq![e.kind] + name + zeros(
        (len - 19 - name.len()) as nat,
    )
}

/// As many records from `pos` on as fit beside `block`, and the position after them.
pub open spec fn records_from(
    entries: Seq<DirEntView>,
    pos: int,
    block: Seq<u8>,
    capacity: int,
) -> (Seq<u8>, int)
    decreases entries.len() - pos,
{
    if pos >= entries.len() || block.len() + record_len(entries[pos].name) > capacity {
        (block, pos)
    } else {
        records_from(
            entries,
            pos + 1,
            block + record_bytes(entries[pos], pos),
            capacity,
        )
    }
}

/// `getdents64`: what fits of a directory's listing. A buffer too small for the next entry is
/// refused.
pub open spec fn getdents_spec<F>(
    sh: SharedView<F>,
    ctx: CtxView,
    mem: Seq<u8>,
    fd: i32,
    at: u32,
    capacity: u32,
) -> (SharedView<F>, Seq<u8>, Sys) {
    match fd_at(ctx.task.fds, fd as int) {
        None => (sh, mem, errno(Errno::BADF)),
        Some(entry) => match sh.descs.get(entry.desc) {
            None => (sh, mem, errno(Errno::BADF)),
            Some(d) => match d.kind {
                KindView::Dir { entries, pos } => {
                    let (block, next) = records_from(
                        entries,
                        pos as int,
                        Seq::empty(),
                        capacity as int,
                    );
                    if block.len() == 0 && pos < entries.len() {
                        (sh, mem, errno(Errno::INVAL))
                    } else {
                        let s = SharedView {
                            descs: sh.descs.set(
                                entry.desc,
                                DescView { kind: KindView::Dir { entries, pos: next as usize }, ..d },
                            ),
                            ..sh
                        };
                        match store(mem, at as int, block) {
                            (m, Err(e)) => (s, m, errno(e)),
                            (m, Ok(())) => (s, m, Ok(low_word(block.len() as int))),
                        }
                    }
                },
                _ => (sh, mem, errno(Errno::NOTDIR)),
            },
        },
    }
}

/// One record of a listing, or nothing where it does not fit into `room` bytes.
fn build_record(e: &DirEnt, pos: usize, room: u64) -> (r: Option<Vec<u8>>)
    requires
        pos < usize::MAX,
    ensures
        match r {
            Some(b) => record_len(e@.name) <= room && b@ == record_bytes(e@, pos as int) && b@.len()
                == record_len(e@.name),
            None => record_len(e@.name) > room,
        },
{
    let mut name = e.name.as_str().as_bytes_vec();
    let size: u128 = name.len() as u128;
    let len: u128 = (19 + size + 1 + 7) / 8 * 8;
    assert(len == record_len(e@.name));
    if len > room as u128 {
        return None;
    }
    let mut out = bytes64(e.ino);
    let mut next = bytes64(pos as u64 + 1);
    out.append(&mut next);
    let mut next = bytes16((len % 65536) as u16);
    out.append(&mut next);
    out.push(e.kind);
    out.append(&mut name);
    let pad: u64 = (len - 19 - size) as u64;
    let ghost before = out@;
    let mut i: u64 = 0;
    assert(out@ =~= before + zeros(0));
    while i < pad
        invariant
            i <= pad,
            out@ == before + zeros(i as nat),
        decreases pad - i,
    {
        out.push(0);
        i = i + 1;
        assert(out@ =~= before + zeros(i as nat));
    }
    assert(out@ =~= record_bytes(e@, pos as int));
    Some(out)
}

pub fn sys_getdents<F>(
    sh: &mut Shared<F>,
    ctx: &Ctx,
    mem: &mut [u8],
    fd: i32,
    at: u32,
    capacity: u32,
) -> (r: Sys)
    requires
        old(sh)@.wf(),
    ensures
        final(sh)@.wf(),
        getdents_spec(old(sh)@, ctx@, old(mem)@, fd, at, capacity) == (
            final(sh)@,
            final(mem)@,
            r,
        ),
{
    let entry = match ctx.task.fds.get(fd) {
        Ok(entry) => entry,
        Err(e) => return Err(Fault::Errno(e)),
    };
    let mut block: Vec<u8> = Vec::new();
    match sh.descs.get_mut(entry.desc) {
        None => return Err(Fault::Errno(Errno::BADF)),
        Some(desc) => match &mut desc.kind {
            DescKind::Dir { entries, pos } => {
                let ghost all = listing(entries@);
                let ghost start = *pos as int;
                let total: usize = entries.len();
                let mut next: usize = *pos;
                let mut full = false;
                assert(block@ =~= Seq::empty());
                while !full && next < total
                    invariant
                        total == entries@.len(),
                        all == listing(entries@),
                        block@.len() <= capacity,
                        full ==> next < total && block@.len() + record_len(all[next as int].name)
                            > capacity,
                        next >= start,
                        block@.len() == 0 ==> next == start,
                        records_from(all, start, Seq::empty(), capacity as int) == records_from(
                            all,
                            next as int,
                            block@,
                            capacity as int,
                        ),
                    decreases total - next, if full { 0int } else { 1int },
                {
                    let room: u64 = capacity as u64 - block.len() as u64;
                    assert(all[next as int] == entries@[next as int]@);
                    match build_record(&entries[next], next, room) {
                        None => {
                            full = true;
                        },
                        Some(record) => {
                            let mut record = record;
                            block.append(&mut record);
                            next = next + 1;
                        },
                    }
                }
                if full && block.len() == 0 {
                    return Err(Fault::Errno(Errno::INVAL));
                }
                *pos = next;
            },
            _ => return Err(Fault::Errno(Errno::NOTDIR)),
        },
    }
    match put(mem, at, block.as_slice()) {
        Ok(()) => Ok(count_word(block.len())),
        Err(e) => Err(Fault::Errno(e)),
    }
}

} // verus!
