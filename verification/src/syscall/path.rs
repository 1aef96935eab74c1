//! Calls that take a path and change or ask about what is there.
use super::base::{
    after_call, changed, errno, fault_of, finish_call, held_sum, looked_up, noted, resolve,
    vfs_fault, Fault, Sys,
};
use crate::abi::{AT_FDCWD, AT_REMOVEDIR, AT_SYMLINK_NOFOLLOW};
use crate::errno::Errno;
use crate::kernel::fd::{fd_at, DescKind};
use crate::kernel::mem::{
    bytes32, count_word, cstr, le32, low_word, patched, put, put_u8, set_field, store, stores,
    text_at, wrap, wrapped, zeroed, zeros,
};
use crate::kernel::mounts::{called, MountView, Mounts};
use crate::kernel::namespace::{Device, Node, NodeView};
use crate::kernel::state::{Ctx, CtxView, Shared, SharedView};
use crate::kernel::task::TaskView;
use crate::vfs::{FileType, Vfs, VfsAnswer, VfsCall, VfsFile};
use vstd::prelude::*;
use vstd::string::*;
use vstd::utf8::encode_utf8;

verus! {

/// `truncate`: by path.
pub open spec fn truncate_spec<V: Vfs>(
    sh: SharedView<<V as VfsFile>::Handle>,
    ctx: CtxView,
    fs: Seq<MountView<<V as VfsFile>::State>>,
    mem: Seq<u8>,
    path_at: u32,
    len: u64,
) -> (SharedView<<V as VfsFile>::Handle>, Seq<MountView<<V as VfsFile>::State>>, Sys) {
    match text_at(mem, path_at as int) {
        Err(e) => (sh, fs, errno(e)),
        Ok(path) => {
            let (s, f, node) = looked_up::<V>(sh, ctx, fs, AT_FDCWD, path, true);
            match node {
                Err(x) => (s, f, Err(x)),
                Ok(NodeView::Mounted { mount, rel, .. }) => changed::<V>(
                    s,
                    f,
                    mount,
                    VfsCall::Truncate { path: rel, len },
                ),
                Ok(_) => (s, f, errno(Errno::ROFS)),
            }
        },
    }
}

pub fn sys_truncate<V: Vfs>(
    sh: &mut Shared<<V as VfsFile>::Handle>,
    ctx: &Ctx,
    fs: &mut Mounts<V>,
    mem: &[u8],
    path_at: u32,
    len: u64,
) -> (r: Sys)
    requires
        old(fs).wf(),
    ensures
        final(fs).wf(),
        truncate_spec::<V>(old(sh)@, ctx@, old(fs)@, mem@, path_at, len) == (
            final(sh)@,
            final(fs)@,
            r,
        ),
{
    let path = match cstr(mem, path_at) {
        Ok(path) => path,
        Err(e) => return Err(Fault::Errno(e)),
    };
    match resolve(sh, ctx, fs, AT_FDCWD, path.as_str(), true) {
        Err(x) => Err(x),
        Ok(Node::Mounted { mount, rel, .. }) => {
            if fs.is_read_only(mount) {
                return Err(Fault::Errno(Errno::ROFS));
            }
            let done = fs.truncate(mount, rel.as_str(), len);
            finish_call::<_, <V as VfsFile>::Handle>(sh, done)
        },
        Ok(_) => Err(Fault::Errno(Errno::ROFS)),
    }
}

/// `chdir`: into a directory of a mount or of the kernel's own.
pub open spec fn chdir_spec<V: Vfs>(
    sh: SharedView<<V as VfsFile>::Handle>,
    ctx: CtxView,
    fs: Seq<MountView<<V as VfsFile>::State>>,
    mem: Seq<u8>,
    path_at: u32,
) -> (SharedView<<V as VfsFile>::Handle>, CtxView, Seq<MountView<<V as VfsFile>::State>>, Sys) {
    match text_at(mem, path_at as int) {
        Err(e) => (sh, ctx, fs, errno(e)),
        Ok(path) => {
            let (s, f, node) = looked_up::<V>(sh, ctx, fs, AT_FDCWD, path, true);
            match node {
                Err(x) => (s, ctx, f, Err(x)),
                Ok(NodeView::VirtualDir { guest }) => (s, moved_to(ctx, guest), f, Ok(0)),
                Ok(NodeView::Mounted { mount, rel, guest }) => {
                    let (next, answer) = called::<V>(
                        f,
                        mount as int,
                        VfsCall::Stat { path: rel, follow: true },
                    );
                    match answer {
                        VfsAnswer::Stat(st) => if st.file_type is Dir {
                            (s, moved_to(ctx, guest), next, Ok(0))
                        } else {
                            (s, ctx, next, errno(Errno::NOTDIR))
                        },
                        VfsAnswer::Fail(e) => (noted(s, e), ctx, next, Err(fault_of(e))),
                        _ => (s, ctx, next, errno(Errno::NOTDIR)),
                    }
                },
                Ok(_) => (s, ctx, f, errno(Errno::NOTDIR)),
            }
        },
    }
}

/// The process in another directory.
pub open spec fn moved_to(ctx: CtxView, dir: Seq<char>) -> CtxView {
    CtxView { task: TaskView { cwd: dir, ..ctx.task }, ..ctx }
}

pub fn sys_chdir<V: Vfs>(
    sh: &mut Shared<<V as VfsFile>::Handle>,
    ctx: &mut Ctx,
    fs: &mut Mounts<V>,
    mem: &[u8],
    path_at: u32,
) -> (r: Sys)
    requires
        old(fs).wf(),
    ensures
        final(fs).wf(),
        chdir_spec::<V>(old(sh)@, old(ctx)@, old(fs)@, mem@, path_at) == (
            final(sh)@,
            final(ctx)@,
            final(fs)@,
            r,
        ),
{
    let path = match cstr(mem, path_at) {
        Ok(path) => path,
        Err(e) => return Err(Fault::Errno(e)),
    };
    match resolve(sh, ctx, fs, AT_FDCWD, path.as_str(), true) {
        Err(x) => Err(x),
        Ok(Node::VirtualDir { guest }) => {
            ctx.task.cwd = guest;
            Ok(0)
        },
        Ok(Node::Mounted { mount, rel, guest }) => match fs.stat(mount, rel.as_str(), true) {
            Ok(st) => if st.file_type == FileType::Dir {
                ctx.task.cwd = guest;
                Ok(0)
            } else {
                Err(Fault::Errno(Errno::NOTDIR))
            },
            Err(e) => Err(vfs_fault(sh, e)),
        },
        Ok(_) => Err(Fault::Errno(Errno::NOTDIR)),
    }
}

/// `fchdir`: into an open directory.
pub open spec fn fchdir_spec<F>(sh: SharedView<F>, ctx: CtxView, fd: i32) -> (CtxView, Sys) {
    match fd_at(ctx.task.fds, fd as int) {
        None => (ctx, errno(Errno::BADF)),
        Some(entry) => match sh.descs.get(entry.desc) {
            None => (ctx, errno(Errno::BADF)),
            Some(desc) => if desc.kind is Dir {
                (moved_to(ctx, desc.path), Ok(0))
            } else {
                (ctx, errno(Errno::NOTDIR))
            },
        },
    }
}

pub fn sys_fchdir<F>(sh: &Shared<F>, ctx: &mut Ctx, fd: i32) -> (r: Sys)
    ensures
        fchdir_spec(sh@, old(ctx)@, fd) == (final(ctx)@, r),
{
    let entry = match ctx.task.fds.get(fd) {
        Ok(entry) => entry,
        Err(e) => return Err(Fault::Errno(e)),
    };
    match sh.descs.get(entry.desc) {
        None => Err(Fault::Errno(Errno::BADF)),
        Some(desc) => match desc.kind {
            DescKind::Dir { .. } => {
                ctx.task.cwd = desc.path.clone();
                Ok(0)
            },
            _ => Err(Fault::Errno(Errno::NOTDIR)),
        },
    }
}

/// `getcwd`: the directory and a NUL, if the buffer holds both.
pub open spec fn getcwd_spec(ctx: CtxView, mem: Seq<u8>, at: u32, size: u32) -> (Seq<u8>, Sys) {
    let bytes = encode_utf8(ctx.task.cwd);
    if size < bytes.len() + 1 {
        (mem, errno(Errno::RANGE))
    } else {
        let (m, done) = stores(
            mem,
            seq![(at as int, bytes), (wrapped(at, bytes.len() as int) as int, seq![0u8])],
        );
        match done {
            Err(e) => (m, errno(e)),
            Ok(()) => (m, Ok(held_sum(low_word(bytes.len() as int), 1))),
        }
    }
}

pub fn sys_getcwd(ctx: &Ctx, mem: &mut [u8], at: u32, size: u32) -> (r: Sys)
    ensures
        getcwd_spec(ctx@, old(mem)@, at, size) == (final(mem)@, r),
{
    let bytes = ctx.task.cwd.as_str().as_bytes_vec();
    if bytes.len() >= size as usize {
        return Err(Fault::Errno(Errno::RANGE));
    }
    proof {
        reveal_with_fuel(stores, 3);
    }
    match put(mem, at, bytes.as_slice()) {
        Ok(()) => {},
        Err(e) => return Err(Fault::Errno(e)),
    }
    match put_u8(mem, wrap(at, bytes.len() as u32), 0) {
        Ok(()) => {},
        Err(e) => return Err(Fault::Errno(e)),
    }
    let n: i32 = count_word(bytes.len());
    if n == i32::MAX {
        Ok(n)
    } else {
        Ok(n + 1)
    }
}

/// Whether a place on a mount is there at all, as a result.
pub open spec fn exists_spec<V: Vfs>(
    sh: SharedView<<V as VfsFile>::Handle>,
    fs: Seq<MountView<<V as VfsFile>::State>>,
    mount: usize,
    rel: Seq<char>,
    follow: bool,
) -> (SharedView<<V as VfsFile>::Handle>, Seq<MountView<<V as VfsFile>::State>>, Sys) {
    let (next, answer) = called::<V>(fs, mount as int, VfsCall::Stat { path: rel, follow });
    let (s, r) = after_call(sh, answer);
    (s, next, r)
}

fn check_exists<V: Vfs>(
    sh: &mut Shared<<V as VfsFile>::Handle>,
    fs: &mut Mounts<V>,
    mount: usize,
    rel: &str,
    follow: bool,
) -> (r: Sys)
    requires
        old(fs).wf(),
    ensures
        final(fs).wf(),
        exists_spec::<V>(old(sh)@, old(fs)@, mount, rel@, follow) == (final(sh)@, final(fs)@, r),
{
    match fs.stat(mount, rel, follow) {
        Ok(_) => Ok(0),
        Err(e) => Err(vfs_fault(sh, e)),
    }
}

/// Whether a link at the end of a path is followed, by the call's flags.
pub open spec fn follows(flags: i32) -> bool {
    flags & AT_SYMLINK_NOFOLLOW == 0
}

/// `faccessat`: everything that is there may be accessed.
pub open spec fn faccessat_spec<V: Vfs>(
    sh: SharedView<<V as VfsFile>::Handle>,
    ctx: CtxView,
    fs: Seq<MountView<<V as VfsFile>::State>>,
    mem: Seq<u8>,
    dirfd: i32,
    path_at: u32,
    flags: i32,
) -> (SharedView<<V as VfsFile>::Handle>, Seq<MountView<<V as VfsFile>::State>>, Sys) {
    match text_at(mem, path_at as int) {
        Err(e) => (sh, fs, errno(e)),
        Ok(path) => {
            let (s, f, node) = looked_up::<V>(sh, ctx, fs, dirfd, path, follows(flags));
            match node {
                Err(x) => (s, f, Err(x)),
                Ok(NodeView::Mounted { mount, rel, .. }) => exists_spec::<V>(
                    s,
                    f,
                    mount,
                    rel,
                    follows(flags),
                ),
                Ok(_) => (s, f, Ok(0)),
            }
        },
    }
}

pub fn sys_faccessat<V: Vfs>(
    sh: &mut Shared<<V as VfsFile>::Handle>,
    ctx: &Ctx,
    fs: &mut Mounts<V>,
    mem: &[u8],
    dirfd: i32,
    path_at: u32,
    flags: i32,
) -> (r: Sys)
    requires
        old(fs).wf(),
    ensures
        final(fs).wf(),
        faccessat_spec::<V>(old(sh)@, ctx@, old(fs)@, mem@, dirfd, path_at, flags) == (
            final(sh)@,
            final(fs)@,
            r,
        ),
{
    let path = match cstr(mem, path_at) {
        Ok(path) => path,
        Err(e) => return Err(Fault::Errno(e)),
    };
    let follow = flags & AT_SYMLINK_NOFOLLOW == 0;
    match resolve(sh, ctx, fs, dirfd, path.as_str(), follow) {
        Err(x) => Err(x),
        Ok(Node::Mounted { mount, rel, .. }) => check_exists(sh, fs, mount, rel.as_str(), follow),
        Ok(_) => Ok(0),
    }
}

/// `utimensat`: timestamps are not stored, but the path has to exist, because `touch` uses the
/// failure to decide whether to create the file.
pub open spec fn utimensat_spec<V: Vfs>(
    sh: SharedView<<V as VfsFile>::Handle>,
    ctx: CtxView,
    fs: Seq<MountView<<V as VfsFile>::State>>,
    mem: Seq<u8>,
    dirfd: i32,
    path_at: u32,
    flags: i32,
) -> (SharedView<<V as VfsFile>::Handle>, Seq<MountView<<V as VfsFile>::State>>, Sys) {
    match text_at(mem, path_at as int) {
        Err(e) => (sh, fs, errno(e)),
        Ok(path) => if path.len() == 0 {
            (sh, fs, Ok(0))
        } else {
            let (s, f, node) = looked_up::<V>(sh, ctx, fs, dirfd, path, follows(flags));
            match node {
                Err(x) => (s, f, Err(x)),
                Ok(NodeView::Mounted { mount, rel, .. }) => exists_spec::<V>(s, f, mount, rel, true),
                Ok(_) => (s, f, Ok(0)),
            }
        },
    }
}

pub fn sys_utimensat<V: Vfs>(
    sh: &mut Shared<<V as VfsFile>::Handle>,
    ctx: &Ctx,
    fs: &mut Mounts<V>,
    mem: &[u8],
    dirfd: i32,
    path_at: u32,
    flags: i32,
) -> (r: Sys)
    requires
        old(fs).wf(),
    ensures
        final(fs).wf(),
        utimensat_spec::<V>(old(sh)@, ctx@, old(fs)@, mem@, dirfd, path_at, flags) == (
            final(sh)@,
            final(fs)@,
            r,
        ),
{
    let path = match cstr(mem, path_at) {
        Ok(path) => path,
        Err(e) => return Err(Fault::Errno(e)),
    };
    if path.as_str().is_empty() {
        return Ok(0);
    }
    let follow = flags & AT_SYMLINK_NOFOLLOW == 0;
    match resolve(sh, ctx, fs, dirfd, path.as_str(), follow) {
        Err(x) => Err(x),
        Ok(Node::Mounted { mount, rel, .. }) => check_exists(sh, fs, mount, rel.as_str(), true),
        Ok(_) => Ok(0),
    }
}

/// What a link says, with the session and the mounts after finding out.
pub open spec fn link_text<V: Vfs>(
    sh: SharedView<<V as VfsFile>::Handle>,
    ctx: CtxView,
    fs: Seq<MountView<<V as VfsFile>::State>>,
    node: NodeView,
) -> (
    SharedView<<V as VfsFile>::Handle>,
    Seq<MountView<<V as VfsFile>::State>>,
    Result<Seq<char>, Fault>,
) {
    match node {
        NodeView::VirtualLink { target, .. } => (sh, fs, Ok(target)),
        NodeView::Device { device: Device::Fd(fd), .. } => match fd_at(ctx.task.fds, fd as int) {
            None => (sh, fs, errno(Errno::BADF)),
            Some(entry) => match sh.descs.get(entry.desc) {
                None => (sh, fs, errno(Errno::BADF)),
                Some(desc) => (sh, fs, Ok(desc.path)),
            },
        },
        NodeView::Mounted { mount, rel, .. } => {
            let (next, answer) = called::<V>(fs, mount as int, VfsCall::Readlink { path: rel });
            match answer {
                VfsAnswer::Target(target) => (sh, next, Ok(target)),
                VfsAnswer::Fail(e) => (noted(sh, e), next, Err(fault_of(e))),
                _ => (sh, next, errno(Errno::INVAL)),
            }
        },
        _ => (sh, fs, errno(Errno::INVAL)),
    }
}

/// The first `n` bytes of a text, or all of them.
pub open spec fn head(bytes: Seq<u8>, n: int) -> Seq<u8> {
    if n < bytes.len() {
        bytes.subrange(0, n)
    } else {
        bytes
    }
}

/// `readlinkat`: as much of the target as fits.
pub open spec fn readlinkat_spec<V: Vfs>(
    sh: SharedView<<V as VfsFile>::Handle>,
    ctx: CtxView,
    fs: Seq<MountView<<V as VfsFile>::State>>,
    mem: Seq<u8>,
    dirfd: i32,
    path_at: u32,
    buffer: u32,
    size: u32,
) -> (
    SharedView<<V as VfsFile>::Handle>,
    Seq<MountView<<V as VfsFile>::State>>,
    Seq<u8>,
    Sys,
) {
    match text_at(mem, path_at as int) {
        Err(e) => (sh, fs, mem, errno(e)),
        Ok(path) => {
            let (s, f, node) = looked_up::<V>(sh, ctx, fs, dirfd, path, false);
            match node {
                Err(x) => (s, f, mem, Err(x)),
                Ok(node) => {
                    let (s2, f2, text) = link_text::<V>(s, ctx, f, node);
                    match text {
                        Err(x) => (s2, f2, mem, Err(x)),
                        Ok(target) => {
                            let bytes = head(encode_utf8(target), size as int);
                            let (m, done) = store(mem, buffer as int, bytes);
                            match done {
                                Err(e) => (s2, f2, m, errno(e)),
                                Ok(()) => (s2, f2, m, Ok(low_word(bytes.len() as int))),
                            }
                        },
                    }
                },
            }
        },
    }
}

fn read_target<V: Vfs>(
    sh: &mut Shared<<V as VfsFile>::Handle>,
    ctx: &Ctx,
    fs: &mut Mounts<V>,
    node: Node,
) -> (r: Result<String, Fault>)
    requires
        old(fs).wf(),
    ensures
        final(fs).wf(),
        link_text::<V>(old(sh)@, ctx@, old(fs)@, node@) == (
            final(sh)@,
            final(fs)@,
            match r {
                Ok(t) => Ok::<Seq<char>, Fault>(t@),
                Err(x) => Err(x),
            },
        ),
{
    match node {
        Node::VirtualLink { target, .. } => Ok(target),
        Node::Device { device: Device::Fd(fd), .. } => {
            let entry = match ctx.task.fds.get(fd) {
                Ok(entry) => entry,
                Err(e) => return Err(Fault::Errno(e)),
            };
            match sh.descs.get(entry.desc) {
                None => Err(Fault::Errno(Errno::BADF)),
                Some(desc) => Ok(desc.path.clone()),
            }
        },
        Node::Mounted { mount, rel, .. } => match fs.readlink(mount, rel.as_str()) {
            Ok(target) => Ok(target),
            Err(e) => Err(vfs_fault(sh, e)),
        },
        _ => Err(Fault::Errno(Errno::INVAL)),
    }
}

pub fn sys_readlinkat<V: Vfs>(
    sh: &mut Shared<<V as VfsFile>::Handle>,
    ctx: &Ctx,
    fs: &mut Mounts<V>,
    mem: &mut [u8],
    dirfd: i32,
    path_at: u32,
    buffer: u32,
    size: u32,
) -> (r: Sys)
    requires
        old(fs).wf(),
    ensures
        final(fs).wf(),
        readlinkat_spec::<V>(
            old(sh)@,
            ctx@,
            old(fs)@,
            old(mem)@,
            dirfd,
            path_at,
            buffer,
            size,
        ) == (final(sh)@, final(fs)@, final(mem)@, r),
{
    let path = match cstr(mem, path_at) {
        Ok(path) => path,
        Err(e) => return Err(Fault::Errno(e)),
    };
    let node = match resolve(sh, ctx, fs, dirfd, path.as_str(), false) {
        Ok(node) => node,
        Err(x) => return Err(x),
    };
    let target = match read_target(sh, ctx, fs, node) {
        Ok(target) => target,
        Err(x) => return Err(x),
    };
    let mut bytes = target.as_str().as_bytes_vec();
    if (size as usize) < bytes.len() {
        bytes.truncate(size as usize);
    }
    match put(mem, buffer, bytes.as_slice()) {
        Ok(()) => Ok(count_word(bytes.len())),
        Err(e) => Err(Fault::Errno(e)),
    }
}

/// What a creation fails with where its path belongs to no mount: the place is read-only.
pub open spec fn no_mount_is_read_only(x: Fault) -> Fault {
    if x matches Fault::Errno(e) && e.is_same(Errno::NOENT) {
        Fault::Errno(Errno::ROFS)
    } else {
        x
    }
}

fn read_only_outside(x: Fault) -> (r: Fault)
    ensures
        r == no_mount_is_read_only(x),
{
    match x {
        Fault::Errno(e) => if e.same_as(Errno::NOENT) {
            Fault::Errno(Errno::ROFS)
        } else {
            x
        },
        _ => x,
    }
}

/// Creating something at a path: only on a mount, and not where the kernel has something.
pub open spec fn created<V: Vfs>(
    found: (
        SharedView<<V as VfsFile>::Handle>,
        Seq<MountView<<V as VfsFile>::State>>,
        Result<NodeView, Fault>,
    ),
    call: spec_fn(Seq<char>) -> VfsCall,
) -> (SharedView<<V as VfsFile>::Handle>, Seq<MountView<<V as VfsFile>::State>>, Sys) {
    let (s, f, node) = found;
    match node {
        Err(x) => (s, f, Err(no_mount_is_read_only(x))),
        Ok(NodeView::Mounted { mount, rel, .. }) => changed::<V>(s, f, mount, call(rel)),
        Ok(_) => (s, f, errno(Errno::EXIST)),
    }
}

/// `mkdirat`.
pub open spec fn mkdirat_spec<V: Vfs>(
    sh: SharedView<<V as VfsFile>::Handle>,
    ctx: CtxView,
    fs: Seq<MountView<<V as VfsFile>::State>>,
    mem: Seq<u8>,
    dirfd: i32,
    path_at: u32,
    mode: u32,
) -> (SharedView<<V as VfsFile>::Handle>, Seq<MountView<<V as VfsFile>::State>>, Sys) {
    match text_at(mem, path_at as int) {
        Err(e) => (sh, fs, errno(e)),
        Ok(path) => created::<V>(
            looked_up::<V>(sh, ctx, fs, dirfd, path, true),
            |rel: Seq<char>|
                VfsCall::Mkdir { path: rel, mode: mode & !ctx.task.umask & 0x1ff },
        ),
    }
}

pub fn sys_mkdirat<V: Vfs>(
    sh: &mut Shared<<V as VfsFile>::Handle>,
    ctx: &Ctx,
    fs: &mut Mounts<V>,
    mem: &[u8],
    dirfd: i32,
    path_at: u32,
    mode: u32,
) -> (r: Sys)
    requires
        old(fs).wf(),
    ensures
        final(fs).wf(),
        mkdirat_spec::<V>(old(sh)@, ctx@, old(fs)@, mem@, dirfd, path_at, mode) == (
            final(sh)@,
            final(fs)@,
            r,
        ),
{
    let path = match cstr(mem, path_at) {
        Ok(path) => path,
        Err(e) => return Err(Fault::Errno(e)),
    };
    let mode: u32 = mode & !ctx.task.umask & 0x1ff;
    match resolve(sh, ctx, fs, dirfd, path.as_str(), true) {
        Err(x) => Err(read_only_outside(x)),
        Ok(Node::Mounted { mount, rel, .. }) => {
            if fs.is_read_only(mount) {
                return Err(Fault::Errno(Errno::ROFS));
            }
            let done = fs.mkdir(mount, rel.as_str(), mode);
            finish_call::<_, <V as VfsFile>::Handle>(sh, done)
        },
        Ok(_) => Err(Fault::Errno(Errno::EXIST)),
    }
}

/// `symlinkat`.
pub open spec fn symlinkat_spec<V: Vfs>(
    sh: SharedView<<V as VfsFile>::Handle>,
    ctx: CtxView,
    fs: Seq<MountView<<V as VfsFile>::State>>,
    mem: Seq<u8>,
    target_at: u32,
    dirfd: i32,
    link_at: u32,
) -> (SharedView<<V as VfsFile>::Handle>, Seq<MountView<<V as VfsFile>::State>>, Sys) {
    match text_at(mem, target_at as int) {
        Err(e) => (sh, fs, errno(e)),
        Ok(target) => match text_at(mem, link_at as int) {
            Err(e) => (sh, fs, errno(e)),
            Ok(link) => created::<V>(
                looked_up::<V>(sh, ctx, fs, dirfd, link, false),
                |rel: Seq<char>| VfsCall::Symlink { target, link: rel },
            ),
        },
    }
}

pub fn sys_symlinkat<V: Vfs>(
    sh: &mut Shared<<V as VfsFile>::Handle>,
    ctx: &Ctx,
    fs: &mut Mounts<V>,
    mem: &[u8],
    target_at: u32,
    dirfd: i32,
    link_at: u32,
) -> (r: Sys)
    requires
        old(fs).wf(),
    ensures
        final(fs).wf(),
        symlinkat_spec::<V>(old(sh)@, ctx@, old(fs)@, mem@, target_at, dirfd, link_at) == (
            final(sh)@,
            final(fs)@,
            r,
        ),
{
    let target = match cstr(mem, target_at) {
        Ok(target) => target,
        Err(e) => return Err(Fault::Errno(e)),
    };
    let link = match cstr(mem, link_at) {
        Ok(link) => link,
        Err(e) => return Err(Fault::Errno(e)),
    };
    match resolve(sh, ctx, fs, dirfd, link.as_str(), false) {
        Err(x) => Err(read_only_outside(x)),
        Ok(Node::Mounted { mount, rel, .. }) => {
            if fs.is_read_only(mount) {
                return Err(Fault::Errno(Errno::ROFS));
            }
            let done = fs.symlink(mount, target.as_str(), rel.as_str());
            finish_call::<_, <V as VfsFile>::Handle>(sh, done)
        },
        Ok(_) => Err(Fault::Errno(Errno::EXIST)),
    }
}

/// `unlinkat`: what the kernel provides cannot be removed.
pub open spec fn unlinkat_spec<V: Vfs>(
    sh: SharedView<<V as VfsFile>::Handle>,
    ctx: CtxView,
    fs: Seq<MountView<<V as VfsFile>::State>>,
    mem: Seq<u8>,
    dirfd: i32,
    path_at: u32,
    flags: i32,
) -> (SharedView<<V as VfsFile>::Handle>, Seq<MountView<<V as VfsFile>::State>>, Sys) {
    match text_at(mem, path_at as int) {
        Err(e) => (sh, fs, errno(e)),
        Ok(path) => {
            let (s, f, node) = looked_up::<V>(sh, ctx, fs, dirfd, path, false);
            match node {
                Err(x) => (s, f, Err(x)),
                Ok(NodeView::Mounted { mount, rel, .. }) => changed::<V>(
                    s,
                    f,
                    mount,
                    if flags & AT_REMOVEDIR != 0 {
                        VfsCall::Rmdir { path: rel }
                    } else {
                        VfsCall::Unlink { path: rel }
                    },
                ),
                Ok(_) => (s, f, errno(Errno::ROFS)),
            }
        },
    }
}

pub fn sys_unlinkat<V: Vfs>(
    sh: &mut Shared<<V as VfsFile>::Handle>,
    ctx: &Ctx,
    fs: &mut Mounts<V>,
    mem: &[u8],
    dirfd: i32,
    path_at: u32,
    flags: i32,
) -> (r: Sys)
    requires
        old(fs).wf(),
    ensures
        final(fs).wf(),
        unlinkat_spec::<V>(old(sh)@, ctx@, old(fs)@, mem@, dirfd, path_at, flags) == (
            final(sh)@,
            final(fs)@,
            r,
        ),
{
    let path = match cstr(mem, path_at) {
        Ok(path) => path,
        Err(e) => return Err(Fault::Errno(e)),
    };
    match resolve(sh, ctx, fs, dirfd, path.as_str(), false) {
        Err(x) => Err(x),
        Ok(Node::Mounted { mount, rel, .. }) => {
            if fs.is_read_only(mount) {
                return Err(Fault::Errno(Errno::ROFS));
            }
            let done = if flags & AT_REMOVEDIR != 0 {
                fs.rmdir(mount, rel.as_str())
            } else {
                fs.unlink(mount, rel.as_str())
            };
            finish_call::<_, <V as VfsFile>::Handle>(sh, done)
        },
        Ok(_) => Err(Fault::Errno(Errno::ROFS)),
    }
}

/// `renameat`: within one mount.
pub open spec fn renameat_spec<V: Vfs>(
    sh: SharedView<<V as VfsFile>::Handle>,
    ctx: CtxView,
    fs: Seq<MountView<<V as VfsFile>::State>>,
    mem: Seq<u8>,
    from_dir: i32,
    from_at: u32,
    to_dir: i32,
    to_at: u32,
) -> (SharedView<<V as VfsFile>::Handle>, Seq<MountView<<V as VfsFile>::State>>, Sys) {
    match text_at(mem, from_at as int) {
        Err(e) => (sh, fs, errno(e)),
        Ok(from) => match text_at(mem, to_at as int) {
            Err(e) => (sh, fs, errno(e)),
            Ok(to) => {
                let (s1, f1, source) = looked_up::<V>(sh, ctx, fs, from_dir, from, false);
                match source {
                    Err(x) => (s1, f1, Err(x)),
                    Ok(source) => {
                        let (s2, f2, target) = looked_up::<V>(s1, ctx, f1, to_dir, to, false);
                        match (source, target) {
                            (_, Err(x)) => (s2, f2, Err(x)),
                            (
                                NodeView::Mounted { mount: m1, rel: r1, .. },
                                Ok(NodeView::Mounted { mount: m2, rel: r2, .. }),
                            ) => if m1 != m2 {
                                (s2, f2, errno(Errno::XDEV))
                            } else {
                                changed::<V>(s2, f2, m1, VfsCall::Rename { from: r1, to: r2 })
                            },
                            _ => (s2, f2, errno(Errno::ROFS)),
                        }
                    },
                }
            },
        },
    }
}

pub fn sys_renameat<V: Vfs>(
    sh: &mut Shared<<V as VfsFile>::Handle>,
    ctx: &Ctx,
    fs: &mut Mounts<V>,
    mem: &[u8],
    from_dir: i32,
    from_at: u32,
    to_dir: i32,
    to_at: u32,
) -> (r: Sys)
    requires
        old(fs).wf(),
    ensures
        final(fs).wf(),
        renameat_spec::<V>(
            old(sh)@,
            ctx@,
            old(fs)@,
            mem@,
            from_dir,
            from_at,
            to_dir,
            to_at,
        ) == (final(sh)@, final(fs)@, r),
{
    let from = match cstr(mem, from_at) {
        Ok(from) => from,
        Err(e) => return Err(Fault::Errno(e)),
    };
    let to = match cstr(mem, to_at) {
        Ok(to) => to,
        Err(e) => return Err(Fault::Errno(e)),
    };
    let source = match resolve(sh, ctx, fs, from_dir, from.as_str(), false) {
        Ok(node) => node,
        Err(x) => return Err(x),
    };
    let target = match resolve(sh, ctx, fs, to_dir, to.as_str(), false) {
        Ok(node) => node,
        Err(x) => return Err(x),
    };
    match (source, target) {
        (Node::Mounted { mount: m1, rel: r1, .. }, Node::Mounted { mount: m2, rel: r2, .. }) => {
            if m1 != m2 {
                return Err(Fault::Errno(Errno::XDEV));
            }
            if fs.is_read_only(m1) {
                return Err(Fault::Errno(Errno::ROFS));
            }
            let done = fs.rename(m1, r1.as_str(), r2.as_str());
            finish_call::<_, <V as VfsFile>::Handle>(sh, done)
        },
        _ => Err(Fault::Errno(Errno::ROFS)),
    }
}

/// `fchmodat`: what the kernel provides accepts and ignores it.
pub open spec fn fchmodat_spec<V: Vfs>(
    sh: SharedView<<V as VfsFile>::Handle>,
    ctx: CtxView,
    fs: Seq<MountView<<V as VfsFile>::State>>,
    mem: Seq<u8>,
    dirfd: i32,
    path_at: u32,
    mode: u32,
) -> (SharedView<<V as VfsFile>::Handle>, Seq<MountView<<V as VfsFile>::State>>, Sys) {
    match text_at(mem, path_at as int) {
        Err(e) => (sh, fs, errno(e)),
        Ok(path) => {
            let (s, f, node) = looked_up::<V>(sh, ctx, fs, dirfd, path, true);
            match node {
                Err(x) => (s, f, Err(x)),
                Ok(NodeView::Mounted { mount, rel, .. }) => changed::<V>(
                    s,
                    f,
                    mount,
                    VfsCall::SetMode { path: rel, mode: mode & 0xfff },
                ),
                Ok(_) => (s, f, Ok(0)),
            }
        },
    }
}

pub fn sys_fchmodat<V: Vfs>(
    sh: &mut Shared<<V as VfsFile>::Handle>,
    ctx: &Ctx,
    fs: &mut Mounts<V>,
    mem: &[u8],
    dirfd: i32,
    path_at: u32,
    mode: u32,
) -> (r: Sys)
    requires
        old(fs).wf(),
    ensures
        final(fs).wf(),
        fchmodat_spec::<V>(old(sh)@, ctx@, old(fs)@, mem@, dirfd, path_at, mode) == (
            final(sh)@,
            final(fs)@,
            r,
        ),
{
    let path = match cstr(mem, path_at) {
        Ok(path) => path,
        Err(e) => return Err(Fault::Errno(e)),
    };
    match resolve(sh, ctx, fs, dirfd, path.as_str(), true) {
        Err(x) => Err(x),
        Ok(Node::Mounted { mount, rel, .. }) => {
            if fs.is_read_only(mount) {
                return Err(Fault::Errno(Errno::ROFS));
            }
            let done = fs.set_mode(mount, rel.as_str(), mode & 0xfff);
            finish_call::<_, <V as VfsFile>::Handle>(sh, done)
        },
        Ok(_) => Ok(0),
    }
}

/// The `statfs` block: magic, block size, longest name and fragment size.
pub open spec fn statfs_block() -> Seq<u8> {
    patched(
        patched(
            patched(patched(zeros(88), 0, le32(0x5741534d)), 4, le32(4096)),
            56,
            le32(255),
        ),
        60,
        le32(4096),
    )
}

/// Writing a whole block: zero, or the fault.
pub open spec fn put_block(mem: Seq<u8>, at: u32, block: Seq<u8>) -> (Seq<u8>, Sys) {
    match store(mem, at as int, block) {
        (m, Ok(())) => (m, Ok(0)),
        (m, Err(e)) => (m, errno(e)),
    }
}

pub fn write_block(mem: &mut [u8], at: u32, block: &Vec<u8>) -> (r: Sys)
    ensures
        put_block(old(mem)@, at, block@) == (final(mem)@, r),
{
    match put(mem, at, block.as_slice()) {
        Ok(()) => Ok(0),
        Err(e) => Err(Fault::Errno(e)),
    }
}

/// `statfs` and `fstatfs`: every filesystem looks the same.
pub fn sys_statfs(mem: &mut [u8], at: u32) -> (r: Sys)
    ensures
        put_block(old(mem)@, at, statfs_block()) == (final(mem)@, r),
{
    let mut block = zeroed(88);
    set_field(&mut block, 0, &bytes32(0x5741534d));
    set_field(&mut block, 4, &bytes32(4096));
    set_field(&mut block, 56, &bytes32(255));
    set_field(&mut block, 60, &bytes32(4096));
    write_block(mem, at, &block)
}

} // verus!
