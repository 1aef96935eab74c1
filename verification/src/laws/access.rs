//! Every system call, and every other thing the kernel does, keeps to what a mounted
//! filesystem may be asked.
use super::mounts::{
    changes, kept_at, law_paths_stay_inside_their_mounts, lemma_respected_call,
    lemma_respected_file_call, lemma_respected_same, lemma_respected_then, names_own, own_path,
    points, respected,
};
use crate::nr;
use crate::abi::{
    AT_FDCWD, AT_REMOVEDIR, O_ACCMODE, O_APPEND, O_CREAT, O_NOFOLLOW, O_NONBLOCK, O_TRUNC,
};
use crate::errno::Errno;
use crate::kernel::fd::{cloexec_descs, fd_at, live_descs, retained, DescView, KindView};
use crate::kernel::mem::{strings_at, text_at, word_of};
use crate::kernel::mounts::{called, file_called, refuses_writes, MountView};
use crate::kernel::namespace::NodeView;
use crate::kernel::state::{released, released_all, Call, CtxView, SharedView};
use crate::syscall::base::{base_of, changed, errno, held_sum, looked_up, Fault, Sys, World};
use crate::syscall::exec::{
    exec_done, execve_spec, head_of, interpreter_of, script_args, script_exec, shebang_text, HEAD,
};
use crate::syscall::fds::{
    close_spec, dup3_spec, file_closing, ftruncate_spec, lseek_spec, seek_from,
};
use crate::syscall::io::{
    least, read_spec, sys_read_spec, sys_write_spec, write_kind, write_spec, MAX_READ,
};
use crate::syscall::memory::{byte_offset, mapped, mmap_spec, position_of, read_on};
use crate::syscall::open::{
    installed, mounted_opening, node_opening, openat_spec, options_of, wants_write, Opening,
};
use crate::syscall::path::{
    chdir_spec, faccessat_spec, fchmodat_spec, follows, mkdirat_spec, readlinkat_spec,
    renameat_spec, symlinkat_spec, truncate_spec, unlinkat_spec, utimensat_spec,
};
use crate::syscall::process::exit_spec;
use crate::syscall::stat::statx_spec;
use crate::syscall::table::{
    concluded, counted, dispatched, file_call, handled, handled_grown, length_of, path_call,
    process_call, signal_call, ClockView,
};
use crate::syscall::vector::{iovec, readv_from, vector_count, writev_from};
use crate::vfs::{
    no_options, FileAnswer, FileCall, OpenOptions, SeekFrom, Vfs, VfsAnswer, VfsCall, VfsFile,
};
use vstd::prelude::*;

verus! {

/// Whether a place that a path led to can be asked for: a mount that is there, and a path of its
/// own.
spec fn askable<S>(fs: Seq<MountView<S>>, node: NodeView) -> bool {
    node matches NodeView::Mounted { mount, rel, .. } ==> mount < fs.len() && own_path(
        points(fs),
        mount as int,
        rel,
    )
}

proof fn lemma_looked_up<V: Vfs>(
    sh: SharedView<<V as VfsFile>::Handle>,
    ctx: CtxView,
    fs: Seq<MountView<<V as VfsFile>::State>>,
    dirfd: i32,
    path: Seq<char>,
    follow: bool,
)
    requires
        fs.len() <= usize::MAX,
    ensures
        respected::<V>(fs, looked_up::<V>(sh, ctx, fs, dirfd, path, follow).1),
        looked_up::<V>(sh, ctx, fs, dirfd, path, follow).2 matches Ok(node) ==> askable(
            looked_up::<V>(sh, ctx, fs, dirfd, path, follow).1,
            node,
        ),
        looked_up::<V>(sh, ctx, fs, dirfd, path, follow).1.len() == fs.len(),
{
    lemma_respected_same::<V>(fs);
    if let Ok(base) = base_of(sh, ctx, dirfd, path) {
        law_paths_stay_inside_their_mounts::<V>(sh.overlay, fs, ctx.who(), base, path, follow);
    }
}

proof fn lemma_changed<V: Vfs>(
    sh: SharedView<<V as VfsFile>::Handle>,
    fs: Seq<MountView<<V as VfsFile>::State>>,
    mount: usize,
    call: VfsCall,
)
    requires
        0 <= mount < fs.len() ==> names_own(points(fs), mount as int, call),
    ensures
        respected::<V>(fs, changed::<V>(sh, fs, mount, call).1),
{
    lemma_respected_same::<V>(fs);
    if !refuses_writes(fs, mount as int) {
        lemma_respected_call::<V>(fs, mount as int, call);
    }
}

proof fn lemma_released<V: Vfs>(
    sh: SharedView<<V as VfsFile>::Handle>,
    fs: Seq<MountView<<V as VfsFile>::State>>,
    k: u32,
)
    ensures
        respected::<V>(fs, released::<V>(sh, fs, k).1),
{
    lemma_respected_same::<V>(fs);
    if let Some(d) = sh.descs.get(k) {
        if let KindView::File { file, mount, closed } = d.kind {
            lemma_respected_file_call::<V>(fs, mount as int, file, FileCall::Close);
        }
    }
}

pub proof fn lemma_released_all<V: Vfs>(
    sh: SharedView<<V as VfsFile>::Handle>,
    fs: Seq<MountView<<V as VfsFile>::State>>,
    keys: Seq<u32>,
)
    ensures
        respected::<V>(fs, released_all::<V>(sh, fs, keys).1),
    decreases keys.len(),
{
    lemma_respected_same::<V>(fs);
    if keys.len() > 0 {
        lemma_released_all::<V>(sh, fs, keys.drop_last());
        let (s, f) = released_all::<V>(sh, fs, keys.drop_last());
        lemma_released::<V>(s, f, keys.last());
        lemma_respected_then::<V>(fs, f, released::<V>(s, f, keys.last()).1);
    }
}

proof fn lemma_options(flags: u32, mode: u32, umask: u32, rel: Seq<char>)
    requires
        !wants_write(flags),
    ensures
        !changes(VfsCall::Open { path: rel, opts: options_of(flags, mode, umask) }),
{
    assert(flags & (O_CREAT | O_TRUNC) == 0 ==> flags & O_CREAT == 0 && flags & O_TRUNC == 0)
        by (bit_vector)
        requires
            O_CREAT == 0x40u32,
            O_TRUNC == 0x200u32,
    ;
}

proof fn lemma_mounted_opening<V: Vfs>(
    sh: SharedView<<V as VfsFile>::Handle>,
    fs: Seq<MountView<<V as VfsFile>::State>>,
    umask: u32,
    mount: usize,
    rel: Seq<char>,
    guest: Seq<char>,
    flags: u32,
    mode: u32,
)
    requires
        0 <= mount < fs.len() ==> own_path(points(fs), mount as int, rel),
    ensures
        respected::<V>(fs, mounted_opening::<V>(sh, fs, umask, mount, rel, guest, flags, mode).1),
{
    lemma_respected_same::<V>(fs);
    if !(wants_write(flags) && refuses_writes(fs, mount as int)) {
        let look = VfsCall::Stat { path: rel, follow: true };
        let f1 = called::<V>(fs, mount as int, look).0;
        lemma_respected_call::<V>(fs, mount as int, look);
        let list = VfsCall::Readdir { path: rel };
        lemma_respected_call::<V>(f1, mount as int, list);
        lemma_respected_then::<V>(fs, f1, called::<V>(f1, mount as int, list).0);
        let open = VfsCall::Open { path: rel, opts: options_of(flags, mode, umask) };
        if !wants_write(flags) {
            lemma_options(flags, mode, umask, rel);
        }
        if 0 <= mount < fs.len() {
            assert(kept_at::<V>(fs, f1, mount as int));
        }
        lemma_respected_call::<V>(f1, mount as int, open);
        lemma_respected_then::<V>(fs, f1, called::<V>(f1, mount as int, open).0);
    }
}

proof fn lemma_openat<V: Vfs>(
    sh: SharedView<<V as VfsFile>::Handle>,
    ctx: CtxView,
    fs: Seq<MountView<<V as VfsFile>::State>>,
    mem: Seq<u8>,
    uptime: Seq<char>,
    dirfd: i32,
    path_at: u32,
    flags: u32,
    mode: u32,
)
    requires
        fs.len() <= usize::MAX,
    ensures
        respected::<V>(fs, openat_spec::<V>(sh, ctx, fs, mem, uptime, dirfd, path_at, flags, mode).2),
{
    lemma_respected_same::<V>(fs);
    if let Ok(path) = text_at(mem, path_at as int) {
        let follow = flags & O_NOFOLLOW == 0;
        lemma_looked_up::<V>(sh, ctx, fs, dirfd, path, follow);
        let (s, f, node) = looked_up::<V>(sh, ctx, fs, dirfd, path, follow);
        if let Ok(node) = node {
            lemma_respected_same::<V>(f);
            if let NodeView::Mounted { mount, rel, guest } = node {
                lemma_mounted_opening::<V>(s, f, ctx.task.umask, mount, rel, guest, flags, mode);
            }
            let (s2, f2, opening) = node_opening::<V>(s, ctx, f, uptime, node, flags, mode);
            assert(respected::<V>(f, f2));
            lemma_respected_then::<V>(fs, f, f2);
            lemma_installed::<V>(s2, ctx, f2, opening, flags);
            lemma_respected_then::<V>(fs, f2, installed::<V>(s2, ctx, f2, opening, flags).2);
        }
    }
}

proof fn lemma_installed<V: Vfs>(
    sh: SharedView<<V as VfsFile>::Handle>,
    ctx: CtxView,
    fs: Seq<MountView<<V as VfsFile>::State>>,
    opening: Opening<<V as VfsFile>::Handle>,
    flags: u32,
)
    ensures
        respected::<V>(fs, installed::<V>(sh, ctx, fs, opening, flags).2),
{
    lemma_respected_same::<V>(fs);
    if let Opening::Fresh(kind, guest) = opening {
        let key = sh.descs.next_key();
        let desc = DescView::fresh(
            kind,
            guest,
            flags & (O_ACCMODE | O_APPEND | O_NONBLOCK),
        );
        let s = SharedView { descs: sh.descs.insert(desc), ..sh };
        lemma_released::<V>(s, fs, key);
    }
}

proof fn lemma_close<V: Vfs>(
    sh: SharedView<<V as VfsFile>::Handle>,
    ctx: CtxView,
    fs: Seq<MountView<<V as VfsFile>::State>>,
    fd: i32,
)
    ensures
        respected::<V>(fs, close_spec::<V>(sh, ctx, fs, fd).2),
{
    lemma_respected_same::<V>(fs);
    if let Some(entry) = fd_at(ctx.task.fds, fd as int) {
        if let Some(d) = sh.descs.get(entry.desc) {
            if let KindView::File { file, mount, closed } = d.kind {
                lemma_respected_file_call::<V>(fs, mount as int, file, FileCall::Close);
            }
        }
        let (s1, f1, said) = file_closing::<V>(sh, fs, entry.desc);
        lemma_released::<V>(s1, f1, entry.desc);
        lemma_respected_then::<V>(fs, f1, released::<V>(s1, f1, entry.desc).1);
    }
}

proof fn lemma_dup3<V: Vfs>(
    sh: SharedView<<V as VfsFile>::Handle>,
    ctx: CtxView,
    fs: Seq<MountView<<V as VfsFile>::State>>,
    fd: i32,
    to: i32,
    flags: u32,
)
    ensures
        respected::<V>(fs, dup3_spec::<V>(sh, ctx, fs, fd, to, flags).2),
{
    lemma_respected_same::<V>(fs);
    if let Some(entry) = fd_at(ctx.task.fds, fd as int) {
        let s = SharedView {
            descs: retained(sh.descs, entry.desc),
            ..sh
        };
        if let Some(was) = fd_at(ctx.task.fds, to as int) {
            lemma_released::<V>(s, fs, was.desc);
        }
    }
}

proof fn lemma_lseek<V: Vfs>(
    sh: SharedView<<V as VfsFile>::Handle>,
    ctx: CtxView,
    fs: Seq<MountView<<V as VfsFile>::State>>,
    fd: i32,
    offset: i32,
    whence: i32,
)
    ensures
        respected::<V>(fs, lseek_spec::<V>(sh, ctx, fs, fd, offset, whence).1),
{
    lemma_respected_same::<V>(fs);
    if let Some(entry) = fd_at(ctx.task.fds, fd as int) {
        if let Some(d) = sh.descs.get(entry.desc) {
            if let KindView::File { file, mount, closed } = d.kind {
                if let Some(from) = seek_from(offset, whence) {
                    lemma_respected_file_call::<V>(
                        fs,
                        mount as int,
                        file,
                        FileCall::Seek { from },
                    );
                }
            }
        }
    }
}

proof fn lemma_ftruncate<V: Vfs>(
    sh: SharedView<<V as VfsFile>::Handle>,
    ctx: CtxView,
    fs: Seq<MountView<<V as VfsFile>::State>>,
    fd: i32,
    len: u64,
)
    ensures
        respected::<V>(fs, ftruncate_spec::<V>(sh, ctx, fs, fd, len).1),
{
    lemma_respected_same::<V>(fs);
    if let Some(entry) = fd_at(ctx.task.fds, fd as int) {
        if let Some(d) = sh.descs.get(entry.desc) {
            if let KindView::File { file, mount, closed } = d.kind {
                if !refuses_writes(fs, mount as int) {
                    lemma_respected_file_call::<V>(
                        fs,
                        mount as int,
                        file,
                        FileCall::SetLen { len },
                    );
                }
            }
        }
    }
}

pub proof fn lemma_read<V: Vfs>(
    sh: SharedView<<V as VfsFile>::Handle>,
    ctx: CtxView,
    fs: Seq<MountView<<V as VfsFile>::State>>,
    realtime: u128,
    fd: i32,
    len: usize,
)
    ensures
        respected::<V>(fs, read_spec::<V>(sh, ctx, fs, realtime, fd, len).1),
{
    lemma_respected_same::<V>(fs);
    if let Some(entry) = fd_at(ctx.task.fds, fd as int) {
        if let Some(d) = sh.descs.get(entry.desc) {
            if let KindView::File { file, mount, closed } = d.kind {
                lemma_respected_file_call::<V>(
                    fs,
                    mount as int,
                    file,
                    FileCall::Read { max: len },
                );
            }
        }
    }
}

pub proof fn lemma_write<V: Vfs>(
    sh: SharedView<<V as VfsFile>::Handle>,
    ctx: CtxView,
    fs: Seq<MountView<<V as VfsFile>::State>>,
    fd: i32,
    data: Seq<u8>,
)
    ensures
        respected::<V>(fs, write_spec::<V>(sh, ctx, fs, fd, data).1),
{
    lemma_respected_same::<V>(fs);
    if let Some(entry) = fd_at(ctx.task.fds, fd as int) {
        if let Some(d) = sh.descs.get(entry.desc) {
            if let KindView::File { file, mount, closed } = d.kind {
                if !refuses_writes(fs, mount as int) {
                    lemma_respected_file_call::<V>(
                        fs,
                        mount as int,
                        file,
                        FileCall::Write { data },
                    );
                }
            }
        }
    }
}

proof fn lemma_sys_read<V: Vfs>(
    sh: SharedView<<V as VfsFile>::Handle>,
    ctx: CtxView,
    fs: Seq<MountView<<V as VfsFile>::State>>,
    mem: Seq<u8>,
    realtime: u128,
    fd: i32,
    at: u32,
    length: u32,
)
    ensures
        respected::<V>(fs, sys_read_spec::<V>(sh, ctx, fs, mem, realtime, fd, at, length).1),
{
    lemma_respected_same::<V>(fs);
    let len = least(length as int, MAX_READ as int) as usize;
    lemma_read::<V>(sh, ctx, fs, realtime, fd, len);
}

proof fn lemma_sys_write<V: Vfs>(
    sh: SharedView<<V as VfsFile>::Handle>,
    ctx: CtxView,
    fs: Seq<MountView<<V as VfsFile>::State>>,
    mem: Seq<u8>,
    fd: i32,
    at: u32,
    length: u32,
)
    ensures
        respected::<V>(fs, sys_write_spec::<V>(sh, ctx, fs, mem, fd, at, length).1),
{
    lemma_respected_same::<V>(fs);
    lemma_write::<V>(sh, ctx, fs, fd, mem.subrange(at as int, at + length));
}

proof fn lemma_readv<V: Vfs>(
    sh: SharedView<<V as VfsFile>::Handle>,
    ctx: CtxView,
    fs: Seq<MountView<<V as VfsFile>::State>>,
    mem: Seq<u8>,
    realtime: u128,
    fd: i32,
    vector: u32,
    count: int,
    i: int,
    total: i32,
)
    ensures
        respected::<V>(fs, readv_from::<V>(sh, ctx, fs, mem, realtime, fd, vector, count, i, total).1),
    decreases count - i,
{
    lemma_respected_same::<V>(fs);
    if i < count {
        if let Ok((at, len)) = iovec(mem, vector, i) {
            if len == 0 {
                lemma_readv::<V>(sh, ctx, fs, mem, realtime, fd, vector, count, i + 1, total);
            } else {
                let (s, f, m, r) = sys_read_spec::<V>(sh, ctx, fs, mem, realtime, fd, at, len);
                lemma_sys_read::<V>(sh, ctx, fs, mem, realtime, fd, at, len);
                if let Ok(done) = r {
                    let sum = held_sum(total, done);
                    lemma_readv::<V>(s, ctx, f, m, realtime, fd, vector, count, i + 1, sum);
                    let g = readv_from::<V>(
                        s,
                        ctx,
                        f,
                        m,
                        realtime,
                        fd,
                        vector,
                        count,
                        i + 1,
                        sum,
                    ).1;
                    lemma_respected_then::<V>(fs, f, g);
                }
            }
        }
    }
}

proof fn lemma_writev<V: Vfs>(
    sh: SharedView<<V as VfsFile>::Handle>,
    ctx: CtxView,
    fs: Seq<MountView<<V as VfsFile>::State>>,
    mem: Seq<u8>,
    fd: i32,
    vector: u32,
    count: int,
    i: int,
    total: i32,
)
    ensures
        respected::<V>(fs, writev_from::<V>(sh, ctx, fs, mem, fd, vector, count, i, total).1),
    decreases count - i,
{
    lemma_respected_same::<V>(fs);
    if i < count {
        if let Ok((at, len)) = iovec(mem, vector, i) {
            if len == 0 {
                lemma_writev::<V>(sh, ctx, fs, mem, fd, vector, count, i + 1, total);
            } else {
                let (s, f, r) = sys_write_spec::<V>(sh, ctx, fs, mem, fd, at, len);
                lemma_sys_write::<V>(sh, ctx, fs, mem, fd, at, len);
                if let Ok(done) = r {
                    let sum = held_sum(total, done);
                    lemma_writev::<V>(s, ctx, f, mem, fd, vector, count, i + 1, sum);
                    let g = writev_from::<V>(s, ctx, f, mem, fd, vector, count, i + 1, sum).1;
                    lemma_respected_then::<V>(fs, f, g);
                }
            }
        }
    }
}

proof fn lemma_read_on<V: Vfs>(
    fs: Seq<MountView<<V as VfsFile>::State>>,
    mount: int,
    file: <V as VfsFile>::Handle,
    got: Seq<u8>,
    want: int,
)
    ensures
        respected::<V>(fs, read_on::<V>(fs, mount, file, got, want).0),
    decreases if got.len() < want { want - got.len() } else { 0 },
{
    lemma_respected_same::<V>(fs);
    if got.len() < want {
        let call = FileCall::Read { max: (want - got.len()) as usize };
        let (next, handle, answer) = file_called::<V>(fs, mount, file, call);
        lemma_respected_file_call::<V>(fs, mount, file, call);
        if let FileAnswer::Data(data) = answer {
            if data.len() > 0 {
                lemma_read_on::<V>(next, mount, handle, got + data, want);
                let after = read_on::<V>(next, mount, handle, got + data, want).0;
                lemma_respected_then::<V>(fs, next, after);
            }
        }
    }
}

proof fn lemma_mapped<V: Vfs>(
    fs: Seq<MountView<<V as VfsFile>::State>>,
    mount: int,
    file: <V as VfsFile>::Handle,
    put_back: Option<u64>,
    offset: u64,
    want: int,
)
    ensures
        respected::<V>(fs, mapped::<V>(fs, mount, file, put_back, offset, want).0),
{
    lemma_respected_same::<V>(fs);
    let c1 = FileCall::Seek { from: SeekFrom::Current(0) };
    let (f1, h1, here) = position_of::<V>(fs, mount, file, put_back);
    lemma_respected_file_call::<V>(fs, mount, file, c1);
    if let FileAnswer::Position(saved) = here {
        let c2 = FileCall::Seek { from: SeekFrom::Start(offset) };
        let (f2, h2, there) = file_called::<V>(f1, mount, h1, c2);
        lemma_respected_file_call::<V>(f1, mount, h1, c2);
        lemma_respected_then::<V>(fs, f1, f2);
        let (f3, h3, got) = read_on::<V>(f2, mount, h2, Seq::empty(), want);
        lemma_read_on::<V>(f2, mount, h2, Seq::empty(), want);
        lemma_respected_then::<V>(fs, f2, f3);
        let c4 = FileCall::Seek { from: SeekFrom::Start(saved) };
        lemma_respected_file_call::<V>(f2, mount, h2, c4);
        lemma_respected_then::<V>(fs, f2, file_called::<V>(f2, mount, h2, c4).0);
        lemma_respected_file_call::<V>(f3, mount, h3, c4);
        lemma_respected_then::<V>(fs, f3, file_called::<V>(f3, mount, h3, c4).0);
    }
}

proof fn lemma_mmap<V: Vfs>(
    sh: SharedView<<V as VfsFile>::Handle>,
    ctx: CtxView,
    fs: Seq<MountView<<V as VfsFile>::State>>,
    size: int,
    addr: u32,
    length: u32,
    flags: i32,
    fd: i32,
    offset: i32,
)
    ensures
        respected::<V>(
            fs,
            mmap_spec::<V>(sh, ctx, fs, size, addr, length, flags, fd, offset).2,
        ),
{
    lemma_respected_same::<V>(fs);
    if let Some(entry) = fd_at(ctx.task.fds, fd as int) {
        if let Some(d) = sh.descs.get(entry.desc) {
            if let KindView::File { file, mount, closed } = d.kind {
                lemma_mapped::<V>(
                    fs,
                    mount as int,
                    file,
                    ctx.state.put_back,
                    byte_offset(offset),
                    length as int,
                );
            }
        }
    }
}

proof fn lemma_truncate<V: Vfs>(
    sh: SharedView<<V as VfsFile>::Handle>,
    ctx: CtxView,
    fs: Seq<MountView<<V as VfsFile>::State>>,
    mem: Seq<u8>,
    path_at: u32,
    len: u64,
)
    requires
        fs.len() <= usize::MAX,
    ensures
        respected::<V>(fs, truncate_spec::<V>(sh, ctx, fs, mem, path_at, len).1),
{
    lemma_respected_same::<V>(fs);
    if let Ok(path) = text_at(mem, path_at as int) {
        lemma_looked_up::<V>(sh, ctx, fs, AT_FDCWD, path, true);
        let (s, f, node) = looked_up::<V>(sh, ctx, fs, AT_FDCWD, path, true);
        if let Ok(NodeView::Mounted { mount, rel, guest }) = node {
            let call = VfsCall::Truncate { path: rel, len };
            lemma_changed::<V>(s, f, mount, call);
            lemma_respected_then::<V>(fs, f, changed::<V>(s, f, mount, call).1);
        }
    }
}

proof fn lemma_chdir<V: Vfs>(
    sh: SharedView<<V as VfsFile>::Handle>,
    ctx: CtxView,
    fs: Seq<MountView<<V as VfsFile>::State>>,
    mem: Seq<u8>,
    path_at: u32,
)
    requires
        fs.len() <= usize::MAX,
    ensures
        respected::<V>(fs, chdir_spec::<V>(sh, ctx, fs, mem, path_at).2),
{
    lemma_respected_same::<V>(fs);
    if let Ok(path) = text_at(mem, path_at as int) {
        lemma_looked_up::<V>(sh, ctx, fs, AT_FDCWD, path, true);
        let (s, f, node) = looked_up::<V>(sh, ctx, fs, AT_FDCWD, path, true);
        if let Ok(NodeView::Mounted { mount, rel, guest }) = node {
            let call = VfsCall::Stat { path: rel, follow: true };
            lemma_respected_call::<V>(f, mount as int, call);
            lemma_respected_then::<V>(fs, f, called::<V>(f, mount as int, call).0);
        }
    }
}

proof fn lemma_faccessat<V: Vfs>(
    sh: SharedView<<V as VfsFile>::Handle>,
    ctx: CtxView,
    fs: Seq<MountView<<V as VfsFile>::State>>,
    mem: Seq<u8>,
    dirfd: i32,
    path_at: u32,
    flags: i32,
)
    requires
        fs.len() <= usize::MAX,
    ensures
        respected::<V>(fs, faccessat_spec::<V>(sh, ctx, fs, mem, dirfd, path_at, flags).1),
{
    lemma_respected_same::<V>(fs);
    if let Ok(path) = text_at(mem, path_at as int) {
        lemma_looked_up::<V>(sh, ctx, fs, dirfd, path, follows(flags));
        let (s, f, node) = looked_up::<V>(sh, ctx, fs, dirfd, path, follows(flags));
        if let Ok(NodeView::Mounted { mount, rel, guest }) = node {
            let call = VfsCall::Stat { path: rel, follow: follows(flags) };
            lemma_respected_call::<V>(f, mount as int, call);
            lemma_respected_then::<V>(fs, f, called::<V>(f, mount as int, call).0);
        }
    }
}

proof fn lemma_utimensat<V: Vfs>(
    sh: SharedView<<V as VfsFile>::Handle>,
    ctx: CtxView,
    fs: Seq<MountView<<V as VfsFile>::State>>,
    mem: Seq<u8>,
    dirfd: i32,
    path_at: u32,
    flags: i32,
)
    requires
        fs.len() <= usize::MAX,
    ensures
        respected::<V>(fs, utimensat_spec::<V>(sh, ctx, fs, mem, dirfd, path_at, flags).1),
{
    lemma_respected_same::<V>(fs);
    if let Ok(path) = text_at(mem, path_at as int) {
        lemma_looked_up::<V>(sh, ctx, fs, dirfd, path, follows(flags));
        let (s, f, node) = looked_up::<V>(sh, ctx, fs, dirfd, path, follows(flags));
        if let Ok(NodeView::Mounted { mount, rel, guest }) = node {
            let call = VfsCall::Stat { path: rel, follow: true };
            lemma_respected_call::<V>(f, mount as int, call);
            lemma_respected_then::<V>(fs, f, called::<V>(f, mount as int, call).0);
        }
    }
}

proof fn lemma_readlinkat<V: Vfs>(
    sh: SharedView<<V as VfsFile>::Handle>,
    ctx: CtxView,
    fs: Seq<MountView<<V as VfsFile>::State>>,
    mem: Seq<u8>,
    dirfd: i32,
    path_at: u32,
    buffer: u32,
    size: u32,
)
    requires
        fs.len() <= usize::MAX,
    ensures
        respected::<V>(fs, readlinkat_spec::<V>(sh, ctx, fs, mem, dirfd, path_at, buffer, size).1),
{
    lemma_respected_same::<V>(fs);
    if let Ok(path) = text_at(mem, path_at as int) {
        lemma_looked_up::<V>(sh, ctx, fs, dirfd, path, false);
        let (s, f, node) = looked_up::<V>(sh, ctx, fs, dirfd, path, false);
        if let Ok(NodeView::Mounted { mount, rel, guest }) = node {
            let call = VfsCall::Readlink { path: rel };
            lemma_respected_call::<V>(f, mount as int, call);
            lemma_respected_then::<V>(fs, f, called::<V>(f, mount as int, call).0);
        }
    }
}

proof fn lemma_mkdirat<V: Vfs>(
    sh: SharedView<<V as VfsFile>::Handle>,
    ctx: CtxView,
    fs: Seq<MountView<<V as VfsFile>::State>>,
    mem: Seq<u8>,
    dirfd: i32,
    path_at: u32,
    mode: u32,
)
    requires
        fs.len() <= usize::MAX,
    ensures
        respected::<V>(fs, mkdirat_spec::<V>(sh, ctx, fs, mem, dirfd, path_at, mode).1),
{
    lemma_respected_same::<V>(fs);
    if let Ok(path) = text_at(mem, path_at as int) {
        lemma_looked_up::<V>(sh, ctx, fs, dirfd, path, true);
        let (s, f, node) = looked_up::<V>(sh, ctx, fs, dirfd, path, true);
        if let Ok(NodeView::Mounted { mount, rel, guest }) = node {
            let call = VfsCall::Mkdir { path: rel, mode: mode & !ctx.task.umask & 0x1ff };
            lemma_changed::<V>(s, f, mount, call);
            lemma_respected_then::<V>(fs, f, changed::<V>(s, f, mount, call).1);
        }
    }
}

proof fn lemma_symlinkat<V: Vfs>(
    sh: SharedView<<V as VfsFile>::Handle>,
    ctx: CtxView,
    fs: Seq<MountView<<V as VfsFile>::State>>,
    mem: Seq<u8>,
    target_at: u32,
    dirfd: i32,
    link_at: u32,
)
    requires
        fs.len() <= usize::MAX,
    ensures
        respected::<V>(fs, symlinkat_spec::<V>(sh, ctx, fs, mem, target_at, dirfd, link_at).1),
{
    lemma_respected_same::<V>(fs);
    if let Ok(target) = text_at(mem, target_at as int) {
        if let Ok(link) = text_at(mem, link_at as int) {
            lemma_looked_up::<V>(sh, ctx, fs, dirfd, link, false);
            let (s, f, node) = looked_up::<V>(sh, ctx, fs, dirfd, link, false);
            if let Ok(NodeView::Mounted { mount, rel, guest }) = node {
                let call = VfsCall::Symlink { target, link: rel };
                lemma_changed::<V>(s, f, mount, call);
                lemma_respected_then::<V>(fs, f, changed::<V>(s, f, mount, call).1);
            }
        }
    }
}

proof fn lemma_unlinkat<V: Vfs>(
    sh: SharedView<<V as VfsFile>::Handle>,
    ctx: CtxView,
    fs: Seq<MountView<<V as VfsFile>::State>>,
    mem: Seq<u8>,
    dirfd: i32,
    path_at: u32,
    flags: i32,
)
    requires
        fs.len() <= usize::MAX,
    ensures
        respected::<V>(fs, unlinkat_spec::<V>(sh, ctx, fs, mem, dirfd, path_at, flags).1),
{
    lemma_respected_same::<V>(fs);
    if let Ok(path) = text_at(mem, path_at as int) {
        lemma_looked_up::<V>(sh, ctx, fs, dirfd, path, false);
        let (s, f, node) = looked_up::<V>(sh, ctx, fs, dirfd, path, false);
        if let Ok(NodeView::Mounted { mount, rel, guest }) = node {
            let call = if flags & AT_REMOVEDIR != 0 {
                VfsCall::Rmdir { path: rel }
            } else {
                VfsCall::Unlink { path: rel }
            };
            lemma_changed::<V>(s, f, mount, call);
            lemma_respected_then::<V>(fs, f, changed::<V>(s, f, mount, call).1);
        }
    }
}

proof fn lemma_fchmodat<V: Vfs>(
    sh: SharedView<<V as VfsFile>::Handle>,
    ctx: CtxView,
    fs: Seq<MountView<<V as VfsFile>::State>>,
    mem: Seq<u8>,
    dirfd: i32,
    path_at: u32,
    mode: u32,
)
    requires
        fs.len() <= usize::MAX,
    ensures
        respected::<V>(fs, fchmodat_spec::<V>(sh, ctx, fs, mem, dirfd, path_at, mode).1),
{
    lemma_respected_same::<V>(fs);
    if let Ok(path) = text_at(mem, path_at as int) {
        lemma_looked_up::<V>(sh, ctx, fs, dirfd, path, true);
        let (s, f, node) = looked_up::<V>(sh, ctx, fs, dirfd, path, true);
        if let Ok(NodeView::Mounted { mount, rel, guest }) = node {
            let call = VfsCall::SetMode { path: rel, mode: mode & 0xfff };
            lemma_changed::<V>(s, f, mount, call);
            lemma_respected_then::<V>(fs, f, changed::<V>(s, f, mount, call).1);
        }
    }
}

proof fn lemma_renameat<V: Vfs>(
    sh: SharedView<<V as VfsFile>::Handle>,
    ctx: CtxView,
    fs: Seq<MountView<<V as VfsFile>::State>>,
    mem: Seq<u8>,
    from_dir: i32,
    from_at: u32,
    to_dir: i32,
    to_at: u32,
)
    requires
        fs.len() <= usize::MAX,
    ensures
        respected::<V>(fs, renameat_spec::<V>(sh, ctx, fs, mem, from_dir, from_at, to_dir, to_at).1),
{
    lemma_respected_same::<V>(fs);
    if let Ok(from) = text_at(mem, from_at as int) {
        if let Ok(to) = text_at(mem, to_at as int) {
            lemma_looked_up::<V>(sh, ctx, fs, from_dir, from, false);
            let (s1, f1, source) = looked_up::<V>(sh, ctx, fs, from_dir, from, false);
            if let Ok(source) = source {
                lemma_looked_up::<V>(s1, ctx, f1, to_dir, to, false);
                let (s2, f2, target) = looked_up::<V>(s1, ctx, f1, to_dir, to, false);
                lemma_respected_then::<V>(fs, f1, f2);
                if let NodeView::Mounted { mount: m1, rel: r1, guest: g1 } = source {
                    if let Ok(NodeView::Mounted { mount: m2, rel: r2, guest: g2 }) = target {
                        let call = VfsCall::Rename { from: r1, to: r2 };
                        if m1 == m2 {
                            lemma_changed::<V>(s2, f2, m1, call);
                            lemma_respected_then::<V>(fs, f2, changed::<V>(s2, f2, m1, call).1);
                        }
                    }
                }
            }
        }
    }
}

proof fn lemma_statx<V: Vfs>(
    sh: SharedView<<V as VfsFile>::Handle>,
    ctx: CtxView,
    fs: Seq<MountView<<V as VfsFile>::State>>,
    mem: Seq<u8>,
    uptime: Seq<char>,
    dirfd: i32,
    path_at: u32,
    flags: i32,
    at: u32,
)
    requires
        fs.len() <= usize::MAX,
    ensures
        respected::<V>(fs, statx_spec::<V>(sh, ctx, fs, mem, uptime, dirfd, path_at, flags, at).1),
{
    lemma_respected_same::<V>(fs);
    if let Some(entry) = fd_at(ctx.task.fds, dirfd as int) {
        if let Some(d) = sh.descs.get(entry.desc) {
            if let KindView::File { file, mount, closed } = d.kind {
                lemma_respected_file_call::<V>(fs, mount as int, file, FileCall::Stat);
            }
        }
    }
    if let Ok(path) = text_at(mem, path_at as int) {
        lemma_looked_up::<V>(sh, ctx, fs, dirfd, path, follows(flags));
        let (s, f, node) = looked_up::<V>(sh, ctx, fs, dirfd, path, follows(flags));
        if let Ok(NodeView::Mounted { mount, rel, guest }) = node {
            let call = VfsCall::Stat { path: rel, follow: follows(flags) };
            lemma_respected_call::<V>(f, mount as int, call);
            lemma_respected_then::<V>(fs, f, called::<V>(f, mount as int, call).0);
        }
    }
}

proof fn lemma_exit<V: Vfs>(
    sh: SharedView<<V as VfsFile>::Handle>,
    ctx: CtxView,
    fs: Seq<MountView<<V as VfsFile>::State>>,
    code: i32,
)
    ensures
        respected::<V>(fs, exit_spec::<V>(sh, ctx, fs, code).2),
{
    lemma_respected_same::<V>(fs);
    lemma_released_all::<V>(sh, fs, live_descs(ctx.task.fds));
}

proof fn lemma_exec_done<V: Vfs>(
    sh: SharedView<<V as VfsFile>::Handle>,
    ctx: CtxView,
    fs: Seq<MountView<<V as VfsFile>::State>>,
    program: usize,
    exe: Seq<char>,
    argv: Seq<Seq<u8>>,
    envp: Seq<Seq<u8>>,
)
    ensures
        respected::<V>(fs, exec_done::<V>(sh, ctx, fs, program, exe, argv, envp).2),
{
    lemma_released_all::<V>(sh, fs, cloexec_descs(ctx.task.fds));
}

proof fn lemma_head<V: Vfs>(
    sh: SharedView<<V as VfsFile>::Handle>,
    fs: Seq<MountView<<V as VfsFile>::State>>,
    mount: usize,
    rel: Seq<char>,
)
    requires
        0 <= mount < fs.len() ==> own_path(points(fs), mount as int, rel),
    ensures
        respected::<V>(fs, head_of::<V>(sh, fs, mount, rel).1),
{
    let look = VfsCall::Stat { path: rel, follow: true };
    let f1 = called::<V>(fs, mount as int, look).0;
    lemma_respected_call::<V>(fs, mount as int, look);
    let open = VfsCall::Open { path: rel, opts: OpenOptions { read: true, ..no_options() } };
    let (f2, opened) = called::<V>(f1, mount as int, open);
    lemma_respected_call::<V>(f1, mount as int, open);
    lemma_respected_then::<V>(fs, f1, f2);
    if let VfsAnswer::Opened(file) = opened {
        let read = FileCall::Read { max: HEAD };
        let (f3, handle, got) = file_called::<V>(f2, mount as int, file, read);
        lemma_respected_file_call::<V>(f2, mount as int, file, read);
        lemma_respected_then::<V>(fs, f2, f3);
        let f4 = file_called::<V>(f3, mount as int, handle, FileCall::Close).0;
        lemma_respected_file_call::<V>(f3, mount as int, handle, FileCall::Close);
        lemma_respected_then::<V>(fs, f3, f4);
    }
}

proof fn lemma_script<V: Vfs>(
    sh: SharedView<<V as VfsFile>::Handle>,
    ctx: CtxView,
    fs: Seq<MountView<<V as VfsFile>::State>>,
    mount: usize,
    rel: Seq<char>,
    path: Seq<char>,
    argv: Seq<Seq<u8>>,
    envp: Seq<Seq<u8>>,
)
    requires
        fs.len() <= usize::MAX,
        0 <= mount < fs.len() ==> own_path(points(fs), mount as int, rel),
    ensures
        respected::<V>(fs, script_exec::<V>(sh, ctx, fs, mount, rel, path, argv, envp).2),
{
    lemma_head::<V>(sh, fs, mount, rel);
    let (s1, f1, head) = head_of::<V>(sh, fs, mount, rel);
    if let Ok(head) = head {
        if let Some(line) = shebang_text(head) {
            let name = interpreter_of(line);
            lemma_looked_up::<V>(s1, ctx, f1, AT_FDCWD, name, true);
            let (s2, f2, node) = looked_up::<V>(s1, ctx, f1, AT_FDCWD, name, true);
            lemma_respected_then::<V>(fs, f1, f2);
            if let Ok(NodeView::Program { id, guest }) = node {
                let args = script_args(line, path, argv);
                lemma_exec_done::<V>(s2, ctx, f2, id, guest, args, envp);
                let f3 = exec_done::<V>(s2, ctx, f2, id, guest, args, envp).2;
                lemma_respected_then::<V>(fs, f2, f3);
            }
        }
    }
}

proof fn lemma_execve<V: Vfs>(
    sh: SharedView<<V as VfsFile>::Handle>,
    ctx: CtxView,
    fs: Seq<MountView<<V as VfsFile>::State>>,
    mem: Seq<u8>,
    path_at: u32,
    argv_at: u32,
    envp_at: u32,
)
    requires
        fs.len() <= usize::MAX,
    ensures
        respected::<V>(fs, execve_spec::<V>(sh, ctx, fs, mem, path_at, argv_at, envp_at).2),
{
    lemma_respected_same::<V>(fs);
    if let (Ok(path), Ok(argv), Ok(envp)) = (
        text_at(mem, path_at as int),
        strings_at(mem, argv_at as int),
        strings_at(mem, envp_at as int),
    ) {
        lemma_looked_up::<V>(sh, ctx, fs, AT_FDCWD, path, true);
        let (s, f, node) = looked_up::<V>(sh, ctx, fs, AT_FDCWD, path, true);
        if let Ok(NodeView::Program { id, guest }) = node {
            lemma_exec_done::<V>(s, ctx, f, id, guest, argv, envp);
            let after = exec_done::<V>(s, ctx, f, id, guest, argv, envp).2;
            lemma_respected_then::<V>(fs, f, after);
        }
        if let Ok(NodeView::Mounted { mount, rel, guest }) = node {
            lemma_script::<V>(s, ctx, f, mount, rel, path, argv, envp);
            let after = script_exec::<V>(s, ctx, f, mount, rel, path, argv, envp).2;
            lemma_respected_then::<V>(fs, f, after);
        }
    }
}

/// Whatever a guest asks of the kernel, each mount stays where it is and is asked only what it
/// may be asked: about normalized paths of places that belong to it, and nothing that could
/// change it where it is read-only.
pub proof fn law_a_syscall_respects_the_mounts<V: Vfs>(
    w: World<<V as VfsFile>::State, <V as VfsFile>::Handle>,
    k: ClockView,
    c: Call,
)
    requires
        w.fs.len() <= usize::MAX,
    ensures
        respected::<V>(w.fs, dispatched::<V>(w, k, c).0.fs),
{
    let v = counted(w);
    lemma_process_call::<V>(v, k, c);
    lemma_signal_call::<V>(v, k, c);
    lemma_file_call::<V>(v, k, c);
    lemma_path_call::<V>(v, k, c);
    lemma_respected_same::<V>(v.fs);
    let (after, r) = handled::<V>(v, k, c);
    lemma_concluded::<V>(after, r);
}

/// A read-only mount refuses every call that would change it, whatever the filesystem: what a
/// path leads to there cannot be truncated, created, removed, renamed, linked to or given another
/// mode, and no file opened there can be written or cut. Each is `EROFS`, and the filesystem is
/// not asked.
pub proof fn law_a_read_only_mount_refuses_changes<V: Vfs>(
    sh: SharedView<<V as VfsFile>::Handle>,
    fs: Seq<MountView<<V as VfsFile>::State>>,
    umask: u32,
    mount: usize,
    rel: Seq<char>,
    guest: Seq<char>,
    flags: u32,
    mode: u32,
    call: VfsCall,
    pid: i32,
    key: u32,
    d: DescView<<V as VfsFile>::Handle>,
    data: Seq<u8>,
)
    requires
        mount < fs.len(),
        fs[mount as int].read_only,
    ensures
        changed::<V>(sh, fs, mount, call) == (sh, fs, errno::<i32>(Errno::ROFS)),
        wants_write(flags) ==> mounted_opening::<V>(
            sh,
            fs,
            umask,
            mount,
            rel,
            guest,
            flags,
            mode,
        ) == (
            sh,
            fs,
            Opening::<<V as VfsFile>::Handle>::Fail(Fault::Errno(Errno::ROFS)),
        ),
        d.kind matches KindView::File { mount: m, .. } && m == mount ==> write_kind::<V>(
            sh,
            fs,
            pid,
            key,
            d,
            data,
        ) == (sh, fs, errno::<usize>(Errno::ROFS)),
{
}

/// The calls that change what a path leads to, where it leads to a read-only mount: every one of
/// them fails, and so does cutting a file that is open there.
pub proof fn law_changing_calls_fail_on_a_read_only_mount<V: Vfs>(
    sh: SharedView<<V as VfsFile>::Handle>,
    ctx: CtxView,
    fs: Seq<MountView<<V as VfsFile>::State>>,
    mem: Seq<u8>,
    dirfd: i32,
    path_at: u32,
    target_at: u32,
    mode: u32,
    flags: i32,
    len: u64,
    fd: i32,
)
    ensures
        text_at(mem, path_at as int) matches Ok(path) ==> {
            let there = looked_up::<V>(sh, ctx, fs, dirfd, path, true);
            let link = looked_up::<V>(sh, ctx, fs, dirfd, path, false);
            let here = looked_up::<V>(sh, ctx, fs, AT_FDCWD, path, true);
            &&& leads_to_read_only::<V>(here) ==> refused(
                truncate_spec::<V>(sh, ctx, fs, mem, path_at, len).2,
            )
            &&& leads_to_read_only::<V>(there) ==> refused(
                mkdirat_spec::<V>(sh, ctx, fs, mem, dirfd, path_at, mode).2,
            )
            &&& leads_to_read_only::<V>(there) ==> refused(
                fchmodat_spec::<V>(sh, ctx, fs, mem, dirfd, path_at, mode).2,
            )
            &&& leads_to_read_only::<V>(link) ==> refused(
                unlinkat_spec::<V>(sh, ctx, fs, mem, dirfd, path_at, flags).2,
            )
            &&& leads_to_read_only::<V>(link) && text_at(mem, target_at as int) is Ok ==> refused(
                symlinkat_spec::<V>(sh, ctx, fs, mem, target_at, dirfd, path_at).2,
            )
        },
        fd_at(ctx.task.fds, fd as int) matches Some(entry) ==> sh.descs.get(entry.desc) matches Some(
            d,
        ) ==> d.kind matches KindView::File { mount, .. } ==> mount < fs.len()
            && fs[mount as int].read_only ==> refused(ftruncate_spec::<V>(sh, ctx, fs, fd, len).2),
{
}

/// Whether a path led to a place on a read-only mount.
pub open spec fn leads_to_read_only<V: Vfs>(
    found: (
        SharedView<<V as VfsFile>::Handle>,
        Seq<MountView<<V as VfsFile>::State>>,
        Result<NodeView, Fault>,
    ),
) -> bool {
    found.2 matches Ok(NodeView::Mounted { mount, .. }) && mount < found.1.len()
        && found.1[mount as int].read_only
}

/// Whether a call was refused because the filesystem is read-only.
pub open spec fn refused(r: Sys) -> bool {
    r == errno::<i32>(Errno::ROFS)
}

/// Renaming within a read-only mount is refused too, and so is renaming into one from another.
pub proof fn law_renaming_fails_on_a_read_only_mount<V: Vfs>(
    sh: SharedView<<V as VfsFile>::Handle>,
    ctx: CtxView,
    fs: Seq<MountView<<V as VfsFile>::State>>,
    mem: Seq<u8>,
    from_dir: i32,
    from_at: u32,
    to_dir: i32,
    to_at: u32,
    from: Seq<char>,
    to: Seq<char>,
)
    requires
        text_at(mem, from_at as int) == Ok::<Seq<char>, Errno>(from),
        text_at(mem, to_at as int) == Ok::<Seq<char>, Errno>(to),
    ensures
        ({
            let (s1, f1, source) = looked_up::<V>(sh, ctx, fs, from_dir, from, false);
            let target = looked_up::<V>(s1, ctx, f1, to_dir, to, false);
            let r = renameat_spec::<V>(sh, ctx, fs, mem, from_dir, from_at, to_dir, to_at).2;
            source matches Ok(NodeView::Mounted { mount: m1, .. }) ==> {
                leads_to_read_only::<V>(target) ==> {
                    &&& target.2->Ok_0->Mounted_mount == m1 ==> refused(r)
                    &&& target.2->Ok_0->Mounted_mount != m1 ==> r == errno::<i32>(Errno::XDEV)
                }
            }
        }),
{
}

proof fn lemma_concluded<V: Vfs>(
    w: World<<V as VfsFile>::State, <V as VfsFile>::Handle>,
    r: Sys,
)
    ensures
        concluded(w, r).0.fs == w.fs,
{
}

proof fn lemma_signal_call<V: Vfs>(
    w: World<<V as VfsFile>::State, <V as VfsFile>::Handle>,
    k: ClockView,
    c: Call,
)
    ensures
        signal_call::<V>(w, k, c) matches Some(done) ==> respected::<V>(w.fs, done.0.fs),
{
    reveal(signal_call);
    lemma_respected_same::<V>(w.fs);
    if c.number == nr::MMAP {
        lemma_mmap::<V>(
            w.sh,
            w.ctx,
            w.fs,
            w.mem.len() as int,
            word_of(c.a0),
            word_of(c.a1),
            c.a3,
            c.a4,
            c.a5,
        );
    }
}

/// A call that goes on once its memory has grown asks no mount anything.
pub proof fn law_a_grown_syscall_respects_the_mounts<V: Vfs>(
    w: World<<V as VfsFile>::State, <V as VfsFile>::Handle>,
    c: Call,
    previous: Option<u64>,
)
    ensures
        ({
            let (after, r) = handled_grown::<V>(w, c, previous);
            &&& concluded(after, r).0.fs == w.fs
            &&& respected::<V>(w.fs, concluded(after, r).0.fs)
        }),
{
    lemma_respected_same::<V>(w.fs);
}

proof fn lemma_process_call<V: Vfs>(
    w: World<<V as VfsFile>::State,
    <V as VfsFile>::Handle>,
    k: ClockView,
    c: Call,
)
    requires
        w.fs.len() <= usize::MAX,
    ensures
        process_call::<V>(w, k, c) matches Some(done) ==> respected::<V>(w.fs, done.0.fs),
{
    reveal(process_call);
    lemma_respected_same::<V>(w.fs);
    if c.number == nr::EXIT || c.number == nr::EXIT_GROUP {
        lemma_exit::<V>(
            w.sh,
            w.ctx,
            w.fs,
            c.a0,
        );
    } else if c.number == nr::EXECVE {
        lemma_execve::<V>(
            w.sh,
            w.ctx,
            w.fs,
            w.mem,
            word_of(c.a0),
            word_of(c.a1),
            word_of(c.a2),
        );
    }
}

proof fn lemma_file_call<V: Vfs>(
    w: World<<V as VfsFile>::State,
    <V as VfsFile>::Handle>,
    k: ClockView,
    c: Call,
)
    requires
        w.fs.len() <= usize::MAX,
    ensures
        file_call::<V>(w, k, c) matches Some(done) ==> respected::<V>(w.fs, done.0.fs),
{
    reveal(file_call);
    lemma_respected_same::<V>(w.fs);
    if c.number == nr::OPENAT {
        lemma_openat::<V>(
            w.sh,
            w.ctx,
            w.fs,
            w.mem,
            k.uptime,
            c.a0,
            word_of(c.a1),
            word_of(c.a2),
            word_of(c.a3),
        );
    } else if c.number == nr::CLOSE {
        lemma_close::<V>(
            w.sh,
            w.ctx,
            w.fs,
            c.a0,
        );
    } else if c.number == nr::READ {
        lemma_sys_read::<V>(
            w.sh,
            w.ctx,
            w.fs,
            w.mem,
            k.realtime,
            c.a0,
            word_of(c.a1),
            word_of(c.a2),
        );
    } else if c.number == nr::WRITE {
        lemma_sys_write::<V>(
            w.sh,
            w.ctx,
            w.fs,
            w.mem,
            c.a0,
            word_of(c.a1),
            word_of(c.a2),
        );
    } else if c.number == nr::READV {
        lemma_readv::<V>(
            w.sh,
            w.ctx,
            w.fs,
            w.mem,
            k.realtime,
            c.a0,
            word_of(c.a1),
            vector_count(c.a2),
            0,
            0,
        );
    } else if c.number == nr::WRITEV {
        lemma_writev::<V>(
            w.sh,
            w.ctx,
            w.fs,
            w.mem,
            c.a0,
            word_of(c.a1),
            vector_count(c.a2),
            0,
            0,
        );
    } else if c.number == nr::LSEEK {
        lemma_lseek::<V>(
            w.sh,
            w.ctx,
            w.fs,
            c.a0,
            c.a1,
            c.a2,
        );
    } else if c.number == nr::FTRUNCATE {
        lemma_ftruncate::<V>(
            w.sh,
            w.ctx,
            w.fs,
            c.a0,
            length_of(c.a1, c.a2),
        );
    } else if c.number == nr::DUP3 {
        lemma_dup3::<V>(
            w.sh,
            w.ctx,
            w.fs,
            c.a0,
            c.a1,
            word_of(c.a2),
        );
    }
}

proof fn lemma_path_call<V: Vfs>(
    w: World<<V as VfsFile>::State,
    <V as VfsFile>::Handle>,
    k: ClockView,
    c: Call,
)
    requires
        w.fs.len() <= usize::MAX,
    ensures
        path_call::<V>(w, k, c) matches Some(done) ==> respected::<V>(w.fs, done.0.fs),
{
    reveal(path_call);
    lemma_respected_same::<V>(w.fs);
    if c.number == nr::TRUNCATE {
        lemma_truncate::<V>(
            w.sh,
            w.ctx,
            w.fs,
            w.mem,
            word_of(c.a0),
            length_of(c.a1, c.a2),
        );
    } else if c.number == nr::CHDIR {
        lemma_chdir::<V>(
            w.sh,
            w.ctx,
            w.fs,
            w.mem,
            word_of(c.a0),
        );
    } else if c.number == nr::STATX {
        lemma_statx::<V>(
            w.sh,
            w.ctx,
            w.fs,
            w.mem,
            k.uptime,
            c.a0,
            word_of(c.a1),
            c.a2,
            word_of(c.a4),
        );
    } else if c.number == nr::FACCESSAT || c.number == nr::FACCESSAT2 {
        lemma_faccessat::<V>(
            w.sh,
            w.ctx,
            w.fs,
            w.mem,
            c.a0,
            word_of(c.a1),
            c.a3,
        );
    } else if c.number == nr::READLINKAT {
        lemma_readlinkat::<V>(
            w.sh,
            w.ctx,
            w.fs,
            w.mem,
            c.a0,
            word_of(c.a1),
            word_of(c.a2),
            word_of(c.a3),
        );
    } else if c.number == nr::MKDIRAT {
        lemma_mkdirat::<V>(
            w.sh,
            w.ctx,
            w.fs,
            w.mem,
            c.a0,
            word_of(c.a1),
            word_of(c.a2),
        );
    } else if c.number == nr::UNLINKAT {
        lemma_unlinkat::<V>(
            w.sh,
            w.ctx,
            w.fs,
            w.mem,
            c.a0,
            word_of(c.a1),
            c.a2,
        );
    } else if c.number == nr::RENAMEAT || c.number == nr::RENAMEAT2 {
        lemma_renameat::<V>(
            w.sh,
            w.ctx,
            w.fs,
            w.mem,
            c.a0,
            word_of(c.a1),
            c.a2,
            word_of(c.a3),
        );
    } else if c.number == nr::SYMLINKAT {
        lemma_symlinkat::<V>(
            w.sh,
            w.ctx,
            w.fs,
            w.mem,
            word_of(c.a0),
            c.a1,
            word_of(c.a2),
        );
    } else if c.number == nr::FCHMODAT {
        lemma_fchmodat::<V>(
            w.sh,
            w.ctx,
            w.fs,
            w.mem,
            c.a0,
            word_of(c.a1),
            word_of(c.a2),
        );
    } else if c.number == nr::UTIMENSAT_TIME64 {
        lemma_utimensat::<V>(
            w.sh,
            w.ctx,
            w.fs,
            w.mem,
            c.a0,
            word_of(c.a1),
            c.a4,
        );
    }
}

} // verus!
