//! What is refused, and with which error; and what is handed on to a mount.
use super::plain::{double_in, word_in};
use super::readiness::behind;
use super::signals::{is_record, lemma_is_record};
use crate::errno::Errno;
use crate::kernel::fd::KindView;
use crate::kernel::mem::text_at;
use crate::kernel::mounts::{called, MountView};
use crate::kernel::namespace::{Device, NodeView};
use crate::kernel::run::{not_started, KernelView};
use crate::kernel::state::{CtxView, SharedView};
use crate::kernel::task::TaskView;
use crate::kernel::tty::TerminalView;
use crate::syscall::base::{changed, errno, looked_up, Fault, Sys};
use crate::syscall::exec::{head_of, script_exec};
use crate::syscall::fds::lseek_spec;
use crate::syscall::io::{read_spec, sys_read_spec, sys_write_spec, write_spec};
use crate::syscall::ioctl::terminal_spec;
use crate::syscall::memory::mmap_spec;
use crate::syscall::open::{node_opening, Opening};
use crate::syscall::path::{chdir_spec, fchmodat_spec, mkdirat_spec, renameat_spec};
use crate::syscall::stat::{device_facts, proc_bytes};
use crate::syscall::time::getres_spec;
use crate::vfs::{Vfs, VfsAnswer, VfsCall, VfsFile};
use vstd::prelude::*;

verus! {

// ---------------------------------------------------------------------------------------------
// executing

/// A directory cannot be executed; a file that does not begin with `#!` is no program; and a
/// script whose interpreter is no program cannot be run either. Nothing is started then.
pub proof fn law_what_cannot_be_executed<V: Vfs>(
    sh: SharedView<<V as VfsFile>::Handle>,
    ctx: CtxView,
    fs: Seq<MountView<<V as VfsFile>::State>>,
    mount: usize,
    rel: Seq<char>,
    path: Seq<char>,
    argv: Seq<Seq<u8>>,
    envp: Seq<Seq<u8>>,
)
    ensures
        ({
            let said = called::<V>(fs, mount as int, VfsCall::Stat { path: rel, follow: true }).1;
            let (s, c, f, r) = script_exec::<V>(sh, ctx, fs, mount, rel, path, argv, envp);
            &&& (said matches VfsAnswer::Stat(st) && st.file_type is Dir) ==> r == errno::<i32>(
                Errno::ACCES,
            ) && c == ctx
            &&& (head_of::<V>(sh, fs, mount, rel).2 matches Ok(head) && (head.len() < 2 || head[0]
                != 35 || head[1] != 33)) ==> r == errno::<i32>(Errno::NOEXEC) && c == ctx
            &&& r == errno::<i32>(Errno::NOEXEC) ==> c == ctx
        }),
{
}

/// A program that cannot be started ends with 126, and where it is the first one so does the
/// session.
pub proof fn law_a_program_that_cannot_start_ends_with_126<V: Vfs>(
    k: KernelView<<V as VfsFile>::Handle>,
    fs: Seq<MountView<<V as VfsFile>::State>>,
    task: TaskView,
)
    requires
        task.pid == 1,
        k.exit_status is None,
    ensures
        not_started::<V>(k, fs, task).0.exit_status == Some((256 * 126int) as i32),
{
}

// ---------------------------------------------------------------------------------------------
// reading and writing

/// A directory is not read and no directory is written; the writing end of a pipe is not read
/// and its reading end is not written; the standard input is not written and the captured
/// streams are not read.
pub proof fn law_ends_are_used_for_what_they_are<V: Vfs>(
    sh: SharedView<<V as VfsFile>::Handle>,
    ctx: CtxView,
    fs: Seq<MountView<<V as VfsFile>::State>>,
    realtime: u128,
    fd: i32,
    len: usize,
    data: Seq<u8>,
)
    requires
        len > 0,
        behind(sh, ctx, fd) matches Some(d) && d.flags & 3 == 2,
    ensures
        ({
            let kind = behind(sh, ctx, fd)->0.kind;
            let r = read_spec::<V>(sh, ctx, fs, realtime, fd, len);
            let w = write_spec::<V>(sh, ctx, fs, fd, data);
            &&& kind is Dir ==> r == (sh, fs, errno::<Seq<u8>>(Errno::ISDIR))
            &&& kind is PipeWrite || kind is Stdout ==> r == (
                sh,
                fs,
                errno::<Seq<u8>>(Errno::BADF),
            )
            &&& kind is Dir || kind is PipeRead || kind is Stdin ==> w == (
                sh,
                fs,
                errno::<usize>(Errno::BADF),
            )
        }),
{
}

/// Nothing is read into or written out of memory that is not there, nothing is read where
/// nothing is asked for, and one read gives no more than a mebibyte.
pub proof fn law_reads_and_writes_stay_in_memory<V: Vfs>(
    sh: SharedView<<V as VfsFile>::Handle>,
    ctx: CtxView,
    fs: Seq<MountView<<V as VfsFile>::State>>,
    mem: Seq<u8>,
    realtime: u128,
    fd: i32,
    at: u32,
    length: u32,
)
    ensures
        at + length > mem.len() ==> sys_write_spec::<V>(sh, ctx, fs, mem, fd, at, length) == (
            sh,
            fs,
            errno::<i32>(Errno::FAULT),
        ),
        sys_read_spec::<V>(sh, ctx, fs, mem, realtime, fd, at, 0) == (sh, fs, mem, Sys::Ok(0)),
        length >= 0x10_0000 ==> sys_read_spec::<V>(
            sh,
            ctx,
            fs,
            mem,
            realtime,
            fd,
            at,
            length,
        ) == sys_read_spec::<V>(sh, ctx, fs, mem, realtime, fd, at, 0x10_0000),
        sys_read_spec::<V>(sh, ctx, fs, mem, realtime, fd, at, length).2.len() == mem.len(),
        sys_read_spec::<V>(sh, ctx, fs, mem, realtime, fd, at, length).3 is Err ==> sys_read_spec::<
            V,
        >(sh, ctx, fs, mem, realtime, fd, at, length).2 == mem,
{
}

/// A pipe, a stream and a generated file have no position to move; the devices are always at
/// their beginning; and a directory can be listed again from its beginning.
pub proof fn law_what_has_no_position<V: Vfs>(
    sh: SharedView<<V as VfsFile>::Handle>,
    ctx: CtxView,
    fs: Seq<MountView<<V as VfsFile>::State>>,
    fd: i32,
    offset: i32,
    whence: i32,
)
    ensures
        ({
            let (s, f, r) = lseek_spec::<V>(sh, ctx, fs, fd, offset, whence);
            match behind(sh, ctx, fd) {
                None => r == errno::<i32>(Errno::BADF) && s == sh,
                Some(d) => match d.kind {
                    KindView::PipeRead(_) => r == errno::<i32>(Errno::SPIPE) && s == sh,
                    KindView::PipeWrite(_) => r == errno::<i32>(Errno::SPIPE) && s == sh,
                    KindView::Stdin => r == errno::<i32>(Errno::SPIPE) && s == sh,
                    KindView::Stdout(_) => r == errno::<i32>(Errno::SPIPE) && s == sh,
                    KindView::Null => r == Sys::Ok(0) && s == sh,
                    KindView::Zero => r == Sys::Ok(0) && s == sh,
                    KindView::Dir { entries, .. } => whence == 0 && offset == 0 ==> r == Sys::Ok(0)
                        && behind(s, ctx, fd)->0.kind == (KindView::<
                        <V as VfsFile>::Handle,
                    >::Dir { entries, pos: 0 }),
                    _ => true,
                },
            }
        }),
{
}

// ---------------------------------------------------------------------------------------------
// memory

/// `mmap` of nothing is refused, and so is one at a certain place, and one that would go past
/// the limits; then nothing changes.
pub proof fn law_mmap_refuses_what_it_cannot_give<V: Vfs>(
    sh: SharedView<<V as VfsFile>::Handle>,
    ctx: CtxView,
    fs: Seq<MountView<<V as VfsFile>::State>>,
    size: int,
    addr: u32,
    length: u32,
    flags: i32,
    fd: i32,
    offset: i32,
)
    requires
        0 <= size,
    ensures
        ({
            let (s, c, f, r) = mmap_spec::<V>(
                sh,
                ctx,
                fs,
                size,
                addr,
                length,
                flags,
                fd,
                offset,
            );
            &&& length == 0 ==> r == errno::<i32>(Errno::INVAL) && s == sh && c == ctx && f == fs
            &&& length > 0 && flags & 0x10 != 0 && addr != 0 ==> r == errno::<i32>(Errno::NOMEM) && s
                == sh && c == ctx && f == fs
            &&& length > 0 && sh.memory_used + length > sh.limits.memory ==> r == errno::<i32>(
                Errno::NOMEM,
            ) && s == sh && c == ctx && f == fs
            &&& length > 0 && size + length > sh.limits.memory_per_process ==> r == errno::<i32>(
                Errno::NOMEM,
            ) && s == sh && c == ctx && f == fs
            &&& length > 0 && flags & 0x20 != 0 && r is Err && r->Err_0 is Grow ==> {
                let pages = r->Err_0->Grow_0;
                &&& 65536 * (pages - 1) < length <= 65536 * pages
                &&& s.memory_used == sh.memory_used + 65536 * pages
            }
        }),
{
}

// ---------------------------------------------------------------------------------------------
// paths

/// `chdir` goes to a directory and nowhere else, and the working directory is then where the
/// path led.
pub proof fn law_chdir_goes_to_a_directory<V: Vfs>(
    sh: SharedView<<V as VfsFile>::Handle>,
    ctx: CtxView,
    fs: Seq<MountView<<V as VfsFile>::State>>,
    mem: Seq<u8>,
    path_at: u32,
    path: Seq<char>,
    node: NodeView,
)
    requires
        text_at(mem, path_at as int) == Ok::<Seq<char>, Errno>(path),
        looked_up::<V>(sh, ctx, fs, (-100int) as i32, path, true).2 == Ok::<NodeView, Fault>(node),
    ensures
        ({
            let (s, c, f, r) = chdir_spec::<V>(sh, ctx, fs, mem, path_at);
            let f1 = looked_up::<V>(sh, ctx, fs, (-100int) as i32, path, true).1;
            &&& r is Err ==> c == ctx
            &&& match node {
                NodeView::VirtualDir { guest } => r == Sys::Ok(0) && c.task.cwd == guest,
                NodeView::Mounted { mount, rel, guest } => match called::<V>(
                    f1,
                    mount as int,
                    VfsCall::Stat { path: rel, follow: true },
                ).1 {
                    VfsAnswer::Stat(st) => if st.file_type is Dir {
                        r == Sys::Ok(0) && c.task.cwd == guest
                    } else {
                        r == errno::<i32>(Errno::NOTDIR)
                    },
                    _ => r is Err,
                },
                _ => r == errno::<i32>(Errno::NOTDIR),
            }
            &&& c == (CtxView { task: TaskView { cwd: c.task.cwd, ..ctx.task }, ..ctx })
        }),
{
}

/// Nothing is renamed from one mount to another.
pub proof fn law_nothing_is_renamed_across_mounts<V: Vfs>(
    sh: SharedView<<V as VfsFile>::Handle>,
    ctx: CtxView,
    fs: Seq<MountView<<V as VfsFile>::State>>,
    mem: Seq<u8>,
    from_dir: i32,
    from_at: u32,
    to_dir: i32,
    to_at: u32,
    from: Seq<char>,
    to: Seq<char>,
)
    requires
        text_at(mem, from_at as int) == Ok::<Seq<char>, Errno>(from),
        text_at(mem, to_at as int) == Ok::<Seq<char>, Errno>(to),
        ({
            let (s1, f1, a) = looked_up::<V>(sh, ctx, fs, from_dir, from, false);
            let b = looked_up::<V>(s1, ctx, f1, to_dir, to, false).2;
            a matches Ok(NodeView::Mounted { mount: m, .. }) && (b matches Ok(
                NodeView::Mounted { mount: n, .. },
            ) && m != n)
        }),
    ensures
        renameat_spec::<V>(sh, ctx, fs, mem, from_dir, from_at, to_dir, to_at).2 == errno::<i32>(
            Errno::XDEV,
        ),
{
}

/// A new directory gets the permissions that are asked for and not masked, of the nine there
/// are; a file's permissions are set as asked, of the twelve there are.
pub proof fn law_permissions_are_masked<V: Vfs>(
    sh: SharedView<<V as VfsFile>::Handle>,
    ctx: CtxView,
    fs: Seq<MountView<<V as VfsFile>::State>>,
    mem: Seq<u8>,
    dirfd: i32,
    path_at: u32,
    mode: u32,
    path: Seq<char>,
    mount: usize,
    rel: Seq<char>,
    guest: Seq<char>,
    given: u32,
    set: u32,
)
    requires
        text_at(mem, path_at as int) == Ok::<Seq<char>, Errno>(path),
        looked_up::<V>(sh, ctx, fs, dirfd, path, true).2 == Ok::<NodeView, Fault>(
            NodeView::Mounted { mount, rel, guest },
        ),
        given < 512,
        forall|b: u32|
            #![trigger given >> b]
            b < 9 ==> ((given >> b) & 1 == 1 <==> (mode >> b) & 1 == 1 && (ctx.task.umask >> b) & 1
                == 0),
        set < 4096,
        set == mode % 4096,
    ensures
        ({
            let (s, f, _) = looked_up::<V>(sh, ctx, fs, dirfd, path, true);
            &&& mkdirat_spec::<V>(sh, ctx, fs, mem, dirfd, path_at, mode) == changed::<V>(
                s,
                f,
                mount,
                VfsCall::Mkdir { path: rel, mode: given },
            )
            &&& fchmodat_spec::<V>(sh, ctx, fs, mem, dirfd, path_at, mode) == changed::<V>(
                s,
                f,
                mount,
                VfsCall::SetMode { path: rel, mode: set },
            )
        }),
{
    let umask = ctx.task.umask;
    lemma_masked(mode, umask, given);
    assert(mode & 0xfff == mode % 4096) by (bit_vector);
}

proof fn lemma_masked(mode: u32, umask: u32, given: u32)
    requires
        given < 512,
        forall|b: u32|
            #![trigger given >> b]
            b < 9 ==> ((given >> b) & 1 == 1 <==> (mode >> b) & 1 == 1 && (umask >> b) & 1 == 0),
    ensures
        given == mode & !umask & 0x1ff,
{
    let g0 = given >> 0u32;
    let g1 = given >> 1u32;
    let g2 = given >> 2u32;
    let g3 = given >> 3u32;
    let g4 = given >> 4u32;
    let g5 = given >> 5u32;
    let g6 = given >> 6u32;
    let g7 = given >> 7u32;
    let g8 = given >> 8u32;
    assert(given == mode & !umask & 0x1ff) by (bit_vector)
        requires
            given < 512,
            (given >> 0u32) & 1 == 1 <==> (mode >> 0u32) & 1 == 1 && (umask >> 0u32) & 1 == 0,
            (given >> 1u32) & 1 == 1 <==> (mode >> 1u32) & 1 == 1 && (umask >> 1u32) & 1 == 0,
            (given >> 2u32) & 1 == 1 <==> (mode >> 2u32) & 1 == 1 && (umask >> 2u32) & 1 == 0,
            (given >> 3u32) & 1 == 1 <==> (mode >> 3u32) & 1 == 1 && (umask >> 3u32) & 1 == 0,
            (given >> 4u32) & 1 == 1 <==> (mode >> 4u32) & 1 == 1 && (umask >> 4u32) & 1 == 0,
            (given >> 5u32) & 1 == 1 <==> (mode >> 5u32) & 1 == 1 && (umask >> 5u32) & 1 == 0,
            (given >> 6u32) & 1 == 1 <==> (mode >> 6u32) & 1 == 1 && (umask >> 6u32) & 1 == 0,
            (given >> 7u32) & 1 == 1 <==> (mode >> 7u32) & 1 == 1 && (umask >> 7u32) & 1 == 0,
            (given >> 8u32) & 1 == 1 <==> (mode >> 8u32) & 1 == 1 && (umask >> 8u32) & 1 == 0,
    ;
}

/// The kernel's own files open as what they are: the devices as devices, the terminal as input
/// or as output, a descriptor again, and a generated file as what it holds, which cannot be
/// written.
pub proof fn law_the_kernels_files_open_as_what_they_are<V: Vfs>(
    sh: SharedView<<V as VfsFile>::Handle>,
    ctx: CtxView,
    fs: Seq<MountView<<V as VfsFile>::State>>,
    uptime: Seq<char>,
    guest: Seq<char>,
    flags: u32,
    mode: u32,
    fd: i32,
)
    ensures
        ({
            let opens = |d: Device|
                node_opening::<V>(
                    sh,
                    ctx,
                    fs,
                    uptime,
                    NodeView::Device { device: d, guest },
                    flags,
                    mode,
                ).2;
            &&& opens(Device::Null) == Opening::Fresh(
                KindView::<<V as VfsFile>::Handle>::Null,
                guest,
            )
            &&& opens(Device::Zero) == Opening::Fresh(
                KindView::<<V as VfsFile>::Handle>::Zero,
                guest,
            )
            &&& opens(Device::Random) == Opening::Fresh(
                KindView::<<V as VfsFile>::Handle>::Random,
                guest,
            )
            &&& flags & 3 == 0 ==> opens(Device::Tty) == Opening::Fresh(
                KindView::<<V as VfsFile>::Handle>::Stdin,
                guest,
            )
            &&& flags & 3 != 0 ==> opens(Device::Tty) == Opening::Fresh(
                KindView::<<V as VfsFile>::Handle>::Stdout(1),
                guest,
            )
            &&& opens(Device::Fd(fd)) == Opening::<<V as VfsFile>::Handle>::Again(fd)
        }),
        ({
            let made = node_opening::<V>(
                sh,
                ctx,
                fs,
                uptime,
                NodeView::Synth { guest },
                flags,
                mode,
            ).2;
            &&& flags == 0 ==> made == Opening::Fresh(
                KindView::<<V as VfsFile>::Handle>::Memory {
                    data: proc_bytes(sh, ctx, fs, uptime, guest),
                    pos: 0,
                },
                guest,
            )
            &&& flags & 3 == 1 || flags & 3 == 2 ==> made == Opening::<
                <V as VfsFile>::Handle,
            >::Fail(Fault::Errno(Errno::ROFS))
        }),
{
    assert(0u32 & 3 == 0 && 0u32 & (0x40u32 | 0x200u32) == 0) by (bit_vector);
}

/// A device is told from a file by its type, and from another device by its numbers.
pub proof fn law_devices_have_their_numbers(guest: Seq<char>, fd: i32)
    ensures
        device_facts(Device::Null, guest).rdev == (1u32, 3u32),
        device_facts(Device::Zero, guest).rdev == (1u32, 5u32),
        device_facts(Device::Random, guest).rdev == (1u32, 9u32),
        device_facts(Device::Tty, guest).rdev == (5u32, 0u32),
        device_facts(Device::Fd(fd), guest).rdev == (5u32, 0u32),
        forall|d: Device| (#[trigger] device_facts(d, guest)).stat.size == 0,
{
}

// ---------------------------------------------------------------------------------------------
// the rest

/// The clocks count in nanoseconds.
pub proof fn law_clocks_count_in_nanoseconds(mem: Seq<u8>, at: u32)
    requires
        0 < at,
        at + 16 <= mem.len(),
        at + 16 <= u32::MAX,
    ensures
        ({
            let (m, r) = getres_spec(mem, at);
            r == Sys::Ok(0) && double_in(m, at as int) == 0 && word_in(m, at + 8) == 1
        }),
{
    super::machine::lemma_timespec_stored(mem, at, 1);
}

/// The terminal belongs to the group of whoever asks.
pub proof fn law_the_terminal_belongs_to_the_callers_group<F>(
    sh: SharedView<F>,
    ctx: CtxView,
    mem: Seq<u8>,
    t: TerminalView,
    at: u32,
    i: int,
)
    requires
        is_record(sh.table, ctx.task.pid, i),
        sh.table[i].pgid >= 0,
        at + 4 <= mem.len(),
    ensures
        ({
            let (s, m, r) = terminal_spec(sh, ctx, mem, t, 0x540f, at);
            r == Sys::Ok(0) && word_in(m, at as int) == sh.table[i].pgid && s == sh
        }),
{
    lemma_is_record(sh.table, ctx.task.pid, i);
    super::plain::lemma_patched_word(mem, at as int, sh.table[i].pgid as u32);
}

} // verus!
