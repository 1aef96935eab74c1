//! A call that could not finish has done nothing that asking again would do twice.
use crate::nr;
use crate::abi::TIMER_ABSTIME;
use crate::kernel::fd::{DescView, KindView};
use crate::kernel::mem::word_of;
use crate::kernel::mounts::MountView;
use crate::kernel::state::{Call, CtxView, SharedView};
use crate::slab::SlabView;
use crate::syscall::base::{held_sum, Fault, Sys, World};
use crate::syscall::exec::execve_spec;
use crate::syscall::fds::{
    close_spec, dup3_spec, dup_spec, fcntl_spec, ftruncate_spec, getdents_spec, lseek_spec,
    pipe2_spec,
};
use crate::syscall::io::{sys_read_spec, sys_write_spec};
use crate::syscall::ioctl::ioctl_spec;
use crate::syscall::memory::{brk_spec, mmap_spec};
use crate::syscall::open::openat_spec;
use crate::syscall::path::{
    chdir_spec, faccessat_spec, fchdir_spec, fchmodat_spec, getcwd_spec, mkdirat_spec,
    readlinkat_spec, renameat_spec, symlinkat_spec, truncate_spec, unlinkat_spec, utimensat_spec,
};
use crate::syscall::poll::{ppoll_spec, pselect_spec};
use crate::syscall::process::{
    affinity_spec, clone_spec, exit_spec, getrandom_spec, prlimit_spec, setpgid_spec, setsid_spec,
    times_spec, wait4_spec,
};
use crate::syscall::signal::{
    kill_spec, sigaction_spec, sigpending_spec, sigprocmask_spec, sigsuspend_spec,
};
use crate::syscall::stat::statx_spec;
use crate::syscall::table::{
    concluded, counted, dispatched, file_call, handled, handled_grown, length_of, path_call,
    process_call, signal_call, ClockView,
};
use crate::syscall::time::{getres_spec, gettime_spec, sleep_spec, timeofday_spec};
use crate::syscall::vector::{iovec, readv_from, vector_count, writev_from};
use crate::vfs::{FileAnswer, FileCall, Vfs, VfsFile};
use crate::vfs::memory::MemVfs;
use vstd::prelude::*;

verus! {

/// Whether a handler could not finish.
pub open spec fn waits(r: Sys) -> bool {
    r == Sys::Err(Fault::Block)
}

/// Whether two descriptions are one but for where a mount has it in its file.
pub open spec fn same_desc<F>(a: DescView<F>, b: DescView<F>) -> bool {
    &&& b == DescView { kind: b.kind, ..a }
    &&& match (a.kind, b.kind) {
        (KindView::File { mount, closed, .. }, KindView::File { mount: m, closed: c, .. }) => {
            m == mount && c == closed
        },
        _ => b.kind == a.kind,
    }
}

/// Whether the same descriptions are open, each under the key it had.
pub open spec fn same_descs<F>(a: SlabView<DescView<F>>, b: SlabView<DescView<F>>) -> bool {
    ||| b == a
    ||| {
        &&& b.free == a.free
        &&& b.slots.len() == a.slots.len()
        &&& forall|i: int|
            0 <= i < a.slots.len() ==> match (#[trigger] a.slots[i], #[trigger] b.slots[i]) {
                (Some(x), Some(y)) => same_desc(x, y),
                (None, None) => true,
                _ => false,
            }
    }
}

/// Whether nothing was taken and nothing was given: the guest's memory and what is charged for
/// it, the process's descriptors and directory, what is open, the pipes, the standard streams and
/// the children waiting to start are as they were. What a mount keeps in the handle of a file is
/// its own.
pub open spec fn unharmed<S, F>(before: World<S, F>, after: World<S, F>) -> bool {
    &&& after.mem == before.mem
    &&& after.ctx.task.fds == before.ctx.task.fds
    &&& after.ctx.task.cwd == before.ctx.task.cwd
    &&& after.ctx.vfork_stack == before.ctx.vfork_stack
    &&& after.ctx.state.charged == before.ctx.state.charged
    &&& after.ctx.state.staged == before.ctx.state.staged
    &&& after.sh.memory_used == before.sh.memory_used
    &&& same_descs(before.sh.descs, after.sh.descs)
    &&& after.sh.pipes == before.sh.pipes
    &&& after.sh.stdin.data == before.sh.stdin.data
    &&& after.sh.stdout == before.sh.stdout
    &&& after.sh.stderr == before.sh.stderr
    &&& after.sh.spawn == before.sh.spawn
}

/// Whether a filesystem takes no more of a write than it is given, as [`VfsFile::write`]
/// promises.
pub open spec fn takes_no_more<V: Vfs>() -> bool {
    forall|s: <V as VfsFile>::State, file: <V as VfsFile>::Handle, data: Seq<u8>|
        (#[trigger] V::file_answer(s, file, FileCall::Write { data })).2 matches FileAnswer::Count(
            n,
        ) ==> n <= data.len()
}

proof fn lemma_readv_from_waits<V: Vfs>(
    sh: SharedView<<V as VfsFile>::Handle>,
    ctx: CtxView,
    fs: Seq<MountView<<V as VfsFile>::State>>,
    mem: Seq<u8>,
    realtime: u128,
    fd: i32,
    vector: u32,
    count: int,
    i: int,
    total: i32,
)
    requires
        mem.len() <= i32::MAX,
        0 <= total,
    ensures
        ({
            let (s, f, m, r) = readv_from::<V>(
                sh,
                ctx,
                fs,
                mem,
                realtime,
                fd,
                vector,
                count,
                i,
                total,
            );
            waits(r) ==> total == 0 && unharmed(
                World { sh, ctx, fs, mem },
                World { sh: s, ctx, fs: f, mem: m },
            )
        }),
    decreases count - i,
{
    if i < count {
        if let Ok((at, len)) = iovec(mem, vector, i) {
            if len == 0 {
                lemma_readv_from_waits::<V>(
                    sh,
                    ctx,
                    fs,
                    mem,
                    realtime,
                    fd,
                    vector,
                    count,
                    i + 1,
                    total,
                );
            } else {
                let (s, f, m, r) = sys_read_spec::<V>(sh, ctx, fs, mem, realtime, fd, at, len);
                assert(m.len() == mem.len());
                if let Ok(n) = r {
                    if word_of(n) >= len {
                        assert(n > 0);
                        lemma_readv_from_waits::<V>(
                            s,
                            ctx,
                            f,
                            m,
                            realtime,
                            fd,
                            vector,
                            count,
                            i + 1,
                            held_sum(total, n),
                        );
                    }
                }
            }
        }
    }
}

proof fn lemma_write_counts<V: Vfs>(
    sh: SharedView<<V as VfsFile>::Handle>,
    ctx: CtxView,
    fs: Seq<MountView<<V as VfsFile>::State>>,
    mem: Seq<u8>,
    fd: i32,
    at: u32,
    len: u32,
)
    requires
        takes_no_more::<V>(),
        mem.len() <= i32::MAX,
    ensures
        sys_write_spec::<V>(sh, ctx, fs, mem, fd, at, len).2 matches Ok(n) ==> 0 <= n <= len,
{
}

proof fn lemma_writev_from_waits<V: Vfs>(
    sh: SharedView<<V as VfsFile>::Handle>,
    ctx: CtxView,
    fs: Seq<MountView<<V as VfsFile>::State>>,
    mem: Seq<u8>,
    fd: i32,
    vector: u32,
    count: int,
    i: int,
    total: i32,
)
    requires
        takes_no_more::<V>(),
        mem.len() <= i32::MAX,
        0 <= total,
    ensures
        ({
            let (s, f, r) = writev_from::<V>(sh, ctx, fs, mem, fd, vector, count, i, total);
            waits(r) ==> total == 0 && unharmed(
                World { sh, ctx, fs, mem },
                World { sh: s, ctx, fs: f, mem },
            )
        }),
    decreases count - i,
{
    if i < count {
        if let Ok((at, len)) = iovec(mem, vector, i) {
            if len == 0 {
                lemma_writev_from_waits::<V>(sh, ctx, fs, mem, fd, vector, count, i + 1, total);
            } else {
                let (s, f, r) = sys_write_spec::<V>(sh, ctx, fs, mem, fd, at, len);
                if let Ok(n) = r {
                    if word_of(n) >= len {
                        lemma_write_counts::<V>(sh, ctx, fs, mem, fd, at, len);
                        lemma_writev_from_waits::<V>(
                            s,
                            ctx,
                            f,
                            mem,
                            fd,
                            vector,
                            count,
                            i + 1,
                            held_sum(total, n),
                        );
                    }
                }
            }
        }
    }
}

proof fn lemma_exit_waits<V: Vfs>(
    w: World<<V as VfsFile>::State,
    <V as VfsFile>::Handle>,
    k: ClockView,
    c: Call,
)
    ensures
        ({
            let (sh, ctx, fs, r) = exit_spec::<V>(
                w.sh,
                w.ctx,
                w.fs,
                c.a0,
            );
            waits(r) ==> unharmed(w, (World { sh, ctx, fs, ..w }))
        }),
{
}

proof fn lemma_clone_waits<V: Vfs>(
    w: World<<V as VfsFile>::State,
    <V as VfsFile>::Handle>,
    k: ClockView,
    c: Call,
)
    ensures
        ({
            let (sh, ctx, r) = clone_spec(
                w.sh,
                w.ctx,
                word_of(c.a0),
            );
            waits(r) ==> unharmed(w, (World { sh, ctx, ..w }))
        }),
{
}

proof fn lemma_execve_waits<V: Vfs>(
    w: World<<V as VfsFile>::State,
    <V as VfsFile>::Handle>,
    k: ClockView,
    c: Call,
)
    ensures
        ({
            let (sh, ctx, fs, r) = execve_spec::<V>(
                w.sh,
                w.ctx,
                w.fs,
                w.mem,
                word_of(c.a0),
                word_of(c.a1),
                word_of(c.a2),
            );
            waits(r) ==> unharmed(w, (World { sh, ctx, fs, ..w }))
        }),
{
}

proof fn lemma_wait4_waits<V: Vfs>(
    w: World<<V as VfsFile>::State,
    <V as VfsFile>::Handle>,
    k: ClockView,
    c: Call,
)
    ensures
        ({
            let (sh, mem, r) = wait4_spec(
                w.sh,
                w.ctx,
                w.mem,
                c.a0,
                word_of(c.a1),
                c.a2,
                word_of(c.a3),
            );
            waits(r) ==> unharmed(w, (World { sh, mem, ..w }))
        }),
{
}

proof fn lemma_setpgid_waits<V: Vfs>(
    w: World<<V as VfsFile>::State,
    <V as VfsFile>::Handle>,
    k: ClockView,
    c: Call,
)
    ensures
        ({
            let (sh, r) = setpgid_spec(
                w.sh,
                w.ctx,
                c.a0,
                c.a1,
            );
            waits(r) ==> unharmed(w, (World { sh, ..w }))
        }),
{
}

proof fn lemma_setsid_waits<V: Vfs>(
    w: World<<V as VfsFile>::State,
    <V as VfsFile>::Handle>,
    k: ClockView,
    c: Call,
)
    ensures
        ({
            let (sh, r) = setsid_spec(
                w.sh,
                w.ctx,
            );
            waits(r) ==> unharmed(w, (World { sh, ..w }))
        }),
{
}

proof fn lemma_affinity_waits<V: Vfs>(
    w: World<<V as VfsFile>::State,
    <V as VfsFile>::Handle>,
    k: ClockView,
    c: Call,
)
    ensures
        ({
            let (mem, r) = affinity_spec(
                w.mem,
                c.a2,
            );
            waits(r) ==> unharmed(w, (World { mem, ..w }))
        }),
{
}

proof fn lemma_prlimit_waits<V: Vfs>(
    w: World<<V as VfsFile>::State,
    <V as VfsFile>::Handle>,
    k: ClockView,
    c: Call,
)
    ensures
        ({
            let (mem, r) = prlimit_spec(
                w.sh.limits,
                w.mem,
                c.a1,
                word_of(c.a3),
            );
            waits(r) ==> unharmed(w, (World { mem, ..w }))
        }),
{
}

proof fn lemma_times_waits<V: Vfs>(
    w: World<<V as VfsFile>::State,
    <V as VfsFile>::Handle>,
    k: ClockView,
    c: Call,
)
    ensures
        ({
            let (mem, r) = times_spec(
                w.mem,
                k.elapsed,
                word_of(c.a0),
            );
            waits(r) ==> unharmed(w, (World { mem, ..w }))
        }),
{
}

proof fn lemma_getrandom_waits<V: Vfs>(
    w: World<<V as VfsFile>::State,
    <V as VfsFile>::Handle>,
    k: ClockView,
    c: Call,
)
    ensures
        ({
            let (sh, mem, r) = getrandom_spec(
                w.sh,
                w.mem,
                k.realtime,
                word_of(c.a0),
                word_of(c.a1),
            );
            waits(r) ==> unharmed(w, (World { sh, mem, ..w }))
        }),
{
}

proof fn lemma_sigaction_waits<V: Vfs>(
    w: World<<V as VfsFile>::State,
    <V as VfsFile>::Handle>,
    k: ClockView,
    c: Call,
)
    ensures
        ({
            let (ctx, mem, r) = sigaction_spec(
                w.ctx,
                w.mem,
                c.a0,
                word_of(c.a1),
                word_of(c.a2),
            );
            waits(r) ==> unharmed(w, (World { ctx, mem, ..w }))
        }),
{
}

proof fn lemma_sigprocmask_waits<V: Vfs>(
    w: World<<V as VfsFile>::State,
    <V as VfsFile>::Handle>,
    k: ClockView,
    c: Call,
)
    ensures
        ({
            let (ctx, mem, r) = sigprocmask_spec(
                w.ctx,
                w.mem,
                c.a0,
                word_of(c.a1),
                word_of(c.a2),
            );
            waits(r) ==> unharmed(w, (World { ctx, mem, ..w }))
        }),
{
}

proof fn lemma_sigpending_waits<V: Vfs>(
    w: World<<V as VfsFile>::State,
    <V as VfsFile>::Handle>,
    k: ClockView,
    c: Call,
)
    ensures
        ({
            let (mem, r) = sigpending_spec(
                w.sh,
                w.ctx,
                w.mem,
                word_of(c.a0),
            );
            waits(r) ==> unharmed(w, (World { mem, ..w }))
        }),
{
}

proof fn lemma_sigsuspend_waits<V: Vfs>(
    w: World<<V as VfsFile>::State,
    <V as VfsFile>::Handle>,
    k: ClockView,
    c: Call,
)
    ensures
        ({
            let (ctx, r) = sigsuspend_spec(
                w.sh,
                w.ctx,
                w.mem,
                word_of(c.a0),
            );
            waits(r) ==> unharmed(w, (World { ctx, ..w }))
        }),
{
}

proof fn lemma_kill_waits<V: Vfs>(
    w: World<<V as VfsFile>::State,
    <V as VfsFile>::Handle>,
    k: ClockView,
    c: Call,
)
    ensures
        ({
            let (sh, r) = kill_spec(
                w.sh,
                w.ctx,
                c.a0,
                c.a1,
            );
            waits(r) ==> unharmed(w, (World { sh, ..w }))
        }),
{
}

proof fn lemma_tgkill_waits<V: Vfs>(
    w: World<<V as VfsFile>::State,
    <V as VfsFile>::Handle>,
    k: ClockView,
    c: Call,
)
    ensures
        ({
            let (sh, r) = kill_spec(
                w.sh,
                w.ctx,
                c.a1,
                c.a2,
            );
            waits(r) ==> unharmed(w, (World { sh, ..w }))
        }),
{
}

proof fn lemma_gettime_waits<V: Vfs>(
    w: World<<V as VfsFile>::State,
    <V as VfsFile>::Handle>,
    k: ClockView,
    c: Call,
)
    ensures
        ({
            let (mem, r) = gettime_spec(
                w.mem,
                k.elapsed,
                k.realtime,
                c.a0,
                word_of(c.a1),
            );
            waits(r) ==> unharmed(w, (World { mem, ..w }))
        }),
{
}

proof fn lemma_getres_waits<V: Vfs>(
    w: World<<V as VfsFile>::State,
    <V as VfsFile>::Handle>,
    k: ClockView,
    c: Call,
)
    ensures
        ({
            let (mem, r) = getres_spec(
                w.mem,
                word_of(c.a1),
            );
            waits(r) ==> unharmed(w, (World { mem, ..w }))
        }),
{
}

proof fn lemma_timeofday_waits<V: Vfs>(
    w: World<<V as VfsFile>::State,
    <V as VfsFile>::Handle>,
    k: ClockView,
    c: Call,
)
    ensures
        ({
            let (mem, r) = timeofday_spec(
                w.mem,
                k.realtime,
                word_of(c.a0),
            );
            waits(r) ==> unharmed(w, (World { mem, ..w }))
        }),
{
}

proof fn lemma_nanosleep_waits<V: Vfs>(
    w: World<<V as VfsFile>::State,
    <V as VfsFile>::Handle>,
    k: ClockView,
    c: Call,
)
    ensures
        ({
            let (sh, ctx, r) = sleep_spec(
                w.sh,
                w.ctx,
                w.mem,
                k.elapsed,
                k.realtime,
                word_of(c.a0),
                false,
                c.a0,
            );
            waits(r) ==> unharmed(w, (World { sh, ctx, ..w }))
        }),
{
}

proof fn lemma_clock_nanosleep_waits<V: Vfs>(
    w: World<<V as VfsFile>::State,
    <V as VfsFile>::Handle>,
    k: ClockView,
    c: Call,
)
    ensures
        ({
            let (sh, ctx, r) = sleep_spec(
                w.sh,
                w.ctx,
                w.mem,
                k.elapsed,
                k.realtime,
                word_of(c.a2),
                c.a1 & TIMER_ABSTIME != 0,
                c.a0,
            );
            waits(r) ==> unharmed(w, (World { sh, ctx, ..w }))
        }),
{
}

proof fn lemma_brk_waits<V: Vfs>(
    w: World<<V as VfsFile>::State,
    <V as VfsFile>::Handle>,
    k: ClockView,
    c: Call,
)
    ensures
        ({
            let (sh, ctx, r) = brk_spec(
                w.sh,
                w.ctx,
                w.mem.len() as int,
                word_of(c.a0),
            );
            waits(r) ==> unharmed(w, (World { sh, ctx, ..w }))
        }),
{
}

proof fn lemma_mmap_waits<V: Vfs>(
    w: World<<V as VfsFile>::State,
    <V as VfsFile>::Handle>,
    k: ClockView,
    c: Call,
)
    ensures
        ({
            let (sh, ctx, fs, r) = mmap_spec::<V>(
                w.sh,
                w.ctx,
                w.fs,
                w.mem.len() as int,
                word_of(c.a0),
                word_of(c.a1),
                c.a3,
                c.a4,
                c.a5,
            );
            waits(r) ==> unharmed(w, (World { sh, ctx, fs, ..w }))
        }),
{
}

proof fn lemma_ppoll_waits<V: Vfs>(
    w: World<<V as VfsFile>::State,
    <V as VfsFile>::Handle>,
    k: ClockView,
    c: Call,
)
    ensures
        ({
            let (sh, ctx, mem, r) = ppoll_spec(
                w.sh,
                w.ctx,
                w.mem,
                k.elapsed,
                word_of(c.a0),
                word_of(c.a1),
                word_of(c.a2),
            );
            waits(r) ==> unharmed(w, (World { sh, ctx, mem, ..w }))
        }),
{
}

proof fn lemma_pselect_waits<V: Vfs>(
    w: World<<V as VfsFile>::State,
    <V as VfsFile>::Handle>,
    k: ClockView,
    c: Call,
)
    ensures
        ({
            let (sh, ctx, mem, r) = pselect_spec(
                w.sh,
                w.ctx,
                w.mem,
                k.elapsed,
                c.a0,
                word_of(c.a1),
                word_of(c.a2),
                word_of(c.a3),
                word_of(c.a4),
            );
            waits(r) ==> unharmed(w, (World { sh, ctx, mem, ..w }))
        }),
{
}

proof fn lemma_openat_waits<V: Vfs>(
    w: World<<V as VfsFile>::State,
    <V as VfsFile>::Handle>,
    k: ClockView,
    c: Call,
)
    ensures
        ({
            let (sh, ctx, fs, r) = openat_spec::<V>(
                w.sh,
                w.ctx,
                w.fs,
                w.mem,
                k.uptime,
                c.a0,
                word_of(c.a1),
                word_of(c.a2),
                word_of(c.a3),
            );
            waits(r) ==> unharmed(w, (World { sh, ctx, fs, ..w }))
        }),
{
}

proof fn lemma_close_waits<V: Vfs>(
    w: World<<V as VfsFile>::State,
    <V as VfsFile>::Handle>,
    k: ClockView,
    c: Call,
)
    ensures
        ({
            let (sh, ctx, fs, r) = close_spec::<V>(
                w.sh,
                w.ctx,
                w.fs,
                c.a0,
            );
            waits(r) ==> unharmed(w, (World { sh, ctx, fs, ..w }))
        }),
{
}

proof fn lemma_read_waits<V: Vfs>(
    w: World<<V as VfsFile>::State,
    <V as VfsFile>::Handle>,
    k: ClockView,
    c: Call,
)
    ensures
        ({
            let (sh, fs, mem, r) = sys_read_spec::<V>(
                w.sh,
                w.ctx,
                w.fs,
                w.mem,
                k.realtime,
                c.a0,
                word_of(c.a1),
                word_of(c.a2),
            );
            waits(r) ==> unharmed(w, (World { sh, fs, mem, ..w }))
        }),
{
}

proof fn lemma_write_waits<V: Vfs>(
    w: World<<V as VfsFile>::State,
    <V as VfsFile>::Handle>,
    k: ClockView,
    c: Call,
)
    ensures
        ({
            let (sh, fs, r) = sys_write_spec::<V>(
                w.sh,
                w.ctx,
                w.fs,
                w.mem,
                c.a0,
                word_of(c.a1),
                word_of(c.a2),
            );
            waits(r) ==> unharmed(w, (World { sh, fs, ..w }))
        }),
{
}

proof fn lemma_readv_waits<V: Vfs>(
    w: World<<V as VfsFile>::State,
    <V as VfsFile>::Handle>,
    k: ClockView,
    c: Call,
)
    requires
        w.mem.len() <= i32::MAX,
    ensures
        ({
            let (sh, fs, mem, r) = readv_from::<V>(
                w.sh,
                w.ctx,
                w.fs,
                w.mem,
                k.realtime,
                c.a0,
                word_of(c.a1),
                vector_count(c.a2),
                0,
                0,
            );
            waits(r) ==> unharmed(w, (World { sh, fs, mem, ..w }))
        }),
{
    lemma_readv_from_waits::<V>(
        w.sh,
        w.ctx,
        w.fs,
        w.mem,
        k.realtime,
        c.a0,
        word_of(c.a1),
        vector_count(c.a2),
        0,
        0,
    );
}

proof fn lemma_writev_waits<V: Vfs>(
    w: World<<V as VfsFile>::State,
    <V as VfsFile>::Handle>,
    k: ClockView,
    c: Call,
)
    requires
        takes_no_more::<V>(),
        w.mem.len() <= i32::MAX,
    ensures
        ({
            let (sh, fs, r) = writev_from::<V>(
                w.sh,
                w.ctx,
                w.fs,
                w.mem,
                c.a0,
                word_of(c.a1),
                vector_count(c.a2),
                0,
                0,
            );
            waits(r) ==> unharmed(w, (World { sh, fs, ..w }))
        }),
{
    lemma_writev_from_waits::<V>(
        w.sh,
        w.ctx,
        w.fs,
        w.mem,
        c.a0,
        word_of(c.a1),
        vector_count(c.a2),
        0,
        0,
    );
}

proof fn lemma_lseek_waits<V: Vfs>(
    w: World<<V as VfsFile>::State,
    <V as VfsFile>::Handle>,
    k: ClockView,
    c: Call,
)
    ensures
        ({
            let (sh, fs, r) = lseek_spec::<V>(
                w.sh,
                w.ctx,
                w.fs,
                c.a0,
                c.a1,
                c.a2,
            );
            waits(r) ==> unharmed(w, (World { sh, fs, ..w }))
        }),
{
}

proof fn lemma_ftruncate_waits<V: Vfs>(
    w: World<<V as VfsFile>::State,
    <V as VfsFile>::Handle>,
    k: ClockView,
    c: Call,
)
    ensures
        ({
            let (sh, fs, r) = ftruncate_spec::<V>(
                w.sh,
                w.ctx,
                w.fs,
                c.a0,
                length_of(c.a1, c.a2),
            );
            waits(r) ==> unharmed(w, (World { sh, fs, ..w }))
        }),
{
}

proof fn lemma_dup_waits<V: Vfs>(
    w: World<<V as VfsFile>::State,
    <V as VfsFile>::Handle>,
    k: ClockView,
    c: Call,
)
    ensures
        ({
            let (sh, ctx, r) = dup_spec(
                w.sh,
                w.ctx,
                c.a0,
                0,
                false,
            );
            waits(r) ==> unharmed(w, (World { sh, ctx, ..w }))
        }),
{
}

proof fn lemma_dup3_waits<V: Vfs>(
    w: World<<V as VfsFile>::State,
    <V as VfsFile>::Handle>,
    k: ClockView,
    c: Call,
)
    ensures
        ({
            let (sh, ctx, fs, r) = dup3_spec::<V>(
                w.sh,
                w.ctx,
                w.fs,
                c.a0,
                c.a1,
                word_of(c.a2),
            );
            waits(r) ==> unharmed(w, (World { sh, ctx, fs, ..w }))
        }),
{
}

proof fn lemma_pipe2_waits<V: Vfs>(
    w: World<<V as VfsFile>::State,
    <V as VfsFile>::Handle>,
    k: ClockView,
    c: Call,
)
    ensures
        ({
            let (sh, ctx, mem, r) = pipe2_spec(
                w.sh,
                w.ctx,
                w.mem,
                word_of(c.a0),
                word_of(c.a1),
            );
            waits(r) ==> unharmed(w, (World { sh, ctx, mem, ..w }))
        }),
{
}

proof fn lemma_fcntl_waits<V: Vfs>(
    w: World<<V as VfsFile>::State,
    <V as VfsFile>::Handle>,
    k: ClockView,
    c: Call,
)
    ensures
        ({
            let (sh, ctx, r) = fcntl_spec(
                w.sh,
                w.ctx,
                c.a0,
                c.a1,
                c.a2,
            );
            waits(r) ==> unharmed(w, (World { sh, ctx, ..w }))
        }),
{
}

proof fn lemma_ioctl_waits<V: Vfs>(
    w: World<<V as VfsFile>::State,
    <V as VfsFile>::Handle>,
    k: ClockView,
    c: Call,
)
    ensures
        ({
            let (sh, ctx, mem, r) = ioctl_spec(
                w.sh,
                w.ctx,
                w.mem,
                c.a0,
                word_of(c.a1),
                word_of(c.a2),
            );
            waits(r) ==> unharmed(w, (World { sh, ctx, mem, ..w }))
        }),
{
}

proof fn lemma_getdents_waits<V: Vfs>(
    w: World<<V as VfsFile>::State,
    <V as VfsFile>::Handle>,
    k: ClockView,
    c: Call,
)
    ensures
        ({
            let (sh, mem, r) = getdents_spec(
                w.sh,
                w.ctx,
                w.mem,
                c.a0,
                word_of(c.a1),
                word_of(c.a2),
            );
            waits(r) ==> unharmed(w, (World { sh, mem, ..w }))
        }),
{
}

proof fn lemma_truncate_waits<V: Vfs>(
    w: World<<V as VfsFile>::State,
    <V as VfsFile>::Handle>,
    k: ClockView,
    c: Call,
)
    ensures
        ({
            let (sh, fs, r) = truncate_spec::<V>(
                w.sh,
                w.ctx,
                w.fs,
                w.mem,
                word_of(c.a0),
                length_of(c.a1, c.a2),
            );
            waits(r) ==> unharmed(w, (World { sh, fs, ..w }))
        }),
{
}

proof fn lemma_getcwd_waits<V: Vfs>(
    w: World<<V as VfsFile>::State,
    <V as VfsFile>::Handle>,
    k: ClockView,
    c: Call,
)
    ensures
        ({
            let (mem, r) = getcwd_spec(
                w.ctx,
                w.mem,
                word_of(c.a0),
                word_of(c.a1),
            );
            waits(r) ==> unharmed(w, (World { mem, ..w }))
        }),
{
}

proof fn lemma_chdir_waits<V: Vfs>(
    w: World<<V as VfsFile>::State,
    <V as VfsFile>::Handle>,
    k: ClockView,
    c: Call,
)
    ensures
        ({
            let (sh, ctx, fs, r) = chdir_spec::<V>(
                w.sh,
                w.ctx,
                w.fs,
                w.mem,
                word_of(c.a0),
            );
            waits(r) ==> unharmed(w, (World { sh, ctx, fs, ..w }))
        }),
{
}

proof fn lemma_fchdir_waits<V: Vfs>(
    w: World<<V as VfsFile>::State,
    <V as VfsFile>::Handle>,
    k: ClockView,
    c: Call,
)
    ensures
        ({
            let (ctx, r) = fchdir_spec(
                w.sh,
                w.ctx,
                c.a0,
            );
            waits(r) ==> unharmed(w, (World { ctx, ..w }))
        }),
{
}

proof fn lemma_statx_waits<V: Vfs>(
    w: World<<V as VfsFile>::State,
    <V as VfsFile>::Handle>,
    k: ClockView,
    c: Call,
)
    ensures
        ({
            let (sh, fs, mem, r) = statx_spec::<V>(
                w.sh,
                w.ctx,
                w.fs,
                w.mem,
                k.uptime,
                c.a0,
                word_of(c.a1),
                c.a2,
                word_of(c.a4),
            );
            waits(r) ==> unharmed(w, (World { sh, fs, mem, ..w }))
        }),
{
}

proof fn lemma_faccessat_waits<V: Vfs>(
    w: World<<V as VfsFile>::State,
    <V as VfsFile>::Handle>,
    k: ClockView,
    c: Call,
)
    ensures
        ({
            let (sh, fs, r) = faccessat_spec::<V>(
                w.sh,
                w.ctx,
                w.fs,
                w.mem,
                c.a0,
                word_of(c.a1),
                c.a3,
            );
            waits(r) ==> unharmed(w, (World { sh, fs, ..w }))
        }),
{
}

proof fn lemma_readlinkat_waits<V: Vfs>(
    w: World<<V as VfsFile>::State,
    <V as VfsFile>::Handle>,
    k: ClockView,
    c: Call,
)
    ensures
        ({
            let (sh, fs, mem, r) = readlinkat_spec::<V>(
                w.sh,
                w.ctx,
                w.fs,
                w.mem,
                c.a0,
                word_of(c.a1),
                word_of(c.a2),
                word_of(c.a3),
            );
            waits(r) ==> unharmed(w, (World { sh, fs, mem, ..w }))
        }),
{
}

proof fn lemma_mkdirat_waits<V: Vfs>(
    w: World<<V as VfsFile>::State,
    <V as VfsFile>::Handle>,
    k: ClockView,
    c: Call,
)
    ensures
        ({
            let (sh, fs, r) = mkdirat_spec::<V>(
                w.sh,
                w.ctx,
                w.fs,
                w.mem,
                c.a0,
                word_of(c.a1),
                word_of(c.a2),
            );
            waits(r) ==> unharmed(w, (World { sh, fs, ..w }))
        }),
{
}

proof fn lemma_unlinkat_waits<V: Vfs>(
    w: World<<V as VfsFile>::State,
    <V as VfsFile>::Handle>,
    k: ClockView,
    c: Call,
)
    ensures
        ({
            let (sh, fs, r) = unlinkat_spec::<V>(
                w.sh,
                w.ctx,
                w.fs,
                w.mem,
                c.a0,
                word_of(c.a1),
                c.a2,
            );
            waits(r) ==> unharmed(w, (World { sh, fs, ..w }))
        }),
{
}

proof fn lemma_renameat_waits<V: Vfs>(
    w: World<<V as VfsFile>::State,
    <V as VfsFile>::Handle>,
    k: ClockView,
    c: Call,
)
    ensures
        ({
            let (sh, fs, r) = renameat_spec::<V>(
                w.sh,
                w.ctx,
                w.fs,
                w.mem,
                c.a0,
                word_of(c.a1),
                c.a2,
                word_of(c.a3),
            );
            waits(r) ==> unharmed(w, (World { sh, fs, ..w }))
        }),
{
}

proof fn lemma_symlinkat_waits<V: Vfs>(
    w: World<<V as VfsFile>::State,
    <V as VfsFile>::Handle>,
    k: ClockView,
    c: Call,
)
    ensures
        ({
            let (sh, fs, r) = symlinkat_spec::<V>(
                w.sh,
                w.ctx,
                w.fs,
                w.mem,
                word_of(c.a0),
                c.a1,
                word_of(c.a2),
            );
            waits(r) ==> unharmed(w, (World { sh, fs, ..w }))
        }),
{
}

proof fn lemma_fchmodat_waits<V: Vfs>(
    w: World<<V as VfsFile>::State,
    <V as VfsFile>::Handle>,
    k: ClockView,
    c: Call,
)
    ensures
        ({
            let (sh, fs, r) = fchmodat_spec::<V>(
                w.sh,
                w.ctx,
                w.fs,
                w.mem,
                c.a0,
                word_of(c.a1),
                word_of(c.a2),
            );
            waits(r) ==> unharmed(w, (World { sh, fs, ..w }))
        }),
{
}

proof fn lemma_utimensat_waits<V: Vfs>(
    w: World<<V as VfsFile>::State,
    <V as VfsFile>::Handle>,
    k: ClockView,
    c: Call,
)
    ensures
        ({
            let (sh, fs, r) = utimensat_spec::<V>(
                w.sh,
                w.ctx,
                w.fs,
                w.mem,
                c.a0,
                word_of(c.a1),
                c.a4,
            );
            waits(r) ==> unharmed(w, (World { sh, fs, ..w }))
        }),
{
}

proof fn lemma_waiting_in_a_process_call<V: Vfs>(
    w: World<<V as VfsFile>::State, <V as VfsFile>::Handle>,
    k: ClockView,
    c: Call,
)
    requires
        w.mem.len() <= i32::MAX,
    ensures
        process_call::<V>(w, k, c) matches Some(done) ==> waits(done.1) ==> unharmed(w, done.0),
{
    reveal(process_call);
    if c.number == nr::EXIT || c.number == nr::EXIT_GROUP {
        lemma_exit_waits::<V>(w, k, c);
    } else if c.number == nr::CLONE {
        lemma_clone_waits::<V>(w, k, c);
    } else if c.number == nr::EXECVE {
        lemma_execve_waits::<V>(w, k, c);
    } else if c.number == nr::WAIT4 {
        lemma_wait4_waits::<V>(w, k, c);
    } else if c.number == nr::SETPGID {
        lemma_setpgid_waits::<V>(w, k, c);
    } else if c.number == nr::SETSID {
        lemma_setsid_waits::<V>(w, k, c);
    } else if c.number == nr::SCHED_GETAFFINITY {
        lemma_affinity_waits::<V>(w, k, c);
    } else if c.number == nr::PRLIMIT64 {
        lemma_prlimit_waits::<V>(w, k, c);
    } else if c.number == nr::TIMES {
        lemma_times_waits::<V>(w, k, c);
    } else if c.number == nr::GETRANDOM {
        lemma_getrandom_waits::<V>(w, k, c);
    }
}

proof fn lemma_waiting_in_a_signal_call<V: Vfs>(
    w: World<<V as VfsFile>::State, <V as VfsFile>::Handle>,
    k: ClockView,
    c: Call,
)
    requires
        w.mem.len() <= i32::MAX,
    ensures
        signal_call::<V>(w, k, c) matches Some(done) ==> waits(done.1) ==> unharmed(w, done.0),
{
    reveal(signal_call);
    if c.number == nr::RT_SIGACTION {
        lemma_sigaction_waits::<V>(w, k, c);
    } else if c.number == nr::RT_SIGPROCMASK {
        lemma_sigprocmask_waits::<V>(w, k, c);
    } else if c.number == nr::RT_SIGPENDING {
        lemma_sigpending_waits::<V>(w, k, c);
    } else if c.number == nr::RT_SIGSUSPEND {
        lemma_sigsuspend_waits::<V>(w, k, c);
    } else if c.number == nr::KILL || c.number == nr::TKILL {
        lemma_kill_waits::<V>(w, k, c);
    } else if c.number == nr::TGKILL {
        lemma_tgkill_waits::<V>(w, k, c);
    } else if c.number == nr::CLOCK_GETTIME64 {
        lemma_gettime_waits::<V>(w, k, c);
    } else if c.number == nr::CLOCK_GETRES_TIME64 {
        lemma_getres_waits::<V>(w, k, c);
    } else if c.number == nr::GETTIMEOFDAY {
        lemma_timeofday_waits::<V>(w, k, c);
    } else if c.number == nr::NANOSLEEP {
        lemma_nanosleep_waits::<V>(w, k, c);
    } else if c.number == nr::CLOCK_NANOSLEEP_TIME64 {
        lemma_clock_nanosleep_waits::<V>(w, k, c);
    } else if c.number == nr::BRK {
        lemma_brk_waits::<V>(w, k, c);
    } else if c.number == nr::MMAP {
        lemma_mmap_waits::<V>(w, k, c);
    } else if c.number == nr::PPOLL_TIME64 {
        lemma_ppoll_waits::<V>(w, k, c);
    } else if c.number == nr::PSELECT6_TIME64 {
        lemma_pselect_waits::<V>(w, k, c);
    }
}

proof fn lemma_waiting_in_a_file_call<V: Vfs>(
    w: World<<V as VfsFile>::State, <V as VfsFile>::Handle>,
    k: ClockView,
    c: Call,
)
    requires
        takes_no_more::<V>(),
        w.mem.len() <= i32::MAX,
    ensures
        file_call::<V>(w, k, c) matches Some(done) ==> waits(done.1) ==> unharmed(w, done.0),
{
    reveal(file_call);
    if c.number == nr::OPENAT {
        lemma_openat_waits::<V>(w, k, c);
    } else if c.number == nr::CLOSE {
        lemma_close_waits::<V>(w, k, c);
    } else if c.number == nr::READ {
        lemma_read_waits::<V>(w, k, c);
    } else if c.number == nr::WRITE {
        lemma_write_waits::<V>(w, k, c);
    } else if c.number == nr::READV {
        lemma_readv_waits::<V>(w, k, c);
    } else if c.number == nr::WRITEV {
        lemma_writev_waits::<V>(w, k, c);
    } else if c.number == nr::LSEEK {
        lemma_lseek_waits::<V>(w, k, c);
    } else if c.number == nr::FTRUNCATE {
        lemma_ftruncate_waits::<V>(w, k, c);
    } else if c.number == nr::DUP {
        lemma_dup_waits::<V>(w, k, c);
    } else if c.number == nr::DUP3 {
        lemma_dup3_waits::<V>(w, k, c);
    } else if c.number == nr::PIPE2 {
        lemma_pipe2_waits::<V>(w, k, c);
    } else if c.number == nr::FCNTL {
        lemma_fcntl_waits::<V>(w, k, c);
    } else if c.number == nr::IOCTL {
        lemma_ioctl_waits::<V>(w, k, c);
    } else if c.number == nr::GETDENTS64 {
        lemma_getdents_waits::<V>(w, k, c);
    }
}

proof fn lemma_waiting_in_a_path_call<V: Vfs>(
    w: World<<V as VfsFile>::State, <V as VfsFile>::Handle>,
    k: ClockView,
    c: Call,
)
    requires
        w.mem.len() <= i32::MAX,
    ensures
        path_call::<V>(w, k, c) matches Some(done) ==> waits(done.1) ==> unharmed(w, done.0),
{
    reveal(path_call);
    if c.number == nr::TRUNCATE {
        lemma_truncate_waits::<V>(w, k, c);
    } else if c.number == nr::GETCWD {
        lemma_getcwd_waits::<V>(w, k, c);
    } else if c.number == nr::CHDIR {
        lemma_chdir_waits::<V>(w, k, c);
    } else if c.number == nr::FCHDIR {
        lemma_fchdir_waits::<V>(w, k, c);
    } else if c.number == nr::STATX {
        lemma_statx_waits::<V>(w, k, c);
    } else if c.number == nr::FACCESSAT || c.number == nr::FACCESSAT2 {
        lemma_faccessat_waits::<V>(w, k, c);
    } else if c.number == nr::READLINKAT {
        lemma_readlinkat_waits::<V>(w, k, c);
    } else if c.number == nr::MKDIRAT {
        lemma_mkdirat_waits::<V>(w, k, c);
    } else if c.number == nr::UNLINKAT {
        lemma_unlinkat_waits::<V>(w, k, c);
    } else if c.number == nr::RENAMEAT || c.number == nr::RENAMEAT2 {
        lemma_renameat_waits::<V>(w, k, c);
    } else if c.number == nr::SYMLINKAT {
        lemma_symlinkat_waits::<V>(w, k, c);
    } else if c.number == nr::FCHMODAT {
        lemma_fchmodat_waits::<V>(w, k, c);
    } else if c.number == nr::UTIMENSAT_TIME64 {
        lemma_utimensat_waits::<V>(w, k, c);
    }
}

/// A call that could not finish has consumed nothing and written nothing, so that it can be
/// asked again exactly as it was. The memory is one whose size a signed word can count.
pub proof fn law_a_blocked_call_has_taken_nothing<V: Vfs>(
    w: World<<V as VfsFile>::State, <V as VfsFile>::Handle>,
    k: ClockView,
    c: Call,
)
    requires
        takes_no_more::<V>(),
        w.mem.len() <= i32::MAX,
        dispatched::<V>(w, k, c).1 is Blocked,
    ensures
        unharmed(w, dispatched::<V>(w, k, c).0),
{
    let v = counted(w);
    lemma_waiting_in_a_process_call::<V>(v, k, c);
    lemma_waiting_in_a_signal_call::<V>(v, k, c);
    lemma_waiting_in_a_file_call::<V>(v, k, c);
    lemma_waiting_in_a_path_call::<V>(v, k, c);
    let (after, r) = handled::<V>(v, k, c);
    assert(waits(r));
}

/// A call that goes on once its memory has grown always finishes: nothing is left to wait for
/// when something is charged.
pub proof fn law_a_grown_call_never_blocks<V: Vfs>(
    w: World<<V as VfsFile>::State, <V as VfsFile>::Handle>,
    c: Call,
    previous: Option<u64>,
)
    ensures
        ({
            let (after, r) = handled_grown::<V>(w, c, previous);
            concluded(after, r).1 is Value
        }),
{
}

/// The filesystem in memory takes no more of a write than it is given.
pub proof fn law_memory_takes_no_more()
    ensures
        takes_no_more::<MemVfs>(),
{
}

} // verus!
