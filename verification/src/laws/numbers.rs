//! The calls a guest can make, by their numbers.
use crate::errno::Errno;
use crate::kernel::mem::{signed_of, word_of, zeros};
use crate::kernel::state::{Call, CtxView};
use crate::kernel::task::TaskView;
use crate::syscall::base::{errno, Sys, World};
use crate::syscall::exec::execve_spec;
use crate::syscall::fds::{
    close_spec, dup3_spec, dup_spec, fcntl_spec, ftruncate_spec, getdents_spec, lseek_spec,
    pipe2_spec,
};
use crate::syscall::io::{sys_read_spec, sys_write_spec};
use crate::syscall::ioctl::ioctl_spec;
use crate::syscall::memory::{brk_spec, mmap_spec};
use crate::syscall::open::openat_spec;
use crate::syscall::path::{
    chdir_spec, faccessat_spec, fchdir_spec, fchmodat_spec, getcwd_spec, mkdirat_spec, put_block,
    readlinkat_spec, renameat_spec, statfs_block, symlinkat_spec, truncate_spec, unlinkat_spec,
    utimensat_spec,
};
use crate::syscall::poll::{ppoll_spec, pselect_spec};
use crate::syscall::process::{
    affinity_spec, clone_spec, exit_spec, getpgid_spec, getppid_spec, getrandom_spec, getsid_spec,
    prlimit_spec, setpgid_spec, setsid_spec, sysinfo_block, times_spec, uname_block, wait4_spec,
};
use crate::syscall::signal::{
    kill_spec, sigaction_spec, sigpending_spec, sigprocmask_spec, sigsuspend_spec,
};
use crate::syscall::stat::statx_spec;
use crate::syscall::table::{
    concluded, file_call, handled, length_of, path_call, process_call, signal_call, ClockView,
    Outcome,
};
use crate::syscall::time::{getres_spec, gettime_spec, sleep_spec, timeofday_spec};
use crate::syscall::vector::{readv_from, vector_count, writev_from};
use crate::vfs::{Vfs, VfsFile};
use vstd::prelude::*;

verus! {

proof fn lemma_not_process_call<V: Vfs>(
    w: World<<V as VfsFile>::State, <V as VfsFile>::Handle>,
    k: ClockView,
    c: Call,
)
    requires
        c.number != 93,
        c.number != 94,
        c.number != 96,
        c.number != 123,
        c.number != 153,
        c.number != 154,
        c.number != 155,
        c.number != 156,
        c.number != 157,
        c.number != 160,
        c.number != 165,
        c.number != 166,
        c.number != 172,
        c.number != 173,
        c.number != 178,
        c.number != 179,
        c.number != 220,
        c.number != 221,
        c.number != 260,
        c.number != 261,
        c.number != 278,
    ensures
        process_call::<V>(w, k, c) is None,
{
    reveal(process_call);
}

proof fn lemma_not_signal_call<V: Vfs>(
    w: World<<V as VfsFile>::State, <V as VfsFile>::Handle>,
    k: ClockView,
    c: Call,
)
    requires
        c.number != 101,
        c.number != 129,
        c.number != 130,
        c.number != 131,
        c.number != 133,
        c.number != 134,
        c.number != 135,
        c.number != 136,
        c.number != 169,
        c.number != 214,
        c.number != 216,
        c.number != 222,
        c.number != 403,
        c.number != 406,
        c.number != 407,
        c.number != 413,
        c.number != 414,
    ensures
        signal_call::<V>(w, k, c) is None,
{
    reveal(signal_call);
}

proof fn lemma_not_file_call<V: Vfs>(
    w: World<<V as VfsFile>::State, <V as VfsFile>::Handle>,
    k: ClockView,
    c: Call,
)
    requires
        c.number != 23,
        c.number != 24,
        c.number != 25,
        c.number != 29,
        c.number != 46,
        c.number != 56,
        c.number != 57,
        c.number != 59,
        c.number != 61,
        c.number != 62,
        c.number != 63,
        c.number != 64,
        c.number != 65,
        c.number != 66,
    ensures
        file_call::<V>(w, k, c) is None,
{
    reveal(file_call);
}

/// The calls about processes by their numbers, with their arguments in order.
pub proof fn law_the_numbers_of_process_calls<V: Vfs>(
    w: World<<V as VfsFile>::State, <V as VfsFile>::Handle>,
    k: ClockView,
    c: Call,
)
    ensures
        c.number == 93 || c.number == 94 ==> handled::<V>(w, k, c) == ({
            let (sh, ctx, fs, r) = exit_spec::<V>(w.sh, w.ctx, w.fs, c.a0);
        (World { sh, ctx, fs, ..w }, r)
        }),
        c.number == 220 ==> handled::<V>(w, k, c) == ({
            let (sh, ctx, r) = clone_spec(w.sh, w.ctx, word_of(c.a0));
        (World { sh, ctx, ..w }, r)
        }),
        c.number == 221 ==> handled::<V>(w, k, c) == ({
            let (sh, ctx, fs, r) = execve_spec::<V>(
            w.sh,
            w.ctx,
            w.fs,
            w.mem,
            word_of(c.a0),
            word_of(c.a1),
            word_of(c.a2),
        );
        (World { sh, ctx, fs, ..w }, r)
        }),
        c.number == 260 ==> handled::<V>(w, k, c) == ({
            let (sh, mem, r) = wait4_spec(
            w.sh,
            w.ctx,
            w.mem,
            c.a0,
            word_of(c.a1),
            c.a2,
            word_of(c.a3),
        );
        (World { sh, mem, ..w }, r)
        }),
        c.number == 172 || c.number == 178 || c.number == 96 ==> handled::<V>(w, k, c) == (
            w,
            Sys::Ok(w.ctx.task.pid),
        ),
        c.number == 173 ==> handled::<V>(w, k, c) == (w, getppid_spec(w.sh, w.ctx)),
        c.number == 154 ==> handled::<V>(w, k, c) == ({
            let (sh, r) = setpgid_spec(w.sh, w.ctx, c.a0, c.a1);
        (World { sh, ..w }, r)
        }),
        c.number == 155 ==> handled::<V>(w, k, c) == (w, getpgid_spec(w.sh, w.ctx, c.a0)),
        c.number == 157 ==> handled::<V>(w, k, c) == ({
            let (sh, r) = setsid_spec(w.sh, w.ctx);
        (World { sh, ..w }, r)
        }),
        c.number == 156 ==> handled::<V>(w, k, c) == (w, getsid_spec(w.sh, w.ctx, c.a0)),
        c.number == 123 ==> handled::<V>(w, k, c) == ({
            let (mem, r) = affinity_spec(w.mem, c.a2);
        (World { mem, ..w }, r)
        }),
        c.number == 166 ==> handled::<V>(w, k, c) == (
            World {
                ctx: CtxView {
                    task: TaskView { umask: word_of(c.a0) & 0x1ff, ..w.ctx.task },
                    ..w.ctx
                },
                ..w
            },
            Sys::Ok(signed_of(w.ctx.task.umask)),
        ),
        c.number == 160 ==> handled::<V>(w, k, c) == ({
            let (mem, r) = put_block(w.mem, word_of(c.a0), uname_block());
        (World { mem, ..w }, r)
        }),
        c.number == 179 ==> handled::<V>(w, k, c) == ({
            let (mem, r) = put_block(w.mem, word_of(c.a0), sysinfo_block(w.sh, k.elapsed));
        (World { mem, ..w }, r)
        }),
        c.number == 261 ==> handled::<V>(w, k, c) == ({
            let (mem, r) = prlimit_spec(w.sh.limits, w.mem, c.a1, word_of(c.a3));
        (World { mem, ..w }, r)
        }),
        c.number == 165 ==> handled::<V>(w, k, c) == ({
            let (mem, r) = put_block(w.mem, word_of(c.a1), zeros(72));
        (World { mem, ..w }, r)
        }),
        c.number == 153 ==> handled::<V>(w, k, c) == ({
            let (mem, r) = times_spec(w.mem, k.elapsed, word_of(c.a0));
        (World { mem, ..w }, r)
        }),
        c.number == 278 ==> handled::<V>(w, k, c) == ({
            let (sh, mem, r) = getrandom_spec(
            w.sh,
            w.mem,
            k.realtime,
            word_of(c.a0),
            word_of(c.a1),
        );
        (World { sh, mem, ..w }, r)
        }),
{
    reveal(process_call);
}

/// The calls about signals, time, memory and waiting by their numbers, with their arguments in
/// order.
pub proof fn law_the_numbers_of_signal_and_time_calls<V: Vfs>(
    w: World<<V as VfsFile>::State, <V as VfsFile>::Handle>,
    k: ClockView,
    c: Call,
)
    ensures
        c.number == 134 ==> handled::<V>(w, k, c) == ({
            let (ctx, mem, r) = sigaction_spec(w.ctx, w.mem, c.a0, word_of(c.a1), word_of(c.a2));
        (World { ctx, mem, ..w }, r)
        }),
        c.number == 135 ==> handled::<V>(w, k, c) == ({
            let (ctx, mem, r) = sigprocmask_spec(w.ctx, w.mem, c.a0, word_of(c.a1), word_of(c.a2));
        (World { ctx, mem, ..w }, r)
        }),
        c.number == 136 ==> handled::<V>(w, k, c) == ({
            let (mem, r) = sigpending_spec(w.sh, w.ctx, w.mem, word_of(c.a0));
        (World { mem, ..w }, r)
        }),
        c.number == 133 ==> handled::<V>(w, k, c) == ({
            let (ctx, r) = sigsuspend_spec(w.sh, w.ctx, w.mem, word_of(c.a0));
        (World { ctx, ..w }, r)
        }),
        c.number == 129 || c.number == 130 ==> handled::<V>(w, k, c) == ({
            let (sh, r) = kill_spec(w.sh, w.ctx, c.a0, c.a1);
        (World { sh, ..w }, r)
        }),
        c.number == 131 ==> handled::<V>(w, k, c) == ({
            let (sh, r) = kill_spec(w.sh, w.ctx, c.a1, c.a2);
        (World { sh, ..w }, r)
        }),
        c.number == 403 ==> handled::<V>(w, k, c) == ({
            let (mem, r) = gettime_spec(w.mem, k.elapsed, k.realtime, c.a0, word_of(c.a1));
        (World { mem, ..w }, r)
        }),
        c.number == 406 ==> handled::<V>(w, k, c) == ({
            let (mem, r) = getres_spec(w.mem, word_of(c.a1));
        (World { mem, ..w }, r)
        }),
        c.number == 169 ==> handled::<V>(w, k, c) == ({
            let (mem, r) = timeofday_spec(w.mem, k.realtime, word_of(c.a0));
        (World { mem, ..w }, r)
        }),
        c.number == 101 ==> handled::<V>(w, k, c) == ({
            let (sh, ctx, r) = sleep_spec(
            w.sh,
            w.ctx,
            w.mem,
            k.elapsed,
            k.realtime,
            word_of(c.a0),
            false,
            c.a0,
        );
        (World { sh, ctx, ..w }, r)
        }),
        c.number == 407 ==> handled::<V>(w, k, c) == ({
            let (sh, ctx, r) = sleep_spec(
            w.sh,
            w.ctx,
            w.mem,
            k.elapsed,
            k.realtime,
            word_of(c.a2),
            c.a1 & 1 != 0,
            c.a0,
        );
        (World { sh, ctx, ..w }, r)
        }),
        c.number == 214 ==> handled::<V>(w, k, c) == ({
            let (sh, ctx, r) = brk_spec(w.sh, w.ctx, w.mem.len() as int, word_of(c.a0));
        (World { sh, ctx, ..w }, r)
        }),
        c.number == 222 ==> handled::<V>(w, k, c) == ({
            let (sh, ctx, fs, r) = mmap_spec::<V>(
            w.sh,
            w.ctx,
            w.fs,
            w.mem.len() as int,
            word_of(c.a0),
            word_of(c.a1),
            c.a3,
            c.a4,
            c.a5,
        );
        (World { sh, ctx, fs, ..w }, r)
        }),
        c.number == 216 ==> handled::<V>(w, k, c) == (w, errno::<i32>(Errno::NOMEM)),
        c.number == 414 ==> handled::<V>(w, k, c) == ({
            let (sh, ctx, mem, r) = ppoll_spec(
            w.sh,
            w.ctx,
            w.mem,
            k.elapsed,
            word_of(c.a0),
            word_of(c.a1),
            word_of(c.a2),
        );
        (World { sh, ctx, mem, ..w }, r)
        }),
        c.number == 413 ==> handled::<V>(w, k, c) == ({
            let (sh, ctx, mem, r) = pselect_spec(
            w.sh,
            w.ctx,
            w.mem,
            k.elapsed,
            c.a0,
            word_of(c.a1),
            word_of(c.a2),
            word_of(c.a3),
            word_of(c.a4),
        );
        (World { sh, ctx, mem, ..w }, r)
        }),
{
    if c.number == 101
        || c.number == 129
        || c.number == 130
        || c.number == 131
        || c.number == 133
        || c.number == 134
        || c.number == 135
        || c.number == 136
        || c.number == 169
        || c.number == 214
        || c.number == 216
        || c.number == 222
        || c.number == 403
        || c.number == 406
        || c.number == 407
        || c.number == 413
        || c.number == 414 {
        lemma_not_process_call::<V>(w, k, c);
    }
    reveal(signal_call);
}

/// The calls on descriptors by their numbers, with their arguments in order.
pub proof fn law_the_numbers_of_descriptor_calls<V: Vfs>(
    w: World<<V as VfsFile>::State, <V as VfsFile>::Handle>,
    k: ClockView,
    c: Call,
)
    ensures
        c.number == 56 ==> handled::<V>(w, k, c) == ({
            let (sh, ctx, fs, r) = openat_spec::<V>(
            w.sh,
            w.ctx,
            w.fs,
            w.mem,
            k.uptime,
            c.a0,
            word_of(c.a1),
            word_of(c.a2),
            word_of(c.a3),
        );
        (World { sh, ctx, fs, ..w }, r)
        }),
        c.number == 57 ==> handled::<V>(w, k, c) == ({
            let (sh, ctx, fs, r) = close_spec::<V>(w.sh, w.ctx, w.fs, c.a0);
        (World { sh, ctx, fs, ..w }, r)
        }),
        c.number == 63 ==> handled::<V>(w, k, c) == ({
            let (sh, fs, mem, r) = sys_read_spec::<V>(
            w.sh,
            w.ctx,
            w.fs,
            w.mem,
            k.realtime,
            c.a0,
            word_of(c.a1),
            word_of(c.a2),
        );
        (World { sh, fs, mem, ..w }, r)
        }),
        c.number == 64 ==> handled::<V>(w, k, c) == ({
            let (sh, fs, r) = sys_write_spec::<V>(
            w.sh,
            w.ctx,
            w.fs,
            w.mem,
            c.a0,
            word_of(c.a1),
            word_of(c.a2),
        );
        (World { sh, fs, ..w }, r)
        }),
        c.number == 65 ==> handled::<V>(w, k, c) == ({
            let (sh, fs, mem, r) = readv_from::<V>(
            w.sh,
            w.ctx,
            w.fs,
            w.mem,
            k.realtime,
            c.a0,
            word_of(c.a1),
            vector_count(c.a2),
            0,
            0,
        );
        (World { sh, fs, mem, ..w }, r)
        }),
        c.number == 66 ==> handled::<V>(w, k, c) == ({
            let (sh, fs, r) = writev_from::<V>(
            w.sh,
            w.ctx,
            w.fs,
            w.mem,
            c.a0,
            word_of(c.a1),
            vector_count(c.a2),
            0,
            0,
        );
        (World { sh, fs, ..w }, r)
        }),
        c.number == 62 ==> handled::<V>(w, k, c) == ({
            let (sh, fs, r) = lseek_spec::<V>(w.sh, w.ctx, w.fs, c.a0, c.a1, c.a2);
        (World { sh, fs, ..w }, r)
        }),
        c.number == 46 ==> handled::<V>(w, k, c) == ({
            let (sh, fs, r) = ftruncate_spec::<V>(w.sh, w.ctx, w.fs, c.a0, length_of(c.a1, c.a2));
        (World { sh, fs, ..w }, r)
        }),
        c.number == 23 ==> handled::<V>(w, k, c) == ({
            let (sh, ctx, r) = dup_spec(w.sh, w.ctx, c.a0, 0, false);
        (World { sh, ctx, ..w }, r)
        }),
        c.number == 24 ==> handled::<V>(w, k, c) == ({
            let (sh, ctx, fs, r) = dup3_spec::<V>(w.sh, w.ctx, w.fs, c.a0, c.a1, word_of(c.a2));
        (World { sh, ctx, fs, ..w }, r)
        }),
        c.number == 59 ==> handled::<V>(w, k, c) == ({
            let (sh, ctx, mem, r) = pipe2_spec(
            w.sh,
            w.ctx,
            w.mem,
            word_of(c.a0),
            word_of(c.a1),
        );
        (World { sh, ctx, mem, ..w }, r)
        }),
        c.number == 25 ==> handled::<V>(w, k, c) == ({
            let (sh, ctx, r) = fcntl_spec(w.sh, w.ctx, c.a0, c.a1, c.a2);
        (World { sh, ctx, ..w }, r)
        }),
        c.number == 29 ==> handled::<V>(w, k, c) == ({
            let (sh, ctx, mem, r) = ioctl_spec(
            w.sh,
            w.ctx,
            w.mem,
            c.a0,
            word_of(c.a1),
            word_of(c.a2),
        );
        (World { sh, ctx, mem, ..w }, r)
        }),
        c.number == 61 ==> handled::<V>(w, k, c) == ({
            let (sh, mem, r) = getdents_spec(
            w.sh,
            w.ctx,
            w.mem,
            c.a0,
            word_of(c.a1),
            word_of(c.a2),
        );
        (World { sh, mem, ..w }, r)
        }),
{
    if c.number == 23
        || c.number == 24
        || c.number == 25
        || c.number == 29
        || c.number == 46
        || c.number == 56
        || c.number == 57
        || c.number == 59
        || c.number == 61
        || c.number == 62
        || c.number == 63
        || c.number == 64
        || c.number == 65
        || c.number == 66 {
        lemma_not_process_call::<V>(w, k, c);
    }
    if c.number == 23
        || c.number == 24
        || c.number == 25
        || c.number == 29
        || c.number == 46
        || c.number == 56
        || c.number == 57
        || c.number == 59
        || c.number == 61
        || c.number == 62
        || c.number == 63
        || c.number == 64
        || c.number == 65
        || c.number == 66 {
        lemma_not_signal_call::<V>(w, k, c);
    }
    reveal(file_call);
}

/// The calls on paths by their numbers, with their arguments in order.
pub proof fn law_the_numbers_of_path_calls<V: Vfs>(
    w: World<<V as VfsFile>::State, <V as VfsFile>::Handle>,
    k: ClockView,
    c: Call,
)
    ensures
        c.number == 45 ==> handled::<V>(w, k, c) == ({
            let (sh, fs, r) = truncate_spec::<V>(
            w.sh,
            w.ctx,
            w.fs,
            w.mem,
            word_of(c.a0),
            length_of(c.a1, c.a2),
        );
        (World { sh, fs, ..w }, r)
        }),
        c.number == 17 ==> handled::<V>(w, k, c) == ({
            let (mem, r) = getcwd_spec(w.ctx, w.mem, word_of(c.a0), word_of(c.a1));
        (World { mem, ..w }, r)
        }),
        c.number == 49 ==> handled::<V>(w, k, c) == ({
            let (sh, ctx, fs, r) = chdir_spec::<V>(w.sh, w.ctx, w.fs, w.mem, word_of(c.a0));
        (World { sh, ctx, fs, ..w }, r)
        }),
        c.number == 50 ==> handled::<V>(w, k, c) == ({
            let (ctx, r) = fchdir_spec(w.sh, w.ctx, c.a0);
        (World { ctx, ..w }, r)
        }),
        c.number == 291 ==> handled::<V>(w, k, c) == ({
            let (sh, fs, mem, r) = statx_spec::<V>(
            w.sh,
            w.ctx,
            w.fs,
            w.mem,
            k.uptime,
            c.a0,
            word_of(c.a1),
            c.a2,
            word_of(c.a4),
        );
        (World { sh, fs, mem, ..w }, r)
        }),
        c.number == 48 || c.number == 439 ==> handled::<V>(w, k, c) == ({
            let (sh, fs, r) = faccessat_spec::<V>(
            w.sh,
            w.ctx,
            w.fs,
            w.mem,
            c.a0,
            word_of(c.a1),
            c.a3,
        );
        (World { sh, fs, ..w }, r)
        }),
        c.number == 78 ==> handled::<V>(w, k, c) == ({
            let (sh, fs, mem, r) = readlinkat_spec::<V>(
            w.sh,
            w.ctx,
            w.fs,
            w.mem,
            c.a0,
            word_of(c.a1),
            word_of(c.a2),
            word_of(c.a3),
        );
        (World { sh, fs, mem, ..w }, r)
        }),
        c.number == 34 ==> handled::<V>(w, k, c) == ({
            let (sh, fs, r) = mkdirat_spec::<V>(
            w.sh,
            w.ctx,
            w.fs,
            w.mem,
            c.a0,
            word_of(c.a1),
            word_of(c.a2),
        );
        (World { sh, fs, ..w }, r)
        }),
        c.number == 35 ==> handled::<V>(w, k, c) == ({
            let (sh, fs, r) = unlinkat_spec::<V>(
            w.sh,
            w.ctx,
            w.fs,
            w.mem,
            c.a0,
            word_of(c.a1),
            c.a2,
        );
        (World { sh, fs, ..w }, r)
        }),
        c.number == 38 || c.number == 276 ==> handled::<V>(w, k, c) == ({
            let (sh, fs, r) = renameat_spec::<V>(
            w.sh,
            w.ctx,
            w.fs,
            w.mem,
            c.a0,
            word_of(c.a1),
            c.a2,
            word_of(c.a3),
        );
        (World { sh, fs, ..w }, r)
        }),
        c.number == 36 ==> handled::<V>(w, k, c) == ({
            let (sh, fs, r) = symlinkat_spec::<V>(
            w.sh,
            w.ctx,
            w.fs,
            w.mem,
            word_of(c.a0),
            c.a1,
            word_of(c.a2),
        );
        (World { sh, fs, ..w }, r)
        }),
        c.number == 37 ==> handled::<V>(w, k, c) == (w, errno::<i32>(Errno::PERM)),
        c.number == 53 ==> handled::<V>(w, k, c) == ({
            let (sh, fs, r) = fchmodat_spec::<V>(
            w.sh,
            w.ctx,
            w.fs,
            w.mem,
            c.a0,
            word_of(c.a1),
            word_of(c.a2),
        );
        (World { sh, fs, ..w }, r)
        }),
        c.number == 412 ==> handled::<V>(w, k, c) == ({
            let (sh, fs, r) = utimensat_spec::<V>(
            w.sh,
            w.ctx,
            w.fs,
            w.mem,
            c.a0,
            word_of(c.a1),
            c.a4,
        );
        (World { sh, fs, ..w }, r)
        }),
        c.number == 43 || c.number == 44 ==> handled::<V>(w, k, c) == ({
            let (mem, r) = put_block(w.mem, word_of(c.a2), statfs_block());
        (World { mem, ..w }, r)
        }),
{
    if c.number == 17
        || c.number == 34
        || c.number == 35
        || c.number == 36
        || c.number == 37
        || c.number == 38
        || c.number == 43
        || c.number == 44
        || c.number == 45
        || c.number == 48
        || c.number == 49
        || c.number == 50
        || c.number == 53
        || c.number == 78
        || c.number == 276
        || c.number == 291
        || c.number == 412
        || c.number == 439 {
        lemma_not_process_call::<V>(w, k, c);
    }
    if c.number == 17
        || c.number == 34
        || c.number == 35
        || c.number == 36
        || c.number == 37
        || c.number == 38
        || c.number == 43
        || c.number == 44
        || c.number == 45
        || c.number == 48
        || c.number == 49
        || c.number == 50
        || c.number == 53
        || c.number == 78
        || c.number == 276
        || c.number == 291
        || c.number == 412
        || c.number == 439 {
        lemma_not_signal_call::<V>(w, k, c);
    }
    if c.number == 17
        || c.number == 34
        || c.number == 35
        || c.number == 36
        || c.number == 37
        || c.number == 38
        || c.number == 43
        || c.number == 44
        || c.number == 45
        || c.number == 48
        || c.number == 49
        || c.number == 50
        || c.number == 53
        || c.number == 78
        || c.number == 276
        || c.number == 291
        || c.number == 412
        || c.number == 439 {
        lemma_not_file_call::<V>(w, k, c);
    }
    reveal(path_call);
}

// ---------------------------------------------------------------------------------------------
// what comes back

/// Whether a call is taken without doing anything: there is one user, one thread and nothing
/// to wait for on a disk.
pub open spec fn taken_as_done(number: i32) -> bool {
    number == 32 || number == 52 || number == 54 || number == 55 || number == 81 || number == 82
        || number == 83 || number == 99 || number == 124 || number == 132 || number == 139
        || number == 143 || number == 144 || number == 145 || number == 146 || number == 147
        || number == 149 || number == 158 || number == 159 || number == 167 || number == 174
        || number == 175 || number == 176 || number == 177 || number == 215 || number == 223
        || number == 226 || number == 227 || number == 228 || number == 229 || number == 233
        || number == 267 || number == 283 || number == 293
}

/// Whether a call does something.
pub open spec fn does_something(number: i32) -> bool {
    number == 17 || number == 23 || number == 24 || number == 25 || number == 29 || number == 34
        || number == 35 || number == 36 || number == 37 || number == 38 || number == 43
        || number == 44 || number == 45 || number == 46 || number == 48 || number == 49
        || number == 50 || number == 53 || number == 56 || number == 57 || number == 59
        || number == 61 || number == 62 || number == 63 || number == 64 || number == 65
        || number == 66 || number == 78 || number == 93 || number == 94 || number == 96
        || number == 101 || number == 123 || number == 129 || number == 130 || number == 131
        || number == 133 || number == 134 || number == 135 || number == 136 || number == 153
        || number == 154 || number == 155 || number == 156 || number == 157 || number == 160
        || number == 165 || number == 166 || number == 169 || number == 172 || number == 173
        || number == 178 || number == 179 || number == 214 || number == 216 || number == 220
        || number == 221 || number == 222 || number == 260 || number == 261 || number == 276
        || number == 278 || number == 291 || number == 403 || number == 406 || number == 407
        || number == 412 || number == 413 || number == 414 || number == 439
}

/// A call that is taken as done answers 0 and changes nothing; one that nobody knows is
/// refused, and changes nothing either.
pub proof fn law_other_calls_change_nothing<V: Vfs>(
    w: World<<V as VfsFile>::State, <V as VfsFile>::Handle>,
    k: ClockView,
    c: Call,
)
    requires
        !does_something(c.number),
    ensures
        handled::<V>(w, k, c) == (
            w,
            if taken_as_done(c.number) {
                Sys::Ok(0)
            } else {
                errno::<i32>(Errno::NOSYS)
            },
        ),
{
    lemma_not_process_call::<V>(w, k, c);
    lemma_not_signal_call::<V>(w, k, c);
    lemma_not_file_call::<V>(w, k, c);
    reveal(path_call);
}

/// `umask` returns the mask from before, of which only the nine permission bits are kept.
pub proof fn law_umask_returns_the_one_before<V: Vfs>(
    w: World<<V as VfsFile>::State, <V as VfsFile>::Handle>,
    k: ClockView,
    c: Call,
    d: Call,
)
    requires
        c.number == 166,
        d.number == 166,
        0 <= c.a0 < 512,
    ensures
        ({
            let (w1, r1) = handled::<V>(w, k, c);
            let (w2, r2) = handled::<V>(w1, k, d);
            &&& r2 == Sys::Ok(c.a0)
            &&& w1.ctx.task.umask == c.a0
            &&& w.ctx.task.umask <= i32::MAX ==> r1 == Sys::Ok(w.ctx.task.umask as i32)
        }),
{
    law_the_numbers_of_process_calls::<V>(w, k, c);
    let w1 = handled::<V>(w, k, c).0;
    law_the_numbers_of_process_calls::<V>(w1, k, d);
    let a = c.a0 as u32;
    assert(a & 0x1ff == a) by (bit_vector)
        requires
            a < 512,
    ;
}

/// An error is answered as its number, negated; a value as it is. The lengths of files come in
/// two words, the low one first.
pub proof fn law_errors_are_negative_numbers<S, F>(w: World<S, F>, e: Errno, v: i32, high: i32)
    requires
        e.code() > 0,
    ensures
        concluded(w, errno::<i32>(e)).1 == Outcome::Value((-e.code()) as i32),
        concluded(w, Sys::Ok(v)).1 == Outcome::Value(v),
        0 <= v && 0 <= high ==> length_of(v, high) == v + 0x1_0000_0000 * high,
        v < 0 && 0 <= high ==> length_of(v, high) == v + 0x1_0000_0000 * (high + 1),
        0 <= v ==> vector_count(v) == v,
        v < 0 ==> vector_count(v) == 0,
{
}

/// The errors have the numbers and names that programs know them by.
pub proof fn law_errors_have_their_usual_numbers(e: Errno)
    ensures
        match e {
            Errno::PERM => e.code() == 1 && e.short_name() == "EPERM"@,
            Errno::NOENT => e.code() == 2 && e.short_name() == "ENOENT"@,
            Errno::SRCH => e.code() == 3 && e.short_name() == "ESRCH"@,
            Errno::INTR => e.code() == 4 && e.short_name() == "EINTR"@,
            Errno::IO => e.code() == 5 && e.short_name() == "EIO"@,
            Errno::NXIO => e.code() == 6 && e.short_name() == "ENXIO"@,
            Errno::TOOBIG => e.code() == 7 && e.short_name() == "ETOOBIG"@,
            Errno::NOEXEC => e.code() == 8 && e.short_name() == "ENOEXEC"@,
            Errno::BADF => e.code() == 9 && e.short_name() == "EBADF"@,
            Errno::CHILD => e.code() == 10 && e.short_name() == "ECHILD"@,
            Errno::AGAIN => e.code() == 11 && e.short_name() == "EAGAIN"@,
            Errno::NOMEM => e.code() == 12 && e.short_name() == "ENOMEM"@,
            Errno::ACCES => e.code() == 13 && e.short_name() == "EACCES"@,
            Errno::FAULT => e.code() == 14 && e.short_name() == "EFAULT"@,
            Errno::BUSY => e.code() == 16 && e.short_name() == "EBUSY"@,
            Errno::EXIST => e.code() == 17 && e.short_name() == "EEXIST"@,
            Errno::XDEV => e.code() == 18 && e.short_name() == "EXDEV"@,
            Errno::NODEV => e.code() == 19 && e.short_name() == "ENODEV"@,
            Errno::NOTDIR => e.code() == 20 && e.short_name() == "ENOTDIR"@,
            Errno::ISDIR => e.code() == 21 && e.short_name() == "EISDIR"@,
            Errno::INVAL => e.code() == 22 && e.short_name() == "EINVAL"@,
            Errno::NFILE => e.code() == 23 && e.short_name() == "ENFILE"@,
            Errno::MFILE => e.code() == 24 && e.short_name() == "EMFILE"@,
            Errno::NOTTY => e.code() == 25 && e.short_name() == "ENOTTY"@,
            Errno::FBIG => e.code() == 27 && e.short_name() == "EFBIG"@,
            Errno::NOSPC => e.code() == 28 && e.short_name() == "ENOSPC"@,
            Errno::SPIPE => e.code() == 29 && e.short_name() == "ESPIPE"@,
            Errno::ROFS => e.code() == 30 && e.short_name() == "EROFS"@,
            Errno::MLINK => e.code() == 31 && e.short_name() == "EMLINK"@,
            Errno::PIPE => e.code() == 32 && e.short_name() == "EPIPE"@,
            Errno::RANGE => e.code() == 34 && e.short_name() == "ERANGE"@,
            Errno::NAMETOOLONG => e.code() == 36 && e.short_name() == "ENAMETOOLONG"@,
            Errno::NOSYS => e.code() == 38 && e.short_name() == "ENOSYS"@,
            Errno::NOTEMPTY => e.code() == 39 && e.short_name() == "ENOTEMPTY"@,
            Errno::LOOP => e.code() == 40 && e.short_name() == "ELOOP"@,
            Errno::OVERFLOW => e.code() == 75 && e.short_name() == "EOVERFLOW"@,
            Errno::NOTSOCK => e.code() == 88 && e.short_name() == "ENOTSOCK"@,
            Errno::NOTSUP => e.code() == 95 && e.short_name() == "ENOTSUP"@,
            Errno::TIMEDOUT => e.code() == 110 && e.short_name() == "ETIMEDOUT"@,
            Errno::Raw(n) => e.code() == n,
        },
{
}

/// Two errors are the same exactly when they have the same number.
pub proof fn law_errors_are_known_by_their_numbers(a: Errno, b: Errno)
    ensures
        a.is_same(b) <==> a.code() == b.code(),
        a.is_same(a),
        a.is_same(b) ==> b.is_same(a),
        !(a is Raw) && !(b is Raw) && a.is_same(b) ==> a == b,
{
}

} // verus!
