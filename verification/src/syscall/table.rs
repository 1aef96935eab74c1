//! The table: which number is which call, and what becomes of it.
use super::base::{errno, Fault, Sys, World};
use super::exec::{execve_spec, sys_execve};
use super::fds::{
    close_spec, dup3_spec, dup_spec, fcntl_spec, ftruncate_spec, getdents_spec, lseek_spec,
    pipe2_spec, sys_close, sys_dup, sys_dup3, sys_fcntl, sys_ftruncate, sys_getdents, sys_lseek,
    sys_pipe2,
};
use super::io::{sys_read, sys_read_spec, sys_write, sys_write_spec};
use super::ioctl::{ioctl_spec, sys_ioctl};
use super::memory::{
    brk_grown, brk_spec, mmap_grown, mmap_spec, sys_brk, sys_brk_grown, sys_mmap, sys_mmap_grown,
};
use super::open::{openat_spec, sys_openat};
use super::path::{
    chdir_spec, faccessat_spec, fchdir_spec, fchmodat_spec, getcwd_spec, mkdirat_spec, put_block,
    readlinkat_spec, renameat_spec, statfs_block, symlinkat_spec, sys_chdir, sys_faccessat,
    sys_fchdir, sys_fchmodat, sys_getcwd, sys_mkdirat, sys_readlinkat, sys_renameat, sys_statfs,
    sys_symlinkat, sys_truncate, sys_unlinkat, sys_utimensat, truncate_spec, unlinkat_spec,
    utimensat_spec,
};
use super::poll::{ppoll_spec, pselect_spec, sys_ppoll, sys_pselect};
use super::process::{
    affinity_spec, clone_spec, exit_spec, getpgid_spec, getppid_spec, getrandom_spec, getsid_spec,
    prlimit_spec, setpgid_spec, setsid_spec, sys_affinity, sys_clone, sys_exit, sys_getpgid,
    sys_getppid, sys_getrandom, sys_getrusage, sys_getsid, sys_prlimit, sys_setpgid, sys_setsid,
    sys_sysinfo, sys_times, sys_umask, sys_uname, sys_wait4, sysinfo_block, times_spec, uname_block,
    wait4_spec,
};
use super::signal::{
    finish, flag_written, interrupted, kill_spec, live_signals, send_signal, settled_ctx,
    sigaction_spec, sigpending_spec, sigprocmask_spec, sigsuspend_spec, sys_sigaction,
    sys_sigpending, sys_sigprocmask, sys_sigsuspend,
};
use super::stat::{statx_spec, sys_statx};
use super::time::{
    getres_spec, gettime_spec, sleep_spec, sys_getres, sys_gettime, sys_sleep, sys_timeofday,
    timeofday_spec,
};
use super::vector::{readv_from, sys_readv, sys_writev, vector_count, writev_from};
use crate::nr;
use crate::abi::TIMER_ABSTIME;
use crate::errno::Errno;
use crate::kernel::mem::{signed_of, word, word_of, zeros, Nanos};
use crate::kernel::mounts::Mounts;
use crate::kernel::state::{with_wake, Call, Clock, Ctx, CtxView, Shared, SharedView};
use crate::kernel::task::TaskView;
use crate::vfs::{Vfs, VfsFile};
use vstd::prelude::*;

verus! {

/// What a syscall did, as the import shim and the scheduler see it.
#[derive(Clone, Copy, PartialEq, Eq, Debug, Structural)]
pub enum Outcome {
    /// Hand this back to the guest. Negative values are errors.
    Value(i32),
    /// Could not finish; retry after something changes.
    Blocked,
    /// The process is over with this wait status.
    Exit(i32),
    /// `execve` succeeded; the scheduler replaces the instance.
    Exec,
    /// The guest's memory has to grow by this many pages; then [`dispatch_grown`] finishes.
    Grow(u64),
}

/// What the clocks say.
#[verifier::ext_equal]
pub struct ClockView {
    pub elapsed: Nanos,
    pub realtime: Nanos,
    pub uptime: Seq<char>,
}

impl View for Clock {
    type V = ClockView;

    open spec fn view(&self) -> ClockView {
        ClockView { elapsed: self.elapsed, realtime: self.realtime, uptime: self.uptime@ }
    }
}

/// A 64-bit length passed as two words, the low one first.
pub open spec fn length_of(low: i32, high: i32) -> u64 {
    (word_of(low) + word_of(high) * 0x1_0000_0000) as u64
}

fn join_length(low: i32, high: i32) -> (r: u64)
    ensures
        r == length_of(low, high),
{
    word(low) as u64 + word(high) as u64 * 0x1_0000_0000
}

/// The world made of its four parts.
pub open spec fn world<V: Vfs>(
    sh: Shared<<V as VfsFile>::Handle>,
    ctx: Ctx,
    fs: Mounts<V>,
    mem: Seq<u8>,
) -> World<<V as VfsFile>::State, <V as VfsFile>::Handle> {
    World { sh: sh@, ctx: ctx@, fs: fs@, mem }
}

/// Calls about processes: their life, their identity and what they use.
#[verifier::opaque]
pub open spec fn process_call<V: Vfs>(
    w: World<<V as VfsFile>::State, <V as VfsFile>::Handle>,
    k: ClockView,
    c: Call,
) -> Option<(World<<V as VfsFile>::State, <V as VfsFile>::Handle>, Sys)> {
    if c.number == nr::EXIT || c.number == nr::EXIT_GROUP {
        Some({
            let (sh, ctx, fs, r) = exit_spec::<V>(w.sh, w.ctx, w.fs, c.a0);
            (World { sh, ctx, fs, ..w }, r)
        })
    } else if c.number == nr::CLONE {
        Some({
            let (sh, ctx, r) = clone_spec(w.sh, w.ctx, word_of(c.a0));
            (World { sh, ctx, ..w }, r)
        })
    } else if c.number == nr::EXECVE {
        Some({
            let (sh, ctx, fs, r) = execve_spec::<V>(
                w.sh,
                w.ctx,
                w.fs,
                w.mem,
                word_of(c.a0),
                word_of(c.a1),
                word_of(c.a2),
            );
            (World { sh, ctx, fs, ..w }, r)
        })
    } else if c.number == nr::WAIT4 {
        Some({
            let (sh, mem, r) = wait4_spec(
                w.sh,
                w.ctx,
                w.mem,
                c.a0,
                word_of(c.a1),
                c.a2,
                word_of(c.a3),
            );
            (World { sh, mem, ..w }, r)
        })
    } else if c.number == nr::GETPID || c.number == nr::GETTID || c.number == nr::SET_TID_ADDRESS {
        Some((w, Ok(w.ctx.task.pid)))
    } else if c.number == nr::GETPPID {
        Some((w, getppid_spec(w.sh, w.ctx)))
    } else if c.number == nr::SETPGID {
        Some({
            let (sh, r) = setpgid_spec(w.sh, w.ctx, c.a0, c.a1);
            (World { sh, ..w }, r)
        })
    } else if c.number == nr::GETPGID {
        Some((w, getpgid_spec(w.sh, w.ctx, c.a0)))
    } else if c.number == nr::SETSID {
        Some({
            let (sh, r) = setsid_spec(w.sh, w.ctx);
            (World { sh, ..w }, r)
        })
    } else if c.number == nr::GETSID {
        Some((w, getsid_spec(w.sh, w.ctx, c.a0)))
    } else if c.number == nr::SCHED_GETAFFINITY {
        Some({
            let (mem, r) = affinity_spec(w.mem, c.a2);
            (World { mem, ..w }, r)
        })
    } else if c.number == nr::UMASK {
        Some((
            World {
                ctx: CtxView {
                    task: TaskView { umask: word_of(c.a0) & 0x1ff, ..w.ctx.task },
                    ..w.ctx
                },
                ..w
            },
            Ok(signed_of(w.ctx.task.umask)),
        ))
    } else if c.number == nr::UNAME {
        Some({
            let (mem, r) = put_block(w.mem, word_of(c.a0), uname_block());
            (World { mem, ..w }, r)
        })
    } else if c.number == nr::SYSINFO {
        Some({
            let (mem, r) = put_block(w.mem, word_of(c.a0), sysinfo_block(w.sh, k.elapsed));
            (World { mem, ..w }, r)
        })
    } else if c.number == nr::PRLIMIT64 {
        Some({
            let (mem, r) = prlimit_spec(w.sh.limits, w.mem, c.a1, word_of(c.a3));
            (World { mem, ..w }, r)
        })
    } else if c.number == nr::GETRUSAGE {
        Some({
            let (mem, r) = put_block(w.mem, word_of(c.a1), zeros(72));
            (World { mem, ..w }, r)
        })
    } else if c.number == nr::TIMES {
        Some({
            let (mem, r) = times_spec(w.mem, k.elapsed, word_of(c.a0));
            (World { mem, ..w }, r)
        })
    } else if c.number == nr::GETRANDOM {
        Some({
            let (sh, mem, r) = getrandom_spec(
                w.sh,
                w.mem,
                k.realtime,
                word_of(c.a0),
                word_of(c.a1),
            );
            (World { sh, mem, ..w }, r)
        })
    } else {
        None
    }
}

#[verifier::spinoff_prover]
fn process_handler<V: Vfs>(
    sh: &mut Shared<<V as VfsFile>::Handle>,
    ctx: &mut Ctx,
    fs: &mut Mounts<V>,
    mem: &mut [u8],
    clock: &Clock,
    c: Call,
) -> (r: Option<Sys>)
    requires
        old(sh)@.wf(),
        old(fs).wf(),
        clock.wf(),
    ensures
        final(sh)@.wf(),
        final(fs).wf(),
        match r {
            Some(r) => process_call::<V>(
                world(*old(sh), *old(ctx), *old(fs), old(mem)@),
                clock@,
                c,
            ) == Some((world(*final(sh), *final(ctx), *final(fs), final(mem)@), r)),
            None => process_call::<V>(
                world(*old(sh), *old(ctx), *old(fs), old(mem)@),
                clock@,
                c,
            ) is None && world(*final(sh), *final(ctx), *final(fs), final(mem)@) == world(
                *old(sh),
                *old(ctx),
                *old(fs),
                old(mem)@,
            ),
        },
{
    proof {
        reveal(process_call);
    }
    let r: Sys = match c.number {
        nr::EXIT | nr::EXIT_GROUP => sys_exit(sh, ctx, fs, c.a0),
        nr::CLONE => sys_clone(sh, ctx, word(c.a0)),
        nr::EXECVE => sys_execve(sh, ctx, fs, mem, word(c.a0), word(c.a1), word(c.a2)),
        nr::WAIT4 => sys_wait4(sh, ctx, mem, c.a0, word(c.a1), c.a2, word(c.a3)),
        nr::GETPID | nr::GETTID | nr::SET_TID_ADDRESS => Ok(ctx.task.pid),
        nr::GETPPID => sys_getppid(sh, ctx),
        nr::SETPGID => sys_setpgid(sh, ctx, c.a0, c.a1),
        nr::GETPGID => sys_getpgid(sh, ctx, c.a0),
        nr::SETSID => sys_setsid(sh, ctx),
        nr::GETSID => sys_getsid(sh, ctx, c.a0),
        nr::SCHED_GETAFFINITY => sys_affinity(mem, c.a2),
        nr::UMASK => sys_umask(ctx, word(c.a0)),
        nr::UNAME => sys_uname(mem, word(c.a0)),
        nr::SYSINFO => sys_sysinfo(sh, mem, clock, word(c.a0)),
        nr::PRLIMIT64 => sys_prlimit(&sh.limits, mem, c.a1, word(c.a3)),
        nr::GETRUSAGE => sys_getrusage(mem, word(c.a1)),
        nr::TIMES => sys_times(mem, clock, word(c.a0)),
        nr::GETRANDOM => sys_getrandom(sh, mem, clock, word(c.a0), word(c.a1)),
        _ => return None,
    };
    Some(r)
}

/// Calls about signals, time, memory and waiting.
#[verifier::opaque]
pub open spec fn signal_call<V: Vfs>(
    w: World<<V as VfsFile>::State, <V as VfsFile>::Handle>,
    k: ClockView,
    c: Call,
) -> Option<(World<<V as VfsFile>::State, <V as VfsFile>::Handle>, Sys)> {
    if c.number == nr::RT_SIGACTION {
        Some({
            let (ctx, mem, r) = sigaction_spec(w.ctx, w.mem, c.a0, word_of(c.a1), word_of(c.a2));
            (World { ctx, mem, ..w }, r)
        })
    } else if c.number == nr::RT_SIGPROCMASK {
        Some({
            let (ctx, mem, r) = sigprocmask_spec(w.ctx, w.mem, c.a0, word_of(c.a1), word_of(c.a2));
            (World { ctx, mem, ..w }, r)
        })
    } else if c.number == nr::RT_SIGPENDING {
        Some({
            let (mem, r) = sigpending_spec(w.sh, w.ctx, w.mem, word_of(c.a0));
            (World { mem, ..w }, r)
        })
    } else if c.number == nr::RT_SIGSUSPEND {
        Some({
            let (ctx, r) = sigsuspend_spec(w.sh, w.ctx, w.mem, word_of(c.a0));
            (World { ctx, ..w }, r)
        })
    } else if c.number == nr::KILL || c.number == nr::TKILL {
        Some({
            let (sh, r) = kill_spec(w.sh, w.ctx, c.a0, c.a1);
            (World { sh, ..w }, r)
        })
    } else if c.number == nr::TGKILL {
        Some({
            let (sh, r) = kill_spec(w.sh, w.ctx, c.a1, c.a2);
            (World { sh, ..w }, r)
        })
    } else if c.number == nr::CLOCK_GETTIME64 {
        Some({
            let (mem, r) = gettime_spec(w.mem, k.elapsed, k.realtime, c.a0, word_of(c.a1));
            (World { mem, ..w }, r)
        })
    } else if c.number == nr::CLOCK_GETRES_TIME64 {
        Some({
            let (mem, r) = getres_spec(w.mem, word_of(c.a1));
            (World { mem, ..w }, r)
        })
    } else if c.number == nr::GETTIMEOFDAY {
        Some({
            let (mem, r) = timeofday_spec(w.mem, k.realtime, word_of(c.a0));
            (World { mem, ..w }, r)
        })
    } else if c.number == nr::NANOSLEEP {
        Some({
            let (sh, ctx, r) = sleep_spec(
                w.sh,
                w.ctx,
                w.mem,
                k.elapsed,
                k.realtime,
                word_of(c.a0),
                false,
                c.a0,
            );
            (World { sh, ctx, ..w }, r)
        })
    } else if c.number == nr::CLOCK_NANOSLEEP_TIME64 {
        Some({
            let (sh, ctx, r) = sleep_spec(
                w.sh,
                w.ctx,
                w.mem,
                k.elapsed,
                k.realtime,
                word_of(c.a2),
                c.a1 & TIMER_ABSTIME != 0,
                c.a0,
            );
            (World { sh, ctx, ..w }, r)
        })
    } else if c.number == nr::BRK {
        Some({
            let (sh, ctx, r) = brk_spec(w.sh, w.ctx, w.mem.len() as int, word_of(c.a0));
            (World { sh, ctx, ..w }, r)
        })
    } else if c.number == nr::MMAP {
        Some({
            let (sh, ctx, fs, r) = mmap_spec::<V>(
                w.sh,
                w.ctx,
                w.fs,
                w.mem.len() as int,
                word_of(c.a0),
                word_of(c.a1),
                c.a3,
                c.a4,
                c.a5,
            );
            (World { sh, ctx, fs, ..w }, r)
        })
    } else if c.number == nr::MREMAP {
        Some((w, errno(Errno::NOMEM)))
    } else if c.number == nr::PPOLL_TIME64 {
        Some({
            let (sh, ctx, mem, r) = ppoll_spec(
                w.sh,
                w.ctx,
                w.mem,
                k.elapsed,
                word_of(c.a0),
                word_of(c.a1),
                word_of(c.a2),
            );
            (World { sh, ctx, mem, ..w }, r)
        })
    } else if c.number == nr::PSELECT6_TIME64 {
        Some({
            let (sh, ctx, mem, r) = pselect_spec(
                w.sh,
                w.ctx,
                w.mem,
                k.elapsed,
                c.a0,
                word_of(c.a1),
                word_of(c.a2),
                word_of(c.a3),
                word_of(c.a4),
            );
            (World { sh, ctx, mem, ..w }, r)
        })
    } else {
        None
    }
}

#[verifier::spinoff_prover]
fn signal_handler<V: Vfs>(
    sh: &mut Shared<<V as VfsFile>::Handle>,
    ctx: &mut Ctx,
    fs: &mut Mounts<V>,
    mem: &mut [u8],
    clock: &Clock,
    c: Call,
) -> (r: Option<Sys>)
    requires
        old(sh)@.wf(),
        old(fs).wf(),
        clock.wf(),
    ensures
        final(sh)@.wf(),
        final(fs).wf(),
        match r {
            Some(r) => signal_call::<V>(
                world(*old(sh), *old(ctx), *old(fs), old(mem)@),
                clock@,
                c,
            ) == Some((world(*final(sh), *final(ctx), *final(fs), final(mem)@), r)),
            None => signal_call::<V>(
                world(*old(sh), *old(ctx), *old(fs), old(mem)@),
                clock@,
                c,
            ) is None && world(*final(sh), *final(ctx), *final(fs), final(mem)@) == world(
                *old(sh),
                *old(ctx),
                *old(fs),
                old(mem)@,
            ),
        },
{
    proof {
        reveal(signal_call);
    }
    let r: Sys = match c.number {
        nr::RT_SIGACTION => sys_sigaction(ctx, mem, c.a0, word(c.a1), word(c.a2)),
        nr::RT_SIGPROCMASK => sys_sigprocmask(ctx, mem, c.a0, word(c.a1), word(c.a2)),
        nr::RT_SIGPENDING => sys_sigpending(sh, ctx, mem, word(c.a0)),
        nr::RT_SIGSUSPEND => sys_sigsuspend(sh, ctx, mem, word(c.a0)),
        nr::KILL | nr::TKILL => send_signal(sh, ctx, c.a0, c.a1),
        nr::TGKILL => send_signal(sh, ctx, c.a1, c.a2),
        nr::CLOCK_GETTIME64 => sys_gettime(mem, clock, c.a0, word(c.a1)),
        nr::CLOCK_GETRES_TIME64 => sys_getres(mem, word(c.a1)),
        nr::GETTIMEOFDAY => sys_timeofday(mem, clock, word(c.a0)),
        nr::NANOSLEEP => sys_sleep(sh, ctx, mem, clock, word(c.a0), false, c.a0),
        nr::CLOCK_NANOSLEEP_TIME64 => sys_sleep(
            sh,
            ctx,
            mem,
            clock,
            word(c.a2),
            c.a1 & TIMER_ABSTIME != 0,
            c.a0,
        ),
        nr::BRK => sys_brk(sh, ctx, mem, word(c.a0)),
        nr::MMAP => sys_mmap(
            sh,
            ctx,
            fs,
            mem,
            word(c.a0),
            word(c.a1),
            c.a3,
            c.a4,
            c.a5,
        ),
        nr::MREMAP => Err(Fault::Errno(Errno::NOMEM)),
        nr::PPOLL_TIME64 => sys_ppoll(sh, ctx, mem, clock, word(c.a0), word(c.a1), word(c.a2)),
        nr::PSELECT6_TIME64 => sys_pselect(
            sh,
            ctx,
            mem,
            clock,
            c.a0,
            word(c.a1),
            word(c.a2),
            word(c.a3),
            word(c.a4),
        ),
        _ => return None,
    };
    Some(r)
}

/// Calls on descriptors.
#[verifier::opaque]
pub open spec fn file_call<V: Vfs>(
    w: World<<V as VfsFile>::State, <V as VfsFile>::Handle>,
    k: ClockView,
    c: Call,
) -> Option<(World<<V as VfsFile>::State, <V as VfsFile>::Handle>, Sys)> {
    if c.number == nr::OPENAT {
        Some({
            let (sh, ctx, fs, r) = openat_spec::<V>(
                w.sh,
                w.ctx,
                w.fs,
                w.mem,
                k.uptime,
                c.a0,
                word_of(c.a1),
                word_of(c.a2),
                word_of(c.a3),
            );
            (World { sh, ctx, fs, ..w }, r)
        })
    } else if c.number == nr::CLOSE {
        Some({
            let (sh, ctx, fs, r) = close_spec::<V>(w.sh, w.ctx, w.fs, c.a0);
            (World { sh, ctx, fs, ..w }, r)
        })
    } else if c.number == nr::READ {
        Some({
            let (sh, fs, mem, r) = sys_read_spec::<V>(
                w.sh,
                w.ctx,
                w.fs,
                w.mem,
                k.realtime,
                c.a0,
                word_of(c.a1),
                word_of(c.a2),
            );
            (World { sh, fs, mem, ..w }, r)
        })
    } else if c.number == nr::WRITE {
        Some({
            let (sh, fs, r) = sys_write_spec::<V>(
                w.sh,
                w.ctx,
                w.fs,
                w.mem,
                c.a0,
                word_of(c.a1),
                word_of(c.a2),
            );
            (World { sh, fs, ..w }, r)
        })
    } else if c.number == nr::READV {
        Some({
            let (sh, fs, mem, r) = readv_from::<V>(
                w.sh,
                w.ctx,
                w.fs,
                w.mem,
                k.realtime,
                c.a0,
                word_of(c.a1),
                vector_count(c.a2),
                0,
                0,
            );
            (World { sh, fs, mem, ..w }, r)
        })
    } else if c.number == nr::WRITEV {
        Some({
            let (sh, fs, r) = writev_from::<V>(
                w.sh,
                w.ctx,
                w.fs,
                w.mem,
                c.a0,
                word_of(c.a1),
                vector_count(c.a2),
                0,
                0,
            );
            (World { sh, fs, ..w }, r)
        })
    } else if c.number == nr::LSEEK {
        Some({
            let (sh, fs, r) = lseek_spec::<V>(w.sh, w.ctx, w.fs, c.a0, c.a1, c.a2);
            (World { sh, fs, ..w }, r)
        })
    } else if c.number == nr::FTRUNCATE {
        Some({
            let (sh, fs, r) = ftruncate_spec::<V>(w.sh, w.ctx, w.fs, c.a0, length_of(c.a1, c.a2));
            (World { sh, fs, ..w }, r)
        })
    } else if c.number == nr::DUP {
        Some({
            let (sh, ctx, r) = dup_spec(w.sh, w.ctx, c.a0, 0, false);
            (World { sh, ctx, ..w }, r)
        })
    } else if c.number == nr::DUP3 {
        Some({
            let (sh, ctx, fs, r) = dup3_spec::<V>(w.sh, w.ctx, w.fs, c.a0, c.a1, word_of(c.a2));
            (World { sh, ctx, fs, ..w }, r)
        })
    } else if c.number == nr::PIPE2 {
        Some({
            let (sh, ctx, mem, r) = pipe2_spec(
                w.sh,
                w.ctx,
                w.mem,
                word_of(c.a0),
                word_of(c.a1),
            );
            (World { sh, ctx, mem, ..w }, r)
        })
    } else if c.number == nr::FCNTL {
        Some({
            let (sh, ctx, r) = fcntl_spec(w.sh, w.ctx, c.a0, c.a1, c.a2);
            (World { sh, ctx, ..w }, r)
        })
    } else if c.number == nr::IOCTL {
        Some({
            let (sh, ctx, mem, r) = ioctl_spec(
                w.sh,
                w.ctx,
                w.mem,
                c.a0,
                word_of(c.a1),
                word_of(c.a2),
            );
            (World { sh, ctx, mem, ..w }, r)
        })
    } else if c.number == nr::GETDENTS64 {
        Some({
            let (sh, mem, r) = getdents_spec(
                w.sh,
                w.ctx,
                w.mem,
                c.a0,
                word_of(c.a1),
                word_of(c.a2),
            );
            (World { sh, mem, ..w }, r)
        })
    } else {
        None
    }
}

#[verifier::spinoff_prover]
fn file_handler<V: Vfs>(
    sh: &mut Shared<<V as VfsFile>::Handle>,
    ctx: &mut Ctx,
    fs: &mut Mounts<V>,
    mem: &mut [u8],
    clock: &Clock,
    c: Call,
) -> (r: Option<Sys>)
    requires
        old(sh)@.wf(),
        old(fs).wf(),
        clock.wf(),
    ensures
        final(sh)@.wf(),
        final(fs).wf(),
        match r {
            Some(r) => file_call::<V>(
                world(*old(sh), *old(ctx), *old(fs), old(mem)@),
                clock@,
                c,
            ) == Some((world(*final(sh), *final(ctx), *final(fs), final(mem)@), r)),
            None => file_call::<V>(
                world(*old(sh), *old(ctx), *old(fs), old(mem)@),
                clock@,
                c,
            ) is None && world(*final(sh), *final(ctx), *final(fs), final(mem)@) == world(
                *old(sh),
                *old(ctx),
                *old(fs),
                old(mem)@,
            ),
        },
{
    proof {
        reveal(file_call);
    }
    let r: Sys = match c.number {
        nr::OPENAT => sys_openat(sh, ctx, fs, mem, clock, c.a0, word(c.a1), word(c.a2), word(c.a3)),
        nr::CLOSE => sys_close(sh, ctx, fs, c.a0),
        nr::READ => sys_read(sh, ctx, fs, mem, clock, c.a0, word(c.a1), word(c.a2)),
        nr::WRITE => sys_write(sh, ctx, fs, mem, c.a0, word(c.a1), word(c.a2)),
        nr::READV => sys_readv(sh, ctx, fs, mem, clock, c.a0, word(c.a1), c.a2),
        nr::WRITEV => sys_writev(sh, ctx, fs, mem, c.a0, word(c.a1), c.a2),
        nr::LSEEK => sys_lseek(sh, ctx, fs, c.a0, c.a1, c.a2),
        nr::FTRUNCATE => sys_ftruncate(sh, ctx, fs, c.a0, join_length(c.a1, c.a2)),
        nr::DUP => sys_dup(sh, ctx, c.a0, 0, false),
        nr::DUP3 => sys_dup3(sh, ctx, fs, c.a0, c.a1, word(c.a2)),
        nr::PIPE2 => sys_pipe2(sh, ctx, mem, word(c.a0), word(c.a1)),
        nr::FCNTL => sys_fcntl(sh, ctx, c.a0, c.a1, c.a2),
        nr::IOCTL => sys_ioctl(sh, ctx, mem, c.a0, word(c.a1), word(c.a2)),
        nr::GETDENTS64 => sys_getdents(sh, ctx, mem, c.a0, word(c.a1), word(c.a2)),
        _ => return None,
    };
    Some(r)
}

/// Calls on paths.
#[verifier::opaque]
pub open spec fn path_call<V: Vfs>(
    w: World<<V as VfsFile>::State, <V as VfsFile>::Handle>,
    k: ClockView,
    c: Call,
) -> Option<(World<<V as VfsFile>::State, <V as VfsFile>::Handle>, Sys)> {
    if c.number == nr::TRUNCATE {
        Some({
            let (sh, fs, r) = truncate_spec::<V>(
                w.sh,
                w.ctx,
                w.fs,
                w.mem,
                word_of(c.a0),
                length_of(c.a1, c.a2),
            );
            (World { sh, fs, ..w }, r)
        })
    } else if c.number == nr::GETCWD {
        Some({
            let (mem, r) = getcwd_spec(w.ctx, w.mem, word_of(c.a0), word_of(c.a1));
            (World { mem, ..w }, r)
        })
    } else if c.number == nr::CHDIR {
        Some({
            let (sh, ctx, fs, r) = chdir_spec::<V>(w.sh, w.ctx, w.fs, w.mem, word_of(c.a0));
            (World { sh, ctx, fs, ..w }, r)
        })
    } else if c.number == nr::FCHDIR {
        Some({
            let (ctx, r) = fchdir_spec(w.sh, w.ctx, c.a0);
            (World { ctx, ..w }, r)
        })
    } else if c.number == nr::STATX {
        Some({
            let (sh, fs, mem, r) = statx_spec::<V>(
                w.sh,
                w.ctx,
                w.fs,
                w.mem,
                k.uptime,
                c.a0,
                word_of(c.a1),
                c.a2,
                word_of(c.a4),
            );
            (World { sh, fs, mem, ..w }, r)
        })
    } else if c.number == nr::FACCESSAT || c.number == nr::FACCESSAT2 {
        Some({
            let (sh, fs, r) = faccessat_spec::<V>(
                w.sh,
                w.ctx,
                w.fs,
                w.mem,
                c.a0,
                word_of(c.a1),
                c.a3,
            );
            (World { sh, fs, ..w }, r)
        })
    } else if c.number == nr::READLINKAT {
        Some({
            let (sh, fs, mem, r) = readlinkat_spec::<V>(
                w.sh,
                w.ctx,
                w.fs,
                w.mem,
                c.a0,
                word_of(c.a1),
                word_of(c.a2),
                word_of(c.a3),
            );
            (World { sh, fs, mem, ..w }, r)
        })
    } else if c.number == nr::MKDIRAT {
        Some({
            let (sh, fs, r) = mkdirat_spec::<V>(
                w.sh,
                w.ctx,
                w.fs,
                w.mem,
                c.a0,
                word_of(c.a1),
                word_of(c.a2),
            );
            (World { sh, fs, ..w }, r)
        })
    } else if c.number == nr::UNLINKAT {
        Some({
            let (sh, fs, r) = unlinkat_spec::<V>(
                w.sh,
                w.ctx,
                w.fs,
                w.mem,
                c.a0,
                word_of(c.a1),
                c.a2,
            );
            (World { sh, fs, ..w }, r)
        })
    } else if c.number == nr::RENAMEAT || c.number == nr::RENAMEAT2 {
        Some({
            let (sh, fs, r) = renameat_spec::<V>(
                w.sh,
                w.ctx,
                w.fs,
                w.mem,
                c.a0,
                word_of(c.a1),
                c.a2,
                word_of(c.a3),
            );
            (World { sh, fs, ..w }, r)
        })
    } else if c.number == nr::SYMLINKAT {
        Some({
            let (sh, fs, r) = symlinkat_spec::<V>(
                w.sh,
                w.ctx,
                w.fs,
                w.mem,
                word_of(c.a0),
                c.a1,
                word_of(c.a2),
            );
            (World { sh, fs, ..w }, r)
        })
    } else if c.number == nr::LINKAT {
        Some((w, errno(Errno::PERM)))
    } else if c.number == nr::FCHMODAT {
        Some({
            let (sh, fs, r) = fchmodat_spec::<V>(
                w.sh,
                w.ctx,
                w.fs,
                w.mem,
                c.a0,
                word_of(c.a1),
                word_of(c.a2),
            );
            (World { sh, fs, ..w }, r)
        })
    } else if c.number == nr::UTIMENSAT_TIME64 {
        Some({
            let (sh, fs, r) = utimensat_spec::<V>(
                w.sh,
                w.ctx,
                w.fs,
                w.mem,
                c.a0,
                word_of(c.a1),
                c.a4,
            );
            (World { sh, fs, ..w }, r)
        })
    } else if c.number == nr::STATFS || c.number == nr::FSTATFS {
        Some({
            let (mem, r) = put_block(w.mem, word_of(c.a2), statfs_block());
            (World { mem, ..w }, r)
        })
    } else {
        None
    }
}

#[verifier::rlimit(40)]
#[verifier::spinoff_prover]
fn path_handler<V: Vfs>(
    sh: &mut Shared<<V as VfsFile>::Handle>,
    ctx: &mut Ctx,
    fs: &mut Mounts<V>,
    mem: &mut [u8],
    clock: &Clock,
    c: Call,
) -> (r: Option<Sys>)
    requires
        old(sh)@.wf(),
        old(fs).wf(),
        clock.wf(),
    ensures
        final(sh)@.wf(),
        final(fs).wf(),
        match r {
            Some(r) => path_call::<V>(
                world(*old(sh), *old(ctx), *old(fs), old(mem)@),
                clock@,
                c,
            ) == Some((world(*final(sh), *final(ctx), *final(fs), final(mem)@), r)),
            None => path_call::<V>(
                world(*old(sh), *old(ctx), *old(fs), old(mem)@),
                clock@,
                c,
            ) is None && world(*final(sh), *final(ctx), *final(fs), final(mem)@) == world(
                *old(sh),
                *old(ctx),
                *old(fs),
                old(mem)@,
            ),
        },
{
    proof {
        reveal(path_call);
    }
    let r: Sys = match c.number {
        nr::TRUNCATE => sys_truncate(sh, ctx, fs, mem, word(c.a0), join_length(c.a1, c.a2)),
        nr::GETCWD => sys_getcwd(ctx, mem, word(c.a0), word(c.a1)),
        nr::CHDIR => sys_chdir(sh, ctx, fs, mem, word(c.a0)),
        nr::FCHDIR => sys_fchdir(sh, ctx, c.a0),
        nr::STATX => sys_statx(sh, ctx, fs, mem, clock, c.a0, word(c.a1), c.a2, word(c.a4)),
        nr::FACCESSAT | nr::FACCESSAT2 => sys_faccessat(sh, ctx, fs, mem, c.a0, word(c.a1), c.a3),
        nr::READLINKAT => sys_readlinkat(
            sh,
            ctx,
            fs,
            mem,
            c.a0,
            word(c.a1),
            word(c.a2),
            word(c.a3),
        ),
        nr::MKDIRAT => sys_mkdirat(sh, ctx, fs, mem, c.a0, word(c.a1), word(c.a2)),
        nr::UNLINKAT => sys_unlinkat(sh, ctx, fs, mem, c.a0, word(c.a1), c.a2),
        nr::RENAMEAT | nr::RENAMEAT2 => sys_renameat(
            sh,
            ctx,
            fs,
            mem,
            c.a0,
            word(c.a1),
            c.a2,
            word(c.a3),
        ),
        nr::SYMLINKAT => sys_symlinkat(sh, ctx, fs, mem, word(c.a0), c.a1, word(c.a2)),
        nr::LINKAT => Err(Fault::Errno(Errno::PERM)),
        nr::FCHMODAT => sys_fchmodat(sh, ctx, fs, mem, c.a0, word(c.a1), word(c.a2)),
        nr::UTIMENSAT_TIME64 => sys_utimensat(sh, ctx, fs, mem, c.a0, word(c.a1), c.a4),
        nr::STATFS | nr::FSTATFS => sys_statfs(mem, word(c.a2)),
        _ => return None,
    };
    Some(r)
}

/// The calls that are accepted and do nothing: everything runs as root, there is one
/// processor, and nothing is cached.
pub open spec fn is_accepted(number: i32) -> bool {
    number == nr::GETUID || number == nr::GETEUID || number == nr::GETGID || number == nr::GETEGID
        || number == nr::SETUID || number == nr::SETGID || number == nr::SETREUID
        || number == nr::SETREGID || number == nr::SETRESUID || number == nr::SETRESGID
        || number == nr::SETGROUPS || number == nr::GETGROUPS || number == nr::SET_ROBUST_LIST
        || number == nr::PRCTL || number == nr::SCHED_YIELD || number == nr::MEMBARRIER
        || number == nr::RSEQ || number == nr::SIGALTSTACK || number == nr::RT_SIGRETURN
        || number == nr::MUNMAP || number == nr::MPROTECT || number == nr::MADVISE
        || number == nr::MSYNC || number == nr::MLOCK || number == nr::MUNLOCK
        || number == nr::FSYNC || number == nr::FDATASYNC || number == nr::SYNC
        || number == nr::SYNCFS || number == nr::FADVISE64 || number == nr::FLOCK
        || number == nr::FCHMOD || number == nr::FCHOWN || number == nr::FCHOWNAT
}

fn accepted(number: i32) -> (r: bool)
    ensures
        r == is_accepted(number),
{
    match number {
        nr::GETUID | nr::GETEUID | nr::GETGID | nr::GETEGID | nr::SETUID | nr::SETGID
        | nr::SETREUID | nr::SETREGID | nr::SETRESUID | nr::SETRESGID | nr::SETGROUPS
        | nr::GETGROUPS | nr::SET_ROBUST_LIST | nr::PRCTL | nr::SCHED_YIELD | nr::MEMBARRIER
        | nr::RSEQ | nr::SIGALTSTACK | nr::RT_SIGRETURN | nr::MUNMAP | nr::MPROTECT | nr::MADVISE
        | nr::MSYNC | nr::MLOCK | nr::MUNLOCK | nr::FSYNC | nr::FDATASYNC | nr::SYNC | nr::SYNCFS
        | nr::FADVISE64 | nr::FLOCK | nr::FCHMOD | nr::FCHOWN | nr::FCHOWNAT => true,
        _ => false,
    }
}

/// What a syscall does. What is not here is not implemented: sockets, threads, and the calls
/// that `statx` makes unnecessary.
pub open spec fn handled<V: Vfs>(
    w: World<<V as VfsFile>::State, <V as VfsFile>::Handle>,
    k: ClockView,
    c: Call,
) -> (World<<V as VfsFile>::State, <V as VfsFile>::Handle>, Sys) {
    match process_call::<V>(w, k, c) {
        Some(done) => done,
        None => match signal_call::<V>(w, k, c) {
            Some(done) => done,
            None => match file_call::<V>(w, k, c) {
                Some(done) => done,
                None => match path_call::<V>(w, k, c) {
                    Some(done) => done,
                    None => if is_accepted(c.number) {
                        (w, Ok(0))
                    } else {
                        (w, errno(Errno::NOSYS))
                    },
                },
            },
        },
    }
}

/// Serve one syscall, as far as its own handler goes.
pub fn handle<V: Vfs>(
    sh: &mut Shared<<V as VfsFile>::Handle>,
    ctx: &mut Ctx,
    fs: &mut Mounts<V>,
    mem: &mut [u8],
    clock: &Clock,
    c: Call,
) -> (r: Sys)
    requires
        old(sh)@.wf(),
        old(fs).wf(),
        clock.wf(),
    ensures
        final(sh)@.wf(),
        final(fs).wf(),
        handled::<V>(world(*old(sh), *old(ctx), *old(fs), old(mem)@), clock@, c) == (
            world(*final(sh), *final(ctx), *final(fs), final(mem)@),
            r,
        ),
{
    match process_handler(sh, ctx, fs, mem, clock, c) {
        Some(r) => return r,
        None => {},
    }
    match signal_handler(sh, ctx, fs, mem, clock, c) {
        Some(r) => return r,
        None => {},
    }
    match file_handler(sh, ctx, fs, mem, clock, c) {
        Some(r) => return r,
        None => {},
    }
    match path_handler(sh, ctx, fs, mem, clock, c) {
        Some(r) => return r,
        None => {},
    }
    if accepted(c.number) {
        Ok(0)
    } else {
        Err(Fault::Errno(Errno::NOSYS))
    }
}

// ---------------------------------------------------------------------------------------------
// the way out

/// The value an error has for the guest.
pub open spec fn negative(e: Errno) -> i32 {
    if e.code() == i32::MIN {
        i32::MIN
    } else {
        (-e.code()) as i32
    }
}

/// The world once a call is answered: the process neither sleeps nor waits for a mount, its
/// deadline and temporary mask are gone, and the guest knows whether a signal is waiting.
pub open spec fn answered<S, F>(w: World<S, F>) -> World<S, F> {
    let ctx = settled_ctx(w.ctx);
    World {
        sh: SharedView {
            table: with_wake(w.sh.table, w.ctx.task.pid, None),
            vfs_pending: false,
            ..w.sh
        },
        ctx,
        mem: flag_written(w.mem, w.ctx.state.signal_flag, live_signals(w.sh, ctx) != 0),
        ..w
    }
}

/// The world of a process that waits for no mount.
pub open spec fn at_rest<S, F>(w: World<S, F>) -> World<S, F> {
    World { sh: SharedView { vfs_pending: false, ..w.sh }, ..w }
}

/// What a handler's result comes to. A signal that would be delivered interrupts a wait.
pub open spec fn concluded<S, F>(w: World<S, F>, r: Sys) -> (World<S, F>, Outcome) {
    match r {
        Ok(v) => (answered(w), Outcome::Value(v)),
        Err(Fault::Errno(e)) => (answered(w), Outcome::Value(negative(e))),
        Err(Fault::Block) => if live_signals(w.sh, w.ctx) != 0 {
            (answered(w), Outcome::Value(negative(Errno::INTR)))
        } else {
            (w, Outcome::Blocked)
        },
        Err(Fault::Exit(status)) => (at_rest(w), Outcome::Exit(status)),
        Err(Fault::Exec) => (at_rest(w), Outcome::Exec),
        Err(Fault::Grow(pages)) => (w, Outcome::Grow(pages)),
    }
}

fn conclude<V: Vfs>(
    sh: &mut Shared<<V as VfsFile>::Handle>,
    ctx: &mut Ctx,
    fs: &Mounts<V>,
    mem: &mut [u8],
    r: Sys,
) -> (o: Outcome)
    ensures
        concluded(world(*old(sh), *old(ctx), *fs, old(mem)@), r) == (
            world(*final(sh), *final(ctx), *fs, final(mem)@),
            o,
        ),
        old(sh)@.wf() ==> final(sh)@.wf(),
{
    match r {
        Ok(v) => {
            finish(sh, ctx, mem);
            Outcome::Value(v)
        },
        Err(Fault::Errno(e)) => {
            finish(sh, ctx, mem);
            Outcome::Value(e.as_neg())
        },
        Err(Fault::Block) => {
            if interrupted(sh, ctx) {
                finish(sh, ctx, mem);
                return Outcome::Value(Errno::INTR.as_neg());
            }
            Outcome::Blocked
        },
        Err(Fault::Exit(status)) => {
            sh.vfs_pending = false;
            Outcome::Exit(status)
        },
        Err(Fault::Exec) => {
            sh.vfs_pending = false;
            Outcome::Exec
        },
        Err(Fault::Grow(pages)) => Outcome::Grow(pages),
    }
}

/// The world with one more syscall counted.
pub open spec fn counted<S, F>(w: World<S, F>) -> World<S, F> {
    World {
        sh: SharedView {
            syscalls: if w.sh.syscalls < u64::MAX {
                (w.sh.syscalls + 1) as u64
            } else {
                w.sh.syscalls
            },
            ..w.sh
        },
        ..w
    }
}

/// Serving one syscall: count it, handle it, and conclude.
pub open spec fn dispatched<V: Vfs>(
    w: World<<V as VfsFile>::State, <V as VfsFile>::Handle>,
    k: ClockView,
    c: Call,
) -> (World<<V as VfsFile>::State, <V as VfsFile>::Handle>, Outcome) {
    let (after, r) = handled::<V>(counted(w), k, c);
    concluded(after, r)
}

/// Serve one syscall.
pub fn dispatch<V: Vfs>(
    sh: &mut Shared<<V as VfsFile>::Handle>,
    ctx: &mut Ctx,
    fs: &mut Mounts<V>,
    mem: &mut [u8],
    clock: &Clock,
    c: Call,
) -> (o: Outcome)
    requires
        old(sh)@.wf(),
        old(fs).wf(),
        clock.wf(),
    ensures
        final(sh)@.wf(),
        final(fs).wf(),
        dispatched::<V>(world(*old(sh), *old(ctx), *old(fs), old(mem)@), clock@, c) == (
            world(*final(sh), *final(ctx), *final(fs), final(mem)@),
            o,
        ),
{
    if sh.syscalls < u64::MAX {
        sh.syscalls = sh.syscalls + 1;
    }
    let r = handle(sh, ctx, fs, mem, clock, c);
    conclude(sh, ctx, fs, mem, r)
}

/// The rest of a call that asked for more memory.
pub open spec fn handled_grown<V: Vfs>(
    w: World<<V as VfsFile>::State, <V as VfsFile>::Handle>,
    c: Call,
    previous: Option<u64>,
) -> (World<<V as VfsFile>::State, <V as VfsFile>::Handle>, Sys) {
    if c.number == nr::BRK {
        let (sh, ctx, r) = brk_grown(
            w.sh,
            w.ctx,
            w.mem.len() as int,
            word_of(c.a0),
            previous is Some,
        );
        (World { sh, ctx, ..w }, r)
    } else if c.number == nr::MMAP {
        let (sh, ctx, mem, r) = mmap_grown(w.sh, w.ctx, w.mem, word_of(c.a1), c.a3, previous);
        (World { sh, ctx, mem, ..w }, r)
    } else {
        (w, errno(Errno::NOSYS))
    }
}

/// Finish a call that asked for more memory. `previous` is how many pages there were before,
/// or nothing if the engine refused; `mem` is the memory as it is now.
pub fn dispatch_grown<V: Vfs>(
    sh: &mut Shared<<V as VfsFile>::Handle>,
    ctx: &mut Ctx,
    fs: &Mounts<V>,
    mem: &mut [u8],
    c: Call,
    previous: Option<u64>,
) -> (o: Outcome)
    requires
        old(sh)@.wf(),
    ensures
        final(sh)@.wf(),
        ({
            let (after, r) = handled_grown::<V>(
                world(*old(sh), *old(ctx), *fs, old(mem)@),
                c,
                previous,
            );
            concluded(after, r) == (world(*final(sh), *final(ctx), *fs, final(mem)@), o)
        }),
{
    let r: Sys = match c.number {
        nr::BRK => sys_brk_grown(sh, ctx, mem, word(c.a0), previous.is_some()),
        nr::MMAP => sys_mmap_grown(sh, ctx, mem, word(c.a1), c.a3, previous),
        _ => Err(Fault::Errno(Errno::NOSYS)),
    };
    conclude(sh, ctx, fs, mem, r)
}

} // verus!
