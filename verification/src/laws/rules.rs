//! What the embedder decided stands, whatever a guest does.
use crate::nr;
use crate::abi::{AT_FDCWD, O_NOFOLLOW, TIMER_ABSTIME};
use crate::kernel::fd::{cloexec_descs, live_descs};
use crate::kernel::mem::{text_at, word_of};
use crate::kernel::mounts::MountView;
use crate::kernel::namespace::NodeView;
use crate::kernel::state::{released_all, Call, CtxView, SharedView, PAGE};
use crate::syscall::base::{held_sum, looked_up, Fault, Sys, World};
use crate::syscall::exec::{execve_spec, head_of, interpreter_of, shebang_text};
use crate::syscall::fds::{
    close_spec, dup3_spec, dup_spec, fcntl_spec, ftruncate_spec, getdents_spec, lseek_spec,
    pipe2_spec,
};
use crate::syscall::io::{sys_read_spec, sys_write_spec};
use crate::syscall::ioctl::ioctl_spec;
use crate::syscall::memory::{brk_spec, mmap_spec, pages_for};
use crate::syscall::open::{installed, node_opening, openat_spec, Opening};
use crate::syscall::path::{
    chdir_spec, faccessat_spec, fchmodat_spec, mkdirat_spec, readlinkat_spec, renameat_spec,
    symlinkat_spec, truncate_spec, unlinkat_spec, utimensat_spec,
};
use crate::syscall::poll::{ppoll_spec, pselect_spec};
use crate::syscall::signal::kill_spec;
use crate::syscall::stat::statx_spec;
use crate::syscall::table::{
    concluded, counted, dispatched, file_call, handled, handled_grown, length_of, path_call,
    process_call, signal_call, ClockView,
};
use crate::syscall::time::sleep_spec;
use crate::syscall::vector::{iovec, readv_from, vector_count, writev_from};
use crate::vfs::{Vfs, VfsFile};
use vstd::prelude::*;

verus! {

/// Whether what the embedder decided stands: the programs and where they are, the limits, and
/// that there is no terminal where none was given.
pub open spec fn same_rules<F>(a: SharedView<F>, b: SharedView<F>) -> bool {
    &&& b.overlay == a.overlay
    &&& b.programs == a.programs
    &&& b.limits == a.limits
    &&& a.terminal is None ==> b.terminal is None
}

/// The same, and the memory in use is what it was.
pub open spec fn same_holdings<F>(a: SharedView<F>, b: SharedView<F>) -> bool {
    same_rules(a, b) && b.memory_used == a.memory_used
}

/// Whether a handler asked for memory.
pub open spec fn asks(r: Sys) -> bool {
    r matches Err(Fault::Grow(_))
}

pub proof fn lemma_released_rules<V: Vfs>(
    sh: SharedView<<V as VfsFile>::Handle>,
    fs: Seq<MountView<<V as VfsFile>::State>>,
    keys: Seq<u32>,
)
    ensures
        same_holdings(sh, released_all::<V>(sh, fs, keys).0),
    decreases keys.len(),
{
    if keys.len() > 0 {
        lemma_released_rules::<V>(sh, fs, keys.drop_last());
    }
}

#[verifier::spinoff_prover]
proof fn lemma_readv_rules<V: Vfs>(
    sh: SharedView<<V as VfsFile>::Handle>,
    ctx: CtxView,
    fs: Seq<MountView<<V as VfsFile>::State>>,
    mem: Seq<u8>,
    realtime: u128,
    fd: i32,
    vector: u32,
    count: int,
    i: int,
    total: i32,
)
    ensures
        same_holdings(
            sh,
            readv_from::<V>(sh, ctx, fs, mem, realtime, fd, vector, count, i, total).0,
        ),
    decreases count - i,
{
    if i < count {
        if let Ok((at, len)) = iovec(mem, vector, i) {
            if len == 0 {
                lemma_readv_rules::<V>(
                    sh,
                    ctx,
                    fs,
                    mem,
                    realtime,
                    fd,
                    vector,
                    count,
                    i + 1,
                    total,
                );
            } else {
                let (s, f, m, r) = sys_read_spec::<V>(sh, ctx, fs, mem, realtime, fd, at, len);
                if let Ok(done) = r {
                    lemma_readv_rules::<V>(
                        s,
                        ctx,
                        f,
                        m,
                        realtime,
                        fd,
                        vector,
                        count,
                        i + 1,
                        held_sum(total, done),
                    );
                }
            }
        }
    }
}

#[verifier::spinoff_prover]
proof fn lemma_writev_rules<V: Vfs>(
    sh: SharedView<<V as VfsFile>::Handle>,
    ctx: CtxView,
    fs: Seq<MountView<<V as VfsFile>::State>>,
    mem: Seq<u8>,
    fd: i32,
    vector: u32,
    count: int,
    i: int,
    total: i32,
)
    ensures
        same_holdings(sh, writev_from::<V>(sh, ctx, fs, mem, fd, vector, count, i, total).0),
    decreases count - i,
{
    if i < count {
        if let Ok((at, len)) = iovec(mem, vector, i) {
            if len == 0 {
                lemma_writev_rules::<V>(sh, ctx, fs, mem, fd, vector, count, i + 1, total);
            } else {
                let (s, f, r) = sys_write_spec::<V>(sh, ctx, fs, mem, fd, at, len);
                if let Ok(done) = r {
                    lemma_writev_rules::<V>(
                        s,
                        ctx,
                        f,
                        mem,
                        fd,
                        vector,
                        count,
                        i + 1,
                        held_sum(total, done),
                    );
                }
            }
        }
    }
}

#[verifier::spinoff_prover]
proof fn lemma_process_rules<V: Vfs>(
    w: World<<V as VfsFile>::State, <V as VfsFile>::Handle>,
    k: ClockView,
    c: Call,
)
    ensures
        process_call::<V>(w, k, c) matches Some(done) ==> same_holdings(w.sh, done.0.sh)
            && done.0.ctx.state.charged == w.ctx.state.charged && !asks(done.1),
{
    reveal(process_call);
    if c.number == nr::EXIT || c.number == nr::EXIT_GROUP {
        lemma_released_rules::<V>(w.sh, w.fs, live_descs(w.ctx.task.fds));
    } else if c.number == nr::EXECVE {
        lemma_execve_rules::<V>(
            w.sh,
            w.ctx,
            w.fs,
            w.mem,
            word_of(c.a0),
            word_of(c.a1),
            word_of(c.a2),
        );
    }
}

#[verifier::spinoff_prover]
proof fn lemma_execve_rules<V: Vfs>(
    sh: SharedView<<V as VfsFile>::Handle>,
    ctx: CtxView,
    fs: Seq<MountView<<V as VfsFile>::State>>,
    mem: Seq<u8>,
    path_at: u32,
    argv_at: u32,
    envp_at: u32,
)
    ensures
        same_holdings(sh, execve_spec::<V>(sh, ctx, fs, mem, path_at, argv_at, envp_at).0),
        !asks(execve_spec::<V>(sh, ctx, fs, mem, path_at, argv_at, envp_at).3),
{
    if let Ok(path) = text_at(mem, path_at as int) {
        let (s, f, node) = looked_up::<V>(sh, ctx, fs, AT_FDCWD, path, true);
        lemma_released_rules::<V>(s, f, cloexec_descs(ctx.task.fds));
        if let Ok(NodeView::Mounted { mount, rel, guest }) = node {
            let (s1, f1, head) = head_of::<V>(s, f, mount, rel);
            assert(same_holdings(s, s1));
            if let Ok(head) = head {
                if let Some(line) = shebang_text(head) {
                    let name = interpreter_of(line);
                    let (s2, f2, found) = looked_up::<V>(s1, ctx, f1, AT_FDCWD, name, true);
                    lemma_released_rules::<V>(s2, f2, cloexec_descs(ctx.task.fds));
                }
            }
        }
    }
}

proof fn lemma_kill_rules<V: Vfs>(
    w: World<<V as VfsFile>::State,
    <V as VfsFile>::Handle>,
    k: ClockView,
    c: Call,
)
    ensures
        same_holdings(
            w.sh,
            kill_spec(
                w.sh,
                w.ctx,
                c.a0,
                c.a1,
            ).0,
        ),
        !asks(
            kill_spec(
                w.sh,
                w.ctx,
                c.a0,
                c.a1,
            ).1,
        ),
{
}

proof fn lemma_tgkill_rules<V: Vfs>(
    w: World<<V as VfsFile>::State,
    <V as VfsFile>::Handle>,
    k: ClockView,
    c: Call,
)
    ensures
        same_holdings(
            w.sh,
            kill_spec(
                w.sh,
                w.ctx,
                c.a1,
                c.a2,
            ).0,
        ),
        !asks(
            kill_spec(
                w.sh,
                w.ctx,
                c.a1,
                c.a2,
            ).1,
        ),
{
}

proof fn lemma_nanosleep_rules<V: Vfs>(
    w: World<<V as VfsFile>::State,
    <V as VfsFile>::Handle>,
    k: ClockView,
    c: Call,
)
    ensures
        same_holdings(
            w.sh,
            sleep_spec(
                w.sh,
                w.ctx,
                w.mem,
                k.elapsed,
                k.realtime,
                word_of(c.a0),
                false,
                c.a0,
            ).0,
        ),
        !asks(
            sleep_spec(
                w.sh,
                w.ctx,
                w.mem,
                k.elapsed,
                k.realtime,
                word_of(c.a0),
                false,
                c.a0,
            ).2,
        ),
{
}

proof fn lemma_clock_nanosleep_rules<V: Vfs>(
    w: World<<V as VfsFile>::State,
    <V as VfsFile>::Handle>,
    k: ClockView,
    c: Call,
)
    ensures
        same_holdings(
            w.sh,
            sleep_spec(
                w.sh,
                w.ctx,
                w.mem,
                k.elapsed,
                k.realtime,
                word_of(c.a2),
                c.a1 & TIMER_ABSTIME != 0,
                c.a0,
            ).0,
        ),
        !asks(
            sleep_spec(
                w.sh,
                w.ctx,
                w.mem,
                k.elapsed,
                k.realtime,
                word_of(c.a2),
                c.a1 & TIMER_ABSTIME != 0,
                c.a0,
            ).2,
        ),
{
}

/// What a call has asked for and not been given yet.
pub open spec fn asked_for(c: Call, size: int) -> int {
    if c.number == nr::BRK {
        if word_of(c.a0) <= size {
            0
        } else {
            pages_for(word_of(c.a0) - size) * PAGE
        }
    } else {
        pages_for(word_of(c.a1) as int) * PAGE
    }
}

/// Whether the memory in use changed by what the process is charged, and nothing else did that
/// the embedder decided.
pub open spec fn fairly_charged<S, F>(before: World<S, F>, after: World<S, F>) -> bool {
    &&& same_rules(before.sh, after.sh)
    &&& after.sh.memory_used - before.sh.memory_used == after.ctx.state.charged
        - before.ctx.state.charged
    &&& before.sh.memory_used <= before.sh.limits.memory ==> after.sh.memory_used
        <= after.sh.limits.memory
}

proof fn lemma_brk_rules<V: Vfs>(
    w: World<<V as VfsFile>::State,
    <V as VfsFile>::Handle>,
    k: ClockView,
    c: Call,
)
    ensures
        ({
            let (sh, ctx, r) = brk_spec(w.sh, w.ctx, w.mem.len() as int, word_of(c.a0));
            &&& same_rules(w.sh, sh)
            &&& w.ctx.state.charged <= w.sh.memory_used ==> fairly_charged(
                w,
                (World { sh, ctx, ..w }),
            )
            &&& asks(r) && c.number == nr::BRK && w.ctx.state.charged <= w.sh.memory_used ==> asked_for(
                c,
                w.mem.len() as int,
            ) <= ctx.state.charged
        }),
{
}

proof fn lemma_mmap_rules<V: Vfs>(
    w: World<<V as VfsFile>::State,
    <V as VfsFile>::Handle>,
    k: ClockView,
    c: Call,
)
    ensures
        ({
            let (sh, ctx, fs, r) = mmap_spec::<V>(
                w.sh,
                w.ctx,
                w.fs,
                w.mem.len() as int,
                word_of(c.a0),
                word_of(c.a1),
                c.a3,
                c.a4,
                c.a5,
            );
            &&& same_rules(w.sh, sh)
            &&& w.ctx.state.charged <= w.sh.memory_used ==> fairly_charged(
                w,
                (World { sh, ctx, fs, ..w }),
            )
            &&& asks(r) && c.number == nr::MMAP && w.ctx.state.charged <= w.sh.memory_used
                ==> asked_for(c, w.mem.len() as int) <= ctx.state.charged
        }),
{
}

proof fn lemma_ppoll_rules<V: Vfs>(
    w: World<<V as VfsFile>::State,
    <V as VfsFile>::Handle>,
    k: ClockView,
    c: Call,
)
    ensures
        same_holdings(
            w.sh,
            ppoll_spec(
                w.sh,
                w.ctx,
                w.mem,
                k.elapsed,
                word_of(c.a0),
                word_of(c.a1),
                word_of(c.a2),
            ).0,
        ),
        !asks(
            ppoll_spec(
                w.sh,
                w.ctx,
                w.mem,
                k.elapsed,
                word_of(c.a0),
                word_of(c.a1),
                word_of(c.a2),
            ).3,
        ),
{
}

proof fn lemma_pselect_rules<V: Vfs>(
    w: World<<V as VfsFile>::State,
    <V as VfsFile>::Handle>,
    k: ClockView,
    c: Call,
)
    ensures
        same_holdings(
            w.sh,
            pselect_spec(
                w.sh,
                w.ctx,
                w.mem,
                k.elapsed,
                c.a0,
                word_of(c.a1),
                word_of(c.a2),
                word_of(c.a3),
                word_of(c.a4),
            ).0,
        ),
        !asks(
            pselect_spec(
                w.sh,
                w.ctx,
                w.mem,
                k.elapsed,
                c.a0,
                word_of(c.a1),
                word_of(c.a2),
                word_of(c.a3),
                word_of(c.a4),
            ).3,
        ),
{
}

proof fn lemma_openat_rules<V: Vfs>(
    w: World<<V as VfsFile>::State,
    <V as VfsFile>::Handle>,
    k: ClockView,
    c: Call,
)
    ensures
        same_holdings(
            w.sh,
            openat_spec::<V>(
                w.sh,
                w.ctx,
                w.fs,
                w.mem,
                k.uptime,
                c.a0,
                word_of(c.a1),
                word_of(c.a2),
                word_of(c.a3),
            ).0,
        ),
        !asks(
            openat_spec::<V>(
                w.sh,
                w.ctx,
                w.fs,
                w.mem,
                k.uptime,
                c.a0,
                word_of(c.a1),
                word_of(c.a2),
                word_of(c.a3),
            ).3,
        ),
{
    if let Ok(path) = text_at(w.mem, word_of(c.a1) as int) {
        let flags = word_of(c.a2);
        let (s, f, node) = looked_up::<V>(w.sh, w.ctx, w.fs, c.a0, path, flags & O_NOFOLLOW == 0);
        if let Ok(node) = node {
            let (s2, f2, opening) = node_opening::<V>(
                s,
                w.ctx,
                f,
                k.uptime,
                node,
                flags,
                word_of(c.a3),
            );
            lemma_node_opening_rules::<V>(s, w.ctx, f, k.uptime, node, flags, word_of(c.a3));
            lemma_installed_rules::<V>(s2, w.ctx, f2, opening, flags);
        }
    }
}

proof fn lemma_node_opening_rules<V: Vfs>(
    sh: SharedView<<V as VfsFile>::Handle>,
    ctx: CtxView,
    fs: Seq<MountView<<V as VfsFile>::State>>,
    uptime: Seq<char>,
    node: NodeView,
    flags: u32,
    mode: u32,
)
    ensures
        same_holdings(sh, node_opening::<V>(sh, ctx, fs, uptime, node, flags, mode).0),
        !(node_opening::<V>(sh, ctx, fs, uptime, node, flags, mode).2 matches Opening::Fail(
            Fault::Grow(_),
        )),
{
}

proof fn lemma_installed_rules<V: Vfs>(
    sh: SharedView<<V as VfsFile>::Handle>,
    ctx: CtxView,
    fs: Seq<MountView<<V as VfsFile>::State>>,
    opening: Opening<<V as VfsFile>::Handle>,
    flags: u32,
)
    requires
        !(opening matches Opening::Fail(Fault::Grow(_))),
    ensures
        same_holdings(sh, installed::<V>(sh, ctx, fs, opening, flags).0),
        !asks(installed::<V>(sh, ctx, fs, opening, flags).3),
{
}


proof fn lemma_close_rules<V: Vfs>(
    w: World<<V as VfsFile>::State,
    <V as VfsFile>::Handle>,
    k: ClockView,
    c: Call,
)
    ensures
        same_holdings(
            w.sh,
            close_spec::<V>(
                w.sh,
                w.ctx,
                w.fs,
                c.a0,
            ).0,
        ),
        !asks(
            close_spec::<V>(
                w.sh,
                w.ctx,
                w.fs,
                c.a0,
            ).3,
        ),
{
}

proof fn lemma_read_rules<V: Vfs>(
    w: World<<V as VfsFile>::State,
    <V as VfsFile>::Handle>,
    k: ClockView,
    c: Call,
)
    ensures
        same_holdings(
            w.sh,
            sys_read_spec::<V>(
                w.sh,
                w.ctx,
                w.fs,
                w.mem,
                k.realtime,
                c.a0,
                word_of(c.a1),
                word_of(c.a2),
            ).0,
        ),
        !asks(
            sys_read_spec::<V>(
                w.sh,
                w.ctx,
                w.fs,
                w.mem,
                k.realtime,
                c.a0,
                word_of(c.a1),
                word_of(c.a2),
            ).3,
        ),
{
}

proof fn lemma_write_rules<V: Vfs>(
    w: World<<V as VfsFile>::State,
    <V as VfsFile>::Handle>,
    k: ClockView,
    c: Call,
)
    ensures
        same_holdings(
            w.sh,
            sys_write_spec::<V>(
                w.sh,
                w.ctx,
                w.fs,
                w.mem,
                c.a0,
                word_of(c.a1),
                word_of(c.a2),
            ).0,
        ),
        !asks(
            sys_write_spec::<V>(
                w.sh,
                w.ctx,
                w.fs,
                w.mem,
                c.a0,
                word_of(c.a1),
                word_of(c.a2),
            ).2,
        ),
{
}

proof fn lemma_lseek_rules<V: Vfs>(
    w: World<<V as VfsFile>::State,
    <V as VfsFile>::Handle>,
    k: ClockView,
    c: Call,
)
    ensures
        same_holdings(
            w.sh,
            lseek_spec::<V>(
                w.sh,
                w.ctx,
                w.fs,
                c.a0,
                c.a1,
                c.a2,
            ).0,
        ),
        !asks(
            lseek_spec::<V>(
                w.sh,
                w.ctx,
                w.fs,
                c.a0,
                c.a1,
                c.a2,
            ).2,
        ),
{
}

proof fn lemma_ftruncate_rules<V: Vfs>(
    w: World<<V as VfsFile>::State,
    <V as VfsFile>::Handle>,
    k: ClockView,
    c: Call,
)
    ensures
        same_holdings(
            w.sh,
            ftruncate_spec::<V>(
                w.sh,
                w.ctx,
                w.fs,
                c.a0,
                length_of(c.a1, c.a2),
            ).0,
        ),
        !asks(
            ftruncate_spec::<V>(
                w.sh,
                w.ctx,
                w.fs,
                c.a0,
                length_of(c.a1, c.a2),
            ).2,
        ),
{
}

proof fn lemma_dup_rules<V: Vfs>(
    w: World<<V as VfsFile>::State,
    <V as VfsFile>::Handle>,
    k: ClockView,
    c: Call,
)
    ensures
        same_holdings(
            w.sh,
            dup_spec(
                w.sh,
                w.ctx,
                c.a0,
                0,
                false,
            ).0,
        ),
        !asks(
            dup_spec(
                w.sh,
                w.ctx,
                c.a0,
                0,
                false,
            ).2,
        ),
{
}

proof fn lemma_dup3_rules<V: Vfs>(
    w: World<<V as VfsFile>::State,
    <V as VfsFile>::Handle>,
    k: ClockView,
    c: Call,
)
    ensures
        same_holdings(
            w.sh,
            dup3_spec::<V>(
                w.sh,
                w.ctx,
                w.fs,
                c.a0,
                c.a1,
                word_of(c.a2),
            ).0,
        ),
        !asks(
            dup3_spec::<V>(
                w.sh,
                w.ctx,
                w.fs,
                c.a0,
                c.a1,
                word_of(c.a2),
            ).3,
        ),
{
}

proof fn lemma_pipe2_rules<V: Vfs>(
    w: World<<V as VfsFile>::State,
    <V as VfsFile>::Handle>,
    k: ClockView,
    c: Call,
)
    ensures
        same_holdings(
            w.sh,
            pipe2_spec(
                w.sh,
                w.ctx,
                w.mem,
                word_of(c.a0),
                word_of(c.a1),
            ).0,
        ),
        !asks(
            pipe2_spec(
                w.sh,
                w.ctx,
                w.mem,
                word_of(c.a0),
                word_of(c.a1),
            ).3,
        ),
{
}

proof fn lemma_fcntl_rules<V: Vfs>(
    w: World<<V as VfsFile>::State,
    <V as VfsFile>::Handle>,
    k: ClockView,
    c: Call,
)
    ensures
        same_holdings(
            w.sh,
            fcntl_spec(
                w.sh,
                w.ctx,
                c.a0,
                c.a1,
                c.a2,
            ).0,
        ),
        !asks(
            fcntl_spec(
                w.sh,
                w.ctx,
                c.a0,
                c.a1,
                c.a2,
            ).2,
        ),
{
}

proof fn lemma_ioctl_rules<V: Vfs>(
    w: World<<V as VfsFile>::State,
    <V as VfsFile>::Handle>,
    k: ClockView,
    c: Call,
)
    ensures
        same_holdings(
            w.sh,
            ioctl_spec(
                w.sh,
                w.ctx,
                w.mem,
                c.a0,
                word_of(c.a1),
                word_of(c.a2),
            ).0,
        ),
        !asks(
            ioctl_spec(
                w.sh,
                w.ctx,
                w.mem,
                c.a0,
                word_of(c.a1),
                word_of(c.a2),
            ).3,
        ),
{
}

proof fn lemma_getdents_rules<V: Vfs>(
    w: World<<V as VfsFile>::State,
    <V as VfsFile>::Handle>,
    k: ClockView,
    c: Call,
)
    ensures
        same_holdings(
            w.sh,
            getdents_spec(
                w.sh,
                w.ctx,
                w.mem,
                c.a0,
                word_of(c.a1),
                word_of(c.a2),
            ).0,
        ),
        !asks(
            getdents_spec(
                w.sh,
                w.ctx,
                w.mem,
                c.a0,
                word_of(c.a1),
                word_of(c.a2),
            ).2,
        ),
{
}

proof fn lemma_truncate_rules<V: Vfs>(
    w: World<<V as VfsFile>::State,
    <V as VfsFile>::Handle>,
    k: ClockView,
    c: Call,
)
    ensures
        same_holdings(
            w.sh,
            truncate_spec::<V>(
                w.sh,
                w.ctx,
                w.fs,
                w.mem,
                word_of(c.a0),
                length_of(c.a1, c.a2),
            ).0,
        ),
        !asks(
            truncate_spec::<V>(
                w.sh,
                w.ctx,
                w.fs,
                w.mem,
                word_of(c.a0),
                length_of(c.a1, c.a2),
            ).2,
        ),
{
}

proof fn lemma_chdir_rules<V: Vfs>(
    w: World<<V as VfsFile>::State,
    <V as VfsFile>::Handle>,
    k: ClockView,
    c: Call,
)
    ensures
        same_holdings(
            w.sh,
            chdir_spec::<V>(
                w.sh,
                w.ctx,
                w.fs,
                w.mem,
                word_of(c.a0),
            ).0,
        ),
        !asks(
            chdir_spec::<V>(
                w.sh,
                w.ctx,
                w.fs,
                w.mem,
                word_of(c.a0),
            ).3,
        ),
{
}

proof fn lemma_statx_rules<V: Vfs>(
    w: World<<V as VfsFile>::State,
    <V as VfsFile>::Handle>,
    k: ClockView,
    c: Call,
)
    ensures
        same_holdings(
            w.sh,
            statx_spec::<V>(
                w.sh,
                w.ctx,
                w.fs,
                w.mem,
                k.uptime,
                c.a0,
                word_of(c.a1),
                c.a2,
                word_of(c.a4),
            ).0,
        ),
        !asks(
            statx_spec::<V>(
                w.sh,
                w.ctx,
                w.fs,
                w.mem,
                k.uptime,
                c.a0,
                word_of(c.a1),
                c.a2,
                word_of(c.a4),
            ).3,
        ),
{
}

proof fn lemma_faccessat_rules<V: Vfs>(
    w: World<<V as VfsFile>::State,
    <V as VfsFile>::Handle>,
    k: ClockView,
    c: Call,
)
    ensures
        same_holdings(
            w.sh,
            faccessat_spec::<V>(
                w.sh,
                w.ctx,
                w.fs,
                w.mem,
                c.a0,
                word_of(c.a1),
                c.a3,
            ).0,
        ),
        !asks(
            faccessat_spec::<V>(
                w.sh,
                w.ctx,
                w.fs,
                w.mem,
                c.a0,
                word_of(c.a1),
                c.a3,
            ).2,
        ),
{
}

proof fn lemma_readlinkat_rules<V: Vfs>(
    w: World<<V as VfsFile>::State,
    <V as VfsFile>::Handle>,
    k: ClockView,
    c: Call,
)
    ensures
        same_holdings(
            w.sh,
            readlinkat_spec::<V>(
                w.sh,
                w.ctx,
                w.fs,
                w.mem,
                c.a0,
                word_of(c.a1),
                word_of(c.a2),
                word_of(c.a3),
            ).0,
        ),
        !asks(
            readlinkat_spec::<V>(
                w.sh,
                w.ctx,
                w.fs,
                w.mem,
                c.a0,
                word_of(c.a1),
                word_of(c.a2),
                word_of(c.a3),
            ).3,
        ),
{
}

proof fn lemma_mkdirat_rules<V: Vfs>(
    w: World<<V as VfsFile>::State,
    <V as VfsFile>::Handle>,
    k: ClockView,
    c: Call,
)
    ensures
        same_holdings(
            w.sh,
            mkdirat_spec::<V>(
                w.sh,
                w.ctx,
                w.fs,
                w.mem,
                c.a0,
                word_of(c.a1),
                word_of(c.a2),
            ).0,
        ),
        !asks(
            mkdirat_spec::<V>(
                w.sh,
                w.ctx,
                w.fs,
                w.mem,
                c.a0,
                word_of(c.a1),
                word_of(c.a2),
            ).2,
        ),
{
}

proof fn lemma_unlinkat_rules<V: Vfs>(
    w: World<<V as VfsFile>::State,
    <V as VfsFile>::Handle>,
    k: ClockView,
    c: Call,
)
    ensures
        same_holdings(
            w.sh,
            unlinkat_spec::<V>(
                w.sh,
                w.ctx,
                w.fs,
                w.mem,
                c.a0,
                word_of(c.a1),
                c.a2,
            ).0,
        ),
        !asks(
            unlinkat_spec::<V>(
                w.sh,
                w.ctx,
                w.fs,
                w.mem,
                c.a0,
                word_of(c.a1),
                c.a2,
            ).2,
        ),
{
}

proof fn lemma_renameat_rules<V: Vfs>(
    w: World<<V as VfsFile>::State,
    <V as VfsFile>::Handle>,
    k: ClockView,
    c: Call,
)
    ensures
        same_holdings(
            w.sh,
            renameat_spec::<V>(
                w.sh,
                w.ctx,
                w.fs,
                w.mem,
                c.a0,
                word_of(c.a1),
                c.a2,
                word_of(c.a3),
            ).0,
        ),
        !asks(
            renameat_spec::<V>(
                w.sh,
                w.ctx,
                w.fs,
                w.mem,
                c.a0,
                word_of(c.a1),
                c.a2,
                word_of(c.a3),
            ).2,
        ),
{
}

proof fn lemma_symlinkat_rules<V: Vfs>(
    w: World<<V as VfsFile>::State,
    <V as VfsFile>::Handle>,
    k: ClockView,
    c: Call,
)
    ensures
        same_holdings(
            w.sh,
            symlinkat_spec::<V>(
                w.sh,
                w.ctx,
                w.fs,
                w.mem,
                word_of(c.a0),
                c.a1,
                word_of(c.a2),
            ).0,
        ),
        !asks(
            symlinkat_spec::<V>(
                w.sh,
                w.ctx,
                w.fs,
                w.mem,
                word_of(c.a0),
                c.a1,
                word_of(c.a2),
            ).2,
        ),
{
}

proof fn lemma_fchmodat_rules<V: Vfs>(
    w: World<<V as VfsFile>::State,
    <V as VfsFile>::Handle>,
    k: ClockView,
    c: Call,
)
    ensures
        same_holdings(
            w.sh,
            fchmodat_spec::<V>(
                w.sh,
                w.ctx,
                w.fs,
                w.mem,
                c.a0,
                word_of(c.a1),
                word_of(c.a2),
            ).0,
        ),
        !asks(
            fchmodat_spec::<V>(
                w.sh,
                w.ctx,
                w.fs,
                w.mem,
                c.a0,
                word_of(c.a1),
                word_of(c.a2),
            ).2,
        ),
{
}

proof fn lemma_utimensat_rules<V: Vfs>(
    w: World<<V as VfsFile>::State,
    <V as VfsFile>::Handle>,
    k: ClockView,
    c: Call,
)
    ensures
        same_holdings(
            w.sh,
            utimensat_spec::<V>(
                w.sh,
                w.ctx,
                w.fs,
                w.mem,
                c.a0,
                word_of(c.a1),
                c.a4,
            ).0,
        ),
        !asks(
            utimensat_spec::<V>(
                w.sh,
                w.ctx,
                w.fs,
                w.mem,
                c.a0,
                word_of(c.a1),
                c.a4,
            ).2,
        ),
{
}

#[verifier::spinoff_prover]
proof fn lemma_signal_rules<V: Vfs>(
    w: World<<V as VfsFile>::State, <V as VfsFile>::Handle>,
    k: ClockView,
    c: Call,
)
    ensures
        signal_call::<V>(w, k, c) matches Some(done) ==> same_rules(w.sh, done.0.sh) && (
        w.ctx.state.charged <= w.sh.memory_used ==> fairly_charged(w, done.0)),
        signal_call::<V>(w, k, c) matches Some(done) ==> asks(done.1) ==> {
            &&& c.number == nr::BRK || c.number == nr::MMAP
            &&& w.ctx.state.charged <= w.sh.memory_used ==> asked_for(c, w.mem.len() as int)
                <= done.0.ctx.state.charged
        },
{
    reveal(signal_call);
    if c.number == nr::KILL || c.number == nr::TKILL {
        lemma_kill_rules::<V>(w, k, c);
    } else if c.number == nr::TGKILL {
        lemma_tgkill_rules::<V>(w, k, c);
    } else if c.number == nr::NANOSLEEP {
        lemma_nanosleep_rules::<V>(w, k, c);
    } else if c.number == nr::CLOCK_NANOSLEEP_TIME64 {
        lemma_clock_nanosleep_rules::<V>(w, k, c);
    } else if c.number == nr::BRK {
        lemma_brk_rules::<V>(w, k, c);
    } else if c.number == nr::MMAP {
        lemma_mmap_rules::<V>(w, k, c);
    } else if c.number == nr::PPOLL_TIME64 {
        lemma_ppoll_rules::<V>(w, k, c);
    } else if c.number == nr::PSELECT6_TIME64 {
        lemma_pselect_rules::<V>(w, k, c);
    }
}

#[verifier::spinoff_prover]
proof fn lemma_file_rules<V: Vfs>(
    w: World<<V as VfsFile>::State, <V as VfsFile>::Handle>,
    k: ClockView,
    c: Call,
)
    ensures
        file_call::<V>(w, k, c) matches Some(done) ==> same_holdings(w.sh, done.0.sh)
            && done.0.ctx.state.charged == w.ctx.state.charged && !asks(done.1),
{
    reveal(file_call);
    if c.number == nr::OPENAT {
        lemma_openat_rules::<V>(w, k, c);
    } else if c.number == nr::CLOSE {
        lemma_close_rules::<V>(w, k, c);
    } else if c.number == nr::READ {
        lemma_read_rules::<V>(w, k, c);
    } else if c.number == nr::WRITE {
        lemma_write_rules::<V>(w, k, c);
    } else if c.number == nr::READV {
        lemma_readv_asks_nothing::<V>(
            w.sh,
            w.ctx,
            w.fs,
            w.mem,
            k.realtime,
            c.a0,
            word_of(c.a1),
            vector_count(c.a2),
            0,
            0,
        );
        lemma_readv_rules::<V>(
            w.sh,
            w.ctx,
            w.fs,
            w.mem,
            k.realtime,
            c.a0,
            word_of(c.a1),
            vector_count(c.a2),
            0,
            0,
        );
    } else if c.number == nr::WRITEV {
        lemma_writev_asks_nothing::<V>(
            w.sh,
            w.ctx,
            w.fs,
            w.mem,
            c.a0,
            word_of(c.a1),
            vector_count(c.a2),
            0,
            0,
        );
        lemma_writev_rules::<V>(
            w.sh,
            w.ctx,
            w.fs,
            w.mem,
            c.a0,
            word_of(c.a1),
            vector_count(c.a2),
            0,
            0,
        );
    } else if c.number == nr::LSEEK {
        lemma_lseek_rules::<V>(w, k, c);
    } else if c.number == nr::FTRUNCATE {
        lemma_ftruncate_rules::<V>(w, k, c);
    } else if c.number == nr::DUP {
        lemma_dup_rules::<V>(w, k, c);
    } else if c.number == nr::DUP3 {
        lemma_dup3_rules::<V>(w, k, c);
    } else if c.number == nr::PIPE2 {
        lemma_pipe2_rules::<V>(w, k, c);
    } else if c.number == nr::FCNTL {
        lemma_fcntl_rules::<V>(w, k, c);
    } else if c.number == nr::IOCTL {
        lemma_ioctl_rules::<V>(w, k, c);
    } else if c.number == nr::GETDENTS64 {
        lemma_getdents_rules::<V>(w, k, c);
    }
}

#[verifier::spinoff_prover]
proof fn lemma_path_rules<V: Vfs>(
    w: World<<V as VfsFile>::State, <V as VfsFile>::Handle>,
    k: ClockView,
    c: Call,
)
    ensures
        path_call::<V>(w, k, c) matches Some(done) ==> same_holdings(w.sh, done.0.sh)
            && done.0.ctx.state.charged == w.ctx.state.charged && !asks(done.1),
{
    reveal(path_call);
    if c.number == nr::TRUNCATE {
        lemma_truncate_rules::<V>(w, k, c);
    } else if c.number == nr::CHDIR {
        lemma_chdir_rules::<V>(w, k, c);
    } else if c.number == nr::STATX {
        lemma_statx_rules::<V>(w, k, c);
    } else if c.number == nr::FACCESSAT || c.number == nr::FACCESSAT2 {
        lemma_faccessat_rules::<V>(w, k, c);
    } else if c.number == nr::READLINKAT {
        lemma_readlinkat_rules::<V>(w, k, c);
    } else if c.number == nr::MKDIRAT {
        lemma_mkdirat_rules::<V>(w, k, c);
    } else if c.number == nr::UNLINKAT {
        lemma_unlinkat_rules::<V>(w, k, c);
    } else if c.number == nr::RENAMEAT || c.number == nr::RENAMEAT2 {
        lemma_renameat_rules::<V>(w, k, c);
    } else if c.number == nr::SYMLINKAT {
        lemma_symlinkat_rules::<V>(w, k, c);
    } else if c.number == nr::FCHMODAT {
        lemma_fchmodat_rules::<V>(w, k, c);
    } else if c.number == nr::UTIMENSAT_TIME64 {
        lemma_utimensat_rules::<V>(w, k, c);
    }
}

/// Whatever a guest asks for, what the embedder decided stands: no program appears or moves, no
/// limit changes, and no terminal comes to be. Where the process has been charged no more than is
/// in use, the memory in use changes by what the process is charged, and stays within the limit.
pub proof fn law_a_guest_cannot_change_the_rules<V: Vfs>(
    w: World<<V as VfsFile>::State, <V as VfsFile>::Handle>,
    k: ClockView,
    c: Call,
)
    ensures
        same_rules(w.sh, dispatched::<V>(w, k, c).0.sh),
        w.ctx.state.charged <= w.sh.memory_used ==> fairly_charged(
            w,
            dispatched::<V>(w, k, c).0,
        ),
{
    let v = counted(w);
    lemma_process_rules::<V>(v, k, c);
    lemma_signal_rules::<V>(v, k, c);
    lemma_file_rules::<V>(v, k, c);
    lemma_path_rules::<V>(v, k, c);
    let (after, r) = handled::<V>(v, k, c);
    assert(same_rules(v.sh, after.sh));
    assert(w.ctx.state.charged <= w.sh.memory_used ==> fairly_charged(v, after));
}

/// The same of a call that goes on once the engine was asked for the memory: what the engine
/// refused is charged no longer.
pub proof fn law_refused_memory_is_given_back<V: Vfs>(
    w: World<<V as VfsFile>::State, <V as VfsFile>::Handle>,
    c: Call,
    previous: Option<u64>,
)
    requires
        w.ctx.state.charged <= w.sh.memory_used,
        c.number == nr::BRK || c.number == nr::MMAP,
        asked_for(c, w.mem.len() as int) <= w.ctx.state.charged,
    ensures
        ({
            let (after, r) = handled_grown::<V>(w, c, previous);
            let done = concluded(after, r).0;
            &&& fairly_charged(w, done)
            &&& previous is Some ==> done.sh.memory_used == w.sh.memory_used
            &&& previous is None ==> done.sh.memory_used == w.sh.memory_used - asked_for(
                c,
                w.mem.len() as int,
            )
        }),
{
    let (after, r) = handled_grown::<V>(w, c, previous);
    assert(fairly_charged(w, after));
}

#[verifier::spinoff_prover]
proof fn lemma_readv_asks_nothing<V: Vfs>(
    sh: SharedView<<V as VfsFile>::Handle>,
    ctx: CtxView,
    fs: Seq<MountView<<V as VfsFile>::State>>,
    mem: Seq<u8>,
    realtime: u128,
    fd: i32,
    vector: u32,
    count: int,
    i: int,
    total: i32,
)
    ensures
        !asks(readv_from::<V>(sh, ctx, fs, mem, realtime, fd, vector, count, i, total).3),
    decreases count - i,
{
    if i < count {
        if let Ok((at, len)) = iovec(mem, vector, i) {
            if len == 0 {
                lemma_readv_asks_nothing::<V>(
                    sh,
                    ctx,
                    fs,
                    mem,
                    realtime,
                    fd,
                    vector,
                    count,
                    i + 1,
                    total,
                );
            } else {
                let (s, f, m, r) = sys_read_spec::<V>(sh, ctx, fs, mem, realtime, fd, at, len);
                assert(!asks(r));
                if let Ok(done) = r {
                    lemma_readv_asks_nothing::<V>(
                        s,
                        ctx,
                        f,
                        m,
                        realtime,
                        fd,
                        vector,
                        count,
                        i + 1,
                        held_sum(total, done),
                    );
                }
            }
        }
    }
}

#[verifier::spinoff_prover]
proof fn lemma_writev_asks_nothing<V: Vfs>(
    sh: SharedView<<V as VfsFile>::Handle>,
    ctx: CtxView,
    fs: Seq<MountView<<V as VfsFile>::State>>,
    mem: Seq<u8>,
    fd: i32,
    vector: u32,
    count: int,
    i: int,
    total: i32,
)
    ensures
        !asks(writev_from::<V>(sh, ctx, fs, mem, fd, vector, count, i, total).2),
    decreases count - i,
{
    if i < count {
        if let Ok((at, len)) = iovec(mem, vector, i) {
            if len == 0 {
                lemma_writev_asks_nothing::<V>(sh, ctx, fs, mem, fd, vector, count, i + 1, total);
            } else {
                let (s, f, r) = sys_write_spec::<V>(sh, ctx, fs, mem, fd, at, len);
                assert(!asks(r));
                if let Ok(done) = r {
                    lemma_writev_asks_nothing::<V>(
                        s,
                        ctx,
                        f,
                        mem,
                        fd,
                        vector,
                        count,
                        i + 1,
                        held_sum(total, done),
                    );
                }
            }
        }
    }
}

/// Only `brk` and `mmap` ask for memory, and what they ask for is charged to the process before
/// the engine is asked.
pub proof fn law_what_is_asked_for_is_charged<V: Vfs>(
    w: World<<V as VfsFile>::State, <V as VfsFile>::Handle>,
    k: ClockView,
    c: Call,
)
    requires
        w.ctx.state.charged <= w.sh.memory_used,
        dispatched::<V>(w, k, c).1 is Grow,
    ensures
        c.number == nr::BRK || c.number == nr::MMAP,
        asked_for(c, w.mem.len() as int) <= dispatched::<V>(w, k, c).0.ctx.state.charged,
{
    let v = counted(w);
    lemma_process_rules::<V>(v, k, c);
    lemma_signal_rules::<V>(v, k, c);
    lemma_file_rules::<V>(v, k, c);
    lemma_path_rules::<V>(v, k, c);
    let (after, r) = handled::<V>(v, k, c);
    assert(asks(r));
}

} // verus!
