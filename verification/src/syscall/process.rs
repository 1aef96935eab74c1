//! Process lifetime, identity and accounting.
use super::base::{errno, Fault, Sys};
use super::io::{fill_random, random_bytes, seed_of, stepped};
use super::path::{put_block, write_block};
use crate::abi::{
    CLONE_VFORK, CLONE_VM, RLIMIT_CORE, RLIMIT_DATA, RLIMIT_NOFILE, RLIMIT_STACK, RLIM_INFINITY,
    SIGCHLD, WNOHANG,
};
use crate::errno::Errno;
use crate::kernel::fd::{live_descs, retained_all};
use crate::kernel::mem::{
    bytes16, bytes32, fits, le16, le32, le64, low_word, patched, put, put_u32, put_u64, set_field,
    signed, signed_of, store, stores, word, word_of, wrap, wrapped, zero, zeroed, zeros,
};
use crate::kernel::mounts::{MountView, Mounts};
use crate::kernel::state::{
    alive_count, group_of, record_at, released_all, tasks, without_pid, Clock, Ctx, CtxView, Limits,
    Shared, SharedView,
};
use crate::kernel::task::{exited, status_exited, RecordView, Task, TaskView};
use crate::vfs::{Vfs, VfsFile};
use vstd::prelude::*;
use vstd::string::*;
use vstd::utf8::encode_utf8;

verus! {

/// The process its `vfork` parent again, with the child's identity given up.
pub open spec fn back_to_parent(ctx: CtxView) -> CtxView {
    CtxView { task: ctx.vfork_stack.last(), vfork_stack: ctx.vfork_stack.drop_last(), ..ctx }
}

/// `exit`: a `vfork` child hands the instance back to its parent, which sees its pid; anything
/// else is over.
pub open spec fn exit_spec<V: Vfs>(
    sh: SharedView<<V as VfsFile>::Handle>,
    ctx: CtxView,
    fs: Seq<MountView<<V as VfsFile>::State>>,
    code: i32,
) -> (SharedView<<V as VfsFile>::Handle>, CtxView, Seq<MountView<<V as VfsFile>::State>>, Sys) {
    if ctx.vfork_stack.len() > 0 {
        let (s, f) = released_all::<V>(sh, fs, live_descs(ctx.task.fds));
        (s.with_exit(ctx.task.pid, exited(code)), back_to_parent(ctx), f, Ok(ctx.task.pid))
    } else {
        (sh, ctx, fs, Err(Fault::Exit(exited(code))))
    }
}

/// Make the `vfork` parent the process again, and hand out the child's identity.
pub fn leave_vfork(ctx: &mut Ctx, parent: Task) -> (r: Task)
    ensures
        r@ == old(ctx)@.task,
        final(ctx)@ == (CtxView { task: parent@, ..old(ctx)@ }),
{
    let mut task = parent;
    core::mem::swap(&mut ctx.task, &mut task);
    task
}

pub fn sys_exit<V: Vfs>(
    sh: &mut Shared<<V as VfsFile>::Handle>,
    ctx: &mut Ctx,
    fs: &mut Mounts<V>,
    code: i32,
) -> (r: Sys)
    requires
        old(sh)@.wf(),
        old(fs).wf(),
    ensures
        final(sh)@.wf(),
        final(fs).wf(),
        exit_spec::<V>(old(sh)@, old(ctx)@, old(fs)@, code) == (
            final(sh)@,
            final(ctx)@,
            final(fs)@,
            r,
        ),
{
    let status: i32 = status_exited(code);
    let ghost before = ctx@;
    match ctx.vfork_stack.pop() {
        Some(parent) => {
            assert(tasks(ctx.vfork_stack@) =~= before.vfork_stack.drop_last());
            let child = leave_vfork(ctx, parent);
            let pid: i32 = child.pid;
            sh.release_fds(fs, child.fds);
            sh.set_exit(pid, status);
            Ok(pid)
        },
        None => {
            assert(tasks(ctx.vfork_stack@) =~= before.vfork_stack);
            Err(Fault::Exit(status))
        },
    }
}

/// Whether `clone` is asked for what `vfork` does, and for nothing else: share memory, let the
/// parent wait, and tell it by `SIGCHLD`.
pub open spec fn is_vfork(flags: u32) -> bool {
    flags == CLONE_VFORK | CLONE_VM | (SIGCHLD as u32)
}

/// `clone`: only in the shape of `vfork`. The child takes over the instance under a pid of its
/// own, with the parent's descriptors, directory, mask and actions.
pub open spec fn clone_spec<F>(sh: SharedView<F>, ctx: CtxView, flags: u32) -> (
    SharedView<F>,
    CtxView,
    Sys,
) {
    if !is_vfork(flags) {
        (sh, ctx, errno(Errno::NOSYS))
    } else if alive_count(sh.table) >= sh.limits.processes {
        (sh, ctx, errno(Errno::AGAIN))
    } else {
        (
            SharedView {
                table: sh.table.push(sh.child_record(ctx.task)),
                descs: retained_all(sh.descs, live_descs(ctx.task.fds)),
                ..sh.with_pid()
            },
            CtxView {
                task: TaskView { pid: sh.next_pid, ..ctx.task },
                vfork_stack: ctx.vfork_stack.push(ctx.task),
                ..ctx
            },
            Ok(0),
        )
    }
}

pub fn sys_clone<F>(sh: &mut Shared<F>, ctx: &mut Ctx, flags: u32) -> (r: Sys)
    requires
        old(sh)@.wf(),
    ensures
        final(sh)@.wf(),
        clone_spec(old(sh)@, old(ctx)@, flags) == (final(sh)@, final(ctx)@, r),
{
    if flags != CLONE_VFORK | CLONE_VM | (SIGCHLD as u32) {
        return Err(Fault::Errno(Errno::NOSYS));
    }
    let ghost before = ctx@;
    let pid: i32 = match sh.fork_record(&ctx.task) {
        Some(pid) => pid,
        None => return Err(Fault::Errno(Errno::AGAIN)),
    };
    let fds = ctx.task.fds.duplicate(&mut sh.descs);
    let mut child = Task::new(pid, fds);
    child.cwd = ctx.task.cwd.clone();
    child.umask = ctx.task.umask;
    child.sigact = copy_actions(&ctx.task.sigact);
    child.sigmask = ctx.task.sigmask;
    child.exe = ctx.task.exe.clone();
    child.comm = ctx.task.comm.clone();
    core::mem::swap(&mut ctx.task, &mut child);
    ctx.vfork_stack.push(child);
    assert(tasks(ctx.vfork_stack@) =~= before.vfork_stack.push(before.task));
    Ok(0)
}

fn copy_actions(v: &Vec<crate::kernel::task::SigAction>) -> (r: Vec<crate::kernel::task::SigAction>)
    ensures
        r@ == v@,
{
    let mut out: Vec<crate::kernel::task::SigAction> = Vec::new();
    let mut i: usize = 0;
    while i < v.len()
        invariant
            i <= v@.len(),
            out@ == v@.subrange(0, i as int),
        decreases v@.len() - i,
    {
        out.push(v[i]);
        i = i + 1;
        assert(out@ =~= v@.subrange(0, i as int));
    }
    assert(v@.subrange(0, i as int) =~= v@);
    out
}

// ---------------------------------------------------------------------------------------------
// waiting

/// The process group a negative argument stands for.
pub open spec fn negated(n: i32) -> i32 {
    if n == i32::MIN {
        n
    } else {
        (-n) as i32
    }
}

/// Whether a record is a child `wait4` was asked about.
pub open spec fn is_waited_for(r: RecordView, pid: i32, pgid: i32, which: i32) -> bool {
    r.ppid == pid && if which == -1 {
        true
    } else if which == 0 {
        r.pgid == pgid
    } else if which > 0 {
        r.pid == which
    } else {
        r.pgid == negated(which)
    }
}

/// Whether there is such a child at or after `i`.
pub open spec fn has_child(
    table: Seq<RecordView>,
    pid: i32,
    pgid: i32,
    which: i32,
    i: int,
) -> bool {
    exists|j: int| i <= j < table.len() && is_waited_for(#[trigger] table[j], pid, pgid, which)
}

/// The first such child at or after `i` that has ended.
pub open spec fn dead_child(
    table: Seq<RecordView>,
    pid: i32,
    pgid: i32,
    which: i32,
    i: int,
) -> Option<int>
    decreases table.len() - i,
{
    if i >= table.len() {
        None
    } else if is_waited_for(table[i], pid, pgid, which) && table[i].exit is Some {
        Some(i)
    } else {
        dead_child(table, pid, pgid, which, i + 1)
    }
}

/// `wait4`: collect a child that has ended, or wait for one.
pub open spec fn wait4_spec<F>(
    sh: SharedView<F>,
    ctx: CtxView,
    mem: Seq<u8>,
    which: i32,
    status_at: u32,
    options: i32,
    rusage_at: u32,
) -> (SharedView<F>, Seq<u8>, Sys) {
    let pid = ctx.task.pid;
    let pgid = group_of(sh.table, pid);
    if !has_child(sh.table, pid, pgid, which, 0) {
        (sh, mem, errno(Errno::CHILD))
    } else {
        match dead_child(sh.table, pid, pgid, which, 0) {
            None => if options & WNOHANG != 0 {
                (sh, mem, Ok(0))
            } else {
                (sh, mem, Err(Fault::Block))
            },
            Some(i) => {
                let child = sh.table[i].pid;
                let status = sh.table[i].exit->0;
                let s = SharedView { table: without_pid(sh.table, child), ..sh };
                let (m1, r1) = if status_at != 0 {
                    store(mem, status_at as int, le32(word_of(status)))
                } else {
                    (mem, Ok(()))
                };
                match r1 {
                    Err(e) => (s, m1, errno(e)),
                    Ok(()) => {
                        let (m2, r2) = if rusage_at != 0 {
                            store(m1, rusage_at as int, zeros(72))
                        } else {
                            (m1, Ok(()))
                        };
                        match r2 {
                            Err(e) => (s, m2, errno(e)),
                            Ok(()) => (s, m2, Ok(child)),
                        }
                    },
                }
            },
        }
    }
}

pub fn sys_wait4<F>(
    sh: &mut Shared<F>,
    ctx: &Ctx,
    mem: &mut [u8],
    which: i32,
    status_at: u32,
    options: i32,
    rusage_at: u32,
) -> (r: Sys)
    ensures
        wait4_spec(old(sh)@, ctx@, old(mem)@, which, status_at, options, rusage_at) == (
            final(sh)@,
            final(mem)@,
            r,
        ),
        old(sh)@.wf() ==> final(sh)@.wf(),
{
    let pid: i32 = ctx.task.pid;
    let pgid: i32 = sh.group(pid);
    let ghost table = sh@.table;
    let mut any = false;
    let mut found: Option<(i32, i32)> = None;
    let mut i: usize = 0;
    while i < sh.table.len() && found.is_none()
        invariant
            i <= sh.table@.len(),
            table == sh@.table,
            sh@ == old(sh)@,
            pid == ctx@.task.pid,
            pgid == group_of(table, pid),
            any ==> has_child(table, pid, pgid, which, 0),
            !any ==> forall|j: int|
                0 <= j < i ==> !is_waited_for(#[trigger] table[j], pid, pgid, which),
            match found {
                None => dead_child(table, pid, pgid, which, 0) == dead_child(
                    table,
                    pid,
                    pgid,
                    which,
                    i as int,
                ),
                Some((child, status)) => {
                    &&& any
                    &&& dead_child(table, pid, pgid, which, 0) matches Some(k)
                    &&& 0 <= k < table.len()
                    &&& table[k].pid == child
                    &&& table[k].exit == Some(status)
                },
            },
        decreases sh.table@.len() - i,
    {
        let record = &sh.table[i];
        assert(table[i as int] == record@);
        let matches = record.ppid == pid && if which == -1 {
            true
        } else if which == 0 {
            record.pgid == pgid
        } else if which > 0 {
            record.pid == which
        } else if which == i32::MIN {
            record.pgid == which
        } else {
            record.pgid == -which
        };
        if matches {
            any = true;
            match record.exit {
                Some(status) => {
                    found = Some((record.pid, status));
                },
                None => {},
            }
        }
        i = i + 1;
    }
    if !any {
        return Err(Fault::Errno(Errno::CHILD));
    }
    let (child, status): (i32, i32) = match found {
        Some(pair) => pair,
        None => {
            return if options & WNOHANG != 0 {
                Ok(0)
            } else {
                Err(Fault::Block)
            };
        },
    };
    sh.forget(child);
    if status_at != 0 {
        match put_u32(mem, status_at, word(status)) {
            Ok(()) => {},
            Err(e) => return Err(Fault::Errno(e)),
        }
    }
    if rusage_at != 0 {
        match zero(mem, rusage_at, 72) {
            Ok(()) => {},
            Err(e) => return Err(Fault::Errno(e)),
        }
    }
    Ok(child)
}

// ---------------------------------------------------------------------------------------------
// identity

/// `getppid`.
pub open spec fn getppid_spec<F>(sh: SharedView<F>, ctx: CtxView) -> Sys {
    match record_at(sh.table, ctx.task.pid) {
        Some(i) => Ok(sh.table[i].ppid),
        None => Ok(0),
    }
}

pub fn sys_getppid<F>(sh: &Shared<F>, ctx: &Ctx) -> (r: Sys)
    ensures
        r == getppid_spec(sh@, ctx@),
{
    match sh.record(ctx.task.pid) {
        Some(i) => Ok(sh.table[i].ppid),
        None => Ok(0),
    }
}

/// Zero stands for the caller.
pub open spec fn target_of(pid: i32, own: i32) -> i32 {
    if pid == 0 {
        own
    } else {
        pid
    }
}

/// `setpgid`.
pub open spec fn setpgid_spec<F>(sh: SharedView<F>, ctx: CtxView, pid: i32, group: i32) -> (
    SharedView<F>,
    Sys,
) {
    let target = target_of(pid, ctx.task.pid);
    match record_at(sh.table, target) {
        None => (sh, errno(Errno::SRCH)),
        Some(i) => (
            SharedView {
                table: sh.table.update(
                    i,
                    RecordView { pgid: target_of(group, target), ..sh.table[i] },
                ),
                ..sh
            },
            Ok(0),
        ),
    }
}

pub fn sys_setpgid<F>(sh: &mut Shared<F>, ctx: &Ctx, pid: i32, group: i32) -> (r: Sys)
    ensures
        setpgid_spec(old(sh)@, ctx@, pid, group) == (final(sh)@, r),
{
    let ghost before = sh@;
    let target: i32 = if pid == 0 {
        ctx.task.pid
    } else {
        pid
    };
    let group: i32 = if group == 0 {
        target
    } else {
        group
    };
    match sh.record(target) {
        None => Err(Fault::Errno(Errno::SRCH)),
        Some(i) => {
            sh.table[i].pgid = group;
            assert(sh@.table =~= before.table.update(
                i as int,
                RecordView { pgid: group, ..before.table[i as int] },
            ));
            Ok(0)
        },
    }
}

/// `getpgid` and `getsid`.
pub open spec fn getpgid_spec<F>(sh: SharedView<F>, ctx: CtxView, pid: i32) -> Sys {
    match record_at(sh.table, target_of(pid, ctx.task.pid)) {
        None => errno(Errno::SRCH),
        Some(i) => Ok(sh.table[i].pgid),
    }
}

pub fn sys_getpgid<F>(sh: &Shared<F>, ctx: &Ctx, pid: i32) -> (r: Sys)
    ensures
        r == getpgid_spec(sh@, ctx@, pid),
{
    let target: i32 = if pid == 0 {
        ctx.task.pid
    } else {
        pid
    };
    match sh.record(target) {
        None => Err(Fault::Errno(Errno::SRCH)),
        Some(i) => Ok(sh.table[i].pgid),
    }
}

pub open spec fn getsid_spec<F>(sh: SharedView<F>, ctx: CtxView, pid: i32) -> Sys {
    match record_at(sh.table, target_of(pid, ctx.task.pid)) {
        None => errno(Errno::SRCH),
        Some(i) => Ok(sh.table[i].sid),
    }
}

pub fn sys_getsid<F>(sh: &Shared<F>, ctx: &Ctx, pid: i32) -> (r: Sys)
    ensures
        r == getsid_spec(sh@, ctx@, pid),
{
    let target: i32 = if pid == 0 {
        ctx.task.pid
    } else {
        pid
    };
    match sh.record(target) {
        None => Err(Fault::Errno(Errno::SRCH)),
        Some(i) => Ok(sh.table[i].sid),
    }
}

/// `setsid`.
pub open spec fn setsid_spec<F>(sh: SharedView<F>, ctx: CtxView) -> (SharedView<F>, Sys) {
    let pid = ctx.task.pid;
    match record_at(sh.table, pid) {
        None => (sh, errno(Errno::SRCH)),
        Some(i) => (
            SharedView {
                table: sh.table.update(i, RecordView { pgid: pid, sid: pid, ..sh.table[i] }),
                ..sh
            },
            Ok(pid),
        ),
    }
}

pub fn sys_setsid<F>(sh: &mut Shared<F>, ctx: &Ctx) -> (r: Sys)
    ensures
        setsid_spec(old(sh)@, ctx@) == (final(sh)@, r),
{
    let ghost before = sh@;
    let pid: i32 = ctx.task.pid;
    match sh.record(pid) {
        None => Err(Fault::Errno(Errno::SRCH)),
        Some(i) => {
            sh.table[i].pgid = pid;
            sh.table[i].sid = pid;
            assert(sh@.table =~= before.table.update(
                i as int,
                RecordView { pgid: pid, sid: pid, ..before.table[i as int] },
            ));
            Ok(pid)
        },
    }
}

/// `umask`: the old mask, and the permission bits of the new one.
pub fn sys_umask(ctx: &mut Ctx, mask: u32) -> (r: Sys)
    ensures
        r == Ok::<i32, Fault>(signed_of(old(ctx)@.task.umask)),
        final(ctx)@ == (CtxView {
            task: TaskView { umask: mask & 0x1ff, ..old(ctx)@.task },
            ..old(ctx)@
        }),
{
    let previous: u32 = ctx.task.umask;
    ctx.task.umask = mask & 0x1ff;
    Ok(signed(previous))
}

// ---------------------------------------------------------------------------------------------
// accounting

/// `sched_getaffinity`: one processor.
pub open spec fn affinity_spec(mem: Seq<u8>, at: i32) -> (Seq<u8>, Sys) {
    if at >= 8 {
        match store(mem, at as int, le64(1)) {
            (m, Err(e)) => (m, errno(e)),
            (m, Ok(())) => (m, Ok(8)),
        }
    } else {
        (mem, Ok(8))
    }
}

pub fn sys_affinity(mem: &mut [u8], at: i32) -> (r: Sys)
    ensures
        affinity_spec(old(mem)@, at) == (final(mem)@, r),
{
    if at >= 8 {
        match put_u64(mem, word(at), 1) {
            Ok(()) => {},
            Err(e) => return Err(Fault::Errno(e)),
        }
    }
    Ok(8)
}

/// A block with the bytes of a text in it, if they fit.
pub open spec fn with_text(block: Seq<u8>, at: int, text: Seq<char>) -> Seq<u8> {
    let bytes = encode_utf8(text);
    if at + bytes.len() <= block.len() {
        patched(block, at, bytes)
    } else {
        block
    }
}

fn set_text(block: &mut Vec<u8>, at: usize, text: &str)
    requires
        at <= old(block)@.len(),
    ensures
        final(block)@ == with_text(old(block)@, at as int, text@),
{
    let bytes = text.as_bytes_vec();
    if bytes.len() <= block.len() - at {
        set_field(block, at, &bytes);
    }
}

/// The `uname` block: six fields of sixty-five bytes.
pub open spec fn uname_block() -> Seq<u8> {
    let b0 = with_text(zeros(390), 0, "Linux"@);
    let b1 = with_text(b0, 65, "wasmux"@);
    let b2 = with_text(b1, 130, "6.1.0-wasmux"@);
    let b3 = with_text(b2, 195, "#1 wasmux"@);
    let b4 = with_text(b3, 260, "wasm32"@);
    with_text(b4, 325, "(none)"@)
}

/// `uname`.
pub fn sys_uname(mem: &mut [u8], at: u32) -> (r: Sys)
    ensures
        put_block(old(mem)@, at, uname_block()) == (final(mem)@, r),
{
    let mut block = zeroed(390);
    set_text(&mut block, 0, "Linux");
    set_text(&mut block, 65, "wasmux");
    set_text(&mut block, 130, "6.1.0-wasmux");
    set_text(&mut block, 195, "#1 wasmux");
    set_text(&mut block, 260, "wasm32");
    set_text(&mut block, 325, "(none)");
    write_block(mem, at, &block)
}

/// The `sysinfo` block: uptime, memory, processes and the unit of memory.
pub open spec fn sysinfo_block<F>(sh: SharedView<F>, elapsed: u128) -> Seq<u8> {
    let total: u32 = if sh.limits.memory < u32::MAX {
        sh.limits.memory as u32
    } else {
        u32::MAX
    };
    let free: u32 = if sh.memory_used < total {
        (total - sh.memory_used) as u32
    } else {
        0
    };
    let b0 = patched(zeros(64), 0, le32((elapsed / 1_000_000_000 % 0x1_0000_0000) as u32));
    let b1 = patched(b0, 16, le32(total));
    let b2 = patched(b1, 20, le32(free));
    let b3 = patched(b2, 52, le32(1));
    patched(b3, 40, le16((alive_count(sh.table) as int % 65536) as u16))
}

/// `sysinfo`.
pub fn sys_sysinfo<F>(sh: &Shared<F>, mem: &mut [u8], clock: &Clock, at: u32) -> (r: Sys)
    ensures
        put_block(old(mem)@, at, sysinfo_block(sh@, clock.elapsed)) == (final(mem)@, r),
{
    let total: u32 = if sh.limits.memory < u32::MAX as u64 {
        sh.limits.memory as u32
    } else {
        u32::MAX
    };
    let free: u32 = if sh.memory_used < total as u64 {
        total - sh.memory_used as u32
    } else {
        0
    };
    let processes: u16 = (sh.alive() % 65536) as u16;
    let mut block = zeroed(64);
    set_field(
        &mut block,
        0,
        &bytes32((clock.elapsed / 1_000_000_000 % 0x1_0000_0000) as u32),
    );
    set_field(&mut block, 16, &bytes32(total));
    set_field(&mut block, 20, &bytes32(free));
    set_field(&mut block, 52, &bytes32(1));
    set_field(&mut block, 40, &bytes16(processes));
    write_block(mem, at, &block)
}

/// The soft and hard limit on a resource.
pub open spec fn rlimit(limits: Limits, resource: i32) -> (u64, u64) {
    if resource == RLIMIT_NOFILE {
        (limits.open_files as u64, limits.open_files as u64)
    } else if resource == RLIMIT_STACK {
        (0x10_0000, 0x10_0000)
    } else if resource == RLIMIT_CORE {
        (0, RLIM_INFINITY)
    } else if resource == RLIMIT_DATA {
        (limits.memory_per_process, limits.memory_per_process)
    } else {
        (RLIM_INFINITY, RLIM_INFINITY)
    }
}

/// `prlimit64`: limits can be read, and are not changed.
pub open spec fn prlimit_spec(limits: Limits, mem: Seq<u8>, resource: i32, at: u32) -> (
    Seq<u8>,
    Sys,
) {
    if at == 0 {
        (mem, Ok(0))
    } else {
        let (soft, hard) = rlimit(limits, resource);
        match stores(
            mem,
            seq![(at as int, le64(soft)), (wrapped(at, 8) as int, le64(hard))],
        ) {
            (m, Err(e)) => (m, errno(e)),
            (m, Ok(())) => (m, Ok(0)),
        }
    }
}

pub fn sys_prlimit(limits: &Limits, mem: &mut [u8], resource: i32, at: u32) -> (r: Sys)
    ensures
        prlimit_spec(*limits, old(mem)@, resource, at) == (final(mem)@, r),
{
    if at == 0 {
        return Ok(0);
    }
    let (soft, hard): (u64, u64) = match resource {
        RLIMIT_NOFILE => (limits.open_files as u64, limits.open_files as u64),
        RLIMIT_STACK => (0x10_0000, 0x10_0000),
        RLIMIT_CORE => (0, RLIM_INFINITY),
        RLIMIT_DATA => (limits.memory_per_process, limits.memory_per_process),
        _ => (RLIM_INFINITY, RLIM_INFINITY),
    };
    proof {
        reveal_with_fuel(stores, 3);
    }
    match put_u64(mem, at, soft) {
        Ok(()) => {},
        Err(e) => return Err(Fault::Errno(e)),
    }
    match put_u64(mem, wrap(at, 8), hard) {
        Ok(()) => Ok(0),
        Err(e) => Err(Fault::Errno(e)),
    }
}

/// `getrusage`: nothing is accounted.
pub fn sys_getrusage(mem: &mut [u8], at: u32) -> (r: Sys)
    ensures
        put_block(old(mem)@, at, zeros(72)) == (final(mem)@, r),
{
    match zero(mem, at, 72) {
        Ok(()) => Ok(0),
        Err(e) => Err(Fault::Errno(e)),
    }
}

/// `times`: the time since the session started, in hundredths of a second.
pub open spec fn times_spec(mem: Seq<u8>, elapsed: u128, at: u32) -> (Seq<u8>, Sys) {
    let (m, r) = if at != 0 {
        store(mem, at as int, zeros(16))
    } else {
        (mem, Ok(()))
    };
    match r {
        Err(e) => (m, errno(e)),
        Ok(()) => (m, Ok(low_word(elapsed as int / 10_000_000))),
    }
}

pub fn sys_times(mem: &mut [u8], clock: &Clock, at: u32) -> (r: Sys)
    ensures
        times_spec(old(mem)@, clock.elapsed, at) == (final(mem)@, r),
{
    if at != 0 {
        match zero(mem, at, 16) {
            Ok(()) => {},
            Err(e) => return Err(Fault::Errno(e)),
        }
    }
    Ok(signed((clock.elapsed / 10_000_000 % 0x1_0000_0000) as u32))
}

/// `getrandom`.
pub open spec fn getrandom_spec<F>(
    sh: SharedView<F>,
    mem: Seq<u8>,
    realtime: u128,
    at: u32,
    len: u32,
) -> (SharedView<F>, Seq<u8>, Sys) {
    if !fits(mem, at as int, len as int) {
        (sh, mem, errno(Errno::FAULT))
    } else {
        let seed = seed_of(sh.random, realtime);
        (
            SharedView { random: stepped(seed, len as nat), ..sh },
            patched(mem, at as int, random_bytes(seed, len as nat)),
            Ok(signed_of(len)),
        )
    }
}

pub fn sys_getrandom<F>(
    sh: &mut Shared<F>,
    mem: &mut [u8],
    clock: &Clock,
    at: u32,
    len: u32,
) -> (r: Sys)
    ensures
        getrandom_spec(old(sh)@, old(mem)@, clock.realtime, at, len) == (
            final(sh)@,
            final(mem)@,
            r,
        ),
{
    let size: usize = mem.len();
    if at as usize > size || len as usize > size - at as usize {
        return Err(Fault::Errno(Errno::FAULT));
    }
    let data = fill_random(sh, clock, len as usize);
    match put(mem, at, data.as_slice()) {
        Ok(()) => Ok(signed(len)),
        Err(e) => {
            assert(false);
            Err(Fault::Errno(e))
        },
    }
}

} // verus!
