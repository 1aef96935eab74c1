//! Processes and their children: how they begin, end and are waited for, and the groups they
//! are in.
use super::plain::{lemma_patched_word, same_but, word_in};
use super::signals::{in_set, is_record, lemma_in_set, lemma_is_record};
use crate::errno::Errno;
use crate::kernel::mem::word_of;
use crate::kernel::mounts::MountView;
use crate::kernel::state::{exited_table, reparented, without_pid, CtxView, SharedView};
use crate::kernel::task::{exited, law_raise_adds_one_signal, signaled, RecordView, TaskView};
use crate::syscall::base::{errno, Fault, Sys};
use crate::syscall::process::{
    clone_spec, dead_child, exit_spec, getpgid_spec, getppid_spec, getsid_spec, is_waited_for,
    setpgid_spec, setsid_spec, wait4_spec,
};
use crate::vfs::{Vfs, VfsFile};
use vstd::prelude::*;

verus! {

// ---------------------------------------------------------------------------------------------
// waiting for a child

/// Whether a process is a child that `wait4` is asked about: any, one of the caller's group, a
/// certain one, or one of a certain group.
pub open spec fn awaited(r: RecordView, me: i32, group: i32, which: i32) -> bool {
    &&& r.ppid == me
    &&& which == 0 ==> r.pgid == group
    &&& which > 0 ==> r.pid == which
    &&& which < -1 ==> r.pgid == -which
}

proof fn lemma_dead_child(table: Seq<RecordView>, me: i32, group: i32, which: i32, i: int)
    requires
        0 <= i,
        which > i32::MIN,
    ensures
        match dead_child(table, me, group, which, i) {
            Some(j) => {
                &&& i <= j < table.len()
                &&& awaited(table[j], me, group, which)
                &&& table[j].exit is Some
                &&& forall|k: int|
                    i <= k < j ==> !(awaited(#[trigger] table[k], me, group, which) && table[k].exit
                        is Some)
            },
            None => forall|k: int|
                i <= k < table.len() ==> !(awaited(#[trigger] table[k], me, group, which)
                    && table[k].exit is Some),
        },
    decreases table.len() - i,
{
    if i < table.len() {
        lemma_dead_child(table, me, group, which, i + 1);
    }
}

pub proof fn lemma_without_pid(table: Seq<RecordView>, pid: i32)
    ensures
        forall|k: int|
            0 <= k < without_pid(table, pid).len() ==> (#[trigger] without_pid(table, pid)[k]).pid
                != pid,
        forall|r: RecordView|
            r.pid != pid ==> (without_pid(table, pid).contains(r) <==> #[trigger] table.contains(r)),
    decreases table.len(),
{
    if table.len() > 0 {
        let front = table.drop_last();
        lemma_without_pid(front, pid);
        let rest = without_pid(front, pid);
        let all = without_pid(table, pid);
        assert forall|r: RecordView| r.pid != pid implies (all.contains(r)
            <==> #[trigger] table.contains(r)) by {
            assert(front.contains(r) <==> rest.contains(r));
            if all.contains(r) {
                let k = choose|k: int| 0 <= k < all.len() && all[k] == r;
                if k < rest.len() {
                    assert(rest[k] == r);
                    let j = choose|j: int| 0 <= j < front.len() && front[j] == r;
                    assert(table[j] == r);
                } else {
                    assert(table[table.len() - 1] == r);
                }
            }
            if table.contains(r) {
                let j = choose|j: int| 0 <= j < table.len() && table[j] == r;
                if j < front.len() {
                    assert(front[j] == r);
                    let k = choose|k: int| 0 <= k < rest.len() && rest[k] == r;
                    assert(all[k] == r);
                } else {
                    assert(all[rest.len() as int] == r);
                }
            }
        }
    }
}

/// `wait4` collects the first child it is asked about that has ended: it stores the child's
/// status, returns its number, and forgets it and no other. Where there is no such child at
/// all it fails; where none of them has ended it waits, or returns nothing if it was told not
/// to wait; then nothing changes.
pub proof fn law_wait4_collects_a_child_that_ended<F>(
    sh: SharedView<F>,
    ctx: CtxView,
    mem: Seq<u8>,
    which: i32,
    status_at: u32,
    options: i32,
    mine: int,
)
    requires
        is_record(sh.table, ctx.task.pid, mine),
        which > i32::MIN,
        status_at + 4 <= mem.len(),
        status_at > 0,
    ensures
        ({
            let (s, m, r) = wait4_spec(sh, ctx, mem, which, status_at, options, 0);
            let me = ctx.task.pid;
            let group = sh.table[mine].pgid;
            let any = exists|i: int|
                0 <= i < sh.table.len() && awaited(#[trigger] sh.table[i], me, group, which);
            let dead = exists|i: int|
                0 <= i < sh.table.len() && awaited(#[trigger] sh.table[i], me, group, which)
                    && sh.table[i].exit is Some;
            &&& !any ==> r == errno::<i32>(Errno::CHILD) && s == sh && m == mem
            &&& any && !dead ==> s == sh && m == mem && r == if options & 1 != 0 {
                Sys::Ok(0)
            } else {
                Sys::Err(Fault::Block)
            }
            &&& dead ==> exists|i: int|
                {
                    &&& 0 <= i < sh.table.len()
                    &&& awaited(#[trigger] sh.table[i], me, group, which)
                    &&& sh.table[i].exit matches Some(status)
                    &&& r == Sys::Ok(sh.table[i].pid)
                    &&& word_in(m, status_at as int) == if status < 0 {
                        status + 0x1_0000_0000
                    } else {
                        status as int
                    }
                    &&& same_but(mem, m, status_at as int, 4)
                    &&& forall|k: int|
                        0 <= k < i ==> !(awaited(#[trigger] sh.table[k], me, group, which)
                            && sh.table[k].exit is Some)
                    &&& forall|k: int|
                        0 <= k < s.table.len() ==> (#[trigger] s.table[k]).pid != sh.table[i].pid
                    &&& forall|x: RecordView|
                        x.pid != sh.table[i].pid ==> (s.table.contains(x)
                            <==> #[trigger] sh.table.contains(x))
                }
        }),
{
    let me = ctx.task.pid;
    let group = sh.table[mine].pgid;
    lemma_is_record(sh.table, me, mine);
    lemma_dead_child(sh.table, me, group, which, 0);
    assert forall|k: int| 0 <= k < sh.table.len() implies is_waited_for(
        #[trigger] sh.table[k],
        me,
        group,
        which,
    ) == awaited(sh.table[k], me, group, which) by {}
    match dead_child(sh.table, me, group, which, 0) {
        None => {},
        Some(i) => {
            lemma_without_pid(sh.table, sh.table[i].pid);
            lemma_patched_word(mem, status_at as int, word_of(sh.table[i].exit->0));
            assert(awaited(sh.table[i], me, group, which));
        },
    }
}

// ---------------------------------------------------------------------------------------------
// the end of a process

/// A process that ends with a code has the low byte of the code in the second byte of its
/// status and nothing else in it; one that a signal ends has the signal's number in the first.
pub proof fn law_a_status_tells_how_a_process_ended(code: i32, signal: i32)
    requires
        0 < signal < 64,
    ensures
        exited(code) % 256 == 0,
        exited(code) / 256 == code as int % 256,
        signaled(signal) == signal,
{
}

/// `exit` ends a process with its code; in a vfork child it ends the child alone and goes on
/// in the parent, which is as it was when it made the child and gets the child's number.
pub proof fn law_exit_ends_the_caller<V: Vfs>(
    sh: SharedView<<V as VfsFile>::Handle>,
    ctx: CtxView,
    fs: Seq<MountView<<V as VfsFile>::State>>,
    code: i32,
)
    ensures
        ({
            let (s, c, f, r) = exit_spec::<V>(sh, ctx, fs, code);
            &&& ctx.vfork_stack.len() == 0 ==> r == Sys::Err(
                Fault::Exit((256 * (code as int % 256)) as i32),
            ) && s == sh && c == ctx
            &&& ctx.vfork_stack.len() > 0 ==> {
                &&& r == Sys::Ok(ctx.task.pid)
                &&& c.task == ctx.vfork_stack.last()
                &&& c.vfork_stack == ctx.vfork_stack.drop_last()
            }
        }),
{
}

/// When a process ends its record keeps how, its parent gets the signal that says so, and its
/// own children become those of the first process. Nothing else changes in any record.
pub proof fn law_the_end_of_a_process_is_told_to_its_parent(
    table: Seq<RecordView>,
    pid: i32,
    status: i32,
    i: int,
    j: int,
    k: int,
    s: i32,
)
    requires
        is_record(table, pid, i),
        table[i].exit is None,
        table[i].ppid != pid,
        is_record(table, table[i].ppid, j),
        table[j].exit is None,
        0 <= k < table.len(),
        0 < s < 64,
    ensures
        ({
            let after = exited_table(table, pid, status);
            &&& after.len() == table.len()
            &&& after[i].exit == Some(status)
            &&& after[k].ppid == if table[k].ppid == pid {
                1
            } else {
                table[k].ppid
            }
            &&& k != i ==> after[k].exit == table[k].exit && after[k].wake_at == table[k].wake_at
            &&& in_set(after[k].pending, s) == (in_set(table[k].pending, s) || (k == j && s == 17))
            &&& after[k].pid == table[k].pid && after[k].pgid == table[k].pgid && after[k].sid
                == table[k].sid && after[k].comm == table[k].comm
        }),
{
    lemma_is_record(table, pid, i);
    let marked = table.update(i, crate::kernel::state::ended(table[i], status));
    let orphaned = reparented(marked, pid);
    assert(is_record(orphaned, table[i].ppid, j)) by {
        assert forall|n: int| 0 <= n < j implies (#[trigger] orphaned[n]).pid != table[i].ppid by {
            assert(table[n].pid != table[i].ppid);
        }
    }
    lemma_is_record(orphaned, table[i].ppid, j);
    law_raise_adds_one_signal(orphaned[j], 17, s);
    lemma_in_set(orphaned[j].pending, s);
    lemma_in_set(orphaned[j].raised(17).pending, s);
}

/// What nobody waits for is forgotten: a process without a living parent leaves no record.
pub proof fn law_a_process_without_a_parent_is_forgotten(
    table: Seq<RecordView>,
    pid: i32,
    status: i32,
    i: int,
    k: int,
)
    requires
        is_record(table, pid, i),
        forall|n: int| 0 <= n < table.len() ==> (#[trigger] table[n]).pid != table[i].ppid,
        0 <= k < exited_table(table, pid, status).len(),
    ensures
        exited_table(table, pid, status)[k].pid != pid,
{
    lemma_is_record(table, pid, i);
    let marked = table.update(i, crate::kernel::state::ended(table[i], status));
    let orphaned = reparented(marked, pid);
    assert forall|n: int| 0 <= n < orphaned.len() implies (#[trigger] orphaned[n]).pid
        != table[i].ppid by {
        assert(table[n].pid != table[i].ppid);
    }
    lemma_no_record(orphaned, table[i].ppid, 0);
    lemma_without_pid(orphaned, pid);
}

proof fn lemma_no_record(table: Seq<RecordView>, pid: i32, i: int)
    requires
        0 <= i,
        forall|n: int| 0 <= n < table.len() ==> (#[trigger] table[n]).pid != pid,
    ensures
        crate::kernel::state::record_from(table, pid, i) is None,
    decreases table.len() - i,
{
    if i < table.len() {
        lemma_no_record(table, pid, i + 1);
    }
}

// ---------------------------------------------------------------------------------------------
// the beginning of a process

/// A vfork child is a process with a number of its own, a child of its parent in the same
/// group and session, with nothing pending; it starts with everything its parent has, and the
/// parent is kept as it is. The next one gets the next number.
pub proof fn law_a_vfork_child_is_like_its_parent<F>(
    sh: SharedView<F>,
    ctx: CtxView,
    flags: u32,
    i: int,
)
    requires
        is_record(sh.table, ctx.task.pid, i),
        sh.next_pid < i32::MAX,
        clone_spec(sh, ctx, flags).2 is Ok,
    ensures
        ({
            let (s, c, r) = clone_spec(sh, ctx, flags);
            let child = s.table.last();
            &&& flags == 0x4000 + 0x100 + 17
            &&& r == Sys::Ok(0)
            &&& s.table.drop_last() == sh.table
            &&& child.pid == sh.next_pid
            &&& child.ppid == ctx.task.pid
            &&& child.pgid == sh.table[i].pgid
            &&& child.sid == sh.table[i].sid
            &&& child.pending == 0
            &&& child.exit is None
            &&& child.wake_at is None
            &&& c.task == (TaskView { pid: sh.next_pid, ..ctx.task })
            &&& c.vfork_stack == ctx.vfork_stack.push(ctx.task)
            &&& s.next_pid == sh.next_pid + 1
        }),
{
    lemma_is_record(sh.table, ctx.task.pid, i);
    assert((0x4000u32 | 0x100u32) | 17u32 == 0x4111u32) by (bit_vector);
    let s = clone_spec(sh, ctx, flags).0;
    assert(s.table.drop_last() =~= sh.table);
}

// ---------------------------------------------------------------------------------------------
// groups and sessions

/// The group that was set is the group that is told, of the process it was set for, and of no
/// other. Zero stands for the caller, and as a group for the process itself.
pub proof fn law_the_group_that_was_set_is_told<F>(
    sh: SharedView<F>,
    ctx: CtxView,
    pid: i32,
    group: i32,
    i: int,
    k: int,
)
    requires
        is_record(
            sh.table,
            if pid == 0 {
                ctx.task.pid
            } else {
                pid
            },
            i,
        ),
        0 <= k < sh.table.len(),
    ensures
        ({
            let (s, r) = setpgid_spec(sh, ctx, pid, group);
            let target = if pid == 0 {
                ctx.task.pid
            } else {
                pid
            };
            let set = if group == 0 {
                target
            } else {
                group
            };
            &&& r == Sys::Ok(0)
            &&& getpgid_spec(s, ctx, pid) == Sys::Ok(set)
            &&& getpgid_spec(s, ctx, target) == Sys::Ok(set) || target == 0
            &&& s.table[k] == (RecordView {
                pgid: if k == i {
                    set
                } else {
                    sh.table[k].pgid
                },
                ..sh.table[k]
            })
        }),
{
    let target = if pid == 0 {
        ctx.task.pid
    } else {
        pid
    };
    lemma_is_record(sh.table, target, i);
    let s = setpgid_spec(sh, ctx, pid, group).0;
    assert(is_record(s.table, target, i)) by {
        assert forall|n: int| 0 <= n < i implies (#[trigger] s.table[n]).pid != target by {
            assert(sh.table[n].pid != target);
        }
    }
    lemma_is_record(s.table, target, i);
}

/// `setsid` makes the caller the first of a session and of a group of its own.
pub proof fn law_a_new_session_is_the_callers_own<F>(sh: SharedView<F>, ctx: CtxView, i: int, k: int)
    requires
        is_record(sh.table, ctx.task.pid, i),
        0 <= k < sh.table.len(),
    ensures
        ({
            let (s, r) = setsid_spec(sh, ctx);
            let me = ctx.task.pid;
            &&& r == Sys::Ok(me)
            &&& getsid_spec(s, ctx, 0) == Sys::Ok(me)
            &&& getpgid_spec(s, ctx, 0) == Sys::Ok(me)
            &&& getppid_spec(s, ctx) == Sys::Ok(sh.table[i].ppid)
            &&& k != i ==> s.table[k] == sh.table[k]
        }),
{
    let me = ctx.task.pid;
    lemma_is_record(sh.table, me, i);
    let s = setsid_spec(sh, ctx).0;
    assert(is_record(s.table, me, i)) by {
        assert forall|n: int| 0 <= n < i implies (#[trigger] s.table[n]).pid != me by {
            assert(sh.table[n].pid != me);
        }
    }
    lemma_is_record(s.table, me, i);
}

} // verus!
