//! Whose turn it is, and what becomes of a process that has ended.
use super::fd::{live_descs, FdTable};
use super::mem::Nanos;
use super::mounts::{MountView, Mounts};
use super::run::{
    min_count, Body, Idle, Kernel, KernelView, Pass, Pick, PickView, ProcStep, ProcView, Slice,
};
use super::state::{released_all, tasks, Budget, SharedView};
use super::task::{signaled, status_signaled, RecordView, TaskView};
use crate::abi::SIGKILL;
use crate::syscall::process::leave_vfork;
use crate::syscall::time::LAST_MOMENT;
use crate::vfs::{Vfs, VfsFile};
use vstd::prelude::*;

verus! {

// ---------------------------------------------------------------------------------------------
// ending

/// The `vfork` children still inside an instance die with it, innermost first.
pub open spec fn children_ended<V: Vfs>(
    sh: SharedView<<V as VfsFile>::Handle>,
    fs: Seq<MountView<<V as VfsFile>::State>>,
    task: TaskView,
    stack: Seq<TaskView>,
) -> (SharedView<<V as VfsFile>::Handle>, Seq<MountView<<V as VfsFile>::State>>, TaskView)
    decreases stack.len(),
{
    if stack.len() == 0 {
        (sh, fs, task)
    } else {
        let (s, f) = released_all::<V>(sh, fs, live_descs(task.fds));
        children_ended::<V>(
            s.with_exit(task.pid, signaled(SIGKILL)),
            f,
            stack.last(),
            stack.drop_last(),
        )
    }
}

/// Tearing a dead process down: its memory and descriptors are released, its status recorded
/// and its parent told. The first process, or the last one, decides how the session ended.
pub open spec fn torn_down<V: Vfs>(
    k: KernelView<<V as VfsFile>::Handle>,
    fs: Seq<MountView<<V as VfsFile>::State>>,
    index: int,
    status: i32,
) -> (KernelView<<V as VfsFile>::Handle>, Seq<MountView<<V as VfsFile>::State>>) {
    if !(0 <= index < k.procs.len()) {
        (k, fs)
    } else {
        let p = k.procs[index];
        let procs = k.procs.remove(index);
        let (s1, f1, task) = children_ended::<V>(
            k.shared.refunded(p.ctx.state.charged),
            fs,
            p.ctx.task,
            p.ctx.vfork_stack,
        );
        let (s2, f2) = released_all::<V>(s1, f1, live_descs(task.fds));
        (
            KernelView {
                shared: s2.with_exit(task.pid, status),
                procs,
                exit_status: if k.exit_status is None && (task.pid == 1 || procs.len() == 0) {
                    Some(status)
                } else {
                    k.exit_status
                },
                ..k
            },
            f2,
        )
    }
}

/// Every process torn down, the first in the list first.
pub open spec fn all_torn_down<V: Vfs>(
    k: KernelView<<V as VfsFile>::Handle>,
    fs: Seq<MountView<<V as VfsFile>::State>>,
    status: i32,
) -> (KernelView<<V as VfsFile>::Handle>, Seq<MountView<<V as VfsFile>::State>>)
    decreases k.procs.len(),
{
    if k.procs.len() == 0 {
        (
            KernelView {
                exit_status: if k.exit_status is None {
                    Some(status)
                } else {
                    k.exit_status
                },
                ..k
            },
            fs,
        )
    } else {
        let (next, f) = torn_down::<V>(k, fs, 0, status);
        all_torn_down::<V>(next, f, status)
    }
}

/// The earliest moment a process wants to be woken, among the first `n` records.
pub open spec fn earliest_wake(table: Seq<RecordView>, n: int) -> Option<Nanos>
    decreases n,
{
    if n <= 0 {
        None
    } else {
        let rest = earliest_wake(table, n - 1);
        match (rest, table[n - 1].wake_at) {
            (Some(a), Some(b)) => if a <= b {
                Some(a)
            } else {
                Some(b)
            },
            (None, Some(b)) => Some(b),
            (rest, None) => rest,
        }
    }
}

/// Why nothing ran, and the kernel once that is told: what was waited for is waited for no
/// longer.
pub open spec fn idle_because<F>(k: KernelView<F>) -> (KernelView<F>, Idle) {
    let sh = k.shared;
    if sh.vfs_pending {
        (KernelView { shared: SharedView { vfs_pending: false, ..sh }, ..k }, Idle::Vfs)
    } else if sh.host_pending {
        (KernelView { shared: SharedView { host_pending: false, ..sh }, ..k }, Idle::Host)
    } else {
        (
            k,
            match earliest_wake(sh.table, sh.table.len() as int) {
                Some(when) => Idle::Until(when),
                None => if sh.stdin.wanted && !sh.stdin.closed {
                    Idle::Stdin
                } else {
                    Idle::Deadlock
                },
            },
        )
    }
}

// ---------------------------------------------------------------------------------------------
// picking

/// The first process at or after `i` that is not parked, or the end of the list.
pub open spec fn next_unparked(procs: Seq<ProcView>, i: int) -> int
    decreases procs.len() - i,
{
    if i >= procs.len() || !procs[i].parked {
        i
    } else {
        next_unparked(procs, i + 1)
    }
}

/// Whether the session has used up its time. A limit no clock can reach is none.
pub open spec fn out_of_time(limit: Option<Nanos>, elapsed: Nanos) -> bool {
    limit matches Some(l) && l <= LAST_MOMENT && elapsed >= l
}

/// How many syscalls a slice has served.
pub open spec fn served(before: u64, now: u64) -> u64 {
    if now >= before {
        (now - before) as u64
    } else {
        0
    }
}

/// How long a slice has run.
pub open spec fn since(began: Nanos, now: Nanos) -> Nanos {
    if now >= began {
        (now - began) as Nanos
    } else {
        0
    }
}

/// What to do in the middle of a round: step the next process that may run, or, at the end,
/// report. Nothing is left to do when every process is gone, when nothing ran, or when the
/// budget is spent.
pub open spec fn scanned<F>(k: KernelView<F>, pass: Pass, elapsed: Nanos, budget: Budget) -> (
    KernelView<F>,
    Pass,
    PickView,
) {
    let i = next_unparked(k.procs, pass.index as int);
    if i < k.procs.len() {
        let p = Pass {
            index: i as usize,
            vfs_before: k.shared.vfs_pending,
            host_before: k.shared.host_pending,
            ..pass
        };
        (
            k.with_pending(false, false),
            p,
            if k.procs[i].body is Guest {
                PickView::Guest(i as usize)
            } else {
                PickView::Host(i as usize)
            },
        )
    } else if k.procs.len() == 0 {
        let status = match k.exit_status {
            Some(status) => status,
            None => 0,
        };
        (k, pass, PickView::Report(Slice::Finished(status)))
    } else if !pass.progressed {
        let (next, why) = idle_because(k);
        (next, pass, PickView::Report(Slice::Idle(why)))
    } else if budget.is_spent(
        served(pass.served_before, k.shared.syscalls),
        since(pass.began, elapsed),
    ) {
        (k, pass, PickView::Report(Slice::Budget))
    } else {
        (k, Pass { starting: true, ..pass }, PickView::Again)
    }
}

/// What to do next. Children that wait for an instance come first, then the clock is looked
/// at, then every process has its turn, and whoever still wants standard input says so again.
pub open spec fn picked<V: Vfs>(
    k: KernelView<<V as VfsFile>::Handle>,
    fs: Seq<MountView<<V as VfsFile>::State>>,
    pass: Pass,
    elapsed: Nanos,
    budget: Budget,
) -> (
    KernelView<<V as VfsFile>::Handle>,
    Seq<MountView<<V as VfsFile>::State>>,
    Pass,
    PickView,
) {
    if !pass.starting {
        let (next, p, pick) = scanned(k, pass, elapsed, budget);
        (next, fs, p, pick)
    } else if k.shared.spawn.len() > 0 {
        (
            KernelView {
                shared: SharedView { spawn: k.shared.spawn.remove(0), ..k.shared },
                ..k.handed_out()
            },
            fs,
            pass,
            PickView::Start(k.shared.spawn[0]),
        )
    } else if out_of_time(k.shared.limits.wall_clock, elapsed) {
        let (over, f) = all_torn_down::<V>(k, fs, signaled(SIGKILL));
        (over, f, pass, PickView::Report(Slice::Finished(over.exit_status->0)))
    } else {
        let (next, p, pick) = scanned(
            k.unasked(),
            Pass { starting: false, index: 0, progressed: false, ..pass },
            elapsed,
            budget,
        );
        (next, fs, p, pick)
    }
}

/// The report of a session that is over.
pub open spec fn over<F>(k: KernelView<F>) -> Option<Slice> {
    match k.exit_status {
        Some(status) => Some(Slice::Finished(status)),
        None => None,
    }
}

/// Whether a step left its process waiting for something outside the sandbox: it is still there,
/// and what it asked last answered `AGAIN`.
pub open spec fn waits_outside<F>(k: KernelView<F>, pass: Pass, step: ProcStep) -> bool {
    &&& k.shared.vfs_pending || k.shared.host_pending
    &&& step is Ran || step is Stuck
    &&& pass.index < k.procs.len()
}

/// After a step: a process that waits for something outside is parked, one that ended is torn
/// down, and the turn moves on. The session is over once its status is known.
pub open spec fn stepped<V: Vfs>(
    k: KernelView<<V as VfsFile>::Handle>,
    fs: Seq<MountView<<V as VfsFile>::State>>,
    pass: Pass,
    step: ProcStep,
) -> (
    KernelView<<V as VfsFile>::Handle>,
    Seq<MountView<<V as VfsFile>::State>>,
    Pass,
    Option<Slice>,
) {
    let i = pass.index as int;
    let k1 = if waits_outside(k, pass, step) {
        k.with_pending(
            pass.vfs_before || k.shared.vfs_pending,
            pass.host_before || k.shared.host_pending,
        ).with_proc(i, ProcView { parked: true, ..k.procs[i] })
    } else {
        k.with_pending(pass.vfs_before, pass.host_before)
    };
    let next = if pass.index < usize::MAX {
        (pass.index + 1) as usize
    } else {
        pass.index
    };
    match step {
        ProcStep::Ran => (k1, fs, Pass { progressed: true, index: next, ..pass }, over(k1)),
        ProcStep::Replaced => (k1, fs, Pass { progressed: true, index: next, ..pass }, over(k1)),
        ProcStep::Stuck => (k1, fs, Pass { index: next, ..pass }, over(k1)),
        ProcStep::Ended(status) => {
            let (k2, f2) = torn_down::<V>(k1, fs, i, status);
            (k2, f2, Pass { progressed: true, ..pass }, over(k2))
        },
    }
}

impl<F> Kernel<F> {
    /// Begin a slice. The caller has had control since the last one, so whatever a parked
    /// process was waiting on has had its chance to progress.
    pub fn begin(&mut self, elapsed: Nanos) -> (r: Pass)
        ensures
            final(self)@ == old(self)@.unparked(),
            r == (Pass {
                starting: true,
                index: 0,
                progressed: false,
                served_before: old(self)@.shared.syscalls,
                began: elapsed,
                vfs_before: false,
                host_before: false,
            }),
    {
        let ghost before = self@;
        let mut i: usize = 0;
        while i < self.procs.len()
            invariant
                i <= self.procs@.len(),
                self@ == (KernelView { procs: self@.procs, ..before }),
                self@.procs.len() == before.procs.len(),
                forall|j: int| 0 <= j < i ==> self@.procs[j] == #[trigger] before.unparked().procs[j],
                forall|j: int|
                    i <= j < before.procs.len() ==> #[trigger] self@.procs[j] == before.procs[j],
            decreases self.procs@.len() - i,
        {
            let ghost now = self@.procs;
            assert(now[i as int] == before.procs[i as int]);
            assert(now[i as int] == self.procs@[i as int]@);
            self.procs[i].parked = false;
            assert(self.procs@[i as int]@ == (ProcView { parked: false, ..now[i as int] }));
            assert(self@.procs =~= now.update(i as int, before.unparked().procs[i as int]));
            i = i + 1;
        }
        assert(self@.procs =~= before.unparked().procs);
        self.shared.vfs_pending = false;
        self.shared.host_pending = false;
        Pass {
            starting: true,
            index: 0,
            progressed: false,
            served_before: self.shared.syscalls,
            began: elapsed,
            vfs_before: false,
            host_before: false,
        }
    }

    /// Tear a dead process down: release its descriptors, record the status, wake its parent.
    pub fn finish_process<V: Vfs<Handle = F>>(
        &mut self,
        fs: &mut Mounts<V>,
        index: usize,
        status: i32,
    )
        requires
            old(self)@.wf(),
            old(fs).wf(),
        ensures
            final(self)@.wf(),
            final(fs).wf(),
            torn_down::<V>(old(self)@, old(fs)@, index as int, status) == (
                final(self)@,
                final(fs)@,
            ),
    {
        if index >= self.procs.len() {
            return ;
        }
        let ghost before = self@;
        let p = self.procs.remove(index);
        assert(self@.procs =~= before.procs.remove(index as int));
        let mut ctx = p.ctx;
        self.shared.release_memory(ctx.state.charged);
        let ghost s0 = self.shared@;
        let ghost f0 = fs@;
        let ghost procs = self@.procs;
        let ghost first = ctx@;
        loop
            invariant
                self@.wf(),
                fs.wf(),
                f0 == old(fs)@,
                self@ == (KernelView { shared: self@.shared, procs, ..before }),
                children_ended::<V>(s0, f0, first.task, first.vfork_stack) == children_ended::<V>(
                    self@.shared,
                    fs@,
                    ctx@.task,
                    ctx@.vfork_stack,
                ),
            ensures
                self@.wf(),
                fs.wf(),
                self@ == (KernelView { shared: self@.shared, procs, ..before }),
                children_ended::<V>(s0, f0, first.task, first.vfork_stack) == (
                    self@.shared,
                    fs@,
                    ctx@.task,
                ),
            decreases ctx.vfork_stack@.len(),
        {
            let ghost now = ctx@;
            match ctx.vfork_stack.pop() {
                None => {
                    break ;
                },
                Some(parent) => {
                    assert(tasks(ctx.vfork_stack@) =~= now.vfork_stack.drop_last());
                    assert(now.vfork_stack.last() == parent@);
                    let child = leave_vfork(&mut ctx, parent);
                    let pid: i32 = child.pid;
                    self.shared.release_fds(fs, child.fds);
                    self.shared.set_exit(pid, status_signaled(SIGKILL));
                },
            }
        }
        let pid: i32 = ctx.task.pid;
        let mut fds = FdTable::new();
        core::mem::swap(&mut fds, &mut ctx.task.fds);
        self.shared.release_fds(fs, fds);
        self.shared.set_exit(pid, status);
        if (pid == 1 || self.procs.len() == 0) && self.exit_status.is_none() {
            self.exit_status = Some(status);
        }
    }

    /// Tear every process down.
    pub fn kill_all<V: Vfs<Handle = F>>(&mut self, fs: &mut Mounts<V>, status: i32)
        requires
            old(self)@.wf(),
            old(fs).wf(),
        ensures
            final(self)@.wf(),
            final(fs).wf(),
            all_torn_down::<V>(old(self)@, old(fs)@, status) == (final(self)@, final(fs)@),
            final(self)@.exit_status is Some,
    {
        while self.procs.len() > 0
            invariant
                self@.wf(),
                fs.wf(),
                all_torn_down::<V>(old(self)@, old(fs)@, status) == all_torn_down::<V>(
                    self@,
                    fs@,
                    status,
                ),
            decreases self.procs@.len(),
        {
            self.finish_process(fs, 0, status);
        }
        if self.exit_status.is_none() {
            self.exit_status = Some(status);
        }
    }

    /// Nothing ran: work out what the caller has to do about it.
    pub fn why_idle(&mut self) -> (r: Idle)
        ensures
            idle_because(old(self)@) == (final(self)@, r),
    {
        if self.shared.vfs_pending {
            self.shared.vfs_pending = false;
            return Idle::Vfs;
        }
        if self.shared.host_pending {
            self.shared.host_pending = false;
            return Idle::Host;
        }
        let ghost table = self@.shared.table;
        let mut earliest: Option<Nanos> = None;
        let mut i: usize = 0;
        while i < self.shared.table.len()
            invariant
                i <= self.shared.table@.len(),
                self@ == old(self)@,
                table == self@.shared.table,
                earliest == earliest_wake(table, i as int),
            decreases self.shared.table@.len() - i,
        {
            assert(table[i as int] == self.shared.table@[i as int]@);
            match self.shared.table[i].wake_at {
                Some(when) => {
                    earliest = match earliest {
                        Some(current) => if current <= when {
                            Some(current)
                        } else {
                            Some(when)
                        },
                        None => Some(when),
                    };
                },
                None => {},
            }
            i = i + 1;
        }
        match earliest {
            Some(when) => Idle::Until(when),
            None => if self.shared.stdin.wanted && !self.shared.stdin.closed {
                Idle::Stdin
            } else {
                Idle::Deadlock
            },
        }
    }

    /// What to do in the middle of a round.
    fn scan(&mut self, pass: &mut Pass, elapsed: Nanos, budget: Budget) -> (r: Pick)
        requires
            old(self)@.wf(),
        ensures
            final(self)@.wf(),
            scanned(old(self)@, *old(pass), elapsed, budget) == (final(self)@, *final(pass), r@),
    {
        let mut i: usize = pass.index;
        while i < self.procs.len() && self.procs[i].parked
            invariant
                self@ == old(self)@,
                *pass == *old(pass),
                next_unparked(self@.procs, pass.index as int) == next_unparked(
                    self@.procs,
                    i as int,
                ),
            decreases self.procs@.len() - i,
        {
            assert(self@.procs[i as int].parked == self.procs@[i as int].parked);
            i = i + 1;
        }
        if i < self.procs.len() {
            assert(self@.procs[i as int] == self.procs@[i as int]@);
            pass.index = i;
            pass.vfs_before = self.shared.vfs_pending;
            pass.host_before = self.shared.host_pending;
            self.shared.vfs_pending = false;
            self.shared.host_pending = false;
            return match self.procs[i].body {
                Body::Guest => Pick::Guest(i),
                Body::Host { .. } => Pick::Host(i),
            };
        }
        if self.procs.len() == 0 {
            let status: i32 = match self.exit_status {
                Some(status) => status,
                None => 0,
            };
            return Pick::Report(Slice::Finished(status));
        }
        if !pass.progressed {
            return Pick::Report(Slice::Idle(self.why_idle()));
        }
        let before: u64 = pass.served_before;
        let now: u64 = self.shared.syscalls;
        let count: u64 = if now >= before {
            now - before
        } else {
            0
        };
        let ran: Nanos = if elapsed >= pass.began {
            elapsed - pass.began
        } else {
            0
        };
        if budget.spent(count, ran) {
            return Pick::Report(Slice::Budget);
        }
        pass.starting = true;
        Pick::Again
    }

    /// What to do next.
    pub fn pick<V: Vfs<Handle = F>>(
        &mut self,
        fs: &mut Mounts<V>,
        pass: &mut Pass,
        elapsed: Nanos,
        budget: Budget,
    ) -> (r: Pick)
        requires
            old(self)@.wf(),
            old(fs).wf(),
        ensures
            final(self)@.wf(),
            final(fs).wf(),
            picked::<V>(old(self)@, old(fs)@, *old(pass), elapsed, budget) == (
                final(self)@,
                final(fs)@,
                *final(pass),
                r@,
            ),
    {
        if !pass.starting {
            return self.scan(pass, elapsed, budget);
        }
        let ghost before = self@;
        if self.shared.spawn.len() > 0 {
            let spawn = self.shared.spawn.remove(0);
            assert(self@.shared.spawn =~= before.shared.spawn.remove(0));
            self.hand_out();
            return Pick::Start(spawn);
        }
        match self.shared.limits.wall_clock {
            Some(limit) => {
                if limit <= LAST_MOMENT && elapsed >= limit {
                    self.kill_all(fs, status_signaled(SIGKILL));
                    let status: i32 = match self.exit_status {
                        Some(status) => status,
                        None => 0,
                    };
                    return Pick::Report(Slice::Finished(status));
                }
            },
            None => {},
        }
        pass.starting = false;
        pass.index = 0;
        pass.progressed = false;
        self.shared.stdin.wanted = false;
        self.scan(pass, elapsed, budget)
    }

    /// Take note of how a step ended. Gives a report once the session is over.
    pub fn settle<V: Vfs<Handle = F>>(
        &mut self,
        fs: &mut Mounts<V>,
        pass: &mut Pass,
        step: ProcStep,
    ) -> (r: Option<Slice>)
        requires
            old(self)@.wf(),
            old(fs).wf(),
        ensures
            final(self)@.wf(),
            final(fs).wf(),
            stepped::<V>(old(self)@, old(fs)@, *old(pass), step) == (
                final(self)@,
                final(fs)@,
                *final(pass),
                r,
            ),
    {
        let ghost before = self@;
        let index: usize = pass.index;
        let (vfs, host): (bool, bool) = (self.shared.vfs_pending, self.shared.host_pending);
        let here = match step {
            ProcStep::Ran | ProcStep::Stuck => index < self.procs.len(),
            _ => false,
        };
        let waits = (vfs || host) && here;
        self.shared.vfs_pending = pass.vfs_before || (waits && vfs);
        self.shared.host_pending = pass.host_before || (waits && host);
        if waits {
            self.procs[index].parked = true;
            assert(self@.procs =~= before.procs.update(
                index as int,
                ProcView { parked: true, ..before.procs[index as int] },
            ));
        }
        match step {
            ProcStep::Ran | ProcStep::Replaced => {
                pass.progressed = true;
                if index < usize::MAX {
                    pass.index = index + 1;
                }
            },
            ProcStep::Stuck => {
                if index < usize::MAX {
                    pass.index = index + 1;
                }
            },
            ProcStep::Ended(status) => {
                pass.progressed = true;
                self.finish_process(fs, index, status);
            },
        }
        match self.exit_status {
            Some(status) => Some(Slice::Finished(status)),
            None => None,
        }
    }

    /// How many processes are running or about to start.
    pub fn processes(&self) -> (r: usize)
        ensures
            r == min_count(self@.process_count()),
    {
        if self.starting > usize::MAX - self.procs.len() {
            usize::MAX
        } else {
            self.procs.len() + self.starting
        }
    }
}

} // verus!
