//! Per-process state, and the process table other processes can see.
//!
//! The split matters. [`Task`] is private to one process and is only ever touched by that
//! process's own syscalls. [`ProcRecord`] is what `kill`, `wait4` and `ps` reach across process
//! boundaries, so it lives in the kernel's shared table. Signals are delivered by the guest
//! itself: the kernel raises a flag in the process's memory and musl calls back after the next
//! syscall, which is why there is no asynchronous delivery.
use crate::abi::{
    SIGCHLD, SIGCONT, SIGKILL, SIGSTOP, SIGTSTP, SIGTTIN, SIGTTOU, SIGURG, SIGWINCH, SIG_DFL,
    SIG_IGN,
};
use crate::kernel::fd::{Fd, FdTable};
use crate::kernel::mem::{word, Nanos};
use vstd::prelude::*;

verus! {

/// Signal numbers run 1 to 63; slot 0 is unused so that a signal indexes directly.
pub const NSIG: usize = 64;

/// What the guest installed with `rt_sigaction`.
#[derive(Clone, Copy, PartialEq, Eq, Debug, Structural)]
pub struct SigAction {
    /// Guest function pointer, or `SIG_DFL` / `SIG_IGN`.
    pub handler: u32,
    /// `SA_*` flags.
    pub flags: u32,
    /// Signals blocked while the handler runs. Recorded but not applied.
    pub mask: u64,
}

/// The default action, with no flags and nothing blocked.
pub open spec fn default_action() -> SigAction {
    SigAction { handler: SIG_DFL, flags: 0, mask: 0 }
}

impl Default for SigAction {
    fn default() -> (r: SigAction)
        ensures
            r == default_action(),
    {
        SigAction { handler: SIG_DFL, flags: 0, mask: 0 }
    }
}

impl SigAction {
    /// Whether a signal with this action does nothing.
    pub open spec fn ignores(self, sig: i32) -> bool {
        self.handler == SIG_IGN || (self.handler == SIG_DFL && ignored_by_default(sig))
    }

    fn is_ignored(&self, sig: i32) -> (r: bool)
        ensures
            r == self.ignores(sig),
    {
        self.handler == SIG_IGN || (self.handler == SIG_DFL && default_ignored(sig))
    }
}

/// One process's private state.
pub struct Task {
    pub pid: i32,
    pub fds: FdTable,
    /// Absolute, normalized guest path.
    pub cwd: String,
    pub umask: u32,
    pub sigact: Vec<SigAction>,
    pub sigmask: u64,
    /// The path this process was executed from, which `/proc/self/exe` reports.
    pub exe: String,
    /// `argv[0]`, which is how BusyBox picks an applet, and what `ps` shows.
    pub comm: String,
}

/// The content of a [`Task`].
#[verifier::ext_equal]
pub struct TaskView {
    pub pid: i32,
    pub fds: Seq<Option<Fd>>,
    pub cwd: Seq<char>,
    pub umask: u32,
    pub sigact: Seq<SigAction>,
    pub sigmask: u64,
    pub exe: Seq<char>,
    pub comm: Seq<char>,
}

impl View for Task {
    type V = TaskView;

    open spec fn view(&self) -> TaskView {
        TaskView {
            pid: self.pid,
            fds: self.fds@,
            cwd: self.cwd@,
            umask: self.umask,
            sigact: self.sigact@,
            sigmask: self.sigmask,
            exe: self.exe@,
            comm: self.comm@,
        }
    }
}

/// The permission bits a new process masks off.
pub const DEFAULT_UMASK: u32 = 0x12;

impl TaskView {
    /// There is an action for every signal number.
    pub open spec fn wf(self) -> bool {
        self.sigact.len() == NSIG
    }

    /// A process with nothing but a pid and descriptors.
    pub open spec fn fresh(pid: i32, fds: Seq<Option<Fd>>) -> TaskView {
        TaskView {
            pid,
            fds,
            cwd: "/"@,
            umask: DEFAULT_UMASK,
            sigact: default_actions(),
            sigmask: 0,
            exe: Seq::empty(),
            comm: Seq::empty(),
        }
    }

    /// What happens on `sig`.
    pub open spec fn action(self, sig: i32) -> SigAction {
        if 0 < sig < self.sigact.len() {
            self.sigact[sig as int]
        } else {
            default_action()
        }
    }

    /// With the action on `sig` replaced.
    pub open spec fn with_action(self, sig: i32, action: SigAction) -> TaskView {
        if 0 < sig < self.sigact.len() {
            TaskView { sigact: self.sigact.update(sig as int, action), ..self }
        } else {
            self
        }
    }

    /// What `execve` leaves of the actions: ignored signals stay ignored, and everything else
    /// goes back to the default.
    pub open spec fn reset_for_exec(self) -> TaskView {
        TaskView {
            sigact: self.sigact.map_values(
                |a: SigAction|
                    if a.handler != SIG_IGN {
                        default_action()
                    } else {
                        a
                    },
            ),
            ..self
        }
    }
}

/// Every signal at its default.
pub open spec fn default_actions() -> Seq<SigAction> {
    Seq::new(NSIG as nat, |i: int| default_action())
}

impl Task {
    pub fn new(pid: i32, fds: FdTable) -> (r: Task)
        ensures
            r@ == TaskView::fresh(pid, fds@),
            r@.wf(),
    {
        let mut sigact: Vec<SigAction> = Vec::new();
        let mut i: usize = 0;
        while i < NSIG
            invariant
                i <= NSIG,
                sigact@ == Seq::new(i as nat, |i: int| default_action()),
            decreases NSIG - i,
        {
            sigact.push(SigAction { handler: SIG_DFL, flags: 0, mask: 0 });
            i = i + 1;
            assert(sigact@ =~= Seq::new(i as nat, |i: int| default_action()));
        }
        Task {
            pid,
            fds,
            cwd: "/".to_owned(),
            umask: DEFAULT_UMASK,
            sigact,
            sigmask: 0,
            exe: String::new(),
            comm: String::new(),
        }
    }

    pub fn action(&self, sig: i32) -> (r: SigAction)
        ensures
            r == self@.action(sig),
    {
        if sig <= 0 || sig as usize >= self.sigact.len() {
            SigAction { handler: SIG_DFL, flags: 0, mask: 0 }
        } else {
            self.sigact[sig as usize]
        }
    }

    pub fn set_action(&mut self, sig: i32, action: SigAction)
        ensures
            final(self)@ == old(self)@.with_action(sig, action),
    {
        if sig > 0 && (sig as usize) < self.sigact.len() {
            self.sigact[sig as usize] = action;
        }
    }

    /// `execve` keeps the descriptor table and the mask, but every handler that was pointing
    /// into the old program's code is reset. Ignored signals stay ignored, as Linux does.
    pub fn reset_handlers_for_exec(&mut self)
        ensures
            final(self)@ == old(self)@.reset_for_exec(),
    {
        let ghost before = self@;
        let mut i: usize = 0;
        while i < self.sigact.len()
            invariant
                i <= self.sigact@.len(),
                self.sigact@.len() == before.sigact.len(),
                self@ == (TaskView { sigact: self.sigact@, ..before }),
                forall|j: int|
                    0 <= j < i ==> self.sigact@[j] == #[trigger] before.reset_for_exec().sigact[j],
                forall|j: int|
                    i <= j < before.sigact.len() ==> #[trigger] self.sigact@[j]
                        == before.sigact[j],
            decreases before.sigact.len() - i,
        {
            let action: SigAction = self.sigact[i];
            if action.handler != SIG_IGN {
                self.sigact[i] = SigAction { handler: SIG_DFL, flags: 0, mask: 0 };
            }
            assert(self.sigact@[i as int] == before.reset_for_exec().sigact[i as int]);
            i = i + 1;
        }
        assert(self@ =~= before.reset_for_exec());
    }
}

/// The part of a process that other processes can see.
pub struct ProcRecord {
    pub pid: i32,
    pub ppid: i32,
    pub pgid: i32,
    pub sid: i32,
    /// Bit per signal, raised by `kill` and lowered when the guest takes delivery.
    pub pending: u64,
    /// Set once the process is gone; the record survives until a `wait4` collects it.
    pub exit: Option<i32>,
    /// When a sleeping process should be woken, in nanoseconds since the session started.
    pub wake_at: Option<Nanos>,
    /// `argv[0]`, for `ps` and `/proc/<pid>/comm`.
    pub comm: String,
}

/// The content of a [`ProcRecord`].
#[verifier::ext_equal]
pub struct RecordView {
    pub pid: i32,
    pub ppid: i32,
    pub pgid: i32,
    pub sid: i32,
    pub pending: u64,
    pub exit: Option<i32>,
    pub wake_at: Option<Nanos>,
    pub comm: Seq<char>,
}

impl View for ProcRecord {
    type V = RecordView;

    open spec fn view(&self) -> RecordView {
        RecordView {
            pid: self.pid,
            ppid: self.ppid,
            pgid: self.pgid,
            sid: self.sid,
            pending: self.pending,
            exit: self.exit,
            wake_at: self.wake_at,
            comm: self.comm@,
        }
    }
}

impl RecordView {
    /// A process that has just come to be.
    pub open spec fn fresh(
        pid: i32,
        ppid: i32,
        pgid: i32,
        sid: i32,
        comm: Seq<char>,
    ) -> RecordView {
        RecordView { pid, ppid, pgid, sid, pending: 0, exit: None, wake_at: None, comm }
    }

    pub open spec fn alive(self) -> bool {
        self.exit is None
    }

    /// With `sig` pending.
    pub open spec fn raised(self, sig: i32) -> RecordView {
        RecordView { pending: self.pending | bit_of(sig), ..self }
    }
}

impl ProcRecord {
    pub fn new(pid: i32, ppid: i32, pgid: i32, sid: i32, comm: String) -> (r: ProcRecord)
        ensures
            r@ == RecordView::fresh(pid, ppid, pgid, sid, comm@),
    {
        ProcRecord { pid, ppid, pgid, sid, pending: 0, exit: None, wake_at: None, comm }
    }

    pub fn is_alive(&self) -> (r: bool)
        ensures
            r == self@.alive(),
    {
        self.exit.is_none()
    }

    pub fn raise(&mut self, sig: i32)
        ensures
            final(self)@ == old(self)@.raised(sig),
    {
        self.pending = self.pending | bit(sig);
    }
}

/// The bit for one signal, or nothing for a number that is no signal.
pub open spec fn bit_of(sig: i32) -> u64 {
    if 0 < sig < NSIG {
        1u64 << (sig as u64)
    } else {
        0
    }
}

/// The bit for one signal.
pub fn bit(sig: i32) -> (r: u64)
    ensures
        r == bit_of(sig),
{
    if sig > 0 && (sig as usize) < NSIG {
        1u64 << (sig as u64)
    } else {
        0
    }
}

/// Signals whose default action is to do nothing. Stop and continue are here too: job control
/// stop is not implemented, and silently ignoring is closer to right than killing.
pub open spec fn ignored_by_default(sig: i32) -> bool {
    sig == SIGCHLD || sig == SIGURG || sig == SIGWINCH || sig == SIGCONT || sig == SIGSTOP || sig
        == SIGTSTP || sig == SIGTTIN || sig == SIGTTOU
}

/// Whether the default action for `sig` is to do nothing.
pub fn default_ignored(sig: i32) -> (r: bool)
    ensures
        r == ignored_by_default(sig),
{
    sig == SIGCHLD || sig == SIGURG || sig == SIGWINCH || sig == SIGCONT || sig == SIGSTOP || sig
        == SIGTSTP || sig == SIGTTIN || sig == SIGTTOU
}

/// Whether the default action for `sig` is to terminate the process.
pub fn default_kills(sig: i32) -> (r: bool)
    ensures
        r == !ignored_by_default(sig),
{
    !default_ignored(sig)
}

/// Whether `sig` is among the signals of a set.
pub open spec fn has_signal(set: u64, sig: i32) -> bool {
    set & bit_of(sig) != 0
}

/// Whether `sig` is pending and to be dropped because nothing would come of it.
pub open spec fn is_discarded(pending: u64, t: TaskView, sig: i32) -> bool {
    has_signal(pending, sig) && t.action(sig).ignores(sig)
}

/// Whether `sig` is pending and would do something now. `SIGKILL` and `SIGSTOP` cannot be
/// blocked.
pub open spec fn is_deliverable(pending: u64, mask: u64, t: TaskView, sig: i32) -> bool {
    &&& has_signal(pending, sig)
    &&& !t.action(sig).ignores(sig)
    &&& (!has_signal(mask, sig) || sig == SIGKILL || sig == SIGSTOP)
}

/// The signals below `n` for which `keep` holds, as a set.
pub open spec fn signals_below(n: int, keep: spec_fn(i32) -> bool) -> u64
    decreases n,
{
    if n <= 1 {
        0
    } else {
        let sig = (n - 1) as i32;
        if keep(sig) {
            signals_below(n - 1, keep) | bit_of(sig)
        } else {
            signals_below(n - 1, keep)
        }
    }
}

/// The signals that would be delivered now.
pub open spec fn deliverable(pending: u64, mask: u64, t: TaskView) -> u64 {
    signals_below(NSIG as int, |sig: i32| is_deliverable(pending, mask, t, sig))
}

/// The pending signals that are ignored.
pub open spec fn discarded(pending: u64, t: TaskView) -> u64 {
    signals_below(NSIG as int, |sig: i32| is_discarded(pending, t, sig))
}

/// Which pending signals would actually do something now.
///
/// Returns the deliverable set, and the set to discard because it is ignored. `SIGKILL` and
/// `SIGSTOP` cannot be blocked, exactly as on Linux.
pub fn triage(pending: u64, mask: u64, task: &Task) -> (r: (u64, u64))
    ensures
        r.0 == deliverable(pending, mask, task@),
        r.1 == discarded(pending, task@),
{
    let ghost keep = |sig: i32| is_deliverable(pending, mask, task@, sig);
    let ghost drop = |sig: i32| is_discarded(pending, task@, sig);
    let mut live: u64 = 0;
    let mut discard: u64 = 0;
    let mut sig: i32 = 1;
    while sig < NSIG as i32
        invariant
            1 <= sig <= NSIG,
            keep == (|sig: i32| is_deliverable(pending, mask, task@, sig)),
            drop == (|sig: i32| is_discarded(pending, task@, sig)),
            live == signals_below(sig as int, keep),
            discard == signals_below(sig as int, drop),
        decreases NSIG - sig,
    {
        let b: u64 = bit(sig);
        if pending & b != 0 {
            if task.action(sig).is_ignored(sig) {
                discard = discard | b;
            } else if mask & b == 0 || sig == SIGKILL || sig == SIGSTOP {
                live = live | b;
            }
        }
        sig = sig + 1;
    }
    (live, discard)
}

/// The lowest signal at or above `from` in a set, or the number past the last one.
pub open spec fn lowest_signal(set: u64, from: int) -> int
    decreases NSIG - from,
{
    if from >= NSIG || has_signal(set, from as i32) {
        from
    } else {
        lowest_signal(set, from + 1)
    }
}

/// The lowest signal in a set, if it holds one.
pub fn first_signal(set: u64) -> (r: Option<i32>)
    ensures
        match r {
            Some(sig) => 0 < sig < NSIG && sig == lowest_signal(set, 1),
            None => lowest_signal(set, 1) == NSIG,
        },
{
    let mut sig: i32 = 1;
    while sig < NSIG as i32
        invariant
            1 <= sig <= NSIG,
            lowest_signal(set, 1) == lowest_signal(set, sig as int),
        decreases NSIG - sig,
    {
        if set & bit(sig) != 0 {
            return Some(sig);
        }
        sig = sig + 1;
    }
    None
}

/// The wait status for a normal exit: the low eight bits of the code, above the signal bits.
pub open spec fn exited(code: i32) -> i32 {
    (code as int % 256 * 256) as i32
}

/// The wait status for a death by signal.
pub open spec fn signaled(sig: i32) -> i32 {
    (sig as int % 128) as i32
}

/// The wait status for a normal exit.
pub fn status_exited(code: i32) -> (r: i32)
    ensures
        r == exited(code),
{
    (word(code) % 256 * 256) as i32
}

/// The wait status for a death by signal.
pub fn status_signaled(sig: i32) -> (r: i32)
    ensures
        r == signaled(sig),
{
    (word(sig) % 128) as i32
}

// ---------------------------------------------------------------------------------------------
// laws

/// Two signals' bits meet only where the signals are the same.
proof fn lemma_bits(a: i32, b: i32)
    requires
        0 < a < NSIG,
        0 < b < NSIG,
    ensures
        (bit_of(a) & bit_of(b) != 0) == (a == b),
{
    let x = a as u64;
    let y = b as u64;
    assert(((1u64 << x) & (1u64 << y) != 0) == (x == y)) by (bit_vector)
        requires
            0 < x < 64,
            0 < y < 64,
    ;
}

/// A set of signals built up from a property holds exactly the signals with that property.
proof fn lemma_signals_below(n: int, keep: spec_fn(i32) -> bool, sig: i32)
    requires
        1 <= n <= NSIG,
        0 < sig < NSIG,
    ensures
        has_signal(signals_below(n, keep), sig) == (sig < n && keep(sig)),
    decreases n,
{
    let b = bit_of(sig);
    if n <= 1 {
        assert(0u64 & b == 0) by (bit_vector);
    } else {
        lemma_signals_below(n - 1, keep, sig);
        let last = (n - 1) as i32;
        let rest = signals_below(n - 1, keep);
        let c = bit_of(last);
        lemma_bits(last, sig);
        assert(((rest | c) & b != 0) == (rest & b != 0 || c & b != 0)) by (bit_vector);
    }
}

/// A pending signal is delivered, discarded or held back, and never two of these: it is
/// discarded exactly when its action ignores it, and delivered exactly when it is neither
/// ignored nor blocked, `SIGKILL` and `SIGSTOP` being beyond blocking. A signal that is not
/// pending is in neither set.
pub proof fn law_triage_splits_the_pending_signals(pending: u64, mask: u64, t: TaskView, sig: i32)
    requires
        0 < sig < NSIG,
    ensures
        has_signal(deliverable(pending, mask, t), sig) == is_deliverable(pending, mask, t, sig),
        has_signal(discarded(pending, t), sig) == is_discarded(pending, t, sig),
        !(has_signal(deliverable(pending, mask, t), sig) && has_signal(discarded(pending, t), sig)),
{
    lemma_signals_below(
        NSIG as int,
        |sig: i32| is_deliverable(pending, mask, t, sig),
        sig,
    );
    lemma_signals_below(NSIG as int, |sig: i32| is_discarded(pending, t, sig), sig);
}

/// The lowest signal of a set is in it, and past the last number only if the set has none.
pub proof fn lemma_lowest_from(set: u64, from: int)
    requires
        1 <= from <= NSIG,
    ensures
        from <= lowest_signal(set, from) <= NSIG,
        lowest_signal(set, from) < NSIG ==> has_signal(set, lowest_signal(set, from) as i32),
        forall|sig: i32| from <= sig < lowest_signal(set, from) ==> !#[trigger] has_signal(set, sig),
    decreases NSIG - from,
{
    if from < NSIG && !has_signal(set, from as i32) {
        lemma_lowest_from(set, from + 1);
    }
}

proof fn lemma_signals_below_zero(n: int, keep: spec_fn(i32) -> bool)
    requires
        1 <= n <= NSIG,
        forall|sig: i32| 0 < sig < n ==> !#[trigger] keep(sig),
    ensures
        signals_below(n, keep) == 0,
    decreases n,
{
    if n > 1 {
        lemma_signals_below_zero(n - 1, keep);
    }
}

/// Something is deliverable exactly when there is a lowest such signal, which then is not
/// ignored.
pub proof fn lemma_lowest(pending: u64, mask: u64, t: TaskView)
    ensures
        ({
            let live = deliverable(pending, mask, t);
            let low = lowest_signal(live, 1);
            &&& 1 <= low <= NSIG
            &&& (live == 0) == (low == NSIG)
            &&& low < NSIG ==> !t.action(low as i32).ignores(low as i32)
        }),
{
    let live = deliverable(pending, mask, t);
    let low = lowest_signal(live, 1);
    let keep = |sig: i32| is_deliverable(pending, mask, t, sig);
    lemma_lowest_from(live, 1);
    if low < NSIG {
        law_triage_splits_the_pending_signals(pending, mask, t, low as i32);
        let b = bit_of(low as i32);
        assert(0u64 & b == 0) by (bit_vector);
    } else {
        assert forall|sig: i32| 0 < sig < NSIG implies !#[trigger] keep(sig) by {
            law_triage_splits_the_pending_signals(pending, mask, t, sig);
            assert(!has_signal(live, sig));
        }
        lemma_signals_below_zero(NSIG as int, keep);
    }
}

/// A raised signal is pending, and every other signal is as pending as it was.
pub proof fn law_raise_adds_one_signal(record: RecordView, sig: i32, other: i32)
    requires
        0 < sig < NSIG,
        0 < other < NSIG,
    ensures
        has_signal(record.raised(sig).pending, other) == (other == sig || has_signal(
            record.pending,
            other,
        )),
{
    lemma_bits(sig, other);
    let p = record.pending;
    let b = bit_of(sig);
    let c = bit_of(other);
    assert(((p | b) & c != 0) == (p & c != 0 || b & c != 0)) by (bit_vector);
}

/// `execve` drops every handler and keeps every ignore.
pub proof fn law_exec_keeps_only_ignores(t: TaskView, sig: i32)
    requires
        t.wf(),
    ensures
        t.action(sig).handler == SIG_IGN ==> t.reset_for_exec().action(sig) == t.action(sig),
        t.action(sig).handler != SIG_IGN ==> t.reset_for_exec().action(sig) == default_action(),
        t.reset_for_exec().fds == t.fds,
        t.reset_for_exec().sigmask == t.sigmask,
{
}

} // verus!
