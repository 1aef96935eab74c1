//! Whose turn it is, how a call gets into the kernel and its answer back, and when it is over.
use super::plain::{lemma_patched_word, word_in};
use crate::kernel::fd::{fd_at, live_descs, KindView};
use crate::kernel::imports::{
    args_written, call_at, entered, header_written, replied, sigfetched, Reply,
};
use crate::kernel::mem::{le32, patched, signed_of, word_of, Nanos};
use crate::kernel::mounts::MountView;
use crate::kernel::run::{
    first_spawn, launched, KernelView, Pass, PickView, ProcStep, ProcView, Resume, Slice,
};
use crate::kernel::sched::{
    all_torn_down, children_ended, idle_because, next_unparked, out_of_time, picked, scanned,
    stepped, torn_down,
};
use crate::kernel::state::{released_all, Budget, Call, CtxView, SharedView, SpawnView, Suspension};
use crate::kernel::step::{retried, returned, After};
use crate::kernel::task::TaskView;
use crate::syscall::base::World;
use crate::syscall::signal::{fetched, SignalDelivery};
use crate::syscall::table::{counted, ClockView, Outcome};
use crate::vfs::{Vfs, VfsFile};
use vstd::prelude::*;

verus! {

// ---------------------------------------------------------------------------------------------
// turns

proof fn lemma_next_unparked(procs: Seq<ProcView>, i: int)
    requires
        0 <= i,
    ensures
        i <= next_unparked(procs, i),
        next_unparked(procs, i) < procs.len() ==> !procs[next_unparked(procs, i)].parked,
        forall|k: int|
            i <= k < next_unparked(procs, i) && k < procs.len() ==> (#[trigger] procs[k]).parked,
    decreases procs.len() - i,
{
    if i < procs.len() && procs[i].parked {
        lemma_next_unparked(procs, i + 1);
    }
}

/// The next turn is that of the first process, from where the round stands, that does not wait
/// for something outside. Where there is none the round is over: with no process left the
/// session is finished with its status; where nothing ran it is idle; where the budget is
/// spent it pauses; and else the next round begins.
pub proof fn law_the_next_process_gets_its_turn<F>(
    k: KernelView<F>,
    pass: Pass,
    elapsed: Nanos,
    budget: Budget,
    i: int,
)
    requires
        k.procs.len() <= usize::MAX,
        k.shared.syscalls >= pass.served_before,
        elapsed >= pass.began,
    ensures
        ({
            let (next, p, pick) = scanned(k, pass, elapsed, budget);
            let free = |j: int| pass.index <= j < k.procs.len() && !k.procs[j].parked;
            let spent = (budget.syscalls matches Some(most) && k.shared.syscalls
                - pass.served_before >= most) || (budget.duration matches Some(most) && elapsed
                - pass.began >= most);
            &&& match pick {
                PickView::Guest(j) => free(j as int) && p.index == j && k.procs[j as int].body is Guest
                    && (free(i) ==> j <= i),
                PickView::Host(j) => free(j as int) && p.index == j && !(
                k.procs[j as int].body is Guest) && (free(i) ==> j <= i),
                PickView::Start(_) => false,
                _ => !free(i),
            }
            &&& pick matches PickView::Report(Slice::Finished(status)) ==> k.procs.len() == 0 && (
            k.exit_status matches Some(known) ==> status == known)
            &&& pick matches PickView::Report(Slice::Idle(_)) ==> !pass.progressed && k.procs.len()
                > 0
            &&& pick matches PickView::Report(Slice::Budget) ==> pass.progressed && spent
            &&& pick is Again ==> pass.progressed && !spent && p.starting
            &&& next.procs == k.procs
        }),
{
    lemma_next_unparked(k.procs, pass.index as int);
    let n = next_unparked(k.procs, pass.index as int);
    if pass.index <= i < k.procs.len() && i < n {
        assert(k.procs[i].parked);
    }
}

/// After a step the turn goes on to the following process, and no other is passed over: one
/// that ran or could not stays where it is, and one that ended is gone, so that the one behind
/// it is next.
pub proof fn law_every_process_has_its_turn<V: Vfs>(
    k: KernelView<<V as VfsFile>::Handle>,
    fs: Seq<MountView<<V as VfsFile>::State>>,
    pass: Pass,
    step: ProcStep,
    j: int,
)
    requires
        pass.index < k.procs.len() < usize::MAX,
        0 <= j < k.procs.len(),
    ensures
        ({
            let (after, f, p, slice) = stepped::<V>(k, fs, pass, step);
            let i = pass.index as int;
            &&& step is Ended ==> p.index == i && after.procs.len() == k.procs.len() - 1 && p.progressed
            &&& step is Ended && j < i ==> after.procs[j] == k.procs[j]
            &&& step is Ended && j > i ==> after.procs[j - 1] == k.procs[j]
            &&& !(step is Ended) ==> p.index == i + 1 && after.procs.len() == k.procs.len()
            &&& !(step is Ended) && j != i ==> after.procs[j] == k.procs[j]
            &&& step is Stuck ==> p.progressed == pass.progressed
            &&& step is Ran || step is Replaced ==> p.progressed
            &&& after.exit_status matches Some(status) ==> slice == Some(Slice::Finished(status))
            &&& after.exit_status is None ==> slice is None
        }),
{
}

/// The status of the session is that of its first process, or of the last one where that one
/// went before it without telling; once known it does not change.
pub proof fn law_the_session_ends_with_its_first_process<V: Vfs>(
    k: KernelView<<V as VfsFile>::Handle>,
    fs: Seq<MountView<<V as VfsFile>::State>>,
    index: int,
    status: i32,
)
    requires
        0 <= index < k.procs.len(),
        k.procs[index].ctx.vfork_stack.len() == 0,
    ensures
        ({
            let (after, f) = torn_down::<V>(k, fs, index, status);
            let pid = k.procs[index].ctx.task.pid;
            &&& k.exit_status is Some ==> after.exit_status == k.exit_status
            &&& k.exit_status is None && (pid == 1 || k.procs.len() == 1) ==> after.exit_status
                == Some(status)
            &&& k.exit_status is None && pid != 1 && k.procs.len() > 1 ==> after.exit_status is None
            &&& after.procs == k.procs.remove(index)
        }),
{
}

/// With nothing pending outside, nobody asleep and nobody waiting for input, the kernel says
/// that nothing will ever change; and it says so then alone.
pub proof fn law_a_deadlock_is_told<F>(k: KernelView<F>)
    ensures
        ({
            let sh = k.shared;
            let asleep = exists|i: int|
                0 <= i < sh.table.len() && (#[trigger] sh.table[i]).wake_at is Some;
            let why = idle_because(k).1;
            &&& why is Vfs <==> sh.vfs_pending
            &&& why is Host <==> !sh.vfs_pending && sh.host_pending
            &&& why is Until <==> !sh.vfs_pending && !sh.host_pending && asleep
            &&& why is Stdin <==> !sh.vfs_pending && !sh.host_pending && !asleep && sh.stdin.wanted
                && !sh.stdin.closed
            &&& why is Deadlock <==> !sh.vfs_pending && !sh.host_pending && !asleep && !(
            sh.stdin.wanted && !sh.stdin.closed)
        }),
{
    if !k.shared.vfs_pending && !k.shared.host_pending {
        super::kernel::law_idle_until_the_first_sleeper(k);
    }
}

// ---------------------------------------------------------------------------------------------
// starting

/// A program starts with what was asked for it: its arguments, its environment and its path,
/// the process's number, descriptors, working directory and masks; named after its first
/// argument, with no stack, no wait and nothing to be executed left over from before.
pub proof fn law_a_program_starts_with_what_was_asked(s: SpawnView)
    ensures
        ({
            let c = launched(s);
            &&& c.argv == s.argv
            &&& c.envp == s.envp
            &&& c.program == s.program
            &&& c.task.exe == s.exe
            &&& c.task.pid == s.task.pid
            &&& c.task.fds == s.task.fds
            &&& c.task.cwd == s.task.cwd
            &&& c.task.umask == s.task.umask
            &&& c.task.sigmask == s.task.sigmask
            &&& s.argv.len() > 0 ==> c.task.comm == crate::text::lossy_text(s.argv[0])
            &&& c.exec_request is None
            &&& c.vfork_stack.len() == 0
            &&& c.state.suspension is None
            &&& c.state.deadline is None
            &&& c.state.jmp_bufs.len() == 0
            &&& !c.state.rewinding
        }),
{
}

/// The first process is number 1, the first of its group and session; descriptor 0 reads the
/// standard input, 1 writes the standard output and 2 the standard error.
pub proof fn law_the_first_process_has_the_standard_streams<F>(
    overlay: Seq<(Seq<char>, usize)>,
    programs: Seq<crate::kernel::state::ProgramKind>,
    limits: crate::kernel::state::Limits,
    program: usize,
    exe: Seq<char>,
    argv: Seq<Seq<u8>>,
    envp: Seq<Seq<u8>>,
    cwd: Seq<char>,
)
    requires
        limits.open_files >= 3,
    ensures
        ({
            let sh = crate::kernel::run::fresh_shared::<F>(overlay, programs, limits);
            &&& first_spawn(sh, program, exe, argv, envp, cwd) matches Some((s, first))
            &&& first.argv == argv && first.envp == envp && first.exe == exe && first.program
                == program
            &&& first.task.cwd == cwd
            &&& first.task.pid == 1
            &&& s.next_pid == 2
            &&& s.table.len() == 1
            &&& s.table[0].pid == 1 && s.table[0].pgid == 1 && s.table[0].sid == 1
            &&& s.table[0].exit is None
            &&& fd_at(first.task.fds, 0) matches Some(a)
            &&& fd_at(first.task.fds, 1) matches Some(b)
            &&& fd_at(first.task.fds, 2) matches Some(c)
            &&& s.descs.get(a.desc) matches Some(x) && x.kind is Stdin && x.can_read()
            &&& s.descs.get(b.desc) matches Some(y) && y.kind == KindView::<F>::Stdout(1)
                && y.can_write()
            &&& s.descs.get(c.desc) matches Some(z) && z.kind == KindView::<F>::Stdout(2)
                && z.can_write()
            &&& !a.cloexec && !b.cloexec && !c.cloexec
            &&& fd_at(first.task.fds, 3) is None
        }),
{
    let sh = crate::kernel::run::fresh_shared::<F>(overlay, programs, limits);
    assert(0u32 & 3 == 0 && 1u32 & 3 == 1) by (bit_vector);
    reveal_with_fuel(crate::kernel::fd::free_from, 4);
}

// ---------------------------------------------------------------------------------------------
// calls

/// The arguments of a call are the six words at its address, in order.
#[verifier::rlimit(40)]
pub proof fn law_a_call_has_six_arguments(mem: Seq<u8>, number: u32, at: u32)
    requires
        at + 24 <= mem.len(),
        at + 24 <= u32::MAX,
    ensures
        ({
            &&& call_at(mem, number, at) matches Ok(call)
            &&& word_of(call.number) == number
            &&& word_of(call.a0) == word_in(mem, at as int)
            &&& word_of(call.a1) == word_in(mem, at + 4)
            &&& word_of(call.a2) == word_in(mem, at + 8)
            &&& word_of(call.a3) == word_in(mem, at + 12)
            &&& word_of(call.a4) == word_in(mem, at + 16)
            &&& word_of(call.a5) == word_in(mem, at + 20)
        }),
{
}

/// An answer reaches the guest: at once as what the call returns; or, where the call had to
/// wait, as what it returns once it was asked again and could be answered, on the stack it was
/// made on.
pub proof fn law_an_answer_reaches_the_guest<V: Vfs>(
    w: World<<V as VfsFile>::State, <V as VfsFile>::Handle>,
    k: ClockView,
    call: Call,
    sp: u32,
    v: i32,
    other_sp: u32,
    number: u32,
    args: u32,
    p: ProcView,
)
    requires
        p.ctx == replied(w.ctx, w.mem, call, sp, Outcome::Blocked).0,
    ensures
        replied(w.ctx, w.mem, call, sp, Outcome::Value(v)) == (
            w.ctx,
            w.mem,
            Reply::Return(word_of(v)),
        ),
        ({
            let (q, mem, after) = returned(p, w.mem);
            let (r, go) = retried(q, call, Outcome::Value(v));
            let world = World { ctx: r.ctx, ..w };
            let (last, reply) = entered::<V>(world, k, other_sp, number, args);
            &&& q.resume == Resume::Blocked { call }
            &&& reply == Reply::Rewound { sp, value: word_of(v) }
            &&& !last.ctx.state.rewinding
        }),
{
}

/// The arguments of a program are copied out where there is room for all of them; asked with
/// no room at all, only their size is told.
pub proof fn law_the_arguments_are_copied_whole(
    mem: Seq<u8>,
    block: Seq<u8>,
    buffer: u32,
    capacity: u32,
)
    requires
        block.len() <= i32::MAX,
        buffer + block.len() <= mem.len(),
    ensures
        ({
            let (m, r) = args_written(mem, block, buffer, capacity);
            &&& capacity == 0 ==> r == block.len() && m == mem
            &&& 0 < capacity < block.len() ==> signed_of(r) == -7 && m == mem
            &&& capacity > 0 && capacity >= block.len() ==> r == block.len() && m.subrange(
                buffer as int,
                buffer + block.len(),
            ) == block
        }),
{
    assert(crate::kernel::mem::patched(mem, buffer as int, block).subrange(
        buffer as int,
        buffer + block.len(),
    ) =~= block);
}

/// Where a guest's stack is saved begins with where its frames go and where they end: eight
/// bytes on, and room for a little under a mebibyte.
pub proof fn law_a_suspended_stack_has_its_room(mem: Seq<u8>, data: u32)
    requires
        data + 8 <= mem.len(),
        data + 8 + 1_048_568 <= u32::MAX,
    ensures
        ({
            let m = header_written(mem, data);
            &&& word_in(m, data as int) == data + 8
            &&& word_in(m, data + 4) == data + 8 + 1_048_568
            &&& m.len() == mem.len()
        }),
{
    let begin = (data + 8) as u32;
    let end = (data + 8 + 1_048_568) as u32;
    lemma_patched_word(mem, data as int, begin);
    let m1 = patched(mem, data as int, le32(begin));
    lemma_patched_word(m1, data + 4, end);
    let m2 = patched(m1, data + 4, le32(end));
    assert(word_in(m2, data as int) == word_in(m1, data as int));
}

// ---------------------------------------------------------------------------------------------
// time and signals

/// Time runs out when a limit was set and has passed, and never without one.
pub proof fn law_time_runs_out_at_the_limit(limit: Nanos, elapsed: Nanos)
    requires
        limit <= 9_223_372_036_854_775_807_000_000_000,
    ensures
        out_of_time(Some(limit), elapsed) <==> elapsed >= limit,
        !out_of_time(None, elapsed),
{
}

proof fn lemma_all_end_with<V: Vfs>(
    k: KernelView<<V as VfsFile>::Handle>,
    fs: Seq<MountView<<V as VfsFile>::State>>,
    status: i32,
)
    ensures
        all_torn_down::<V>(k, fs, status).0.exit_status == if k.exit_status is Some {
            k.exit_status
        } else {
            Some(status)
        },
    decreases k.procs.len(),
{
    if k.procs.len() > 0 {
        let (next, f) = torn_down::<V>(k, fs, 0, status);
        lemma_all_end_with::<V>(next, f, status);
    }
}

/// A session that runs out of time ends as if it had been killed.
pub proof fn law_a_session_out_of_time_was_killed<V: Vfs>(
    k: KernelView<<V as VfsFile>::Handle>,
    fs: Seq<MountView<<V as VfsFile>::State>>,
    pass: Pass,
    elapsed: Nanos,
    budget: Budget,
    limit: Nanos,
)
    requires
        pass.starting,
        k.shared.spawn.len() == 0,
        k.shared.limits.wall_clock == Some(limit),
        limit <= 9_223_372_036_854_775_807_000_000_000,
        elapsed >= limit,
        k.exit_status is None,
    ensures
        picked::<V>(k, fs, pass, elapsed, budget).3 == PickView::Report(Slice::Finished(9)),
        picked::<V>(k, fs, pass, elapsed, budget).0.procs.len() == 0,
{
    lemma_all_end_with::<V>(k, fs, 9);
    super::kernel::law_the_clock_ends_the_session::<V>(k, fs, pass, elapsed, budget);
}

/// Asked for a signal, the kernel says 1 where a handler is to be run and 0 where there is
/// nothing to do; a signal that kills unwinds the guest to end it.
pub proof fn law_a_guest_is_told_what_to_do_about_a_signal<F>(
    sh: SharedView<F>,
    ctx: CtxView,
    mem: Seq<u8>,
    out: u32,
)
    ensures
        ({
            let (s, c, m, reply) = sigfetched(sh, ctx, mem, out);
            match fetched(sh, ctx, mem, out).3 {
                SignalDelivery::Nothing => reply == Reply::Return(0),
                SignalDelivery::Handler => reply == Reply::Return(1),
                SignalDelivery::Fatal(status) => reply is Unwind && c.state.suspension == Some(
                    Suspension::Exit(status),
                ),
            }
        }),
{
}

/// Every call a guest makes is counted, whatever comes of it.
pub proof fn law_every_call_is_counted<S, F>(w: World<S, F>)
    requires
        w.sh.syscalls < u64::MAX,
    ensures
        counted(w).sh.syscalls == w.sh.syscalls + 1,
        counted(w) == (World {
            sh: SharedView { syscalls: counted(w).sh.syscalls, ..w.sh },
            ..w
        }),
{
}

/// A program that returns without saying how it ended has ended well; one that said so ends with
/// what it said, and one that jumps to where it never was ends by the signal for a bad address.
pub proof fn law_how_a_program_ends(p: ProcView, mem: Seq<u8>, status: i32, env: u32, val: i32)
    ensures
        p.ctx.state.suspension is None ==> returned(p, mem).2 == After::Done(ProcStep::Ended(0)),
        p.ctx.state.suspension == Some(Suspension::Exit(status)) ==> returned(p, mem).2
            == After::Done(ProcStep::Ended(status)),
        p.ctx.state.suspension == Some(Suspension::Longjmp { env, val })
            && p.ctx.state.jmp_bufs.len() == 0 ==> returned(p, mem).2 == After::Done(
            ProcStep::Ended(11),
        ),
        p.ctx.state.suspension == Some(Suspension::Exec) ==> returned(p, mem).2 is Replace,
{
}

/// A process that is torn down takes its vfork child with it, which then has been killed.
pub proof fn law_a_vfork_child_is_killed_with_its_parent<V: Vfs>(
    sh: SharedView<<V as VfsFile>::Handle>,
    fs: Seq<MountView<<V as VfsFile>::State>>,
    child: TaskView,
    parent: TaskView,
)
    ensures
        ({
            let (s, f) = released_all::<V>(sh, fs, live_descs(child.fds));
            let (after, f2, task) = children_ended::<V>(sh, fs, child, seq![parent]);
            &&& after == s.with_exit(child.pid, 9)
            &&& task == parent
        }),
{
    let stack = seq![parent];
    let (s, f) = released_all::<V>(sh, fs, live_descs(child.fds));
    let next = s.with_exit(child.pid, 9);
    assert(stack.drop_last() =~= Seq::<TaskView>::empty());
    assert(children_ended::<V>(next, f, parent, Seq::empty()) == (next, f, parent));
}

} // verus!
