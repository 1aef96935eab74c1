//! What holds of every system call.
use super::buffers::law_the_lowest_free_descriptor;
use crate::nr;
use crate::abi::{
    AT_FDCWD, TCGETS, TCSETS, TCSETSF, TCSETSW, TIOCGPGRP, TIOCGWINSZ, TIOCNOTTY, TIOCSCTTY,
    TIOCSPGRP, TIOCSWINSZ,
};
use crate::errno::Errno;
use crate::kernel::fd::{fd_at, DescView, DirEntView, Fd, KindView};
use crate::kernel::mem::{le64, text_at};
use crate::kernel::mounts::MountView;
use crate::kernel::namespace::{probed, resolved, settled, NodeView, WhoView};
use crate::kernel::path::{clean, is_absolute, is_name, law_path_round_trip, path_of, slashed};
use crate::kernel::state::{group_of, Call, CtxView, SharedView, PAGE};
use crate::kernel::task::{has_signal, law_raise_adds_one_signal, RecordView, NSIG};
use crate::syscall::base::{errno, looked_up, Fault, Sys, World};
use crate::syscall::fds::{dup3_spec, dup_spec, pipe2_spec, placed, record_bytes};
use crate::syscall::io::read_kind;
use crate::syscall::ioctl::ioctl_spec;
use crate::syscall::memory::{brk_spec, mmap_spec};
use crate::syscall::open::{
    added_entry, dots, entry_path, mount_entry, mounted_listing, node_opening, virtual_listing,
    wants_write, with_added, Opening,
};
use crate::syscall::path::{follows, mkdirat_spec, truncate_spec, unlinkat_spec};
use crate::syscall::signal::{is_hit, kill_spec, live_signals};
use crate::syscall::stat::{
    facts_written, ino_of, node_facts, statx_block, statx_facts, statx_spec, text_hash, Facts,
};
use crate::syscall::table::{
    answered, concluded, counted, dispatched, file_call, handled, negative, path_call, process_call,
    signal_call, ClockView, Outcome,
};
use crate::vfs::{DirEntryView, FileType, Stat, Vfs, VfsFile};
use vstd::prelude::*;

verus! {

// ---------------------------------------------------------------------------------------------
// no network

/// Whether a number is that of a call on sockets.
pub open spec fn is_socket_call(number: i32) -> bool {
    nr::SOCKET <= number <= nr::RECVMSG || number == nr::ACCEPT4
}

/// There is no network: every call on sockets is answered with `ENOSYS`, and does nothing.
pub proof fn law_there_is_no_network<V: Vfs>(
    w: World<<V as VfsFile>::State, <V as VfsFile>::Handle>,
    k: ClockView,
    c: Call,
)
    requires
        is_socket_call(c.number),
    ensures
        handled::<V>(w, k, c) == (w, errno::<i32>(Errno::NOSYS)),
        dispatched::<V>(w, k, c) == (
            answered(counted(w)),
            Outcome::Value(negative(Errno::NOSYS)),
        ),
{
    lemma_not_a_process_call::<V>(w, k, c);
    lemma_not_a_signal_call::<V>(w, k, c);
    lemma_not_a_file_call::<V>(w, k, c);
    lemma_not_a_path_call::<V>(w, k, c);
    lemma_not_a_process_call::<V>(counted(w), k, c);
    lemma_not_a_signal_call::<V>(counted(w), k, c);
    lemma_not_a_file_call::<V>(counted(w), k, c);
    lemma_not_a_path_call::<V>(counted(w), k, c);
}

proof fn lemma_not_a_process_call<V: Vfs>(
    w: World<<V as VfsFile>::State, <V as VfsFile>::Handle>,
    k: ClockView,
    c: Call,
)
    requires
        is_socket_call(c.number),
    ensures
        process_call::<V>(w, k, c) is None,
{
    reveal(process_call);
}

proof fn lemma_not_a_signal_call<V: Vfs>(
    w: World<<V as VfsFile>::State, <V as VfsFile>::Handle>,
    k: ClockView,
    c: Call,
)
    requires
        is_socket_call(c.number),
    ensures
        signal_call::<V>(w, k, c) is None,
{
    reveal(signal_call);
}

proof fn lemma_not_a_file_call<V: Vfs>(
    w: World<<V as VfsFile>::State, <V as VfsFile>::Handle>,
    k: ClockView,
    c: Call,
)
    requires
        is_socket_call(c.number),
    ensures
        file_call::<V>(w, k, c) is None,
{
    reveal(file_call);
}

proof fn lemma_not_a_path_call<V: Vfs>(
    w: World<<V as VfsFile>::State, <V as VfsFile>::Handle>,
    k: ClockView,
    c: Call,
)
    requires
        is_socket_call(c.number),
    ensures
        path_call::<V>(w, k, c) is None,
{
    reveal(path_call);
}

// ---------------------------------------------------------------------------------------------
// the terminal

/// Whether a request is one that only a terminal answers.
pub open spec fn is_terminal_request(request: u32) -> bool {
    request == TIOCGWINSZ || request == TCGETS || request == TCSETS || request == TCSETSW || request
        == TCSETSF || request == TIOCGPGRP || request == TIOCSPGRP || request == TIOCSWINSZ
        || request == TIOCSCTTY || request == TIOCNOTTY
}

/// Without a terminal nothing is one: every terminal request is `ENOTTY` on every descriptor
/// that is open, and does nothing.
pub proof fn law_without_a_terminal_nothing_is_one<F>(
    sh: SharedView<F>,
    ctx: CtxView,
    mem: Seq<u8>,
    fd: i32,
    request: u32,
    argument: u32,
)
    requires
        sh.terminal is None,
        is_terminal_request(request),
        fd_at(ctx.task.fds, fd as int) matches Some(entry) && sh.descs.contains(entry.desc),
    ensures
        ioctl_spec(sh, ctx, mem, fd, request, argument) == (
            sh,
            ctx,
            mem,
            errno::<i32>(Errno::NOTTY),
        ),
{
}

/// With a terminal, only a standard stream is one.
pub proof fn law_only_a_stream_is_a_terminal<F>(
    sh: SharedView<F>,
    ctx: CtxView,
    mem: Seq<u8>,
    fd: i32,
    request: u32,
    argument: u32,
)
    requires
        is_terminal_request(request),
        fd_at(ctx.task.fds, fd as int) matches Some(entry) && (sh.descs.get(entry.desc) matches Some(
            d,
        ) && !d.is_stream()),
    ensures
        ioctl_spec(sh, ctx, mem, fd, request, argument) == (
            sh,
            ctx,
            mem,
            errno::<i32>(Errno::NOTTY),
        ),
{
}

// ---------------------------------------------------------------------------------------------
// waiting

/// A wait that a signal handler interrupts is answered with `EINTR`; one that nothing
/// interrupts is answered not at all, and is asked again just as it was.
pub proof fn law_a_signal_interrupts_a_wait<S, F>(w: World<S, F>)
    ensures
        live_signals(w.sh, w.ctx) != 0 ==> concluded(w, Sys::Err(Fault::Block)).1
            == Outcome::Value(negative(Errno::INTR)),
        live_signals(w.sh, w.ctx) == 0 ==> concluded(w, Sys::Err(Fault::Block)) == (
            w,
            Outcome::Blocked,
        ),
{
}

// ---------------------------------------------------------------------------------------------
// programs

/// A program is executable and nothing else: opened for reading it is empty, opened for writing
/// it is refused, and it can neither be removed, nor cut short, nor replaced by a directory.
pub proof fn law_a_program_can_only_be_executed<V: Vfs>(
    sh: SharedView<<V as VfsFile>::Handle>,
    ctx: CtxView,
    fs: Seq<MountView<<V as VfsFile>::State>>,
    mem: Seq<u8>,
    uptime: Seq<char>,
    path_at: u32,
    path: Seq<char>,
    dirfd: i32,
    flags: u32,
    mode: u32,
    removal: i32,
    len: u64,
    realtime: u128,
    count: usize,
)
    requires
        text_at(mem, path_at as int) == Ok::<Seq<char>, Errno>(path),
    ensures
        looked_up::<V>(sh, ctx, fs, dirfd, path, false).2 matches Ok(NodeView::Program { .. })
            ==> unlinkat_spec::<V>(sh, ctx, fs, mem, dirfd, path_at, removal).2 == errno::<i32>(
            Errno::ROFS,
        ),
        looked_up::<V>(sh, ctx, fs, AT_FDCWD, path, true).2 matches Ok(NodeView::Program { .. })
            ==> truncate_spec::<V>(sh, ctx, fs, mem, path_at, len).2 == errno::<i32>(Errno::ROFS),
        looked_up::<V>(sh, ctx, fs, dirfd, path, true).2 matches Ok(NodeView::Program { .. })
            ==> mkdirat_spec::<V>(sh, ctx, fs, mem, dirfd, path_at, mode).2 == errno::<i32>(
            Errno::EXIST,
        ),
        forall|id: usize, guest: Seq<char>|
            ({
                let opening = (#[trigger] node_opening::<V>(
                    sh,
                    ctx,
                    fs,
                    uptime,
                    NodeView::Program { id, guest },
                    flags,
                    mode,
                )).2;
                if wants_write(flags) {
                    opening == Opening::<<V as VfsFile>::Handle>::Fail(Fault::Errno(Errno::ROFS))
                } else {
                    opening == Opening::<<V as VfsFile>::Handle>::Fresh(KindView::Null, guest)
                }
            }),
        forall|key: u32, d: DescView<<V as VfsFile>::Handle>|
            d.kind == KindView::<<V as VfsFile>::Handle>::Null ==> (#[trigger] read_kind::<V>(
                sh,
                fs,
                realtime,
                key,
                d,
                count,
            )).2 == Ok::<Seq<u8>, Fault>(Seq::empty()),
{
}

// ---------------------------------------------------------------------------------------------
// signals

/// `kill` makes its signal pending for every process it reaches and for no other, and changes
/// nothing else about any of them but that a sleep is over.
pub proof fn law_kill_reaches_whom_it_names<F>(
    sh: SharedView<F>,
    ctx: CtxView,
    target: i32,
    signal: i32,
    i: int,
    other: i32,
)
    requires
        0 < signal < NSIG,
        0 < other < NSIG,
        0 <= i < sh.table.len(),
    ensures
        ({
            let before = sh.table[i];
            let after = kill_spec(sh, ctx, target, signal).0.table[i];
            let hit = is_hit(before, target, ctx.task.pid, group_of(sh.table, ctx.task.pid));
            &&& has_signal(after.pending, other) == (has_signal(before.pending, other) || (hit && other
                == signal))
            &&& after == (RecordView {
                pending: after.pending,
                wake_at: if hit {
                    None
                } else {
                    before.wake_at
                },
                ..before
            })
        }),
{
    law_raise_adds_one_signal(sh.table[i], signal, other);
}

// ---------------------------------------------------------------------------------------------
// limits

/// The limit on descriptors is a ceiling: a descriptor that is given out lies below it, and
/// where none is free the answer is `EMFILE` and the table is as it was.
pub proof fn law_the_descriptor_limit_holds(ctx: CtxView, entry: Fd, min: int, limit: usize)
    requires
        0 <= min,
    ensures
        ({
            let (after, r) = placed(ctx, entry, min, limit);
            match r {
                Ok(fd) => min <= fd < limit && fd_at(ctx.task.fds, fd as int) is None && fd_at(
                    after.task.fds,
                    fd as int,
                ) == Some(entry),
                Err(x) => x == Fault::Errno(Errno::MFILE) && after == ctx,
            }
        }),
{
    law_the_lowest_free_descriptor(ctx.task.fds, min);
}

/// A duplicate that cannot be had counts for nothing, and a pipe that cannot be had whole is not
/// made in part: where `dup`, `dup3` or `pipe2` fails, everything is as it was.
pub proof fn law_a_failed_duplicate_changes_nothing<V: Vfs>(
    sh: SharedView<<V as VfsFile>::Handle>,
    ctx: CtxView,
    fs: Seq<MountView<<V as VfsFile>::State>>,
    mem: Seq<u8>,
    fd: i32,
    to: i32,
    min: int,
    cloexec: bool,
    at: u32,
    flags: u32,
)
    ensures
        ({
            let (s, c, r) = dup_spec(sh, ctx, fd, min, cloexec);
            r is Err ==> s == sh && c == ctx
        }),
        ({
            let (s, c, f, r) = dup3_spec::<V>(sh, ctx, fs, fd, to, flags);
            r is Err ==> s == sh && c == ctx && f == fs
        }),
        ({
            let (s, c, m, r) = pipe2_spec(sh, ctx, mem, at, flags);
            r is Err ==> s == sh && c == ctx && m == mem
        }),
{
}

/// The limits on memory are ceilings: memory grows only by what the session still affords and
/// one process may reach, and where it does not, nothing is charged.
pub proof fn law_the_memory_limits_hold<V: Vfs>(
    sh: SharedView<<V as VfsFile>::Handle>,
    ctx: CtxView,
    fs: Seq<MountView<<V as VfsFile>::State>>,
    size: int,
    request: u32,
    addr: u32,
    length: u32,
    flags: i32,
    fd: i32,
    offset: i32,
)
    requires
        sh.memory_used <= sh.limits.memory,
        0 <= size,
    ensures
        ({
            let (s, c, r) = brk_spec(sh, ctx, size, request);
            &&& s.memory_used <= sh.limits.memory
            &&& r matches Err(Fault::Grow(pages)) ==> request <= sh.limits.memory_per_process
                && s.memory_used == sh.memory_used + pages * PAGE
            &&& !(r matches Err(Fault::Grow(_))) ==> s == sh && c == ctx
        }),
        ({
            let (s, c, f, r) = mmap_spec::<V>(
                sh,
                ctx,
                fs,
                size,
                addr,
                length,
                flags,
                fd,
                offset,
            );
            &&& s.memory_used <= sh.limits.memory
            &&& r matches Err(Fault::Grow(pages)) ==> size + pages * PAGE
                <= sh.limits.memory_per_process && s.memory_used == sh.memory_used + pages * PAGE
            &&& !(r matches Err(Fault::Grow(_))) ==> s.memory_used == sh.memory_used
                && c.state.charged == ctx.state.charged && r is Err
        }),
{
}

// ---------------------------------------------------------------------------------------------
// inode numbers

/// The path of a name in a directory is the path of their components.
proof fn lemma_entry_path(comps: Seq<Seq<char>>, name: Seq<char>)
    requires
        clean(comps),
    ensures
        entry_path(path_of(comps), name) == path_of(comps.push(name)),
{
    reveal_strlit("/");
    assert(comps.push(name).drop_last() =~= comps);
    if comps.len() == 0 {
        assert(slashed(comps) =~= Seq::empty());
        assert(entry_path(path_of(comps), name) =~= path_of(comps.push(name)));
    } else {
        assert(is_name(comps[comps.len() - 1]));
        assert(slashed(comps).len() >= 2);
        assert(entry_path(path_of(comps), name) =~= path_of(comps.push(name)));
    }
}

/// The path `statx` hashes where a file has no number of its own.
proof fn lemma_facts_name<V: Vfs>(
    sh: SharedView<<V as VfsFile>::Handle>,
    ctx: CtxView,
    fs: Seq<MountView<<V as VfsFile>::State>>,
    uptime: Seq<char>,
    who: WhoView,
    comps: Seq<Seq<char>>,
    follow: bool,
)
    ensures
        settled::<V>(sh.overlay, fs, who, comps).1 matches Ok(node) ==> (node_facts::<V>(
            sh,
            ctx,
            settled::<V>(sh.overlay, fs, who, comps).0,
            uptime,
            node,
            follow,
        ).2 matches Ok(facts) ==> facts.name == path_of(comps)),
{
}

/// A file that has no number of its own has one all the same, and only one: the number a listing
/// of its directory gives it, whether a mount or the kernel lists it, is the number that `statx`
/// writes for it. It depends on the path alone and is never zero.
pub proof fn law_a_file_has_one_number<V: Vfs>(
    sh: SharedView<<V as VfsFile>::Handle>,
    ctx: CtxView,
    fs: Seq<MountView<<V as VfsFile>::State>>,
    uptime: Seq<char>,
    who: WhoView,
    comps: Seq<Seq<char>>,
    e: DirEntryView,
    kind: FileType,
    follow: bool,
)
    requires
        clean(comps),
        e.ino == 0,
    ensures
        ({
            let number = ino_of(path_of(comps.push(e.name)));
            &&& number != 0
            &&& mount_entry(path_of(comps), e).ino == number
            &&& added_entry(path_of(comps), e.name, kind).ino == number
            &&& settled::<V>(sh.overlay, fs, who, comps.push(e.name)) matches (next, Ok(node))
                ==> (node_facts::<V>(sh, ctx, next, uptime, node, follow).2 matches Ok(facts)
                ==> facts.stat.ino == 0 ==> statx_block(
                facts.stat,
                facts.name,
                facts.rdev,
            ).subrange(32, 40) == le64(number))
        }),
{
    let path = path_of(comps.push(e.name));
    lemma_entry_path(comps, e.name);
    lemma_facts_name::<V>(sh, ctx, fs, uptime, who, comps.push(e.name), follow);
    let hash = text_hash(path);
    assert((hash >> 1u64) | 1 != 0) by (bit_vector);
    assert forall|stat: Stat, rdev: (u32, u32)| stat.ino == 0 implies (#[trigger] statx_block(
        stat,
        path,
        rdev,
    )).subrange(32, 40) == le64(ino_of(path)) by {
        lemma_number_in_block(stat, path, rdev);
    }
}

/// `statx` of a name in a directory, where no link lies on the way: the number written at its
/// place in the guest's buffer is that of the path, unless the file has one of its own. The
/// memory is no larger than a word can address.
pub proof fn law_statx_writes_the_number_of_the_path<V: Vfs>(
    sh: SharedView<<V as VfsFile>::Handle>,
    ctx: CtxView,
    fs: Seq<MountView<<V as VfsFile>::State>>,
    mem: Seq<u8>,
    uptime: Seq<char>,
    dirfd: i32,
    path_at: u32,
    flags: i32,
    at: u32,
    comps: Seq<Seq<char>>,
    name: Seq<char>,
)
    requires
        clean(comps),
        is_name(name),
        mem.len() <= 0x1_0000_0000,
        text_at(mem, path_at as int) == Ok::<Seq<char>, Errno>(path_of(comps.push(name))),
        probed::<V>(sh.overlay, fs, ctx.who(), comps.push(name), 1, follows(flags)).1 is Clear,
        statx_spec::<V>(sh, ctx, fs, mem, uptime, dirfd, path_at, flags, at).3 is Ok,
    ensures
        ({
            let path = path_of(comps.push(name));
            let after = statx_spec::<V>(sh, ctx, fs, mem, uptime, dirfd, path_at, flags, at).2;
            &&& statx_facts::<V>(sh, ctx, fs, uptime, dirfd, path, flags).2 matches Ok(facts)
            &&& facts.name == path
            &&& after.subrange(at + 32, at + 40) == le64(number_of(facts))
        }),
{
    let place = comps.push(name);
    let path = path_of(place);
    assert(clean(place)) by {
        assert forall|i: int| 0 <= i < place.len() implies is_name(#[trigger] place[i]) by {
            if i < comps.len() {
                assert(place[i] == comps[i]);
            }
        }
    }
    law_path_round_trip(place, "/"@);
    lemma_path_is_absolute(place);
    let next = probed::<V>(sh.overlay, fs, ctx.who(), place, 1, follows(flags)).0;
    lemma_facts_name::<V>(sh, ctx, next, uptime, ctx.who(), place, follows(flags));
    assert(resolved::<V>(sh.overlay, fs, ctx.who(), "/"@, path, follows(flags)) == settled::<V>(
        sh.overlay,
        next,
        ctx.who(),
        place,
    ));
    let facts = statx_facts::<V>(sh, ctx, fs, uptime, dirfd, path, flags).2->Ok_0;
    assert(facts.name == path);
    lemma_number_written(mem, at, facts);
}

/// The number of a file: its own, or that of its path.
pub open spec fn number_of(facts: Facts) -> u64 {
    if facts.stat.ino == 0 {
        ino_of(facts.name)
    } else {
        facts.stat.ino
    }
}

proof fn lemma_number_in_block(stat: Stat, path: Seq<char>, rdev: (u32, u32))
    ensures
        statx_block(stat, path, rdev).len() == 256,
        statx_block(stat, path, rdev).subrange(32, 40) == le64(
            if stat.ino == 0 {
                ino_of(path)
            } else {
                stat.ino
            },
        ),
{
    let number = if stat.ino == 0 {
        ino_of(path)
    } else {
        stat.ino
    };
    assert(statx_block(stat, path, rdev).subrange(32, 40) =~= le64(number));
}

proof fn lemma_number_written(mem: Seq<u8>, at: u32, facts: Facts)
    requires
        mem.len() <= 0x1_0000_0000,
        facts_written(mem, at, facts).1 is Ok,
    ensures
        facts_written(mem, at, facts).0.subrange(at + 32, at + 40) == le64(number_of(facts)),
{
    let device = facts.rdev != (0u32, 0u32);
    let stat = if device {
        Stat { file_type: FileType::File, ..facts.stat }
    } else {
        facts.stat
    };
    lemma_number_in_block(stat, facts.name, facts.rdev);
    let block = statx_block(stat, facts.name, facts.rdev);
    let after = facts_written(mem, at, facts).0;
    assert forall|i: int| 0 <= i < 8 implies after[at + 32 + i] == #[trigger] block.subrange(
        32,
        40,
    )[i] by {
        assert(block.subrange(32, 40)[i] == block[32 + i]);
    }
    assert(after.subrange(at + 32, at + 40) =~= block.subrange(32, 40));
}

pub proof fn lemma_path_is_absolute(comps: Seq<Seq<char>>)
    ensures
        is_absolute(path_of(comps)),
    decreases comps.len(),
{
    reveal_strlit("/");
    if comps.len() == 1 {
        assert(slashed(comps.drop_last()) =~= Seq::empty());
    } else if comps.len() > 1 {
        lemma_path_is_absolute(comps.drop_last());
    }
}

/// The listing of a directory gives every name the number of its path, unless the mount has one
/// of its own for it; and the record that `getdents64` writes for an entry begins with it.
pub proof fn law_a_listing_gives_the_numbers_of_the_paths(
    comps: Seq<Seq<char>>,
    items: Seq<DirEntryView>,
    names: Seq<(Seq<char>, FileType)>,
    i: int,
    pos: int,
)
    requires
        clean(comps),
        2 <= i,
    ensures
        ({
            let list = mounted_listing(path_of(comps), items, names);
            i < list.len() ==> {
                ||| list[i].ino == ino_of(path_of(comps.push(list[i].name)))
                ||| exists|j: int|
                    0 <= j < items.len() && (#[trigger] items[j]).name == list[i].name
                        && items[j].ino == list[i].ino && items[j].ino != 0
            }
        }),
        ({
            let list = virtual_listing(path_of(comps), names);
            i < list.len() ==> list[i].ino == ino_of(path_of(comps.push(list[i].name)))
        }),
        forall|e: DirEntView| (#[trigger] record_bytes(e, pos)).subrange(0, 8) == le64(e.ino),
{
    let guest = path_of(comps);
    let own = dots() + items.map_values(|e: DirEntryView| mount_entry(guest, e));
    lemma_added_numbers(comps, own, names, names.len() as int, i);
    if i < own.len() {
        assert(own[i] == mount_entry(guest, items[i - 2]));
        lemma_entry_path(comps, items[i - 2].name);
    }
    let list = virtual_listing(guest, names);
    if i < list.len() {
        assert(list[i] == added_entry(guest, names[i - 2].0, names[i - 2].1));
        lemma_entry_path(comps, names[i - 2].0);
    }
    assert forall|e: DirEntView| (#[trigger] record_bytes(e, pos)).subrange(0, 8) == le64(e.ino) by {
        assert(record_bytes(e, pos).subrange(0, 8) =~= le64(e.ino));
    }
}

proof fn lemma_added_numbers(
    comps: Seq<Seq<char>>,
    own: Seq<DirEntView>,
    names: Seq<(Seq<char>, FileType)>,
    n: int,
    i: int,
)
    requires
        clean(comps),
        0 <= i,
        0 <= n <= names.len(),
    ensures
        ({
            let list = with_added(path_of(comps), own, names, n);
            &&& own.len() <= list.len()
            &&& i < own.len() ==> list[i] == own[i]
            &&& own.len() <= i < list.len() ==> list[i].ino == ino_of(
                path_of(comps.push(list[i].name)),
            )
        }),
    decreases n,
{
    if n > 0 {
        lemma_added_numbers(comps, own, names, n - 1, i);
        lemma_entry_path(comps, names[n - 1].0);
    }
}

} // verus!
