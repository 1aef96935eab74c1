//! What the calls on descriptors do to the table of them and to the files behind them.
use super::buffers::{law_a_slab_keeps_what_it_was_given, law_the_lowest_free_descriptor};
use super::plain::{lemma_patched_word, word_in};
use super::readiness::behind;
use crate::errno::Errno;
use crate::kernel::fd::{
    cloexec_descs, fd_at, free_from, picked, retained_all, with_fd, DescView, Fd, KindView,
    PipeView,
};
use crate::kernel::mem::{le32, patched, signed_of, word_of};
use crate::kernel::mounts::MountView;
use crate::kernel::state::{released_all, CtxView, SharedView};
use crate::syscall::base::{errno, Sys};
use crate::syscall::exec::exec_done;
use crate::syscall::fds::{
    close_spec, dup3_spec, dup_spec, fcntl_spec, pipe2_spec, pipe_end, with_status,
};
use crate::syscall::process::{clone_spec, exit_spec};
use crate::vfs::{Vfs, VfsFile};
use vstd::prelude::*;

verus! {

/// Whether `now` differs from `before` in descriptor `fd` alone.
pub open spec fn only_fd(before: CtxView, now: CtxView, fd: int) -> bool {
    &&& forall|k: int| k != fd ==> #[trigger] fd_at(now.task.fds, k) == fd_at(before.task.fds, k)
    &&& now == (CtxView {
        task: crate::kernel::task::TaskView { fds: now.task.fds, ..before.task },
        ..before
    })
}

/// A duplicate is a new descriptor, the lowest free one at or above the least wanted, for the
/// same open file: it has the file's kind, flags and path, and the file counts one more
/// descriptor. No other descriptor changes. It fails where there is no such descriptor to
/// duplicate, and where the next free one is past the limit.
pub proof fn law_a_duplicate_is_for_the_same_file<F>(
    sh: SharedView<F>,
    ctx: CtxView,
    fd: i32,
    min: int,
    cloexec: bool,
)
    requires
        0 <= min,
        behind(sh, ctx, fd) matches Some(d) && d.refs < u32::MAX,
        sh.limits.open_files <= i32::MAX,
    ensures
        ({
            let (s, c, r) = dup_spec(sh, ctx, fd, min, cloexec);
            let key = fd_at(ctx.task.fds, fd as int)->0.desc;
            &&& r is Err ==> r == errno::<i32>(Errno::MFILE) && s == sh && c == ctx
            &&& r matches Ok(new) ==> {
                &&& min <= new < sh.limits.open_files
                &&& fd_at(ctx.task.fds, new as int) is None
                &&& forall|k: int| min <= k < new ==> #[trigger] fd_at(ctx.task.fds, k) is Some
                &&& fd_at(c.task.fds, new as int) == Some(Fd { desc: key, cloexec })
                &&& only_fd(ctx, c, new as int)
                &&& behind(s, c, new) == behind(s, c, fd)
                &&& behind(s, c, new) == Some(
                    DescView {
                        refs: (behind(sh, ctx, fd)->0.refs + 1) as u32,
                        ..behind(sh, ctx, fd)->0
                    },
                )
            }
            &&& r is Err ==> forall|k: int|
                min <= k < sh.limits.open_files ==> #[trigger] fd_at(ctx.task.fds, k) is Some
        }),
{
    law_the_lowest_free_descriptor(ctx.task.fds, min);
}

/// To duplicate onto a descriptor makes it one for the same file, whatever it was before, and
/// changes no other; onto itself, or of one that is not open, or past the limit, it fails and
/// changes nothing.
pub proof fn law_a_duplicate_onto_replaces<V: Vfs>(
    sh: SharedView<<V as VfsFile>::Handle>,
    ctx: CtxView,
    fs: Seq<MountView<<V as VfsFile>::State>>,
    fd: i32,
    to: i32,
    flags: u32,
)
    requires
        sh.limits.open_files <= i32::MAX,
    ensures
        ({
            let (s, c, f, r) = dup3_spec::<V>(sh, ctx, fs, fd, to, flags);
            let from = fd_at(ctx.task.fds, fd as int);
            &&& fd == to ==> r == errno::<i32>(Errno::INVAL)
            &&& fd != to && (from is None || to < 0 || to >= sh.limits.open_files) ==> r == errno::<
                i32,
            >(Errno::BADF)
            &&& r is Err ==> s == sh && c == ctx && f == fs
            &&& fd != to && from is Some && 0 <= to < sh.limits.open_files ==> {
                &&& r == Sys::Ok(to)
                &&& fd_at(c.task.fds, to as int) == Some(
                    Fd { desc: from->0.desc, cloexec: flags & 0x80000 != 0 },
                )
                &&& only_fd(ctx, c, to as int)
            }
        }),
{
}

/// To close a descriptor takes it out of the table and leaves every other; to close it again
/// fails.
pub proof fn law_what_is_closed_is_gone<V: Vfs>(
    sh: SharedView<<V as VfsFile>::Handle>,
    ctx: CtxView,
    fs: Seq<MountView<<V as VfsFile>::State>>,
    fd: i32,
)
    ensures
        ({
            let (s, c, f, r) = close_spec::<V>(sh, ctx, fs, fd);
            let (s2, c2, f2, r2) = close_spec::<V>(s, c, f, fd);
            let key = fd_at(ctx.task.fds, fd as int)->0.desc;
            &&& fd_at(ctx.task.fds, fd as int) is None ==> r == errno::<i32>(Errno::BADF) && s == sh
                && c == ctx && f == fs
            &&& r is Ok ==> {
                &&& fd_at(c.task.fds, fd as int) is None
                &&& only_fd(ctx, c, fd as int)
                &&& r2 == errno::<i32>(Errno::BADF)
                &&& c2 == c
            }
            &&& r is Ok && (behind(sh, ctx, fd) matches Some(d) && d.refs > 1) ==> s.descs.get(key)
                == Some(
                DescView {
                    refs: (behind(sh, ctx, fd)->0.refs - 1) as u32,
                    ..behind(sh, ctx, fd)->0
                },
            )
            &&& r is Ok && (behind(sh, ctx, fd) matches Some(d) && d.refs <= 1) ==> s.descs.get(key) is
                None
        }),
{
}

/// `pipe2` makes a new pipe with nothing in it: the first word it stores is a descriptor that
/// can only read from it, the second one that can only write to it, both free before, the
/// lowest there are. Both are marked to be closed on `execve` and not to wait exactly when the
/// caller asks for it.
#[verifier::rlimit(40)]
pub proof fn law_a_new_pipe_has_two_ends<F>(
    sh: SharedView<F>,
    ctx: CtxView,
    mem: Seq<u8>,
    at: u32,
    flags: u32,
)
    requires
        sh.descs.wf(),
        sh.pipes.wf(),
        sh.descs.slots.len() < u32::MAX - 1,
        sh.pipes.slots.len() < u32::MAX,
        at + 8 <= mem.len(),
        at + 8 <= u32::MAX,
    ensures
        ({
            let (s, c, m, r) = pipe2_spec(sh, ctx, mem, at, flags);
            let from = word_in(m, at as int) as i32;
            let to = word_in(m, at + 4) as i32;
            &&& r is Err ==> r == errno::<i32>(Errno::MFILE) && s == sh && c == ctx && m == mem
            &&& r is Ok ==> {
                &&& r == Sys::Ok(0)
                &&& 0 <= from < to < sh.limits.open_files
                &&& fd_at(ctx.task.fds, from as int) is None
                &&& fd_at(ctx.task.fds, to as int) is None
                &&& forall|k: int|
                    0 <= k < to && k != from ==> #[trigger] fd_at(ctx.task.fds, k) is Some
                &&& forall|k: int|
                    k != from && k != to ==> #[trigger] fd_at(c.task.fds, k) == fd_at(
                        ctx.task.fds,
                        k,
                    )
                &&& behind(s, c, from) matches Some(a)
                &&& behind(s, c, to) matches Some(b)
                &&& a.kind matches KindView::PipeRead(k)
                &&& b.kind == KindView::<F>::PipeWrite(k)
                &&& sh.pipes.get(k) is None
                &&& s.pipes.get(k) == Some(
                    PipeView { data: Seq::empty(), readers: 1, writers: 1 },
                )
                &&& a.can_read() && !a.can_write() && b.can_write() && !b.can_read()
                &&& a.nonblocking() == (flags & 0x800 != 0)
                &&& b.nonblocking() == (flags & 0x800 != 0)
                &&& fd_at(c.task.fds, from as int)->0.cloexec == (flags & 0x80000 != 0)
                &&& fd_at(c.task.fds, to as int)->0.cloexec == (flags & 0x80000 != 0)
            }
        }),
{
    lemma_pipe_slabs(sh.descs, sh.pipes, flags);
    lemma_pipe_fds(
        ctx.task.fds,
        Fd { desc: sh.descs.next_key(), cloexec: flags & 0x80000 != 0 },
        Fd {
            desc: sh.descs.insert(pipe_end::<F>(sh.pipes.next_key(), true, flags)).next_key(),
            cloexec: flags & 0x80000 != 0,
        },
    );
    let from = free_from(ctx.task.fds, 0);
    let to = free_from(ctx.task.fds, from + 1);
    if to < i32::MAX {
        lemma_pipe_words(mem, at, from as u32, to as u32);
    }
}

/// The two words that `pipe2` stores.
proof fn lemma_pipe_words(mem: Seq<u8>, at: u32, from: u32, to: u32)
    requires
        at + 8 <= mem.len(),
    ensures
        ({
            let m = patched(patched(mem, at as int, le32(from)), at + 4, le32(to));
            word_in(m, at as int) == from && word_in(m, at + 4) == to
        }),
{
    let m1 = patched(mem, at as int, le32(from));
    lemma_patched_word(mem, at as int, from);
    lemma_patched_word(m1, at + 4, to);
    let m2 = patched(m1, at + 4, le32(to));
    assert(word_in(m2, at as int) == word_in(m1, at as int));
}

/// The two descriptors that `pipe2` opens.
proof fn lemma_pipe_fds(slots: Seq<Option<Fd>>, a: Fd, b: Fd)
    ensures
        ({
            let from = free_from(slots, 0);
            let to = free_from(slots, from + 1);
            let after = with_fd(with_fd(slots, from, a), to, b);
            &&& 0 <= from < to
            &&& fd_at(slots, from) is None
            &&& fd_at(slots, to) is None
            &&& forall|k: int| 0 <= k < to && k != from ==> #[trigger] fd_at(slots, k) is Some
            &&& forall|k: int|
                k != from && k != to ==> #[trigger] fd_at(after, k) == fd_at(slots, k)
            &&& fd_at(after, from) == Some(a)
            &&& fd_at(after, to) == Some(b)
        }),
{
    law_the_lowest_free_descriptor(slots, 0);
    let from = free_from(slots, 0);
    law_the_lowest_free_descriptor(slots, from + 1);
}

/// The pipe and the two open files that `pipe2` makes.
proof fn lemma_pipe_slabs<F>(
    descs: crate::slab::SlabView<DescView<F>>,
    pipes: crate::slab::SlabView<PipeView>,
    flags: u32,
)
    requires
        descs.wf(),
        pipes.wf(),
        descs.slots.len() < u32::MAX - 1,
        pipes.slots.len() < u32::MAX,
    ensures
        ({
            let k = pipes.next_key();
            let a = pipe_end::<F>(k, true, flags);
            let b = pipe_end::<F>(k, false, flags);
            let one = descs.insert(a);
            let two = one.insert(b);
            &&& two.get(descs.next_key()) == Some(a)
            &&& two.get(one.next_key()) == Some(b)
            &&& pipes.get(k) is None
            &&& pipes.insert(PipeView::fresh()).get(k) == Some(PipeView::fresh())
            &&& a.can_read() && !a.can_write() && b.can_write() && !b.can_read()
            &&& a.nonblocking() == (flags & 0x800 != 0)
            &&& b.nonblocking() == (flags & 0x800 != 0)
        }),
{
    let k = pipes.next_key();
    let a = pipe_end::<F>(k, true, flags);
    let b = pipe_end::<F>(k, false, flags);
    let one = descs.insert(a);
    lemma_next_key(descs, a);
    lemma_insert_gets(descs, a, 0);
    assert(one.free.len() > 0 ==> one.free.last() < one.slots.len()) by {
        if descs.free.len() > 1 {
            assert(descs.free[descs.free.len() - 2] < descs.slots.len());
        }
    }
    if descs.free.len() > 0 {
        assert(descs.free[descs.free.len() - 1] < descs.slots.len());
    }
    lemma_insert_gets(one, b, descs.next_key());
    lemma_insert_gets(pipes, PipeView::fresh(), 0);
    law_a_slab_keeps_what_it_was_given(
        pipes,
        PipeView::fresh(),
        if k == 0 {
            1
        } else {
            0
        },
    );
    lemma_pipe_flags(flags);
}

proof fn lemma_pipe_flags(flags: u32)
    ensures
        (0u32 | (flags & 0x800)) & 3 == 0,
        (1u32 | (flags & 0x800)) & 3 == 1,
        ((0u32 | (flags & 0x800)) & 0x800 != 0) == (flags & 0x800 != 0),
        ((1u32 | (flags & 0x800)) & 0x800 != 0) == (flags & 0x800 != 0),
{
    assert((0u32 | (flags & 0x800)) & 3 == 0 && (1u32 | (flags & 0x800)) & 3 == 1 && ((0u32 | (flags
        & 0x800)) & 0x800 != 0) == (flags & 0x800 != 0) && ((1u32 | (flags & 0x800)) & 0x800 != 0)
        == (flags & 0x800 != 0)) by (bit_vector);
}

/// The key that the next value gets is another one than the last one's.
proof fn lemma_next_key<T>(s: crate::slab::SlabView<T>, value: T)
    requires
        s.wf(),
        s.slots.len() < u32::MAX - 1,
    ensures
        s.insert(value).next_key() != s.next_key(),
        s.insert(value).slots.len() < u32::MAX,
{
    if s.free.len() > 1 {
        let n = s.free.len();
        assert(s.free[n - 2] != s.free[n - 1]);
    } else if s.free.len() == 1 {
        assert(s.free[0] < s.slots.len());
    }
}

/// What was there under another key is there after an insertion.
proof fn lemma_insert_gets<T>(s: crate::slab::SlabView<T>, value: T, other: u32)
    requires
        s.slots.len() < u32::MAX,
        s.wf() || (s.free.len() > 0 ==> s.free.last() < s.slots.len()),
    ensures
        s.insert(value).get(s.next_key()) == Some(value),
        other != s.next_key() ==> s.insert(value).get(other) == s.get(other),
{
    if s.free.len() > 0 && s.wf() {
        assert(s.free[s.free.len() - 1] < s.slots.len());
    }
}

/// What `fcntl` sets is what it then tells: the mark to close on `execve`, and of the flags
/// those two that can be changed, while the way the file was opened stays.
pub proof fn law_fcntl_tells_what_was_set<F>(
    sh: SharedView<F>,
    ctx: CtxView,
    fd: i32,
    argument: i32,
)
    requires
        behind(sh, ctx, fd) is Some,
    ensures
        ({
            let (s, c, r) = fcntl_spec(sh, ctx, fd, 2, argument);
            &&& r == Sys::Ok(0)
            &&& s == sh
            &&& fcntl_spec(s, c, fd, 1, 0).2 == Sys::Ok((argument & 1) as i32)
            &&& only_fd(ctx, c, fd as int)
            &&& fd_at(c.task.fds, fd as int)->0.desc == fd_at(ctx.task.fds, fd as int)->0.desc
        }),
        ({
            let (s, c, r) = fcntl_spec(sh, ctx, fd, 4, argument);
            let before = behind(sh, ctx, fd)->0;
            let after = behind(s, c, fd)->0;
            &&& r == Sys::Ok(0)
            &&& c == ctx
            &&& after == (DescView { flags: after.flags, ..before })
            &&& fcntl_spec(s, c, fd, 3, 0).2 == Sys::Ok(signed_of(after.flags))
            &&& after.flags & 3 == before.flags & 3
            &&& after.flags & 0x800 == word_of(argument) & 0x800
            &&& after.flags & 0x400 == word_of(argument) & 0x400
            &&& after.flags & !0xc03u32 == 0
        }),
{
    assert((argument & 1i32 != 0) == (argument & 1i32 == 1)) by (bit_vector);
    assert(argument & 1i32 == 0 || argument & 1i32 == 1) by (bit_vector);
    let flags = behind(sh, ctx, fd)->0.flags;
    let wanted = word_of(argument);
    lemma_status(flags, wanted);
}

proof fn lemma_status(flags: u32, wanted: u32)
    ensures
        with_status(flags, wanted) & 3 == flags & 3,
        with_status(flags, wanted) & 0x800 == wanted & 0x800,
        with_status(flags, wanted) & 0x400 == wanted & 0x400,
        with_status(flags, wanted) & !0xc03u32 == 0,
{
    assert(((flags & 3) | (wanted & (0x400u32 | 0x800u32))) & 3 == flags & 3 && ((flags & 3) | (
    wanted & (0x400u32 | 0x800u32))) & 0x800 == wanted & 0x800 && ((flags & 3) | (wanted & (0x400u32
        | 0x800u32))) & 0x400 == wanted & 0x400 && ((flags & 3) | (wanted & (0x400u32 | 0x800u32)))
        & !0xc03u32 == 0) by (bit_vector);
}

/// `fcntl` duplicates a descriptor at or above its argument.
pub proof fn law_fcntl_duplicates<F>(sh: SharedView<F>, ctx: CtxView, fd: i32, argument: i32)
    requires
        0 <= argument,
    ensures
        fcntl_spec(sh, ctx, fd, 0, argument) == dup_spec(sh, ctx, fd, argument as int, false),
        fcntl_spec(sh, ctx, fd, 1030, argument) == dup_spec(sh, ctx, fd, argument as int, true),
{
}

/// How many descriptors of a table are for the open file `k`.
pub open spec fn uses_of(slots: Seq<Option<Fd>>, k: u32) -> int
    decreases slots.len(),
{
    if slots.len() == 0 {
        0
    } else {
        uses_of(slots.drop_last(), k) + if slots.last() matches Some(entry) && entry.desc == k {
            1int
        } else {
            0int
        }
    }
}

proof fn lemma_retained<F>(
    descs: crate::slab::SlabView<DescView<F>>,
    slots: Seq<Option<Fd>>,
    keep: spec_fn(Fd) -> bool,
    k: u32,
)
    requires
        descs.get(k) matches Some(d) && d.refs + uses_of(slots, k) <= u32::MAX,
        forall|e: Fd| #[trigger] keep(e),
    ensures
        ({
            let d = descs.get(k)->0;
            &&& uses_of(slots, k) >= 0
            &&& retained_all(descs, picked(slots, keep)).get(k) == Some(
                DescView { refs: (d.refs + uses_of(slots, k)) as u32, ..d },
            )
        }),
    decreases slots.len(),
{
    if slots.len() > 0 {
        lemma_uses(slots.drop_last(), k);
        lemma_retained(descs, slots.drop_last(), keep, k);
        let rest = picked(slots.drop_last(), keep);
        match slots.last() {
            Some(entry) => {
                assert(keep(entry));
                assert(rest.push(entry.desc).drop_last() =~= rest);
            },
            None => {},
        }
    }
}

proof fn lemma_uses(slots: Seq<Option<Fd>>, k: u32)
    ensures
        uses_of(slots, k) >= 0,
    decreases slots.len(),
{
    if slots.len() > 0 {
        lemma_uses(slots.drop_last(), k);
    }
}

/// A vfork child shares its parent's open files: each counts one more for every descriptor the
/// child has for it, and is otherwise as it was.
pub proof fn law_a_child_shares_its_parents_files<F>(
    sh: SharedView<F>,
    ctx: CtxView,
    flags: u32,
    k: u32,
)
    requires
        clone_spec(sh, ctx, flags).2 is Ok,
        sh.descs.get(k) matches Some(d) && d.refs + uses_of(ctx.task.fds, k) <= u32::MAX,
    ensures
        ({
            let (s, c, r) = clone_spec(sh, ctx, flags);
            let d = sh.descs.get(k)->0;
            &&& c.task.fds == ctx.task.fds
            &&& s.descs.get(k) == Some(
                DescView { refs: (d.refs + uses_of(ctx.task.fds, k)) as u32, ..d },
            )
        }),
{
    lemma_retained(sh.descs, ctx.task.fds, |e: Fd| true, k);
}

proof fn lemma_not_released<V: Vfs>(
    sh: SharedView<<V as VfsFile>::Handle>,
    fs: Seq<MountView<<V as VfsFile>::State>>,
    keys: Seq<u32>,
    k: u32,
)
    requires
        !keys.contains(k),
    ensures
        released_all::<V>(sh, fs, keys).0.descs.get(k) == sh.descs.get(k),
    decreases keys.len(),
{
    if keys.len() > 0 {
        let front = keys.drop_last();
        assert(!front.contains(k)) by {
            if front.contains(k) {
                let i = choose|i: int| 0 <= i < front.len() && front[i] == k;
                assert(keys[i] == k);
            }
        }
        assert(keys[keys.len() - 1] != k);
        lemma_not_released::<V>(sh, fs, front, k);
    }
}

proof fn lemma_not_picked(slots: Seq<Option<Fd>>, keep: spec_fn(Fd) -> bool, k: u32)
    requires
        forall|i: int|
            0 <= i < slots.len() ==> ((#[trigger] slots[i]) matches Some(e) ==> !(e.desc == k && keep(
                e,
            ))),
    ensures
        !picked(slots, keep).contains(k),
    decreases slots.len(),
{
    if slots.len() > 0 {
        let front = slots.drop_last();
        assert forall|i: int| 0 <= i < front.len() implies ((#[trigger] front[i]) matches Some(e)
            ==> !(e.desc == k && keep(e))) by {
            assert(front[i] == slots[i]);
        }
        lemma_not_picked(front, keep, k);
        let last = slots[slots.len() - 1];
        assert(last == slots.last());
    }
}

/// `execve` closes nothing but what is marked: an open file for which no descriptor is marked is
/// as open as it was.
pub proof fn law_execve_closes_only_what_is_marked<V: Vfs>(
    sh: SharedView<<V as VfsFile>::Handle>,
    ctx: CtxView,
    fs: Seq<MountView<<V as VfsFile>::State>>,
    program: usize,
    exe: Seq<char>,
    argv: Seq<Seq<u8>>,
    envp: Seq<Seq<u8>>,
    k: u32,
)
    requires
        forall|i: int|
            0 <= i < ctx.task.fds.len() ==> ((#[trigger] ctx.task.fds[i]) matches Some(e) ==> !(e.desc
                == k && e.cloexec)),
    ensures
        exec_done::<V>(sh, ctx, fs, program, exe, argv, envp).0.descs.get(k) == sh.descs.get(k),
{
    lemma_not_picked(ctx.task.fds, |e: Fd| e.cloexec, k);
    lemma_not_released::<V>(sh, fs, cloexec_descs(ctx.task.fds), k);
}

proof fn lemma_released_once<V: Vfs>(
    sh: SharedView<<V as VfsFile>::Handle>,
    fs: Seq<MountView<<V as VfsFile>::State>>,
    slots: Seq<Option<Fd>>,
    keep: spec_fn(Fd) -> bool,
    k: u32,
    i: int,
)
    requires
        0 <= i < slots.len(),
        slots[i] matches Some(e) && e.desc == k && keep(e),
        forall|j: int|
            0 <= j < slots.len() && j != i ==> ((#[trigger] slots[j]) matches Some(e) ==> e.desc != k),
        sh.descs.get(k) matches Some(d) && d.refs == 1,
    ensures
        released_all::<V>(sh, fs, picked(slots, keep)).0.descs.get(k) is None,
    decreases slots.len(),
{
    let front = slots.drop_last();
    let n = slots.len() - 1;
    let rest = picked(front, keep);
    assert(slots.last() == slots[n]);
    if i == n {
        assert forall|j: int| 0 <= j < front.len() implies ((#[trigger] front[j]) matches Some(e)
            ==> !(e.desc == k && keep(e))) by {
            assert(front[j] == slots[j]);
        }
        lemma_not_picked(front, keep, k);
        lemma_not_released::<V>(sh, fs, rest, k);
        assert(rest.push(k).drop_last() =~= rest);
    } else {
        assert forall|j: int| 0 <= j < front.len() && j != i implies ((
        #[trigger] front[j]) matches Some(e) ==> e.desc != k) by {
            assert(front[j] == slots[j]);
        }
        assert(front[i] == slots[i]);
        lemma_released_once::<V>(sh, fs, front, keep, k, i);
        if slots[n] is Some {
            let other = slots[n]->0.desc;
            assert(rest.push(other).drop_last() =~= rest);
        }
    }
}

/// And it does close what is marked: an open file with no other descriptor is gone. When a vfork
/// child exits, that holds of every one of its own.
pub proof fn law_execve_and_exit_close_files<V: Vfs>(
    sh: SharedView<<V as VfsFile>::Handle>,
    ctx: CtxView,
    fs: Seq<MountView<<V as VfsFile>::State>>,
    program: usize,
    exe: Seq<char>,
    argv: Seq<Seq<u8>>,
    envp: Seq<Seq<u8>>,
    k: u32,
    fd: int,
    code: i32,
)
    requires
        0 <= fd < ctx.task.fds.len(),
        ctx.task.fds[fd] matches Some(e) && e.desc == k,
        forall|j: int|
            0 <= j < ctx.task.fds.len() && j != fd ==> ((#[trigger] ctx.task.fds[j]) matches Some(e)
                ==> e.desc != k),
        sh.descs.get(k) matches Some(d) && d.refs == 1,
    ensures
        ctx.task.fds[fd]->0.cloexec ==> exec_done::<V>(
            sh,
            ctx,
            fs,
            program,
            exe,
            argv,
            envp,
        ).0.descs.get(k) is None,
        ctx.vfork_stack.len() > 0 ==> exit_spec::<V>(sh, ctx, fs, code).0.descs.get(k) is None,
{
    if ctx.task.fds[fd]->0.cloexec {
        lemma_released_once::<V>(sh, fs, ctx.task.fds, |e: Fd| e.cloexec, k, fd);
    }
    lemma_released_once::<V>(sh, fs, ctx.task.fds, |e: Fd| true, k, fd);
}

} // verus!
