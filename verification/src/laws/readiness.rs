//! What waiting for descriptors says agrees with what reading and writing them does.
use super::plain::{half_in, word_in};
use super::signals::{is_record, lemma_is_record};
use crate::errno::Errno;
use crate::kernel::fd::{fd_at, DescView, KindView};
use crate::kernel::mem::{le16, patched, timespec_at, Nanos};
use crate::kernel::mounts::MountView;
use crate::kernel::state::{CtxView, SharedView};
use crate::syscall::base::{errno, Fault, Sys};
use crate::syscall::io::{line_len, read_spec, write_spec};
use crate::syscall::poll::{
    count_ready, fd_polled, poll_results, ppoll_spec, results_written, unsigned_half, wait_until,
};
use crate::vfs::{Vfs, VfsFile};
use vstd::prelude::*;

verus! {

// ---------------------------------------------------------------------------------------------
// one descriptor

/// The open file behind a descriptor.
pub open spec fn behind<F>(sh: SharedView<F>, ctx: CtxView, fd: i32) -> Option<DescView<F>> {
    match fd_at(ctx.task.fds, fd as int) {
        Some(entry) => sh.descs.get(entry.desc),
        None => None,
    }
}

proof fn lemma_event_bits(e: i16)
    by (bit_vector)
    ensures
        (1i16 & (e | 0x10i16 | 8i16 | 0x20i16)) & 1i16 == e & 1i16,
        (1i16 & (e | 0x10i16 | 8i16 | 0x20i16)) & 0x10i16 == 0,
        (4i16 & (e | 0x10i16 | 8i16 | 0x20i16)) & 4i16 == e & 4i16,
        (4i16 & (e | 0x10i16 | 8i16 | 0x20i16)) & 8i16 == 0,
        (0x10i16 & (e | 0x10i16 | 8i16 | 0x20i16)) == 0x10i16,
        (8i16 & (e | 0x10i16 | 8i16 | 0x20i16)) == 8i16,
        (0i16 & (e | 0x10i16 | 8i16 | 0x20i16)) == 0,
        0x10i16 & 0x10i16 == 0x10i16,
        0x10i16 & 1i16 == 0,
        8i16 & 8i16 == 8i16,
        8i16 & 4i16 == 0,
        0i16 & 1i16 == 0,
        0i16 & 4i16 == 0,
        0i16 & 8i16 == 0,
        0i16 & 0x10i16 == 0,
        ((1i16 | 4i16) & (e | 0x10i16 | 8i16 | 0x20i16)) & 1i16 == e & 1i16,
        ((1i16 | 4i16) & (e | 0x10i16 | 8i16 | 0x20i16)) & 4i16 == e & 4i16,
{
}

proof fn lemma_line_len(data: Seq<u8>, i: int, max: int)
    requires
        0 <= i <= max,
        i <= data.len(),
    ensures
        i <= line_len(data, i, max) <= max,
        line_len(data, i, max) <= data.len(),
        i < max && i < data.len() ==> i < line_len(data, i, max),
    decreases max - i,
{
    if i < max && i < data.len() && data[i] != 10 {
        lemma_line_len(data, i + 1, max);
    }
}

/// Readiness agrees with reading. A pipe or the standard input that would give a byte is
/// reported readable to whoever asks, one that is reported readable does not make a reader
/// wait, and a pipe is reported hung up exactly when it would give the end of the file.
pub proof fn law_readiness_agrees_with_reading<V: Vfs>(
    sh: SharedView<<V as VfsFile>::Handle>,
    ctx: CtxView,
    fs: Seq<MountView<<V as VfsFile>::State>>,
    realtime: u128,
    fd: i32,
    len: usize,
    events: i16,
)
    requires
        len > 0,
        behind(sh, ctx, fd) matches Some(d) && d.can_read() && (d.kind is Stdin || (d.kind matches
            KindView::PipeRead(k) && sh.pipes.get(k) is Some)),
    ensures
        ({
            let got = read_spec::<V>(sh, ctx, fs, realtime, fd, len).2;
            let seen = fd_polled(sh, ctx, fd, events);
            let gives = got matches Ok(data) && data.len() >= 1;
            let ended = got matches Ok(data) && data.len() == 0;
            let piped = behind(sh, ctx, fd)->0.kind is PipeRead;
            &&& gives && events & 1 != 0 ==> seen & 1 != 0
            &&& gives && events & 1 != 0 ==> seen != 0
            &&& seen & 1 != 0 ==> got is Ok
            &&& piped ==> (seen & 0x10 != 0 <==> ended)
            &&& !piped && ended && events & 1 != 0 ==> seen & 1 != 0
            &&& got is Err ==> seen == 0
        }),
{
    lemma_event_bits(events);
    if sh.stdin.data.len() > 0 {
        lemma_line_len(sh.stdin.data, 0, len as int);
    }
}

/// Readiness agrees with writing. A pipe that would take a byte is reported writable to
/// whoever asks, one that is reported writable does not make a writer wait, and a pipe is
/// reported broken exactly when a write would fail for want of a reader. The captured streams
/// always take bytes.
pub proof fn law_readiness_agrees_with_writing<V: Vfs>(
    sh: SharedView<<V as VfsFile>::Handle>,
    ctx: CtxView,
    fs: Seq<MountView<<V as VfsFile>::State>>,
    fd: i32,
    data: Seq<u8>,
    events: i16,
)
    requires
        data.len() > 0,
        behind(sh, ctx, fd) matches Some(d) && d.can_write() && (d.kind is Stdout || (d.kind matches
            KindView::PipeWrite(k) && sh.pipes.get(k) is Some)),
    ensures
        ({
            let done = write_spec::<V>(sh, ctx, fs, fd, data).2;
            let seen = fd_polled(sh, ctx, fd, events);
            &&& done is Ok && events & 4 != 0 ==> seen & 4 != 0
            &&& seen & 4 != 0 ==> done is Ok
            &&& seen & 8 != 0 <==> done == errno::<usize>(Errno::PIPE)
            &&& done == Err::<usize, Fault>(Fault::Block) || done == errno::<usize>(Errno::AGAIN)
                ==> seen == 0
        }),
{
    lemma_event_bits(events);
}

/// A descriptor that is not open is reported as such, whatever was asked; a file, a directory
/// and the like are always ready for what was asked.
pub proof fn law_what_never_waits_is_always_ready<F>(
    sh: SharedView<F>,
    ctx: CtxView,
    fd: i32,
    events: i16,
)
    ensures
        behind(sh, ctx, fd) is None ==> fd_polled(sh, ctx, fd, events) == 0x20,
        behind(sh, ctx, fd) matches Some(d) && (d.kind is File || d.kind is Memory || d.kind is Null
            || d.kind is Zero || d.kind is Random || d.kind is Dir) ==> (fd_polled(
            sh,
            ctx,
            fd,
            events,
        ) & 1 == events & 1 && fd_polled(sh, ctx, fd, events) & 4 == events & 4),
{
    lemma_event_bits(events);
}

// ---------------------------------------------------------------------------------------------
// many descriptors

/// The number in a signed half word.
pub open spec fn signed_half(v: int) -> int {
    if v < 32768 {
        v
    } else {
        v - 65536
    }
}

/// What one entry of a poll array is answered: eight bytes, of which the first four are the
/// descriptor and the next two the events asked for. A negative descriptor is passed over.
pub open spec fn answer_at<F>(sh: SharedView<F>, ctx: CtxView, mem: Seq<u8>, at: int) -> i16 {
    if word_in(mem, at) >= 0x8000_0000 {
        0
    } else {
        fd_polled(
            sh,
            ctx,
            word_in(mem, at) as i32,
            signed_half(half_in(mem, at + 4)) as i16,
        )
    }
}

proof fn lemma_poll_results<F>(
    sh: SharedView<F>,
    ctx: CtxView,
    mem: Seq<u8>,
    fds_at: u32,
    n: int,
    i: int,
    got: Seq<i16>,
)
    requires
        0 <= i <= n <= 1024,
        got.len() == i,
        fds_at + 8 * n <= mem.len(),
        fds_at + 8 * n <= u32::MAX,
    ensures
        poll_results(sh, ctx, mem, fds_at, n, i, got) matches Ok(list) && list.len() == n && (forall|
            j: int,
        |
            0 <= j < i ==> list[j] == #[trigger] got[j]) && (forall|j: int|
            i <= j < n ==> #[trigger] list[j] == answer_at(sh, ctx, mem, fds_at + 8 * j)),
    decreases n - i,
{
    if i < n {
        let at = fds_at + 8 * i;
        assert(word_in(mem, at + 4) % 65536 == half_in(mem, at + 4));
        let next = got.push(answer_at(sh, ctx, mem, at));
        lemma_poll_results(sh, ctx, mem, fds_at, n, i + 1, next);
        let list = poll_results(sh, ctx, mem, fds_at, n, i + 1, next)->Ok_0;
        assert(list[i] == next[i]);
        assert forall|j: int| 0 <= j < i implies list[j] == #[trigger] got[j] by {
            assert(list[j] == next[j]);
        }
    }
}

proof fn lemma_results_written(mem: Seq<u8>, fds_at: u32, results: Seq<i16>, i: int)
    requires
        0 <= i <= results.len() <= 1024,
        fds_at + 8 * results.len() <= mem.len(),
        fds_at + 8 * results.len() <= u32::MAX,
    ensures
        ({
            let (m, r) = results_written(mem, fds_at, results, i);
            &&& r is Ok
            &&& m.len() == mem.len()
            &&& forall|k: int|
                0 <= k < fds_at + 8 * i + 6 && k < m.len() ==> #[trigger] m[k] == mem[k]
            &&& forall|k: int|
                fds_at + 8 * results.len() <= k < m.len() ==> #[trigger] m[k] == mem[k]
            &&& forall|j: int|
                #![trigger results[j]]
                i <= j < results.len() ==> {
                    &&& signed_half(half_in(m, fds_at + 8 * j + 6)) == results[j]
                    &&& m.subrange(fds_at + 8 * j, fds_at + 8 * j + 6) == mem.subrange(
                        fds_at + 8 * j,
                        fds_at + 8 * j + 6,
                    )
                }
        }),
    decreases results.len() - i,
{
    if i < results.len() {
        let at = fds_at + 8 * i + 6;
        let v = unsigned_half(results[i]);
        let b = le16(v);
        let next = patched(mem, at, b);
        assert(b.len() == 2);
        lemma_results_written(next, fds_at, results, i + 1);
        let m = results_written(next, fds_at, results, i + 1).0;
        assert(results_written(mem, fds_at, results, i).0 == m);
        assert forall|j: int|
            #![trigger results[j]]
            i <= j < results.len() implies signed_half(half_in(m, fds_at + 8 * j + 6)) == results[j]
            && m.subrange(fds_at + 8 * j, fds_at + 8 * j + 6) == mem.subrange(
            fds_at + 8 * j,
            fds_at + 8 * j + 6,
        ) by {
            if j == i {
                assert(m[at] == next[at] && m[at + 1] == next[at + 1]);
                assert(next[at] == b[0] && next[at + 1] == b[1]);
                assert(m.subrange(at - 6, at) =~= mem.subrange(at - 6, at));
            } else {
                assert(next.subrange(fds_at + 8 * j, fds_at + 8 * j + 6) =~= mem.subrange(
                    fds_at + 8 * j,
                    fds_at + 8 * j + 6,
                ));
            }
        }
        assert forall|k: int| 0 <= k < at && k < m.len() implies #[trigger] m[k] == mem[k] by {
            assert(m[k] == next[k]);
        }
        assert forall|k: int|
            fds_at + 8 * results.len() <= k < m.len() implies #[trigger] m[k] == mem[k] by {
            assert(m[k] == next[k]);
        }
    }
}

/// How many of `n` entries from `at` on are answered with something.
pub open spec fn answered_of<F>(
    sh: SharedView<F>,
    ctx: CtxView,
    mem: Seq<u8>,
    at: int,
    n: int,
) -> int
    decreases n,
{
    if n <= 0 {
        0
    } else if answer_at(sh, ctx, mem, at + 8 * (n - 1)) != 0 {
        answered_of(sh, ctx, mem, at, n - 1) + 1
    } else {
        answered_of(sh, ctx, mem, at, n - 1)
    }
}

proof fn lemma_count<F>(
    sh: SharedView<F>,
    ctx: CtxView,
    mem: Seq<u8>,
    at: int,
    results: Seq<i16>,
)
    requires
        forall|j: int|
            0 <= j < results.len() ==> #[trigger] results[j] == answer_at(sh, ctx, mem, at + 8 * j),
    ensures
        count_ready(results) == answered_of(sh, ctx, mem, at, results.len() as int),
        0 <= count_ready(results) <= results.len(),
        forall|j: int| 0 <= j < results.len() && #[trigger] results[j] != 0 ==> count_ready(results)
            > 0,
    decreases results.len(),
{
    if results.len() > 0 {
        let front = results.drop_last();
        let n = results.len() - 1;
        assert forall|j: int| 0 <= j < front.len() implies #[trigger] front[j] == answer_at(
            sh,
            ctx,
            mem,
            at + 8 * j,
        ) by {
            assert(front[j] == results[j]);
        }
        lemma_count(sh, ctx, mem, at, front);
        assert(results[n] == answer_at(sh, ctx, mem, at + 8 * n));
        assert forall|j: int| 0 <= j < results.len() && #[trigger] results[j] != 0 implies
            count_ready(results) > 0 by {
            if j < n {
                assert(front[j] == results[j]);
            }
        }
    }
}

/// The process as `ppoll` looks at it: only its deadline may have been noted.
proof fn lemma_wait_until(ctx: CtxView, mem: Seq<u8>, elapsed: Nanos, timeout_at: u32)
    ensures
        wait_until(ctx, mem, elapsed, timeout_at).0.task == ctx.task,
        timeout_at == 0 ==> wait_until(ctx, mem, elapsed, timeout_at) == (
            ctx,
            Ok::<Option<Nanos>, Errno>(None),
        ),
        timeout_at != 0 ==> wait_until(ctx, mem, elapsed, timeout_at).1 is Ok == timespec_at(
            mem,
            timeout_at as int,
        ) is Ok,
{
}

/// `ppoll` answers every entry of its array by itself, in the entry's last two bytes, and
/// returns how many are answered with something; nothing else of the array changes. It waits
/// only where every answer is empty, and not past its timeout.
#[verifier::rlimit(40)]
pub proof fn law_ppoll_answers_every_entry<F>(
    sh: SharedView<F>,
    ctx: CtxView,
    mem: Seq<u8>,
    elapsed: Nanos,
    fds_at: u32,
    count: u32,
    timeout_at: u32,
)
    requires
        count <= 1024,
        fds_at + 8 * count <= mem.len(),
        fds_at + 8 * count <= u32::MAX,
        timeout_at == 0 || timespec_at(mem, timeout_at as int) is Ok,
    ensures
        ({
            let (s, c, m, r) = ppoll_spec(sh, ctx, mem, elapsed, fds_at, count, timeout_at);
            let some = exists|j: int|
                0 <= j < count && #[trigger] answer_at(sh, ctx, mem, fds_at + 8 * j) != 0;
            &&& some ==> r is Ok
            &&& r is Ok || r == Sys::Err(Fault::Block)
            &&& !some && timeout_at == 0 ==> r == Sys::Err(Fault::Block)
            &&& r is Err ==> m == mem
            &&& r matches Ok(n) ==> {
                &&& n == answered_of(sh, ctx, mem, fds_at as int, count as int)
                &&& s == sh
                &&& m.len() == mem.len()
                &&& forall|j: int|
                    0 <= j < count ==> signed_half(half_in(m, fds_at + 8 * j + 6))
                        == #[trigger] answer_at(sh, ctx, mem, fds_at + 8 * j)
                &&& forall|k: int|
                    0 <= k < m.len() && !(fds_at <= k < fds_at + 8 * count && (k - fds_at) % 8 >= 6)
                        ==> #[trigger] m[k] == mem[k]
            }
        }),
{
    lemma_wait_until(ctx, mem, elapsed, timeout_at);
    let c = wait_until(ctx, mem, elapsed, timeout_at).0;
    let n = count as int;
    lemma_answers(sh, c, ctx, mem, fds_at, n);
    let results = poll_results(sh, c, mem, fds_at, n, 0, Seq::empty())->Ok_0;
    lemma_array_after(mem, fds_at, results);
    let m = results_written(mem, fds_at, results, 0).0;
    assert forall|j: int| 0 <= j < n implies signed_half(half_in(m, fds_at + 8 * j + 6))
        == #[trigger] answer_at(sh, ctx, mem, fds_at + 8 * j) by {
        assert(results[j] == answer_at(sh, ctx, mem, fds_at + 8 * j));
    }
}

proof fn lemma_answers<F>(
    sh: SharedView<F>,
    c: CtxView,
    ctx: CtxView,
    mem: Seq<u8>,
    fds_at: u32,
    n: int,
)
    requires
        c.task == ctx.task,
        0 <= n <= 1024,
        fds_at + 8 * n <= mem.len(),
        fds_at + 8 * n <= u32::MAX,
    ensures
        ({
            let r = poll_results(sh, c, mem, fds_at, n, 0, Seq::empty());
            let results = r->Ok_0;
            &&& r is Ok
            &&& results.len() == n
            &&& count_ready(results) == answered_of(sh, ctx, mem, fds_at as int, n)
            &&& 0 <= count_ready(results) <= n
            &&& forall|j: int|
                0 <= j < n ==> #[trigger] results[j] == answer_at(sh, ctx, mem, fds_at + 8 * j)
            &&& count_ready(results) != 0 <==> exists|j: int|
                0 <= j < n && #[trigger] answer_at(sh, ctx, mem, fds_at + 8 * j) != 0
        }),
{
    lemma_poll_results(sh, c, mem, fds_at, n, 0, Seq::empty());
    let results = poll_results(sh, c, mem, fds_at, n, 0, Seq::empty())->Ok_0;
    lemma_count(sh, c, mem, fds_at as int, results);
    lemma_same_count(sh, c, ctx, mem, fds_at as int, n);
    assert forall|j: int| 0 <= j < n implies #[trigger] results[j] == answer_at(
        sh,
        ctx,
        mem,
        fds_at + 8 * j,
    ) by {
        assert(results[j] == answer_at(sh, c, mem, fds_at + 8 * j));
    }
    assert forall|j: int| 0 <= j < n && #[trigger] answer_at(sh, ctx, mem, fds_at + 8 * j)
        != 0 implies count_ready(results) > 0 by {
        assert(results[j] != 0);
    }
    if count_ready(results) != 0 {
        lemma_some_counted(results);
        let j = choose|j: int| 0 <= j < results.len() && #[trigger] results[j] != 0;
        assert(answer_at(sh, ctx, mem, fds_at + 8 * j) != 0);
    }
}

proof fn lemma_array_after(mem: Seq<u8>, fds_at: u32, results: Seq<i16>)
    requires
        results.len() <= 1024,
        fds_at + 8 * results.len() <= mem.len(),
        fds_at + 8 * results.len() <= u32::MAX,
    ensures
        ({
            let (m, r) = results_written(mem, fds_at, results, 0);
            &&& r is Ok
            &&& m.len() == mem.len()
            &&& forall|j: int|
                0 <= j < results.len() ==> signed_half(half_in(m, fds_at + 8 * j + 6))
                    == #[trigger] results[j]
            &&& forall|k: int|
                0 <= k < m.len() && !(fds_at <= k < fds_at + 8 * results.len() && (k - fds_at) % 8
                    >= 6) ==> #[trigger] m[k] == mem[k]
        }),
{
    lemma_results_written(mem, fds_at, results, 0);
    let m = results_written(mem, fds_at, results, 0).0;
    assert forall|k: int|
        0 <= k < m.len() && !(fds_at <= k < fds_at + 8 * results.len() && (k - fds_at) % 8
            >= 6) implies #[trigger] m[k] == mem[k] by {
        if fds_at <= k < fds_at + 8 * results.len() {
            let j = (k - fds_at) / 8;
            let from = fds_at + 8 * j;
            assert(signed_half(half_in(m, from + 6)) == results[j]);
            assert(m.subrange(from, from + 6)[k - from] == mem.subrange(from, from + 6)[k - from]);
        }
    }
}

proof fn lemma_some_counted(results: Seq<i16>)
    requires
        count_ready(results) != 0,
    ensures
        exists|j: int| 0 <= j < results.len() && #[trigger] results[j] != 0,
    decreases results.len(),
{
    if results.len() > 0 {
        if results.last() != 0 {
            assert(results[results.len() - 1] != 0);
        } else {
            lemma_some_counted(results.drop_last());
            let j = choose|j: int|
                0 <= j < results.drop_last().len() && #[trigger] results.drop_last()[j] != 0;
            assert(results[j] != 0);
        }
    }
}

proof fn lemma_same_count<F>(
    sh: SharedView<F>,
    c: CtxView,
    d: CtxView,
    mem: Seq<u8>,
    at: int,
    n: int,
)
    requires
        c.task == d.task,
    ensures
        answered_of(sh, c, mem, at, n) == answered_of(sh, d, mem, at, n),
    decreases n,
{
    if n > 0 {
        lemma_same_count(sh, c, d, mem, at, n - 1);
        assert(answer_at(sh, c, mem, at + 8 * (n - 1)) == answer_at(sh, d, mem, at + 8 * (n - 1)));
    }
}

/// `ppoll` does not wait while one of its descriptors can be read: a pipe or the standard
/// input that would give a byte, asked about for reading, ends the wait and is marked.
pub proof fn law_ppoll_does_not_wait_for_what_is_there<V: Vfs>(
    sh: SharedView<<V as VfsFile>::Handle>,
    ctx: CtxView,
    fs: Seq<MountView<<V as VfsFile>::State>>,
    mem: Seq<u8>,
    realtime: u128,
    elapsed: Nanos,
    fds_at: u32,
    count: u32,
    timeout_at: u32,
    j: int,
    fd: i32,
)
    requires
        count <= 1024,
        fds_at + 8 * count <= mem.len(),
        fds_at + 8 * count <= u32::MAX,
        timeout_at == 0 || timespec_at(mem, timeout_at as int) is Ok,
        0 <= j < count,
        fd == word_in(mem, fds_at + 8 * j),
        (half_in(mem, fds_at + 8 * j + 4) % 2) == 1,
        behind(sh, ctx, fd) matches Some(d) && d.can_read() && (d.kind is Stdin || (d.kind matches
            KindView::PipeRead(k) && sh.pipes.get(k) is Some)),
        read_spec::<V>(sh, ctx, fs, realtime, fd, 1).2 matches Ok(data) && data.len() >= 1,
    ensures
        ({
            let (s, c, m, r) = ppoll_spec(sh, ctx, mem, elapsed, fds_at, count, timeout_at);
            &&& r matches Ok(n) && n >= 1
            &&& half_in(m, fds_at + 8 * j + 6) % 2 == 1
        }),
{
    lemma_readable_is_answered::<V>(sh, ctx, fs, mem, realtime, fds_at + 8 * j, fd);
    lemma_entry_is_answered(sh, ctx, mem, elapsed, fds_at, count, timeout_at, j);
}

/// An entry whose answer is odd ends the wait and is marked.
#[verifier::rlimit(40)]
proof fn lemma_entry_is_answered<F>(
    sh: SharedView<F>,
    ctx: CtxView,
    mem: Seq<u8>,
    elapsed: Nanos,
    fds_at: u32,
    count: u32,
    timeout_at: u32,
    j: int,
)
    requires
        count <= 1024,
        fds_at + 8 * count <= mem.len(),
        fds_at + 8 * count <= u32::MAX,
        timeout_at == 0 || timespec_at(mem, timeout_at as int) is Ok,
        0 <= j < count,
        (answer_at(sh, ctx, mem, fds_at + 8 * j) as int) % 2 == 1,
    ensures
        ({
            let (s, c, m, r) = ppoll_spec(sh, ctx, mem, elapsed, fds_at, count, timeout_at);
            &&& r matches Ok(n) && n >= 1
            &&& half_in(m, fds_at + 8 * j + 6) % 2 == 1
        }),
{
    law_ppoll_answers_every_entry(sh, ctx, mem, elapsed, fds_at, count, timeout_at);
    lemma_answered(sh, ctx, mem, fds_at as int, count as int, j);
    let m = ppoll_spec(sh, ctx, mem, elapsed, fds_at, count, timeout_at).2;
    let a = answer_at(sh, ctx, mem, fds_at + 8 * j);
    lemma_odd_half(half_in(m, fds_at + 8 * j + 6), a as int);
}

proof fn lemma_odd_half(half: int, a: int)
    requires
        0 <= half < 65536,
        signed_half(half) == a,
        a % 2 == 1,
    ensures
        half % 2 == 1,
{
}

proof fn lemma_readable_is_answered<V: Vfs>(
    sh: SharedView<<V as VfsFile>::Handle>,
    ctx: CtxView,
    fs: Seq<MountView<<V as VfsFile>::State>>,
    mem: Seq<u8>,
    realtime: u128,
    at: int,
    fd: i32,
)
    requires
        fd == word_in(mem, at),
        half_in(mem, at + 4) % 2 == 1,
        behind(sh, ctx, fd) matches Some(d) && d.can_read() && (d.kind is Stdin || (d.kind matches
            KindView::PipeRead(k) && sh.pipes.get(k) is Some)),
        read_spec::<V>(sh, ctx, fs, realtime, fd, 1).2 matches Ok(data) && data.len() >= 1,
    ensures
        (answer_at(sh, ctx, mem, at) as int) % 2 == 1,
{
    let events = signed_half(half_in(mem, at + 4)) as i16;
    lemma_odd(events);
    law_readiness_agrees_with_reading::<V>(sh, ctx, fs, realtime, fd, 1, events);
    lemma_odd(answer_at(sh, ctx, mem, at));
}

proof fn lemma_answered<F>(
    sh: SharedView<F>,
    ctx: CtxView,
    mem: Seq<u8>,
    at: int,
    n: int,
    j: int,
)
    ensures
        0 <= answered_of(sh, ctx, mem, at, n),
        0 <= j < n && answer_at(sh, ctx, mem, at + 8 * j) != 0 ==> answered_of(
            sh,
            ctx,
            mem,
            at,
            n,
        ) > 0,
    decreases n,
{
    if n > 0 {
        lemma_answered(sh, ctx, mem, at, n - 1, j);
    }
}

proof fn lemma_odd(v: i16)
    ensures
        (v & 1i16 != 0) == ((v as int) % 2 == 1),
{
    assert((v & 1i16 != 0) == (v % 2i16 != 0)) by (bit_vector);
}

/// A wait that only input can end is noted, so that input is asked for.
pub proof fn law_waiting_for_input_is_noted<F>(
    sh: SharedView<F>,
    ctx: CtxView,
    mem: Seq<u8>,
    elapsed: Nanos,
    fds_at: u32,
    count: u32,
)
    requires
        fd_at(ctx.task.fds, 0) is Some,
        ppoll_spec(sh, ctx, mem, elapsed, fds_at, count, 0).3 == Sys::Err(Fault::Block),
    ensures
        ppoll_spec(sh, ctx, mem, elapsed, fds_at, count, 0).0.stdin.wanted,
        ppoll_spec(sh, ctx, mem, elapsed, fds_at, count, 0).0.stdin.data == sh.stdin.data,
{
}

/// A wait with a timeout is over once the timeout has passed since it began, and until then the
/// process is to be woken at that moment.
pub proof fn law_ppoll_waits_no_longer_than_asked<F>(
    sh: SharedView<F>,
    ctx: CtxView,
    mem: Seq<u8>,
    began: Nanos,
    now: Nanos,
    fds_at: u32,
    count: u32,
    timeout_at: u32,
    asked: Nanos,
    i: int,
)
    requires
        timeout_at != 0,
        timespec_at(mem, timeout_at as int) == Ok::<Nanos, Errno>(asked),
        ctx.state.deadline is None,
        began <= now,
        began + asked <= 9_223_372_036_854_775_807_000_000_000,
        is_record(sh.table, ctx.task.pid, i),
    ensures
        ({
            let (s, c, m, r) = ppoll_spec(sh, ctx, mem, began, fds_at, count, timeout_at);
            let r2 = ppoll_spec(s, c, m, now, fds_at, count, timeout_at).3;
            r == Sys::Err(Fault::Block) ==> {
                &&& s.table[i].wake_at == Some((began + asked) as u128)
                &&& now >= began + asked ==> r2 != Sys::Err(Fault::Block)
            }
        }),
{
    lemma_is_record(sh.table, ctx.task.pid, i);
}

} // verus!
