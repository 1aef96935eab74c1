//! Vectored reads and writes: many buffers, one after the other.
use super::plain::word_in;
use super::readiness::behind;
use crate::errno::Errno;
use crate::kernel::fd::{KindView, PipeView};
use crate::kernel::mem::patched;
use crate::kernel::mounts::MountView;
use crate::kernel::state::{CtxView, OutputView, SharedView};
use crate::syscall::base::{Fault, Sys};
use crate::syscall::io::{least, sys_read_spec, sys_write_spec, write_spec};
use crate::syscall::vector::{iovec, readv_from, writev_from};
use crate::vfs::{Vfs, VfsFile};
use vstd::prelude::*;

verus! {

/// Where buffer `j` of a vector is: the word eight times `j` bytes past the vector's address.
#[verifier::opaque]
pub open spec fn place(mem: Seq<u8>, vector: u32, j: int) -> int {
    word_in(mem, vector + 8 * j)
}

/// How long buffer `j` of a vector is: the word behind its address.
#[verifier::opaque]
pub open spec fn length(mem: Seq<u8>, vector: u32, j: int) -> int {
    word_in(mem, vector + 8 * j + 4)
}

/// The contents of buffers `i` to `n` of a vector, one after the other.
pub open spec fn contents_of(mem: Seq<u8>, vector: u32, i: int, n: int) -> Seq<u8>
    decreases n - i,
{
    if i >= n {
        Seq::empty()
    } else {
        mem.subrange(place(mem, vector, i), place(mem, vector, i) + length(mem, vector, i))
            + contents_of(mem, vector, i + 1, n)
    }
}

/// Whether a vector of `n` buffers, and every one of them, lies in memory.
pub open spec fn vector_fits(mem: Seq<u8>, vector: u32, n: int) -> bool {
    &&& 0 <= n
    &&& vector + 8 * n <= mem.len()
    &&& vector + 8 * n <= u32::MAX
    &&& forall|j: int|
        0 <= j < n ==> #[trigger] place(mem, vector, j) + length(mem, vector, j) <= mem.len()
}

/// Whether a descriptor takes `n` more bytes at once: a captured stream or a device takes
/// anything, a pipe what there is room for.
pub open spec fn takes<F>(sh: SharedView<F>, ctx: CtxView, fd: i32, n: int) -> bool {
    behind(sh, ctx, fd) matches Some(d) && d.can_write() && match d.kind {
        KindView::Stdout(_) => true,
        KindView::Null => true,
        KindView::Zero => true,
        KindView::Random => true,
        KindView::PipeWrite(k) => sh.pipes.get(k) matches Some(p) && p.readers > 0 && p.data.len()
            + n <= 65536,
        _ => false,
    }
}

/// What a vectored call reads of buffer `j`.
proof fn lemma_entry(mem: Seq<u8>, vector: u32, n: int, j: int)
    requires
        vector_fits(mem, vector, n),
        0 <= j < n,
    ensures
        0 <= place(mem, vector, j) <= u32::MAX,
        0 <= length(mem, vector, j) <= u32::MAX,
        place(mem, vector, j) + length(mem, vector, j) <= mem.len(),
        iovec(mem, vector, j) == Ok::<(u32, u32), Errno>(
            (place(mem, vector, j) as u32, length(mem, vector, j) as u32),
        ),
{
    reveal(place);
    reveal(length);
}

/// Writing one text and then another to a captured stream is writing both.
pub proof fn law_output_adds_up(o: OutputView, a: Seq<u8>, b: Seq<u8>, limit: int)
    requires
        0 <= limit,
    ensures
        o.pushed(a, limit).pushed(b, limit) == o.pushed(a + b, limit),
{
    let x = o.pushed(a, limit);
    let y = o.pushed(a + b, limit);
    let z = x.pushed(b, limit);
    assert(z.data =~= y.data);
}

/// What is kept of what is written is its front, as far as the limit allows.
pub proof fn law_output_keeps_the_front(o: OutputView, bytes: Seq<u8>, limit: int)
    requires
        o.data.len() <= limit,
    ensures
        ({
            let all = o.data + bytes;
            o.pushed(bytes, limit).data == all.subrange(
                0,
                if all.len() < limit {
                    all.len() as int
                } else {
                    limit
                },
            )
        }),
{
    let all = o.data + bytes;
    let n = if all.len() < limit {
        all.len() as int
    } else {
        limit
    };
    assert(o.pushed(bytes, limit).data =~= all.subrange(0, n));
}

/// One write and then another, where both are taken, are one write of both.
proof fn lemma_two_writes<V: Vfs>(
    sh: SharedView<<V as VfsFile>::Handle>,
    ctx: CtxView,
    fs: Seq<MountView<<V as VfsFile>::State>>,
    fd: i32,
    a: Seq<u8>,
    b: Seq<u8>,
)
    requires
        takes(sh, ctx, fd, (a + b).len() as int),
        a.len() > 0,
        (a + b).len() <= i32::MAX,
    ensures
        ({
            let (s, f, r) = write_spec::<V>(sh, ctx, fs, fd, a);
            let (s2, f2, r2) = write_spec::<V>(s, ctx, f, fd, b);
            &&& r == Ok::<usize, Fault>(a.len() as usize)
            &&& f == fs
            &&& takes(s, ctx, fd, b.len() as int)
            &&& b.len() > 0 ==> write_spec::<V>(sh, ctx, fs, fd, a + b).0 == s2
            &&& b.len() == 0 ==> write_spec::<V>(sh, ctx, fs, fd, a + b).0 == s
        }),
{
    let d = behind(sh, ctx, fd)->0;
    let limit = sh.limits.output as int;
    let (s, f, r) = write_spec::<V>(sh, ctx, fs, fd, a);
    let (s2, f2, r2) = write_spec::<V>(s, ctx, f, fd, b);
    let one = write_spec::<V>(sh, ctx, fs, fd, a + b).0;
    if b.len() == 0 {
        assert(a + b =~= a);
    }
    match d.kind {
        KindView::Stdout(which) => {
            law_output_adds_up(sh.stdout, a, b, limit);
            law_output_adds_up(sh.stderr, a, b, limit);
        },
        KindView::PipeWrite(k) => {
            let p = sh.pipes.get(k)->0;
            assert(a.subrange(0, a.len() as int) =~= a);
            assert(b.subrange(0, b.len() as int) =~= b);
            assert((a + b).subrange(0, (a + b).len() as int) =~= a + b);
            assert((p.data + a) + b =~= p.data + (a + b));
            assert(s.pipes.slots.update(
                k as int,
                Some(PipeView { data: p.data + (a + b), ..p }),
            ) =~= sh.pipes.slots.update(k as int, Some(PipeView { data: p.data + (a + b), ..p })));
        },
        _ => {},
    }
}

/// One buffer of a vectored write that is taken whole.
proof fn lemma_writev_step<V: Vfs>(
    sh: SharedView<<V as VfsFile>::Handle>,
    ctx: CtxView,
    fs: Seq<MountView<<V as VfsFile>::State>>,
    mem: Seq<u8>,
    fd: i32,
    vector: u32,
    n: int,
    i: int,
    total: i32,
    s: SharedView<<V as VfsFile>::Handle>,
)
    requires
        0 <= i < n,
        vector_fits(mem, vector, n),
        0 < length(mem, vector, i),
        0 <= total,
        total + length(mem, vector, i) <= i32::MAX,
        sys_write_spec::<V>(
            sh,
            ctx,
            fs,
            mem,
            fd,
            place(mem, vector, i) as u32,
            length(mem, vector, i) as u32,
        ) == (s, fs, Sys::Ok(length(mem, vector, i) as i32)),
    ensures
        writev_from::<V>(sh, ctx, fs, mem, fd, vector, n, i, total) == writev_from::<V>(
            s,
            ctx,
            fs,
            mem,
            fd,
            vector,
            n,
            i + 1,
            (total + length(mem, vector, i)) as i32,
        ),
{
    lemma_entry(mem, vector, n, i);
}

/// An empty buffer of a vectored write is passed over.
proof fn lemma_writev_skip<V: Vfs>(
    sh: SharedView<<V as VfsFile>::Handle>,
    ctx: CtxView,
    fs: Seq<MountView<<V as VfsFile>::State>>,
    mem: Seq<u8>,
    fd: i32,
    vector: u32,
    n: int,
    i: int,
    total: i32,
)
    requires
        0 <= i < n,
        vector_fits(mem, vector, n),
        length(mem, vector, i) == 0,
    ensures
        writev_from::<V>(sh, ctx, fs, mem, fd, vector, n, i, total) == writev_from::<V>(
            sh,
            ctx,
            fs,
            mem,
            fd,
            vector,
            n,
            i + 1,
            total,
        ),
{
    lemma_entry(mem, vector, n, i);
}

proof fn lemma_writev<V: Vfs>(
    sh: SharedView<<V as VfsFile>::Handle>,
    ctx: CtxView,
    fs: Seq<MountView<<V as VfsFile>::State>>,
    mem: Seq<u8>,
    fd: i32,
    vector: u32,
    n: int,
    i: int,
    total: i32,
)
    requires
        0 <= i <= n,
        vector_fits(mem, vector, n),
        takes(sh, ctx, fd, contents_of(mem, vector, i, n).len() as int),
        0 <= total,
        total + contents_of(mem, vector, i, n).len() <= i32::MAX,
    ensures
        ({
            let (s, f, r) = writev_from::<V>(sh, ctx, fs, mem, fd, vector, n, i, total);
            let all = contents_of(mem, vector, i, n);
            &&& r == Sys::Ok((total + all.len()) as i32)
            &&& f == fs
            &&& s == if all.len() > 0 {
                write_spec::<V>(sh, ctx, fs, fd, all).0
            } else {
                sh
            }
        }),
    decreases n - i,
{
    if i < n {
        lemma_entry(mem, vector, n, i);
        let at = place(mem, vector, i);
        let len = length(mem, vector, i);
        let a = mem.subrange(at, at + len);
        let b = contents_of(mem, vector, i + 1, n);
        assert(contents_of(mem, vector, i, n) == a + b);
        if len == 0 {
            assert(a + b =~= b);
            lemma_writev_skip::<V>(sh, ctx, fs, mem, fd, vector, n, i, total);
            lemma_writev::<V>(sh, ctx, fs, mem, fd, vector, n, i + 1, total);
        } else {
            assert(at + len <= mem.len());
            lemma_two_writes::<V>(sh, ctx, fs, fd, a, b);
            let s = write_spec::<V>(sh, ctx, fs, fd, a).0;
            lemma_writev_step::<V>(sh, ctx, fs, mem, fd, vector, n, i, total, s);
            lemma_writev::<V>(s, ctx, fs, mem, fd, vector, n, i + 1, (total + len) as i32);
        }
    }
}

/// A vectored write to what takes everything is one write of the buffers' contents one after
/// the other, and returns how many bytes they are.
pub proof fn law_a_vectored_write_is_one_write<V: Vfs>(
    sh: SharedView<<V as VfsFile>::Handle>,
    ctx: CtxView,
    fs: Seq<MountView<<V as VfsFile>::State>>,
    mem: Seq<u8>,
    fd: i32,
    vector: u32,
    n: int,
)
    requires
        vector_fits(mem, vector, n),
        takes(sh, ctx, fd, contents_of(mem, vector, 0, n).len() as int),
        0 < contents_of(mem, vector, 0, n).len() <= i32::MAX,
    ensures
        ({
            let (s, f, r) = writev_from::<V>(sh, ctx, fs, mem, fd, vector, n, 0, 0);
            let all = contents_of(mem, vector, 0, n);
            &&& r == Sys::Ok(all.len() as i32)
            &&& s == write_spec::<V>(sh, ctx, fs, fd, all).0
            &&& f == fs
            &&& match behind(sh, ctx, fd)->0.kind {
                KindView::PipeWrite(k) => s.pipes.get(k)->0.data == sh.pipes.get(k)->0.data + all,
                KindView::Stdout(which) => {
                    &&& which == 1 && sh.stdout.data.len() + all.len() <= sh.limits.output ==> (
                    s.stdout.data == sh.stdout.data + all)
                    &&& which == 2 && sh.stderr.data.len() + all.len() <= sh.limits.output ==> (
                    s.stderr.data == sh.stderr.data + all)
                },
                _ => true,
            }
        }),
{
    lemma_writev::<V>(sh, ctx, fs, mem, fd, vector, n, 0, 0);
    let all = contents_of(mem, vector, 0, n);
    assert(all.subrange(0, all.len() as int) =~= all);
}

/// Whether buffer `j` is apart from the vector and no longer than one read may be.
pub open spec fn clear(mem: Seq<u8>, vector: u32, n: int, j: int) -> bool {
    &&& length(mem, vector, j) <= 0x10_0000
    &&& place(mem, vector, j) + length(mem, vector, j) <= vector || vector + 8 * n <= place(
        mem,
        vector,
        j,
    )
}

/// Whether two buffers have no byte in common.
pub open spec fn disjoint(mem: Seq<u8>, vector: u32, j: int, k: int) -> bool {
    ||| place(mem, vector, j) + length(mem, vector, j) <= place(mem, vector, k)
    ||| place(mem, vector, k) + length(mem, vector, k) <= place(mem, vector, j)
}

/// Whether the buffers of a vector are apart from each other and from the vector.
pub open spec fn apart(mem: Seq<u8>, vector: u32, n: int) -> bool {
    &&& forall|j: int| 0 <= j < n ==> #[trigger] clear(mem, vector, n, j)
    &&& forall|j: int, k: int| 0 <= j < k < n ==> #[trigger] disjoint(mem, vector, j, k)
}

/// How many bytes buffers `i` to `n` hold together.
pub open spec fn room_of(mem: Seq<u8>, vector: u32, i: int, n: int) -> int
    decreases n - i,
{
    if i >= n {
        0
    } else {
        length(mem, vector, i) + room_of(mem, vector, i + 1, n)
    }
}

/// What a vectored read from a pipe leaves: buffers `i` to `n` filled in turn with the front
/// of the pipe, the vector and all that lies outside these buffers untouched.
pub open spec fn filled(
    before: Seq<u8>,
    after: Seq<u8>,
    vector: u32,
    i: int,
    n: int,
    front: Seq<u8>,
) -> bool {
    &&& after.len() == before.len()
    &&& forall|k: int| vector <= k < vector + 8 * n ==> #[trigger] after[k] == before[k]
    &&& front.len() <= contents_of(after, vector, i, n).len()
    &&& contents_of(after, vector, i, n).subrange(0, front.len() as int) == front
    &&& forall|k: int|
        0 <= k < before.len() && (forall|j: int|
            #![trigger place(before, vector, j)]
            i <= j < n ==> !(place(before, vector, j) <= k < place(before, vector, j) + length(
                before,
                vector,
                j,
            ))) ==> #[trigger] after[k] == before[k]
}

proof fn lemma_same_entry(a: Seq<u8>, b: Seq<u8>, vector: u32, n: int, j: int)
    requires
        0 <= j < n,
        forall|k: int| vector <= k < vector + 8 * n ==> #[trigger] a[k] == b[k],
    ensures
        place(b, vector, j) == place(a, vector, j),
        length(b, vector, j) == length(a, vector, j),
{
    reveal(place);
    reveal(length);
    let at = vector + 8 * j;
    assert(a[at] == b[at] && a[at + 1] == b[at + 1] && a[at + 2] == b[at + 2] && a[at + 3] == b[at
        + 3]);
    assert(a[at + 4] == b[at + 4] && a[at + 5] == b[at + 5] && a[at + 6] == b[at + 6] && a[at + 7]
        == b[at + 7]);
}

proof fn lemma_same_room(a: Seq<u8>, b: Seq<u8>, vector: u32, i: int, n: int)
    requires
        0 <= i,
        forall|k: int| vector <= k < vector + 8 * n ==> #[trigger] a[k] == b[k],
    ensures
        room_of(a, vector, i, n) == room_of(b, vector, i, n),
    decreases n - i,
{
    if i < n {
        lemma_same_entry(a, b, vector, n, i);
        lemma_same_room(a, b, vector, i + 1, n);
    }
}

/// A vector that is not written to is the same vector.
proof fn lemma_vector_kept(a: Seq<u8>, b: Seq<u8>, vector: u32, n: int)
    requires
        vector_fits(a, vector, n),
        apart(a, vector, n),
        a.len() == b.len(),
        forall|k: int| vector <= k < vector + 8 * n ==> #[trigger] a[k] == b[k],
    ensures
        vector_fits(b, vector, n),
        apart(b, vector, n),
{
    assert forall|j: int| 0 <= j < n implies #[trigger] place(b, vector, j) + length(b, vector, j)
        <= b.len() by {
        lemma_same_entry(a, b, vector, n, j);
    }
    assert forall|j: int| 0 <= j < n implies #[trigger] clear(b, vector, n, j) by {
        lemma_same_entry(a, b, vector, n, j);
        assert(clear(a, vector, n, j));
    }
    assert forall|j: int, k: int| 0 <= j < k < n implies #[trigger] disjoint(b, vector, j, k) by {
        lemma_same_entry(a, b, vector, n, j);
        lemma_same_entry(a, b, vector, n, k);
        assert(disjoint(a, vector, j, k));
    }
}

proof fn lemma_room(mem: Seq<u8>, vector: u32, i: int, n: int)
    requires
        0 <= i,
        vector_fits(mem, vector, n),
    ensures
        0 <= room_of(mem, vector, i, n),
        contents_of(mem, vector, i, n).len() == room_of(mem, vector, i, n),
    decreases n - i,
{
    if i < n {
        lemma_entry(mem, vector, n, i);
        lemma_room(mem, vector, i + 1, n);
    }
}

/// What a read from a pipe that holds something does.
proof fn lemma_pipe_read<V: Vfs>(
    sh: SharedView<<V as VfsFile>::Handle>,
    ctx: CtxView,
    fs: Seq<MountView<<V as VfsFile>::State>>,
    mem: Seq<u8>,
    realtime: u128,
    fd: i32,
    k: u32,
    at: u32,
    len: u32,
)
    requires
        reads_pipe(sh, ctx, fd, k),
        0 < len <= 0x10_0000,
        at + len <= mem.len(),
    ensures
        ({
            let (s, f, m, r) = sys_read_spec::<V>(sh, ctx, fs, mem, realtime, fd, at, len);
            let held = sh.pipes.get(k)->0.data;
            let n = least(len as int, held.len() as int);
            &&& f == fs
            &&& held.len() > 0 ==> {
                &&& r == Sys::Ok(n as i32)
                &&& m == patched(mem, at as int, held.subrange(0, n))
                &&& reads_pipe(s, ctx, fd, k)
                &&& s.pipes.get(k)->0.data == held.subrange(n, held.len() as int)
            }
            &&& held.len() == 0 ==> s == sh && m == mem && (r == Sys::Ok(0) || r is Err)
        }),
{
    let held = sh.pipes.get(k)->0.data;
    let n = least(len as int, held.len() as int);
    if held.len() == 0 {
        assert(patched(mem, at as int, Seq::empty()) =~= mem);
    } else {
        assert(held.subrange(0, n).len() == n);
    }
}

/// Whether a descriptor is the reading end of pipe `k`.
pub open spec fn reads_pipe<F>(sh: SharedView<F>, ctx: CtxView, fd: i32, k: u32) -> bool {
    &&& behind(sh, ctx, fd) matches Some(d) && d.can_read() && d.kind == KindView::<F>::PipeRead(k)
    &&& sh.pipes.get(k) is Some
}

proof fn lemma_filled(
    before: Seq<u8>,
    middle: Seq<u8>,
    after: Seq<u8>,
    vector: u32,
    i: int,
    n: int,
    first: Seq<u8>,
    rest: Seq<u8>,
)
    requires
        0 <= i < n,
        vector_fits(before, vector, n),
        apart(before, vector, n),
        first.len() == length(before, vector, i),
        middle == patched(before, place(before, vector, i), first),
        filled(middle, after, vector, i + 1, n, rest),
    ensures
        filled(before, after, vector, i, n, first + rest),
{
    let at = place(before, vector, i);
    let len = length(before, vector, i);
    lemma_entry(before, vector, n, i);
    assert forall|k: int| vector <= k < vector + 8 * n implies #[trigger] middle[k] == before[k] by {
        assert(clear(before, vector, n, i));
    }
    assert forall|k: int| vector <= k < vector + 8 * n implies #[trigger] after[k] == before[k] by {
        assert(after[k] == middle[k]);
    }
    lemma_same_entry(before, after, vector, n, i);
    assert(place(after, vector, i) == at && length(after, vector, i) == len);
    assert forall|k: int| at <= k < at + len implies #[trigger] after[k] == middle[k] by {
        assert forall|j: int|
            #![trigger place(middle, vector, j)]
            i + 1 <= j < n implies !(place(middle, vector, j) <= k < place(middle, vector, j)
            + length(middle, vector, j)) by {
            lemma_same_entry(before, middle, vector, n, j);
            assert(disjoint(before, vector, i, j));
        }
    }
    let piece = after.subrange(at, at + len);
    assert(piece =~= first);
    let tail = contents_of(after, vector, i + 1, n);
    assert(contents_of(after, vector, i, n) == piece + tail);
    assert((piece + tail).subrange(0, (first + rest).len() as int) =~= first + tail.subrange(
        0,
        rest.len() as int,
    ));
    assert forall|k: int|
        0 <= k < before.len() && (forall|j: int|
            #![trigger place(before, vector, j)]
            i <= j < n ==> !(place(before, vector, j) <= k < place(before, vector, j) + length(
                before,
                vector,
                j,
            ))) implies #[trigger] after[k] == before[k] by {
        assert(!(at <= k < at + len));
        assert(middle[k] == before[k]);
        assert forall|j: int|
            #![trigger place(middle, vector, j)]
            i + 1 <= j < n implies !(place(middle, vector, j) <= k < place(middle, vector, j)
            + length(middle, vector, j)) by {
            lemma_same_entry(before, middle, vector, n, j);
            assert(disjoint(before, vector, i, j));
        }
    }
}

/// One buffer of a vectored read: an empty one is passed over, one that is filled is followed
/// by the next, and one that is not is the last.
proof fn lemma_readv_step<V: Vfs>(
    sh: SharedView<<V as VfsFile>::Handle>,
    ctx: CtxView,
    fs: Seq<MountView<<V as VfsFile>::State>>,
    mem: Seq<u8>,
    realtime: u128,
    fd: i32,
    vector: u32,
    n: int,
    i: int,
    total: i32,
    s: SharedView<<V as VfsFile>::Handle>,
    m: Seq<u8>,
    r: Sys,
)
    requires
        0 <= i < n,
        vector_fits(mem, vector, n),
        0 <= total,
        total + length(mem, vector, i) <= i32::MAX,
        length(mem, vector, i) > 0 ==> sys_read_spec::<V>(
            sh,
            ctx,
            fs,
            mem,
            realtime,
            fd,
            place(mem, vector, i) as u32,
            length(mem, vector, i) as u32,
        ) == (s, fs, m, r),
        r matches Ok(done) ==> 0 <= done <= length(mem, vector, i),
        r is Err ==> total > 0,
    ensures
        ({
            let len = length(mem, vector, i);
            readv_from::<V>(sh, ctx, fs, mem, realtime, fd, vector, n, i, total) == if len == 0 {
                readv_from::<V>(sh, ctx, fs, mem, realtime, fd, vector, n, i + 1, total)
            } else if r is Err {
                (s, fs, m, Sys::Ok(total))
            } else if r->Ok_0 < len {
                (s, fs, m, Sys::Ok((total + r->Ok_0) as i32))
            } else {
                readv_from::<V>(
                    s,
                    ctx,
                    fs,
                    m,
                    realtime,
                    fd,
                    vector,
                    n,
                    i + 1,
                    (total + len) as i32,
                )
            }
        }),
{
    lemma_entry(mem, vector, n, i);
}

#[verifier::rlimit(40)]
proof fn lemma_readv<V: Vfs>(
    sh: SharedView<<V as VfsFile>::Handle>,
    ctx: CtxView,
    fs: Seq<MountView<<V as VfsFile>::State>>,
    mem: Seq<u8>,
    realtime: u128,
    fd: i32,
    k: u32,
    vector: u32,
    n: int,
    i: int,
    total: i32,
)
    requires
        0 <= i <= n,
        reads_pipe(sh, ctx, fd, k),
        vector_fits(mem, vector, n),
        apart(mem, vector, n),
        0 <= total,
        total + room_of(mem, vector, i, n) <= i32::MAX,
        total > 0 || sh.pipes.get(k)->0.data.len() > 0,
    ensures
        ({
            let (s, f, m, r) = readv_from::<V>(
                sh,
                ctx,
                fs,
                mem,
                realtime,
                fd,
                vector,
                n,
                i,
                total,
            );
            let held = sh.pipes.get(k)->0.data;
            let got = least(room_of(mem, vector, i, n), held.len() as int);
            &&& r == Sys::Ok((total + got) as i32)
            &&& f == fs
            &&& filled(mem, m, vector, i, n, held.subrange(0, got))
            &&& s.pipes.get(k)->0.data == held.subrange(got, held.len() as int)
        }),
    decreases n - i,
{
    let held = sh.pipes.get(k)->0.data;
    let room = room_of(mem, vector, i, n);
    let got = least(room, held.len() as int);
    lemma_room(mem, vector, i, n);
    if i >= n {
        assert(held.subrange(0, 0) =~= Seq::<u8>::empty());
        assert(held.subrange(0, held.len() as int) =~= held);
        assert(contents_of(mem, vector, i, n).subrange(0, 0) =~= Seq::<u8>::empty());
    } else {
        let at = place(mem, vector, i);
        let len = length(mem, vector, i);
        lemma_entry(mem, vector, n, i);
        assert(clear(mem, vector, n, i));
        lemma_room(mem, vector, i + 1, n);
        if len == 0 {
            let none = Seq::<u8>::empty();
            lemma_readv_step::<V>(
                sh,
                ctx,
                fs,
                mem,
                realtime,
                fd,
                vector,
                n,
                i,
                total,
                sh,
                mem,
                Sys::Ok(0),
            );
            lemma_readv::<V>(sh, ctx, fs, mem, realtime, fd, k, vector, n, i + 1, total);
            let m = readv_from::<V>(sh, ctx, fs, mem, realtime, fd, vector, n, i + 1, total).2;
            assert(patched(mem, at, none) =~= mem);
            lemma_filled(mem, mem, m, vector, i, n, none, held.subrange(0, got));
            assert(none + held.subrange(0, got) =~= held.subrange(0, got));
        } else {
            lemma_pipe_read::<V>(sh, ctx, fs, mem, realtime, fd, k, at as u32, len as u32);
            let (s, f, m, r) = sys_read_spec::<V>(
                sh,
                ctx,
                fs,
                mem,
                realtime,
                fd,
                at as u32,
                len as u32,
            );
            lemma_readv_step::<V>(sh, ctx, fs, mem, realtime, fd, vector, n, i, total, s, m, r);
            if held.len() == 0 {
                assert(held.subrange(0, 0) =~= Seq::<u8>::empty());
                assert(held.subrange(0, held.len() as int) =~= held);
                assert(contents_of(mem, vector, i, n).subrange(0, 0) =~= Seq::<u8>::empty());
            } else if held.len() < len {
                assert(held.subrange(0, held.len() as int) =~= held);
                lemma_short(mem, m, vector, i, n, held);
            } else {
                let first = held.subrange(0, len);
                let rest = held.subrange(len, held.len() as int);
                assert forall|j: int| vector <= j < vector + 8 * n implies #[trigger] m[j]
                    == mem[j] by {
                    assert(clear(mem, vector, n, i));
                }
                lemma_vector_kept(mem, m, vector, n);
                lemma_same_room(mem, m, vector, i + 1, n);
                let total2 = (total + len) as i32;
                lemma_readv::<V>(s, ctx, fs, m, realtime, fd, k, vector, n, i + 1, total2);
                let more = least(room_of(m, vector, i + 1, n), rest.len() as int);
                let m2 = readv_from::<V>(
                    s,
                    ctx,
                    fs,
                    m,
                    realtime,
                    fd,
                    vector,
                    n,
                    i + 1,
                    total2,
                ).2;
                lemma_filled(mem, m, m2, vector, i, n, first, rest.subrange(0, more));
                assert(first + rest.subrange(0, more) =~= held.subrange(0, got));
                assert(rest.subrange(more, rest.len() as int) =~= held.subrange(
                    got,
                    held.len() as int,
                ));
            }
        }
    }
}

/// A read that does not fill its buffer fills the front of it.
proof fn lemma_short(
    before: Seq<u8>,
    after: Seq<u8>,
    vector: u32,
    i: int,
    n: int,
    front: Seq<u8>,
)
    requires
        0 <= i < n,
        vector_fits(before, vector, n),
        apart(before, vector, n),
        front.len() < length(before, vector, i),
        after == patched(before, place(before, vector, i), front),
    ensures
        filled(before, after, vector, i, n, front),
{
    let at = place(before, vector, i);
    let len = length(before, vector, i);
    lemma_entry(before, vector, n, i);
    assert forall|k: int| vector <= k < vector + 8 * n implies #[trigger] after[k] == before[k] by {
        assert(clear(before, vector, n, i));
    }
    lemma_vector_kept(before, after, vector, n);
    lemma_same_entry(before, after, vector, n, i);
    lemma_room(after, vector, i + 1, n);
    assert(place(after, vector, i) == at && length(after, vector, i) == len);
    let tail = contents_of(after, vector, i + 1, n);
    assert((after.subrange(at, at + len) + tail).subrange(0, front.len() as int) =~= front);
}

/// A vectored read from a pipe that holds something gives as much of its front as the buffers
/// have room for: it fills the buffers one after the other, in the vector's order, with those
/// bytes, touches nothing else, and leaves the rest in the pipe.
pub proof fn law_a_vectored_read_fills_the_buffers_in_order<V: Vfs>(
    sh: SharedView<<V as VfsFile>::Handle>,
    ctx: CtxView,
    fs: Seq<MountView<<V as VfsFile>::State>>,
    mem: Seq<u8>,
    realtime: u128,
    fd: i32,
    k: u32,
    vector: u32,
    n: int,
)
    requires
        reads_pipe(sh, ctx, fd, k),
        vector_fits(mem, vector, n),
        apart(mem, vector, n),
        room_of(mem, vector, 0, n) <= i32::MAX,
        sh.pipes.get(k)->0.data.len() > 0,
    ensures
        ({
            let (s, f, m, r) = readv_from::<V>(sh, ctx, fs, mem, realtime, fd, vector, n, 0, 0);
            let held = sh.pipes.get(k)->0.data;
            let got = if room_of(mem, vector, 0, n) < held.len() {
                room_of(mem, vector, 0, n)
            } else {
                held.len() as int
            };
            &&& r == Sys::Ok(got as i32)
            &&& filled(mem, m, vector, 0, n, held.subrange(0, got))
            &&& s.pipes.get(k)->0.data == held.subrange(got, held.len() as int)
        }),
{
    lemma_readv::<V>(sh, ctx, fs, mem, realtime, fd, k, vector, n, 0, 0);
}

} // verus!
