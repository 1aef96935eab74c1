//! `pselect6`: which descriptors it marks, where, and when it waits.
use super::plain::{same_but, word_in};
use super::readiness::{
    behind, law_readiness_agrees_with_reading, law_readiness_agrees_with_writing,
};
use crate::errno::Errno;
use crate::kernel::fd::KindView;
use crate::kernel::mem::{le32, patched, Nanos};
use crate::kernel::mounts::MountView;
use crate::kernel::state::{CtxView, SharedView};
use crate::syscall::base::{errno, Fault, Sys};
use crate::syscall::io::{read_spec, write_spec};
use crate::syscall::poll::{
    bit_set, fd_polled, fd_set, pselect_spec, selected, selects, set_from, set_stored, set_word,
    set_written,
};
use crate::vfs::{Vfs, VfsFile};
use vstd::prelude::*;

verus! {

/// Whether bit `i` of the set at `at` is set: the lowest bit of its first word is bit 0.
pub open spec fn in_mask(mem: Seq<u8>, at: int, i: int) -> bool {
    (word_in(mem, at + 4 * (i / 32)) as u32 >> ((i % 32) as u32)) & 1u32 == 1u32
}

/// How many bytes a set of `n` bits takes: whole words.
pub open spec fn set_bytes(n: int) -> int {
    4 * ((n + 31) / 32)
}

// ---------------------------------------------------------------------------------------------
// one descriptor

proof fn lemma_select_bits(v: i16)
    by (bit_vector)
    ensures
        (1i16 | 4i16) & 1i16 != 0,
        (1i16 | 0i16) & 1i16 != 0,
        (1i16 | 4i16) & 4i16 != 0,
        (0i16 | 4i16) & 4i16 != 0,
        (v & (1i16 | 0x10i16 | 8i16) != 0) == (v & 1i16 != 0 || v & 0x10i16 != 0 || v & 8i16 != 0),
        (v & (4i16 | 8i16) != 0) == (v & 4i16 != 0 || v & 8i16 != 0),
        v == 0 ==> v & 1i16 == 0 && v & 4i16 == 0 && v & 8i16 == 0 && v & 0x10i16 == 0,
{
}

/// A pipe or the standard input is marked readable exactly when that was asked and a read of
/// it would not wait.
pub proof fn law_selecting_agrees_with_reading<V: Vfs>(
    sh: SharedView<<V as VfsFile>::Handle>,
    ctx: CtxView,
    fs: Seq<MountView<<V as VfsFile>::State>>,
    realtime: u128,
    fd: i32,
    reading: bool,
    writing: bool,
)
    requires
        behind(sh, ctx, fd) matches Some(d) && d.can_read() && (d.kind is Stdin || (d.kind matches
            KindView::PipeRead(k) && sh.pipes.get(k) is Some)),
    ensures
        selects(sh, ctx, fd as int, reading, writing).0 == (reading && read_spec::<V>(
            sh,
            ctx,
            fs,
            realtime,
            fd,
            1,
        ).2 is Ok),
{
    let events = (if reading {
        1i16
    } else {
        0i16
    }) | (if writing {
        4i16
    } else {
        0i16
    });
    lemma_select_bits(fd_polled(sh, ctx, fd, events));
    law_readiness_agrees_with_reading::<V>(sh, ctx, fs, realtime, fd, 1, events);
}

/// A pipe is marked writable exactly when that was asked and a write to it would not wait,
/// whether it would be taken or fail for want of a reader.
pub proof fn law_selecting_agrees_with_writing<V: Vfs>(
    sh: SharedView<<V as VfsFile>::Handle>,
    ctx: CtxView,
    fs: Seq<MountView<<V as VfsFile>::State>>,
    fd: i32,
    data: Seq<u8>,
    reading: bool,
    writing: bool,
)
    requires
        data.len() > 0,
        behind(sh, ctx, fd) matches Some(d) && d.can_write() && (d.kind is Stdout || (d.kind matches
            KindView::PipeWrite(k) && sh.pipes.get(k) is Some)),
    ensures
        ({
            let done = write_spec::<V>(sh, ctx, fs, fd, data).2;
            selects(sh, ctx, fd as int, reading, writing).1 == (writing && (done is Ok || done
                == errno::<usize>(Errno::PIPE)))
        }),
{
    let events = (if reading {
        1i16
    } else {
        0i16
    }) | (if writing {
        4i16
    } else {
        0i16
    });
    lemma_select_bits(fd_polled(sh, ctx, fd, events));
    law_readiness_agrees_with_writing::<V>(sh, ctx, fs, fd, data, events);
}

// ---------------------------------------------------------------------------------------------
// sets of descriptors

proof fn lemma_bit(word: u32, k: u32)
    requires
        k < 32,
    ensures
        (word & (1u32 << k) != 0) == ((word >> k) & 1u32 == 1u32),
{
    assert((word & (1u32 << k) != 0) == ((word >> k) & 1u32 == 1u32)) by (bit_vector)
        requires
            k < 32,
    ;
}

#[verifier::rlimit(40)]
proof fn lemma_set_from(mem: Seq<u8>, at: u32, n: int, i: int, got: Seq<bool>)
    requires
        0 <= i <= n <= 1024,
        got.len() == i,
        at + set_bytes(n) <= mem.len(),
        at + set_bytes(n) <= u32::MAX,
    ensures
        set_from(mem, at, n, i, got) matches Ok(list) && list.len() == n && (forall|j: int|
            0 <= j < i ==> list[j] == #[trigger] got[j]) && (forall|j: int|
            i <= j < n ==> #[trigger] list[j] == in_mask(mem, at as int, j)),
    decreases n - i,
{
    if i < n {
        let word = word_in(mem, at + 4 * (i / 32)) as u32;
        let here = in_mask(mem, at as int, i);
        lemma_bit(word, (i % 32) as u32);
        assert(i / 32 * 4 == 4 * (i / 32));
        assert(bit_set(word, i % 32) == here);
        let next = got.push(here);
        lemma_set_from(mem, at, n, i + 1, next);
        let list = set_from(mem, at, n, i + 1, next)->Ok_0;
        assert(list[i] == next[i]);
        assert forall|j: int| 0 <= j < i implies list[j] == #[trigger] got[j] by {
            assert(list[j] == next[j]);
        }
    }
}

proof fn lemma_set_word(values: Seq<bool>, base: int, k: int, j: int)
    requires
        0 <= base,
        0 <= j < 32,
        0 <= k <= 32,
    ensures
        ((set_word(values, base, k) >> (j as u32)) & 1u32 == 1u32) == (j < k && base + j < values.len()
            && values[base + j]),
    decreases k,
{
    let x = j as u32;
    if k <= 0 {
        assert((0u32 >> x) & 1u32 != 1u32) by (bit_vector);
    } else {
        lemma_set_word(values, base, k - 1, j);
        let rest = set_word(values, base, k - 1);
        let y = (k - 1) as u32;
        assert((((rest | (1u32 << y)) >> x) & 1u32 == 1u32) == ((rest >> x) & 1u32 == 1u32 || x
            == y)) by (bit_vector)
            requires
                x < 32,
                y < 32,
        ;
    }
}

/// What storing a set leaves from word `i` on.
#[verifier::rlimit(40)]
proof fn lemma_set_written(mem: Seq<u8>, at: u32, values: Seq<bool>, i: int)
    requires
        0 <= i,
        4 * i <= set_bytes(values.len() as int),
        values.len() <= 1024,
        at + set_bytes(values.len() as int) <= mem.len(),
        at + set_bytes(values.len() as int) <= u32::MAX,
    ensures
        ({
            let (m, r) = set_written(mem, at, values, i);
            let end = at + set_bytes(values.len() as int);
            &&& r is Ok
            &&& m.len() == mem.len()
            &&& forall|k: int|
                0 <= k < m.len() && !(at + 4 * i <= k < end) ==> #[trigger] m[k] == mem[k]
            &&& forall|j: int|
                #![trigger values[j]]
                32 * i <= j < values.len() ==> in_mask(m, at as int, j) == values[j]
        }),
    decreases values.len() + 32 - i * 32,
{
    let n = values.len() as int;
    if i * 32 < n {
        let place = at + 4 * i;
        let word = set_word(values, i * 32, 32);
        let next = patched(mem, place, le32(word));
        assert(set_bytes(n) >= 4 * (i + 1));
        super::plain::lemma_patched_word(mem, place, word);
        lemma_set_written(next, at, values, i + 1);
        let m = set_written(next, at, values, i + 1).0;
        assert(i * 4 == 4 * i);
        assert(set_written(mem, at, values, i).0 == m);
        assert(word_in(m, place) == word) by {
            assert(m[place] == next[place] && m[place + 1] == next[place + 1] && m[place + 2]
                == next[place + 2] && m[place + 3] == next[place + 3]);
        }
        assert forall|j: int|
            #![trigger values[j]]
            32 * i <= j < n implies in_mask(m, at as int, j) == values[j] by {
            if j < 32 * (i + 1) {
                assert(j / 32 == i && j % 32 == j - 32 * i);
                lemma_set_word(values, i * 32, 32, j - 32 * i);
            }
        }
        assert forall|k: int|
            0 <= k < m.len() && !(at + 4 * i <= k < at + set_bytes(n)) implies #[trigger] m[k]
            == mem[k] by {
            assert(m[k] == next[k]);
        }
    }
}

/// A set is stored bit by bit, and nothing else changes.
pub proof fn law_a_set_is_stored_by_bits(mem: Seq<u8>, at: u32, values: Seq<bool>, i: int)
    requires
        0 < at,
        values.len() <= 1024,
        at + set_bytes(values.len() as int) <= mem.len(),
        at + set_bytes(values.len() as int) <= u32::MAX,
        0 <= i < values.len(),
    ensures
        ({
            let (m, r) = set_stored(mem, at, values);
            &&& r is Ok
            &&& in_mask(m, at as int, i) == values[i]
            &&& same_but(mem, m, at as int, set_bytes(values.len() as int))
        }),
{
    lemma_set_written(mem, at, values, 0);
    assert(values[i] == values[i]);
    let m = set_stored(mem, at, values).0;
    assert(in_mask(m, at as int, i) == values[i]);
}

/// A set is read bit by bit; a null one is empty.
pub proof fn law_a_set_is_read_by_bits(mem: Seq<u8>, at: u32, n: int, i: int)
    requires
        0 <= i < n <= 1024,
        at == 0 || (at + set_bytes(n) <= mem.len() && at + set_bytes(n) <= u32::MAX),
    ensures
        fd_set(mem, at, n) matches Ok(list) && list.len() == n && list[i] == (at != 0 && in_mask(
            mem,
            at as int,
            i,
        )),
{
    if at != 0 {
        lemma_set_from(mem, at, n, 0, Seq::empty());
    }
}

proof fn lemma_selected<F>(
    sh: SharedView<F>,
    ctx: CtxView,
    reads: Seq<bool>,
    writes: Seq<bool>,
    n: int,
    i: int,
)
    requires
        0 <= i < n,
    ensures
        ({
            let a = selected(sh, ctx, reads, writes, n);
            &&& a.readable.len() == n
            &&& a.writable.len() == n
            &&& a.readable[i] == selects(sh, ctx, i, reads[i], writes[i]).0
            &&& a.writable[i] == selects(sh, ctx, i, reads[i], writes[i]).1
            &&& a.ready >= 0
            &&& a.readable[i] || a.writable[i] ==> a.ready > 0
        }),
    decreases n,
{
    lemma_selected_len(sh, ctx, reads, writes, n - 1);
    if i < n - 1 {
        lemma_selected(sh, ctx, reads, writes, n - 1, i);
    }
}

proof fn lemma_selected_len<F>(
    sh: SharedView<F>,
    ctx: CtxView,
    reads: Seq<bool>,
    writes: Seq<bool>,
    n: int,
)
    requires
        0 <= n,
    ensures
        selected(sh, ctx, reads, writes, n).readable.len() == n,
        selected(sh, ctx, reads, writes, n).writable.len() == n,
        0 <= selected(sh, ctx, reads, writes, n).ready <= 2 * n,
    decreases n,
{
    if n > 0 {
        lemma_selected_len(sh, ctx, reads, writes, n - 1);
    }
}

/// `pselect6` over the set of descriptors to read marks in it each one that was asked about and
/// is ready, and no other; with one that is ready it does not wait.
pub proof fn law_pselect_marks_what_is_ready<F>(
    sh: SharedView<F>,
    ctx: CtxView,
    mem: Seq<u8>,
    elapsed: Nanos,
    count: i32,
    at: u32,
    i: int,
)
    requires
        0 < count <= 1024,
        0 < at,
        at + set_bytes(count as int) <= mem.len(),
        at + set_bytes(count as int) <= u32::MAX,
        0 <= i < count,
    ensures
        ({
            let (s, c, m, r) = pselect_spec(sh, ctx, mem, elapsed, count, at, 0, 0, 0);
            let ready = selects(sh, ctx, i, in_mask(mem, at as int, i), false).0;
            &&& r is Ok || r == Sys::Err(Fault::Block)
            &&& ready ==> r is Ok
            &&& r matches Ok(n) ==> n > 0 && in_mask(m, at as int, i) == ready
            &&& r is Err ==> m == mem
        }),
{
    law_a_set_is_read_by_bits(mem, at, count as int, i);
    law_a_set_is_read_by_bits(mem, 0, count as int, i);
    let reads = fd_set(mem, at, count as int)->Ok_0;
    let writes = fd_set(mem, 0, count as int)->Ok_0;
    lemma_selected(sh, ctx, reads, writes, count as int, i);
    lemma_selected_len(sh, ctx, reads, writes, count as int);
    let answer = selected(sh, ctx, reads, writes, count as int);
    law_a_set_is_stored_by_bits(mem, at, answer.readable, i);
}

/// And likewise over the set of descriptors to write.
pub proof fn law_pselect_marks_what_can_be_written<F>(
    sh: SharedView<F>,
    ctx: CtxView,
    mem: Seq<u8>,
    elapsed: Nanos,
    count: i32,
    at: u32,
    i: int,
)
    requires
        0 < count <= 1024,
        0 < at,
        at + set_bytes(count as int) <= mem.len(),
        at + set_bytes(count as int) <= u32::MAX,
        0 <= i < count,
    ensures
        ({
            let (s, c, m, r) = pselect_spec(sh, ctx, mem, elapsed, count, 0, at, 0, 0);
            let ready = selects(sh, ctx, i, false, in_mask(mem, at as int, i)).1;
            &&& r is Ok || r == Sys::Err(Fault::Block)
            &&& ready ==> r is Ok
            &&& r matches Ok(n) ==> n > 0 && in_mask(m, at as int, i) == ready
            &&& r is Err ==> m == mem
        }),
{
    law_a_set_is_read_by_bits(mem, at, count as int, i);
    law_a_set_is_read_by_bits(mem, 0, count as int, i);
    let writes = fd_set(mem, at, count as int)->Ok_0;
    let reads = fd_set(mem, 0, count as int)->Ok_0;
    lemma_selected(sh, ctx, reads, writes, count as int, i);
    lemma_selected_len(sh, ctx, reads, writes, count as int);
    let answer = selected(sh, ctx, reads, writes, count as int);
    law_a_set_is_stored_by_bits(mem, at, answer.writable, i);
}

} // verus!
