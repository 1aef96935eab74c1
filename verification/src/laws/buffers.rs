//! What holds of guest memory, pipes, captured output, descriptors and the slab.
use crate::errno::Errno;
use crate::kernel::fd::{fd_at, free_from, without_cloexec, DescView, Fd, KindView, PIPE_CAPACITY};
use crate::kernel::mem::{
    le32, le64, lemma_double_round_trip, lemma_word_round_trip, load32, load64, patched, store,
    word_at,
};
use crate::kernel::mounts::MountView;
use crate::kernel::state::{OutputView, SharedView};
use crate::slab::SlabView;
use crate::syscall::base::Fault;
use crate::syscall::io::{least, read_kind, write_kind};
use crate::vfs::{Vfs, VfsFile};
use vstd::prelude::*;

verus! {

// ---------------------------------------------------------------------------------------------
// memory

/// A store that succeeds puts exactly its bytes in place and leaves every other byte; one that
/// does not fit changes nothing.
pub proof fn law_a_store_is_all_or_nothing(m: Seq<u8>, at: int, data: Seq<u8>)
    requires
        0 <= at,
    ensures
        ({
            let (after, r) = store(m, at, data);
            &&& after.len() == m.len()
            &&& r is Err ==> after == m
            &&& r is Ok ==> {
                &&& after.subrange(at, at + data.len()) == data
                &&& forall|i: int|
                    0 <= i < m.len() && !(at <= i < at + data.len()) ==> #[trigger] after[i] == m[i]
            }
        }),
{
    let (after, r) = store(m, at, data);
    if r is Ok {
        assert(after.subrange(at, at + data.len()) =~= data);
    }
}

/// A word that was stored is the word that is loaded.
pub proof fn law_a_word_reads_back(m: Seq<u8>, at: int, v: u32)
    requires
        store(m, at, le32(v)).1 is Ok,
    ensures
        load32(store(m, at, le32(v)).0, at) == Ok::<u32, Errno>(v),
{
    lemma_word_round_trip(v);
    let after = patched(m, at, le32(v));
    assert(after[at] == le32(v)[0] && after[at + 1] == le32(v)[1] && after[at + 2] == le32(v)[2]
        && after[at + 3] == le32(v)[3]);
}

/// A double word that was stored is the double word that is loaded.
pub proof fn law_a_double_word_reads_back(m: Seq<u8>, at: int, v: u64)
    requires
        store(m, at, le64(v)).1 is Ok,
    ensures
        load64(store(m, at, le64(v)).0, at) == Ok::<u64, Errno>(v),
{
    lemma_double_round_trip(v);
    let b = le64(v);
    let after = patched(m, at, b);
    assert(after[at] == b[0] && after[at + 1] == b[1] && after[at + 2] == b[2] && after[at + 3]
        == b[3]);
    assert(after[at + 4] == b[4] && after[at + 5] == b[5] && after[at + 6] == b[6] && after[at + 7]
        == b[7]);
    assert(word_at(after, at) == word_at(b, 0));
    assert(word_at(after, at + 4) == word_at(b, 4));
}

// ---------------------------------------------------------------------------------------------
// pipes

/// A pipe is a queue. What a write takes goes behind what is there, as much of it as there is
/// room for; what a read gives is the front, and the rest stays.
pub proof fn law_a_pipe_is_a_queue<V: Vfs>(
    sh: SharedView<<V as VfsFile>::Handle>,
    fs: Seq<MountView<<V as VfsFile>::State>>,
    realtime: u128,
    pid: i32,
    k: u32,
    to: (u32, DescView<<V as VfsFile>::Handle>),
    from: (u32, DescView<<V as VfsFile>::Handle>),
    data: Seq<u8>,
    len: usize,
)
    requires
        to.1.kind == KindView::<<V as VfsFile>::Handle>::PipeWrite(k),
        from.1.kind == KindView::<<V as VfsFile>::Handle>::PipeRead(k),
        data.len() > 0,
        data.len() <= usize::MAX,
        len > 0,
        sh.pipes.get(k) matches Some(p) && p.readers > 0 && p.data.len() < PIPE_CAPACITY,
    ensures
        ({
            let held = sh.pipes.get(k)->0.data;
            let n = least(PIPE_CAPACITY - held.len(), data.len() as int);
            let all = held + data.subrange(0, n);
            let (s1, f1, wrote) = write_kind::<V>(sh, fs, pid, to.0, to.1, data);
            let (s2, f2, got) = read_kind::<V>(s1, f1, realtime, from.0, from.1, len);
            let m = least(len as int, all.len() as int);
            &&& wrote == Ok::<usize, Fault>(n as usize)
            &&& got == Ok::<Seq<u8>, Fault>(all.subrange(0, m))
            &&& s2.pipes.get(k)->0.data == all.subrange(m, all.len() as int)
            &&& f2 == fs
        }),
{
    let held = sh.pipes.get(k)->0.data;
    let n = least(PIPE_CAPACITY - held.len(), data.len() as int);
    let all = held + data.subrange(0, n);
    assert(all.len() > 0);
}

/// What is written into an empty pipe, as far as it fits, comes out unchanged.
pub proof fn law_bytes_cross_a_pipe_unchanged<V: Vfs>(
    sh: SharedView<<V as VfsFile>::Handle>,
    fs: Seq<MountView<<V as VfsFile>::State>>,
    realtime: u128,
    pid: i32,
    k: u32,
    to: (u32, DescView<<V as VfsFile>::Handle>),
    from: (u32, DescView<<V as VfsFile>::Handle>),
    data: Seq<u8>,
    len: usize,
)
    requires
        to.1.kind == KindView::<<V as VfsFile>::Handle>::PipeWrite(k),
        from.1.kind == KindView::<<V as VfsFile>::Handle>::PipeRead(k),
        0 < data.len() <= PIPE_CAPACITY,
        data.len() <= len,
        sh.pipes.get(k) matches Some(p) && p.readers > 0 && p.data.len() == 0,
    ensures
        ({
            let (s1, f1, wrote) = write_kind::<V>(sh, fs, pid, to.0, to.1, data);
            let (s2, f2, got) = read_kind::<V>(s1, f1, realtime, from.0, from.1, len);
            &&& wrote == Ok::<usize, Fault>(data.len() as usize)
            &&& got == Ok::<Seq<u8>, Fault>(data)
            &&& s2.pipes.get(k)->0.data.len() == 0
        }),
{
    law_a_pipe_is_a_queue::<V>(sh, fs, realtime, pid, k, to, from, data, len);
    let held = sh.pipes.get(k)->0.data;
    let all = held + data.subrange(0, data.len() as int);
    assert(all =~= data);
    assert(all.subrange(0, all.len() as int) =~= data);
}

// ---------------------------------------------------------------------------------------------
// captured output

/// Nothing written is lost track of: what is kept and what is dropped add up to what was
/// written, what was kept before stays at the front, and no more is kept than allowed.
pub proof fn law_output_is_kept_or_counted(o: OutputView, bytes: Seq<u8>, limit: int)
    requires
        0 <= limit,
        o.data.len() <= limit,
        o.dropped + bytes.len() <= u64::MAX,
    ensures
        ({
            let after = o.pushed(bytes, limit);
            &&& after.data.len() + after.dropped == o.data.len() + o.dropped + bytes.len()
            &&& after.data.len() <= limit
            &&& after.data.subrange(0, o.data.len() as int) == o.data
        }),
{
    let after = o.pushed(bytes, limit);
    assert(after.data.subrange(0, o.data.len() as int) =~= o.data);
}

/// Output is streamed once: what was handed over is not handed over again, and what is written
/// afterwards is exactly what comes next.
pub proof fn law_output_is_streamed_once(o: OutputView, bytes: Seq<u8>, limit: int)
    requires
        0 <= limit,
        o.data.len() <= usize::MAX,
    ensures
        ({
            let drained = OutputView { taken: o.data.len() as usize, ..o };
            &&& drained.fresh().len() == 0
            &&& drained.pushed(bytes, limit).fresh() == bytes.subrange(
                0,
                o.kept(bytes.len() as int, limit),
            )
        }),
{
    let drained = OutputView { taken: o.data.len() as usize, ..o };
    assert(drained.pushed(bytes, limit).fresh() =~= bytes.subrange(
        0,
        o.kept(bytes.len() as int, limit),
    ));
}

// ---------------------------------------------------------------------------------------------
// descriptors

/// A new descriptor is the lowest free one at or above the minimum.
pub proof fn law_the_lowest_free_descriptor(slots: Seq<Option<Fd>>, min: int)
    requires
        0 <= min,
    ensures
        min <= free_from(slots, min),
        fd_at(slots, free_from(slots, min)) is None,
        forall|fd: int| min <= fd < free_from(slots, min) ==> #[trigger] fd_at(slots, fd) is Some,
    decreases slots.len() - min,
{
    if min < slots.len() && slots[min] is Some {
        law_the_lowest_free_descriptor(slots, min + 1);
        assert(fd_at(slots, min) is Some);
    }
}

/// `execve` closes exactly the descriptors marked for it.
pub proof fn law_exec_closes_what_is_marked(slots: Seq<Option<Fd>>, fd: int)
    ensures
        fd_at(without_cloexec(slots), fd) == match fd_at(slots, fd) {
            Some(entry) => if entry.cloexec {
                None
            } else {
                Some(entry)
            },
            None => None,
        },
{
}

// ---------------------------------------------------------------------------------------------
// the slab

/// A value is found under the key it was given, and every other key holds what it held.
pub proof fn law_a_slab_keeps_what_it_was_given<T>(s: SlabView<T>, value: T, other: u32)
    requires
        s.wf(),
        s.slots.len() < u32::MAX,
        other != s.next_key(),
    ensures
        !s.contains(s.next_key()),
        s.insert(value).get(s.next_key()) == Some(value),
        s.insert(value).get(other) == s.get(other),
{
    if s.free.len() > 0 {
        let k = s.free[s.free.len() - 1];
        assert(s.slots[k as int] is None);
    }
}

/// A key whose value is gone holds nothing, is the next to be given out, and removing it again
/// changes nothing.
pub proof fn law_a_freed_key_is_reused<T>(s: SlabView<T>, k: u32, other: u32)
    requires
        s.wf(),
        s.contains(k),
        other != k,
    ensures
        s.remove(k).get(k) is None,
        s.remove(k).next_key() == k,
        s.remove(k).remove(k) == s.remove(k),
        s.remove(k).get(other) == s.get(other),
{
}

} // verus!
