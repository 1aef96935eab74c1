//! What reads and writes move, and where they go on.
use super::layouts::lemma_eight;
use super::plain::{double_in, half_in, same_but, word_in};
use super::readiness::behind;
use super::signals::{in_set, is_record, lemma_in_set, lemma_is_record};
use super::vectors::reads_pipe;
use crate::errno::Errno;
use crate::kernel::fd::{fd_at, DirEntView, KindView, PipeView};
use crate::kernel::mem::{le16, le64, lemma_double_round_trip, patched, zeros};
use crate::kernel::mounts::MountView;
use crate::kernel::state::{CtxView, SharedView};
use crate::kernel::task::law_raise_adds_one_signal;
use crate::syscall::base::{errno, Fault, Sys};
use crate::syscall::fds::{
    ftruncate_spec, getdents_spec, lseek_spec, record_bytes, record_len, records_from,
};
use crate::syscall::io::{line_len, read_spec, sys_read_spec, sys_write_spec, write_spec};
use crate::vfs::{Vfs, VfsFile};
use crate::vfs::memory::{MemFile, MemModel, MemVfs};
use vstd::prelude::*;
use vstd::utf8::encode_utf8;

verus! {

// ---------------------------------------------------------------------------------------------
// access

/// The two lowest bits of a file's flags say what it was opened for: 0 is reading, 1 writing
/// and 2 both. What it was not opened for fails, whatever kind of file it is, and so does
/// every call on a descriptor that is not open.
pub proof fn law_a_file_is_used_as_it_was_opened<V: Vfs>(
    sh: SharedView<<V as VfsFile>::Handle>,
    ctx: CtxView,
    fs: Seq<MountView<<V as VfsFile>::State>>,
    realtime: u128,
    fd: i32,
    len: usize,
    data: Seq<u8>,
)
    requires
        len > 0,
    ensures
        (behind(sh, ctx, fd) matches Some(d) ==> d.flags & 3 == 1 || d.flags & 3 == 3) ==> read_spec::<
            V,
        >(sh, ctx, fs, realtime, fd, len) == (sh, fs, errno::<Seq<u8>>(Errno::BADF)),
        (behind(sh, ctx, fd) matches Some(d) ==> d.flags & 3 == 0 || d.flags & 3 == 3)
            ==> write_spec::<V>(sh, ctx, fs, fd, data) == (sh, fs, errno::<usize>(Errno::BADF)),
        behind(sh, ctx, fd) matches Some(d) ==> d.can_read() == (d.flags & 3 == 0 || d.flags & 3
            == 2) && d.can_write() == (d.flags & 3 == 1 || d.flags & 3 == 2),
{
}

// ---------------------------------------------------------------------------------------------
// through memory

/// What one guest writes into an empty pipe from its memory, another reads from it into its
/// own: the same bytes, in the same order, at the place it names, and nothing else of its
/// memory changes. Both are told how many they were.
pub proof fn law_a_pipe_carries_memory<V: Vfs>(
    sh: SharedView<<V as VfsFile>::Handle>,
    writer: CtxView,
    reader: CtxView,
    fs: Seq<MountView<<V as VfsFile>::State>>,
    mem: Seq<u8>,
    other: Seq<u8>,
    realtime: u128,
    to: i32,
    from: i32,
    k: u32,
    at: u32,
    len: u32,
    place: u32,
    room: u32,
)
    requires
        0 < len <= 65536,
        len <= room,
        at + len <= mem.len(),
        place + len <= other.len(),
        behind(sh, writer, to) matches Some(d) && d.can_write() && d.kind == KindView::<
            <V as VfsFile>::Handle,
        >::PipeWrite(k),
        reads_pipe(sh, reader, from, k),
        sh.pipes.get(k)->0.data.len() == 0,
        sh.pipes.get(k)->0.readers > 0,
    ensures
        ({
            let (s1, f1, wrote) = sys_write_spec::<V>(sh, writer, fs, mem, to, at, len);
            let (s2, f2, m, got) = sys_read_spec::<V>(
                s1,
                reader,
                f1,
                other,
                realtime,
                from,
                place,
                room,
            );
            &&& wrote == Sys::Ok(len as i32)
            &&& got == Sys::Ok(len as i32)
            &&& m.subrange(place as int, place + len) == mem.subrange(at as int, at + len)
            &&& same_but(other, m, place as int, len as int)
            &&& s2.pipes.get(k)->0.data.len() == 0
        }),
{
    let data = mem.subrange(at as int, at + len);
    let p = sh.pipes.get(k)->0;
    assert(data.subrange(0, len as int) =~= data);
    assert(p.data + data =~= data);
    let (s1, f1, wrote) = sys_write_spec::<V>(sh, writer, fs, mem, to, at, len);
    assert(s1.pipes.get(k) == Some(PipeView { data, ..p }));
    assert(reads_pipe(s1, reader, from, k));
    lemma_takes_all::<V>(s1, reader, f1, other, realtime, from, k, place, room);
    assert(patched(other, place as int, data).subrange(place as int, place + len) =~= data);
}

proof fn lemma_takes_all<V: Vfs>(
    sh: SharedView<<V as VfsFile>::Handle>,
    ctx: CtxView,
    fs: Seq<MountView<<V as VfsFile>::State>>,
    mem: Seq<u8>,
    realtime: u128,
    fd: i32,
    k: u32,
    at: u32,
    room: u32,
)
    requires
        reads_pipe(sh, ctx, fd, k),
        0 < sh.pipes.get(k)->0.data.len() <= room,
        sh.pipes.get(k)->0.data.len() <= 65536,
        at + sh.pipes.get(k)->0.data.len() <= mem.len(),
    ensures
        ({
            let data = sh.pipes.get(k)->0.data;
            let (s, f, m, r) = sys_read_spec::<V>(sh, ctx, fs, mem, realtime, fd, at, room);
            &&& r == Sys::Ok(data.len() as i32)
            &&& m == patched(mem, at as int, data)
            &&& s.pipes.get(k)->0.data.len() == 0
        }),
{
    let data = sh.pipes.get(k)->0.data;
    assert(data.subrange(0, data.len() as int) =~= data);
}

/// A write into a pipe that nobody reads fails, and the writer gets the signal that says so.
pub proof fn law_a_broken_pipe_signals<V: Vfs>(
    sh: SharedView<<V as VfsFile>::Handle>,
    ctx: CtxView,
    fs: Seq<MountView<<V as VfsFile>::State>>,
    fd: i32,
    data: Seq<u8>,
    k: u32,
    i: int,
    s: i32,
)
    requires
        behind(sh, ctx, fd) matches Some(d) && d.can_write() && d.kind == KindView::<
            <V as VfsFile>::Handle,
        >::PipeWrite(k),
        sh.pipes.get(k) matches Some(p) && p.readers == 0,
        is_record(sh.table, ctx.task.pid, i),
        0 < s < 64,
    ensures
        ({
            let (after, f, r) = write_spec::<V>(sh, ctx, fs, fd, data);
            &&& r == errno::<usize>(Errno::PIPE)
            &&& after.pipes == sh.pipes
            &&& in_set(after.table[i].pending, s) == (in_set(sh.table[i].pending, s) || s == 13)
            &&& forall|j: int|
                0 <= j < sh.table.len() && j != i ==> #[trigger] after.table[j] == sh.table[j]
        }),
{
    lemma_is_record(sh.table, ctx.task.pid, i);
    law_raise_adds_one_signal(sh.table[i], 13, s);
    lemma_in_set(sh.table[i].pending, s);
    lemma_in_set(sh.table[i].raised(13).pending, s);
}

// ---------------------------------------------------------------------------------------------
// the standard input

proof fn lemma_line(data: Seq<u8>, i: int, max: int)
    requires
        0 <= i <= max,
        i <= data.len(),
    ensures
        i <= line_len(data, i, max) <= max,
        line_len(data, i, max) <= data.len(),
        i < max && i < data.len() ==> i < line_len(data, i, max),
        forall|k: int| i <= k < line_len(data, i, max) - 1 ==> #[trigger] data[k] != 10,
        line_len(data, i, max) < max && line_len(data, i, max) < data.len() ==> (i < line_len(
            data,
            i,
            max,
        ) && data[line_len(data, i, max) - 1] == 10),
    decreases max - i,
{
    if i < max && i < data.len() && data[i] != 10 {
        lemma_line(data, i + 1, max);
        let n = line_len(data, i + 1, max);
        assert forall|k: int| i <= k < n - 1 implies #[trigger] data[k] != 10 by {}
    }
}

/// A read of the standard input gives a line at a time: the front of what was typed, up to and
/// with the first line feed, as far as there is room; what follows stays for the next read.
/// With nothing there it gives the end of the file once the input is closed, and waits for
/// more before that.
pub proof fn law_the_standard_input_is_read_by_lines<V: Vfs>(
    sh: SharedView<<V as VfsFile>::Handle>,
    ctx: CtxView,
    fs: Seq<MountView<<V as VfsFile>::State>>,
    realtime: u128,
    fd: i32,
    len: usize,
)
    requires
        len > 0,
        behind(sh, ctx, fd) matches Some(d) && d.can_read() && d.kind is Stdin,
    ensures
        ({
            let (s, f, r) = read_spec::<V>(sh, ctx, fs, realtime, fd, len);
            let typed = sh.stdin.data;
            &&& typed.len() > 0 ==> {
                &&& r matches Ok(line)
                &&& 0 < line.len() <= len
                &&& line + s.stdin.data == typed
                &&& forall|k: int| 0 <= k < line.len() - 1 ==> #[trigger] line[k] != 10
                &&& line.len() < len && s.stdin.data.len() > 0 ==> line.last() == 10
            }
            &&& typed.len() == 0 && sh.stdin.closed ==> r == Ok::<Seq<u8>, Fault>(Seq::empty())
            &&& typed.len() == 0 && !sh.stdin.closed ==> {
                &&& r is Err
                &&& s.stdin.data == typed
                &&& behind(sh, ctx, fd)->0.flags & 0x800 != 0 ==> r == errno::<Seq<u8>>(
                    Errno::AGAIN,
                )
                &&& behind(sh, ctx, fd)->0.flags & 0x800 == 0 ==> r == Err::<Seq<u8>, Fault>(
                    Fault::Block,
                ) && s.stdin.wanted
            }
        }),
{
    let typed = sh.stdin.data;
    if typed.len() > 0 {
        lemma_line(typed, 0, len as int);
        let n = line_len(typed, 0, len as int);
        assert(typed.subrange(0, n) + typed.subrange(n, typed.len() as int) =~= typed);
    }
}

// ---------------------------------------------------------------------------------------------
// devices and files in memory

/// Nothing comes out of the null device and everything goes in; the zero device gives as many
/// zeros as are asked for.
pub proof fn law_devices_give_what_they_are_for<V: Vfs>(
    sh: SharedView<<V as VfsFile>::Handle>,
    ctx: CtxView,
    fs: Seq<MountView<<V as VfsFile>::State>>,
    realtime: u128,
    fd: i32,
    len: usize,
    data: Seq<u8>,
)
    requires
        len > 0,
        data.len() <= usize::MAX,
        behind(sh, ctx, fd) matches Some(d) && d.flags & 3 == 2,
    ensures
        ({
            let (s, f, r) = read_spec::<V>(sh, ctx, fs, realtime, fd, len);
            let (s2, f2, w) = write_spec::<V>(sh, ctx, fs, fd, data);
            let kind = behind(sh, ctx, fd)->0.kind;
            &&& kind is Null ==> (r matches Ok(got) && got.len() == 0)
            &&& kind is Zero ==> (r matches Ok(got) && got.len() == len && forall|i: int|
                0 <= i < len ==> #[trigger] got[i] == 0)
            &&& kind is Random ==> (r matches Ok(got) && got.len() == len)
            &&& kind is Null || kind is Zero || kind is Random ==> w == Ok::<usize, Fault>(
                data.len() as usize,
            ) && s2 == sh && f2 == fs
        }),
{
    if behind(sh, ctx, fd)->0.kind is Random {
        lemma_random_len(crate::syscall::io::seed_of(sh.random, realtime), len as nat);
    }
}

proof fn lemma_random_len(seed: u64, n: nat)
    ensures
        crate::syscall::io::random_bytes(seed, n).len() == n,
    decreases n,
{
    if n > 0 {
        lemma_random_len(seed, (n - 1) as nat);
    }
}

/// Reading a generated file goes on where the last read stopped: two reads, one after the
/// other, through any descriptors of it, give what one read of both lengths would.
pub proof fn law_reading_goes_on<V: Vfs>(
    sh: SharedView<<V as VfsFile>::Handle>,
    ctx: CtxView,
    fs: Seq<MountView<<V as VfsFile>::State>>,
    realtime: u128,
    fd: i32,
    fd2: i32,
    a: usize,
    b: usize,
    both: usize,
)
    requires
        a > 0,
        b > 0,
        both == a + b,
        fd_at(ctx.task.fds, fd as int) matches Some(x) && (fd_at(ctx.task.fds, fd2 as int) matches
            Some(y) && x.desc == y.desc),
        behind(sh, ctx, fd) matches Some(d) && d.can_read() && (d.kind matches KindView::Memory {
            data,
            pos,
        } && data.len() <= usize::MAX),
    ensures
        ({
            let (s1, f1, r1) = read_spec::<V>(sh, ctx, fs, realtime, fd, a);
            let (s2, f2, r2) = read_spec::<V>(s1, ctx, f1, realtime, fd2, b);
            let (s3, f3, r3) = read_spec::<V>(sh, ctx, fs, realtime, fd, both);
            let data = behind(sh, ctx, fd)->0.kind->Memory_data;
            let pos = behind(sh, ctx, fd)->0.kind->Memory_pos as int;
            &&& r1 is Ok && r2 is Ok && r3 is Ok
            &&& r1->Ok_0 + r2->Ok_0 == r3->Ok_0
            &&& pos <= data.len() ==> r1->Ok_0 == data.subrange(
                pos,
                if pos + a < data.len() {
                    pos + a
                } else {
                    data.len() as int
                },
            )
        }),
{
    let (s1, f1, r1) = read_spec::<V>(sh, ctx, fs, realtime, fd, a);
    let (s2, f2, r2) = read_spec::<V>(s1, ctx, f1, realtime, fd2, b);
    let (s3, f3, r3) = read_spec::<V>(sh, ctx, fs, realtime, fd, both);
    assert(r1->Ok_0 + r2->Ok_0 =~= r3->Ok_0);
}

/// An open file of a filesystem in memory, as a descriptor has it.
pub open spec fn memory_file(
    sh: SharedView<MemFile>,
    ctx: CtxView,
    fs: Seq<MountView<MemModel>>,
    fd: i32,
    mount: int,
    file: MemFile,
) -> bool {
    &&& behind(sh, ctx, fd) matches Some(d) && d.kind matches KindView::File {
        file: f,
        mount: n,
        closed,
    } && f == file && n == mount
    &&& 0 <= mount < fs.len()
    &&& file.ino < fs[mount].state.files.len()
    &&& fs[mount].state.files[file.ino as int].len() < 0x4000_0000_0000_0000
    &&& file.pos < 0x4000_0000_0000_0000
}

/// `lseek` moves the position to the offset from the beginning, from where it was or from the
/// end, and returns it; a read then starts there. It fails and moves nothing where that would
/// be before the beginning, and where it is not told from where.
pub proof fn law_lseek_moves_the_position(
    sh: SharedView<MemFile>,
    ctx: CtxView,
    fs: Seq<MountView<MemModel>>,
    realtime: u128,
    fd: i32,
    offset: i32,
    whence: i32,
    mount: int,
    file: MemFile,
    len: usize,
)
    requires
        memory_file(sh, ctx, fs, fd, mount, file),
        behind(sh, ctx, fd)->0.can_read(),
        len > 0,
    ensures
        ({
            let (s, f, r) = lseek_spec::<MemVfs>(sh, ctx, fs, fd, offset, whence);
            let got = read_spec::<MemVfs>(s, ctx, f, realtime, fd, len).2;
            let data = fs[mount].state.files[file.ino as int];
            let target = if whence == 0 {
                if offset < 0 {
                    0
                } else {
                    offset as int
                }
            } else if whence == 1 {
                file.pos + offset
            } else {
                data.len() + offset
            };
            &&& whence < 0 || whence > 2 || target < 0 ==> r == errno::<i32>(Errno::INVAL)
                && memory_file(s, ctx, f, fd, mount, file)
            &&& 0 <= whence <= 2 && 0 <= target ==> {
                &&& memory_file(
                    s,
                    ctx,
                    f,
                    fd,
                    mount,
                    MemFile { pos: target as u64, ..file },
                ) || target >= 0x4000_0000_0000_0000
                &&& target <= i32::MAX ==> r == Sys::Ok(target as i32)
                &&& target > i32::MAX ==> r == errno::<i32>(Errno::OVERFLOW)
                &&& got matches Ok(bytes)
                &&& target <= data.len() ==> bytes == data.subrange(
                    target,
                    if target + len < data.len() {
                        target + len
                    } else {
                        data.len() as int
                    },
                )
                &&& target > data.len() ==> bytes.len() == 0
            }
            &&& f =~= fs
        }),
{
    let (s, f, r) = lseek_spec::<MemVfs>(sh, ctx, fs, fd, offset, whence);
    assert(f =~= fs);
}

/// `ftruncate` gives a file exactly the length it is told: what it held up to there stays, and
/// what is new is zeros. No other file changes.
pub proof fn law_ftruncate_sets_the_length(
    sh: SharedView<MemFile>,
    ctx: CtxView,
    fs: Seq<MountView<MemModel>>,
    fd: i32,
    len: u64,
    mount: int,
    file: MemFile,
    other: int,
)
    requires
        memory_file(sh, ctx, fs, fd, mount, file),
        file.writable,
        !crate::kernel::mounts::refuses_writes(fs, mount),
        len <= usize::MAX,
        0 <= other < fs[mount].state.files.len(),
        other != file.ino,
    ensures
        ({
            let (s, f, r) = ftruncate_spec::<MemVfs>(sh, ctx, fs, fd, len);
            let before = fs[mount].state.files[file.ino as int];
            let after = f[mount].state.files[file.ino as int];
            &&& r == Sys::Ok(0)
            &&& after.len() == len
            &&& forall|i: int|
                0 <= i < len ==> #[trigger] after[i] == if i < before.len() {
                    before[i]
                } else {
                    0
                }
            &&& f[mount].state.files[other] == fs[mount].state.files[other]
            &&& f[mount].state.nodes == fs[mount].state.nodes
        }),
{
}

// ---------------------------------------------------------------------------------------------
// listings

/// Whether a directory record stands at `at`: the number of the file in eight bytes, where the
/// listing goes on in the next eight, the record's own length in two, the type in one, and the
/// name, which ends in a NUL. Records are as long as a multiple of eight.
#[verifier::opaque]
pub open spec fn record_in(block: Seq<u8>, at: int, e: DirEntView, pos: int) -> bool {
    let name = encode_utf8(e.name);
    let len = half_in(block, at + 16);
    &&& double_in(block, at) == e.ino
    &&& double_in(block, at + 8) == pos + 1
    &&& len % 8 == 0
    &&& 19 + name.len() < len <= 19 + name.len() + 8
    &&& at + len <= block.len()
    &&& block[at + 18] == e.kind
    &&& block.subrange(at + 19, at + 19 + name.len()) == name
    &&& block[at + 19 + name.len()] == 0
}

/// Where record `k` of a block stands, walking from each record to the next by its length.
pub open spec fn walk(block: Seq<u8>, k: int) -> int
    decreases k,
{
    if k <= 0 {
        0
    } else {
        walk(block, k - 1) + half_in(block, walk(block, k - 1) + 16)
    }
}

proof fn lemma_record(e: DirEntView, pos: int)
    requires
        0 <= pos < u64::MAX,
        encode_utf8(e.name).len() <= 65000,
    ensures
        record_bytes(e, pos).len() == record_len(e.name),
        record_in(record_bytes(e, pos), 0, e, pos),
        half_in(record_bytes(e, pos), 16) == record_len(e.name),
{
    lemma_record_len(e.name);
    lemma_record_of_len(e, pos, record_len(e.name));
}

proof fn lemma_record_of_len(e: DirEntView, pos: int, len: int)
    requires
        0 <= pos < u64::MAX,
        len % 8 == 0,
        19 + encode_utf8(e.name).len() < len <= 19 + encode_utf8(e.name).len() + 8,
        len < 65536,
    ensures
        ({
            let name = encode_utf8(e.name);
            let b = le64(e.ino) + le64((pos + 1) as u64) + le16((len % 65536) as u16) + seq![e.kind]
                + name + zeros((len - 19 - name.len()) as nat);
            b.len() == len && record_in(b, 0, e, pos) && half_in(b, 16) == len
        }),
{
    let name = encode_utf8(e.name);
    let v = (len % 65536) as u16;
    let pad = zeros((len - 19 - name.len()) as nat);
    let b = le64(e.ino) + le64((pos + 1) as u64) + le16(v) + seq![e.kind] + name + pad;
    lemma_numbers(e.ino, (pos + 1) as u64, v, e.kind, name, pad);
    lemma_is_record_of(b, e, pos, len);
}

proof fn lemma_is_record_of(b: Seq<u8>, e: DirEntView, pos: int, len: int)
    requires
        b.len() == len,
        len % 8 == 0,
        19 + encode_utf8(e.name).len() < len <= 19 + encode_utf8(e.name).len() + 8,
        double_in(b, 0) == e.ino,
        double_in(b, 8) == pos + 1,
        half_in(b, 16) == len,
        b[18] == e.kind,
        b.subrange(19, 19int + encode_utf8(e.name).len()) == encode_utf8(e.name),
        b[19int + encode_utf8(e.name).len()] == 0,
    ensures
        record_in(b, 0, e, pos),
{
    reveal(record_in);
}

proof fn lemma_record_len(name: Seq<char>)
    requires
        encode_utf8(name).len() <= 65000,
    ensures
        record_len(name) % 8 == 0,
        19 + encode_utf8(name).len() < record_len(name) <= 19 + encode_utf8(name).len() + 8,
        record_len(name) < 65536,
{
}

/// What the pieces of a record say.
proof fn lemma_numbers(ino: u64, next: u64, len: u16, kind: u8, name: Seq<u8>, pad: Seq<u8>)
    requires
        pad.len() > 0,
    ensures
        ({
            let b = le64(ino) + le64(next) + le16(len) + seq![kind] + name + pad;
            &&& b.len() == 19 + name.len() + pad.len()
            &&& double_in(b, 0) == ino
            &&& double_in(b, 8) == next
            &&& half_in(b, 16) == len
            &&& b[18] == kind
            &&& b.subrange(19, 19int + name.len()) == name
            &&& b[19int + name.len()] == pad[0]
        }),
{
    let b = le64(ino) + le64(next) + le16(len) + seq![kind] + name + pad;
    lemma_double_round_trip(ino);
    lemma_double_round_trip(next);
    lemma_pieces(le64(ino), le64(next), le16(len), seq![kind], name, pad);
    lemma_eight(b, 0, ino);
    lemma_eight(b, 8, next);
    lemma_half(b, len);
}

proof fn lemma_half(b: Seq<u8>, v: u16)
    requires
        b[16] == le16(v)[0],
        b[17] == le16(v)[1],
    ensures
        half_in(b, 16) == v,
{
}

/// Where the pieces of a record stand.
proof fn lemma_pieces(
    ino: Seq<u8>,
    next: Seq<u8>,
    len: Seq<u8>,
    kind: Seq<u8>,
    name: Seq<u8>,
    pad: Seq<u8>,
)
    requires
        ino.len() == 8,
        next.len() == 8,
        len.len() == 2,
        kind.len() == 1,
        pad.len() > 0,
    ensures
        ({
            let b = ino + next + len + kind + name + pad;
            &&& b.len() == 19 + name.len() + pad.len()
            &&& forall|i: int| 0 <= i < 8 ==> b[0 + i] == #[trigger] ino[i]
            &&& forall|i: int| 0 <= i < 8 ==> b[8 + i] == #[trigger] next[i]
            &&& b[16] == len[0]
            &&& b[17] == len[1]
            &&& b[18] == kind[0]
            &&& b.subrange(19, 19int + name.len()) == name
            &&& b[19int + name.len()] == pad[0]
        }),
{
    let b = ino + next + len + kind + name + pad;
    assert(b.subrange(19, 19int + name.len()) =~= name);
}

/// A record in the tail of a block.
proof fn lemma_record_moved(front: Seq<u8>, tail: Seq<u8>, at: int, e: DirEntView, pos: int)
    requires
        0 <= at,
        record_in(tail, at, e, pos),
    ensures
        record_in(front + tail, front.len() + at, e, pos),
        half_in(front + tail, front.len() + at + 16) == half_in(tail, at + 16),
{
    reveal(record_in);
    let block = front + tail;
    let n = front.len() as int;
    let name = encode_utf8(e.name);
    assert forall|i: int| 0 <= i < tail.len() implies block[n + i] == #[trigger] tail[i] by {}
    assert(block.subrange(n + at + 19, n + at + 19 + name.len()) =~= tail.subrange(
        at + 19,
        at + 19 + name.len(),
    ));
    assert(word_in(block, n + at) == word_in(tail, at));
    assert(word_in(block, n + at + 4) == word_in(tail, at + 4));
    assert(word_in(block, n + at + 8) == word_in(tail, at + 8));
    assert(word_in(block, n + at + 12) == word_in(tail, at + 12));
}

/// What is put in front of a block puts the walk through it off by a record.
proof fn lemma_walk_moved(front: Seq<u8>, tail: Seq<u8>, k: int, n: int)
    requires
        0 <= k <= n,
        18 <= front.len(),
        half_in(front, 16) == front.len(),
        forall|j: int| 0 <= j < n ==> 0 <= #[trigger] walk(tail, j) && walk(tail, j) + 18 <= tail.len(),
    ensures
        walk(front + tail, k + 1) == front.len() + walk(tail, k),
    decreases k,
{
    let block = front + tail;
    if k == 0 {
        assert(walk(block, 0) == 0);
        assert(block[16] == front[16] && block[17] == front[17]);
    } else {
        lemma_walk_moved(front, tail, k - 1, n);
        let w = walk(tail, k - 1);
        assert(w + 18 <= tail.len());
        assert(block[front.len() + w + 16] == tail[w + 16]);
        assert(block[front.len() + w + 17] == tail[w + 17]);
    }
}

/// A block of records: those of the entries from `pos` up to `next`.
pub open spec fn lists(block: Seq<u8>, entries: Seq<DirEntView>, pos: int, next: int) -> bool {
    &&& walk(block, next - pos) == block.len()
    &&& forall|k: int|
        #![trigger walk(block, k)]
        0 <= k < next - pos ==> 0 <= walk(block, k) && record_in(
            block,
            walk(block, k),
            entries[pos + k],
            pos + k,
        )
}

proof fn lemma_record_bounds(block: Seq<u8>, at: int, e: DirEntView, pos: int)
    requires
        record_in(block, at, e, pos),
    ensures
        at + 20 <= block.len(),
{
    reveal(record_in);
}

/// One record in front of a block of the following ones.
proof fn lemma_lists_more(
    one: Seq<u8>,
    rest: Seq<u8>,
    entries: Seq<DirEntView>,
    pos: int,
    next: int,
)
    requires
        0 <= pos < next <= entries.len(),
        record_in(one, 0, entries[pos], pos),
        half_in(one, 16) == one.len(),
        lists(rest, entries, pos + 1, next),
    ensures
        lists(one + rest, entries, pos, next),
{
    let tail = one + rest;
    let e = entries[pos];
    let n = next - (pos + 1);
    lemma_record_bounds(one, 0, e, pos);
    assert forall|j: int| 0 <= j < n implies 0 <= #[trigger] walk(rest, j) && walk(rest, j) + 18
        <= rest.len() by {
        lemma_record_bounds(rest, walk(rest, j), entries[pos + 1 + j], pos + 1 + j);
    }
    assert forall|k: int|
        #![trigger walk(tail, k)]
        0 <= k < next - pos implies 0 <= walk(tail, k) && record_in(
        tail,
        walk(tail, k),
        entries[pos + k],
        pos + k,
    ) by {
        if k == 0 {
            lemma_record_first(one, rest, e, pos);
        } else {
            lemma_walk_moved(one, rest, k - 1, n);
            let w = walk(rest, k - 1);
            assert(record_in(rest, w, entries[pos + 1 + (k - 1)], pos + 1 + (k - 1)));
            assert(pos + 1 + (k - 1) == pos + k);
            lemma_record_moved(one, rest, w, entries[pos + k], pos + k);
        }
    }
    lemma_walk_moved(one, rest, n, n);
}

proof fn lemma_records(
    entries: Seq<DirEntView>,
    pos: int,
    block: Seq<u8>,
    capacity: int,
) -> (tail: Seq<u8>)
    requires
        0 <= pos <= entries.len(),
        entries.len() < u64::MAX,
        forall|i: int| 0 <= i < entries.len() ==> encode_utf8(#[trigger] entries[i].name).len() <= 65000,
    ensures
        ({
            let (all, next) = records_from(entries, pos, block, capacity);
            &&& all == block + tail
            &&& pos <= next <= entries.len()
            &&& lists(tail, entries, pos, next)
            &&& block.len() <= capacity ==> all.len() <= capacity
            &&& next < entries.len() ==> all.len() + record_len(entries[next].name) > capacity
        }),
    decreases entries.len() - pos,
{
    if pos >= entries.len() || block.len() + record_len(entries[pos].name) > capacity {
        assert(block + Seq::<u8>::empty() =~= block);
        Seq::empty()
    } else {
        let e = entries[pos];
        let one = record_bytes(e, pos);
        lemma_record(e, pos);
        let rest = lemma_records(entries, pos + 1, block + one, capacity);
        let (all, next) = records_from(entries, pos, block, capacity);
        let tail = one + rest;
        assert(block + one + rest =~= block + tail);
        lemma_lists_more(one, rest, entries, pos, next);
        tail
    }
}

/// The first record of a block stands at its beginning.
proof fn lemma_record_first(one: Seq<u8>, rest: Seq<u8>, e: DirEntView, pos: int)
    requires
        record_in(one, 0, e, pos),
    ensures
        record_in(one + rest, 0, e, pos),
{
    reveal(record_in);
    let block = one + rest;
    let name = encode_utf8(e.name);
    assert forall|i: int| 0 <= i < one.len() implies block[i] == #[trigger] one[i] by {}
    assert(one.len() >= 20);
    assert(block.subrange(19, 19int + name.len()) =~= one.subrange(19, 19int + name.len()));
    assert(word_in(block, 0) == word_in(one, 0));
    assert(word_in(block, 4) == word_in(one, 4));
    assert(word_in(block, 8) == word_in(one, 8));
    assert(word_in(block, 12) == word_in(one, 12));
}

/// `getdents64` stores a record for every entry from where the listing stopped, in order, as
/// many as there is room for, each readable at its place; the next call goes on behind them.
/// It returns how many bytes they are: none at the end, and it fails where there is no room
/// for even one.
pub proof fn law_getdents_lists_the_entries_in_order<F>(
    sh: SharedView<F>,
    ctx: CtxView,
    mem: Seq<u8>,
    fd: i32,
    at: u32,
    capacity: u32,
    entries: Seq<DirEntView>,
    pos: usize,
)
    requires
        behind(sh, ctx, fd) matches Some(d) && d.kind == (KindView::<F>::Dir { entries, pos }),
        pos <= entries.len() <= usize::MAX,
        entries.len() < u64::MAX,
        forall|i: int| 0 <= i < entries.len() ==> encode_utf8(#[trigger] entries[i].name).len() <= 65000,
        capacity <= i32::MAX,
        at + capacity <= mem.len(),
    ensures
        ({
            let (s, m, r) = getdents_spec(sh, ctx, mem, fd, at, capacity);
            let next = behind(s, ctx, fd)->0.kind->Dir_pos as int;
            &&& r matches Ok(n) ==> {
                &&& 0 <= n <= capacity
                &&& pos <= next <= entries.len()
                &&& lists(m.subrange(at as int, at + n), entries, pos as int, next)
                &&& same_but(mem, m, at as int, n as int)
                &&& n == 0 <==> pos == entries.len()
            }
            &&& r is Err ==> r == errno::<i32>(Errno::INVAL) && s == sh && m == mem && pos
                < entries.len()
        }),
{
    let block = lemma_records(entries, pos as int, Seq::empty(), capacity as int);
    let (all, next) = records_from(entries, pos as int, Seq::empty(), capacity as int);
    assert(Seq::<u8>::empty() + block =~= block);
    assert(all == block);
    let (s, m, r) = getdents_spec(sh, ctx, mem, fd, at, capacity);
    assert(patched(mem, at as int, block).subrange(at as int, at + block.len()) =~= block);
    if pos == entries.len() {
        assert(next == pos);
        assert(block.len() == walk(block, 0));
    }
}

// ---------------------------------------------------------------------------------------------
// how much

/// A pipe takes what there is room for and no more: it never holds more than 65536 bytes, takes
/// all that fits, and when it is full the writer waits, or is told to come again where it does
/// not want to wait.
pub proof fn law_a_pipe_holds_so_much_and_no_more<V: Vfs>(
    sh: SharedView<<V as VfsFile>::Handle>,
    ctx: CtxView,
    fs: Seq<MountView<<V as VfsFile>::State>>,
    fd: i32,
    data: Seq<u8>,
    k: u32,
)
    requires
        behind(sh, ctx, fd) matches Some(d) && d.can_write() && d.kind == KindView::<
            <V as VfsFile>::Handle,
        >::PipeWrite(k),
        sh.pipes.get(k) matches Some(p) && p.readers > 0 && p.data.len() <= 65536,
        0 < data.len() <= usize::MAX,
    ensures
        ({
            let (s, f, r) = write_spec::<V>(sh, ctx, fs, fd, data);
            let before = sh.pipes.get(k)->0.data;
            let after = s.pipes.get(k)->0.data;
            &&& after.len() <= 65536
            &&& before.len() < 65536 ==> {
                &&& r matches Ok(n)
                &&& n > 0
                &&& n == data.len() || after.len() == 65536
                &&& after == before + data.subrange(0, n as int)
            }
            &&& before.len() == 65536 ==> s == sh && r == if behind(sh, ctx, fd)->0.flags & 0x800
                != 0 {
                errno::<usize>(Errno::AGAIN)
            } else {
                Err::<usize, Fault>(Fault::Block)
            }
        }),
{
}

} // verus!
