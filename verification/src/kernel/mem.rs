//! Checked access to a guest's linear memory.
//!
//! Every syscall argument that is a pointer comes through here. Every accessor is
//! bounds-checked and returns [`Errno::FAULT`] for an address the guest does not have. Memory
//! is little-endian.
use crate::errno::{Errno, VfsResult};
use crate::text::{lossy, lossy_text};
use vstd::prelude::*;

verus! {

/// Longest path or string the kernel will read from a guest.
pub const MAX_STR: usize = 4096;

/// Most entries in one `argv` or `envp`.
pub const MAX_ARGS: usize = 4096;

/// Nanoseconds in a second.
pub const SECOND: u128 = 1_000_000_000;

/// A span of time in nanoseconds.
pub type Nanos = u128;

// ---------------------------------------------------------------------------------------------
// words

/// The unsigned word with the same bits.
pub open spec fn word_of(v: i32) -> u32 {
    if v >= 0 {
        v as u32
    } else {
        (v + 0x1_0000_0000) as u32
    }
}

/// The signed word with the same bits.
pub open spec fn signed_of(v: u32) -> i32 {
    if v < 0x8000_0000 {
        v as i32
    } else {
        (v - 0x1_0000_0000) as i32
    }
}

/// The unsigned word with the same bits.
pub fn word(v: i32) -> (r: u32)
    ensures
        r == word_of(v),
{
    if v >= 0 {
        v as u32
    } else {
        (v as i64 + 0x1_0000_0000) as u32
    }
}

/// The signed word with the same bits.
pub fn signed(v: u32) -> (r: i32)
    ensures
        r == signed_of(v),
{
    if v < 0x8000_0000 {
        v as i32
    } else {
        (v as i64 - 0x1_0000_0000) as i32
    }
}

/// The low 32 bits, as the guest sees them.
pub open spec fn low_word(v: int) -> i32 {
    signed_of((v % 0x1_0000_0000) as u32)
}

/// An address `by` bytes on, wrapping round the 32-bit address space.
pub open spec fn wrapped(at: u32, by: int) -> u32 {
    ((at + by) % 0x1_0000_0000) as u32
}

/// An address `by` bytes on, wrapping round the 32-bit address space.
pub fn wrap(at: u32, by: u32) -> (r: u32)
    ensures
        r == wrapped(at, by as int),
{
    ((at as u64 + by as u64) % 0x1_0000_0000) as u32
}

/// The two bytes of a half word.
pub open spec fn le16(v: u16) -> Seq<u8> {
    seq![(v % 256) as u8, (v / 256) as u8]
}

/// The four bytes of a word.
pub open spec fn le32(v: u32) -> Seq<u8> {
    seq![
        (v % 256) as u8,
        (v / 256 % 256) as u8,
        (v / 65536 % 256) as u8,
        (v / 16777216) as u8,
    ]
}

/// The eight bytes of a double word: the low word first.
pub open spec fn le64(v: u64) -> Seq<u8> {
    le32((v % 0x1_0000_0000) as u32) + le32((v / 0x1_0000_0000) as u32)
}

/// The word whose bytes start at `at`.
pub open spec fn word_at(m: Seq<u8>, at: int) -> u32 {
    (m[at] + 256 * m[at + 1] + 65536 * m[at + 2] + 16777216 * m[at + 3]) as u32
}

/// The double word whose bytes start at `at`.
pub open spec fn double_at(m: Seq<u8>, at: int) -> u64 {
    (word_at(m, at) + 0x1_0000_0000 * word_at(m, at + 4)) as u64
}

/// The bytes of a half word.
pub fn bytes16(v: u16) -> (r: Vec<u8>)
    ensures
        r@ == le16(v),
{
    let mut out: Vec<u8> = Vec::new();
    out.push((v % 256) as u8);
    out.push((v / 256) as u8);
    assert(out@ =~= le16(v));
    out
}

/// The bytes of a word.
pub fn bytes32(v: u32) -> (r: Vec<u8>)
    ensures
        r@ == le32(v),
{
    let mut out: Vec<u8> = Vec::new();
    out.push((v % 256) as u8);
    out.push((v / 256 % 256) as u8);
    out.push((v / 65536 % 256) as u8);
    out.push((v / 16777216) as u8);
    assert(out@ =~= le32(v));
    out
}

/// The bytes of a double word.
pub fn bytes64(v: u64) -> (r: Vec<u8>)
    ensures
        r@ == le64(v),
{
    let mut out = bytes32((v % 0x1_0000_0000) as u32);
    let mut high = bytes32((v / 0x1_0000_0000) as u32);
    out.append(&mut high);
    out
}

/// A word is read back from its own bytes.
pub proof fn lemma_word_round_trip(v: u32)
    ensures
        le32(v).len() == 4,
        word_at(le32(v), 0) == v,
{
}

/// A double word is read back from its own bytes.
pub proof fn lemma_double_round_trip(v: u64)
    ensures
        le64(v).len() == 8,
        double_at(le64(v), 0) == v,
{
    let low = (v % 0x1_0000_0000) as u32;
    let high = (v / 0x1_0000_0000) as u32;
    let b = le64(v);
    assert(b[0] == le32(low)[0] && b[1] == le32(low)[1] && b[2] == le32(low)[2] && b[3] == le32(
        low,
    )[3]);
    assert(b[4] == le32(high)[0] && b[5] == le32(high)[1] && b[6] == le32(high)[2] && b[7] == le32(
        high,
    )[3]);
    assert(word_at(b, 0) == low);
    assert(word_at(b, 4) == high);
}

// ---------------------------------------------------------------------------------------------
// what an access does

/// Whether `len` bytes at `at` lie inside the memory and the address space.
pub open spec fn fits(m: Seq<u8>, at: int, len: int) -> bool {
    0 <= at <= u32::MAX && at + len <= m.len()
}

/// The memory with `data` written at `at`.
pub open spec fn patched(m: Seq<u8>, at: int, data: Seq<u8>) -> Seq<u8> {
    Seq::new(
        m.len(),
        |i: int|
            if at <= i < at + data.len() {
                data[i - at]
            } else {
                m[i]
            },
    )
}

/// A store: all of `data`, or a fault and nothing.
pub open spec fn store(m: Seq<u8>, at: int, data: Seq<u8>) -> (Seq<u8>, VfsResult<()>) {
    if fits(m, at, data.len() as int) {
        (patched(m, at, data), Ok(()))
    } else {
        (m, Err(Errno::FAULT))
    }
}

/// Stores one after another, stopping at the first that faults.
pub open spec fn stores(m: Seq<u8>, list: Seq<(int, Seq<u8>)>) -> (Seq<u8>, VfsResult<()>)
    decreases list.len(),
{
    if list.len() == 0 {
        (m, Ok(()))
    } else {
        let (next, done) = store(m, list[0].0, list[0].1);
        if done is Err {
            (next, done)
        } else {
            stores(next, list.drop_first())
        }
    }
}

/// A word loaded from `at`.
pub open spec fn load32(m: Seq<u8>, at: int) -> VfsResult<u32> {
    if fits(m, at, 4) {
        Ok(word_at(m, at))
    } else {
        Err(Errno::FAULT)
    }
}

/// A double word loaded from `at`.
pub open spec fn load64(m: Seq<u8>, at: int) -> VfsResult<u64> {
    if fits(m, at, 8) {
        Ok(double_at(m, at))
    } else {
        Err(Errno::FAULT)
    }
}

/// The first position at or after `at` that holds a NUL, or `end`.
pub open spec fn first_nul(m: Seq<u8>, at: int, end: int) -> int
    decreases end - at,
{
    if at >= end || m[at] == 0 {
        at
    } else {
        first_nul(m, at + 1, end)
    }
}

/// Where a string that starts at `at` must have ended.
pub open spec fn str_end(m: Seq<u8>, at: int) -> int {
    if at + MAX_STR <= m.len() {
        at + MAX_STR
    } else {
        m.len() as int
    }
}

/// The NUL-terminated string at `at`, byte for byte.
pub open spec fn str_at(m: Seq<u8>, at: int) -> VfsResult<Seq<u8>> {
    if at > m.len() {
        Err(Errno::FAULT)
    } else {
        let nul = first_nul(m, at, str_end(m, at));
        if nul < str_end(m, at) {
            Ok(m.subrange(at, nul))
        } else {
            Err(Errno::NAMETOOLONG)
        }
    }
}

/// The NUL-terminated string at `at`, as text.
pub open spec fn text_at(m: Seq<u8>, at: int) -> VfsResult<Seq<char>> {
    match str_at(m, at) {
        Ok(bytes) => Ok(lossy_text(bytes)),
        Err(e) => Err(e),
    }
}

/// The strings named by the pointers from `p` on, up to a null pointer, after `got` of them.
pub open spec fn list_at(m: Seq<u8>, p: int, got: Seq<Seq<u8>>) -> VfsResult<Seq<Seq<u8>>>
    decreases MAX_ARGS + 1 - got.len(),
{
    match load32(m, p) {
        Err(e) => Err(e),
        Ok(item) => if item == 0 {
            Ok(got)
        } else {
            match str_at(m, item as int) {
                Err(e) => Err(e),
                Ok(text) => if got.len() >= MAX_ARGS {
                    Err(Errno::TOOBIG)
                } else {
                    list_at(m, p + 4, got.push(text))
                },
            }
        },
    }
}

/// A null-terminated array of string pointers, as `argv` and `envp` are passed.
pub open spec fn strings_at(m: Seq<u8>, at: int) -> VfsResult<Seq<Seq<u8>>> {
    if at == 0 {
        Ok(Seq::empty())
    } else {
        list_at(m, at, Seq::empty())
    }
}

/// The byte strings of a vector of them.
pub open spec fn byte_strings(v: Seq<Vec<u8>>) -> Seq<Seq<u8>> {
    v.map_values(|b: Vec<u8>| b@)
}

/// A `timespec` in the time64 layout: 64-bit seconds, 32-bit nanoseconds.
pub open spec fn timespec_at(m: Seq<u8>, at: int) -> VfsResult<Nanos> {
    match load64(m, at) {
        Err(e) => Err(e),
        Ok(secs) => match load32(m, at + 8) {
            Err(e) => Err(e),
            Ok(nanos) => if secs >= 0x8000_0000_0000_0000 || nanos >= SECOND {
                Err(Errno::INVAL)
            } else {
                Ok((secs * SECOND + nanos) as u128)
            },
        },
    }
}

/// The three stores that write a `timespec`.
pub open spec fn timespec_stores(at: int, d: Nanos) -> Seq<(int, Seq<u8>)> {
    seq![
        (at, le64((d / SECOND) as u64)),
        (at + 8, le32((d % SECOND) as u32)),
        (at + 12, le32(0)),
    ]
}

// ---------------------------------------------------------------------------------------------
// the accesses

/// Read `len` bytes at `at`.
pub fn bytes(m: &[u8], at: u32, len: u32) -> (r: VfsResult<Vec<u8>>)
    ensures
        r is Ok <==> fits(m@, at as int, len as int),
        match r {
            Ok(b) => b@ == m@.subrange(at as int, at + len),
            Err(e) => e == Errno::FAULT,
        },
{
    let size: usize = m.len();
    if at as usize > size || len as usize > size - at as usize {
        return Err(Errno::FAULT);
    }
    let start: usize = at as usize;
    let count: usize = len as usize;
    let mut out: Vec<u8> = Vec::new();
    let mut i: usize = 0;
    while i < count
        invariant
            i <= count,
            start + count <= size,
            size == m@.len(),
            out@ == m@.subrange(start as int, start + i),
        decreases count - i,
    {
        out.push(m[start + i]);
        i = i + 1;
        assert(out@ =~= m@.subrange(start as int, start + i));
    }
    Ok(out)
}

/// Read a word.
pub fn read_u32(m: &[u8], at: u32) -> (r: VfsResult<u32>)
    ensures
        r == load32(m@, at as int),
{
    let size: usize = m.len();
    if size < 4 || at as usize > size - 4 {
        return Err(Errno::FAULT);
    }
    let i: usize = at as usize;
    Ok(
        m[i] as u32 + 256 * m[i + 1] as u32 + 65536 * m[i + 2] as u32 + 16777216 * m[i
            + 3] as u32,
    )
}

/// Read a word and take it as signed.
pub fn read_i32(m: &[u8], at: u32) -> (r: VfsResult<i32>)
    ensures
        r == match load32(m@, at as int) {
            Ok(v) => Ok(signed_of(v)),
            Err(e) => Err(e),
        },
{
    match read_u32(m, at) {
        Ok(v) => Ok(signed(v)),
        Err(e) => Err(e),
    }
}

/// Read a double word.
pub fn read_u64(m: &[u8], at: u32) -> (r: VfsResult<u64>)
    ensures
        r == load64(m@, at as int),
{
    let size: usize = m.len();
    if size < 8 || at as usize > size - 8 {
        return Err(Errno::FAULT);
    }
    let i: usize = at as usize;
    let low: u32 = m[i] as u32 + 256 * m[i + 1] as u32 + 65536 * m[i + 2] as u32 + 16777216 * m[i
        + 3] as u32;
    let high: u32 = m[i + 4] as u32 + 256 * m[i + 5] as u32 + 65536 * m[i + 6] as u32 + 16777216
        * m[i + 7] as u32;
    Ok(low as u64 + 0x1_0000_0000 * high as u64)
}

/// Copy `data` to `at`.
pub fn put(m: &mut [u8], at: u32, data: &[u8]) -> (r: VfsResult<()>)
    ensures
        (final(m)@, r) == store(old(m)@, at as int, data@),
{
    let size: usize = m.len();
    if at as usize > size || data.len() > size - at as usize {
        return Err(Errno::FAULT);
    }
    let start: usize = at as usize;
    let mut i: usize = 0;
    assert(m@ =~= patched(old(m)@, start as int, data@.subrange(0, 0)));
    while i < data.len()
        invariant
            i <= data@.len(),
            start + data@.len() <= size,
            size == m@.len(),
            m@ == patched(old(m)@, start as int, data@.subrange(0, i as int)),
        decreases data@.len() - i,
    {
        m[start + i] = data[i];
        i = i + 1;
        assert(m@ =~= patched(old(m)@, start as int, data@.subrange(0, i as int)));
    }
    assert(data@.subrange(0, data@.len() as int) =~= data@);
    Ok(())
}

/// Write one byte.
pub fn put_u8(m: &mut [u8], at: u32, v: u8) -> (r: VfsResult<()>)
    ensures
        (final(m)@, r) == store(old(m)@, at as int, seq![v]),
{
    let mut b: Vec<u8> = Vec::new();
    b.push(v);
    assert(b@ =~= seq![v]);
    put(m, at, b.as_slice())
}

/// Write a half word.
pub fn put_u16(m: &mut [u8], at: u32, v: u16) -> (r: VfsResult<()>)
    ensures
        (final(m)@, r) == store(old(m)@, at as int, le16(v)),
{
    put(m, at, bytes16(v).as_slice())
}

/// Write a word.
pub fn put_u32(m: &mut [u8], at: u32, v: u32) -> (r: VfsResult<()>)
    ensures
        (final(m)@, r) == store(old(m)@, at as int, le32(v)),
{
    put(m, at, bytes32(v).as_slice())
}

/// Write a double word.
pub fn put_u64(m: &mut [u8], at: u32, v: u64) -> (r: VfsResult<()>)
    ensures
        (final(m)@, r) == store(old(m)@, at as int, le64(v)),
{
    put(m, at, bytes64(v).as_slice())
}

/// `n` zero bytes.
pub open spec fn zeros(n: nat) -> Seq<u8> {
    Seq::new(n, |i: int| 0u8)
}

/// A buffer of `n` zero bytes.
pub fn zeroed(n: usize) -> (r: Vec<u8>)
    ensures
        r@ == zeros(n as nat),
{
    let r: Vec<u8> = vec![0u8; n];
    assert(r@ =~= zeros(n as nat));
    r
}

/// Zero `len` bytes at `at`.
pub fn zero(m: &mut [u8], at: u32, len: u32) -> (r: VfsResult<()>)
    ensures
        (final(m)@, r) == store(old(m)@, at as int, zeros(len as nat)),
{
    let size: usize = m.len();
    if at as usize > size || len as usize > size - at as usize {
        return Err(Errno::FAULT);
    }
    put(m, at, zeroed(len as usize).as_slice())
}

/// A count, as the low 32 bits the guest sees of it.
pub fn count_word(n: usize) -> (r: i32)
    ensures
        r == low_word(n as int),
{
    signed((n as u64 % 0x1_0000_0000) as u32)
}

/// The same bytes once more.
pub fn copy_bytes(b: &Vec<u8>) -> (r: Vec<u8>)
    ensures
        r@ == b@,
{
    let mut out: Vec<u8> = Vec::new();
    out.extend_from_slice(b.as_slice());
    assert(out@ =~= b@);
    out
}

/// Write `data` into a block at `at`.
pub fn set_field(block: &mut Vec<u8>, at: usize, data: &Vec<u8>)
    requires
        at + data@.len() <= old(block)@.len(),
    ensures
        final(block)@ == patched(old(block)@, at as int, data@),
{
    let ghost before = block@;
    let mut i: usize = 0;
    assert(block@ =~= patched(before, at as int, data@.subrange(0, 0)));
    while i < data.len()
        invariant
            i <= data@.len(),
            at + data@.len() <= block@.len(),
            block@ == patched(before, at as int, data@.subrange(0, i as int)),
        decreases data@.len() - i,
    {
        let size: usize = block.len();
        assert(at + i < size);
        block[at + i] = data[i];
        i = i + 1;
        assert(block@ =~= patched(before, at as int, data@.subrange(0, i as int)));
    }
    assert(data@.subrange(0, i as int) =~= data@);
}

/// A NUL-terminated string at `at`, byte for byte.
///
/// `argv` and `envp` are *bytes*, not text, and a program is entitled to put anything in them.
pub fn cstr_bytes(m: &[u8], at: u32) -> (r: VfsResult<Vec<u8>>)
    ensures
        match r {
            Ok(b) => str_at(m@, at as int) == Ok::<Seq<u8>, Errno>(b@),
            Err(e) => str_at(m@, at as int) == Err::<Seq<u8>, Errno>(e),
        },
{
    let size: usize = m.len();
    if at as usize > size {
        return Err(Errno::FAULT);
    }
    let start: usize = at as usize;
    let end: usize = if size - start >= MAX_STR {
        start + MAX_STR
    } else {
        size
    };
    let mut out: Vec<u8> = Vec::new();
    let mut i: usize = start;
    while i < end
        invariant
            start <= i <= end,
            end <= m@.len(),
            end == str_end(m@, start as int),
            start == at,
            first_nul(m@, start as int, end as int) == first_nul(m@, i as int, end as int),
            out@ == m@.subrange(start as int, i as int),
        decreases end - i,
    {
        if m[i] == 0 {
            return Ok(out);
        }
        out.push(m[i]);
        i = i + 1;
        assert(out@ =~= m@.subrange(start as int, i as int));
    }
    Err(Errno::NAMETOOLONG)
}

/// A NUL-terminated string at `at`, as text.
///
/// Lossy, which is right for a *path*: a [`Vfs`](crate::vfs::Vfs) addresses files by text, so
/// a name that is not UTF-8 could not be passed on anyway. It is wrong for an argument; see
/// [`cstr_bytes`].
pub fn cstr(m: &[u8], at: u32) -> (r: VfsResult<String>)
    ensures
        match r {
            Ok(t) => text_at(m@, at as int) == Ok::<Seq<char>, Errno>(t@),
            Err(e) => text_at(m@, at as int) == Err::<Seq<char>, Errno>(e),
        },
{
    match cstr_bytes(m, at) {
        Ok(b) => Ok(lossy(b.as_slice())),
        Err(e) => Err(e),
    }
}

/// A null-terminated array of string pointers at `at`, as `argv` and `envp` are passed.
pub fn cstr_array(m: &[u8], at: u32) -> (r: VfsResult<Vec<Vec<u8>>>)
    ensures
        match r {
            Ok(v) => strings_at(m@, at as int) == Ok::<Seq<Seq<u8>>, Errno>(byte_strings(v@)),
            Err(e) => strings_at(m@, at as int) == Err::<Seq<Seq<u8>>, Errno>(e),
        },
{
    let mut out: Vec<Vec<u8>> = Vec::new();
    assert(byte_strings(out@) =~= Seq::<Seq<u8>>::empty());
    if at == 0 {
        return Ok(out);
    }
    let mut p: u32 = at;
    loop
        invariant
            out@.len() <= MAX_ARGS,
            strings_at(m@, at as int) == list_at(m@, p as int, byte_strings(out@)),
        decreases MAX_ARGS + 1 - out@.len(),
    {
        let item: u32 = match read_u32(m, p) {
            Ok(item) => item,
            Err(e) => return Err(e),
        };
        if item == 0 {
            return Ok(out);
        }
        let ghost before = byte_strings(out@);
        match cstr_bytes(m, item) {
            Ok(text) => {
                out.push(text);
                assert(byte_strings(out@) =~= before.push(text@));
            },
            Err(e) => return Err(e),
        }
        if out.len() > MAX_ARGS {
            return Err(Errno::TOOBIG);
        }
        if p > u32::MAX - 4 {
            assert(list_at(m@, p + 4, byte_strings(out@)) == Err::<Seq<Seq<u8>>, Errno>(Errno::FAULT));
            return Err(Errno::FAULT);
        }
        p = p + 4;
    }
}

/// A `timespec` in the time64 layout: 64-bit seconds, 32-bit nanoseconds, 32-bit padding.
pub fn timespec(m: &[u8], at: u32) -> (r: VfsResult<Nanos>)
    ensures
        r == timespec_at(m@, at as int),
{
    let secs: u64 = match read_u64(m, at) {
        Ok(secs) => secs,
        Err(e) => return Err(e),
    };
    if at > u32::MAX - 8 {
        return Err(Errno::FAULT);
    }
    let nanos: u32 = match read_u32(m, at + 8) {
        Ok(nanos) => nanos,
        Err(e) => return Err(e),
    };
    if secs >= 0x8000_0000_0000_0000 || nanos as u128 >= SECOND {
        return Err(Errno::INVAL);
    }
    Ok(secs as u128 * SECOND + nanos as u128)
}

/// Write a `timespec`.
pub fn put_timespec(m: &mut [u8], at: u32, d: Nanos) -> (r: VfsResult<()>)
    requires
        d / SECOND <= u64::MAX,
    ensures
        (final(m)@, r) == stores(old(m)@, timespec_stores(at as int, d)),
{
    proof {
        reveal_with_fuel(stores, 4);
    }
    match put_u64(m, at, (d / SECOND) as u64) {
        Ok(()) => {},
        Err(e) => return Err(e),
    }
    if at > u32::MAX - 8 {
        return Err(Errno::FAULT);
    }
    match put_u32(m, at + 8, (d % SECOND) as u32) {
        Ok(()) => {},
        Err(e) => return Err(e),
    }
    if at > u32::MAX - 12 {
        return Err(Errno::FAULT);
    }
    put_u32(m, at + 12, 0)
}

} // verus!
