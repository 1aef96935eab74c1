//! Guest memory read byte by byte, for laws that say where a call finds and leaves its values.
use crate::errno::Errno;
use crate::kernel::mem::{
    first_nul, le16, le32, le64, lemma_double_round_trip, lemma_word_round_trip, list_at, load32,
    load64, patched, store, str_at, str_end, strings_at, text_at, word_at,
};
use crate::text::lossy_text;
use vstd::prelude::*;

verus! {

/// The unsigned number in the two bytes at `at`, the low byte first.
pub open spec fn half_in(m: Seq<u8>, at: int) -> int {
    m[at] + 256 * m[at + 1]
}

/// The unsigned number in the four bytes at `at`, the low byte first.
pub open spec fn word_in(m: Seq<u8>, at: int) -> int {
    m[at] + 256 * m[at + 1] + 65536 * m[at + 2] + 16777216 * m[at + 3]
}

/// The unsigned number in the eight bytes at `at`, the low byte first.
pub open spec fn double_in(m: Seq<u8>, at: int) -> int {
    word_in(m, at) + 0x1_0000_0000 * word_in(m, at + 4)
}

/// Two memories that differ in the `len` bytes at `at` alone.
pub open spec fn same_but(m: Seq<u8>, n: Seq<u8>, at: int, len: int) -> bool {
    &&& m.len() == n.len()
    &&& forall|i: int| 0 <= i < m.len() && !(at <= i < at + len) ==> #[trigger] n[i] == m[i]
}

/// Whether `s` stands at `at` with a NUL behind it and none in it.
pub open spec fn ends_in_nul(m: Seq<u8>, at: int, s: Seq<u8>) -> bool {
    &&& 0 <= at
    &&& at + s.len() < m.len()
    &&& m.subrange(at, at + s.len()) == s
    &&& m[at + s.len()] == 0
    &&& forall|i: int| 0 <= i < s.len() ==> #[trigger] s[i] != 0
}

/// Memory is little-endian: a load gives the number in the bytes at its address, and faults
/// exactly where one of them is missing.
pub proof fn law_loads_are_little_endian(m: Seq<u8>, at: u32)
    ensures
        load32(m, at as int) is Ok == (at + 4 <= m.len()),
        load64(m, at as int) is Ok == (at + 8 <= m.len()),
        load32(m, at as int) matches Ok(v) ==> v == word_in(m, at as int),
        load64(m, at as int) matches Ok(v) ==> v == double_in(m, at as int),
{
}

/// Memory is little-endian: a number that is stored is the number in the bytes at its address.
pub proof fn law_stores_are_little_endian(m: Seq<u8>, at: u32, a: u16, b: u32, c: u64)
    ensures
        ({
            let (m2, r) = store(m, at as int, le16(a));
            &&& r is Ok == (at + 2 <= m.len())
            &&& r is Ok ==> half_in(m2, at as int) == a && same_but(m, m2, at as int, 2)
            &&& r is Err ==> m2 == m
        }),
        ({
            let (m4, r) = store(m, at as int, le32(b));
            &&& r is Ok == (at + 4 <= m.len())
            &&& r is Ok ==> word_in(m4, at as int) == b && same_but(m, m4, at as int, 4)
            &&& r is Err ==> m4 == m
        }),
        ({
            let (m8, r) = store(m, at as int, le64(c));
            &&& r is Ok == (at + 8 <= m.len())
            &&& r is Ok ==> double_in(m8, at as int) == c && same_but(m, m8, at as int, 8)
            &&& r is Err ==> m8 == m
        }),
{
    lemma_word_round_trip(b);
    lemma_patched_word(m, at as int, b);
    lemma_patched_double(m, at as int, c);
    lemma_double_round_trip(c);
    let m2 = patched(m, at as int, le16(a));
    if at + 2 <= m.len() {
        assert(m2[at as int] == le16(a)[0] && m2[at + 1] == le16(a)[1]);
    }
}

/// The word that a store leaves at its address.
pub proof fn lemma_patched_word(m: Seq<u8>, at: int, v: u32)
    ensures
        le32(v).len() == 4,
        0 <= at && at + 4 <= m.len() ==> word_in(patched(m, at, le32(v)), at) == v,
{
    if 0 <= at && at + 4 <= m.len() {
        lemma_word_round_trip(v);
        let b = le32(v);
        let after = patched(m, at, b);
        assert(after[at] == b[0] && after[at + 1] == b[1] && after[at + 2] == b[2] && after[at + 3]
            == b[3]);
    }
}

/// The double word that a store leaves at its address.
pub proof fn lemma_patched_double(m: Seq<u8>, at: int, v: u64)
    ensures
        le64(v).len() == 8,
        0 <= at && at + 8 <= m.len() ==> double_in(patched(m, at, le64(v)), at) == v,
{
    if 0 <= at && at + 8 <= m.len() {
        lemma_double_round_trip(v);
        let b = le64(v);
        let after = patched(m, at, b);
        assert(after[at] == b[0] && after[at + 1] == b[1] && after[at + 2] == b[2] && after[at + 3]
            == b[3]);
        assert(after[at + 4] == b[4] && after[at + 5] == b[5] && after[at + 6] == b[6] && after[at
            + 7] == b[7]);
        assert(word_in(after, at) == word_at(b, 0));
        assert(word_in(after, at + 4) == word_at(b, 4));
    }
}

/// Whether the word at `at` points to `s`.
pub open spec fn points_to(m: Seq<u8>, at: int, s: Seq<u8>) -> bool {
    word_in(m, at) != 0 && ends_in_nul(m, word_in(m, at), s)
}

proof fn lemma_first_nul(m: Seq<u8>, at: int, end: int)
    requires
        0 <= at <= end <= m.len(),
    ensures
        at <= first_nul(m, at, end) <= end,
        forall|i: int| at <= i < first_nul(m, at, end) ==> #[trigger] m[i] != 0,
        first_nul(m, at, end) < end ==> m[first_nul(m, at, end)] == 0,
    decreases end - at,
{
    if at < end && m[at] != 0 {
        lemma_first_nul(m, at + 1, end);
    }
}

/// A string in memory is the bytes from its address up to the first NUL, all of which must lie
/// in memory and within 4096 bytes.
pub proof fn law_a_string_ends_at_its_nul(m: Seq<u8>, at: u32, s: Seq<u8>)
    ensures
        str_at(m, at as int) == Ok::<Seq<u8>, Errno>(s) <==> ends_in_nul(m, at as int, s) && s.len()
            < 4096,
{
    if at <= m.len() {
        let end = str_end(m, at as int);
        lemma_first_nul(m, at as int, end);
        let nul = first_nul(m, at as int, end);
        if nul < end {
            let t = m.subrange(at as int, nul);
            if ends_in_nul(m, at as int, s) && s.len() < 4096 {
                if at + s.len() < nul {
                    assert(m[at + s.len()] != 0);
                } else if at + s.len() > nul {
                    assert(s[nul - at] == m[nul]);
                }
                assert(s =~= t);
            }
            assert forall|i: int| 0 <= i < t.len() implies #[trigger] t[i] != 0 by {
                assert(m[at + i] != 0);
            }
        } else if ends_in_nul(m, at as int, s) && s.len() < 4096 {
            assert(m[at + s.len()] != 0);
        }
    }
}

/// The text at an address is the text of the string there; where no string ends in memory and in
/// time, there is no text.
pub proof fn law_a_text_is_that_of_its_string(m: Seq<u8>, at: u32, s: Seq<u8>)
    ensures
        ends_in_nul(m, at as int, s) && s.len() < 4096 ==> text_at(m, at as int) == Ok::<
            Seq<char>,
            Errno,
        >(lossy_text(s)),
        at > m.len() ==> text_at(m, at as int) == Err::<Seq<char>, Errno>(Errno::FAULT),
        text_at(m, at as int) is Err <==> str_at(m, at as int) is Err,
{
    law_a_string_ends_at_its_nul(m, at, s);
}

proof fn lemma_list(m: Seq<u8>, p: int, got: Seq<Seq<u8>>, list: Seq<Seq<u8>>)
    requires
        0 <= p,
        list_at(m, p, got) == Ok::<Seq<Seq<u8>>, Errno>(list),
    ensures
        got.len() <= list.len(),
        list.subrange(0, got.len() as int) == got,
        p + 4 * (list.len() - got.len()) + 4 <= m.len(),
        word_in(m, p + 4 * (list.len() - got.len())) == 0,
        forall|j: int|
            got.len() <= j < list.len() ==> points_to(
                m,
                p + 4 * (j - got.len()),
                #[trigger] list[j],
            ),
    decreases 4097 - got.len(),
{
    let item = word_at(m, p);
    if item != 0 {
        let text = str_at(m, item as int)->Ok_0;
        law_a_string_ends_at_its_nul(m, item, text);
        lemma_list(m, p + 4, got.push(text), list);
        let n = got.len() as int;
        assert(list.subrange(0, n + 1)[n] == text);
        assert(list.subrange(0, n) =~= list.subrange(0, n + 1).subrange(0, n));
        assert(got.push(text).subrange(0, n) =~= got);
        assert forall|j: int| n <= j < list.len() implies points_to(
            m,
            p + 4 * (j - n),
            #[trigger] list[j],
        ) by {
            if j > n {
                assert(points_to(m, p + 4 + 4 * (j - got.push(text).len()), list[j]));
                assert(p + 4 + 4 * (j - got.push(text).len()) == p + 4 * (j - n));
            } else {
                assert(list[j] == list.subrange(0, n + 1)[n]);
                assert(word_in(m, p) == item);
            }
        }
        assert(p + 4 + 4 * (list.len() - (n + 1)) == p + 4 * (list.len() - n));
    }
}

/// An array of strings is read entry by entry: the string of entry `j` is the one that the
/// word four times `j` bytes past the array's address points to, and a null word ends the
/// array. A null array is empty.
pub proof fn law_an_array_of_strings_is_read_in_order(m: Seq<u8>, at: u32, list: Seq<Seq<u8>>)
    requires
        strings_at(m, at as int) == Ok::<Seq<Seq<u8>>, Errno>(list),
    ensures
        at == 0 ==> list.len() == 0,
        at != 0 ==> {
            &&& word_in(m, at + 4 * list.len()) == 0
            &&& forall|j: int|
                0 <= j < list.len() ==> points_to(m, at + 4 * j, #[trigger] list[j])
        },
{
    if at != 0 {
        lemma_list(m, at as int, Seq::empty(), list);
        assert(at + 4 * (list.len() - 0) == at + 4 * list.len());
        assert forall|j: int| 0 <= j < list.len() implies points_to(
            m,
            at + 4 * j,
            #[trigger] list[j],
        ) by {
            assert(points_to(m, at + 4 * (j - Seq::<Seq<u8>>::empty().len()), list[j]));
            assert(at + 4 * (j - Seq::<Seq<u8>>::empty().len()) == at + 4 * j);
        }
    }
}

} // verus!
