//! Texts and numbers: their order, how they are written and what is trimmed of them.
use super::scripts::blank;
use crate::kernel::namespace::{digit_value, fd_number, number_upto, special, Device, Special};
use crate::syscall::io::{seed_of, xorshift};
use crate::text::{before_spaces, decimal, digit, is_space, signed_decimal, text_lt, trimmed_end};
use vstd::prelude::*;

verus! {

/// Texts are ordered by the first character in which they differ, and a text comes before
/// every longer one that begins with it.
pub proof fn law_texts_are_ordered_by_their_first_difference(
    p: Seq<char>,
    x: char,
    q: Seq<char>,
    y: char,
    r: Seq<char>,
)
    ensures
        (x as u32) < (y as u32) ==> text_lt(p.push(x) + q, p.push(y) + r),
        (x as u32) > (y as u32) ==> !text_lt(p.push(x) + q, p.push(y) + r),
        text_lt(p, p.push(x) + q),
        !text_lt(p.push(x) + q, p),
        !text_lt(p, p),
    decreases p.len(),
{
    let a = p.push(x) + q;
    let b = p.push(y) + r;
    if p.len() > 0 {
        let rest = p.drop_first();
        law_texts_are_ordered_by_their_first_difference(rest, x, q, y, r);
        assert(a.drop_first() =~= rest.push(x) + q);
        assert(b.drop_first() =~= rest.push(y) + r);
        assert(a[0] == p[0] && b[0] == p[0]);
    } else {
        assert(a[0] == x && b[0] == y);
    }
}

proof fn lemma_leading(n: nat)
    ensures
        decimal(n).len() > 0,
        n > 0 ==> decimal(n)[0] != '0',
        forall|i: int| 0 <= i < decimal(n).len() ==> '0' <= #[trigger] decimal(n)[i] <= '9',
    decreases n,
{
    if n >= 10 {
        lemma_leading(n / 10);
    }
}

/// A number is written in decimal digits, without leading zeros; a negative one with a minus
/// sign in front.
pub proof fn law_a_number_is_written_plainly(n: nat)
    ensures
        n > 0 ==> decimal(n)[0] != '0',
        n == 0 ==> decimal(n) == seq!['0'],
        forall|i: int| 0 <= i < decimal(n).len() ==> '0' <= #[trigger] decimal(n)[i] <= '9',
        signed_decimal(n as int) == decimal(n),
        n > 0 ==> signed_decimal(-(n as int)) == seq!['-'] + decimal(n),
{
    lemma_leading(n);
}

/// Spaces at the end of a text are what is taken away there, and all that is.
pub proof fn law_only_the_last_spaces_are_trimmed(t: Seq<char>, back: Seq<char>)
    requires
        t.len() > 0 ==> !is_space(t.last()),
        blank(back),
    ensures
        trimmed_end(t + back) == t,
{
    let all = t + back;
    lemma_last_spaces(t, back, all.len() as int);
    assert(all.subrange(0, t.len() as int) =~= t);
}

proof fn lemma_last_spaces(t: Seq<char>, back: Seq<char>, n: int)
    requires
        t.len() > 0 ==> !is_space(t.last()),
        blank(back),
        t.len() <= n <= t.len() + back.len(),
    ensures
        before_spaces(t + back, n) == t.len(),
    decreases n,
{
    let all = t + back;
    if n > t.len() {
        assert(all[n - 1] == back[n - 1 - t.len()]);
        lemma_last_spaces(t, back, n - 1);
    } else if n > 0 {
        assert(all[n - 1] == t.last());
    }
}

proof fn lemma_fd_prefix(t: Seq<char>, u: Seq<char>, n: int)
    requires
        0 <= n <= t.len(),
        n <= u.len(),
        forall|i: int| 0 <= i < n ==> #[trigger] t[i] == u[i],
    ensures
        number_upto(t, n) == number_upto(u, n),
    decreases n,
{
    if n > 0 {
        lemma_fd_prefix(t, u, n - 1);
    }
}

proof fn lemma_fd_number(n: nat)
    requires
        n <= i32::MAX,
    ensures
        number_upto(decimal(n), decimal(n).len() as int) == Some(n as int),
    decreases n,
{
    if n < 10 {
        assert(decimal(n) == seq![digit(n)]);
        assert(number_upto(decimal(n), 0) == Some(0int));
        assert(digit_value(digit(n)) == Some(n as int));
    } else {
        let front = decimal(n / 10);
        lemma_fd_number(n / 10);
        let all = decimal(n);
        assert(all == front.push(digit(n % 10)));
        lemma_fd_prefix(all, front, front.len() as int);
        assert(digit_value(digit(n % 10)) == Some((n % 10) as int));
    }
}

/// Every descriptor has a name under `/dev/fd`: its number.
pub proof fn law_a_descriptor_has_its_number_for_a_name(n: i32, pid: i32)
    requires
        0 <= n,
    ensures
        fd_number(decimal(n as nat)) == Some(n as int),
        special(seq!["dev"@, "fd"@, decimal(n as nat)], pid) == Special::Device(Device::Fd(n)),
{
    lemma_leading(n as nat);
    lemma_fd_number(n as nat);
}

/// Random numbers never run into a rut: a state that is not zero is followed by one that is
/// not zero, two states never by the same, and a session that has none yet starts with one.
pub proof fn law_random_states_stay_apart(x: u64, y: u64, realtime: u128)
    ensures
        x != 0 ==> xorshift(x) != 0,
        x != y ==> xorshift(x) != xorshift(y),
        seed_of(x, realtime) != 0,
        x != 0 ==> seed_of(x, realtime) == x,
{
    lemma_xorshift(x);
    lemma_xorshift(y);
    let low = (realtime % 0x1_0000_0000_0000_0000) as u64;
    assert(low | 1 != 0 && 0u64 ^ (0u64 << 13u64) == 0 && 0u64 ^ (0u64 >> 7u64) == 0 && 0u64 ^ (0u64
        << 17u64) == 0) by (bit_vector);
    if x != 0 && xorshift(x) == 0 {
        lemma_xorshift(0);
        assert(xorshift(0) == 0);
    }
}

/// Each step of the generator can be undone.
proof fn lemma_xorshift(x: u64)
    ensures
        unshift(xorshift(x)) == x,
{
    let a = x ^ (x << 13u64);
    let b = a ^ (a >> 7u64);
    let c = b ^ (b << 17u64);
    assert(c ^ (c << 17u64) ^ (c << 34u64) ^ (c << 51u64) == b) by (bit_vector)
        requires
            c == b ^ (b << 17u64),
    ;
    assert(b ^ (b >> 7u64) ^ (b >> 14u64) ^ (b >> 21u64) ^ (b >> 28u64) ^ (b >> 35u64) ^ (b
        >> 42u64) ^ (b >> 49u64) ^ (b >> 56u64) ^ (b >> 63u64) == a) by (bit_vector)
        requires
            b == a ^ (a >> 7u64),
    ;
    assert(a ^ (a << 13u64) ^ (a << 26u64) ^ (a << 39u64) ^ (a << 52u64) == x) by (bit_vector)
        requires
            a == x ^ (x << 13u64),
    ;
}

/// The state before a state.
spec fn unshift(c: u64) -> u64 {
    let b = c ^ (c << 17u64) ^ (c << 34u64) ^ (c << 51u64);
    let a = b ^ (b >> 7u64) ^ (b >> 14u64) ^ (b >> 21u64) ^ (b >> 28u64) ^ (b >> 35u64) ^ (b
        >> 42u64) ^ (b >> 49u64) ^ (b >> 56u64) ^ (b >> 63u64);
    a ^ (a << 13u64) ^ (a << 26u64) ^ (a << 39u64) ^ (a << 52u64)
}

} // verus!
