//! Text helpers: taking strings apart into characters, putting them together, and ordering
//! them.
use vstd::prelude::*;
use vstd::std_specs::iter::IteratorSpec;
use vstd::string::*;
use vstd::utf8::*;

verus! {

/// `String::push` appends one character.
pub assume_specification[ String::push ](s: &mut String, c: char)
    ensures
        final(s)@ == old(s)@.push(c),
;

/// The text that the standard library's lossy decoding gives for a byte string.
pub uninterp spec fn lossy_text(bytes: Seq<u8>) -> Seq<char>;

/// `String::from_utf8_lossy`: valid UTF-8 is decoded exactly. What stands in for an invalid
/// sequence is the standard library's choice, which depends on the bytes alone.
#[verifier::external_body]
pub(crate) fn lossy(bytes: &[u8]) -> (r: String)
    ensures
        r@ == lossy_text(bytes@),
        valid_utf8(bytes@) ==> r@ == decode_utf8(bytes@),
{
    String::from_utf8_lossy(bytes).into_owned()
}

/// The characters of a string.
pub fn chars_of(s: &str) -> (r: Vec<char>)
    ensures
        r@ == s@,
{
    let mut out: Vec<char> = Vec::new();
    let n: usize = s.unicode_len();
    let mut it = s.chars();
    let mut i: usize = 0;
    while i < n
        invariant
            i <= n,
            n == s@.len(),
            out@ == s@.subrange(0, i as int),
            it.obeys_prophetic_iter_laws(),
            it.remaining() == s@.subrange(i as int, n as int),
        decreases n - i,
    {
        match it.next() {
            Some(c) => {
                out.push(c);
                proof {
                    assert(s@.subrange(i as int, n as int)[0] == c);
                    assert(s@.subrange(0, i + 1) =~= s@.subrange(0, i as int).push(c));
                    assert(s@.subrange(i as int, n as int).drop_first() =~= s@.subrange(
                        i + 1,
                        n as int,
                    ));
                }
            },
            None => {
                assert(false);
            },
        }
        i = i + 1;
    }
    assert(s@.subrange(0, n as int) =~= s@);
    out
}

/// The string made of `chars`.
pub fn text_of(chars: &[char]) -> (r: String)
    ensures
        r@ == chars@,
{
    let mut out = String::new();
    let mut i: usize = 0;
    while i < chars.len()
        invariant
            i <= chars@.len(),
            out@ == chars@.subrange(0, i as int),
        decreases chars@.len() - i,
    {
        out.push(chars[i]);
        assert(chars@.subrange(0, i + 1) =~= chars@.subrange(0, i as int).push(chars@[i as int]));
        i = i + 1;
    }
    assert(chars@.subrange(0, chars@.len() as int) =~= chars@);
    out
}

/// Whether two strings are the same.
pub fn same(a: &str, b: &str) -> (r: bool)
    ensures
        r == (a@ == b@),
{
    a.to_owned() == b.to_owned()
}

/// Dictionary order on text, character by character.
pub open spec fn text_lt(a: Seq<char>, b: Seq<char>) -> bool
    decreases b.len(),
{
    if b.len() == 0 {
        false
    } else if a.len() == 0 {
        true
    } else if a[0] == b[0] {
        text_lt(a.drop_first(), b.drop_first())
    } else {
        (a[0] as u32) < (b[0] as u32)
    }
}

/// Dictionary order is irreflexive.
pub proof fn lemma_text_lt_irreflexive(a: Seq<char>)
    ensures
        !text_lt(a, a),
    decreases a.len(),
{
    if a.len() > 0 {
        lemma_text_lt_irreflexive(a.drop_first());
    }
}

/// Dictionary order is transitive.
pub proof fn lemma_text_lt_transitive(a: Seq<char>, b: Seq<char>, c: Seq<char>)
    requires
        text_lt(a, b),
        text_lt(b, c),
    ensures
        text_lt(a, c),
    decreases c.len(),
{
    if a.len() > 0 && b.len() > 0 && c.len() > 0 && a[0] == b[0] && b[0] == c[0] {
        lemma_text_lt_transitive(a.drop_first(), b.drop_first(), c.drop_first());
    }
}

/// Of two different texts one comes first.
pub proof fn lemma_text_lt_total(a: Seq<char>, b: Seq<char>)
    ensures
        a == b || text_lt(a, b) || text_lt(b, a),
    decreases a.len(),
{
    if a.len() == 0 && b.len() == 0 {
        assert(a =~= b);
    } else if a.len() > 0 && b.len() > 0 && a[0] == b[0] {
        lemma_text_lt_total(a.drop_first(), b.drop_first());
        if a.drop_first() == b.drop_first() {
            assert(a =~= seq![a[0]] + a.drop_first());
            assert(b =~= seq![b[0]] + b.drop_first());
        }
    } else if a.len() > 0 && b.len() > 0 {
        char_u32_cast(a[0], a[0] as u32);
        char_u32_cast(b[0], b[0] as u32);
    }
}

/// Whether `a` comes before `b` in dictionary order.
pub fn comes_before(a: &str, b: &str) -> (r: bool)
    ensures
        r == text_lt(a@, b@),
{
    let x = chars_of(a);
    let y = chars_of(b);
    let mut i: usize = 0;
    assert(x@.subrange(0, x@.len() as int) =~= x@);
    assert(y@.subrange(0, y@.len() as int) =~= y@);
    while i < x.len() && i < y.len()
        invariant
            i <= x@.len(),
            i <= y@.len(),
            text_lt(a@, b@) == text_lt(
                x@.subrange(i as int, x@.len() as int),
                y@.subrange(i as int, y@.len() as int),
            ),
        decreases x@.len() - i,
    {
        let ghost p = x@.subrange(i as int, x@.len() as int);
        let ghost q = y@.subrange(i as int, y@.len() as int);
        assert(p[0] == x@[i as int] && q[0] == y@[i as int]);
        if x[i] != y[i] {
            return (x[i] as u32) < (y[i] as u32);
        }
        assert(p.drop_first() =~= x@.subrange(i + 1, x@.len() as int));
        assert(q.drop_first() =~= y@.subrange(i + 1, y@.len() as int));
        i = i + 1;
    }
    i < y.len()
}

/// The texts of a sequence of strings.
pub open spec fn texts(v: Seq<String>) -> Seq<Seq<char>> {
    v.map_values(|s: String| s@)
}

/// Whether texts stand in dictionary order, each once.
pub open spec fn strictly_sorted(s: Seq<Seq<char>>) -> bool {
    forall|i: int, j: int| 0 <= i < j < s.len() ==> text_lt(#[trigger] s[i], #[trigger] s[j])
}

/// The texts of a set, in dictionary order.
pub open spec fn in_order(set: Set<Seq<char>>) -> Seq<Seq<char>> {
    choose|s: Seq<Seq<char>>| strictly_sorted(s) && #[trigger] s.to_set() == set
}

/// There is only one way to put a set of texts in order.
pub proof fn lemma_sorted_unique(s: Seq<Seq<char>>, t: Seq<Seq<char>>)
    requires
        strictly_sorted(s),
        strictly_sorted(t),
        s.to_set() == t.to_set(),
    ensures
        s == t,
    decreases s.len(),
{
    if s.len() == 0 {
        if t.len() > 0 {
            assert(t.to_set().contains(t[0]));
            assert(s.to_set().contains(t[0]));
        }
        assert(s =~= t);
    } else {
        assert(s.to_set().contains(s[0]));
        assert(t.to_set().contains(s[0]));
        assert(t.len() > 0);
        let a = s.last();
        let b = t.last();
        assert(s.to_set().contains(a) && t.to_set().contains(b));
        assert(t.contains(a) && s.contains(b));
        let i = choose|i: int| 0 <= i < t.len() && t[i] == a;
        let j = choose|j: int| 0 <= j < s.len() && s[j] == b;
        if a != b {
            assert(text_lt(t[i], t[t.len() - 1]));
            assert(text_lt(s[j], s[s.len() - 1]));
            lemma_text_lt_transitive(a, b, a);
            lemma_text_lt_irreflexive(a);
        }
        let u = s.drop_last();
        let v = t.drop_last();
        assert forall|x: Seq<char>| u.to_set().contains(x) <==> v.to_set().contains(x) by {
            if u.contains(x) {
                let k = choose|k: int| 0 <= k < u.len() && u[k] == x;
                assert(s[k] == x);
                assert(text_lt(s[k], s[s.len() - 1]));
                lemma_text_lt_irreflexive(a);
                assert(s.to_set().contains(x));
                assert(t.to_set().contains(x));
                let m = choose|m: int| 0 <= m < t.len() && t[m] == x;
                assert(v[m] == x);
            }
            if v.contains(x) {
                let k = choose|k: int| 0 <= k < v.len() && v[k] == x;
                assert(t[k] == x);
                assert(text_lt(t[k], t[t.len() - 1]));
                lemma_text_lt_irreflexive(a);
                assert(t.to_set().contains(x));
                assert(s.to_set().contains(x));
                let m = choose|m: int| 0 <= m < s.len() && s[m] == x;
                assert(u[m] == x);
            }
        }
        assert(u.to_set() =~= v.to_set());
        lemma_sorted_unique(u, v);
        assert(s =~= u.push(a));
        assert(t =~= v.push(b));
    }
}

/// A sorted sequence is the order of its own elements.
pub proof fn lemma_in_order(s: Seq<Seq<char>>)
    requires
        strictly_sorted(s),
    ensures
        in_order(s.to_set()) == s,
{
    lemma_sorted_unique(in_order(s.to_set()), s);
}

/// One more text can be put into an order.
proof fn lemma_order_grows(s: Seq<Seq<char>>, x: Seq<char>, i: int) -> (r: Seq<Seq<char>>)
    requires
        strictly_sorted(s),
        0 <= i <= s.len(),
        forall|j: int| 0 <= j < i ==> text_lt(#[trigger] s[j], x),
    ensures
        strictly_sorted(r),
        r.to_set() == s.to_set().insert(x),
    decreases s.len() - i,
{
    if i < s.len() && text_lt(s[i], x) {
        lemma_order_grows(s, x, i + 1)
    } else if i < s.len() && s[i] == x {
        assert(s.to_set().insert(x) =~= s.to_set());
        s
    } else {
        let r = s.insert(i, x);
        assert forall|a: int, b: int| 0 <= a < b < r.len() implies text_lt(
            #[trigger] r[a],
            #[trigger] r[b],
        ) by {
            if i < s.len() {
                lemma_text_lt_total(s[i], x);
            }
            if b == i {
                assert(r[a] == s[a]);
            } else if a == i {
                assert(r[b] == s[b - 1]);
                if b - 1 > i {
                    lemma_text_lt_transitive(x, s[i], s[b - 1]);
                }
            } else {
                let c = if a < i {
                    a
                } else {
                    a - 1
                };
                let d = if b < i {
                    b
                } else {
                    b - 1
                };
                assert(r[a] == s[c] && r[b] == s[d]);
            }
        }
        assert(r.to_set() =~= s.to_set().insert(x)) by {
            assert forall|y: Seq<char>| r.contains(y) <==> (s.contains(y) || y == x) by {
                if r.contains(y) {
                    let m = choose|m: int| 0 <= m < r.len() && r[m] == y;
                    if m < i {
                        assert(s[m] == y);
                    } else if m > i {
                        assert(s[m - 1] == y);
                    }
                }
                if s.contains(y) {
                    let m = choose|m: int| 0 <= m < s.len() && s[m] == y;
                    if m < i {
                        assert(r[m] == y);
                    } else {
                        assert(r[m + 1] == y);
                    }
                }
                assert(r[i] == x);
            }
        }
        r
    }
}

proof fn lemma_order_of(set: Set<Seq<char>>) -> (r: Seq<Seq<char>>)
    requires
        set.finite(),
    ensures
        strictly_sorted(r),
        r.to_set() == set,
    decreases set.len(),
{
    if set.len() == 0 {
        let none = Seq::<Seq<char>>::empty();
        assert(none.to_set() =~= set);
        none
    } else {
        let x = set.choose();
        let rest = lemma_order_of(set.remove(x));
        assert(set.remove(x).insert(x) =~= set);
        lemma_order_grows(rest, x, 0)
    }
}

/// Any finite set of texts can be put in order.
pub proof fn lemma_order_exists(set: Set<Seq<char>>)
    requires
        set.finite(),
    ensures
        strictly_sorted(in_order(set)),
        in_order(set).to_set() == set,
{
    let s = lemma_order_of(set);
    assert(strictly_sorted(s) && s.to_set() == set);
}

/// Put a text into a sorted list, unless it is there already.
pub fn insert_sorted(list: &mut Vec<String>, name: String)
    requires
        strictly_sorted(texts(old(list)@)),
    ensures
        strictly_sorted(texts(final(list)@)),
        texts(final(list)@).to_set() == texts(old(list)@).to_set().insert(name@),
{
    let ghost before = texts(list@);
    let mut i: usize = 0;
    while i < list.len() && comes_before(list[i].as_str(), name.as_str())
        invariant
            i <= list@.len(),
            before == texts(list@),
            forall|j: int| 0 <= j < i ==> text_lt(#[trigger] before[j], name@),
        decreases list@.len() - i,
    {
        assert(before[i as int] == list@[i as int]@);
        i = i + 1;
    }
    if i < list.len() && same(list[i].as_str(), name.as_str()) {
        assert(before[i as int] == name@);
        assert(before.to_set().insert(name@) =~= before.to_set());
        return ;
    }
    let ghost key = name@;
    list.insert(i, name);
    proof {
        let after = texts(list@);
        assert(after =~= before.insert(i as int, key));
        assert forall|a: int, b: int| 0 <= a < b < after.len() implies text_lt(
            #[trigger] after[a],
            #[trigger] after[b],
        ) by {
            if i < before.len() {
                lemma_text_lt_total(before[i as int], key);
            }
            if b == i {
                assert(before[a] == after[a]);
            } else if a == i {
                assert(after[b] == before[b - 1]);
                if b - 1 > i {
                    lemma_text_lt_transitive(key, before[i as int], before[b - 1]);
                }
            } else {
                let x = if a < i {
                    a
                } else {
                    a - 1
                };
                let y = if b < i {
                    b
                } else {
                    b - 1
                };
                assert(after[a] == before[x] && after[b] == before[y]);
            }
        }
        assert(after.to_set() =~= before.to_set().insert(key)) by {
            assert forall|x: Seq<char>| after.contains(x) <==> (before.contains(x) || x == key) by {
                if after.contains(x) {
                    let m = choose|m: int| 0 <= m < after.len() && after[m] == x;
                    if m < i {
                        assert(before[m] == x);
                    } else if m > i {
                        assert(before[m - 1] == x);
                    }
                }
                if before.contains(x) {
                    let m = choose|m: int| 0 <= m < before.len() && before[m] == x;
                    if m < i {
                        assert(after[m] == x);
                    } else {
                        assert(after[m + 1] == x);
                    }
                }
                assert(after[i as int] == key);
            }
        }
    }
}

/// The characters with the Unicode property `White_Space`.
pub open spec fn is_space(c: char) -> bool {
    let u = c as u32;
    9 <= u <= 13 || u == 32 || u == 0x85 || u == 0xa0 || u == 0x1680 || 0x2000 <= u <= 0x200a || u
        == 0x2028 || u == 0x2029 || u == 0x202f || u == 0x205f || u == 0x3000
}

/// Whether a character is white space.
pub fn space(c: char) -> (r: bool)
    ensures
        r == is_space(c),
{
    let u: u32 = c as u32;
    9 <= u && u <= 13 || u == 32 || u == 0x85 || u == 0xa0 || u == 0x1680 || 0x2000 <= u && u
        <= 0x200a || u == 0x2028 || u == 0x2029 || u == 0x202f || u == 0x205f || u == 0x3000
}

/// The first position at or after `i` that holds no space, or the end.
pub open spec fn after_spaces(t: Seq<char>, i: int) -> int
    decreases t.len() - i,
{
    if i >= t.len() || !is_space(t[i]) {
        i
    } else {
        after_spaces(t, i + 1)
    }
}

/// The position behind the last character before `n` that is no space.
pub open spec fn before_spaces(t: Seq<char>, n: int) -> int
    decreases n,
{
    if n <= 0 || !is_space(t[n - 1]) {
        n
    } else {
        before_spaces(t, n - 1)
    }
}

/// A text without the spaces around it.
pub open spec fn trimmed(t: Seq<char>) -> Seq<char> {
    let from = after_spaces(t, 0);
    let to = before_spaces(t, t.len() as int);
    if from < to {
        t.subrange(from, to)
    } else {
        Seq::empty()
    }
}

/// Take the spaces around a text away.
pub fn trim(t: &Vec<char>) -> (r: Vec<char>)
    ensures
        r@ == trimmed(t@),
{
    let mut from: usize = 0;
    while from < t.len() && space(t[from])
        invariant
            from <= t@.len(),
            after_spaces(t@, 0) == after_spaces(t@, from as int),
        decreases t@.len() - from,
    {
        from = from + 1;
    }
    let mut to: usize = t.len();
    while to > 0 && space(t[to - 1])
        invariant
            to <= t@.len(),
            before_spaces(t@, t@.len() as int) == before_spaces(t@, to as int),
        decreases to,
    {
        to = to - 1;
    }
    let mut out: Vec<char> = Vec::new();
    if from < to {
        let mut i: usize = from;
        while i < to
            invariant
                from <= i <= to <= t@.len(),
                out@ == t@.subrange(from as int, i as int),
            decreases to - i,
        {
            out.push(t[i]);
            i = i + 1;
            assert(out@ =~= t@.subrange(from as int, i as int));
        }
    } else {
        assert(out@ =~= Seq::empty());
    }
    out
}

/// A text without the spaces at its end.
pub open spec fn trimmed_end(t: Seq<char>) -> Seq<char> {
    t.subrange(0, before_spaces(t, t.len() as int))
}

/// Take the spaces at the end of a text away.
pub fn trim_end(text: &str) -> (r: String)
    ensures
        r@ == trimmed_end(text@),
{
    let t = chars_of(text);
    let mut to: usize = t.len();
    while to > 0 && space(t[to - 1])
        invariant
            to <= t@.len(),
            before_spaces(t@, t@.len() as int) == before_spaces(t@, to as int),
        decreases to,
    {
        to = to - 1;
    }
    let mut out = String::new();
    let mut i: usize = 0;
    assert(out@ =~= t@.subrange(0, 0));
    while i < to
        invariant
            i <= to <= t@.len(),
            out@ == t@.subrange(0, i as int),
        decreases to - i,
    {
        out.push(t[i]);
        i = i + 1;
        assert(out@ =~= t@.subrange(0, i as int));
    }
    out
}

/// One decimal digit.
pub open spec fn digit(d: nat) -> char {
    (48 + d) as u8 as char
}

/// A number in decimal, without leading zeros.
pub open spec fn decimal(n: nat) -> Seq<char>
    decreases n,
{
    if n < 10 {
        seq![digit(n)]
    } else {
        decimal(n / 10).push(digit(n % 10))
    }
}

/// Append `n` in decimal.
pub fn push_decimal(out: &mut String, n: u64)
    ensures
        final(out)@ == old(out)@ + decimal(n as nat),
    decreases n,
{
    if n < 10 {
        out.push((48u8 + n as u8) as char);
    } else {
        push_decimal(out, n / 10);
        let d: u8 = (n % 10) as u8;
        out.push((48u8 + d) as char);
    }
    assert(final(out)@ =~= old(out)@ + decimal(n as nat));
}

/// A number in decimal, with its sign where it has one.
pub open spec fn signed_decimal(n: int) -> Seq<char> {
    if n < 0 {
        seq!['-'] + decimal((-n) as nat)
    } else {
        decimal(n as nat)
    }
}

/// Append a number in decimal, with its sign where it has one.
pub fn push_signed(out: &mut String, n: i32)
    ensures
        final(out)@ == old(out)@ + signed_decimal(n as int),
{
    if n < 0 {
        out.push('-');
        push_decimal(out, (-(n as i64)) as u64);
    } else {
        push_decimal(out, n as u64);
    }
    assert(final(out)@ =~= old(out)@ + signed_decimal(n as int));
}

/// `n` spaces.
pub open spec fn spaces(n: nat) -> Seq<char> {
    Seq::new(n, |i: int| ' ')
}

/// A number in decimal, padded with spaces on the left to at least `width`.
pub open spec fn padded(n: nat, width: nat) -> Seq<char> {
    let text = decimal(n);
    if text.len() >= width {
        text
    } else {
        spaces((width - text.len()) as nat) + text
    }
}

/// Append `n` in decimal, padded with spaces on the left to at least `width`.
pub fn push_padded(out: &mut String, n: u64, width: usize)
    ensures
        final(out)@ == old(out)@ + padded(n as nat, width as nat),
{
    let ghost before = out@;
    let mut text = String::new();
    push_decimal(&mut text, n);
    assert(text@ =~= decimal(n as nat));
    let digits: usize = text.as_str().unicode_len();
    let mut have: usize = digits;
    assert(out@ =~= before + spaces(0));
    while have < width
        invariant
            digits == text@.len(),
            digits <= have,
            have <= width || have == digits,
            out@ == before + spaces((have - digits) as nat),
        decreases width - have,
    {
        out.push(' ');
        have = have + 1;
        assert(out@ =~= before + spaces((have - digits) as nat));
    }
    out.append(text.as_str());
    assert(out@ =~= before + padded(n as nat, width as nat));
}

// ---------------------------------------------------------------------------------------------
// looking into a text

/// Whether a text holds another one.
pub open spec fn holds_text(text: Seq<char>, part: Seq<char>) -> bool {
    exists|i: int| #[trigger] stands_at(text, part, i)
}

/// Whether a text holds another one at position `i`.
pub open spec fn stands_at(text: Seq<char>, part: Seq<char>, i: int) -> bool {
    0 <= i <= text.len() - part.len() && text.subrange(i, i + part.len()) == part
}

fn is_at(text: &Vec<char>, part: &Vec<char>, i: usize) -> (r: bool)
    requires
        i + part@.len() <= text@.len(),
    ensures
        r == stands_at(text@, part@, i as int),
{
    let n: usize = part.len();
    let size: usize = text.len();
    let mut j: usize = 0;
    while j < n
        invariant
            j <= n,
            n == part@.len(),
            size == text@.len(),
            i + n <= size,
            forall|k: int| 0 <= k < j ==> text@[i + k] == #[trigger] part@[k],
        decreases n - j,
    {
        if text[i + j] != part[j] {
            assert(text@.subrange(i as int, i + n)[j as int] != part@[j as int]);
            return false;
        }
        j = j + 1;
    }
    assert(text@.subrange(i as int, i + n) =~= part@);
    true
}

/// Whether a text holds another one.
pub fn contains_text(text: &str, part: &str) -> (r: bool)
    ensures
        r == holds_text(text@, part@),
{
    let t = chars_of(text);
    let p = chars_of(part);
    let size: usize = t.len();
    let n: usize = p.len();
    if n > size {
        return false;
    }
    let last: usize = size - n;
    let mut i: usize = 0;
    while i < last
        invariant
            t@ == text@,
            p@ == part@,
            last + p@.len() == t@.len(),
            i <= last,
            forall|k: int| 0 <= k < i ==> !#[trigger] stands_at(text@, part@, k),
        decreases last - i,
    {
        if is_at(&t, &p, i) {
            return true;
        }
        i = i + 1;
    }
    is_at(&t, &p, last)
}

/// The value of the first `n` characters as a decimal number, if they are all digits.
pub open spec fn value_upto(t: Seq<char>, from: int, n: int) -> Option<int>
    decreases n - from,
{
    if n <= from {
        Some(0)
    } else {
        match value_upto(t, from, n - 1) {
            Some(v) => if '0' <= t[n - 1] <= '9' {
                Some(v * 10 + (t[n - 1] as u32 - '0' as u32))
            } else {
                None
            },
            None => None,
        }
    }
}

/// The number a text spells: digits, which a plus sign may precede, and no more than `u64`
/// holds.
pub open spec fn number_of(t: Seq<char>) -> Option<u64> {
    let from = if t.len() > 0 && t[0] == '+' {
        1int
    } else {
        0int
    };
    if t.len() <= from {
        None
    } else {
        match value_upto(t, from, t.len() as int) {
            Some(v) => if v <= u64::MAX {
                Some(v as u64)
            } else {
                None
            },
            None => None,
        }
    }
}

proof fn lemma_value_grows(t: Seq<char>, from: int, a: int, b: int)
    requires
        from <= a <= b,
    ensures
        value_upto(t, from, a) is None ==> value_upto(t, from, b) is None,
        value_upto(t, from, b) matches Some(v) ==> (value_upto(t, from, a) matches Some(u) && 0 <= u
            <= v),
    decreases b - from,
{
    if a < b {
        lemma_value_grows(t, from, a, b - 1);
    } else if from < a {
        lemma_value_grows(t, from, a - 1, a - 1);
    }
}

/// The number a text spells.
pub fn parse_number(text: &str) -> (r: Option<u64>)
    ensures
        r == number_of(text@),
{
    let t = chars_of(text);
    let n: usize = t.len();
    let from: usize = if n > 0 && t[0] == '+' {
        1
    } else {
        0
    };
    if n <= from {
        return None;
    }
    let mut v: u64 = 0;
    let mut i: usize = from;
    while i < n
        invariant
            from <= i <= n,
            from < n,
            n == t@.len(),
            t@ == text@,
            from == if t@.len() > 0 && t@[0] == '+' {
                1int
            } else {
                0int
            },
            value_upto(t@, from as int, i as int) == Some(v as int),
        decreases n - i,
    {
        let c: char = t[i];
        proof {
            lemma_value_grows(t@, from as int, i + 1, n as int);
        }
        if !('0' <= c && c <= '9') {
            return None;
        }
        let d: u64 = c as u64 - '0' as u64;
        let next: u128 = v as u128 * 10 + d as u128;
        if next > u64::MAX as u128 {
            return None;
        }
        v = next as u64;
        i = i + 1;
    }
    Some(v)
}

} // verus!
