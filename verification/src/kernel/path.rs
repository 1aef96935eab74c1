//! Guest paths: taking them apart, resolving `.` and `..`, and putting them back together.
//!
//! `..` is resolved by name, before any filesystem is asked, and never climbs above the root.
//! That is what lets a [`Vfs`](crate::vfs::Vfs) use a path as a key directly.
use crate::text::{chars_of, same, text_of, texts};
use vstd::prelude::*;
use vstd::string::*;

verus! {

/// `acc` with the component `cur` at its end, unless that is empty.
pub open spec fn flushed(acc: Seq<Seq<char>>, cur: Seq<char>) -> Seq<Seq<char>> {
    if cur.len() == 0 {
        acc
    } else {
        acc.push(cur)
    }
}

/// The components of `p` from position `i` on, after `acc` and the beginning `cur` of one.
pub open spec fn parts_from(
    p: Seq<char>,
    i: int,
    cur: Seq<char>,
    acc: Seq<Seq<char>>,
) -> Seq<Seq<char>>
    decreases p.len() - i,
{
    if i >= p.len() {
        flushed(acc, cur)
    } else if p[i] == '/' {
        parts_from(p, i + 1, Seq::empty(), flushed(acc, cur))
    } else {
        parts_from(p, i + 1, cur.push(p[i]), acc)
    }
}

/// The components of a path: what stands between its slashes, leaving out what is empty.
pub open spec fn parts(p: Seq<char>) -> Seq<Seq<char>> {
    parts_from(p, 0, Seq::empty(), Seq::empty())
}

/// One step of walking a path: `.` stays, `..` goes up (and stays at the root), and anything
/// else goes down.
pub open spec fn step(at: Seq<Seq<char>>, c: Seq<char>) -> Seq<Seq<char>> {
    if c == "."@ {
        at
    } else if c == ".."@ {
        if at.len() > 0 {
            at.drop_last()
        } else {
            at
        }
    } else {
        at.push(c)
    }
}

/// Where walking `comps` from `at` leads.
pub open spec fn walked(at: Seq<Seq<char>>, comps: Seq<Seq<char>>) -> Seq<Seq<char>>
    decreases comps.len(),
{
    if comps.len() == 0 {
        at
    } else {
        step(walked(at, comps.drop_last()), comps.last())
    }
}

/// Whether a path starts at the root.
pub open spec fn is_absolute(p: Seq<char>) -> bool {
    p.len() > 0 && p[0] == '/'
}

/// The components that `path` names, seen from `base`.
pub open spec fn normal(base: Seq<char>, path: Seq<char>) -> Seq<Seq<char>> {
    if is_absolute(path) {
        walked(Seq::empty(), parts(path))
    } else {
        walked(walked(Seq::empty(), parts(base)), parts(path))
    }
}

/// Each component behind a slash.
pub open spec fn slashed(comps: Seq<Seq<char>>) -> Seq<char>
    decreases comps.len(),
{
    if comps.len() == 0 {
        Seq::empty()
    } else {
        slashed(comps.drop_last()).push('/') + comps.last()
    }
}

/// The absolute path with these components.
pub open spec fn path_of(comps: Seq<Seq<char>>) -> Seq<char> {
    if comps.len() == 0 {
        "/"@
    } else {
        slashed(comps)
    }
}

/// A name a file can have: not empty, no slash, and neither `.` nor `..`.
pub open spec fn is_name(c: Seq<char>) -> bool {
    c.len() > 0 && !c.contains('/') && c != "."@ && c != ".."@
}

/// Components that are all names.
pub open spec fn clean(comps: Seq<Seq<char>>) -> bool {
    forall|i: int| 0 <= i < comps.len() ==> is_name(#[trigger] comps[i])
}

/// Components between slashes: not empty, and without one.
pub open spec fn unslashed(comps: Seq<Seq<char>>) -> bool {
    forall|i: int|
        0 <= i < comps.len() ==> (#[trigger] comps[i]).len() > 0 && !comps[i].contains('/')
}

/// The form every path has that a filesystem is asked for.
pub open spec fn is_normal_path(p: Seq<char>) -> bool {
    exists|comps: Seq<Seq<char>>| clean(comps) && p == #[trigger] path_of(comps)
}

/// The components of a path.
pub fn split(path: &str) -> (r: Vec<String>)
    ensures
        texts(r@) == parts(path@),
{
    let chars = chars_of(path);
    let mut out: Vec<String> = Vec::new();
    let mut cur: Vec<char> = Vec::new();
    let mut i: usize = 0;
    assert(texts(out@) =~= Seq::empty());
    assert(cur@ =~= Seq::empty());
    while i < chars.len()
        invariant
            i <= chars@.len(),
            chars@ == path@,
            parts(path@) == parts_from(path@, i as int, cur@, texts(out@)),
        decreases chars@.len() - i,
    {
        let ghost acc = texts(out@);
        if chars[i] == '/' {
            if cur.len() > 0 {
                out.push(text_of(cur.as_slice()));
                assert(texts(out@) =~= acc.push(cur@));
            }
            cur = Vec::new();
            assert(cur@ =~= Seq::empty());
        } else {
            cur.push(chars[i]);
        }
        i = i + 1;
    }
    let ghost acc = texts(out@);
    if cur.len() > 0 {
        out.push(text_of(cur.as_slice()));
        assert(texts(out@) =~= acc.push(cur@));
    }
    out
}

/// Walk `comps` from `at`.
pub fn walk(at: Vec<String>, comps: &Vec<String>) -> (r: Vec<String>)
    ensures
        texts(r@) == walked(texts(at@), texts(comps@)),
{
    let ghost start = texts(at@);
    let ghost all = texts(comps@);
    let mut out = at;
    let mut i: usize = 0;
    assert(all.subrange(0, 0) =~= Seq::empty());
    while i < comps.len()
        invariant
            i <= comps@.len(),
            all == texts(comps@),
            texts(out@) == walked(start, all.subrange(0, i as int)),
        decreases comps@.len() - i,
    {
        let ghost before = texts(out@);
        assert(all.subrange(0, i + 1).drop_last() =~= all.subrange(0, i as int));
        assert(all.subrange(0, i + 1).last() == comps@[i as int]@);
        let c = &comps[i];
        if same(c.as_str(), ".") {
        } else if same(c.as_str(), "..") {
            if out.len() > 0 {
                out.pop();
                assert(texts(out@) =~= before.drop_last());
            }
        } else {
            out.push(c.clone());
            assert(texts(out@) =~= before.push(c@));
        }
        i = i + 1;
    }
    assert(all.subrange(0, i as int) =~= all);
    out
}

/// Whether a path starts at the root.
pub fn starts_at_root(path: &str) -> (r: bool)
    ensures
        r == is_absolute(path@),
{
    path.unicode_len() > 0 && path.get_char(0) == '/'
}

/// The components that `path` names, seen from `base`, with `.` and `..` resolved.
pub fn normalize(base: &str, path: &str) -> (r: Vec<String>)
    ensures
        texts(r@) == normal(base@, path@),
        clean(texts(r@)),
{
    proof {
        lemma_normal_is_clean(base@, path@);
    }
    let empty: Vec<String> = Vec::new();
    assert(texts(empty@) =~= Seq::empty());
    if starts_at_root(path) {
        walk(empty, &split(path))
    } else {
        let start = walk(empty, &split(base));
        walk(start, &split(path))
    }
}

/// The absolute path with these components.
pub fn join(comps: &Vec<String>) -> (r: String)
    ensures
        r@ == path_of(texts(comps@)),
{
    if comps.len() == 0 {
        return "/".to_owned();
    }
    let ghost all = texts(comps@);
    let mut out = String::new();
    let mut i: usize = 0;
    assert(out@ =~= slashed(all.subrange(0, 0)));
    while i < comps.len()
        invariant
            i <= comps@.len(),
            all == texts(comps@),
            out@ == slashed(all.subrange(0, i as int)),
        decreases comps@.len() - i,
    {
        out.push('/');
        out.append(comps[i].as_str());
        assert(all.subrange(0, i + 1).drop_last() =~= all.subrange(0, i as int));
        assert(all.subrange(0, i + 1).last() == comps@[i as int]@);
        i = i + 1;
    }
    assert(all.subrange(0, i as int) =~= all);
    out
}

/// The first `n` of some components.
pub fn first_parts(comps: &Vec<String>, n: usize) -> (r: Vec<String>)
    requires
        n <= comps@.len(),
    ensures
        texts(r@) == texts(comps@).subrange(0, n as int),
{
    parts_between(comps, 0, n)
}

/// The components from `from` up to `to`.
pub fn parts_between(comps: &Vec<String>, from: usize, to: usize) -> (r: Vec<String>)
    requires
        from <= to <= comps@.len(),
    ensures
        texts(r@) == texts(comps@).subrange(from as int, to as int),
{
    let mut out: Vec<String> = Vec::new();
    let mut i: usize = from;
    assert(texts(out@) =~= texts(comps@).subrange(from as int, from as int));
    while i < to
        invariant
            from <= i <= to,
            to <= comps@.len(),
            texts(out@) == texts(comps@).subrange(from as int, i as int),
        decreases to - i,
    {
        let ghost before = texts(out@);
        out.push(comps[i].clone());
        assert(texts(out@) =~= before.push(comps@[i as int]@));
        i = i + 1;
        assert(texts(out@) =~= texts(comps@).subrange(from as int, i as int));
    }
    out
}

/// Whether the components `head` begin the components `of`.
pub open spec fn begins(head: Seq<Seq<char>>, of: Seq<Seq<char>>) -> bool {
    head.len() <= of.len() && of.subrange(0, head.len() as int) == head
}

/// Whether the components `head` begin the components `of`.
pub fn is_prefix(head: &Vec<String>, of: &Vec<String>) -> (r: bool)
    ensures
        r == begins(texts(head@), texts(of@)),
{
    let ghost h = texts(head@);
    let ghost o = texts(of@);
    if head.len() > of.len() {
        return false;
    }
    let mut i: usize = 0;
    while i < head.len()
        invariant
            i <= head@.len() <= of@.len(),
            h == texts(head@),
            o == texts(of@),
            forall|j: int| 0 <= j < i ==> #[trigger] h[j] == o[j],
        decreases head@.len() - i,
    {
        if !same(head[i].as_str(), of[i].as_str()) {
            assert(o.subrange(0, h.len() as int)[i as int] != h[i as int]);
            return false;
        }
        assert(h[i as int] == o[i as int]);
        i = i + 1;
    }
    assert(o.subrange(0, h.len() as int) =~= h);
    true
}

// ---------------------------------------------------------------------------------------------
// laws

proof fn lemma_parts_from_unslashed(
    p: Seq<char>,
    i: int,
    cur: Seq<char>,
    acc: Seq<Seq<char>>,
)
    requires
        !cur.contains('/'),
        unslashed(acc),
        0 <= i,
    ensures
        unslashed(parts_from(p, i, cur, acc)),
    decreases p.len() - i,
{
    if i >= p.len() {
    } else if p[i] == '/' {
        assert(!Seq::<char>::empty().contains('/'));
        lemma_parts_from_unslashed(p, i + 1, Seq::empty(), flushed(acc, cur));
    } else {
        assert(!cur.push(p[i]).contains('/')) by {
            if cur.push(p[i]).contains('/') {
                let k = choose|k: int| 0 <= k < cur.len() + 1 && cur.push(p[i])[k] == '/';
                assert(k < cur.len() ==> cur[k] == '/');
            }
        }
        lemma_parts_from_unslashed(p, i + 1, cur.push(p[i]), acc);
    }
}

/// No component of a path is empty or holds a slash.
pub proof fn lemma_parts_unslashed(p: Seq<char>)
    ensures
        unslashed(parts(p)),
{
    assert(!Seq::<char>::empty().contains('/'));
    lemma_parts_from_unslashed(p, 0, Seq::empty(), Seq::empty());
}

/// Walking from a clean place along components without slashes leads to a clean place.
pub proof fn lemma_walked_is_clean(at: Seq<Seq<char>>, comps: Seq<Seq<char>>)
    requires
        clean(at),
        unslashed(comps),
    ensures
        clean(walked(at, comps)),
    decreases comps.len(),
{
    if comps.len() > 0 {
        lemma_walked_is_clean(at, comps.drop_last());
    }
}

/// A path's components are names, whatever the path and whatever it is seen from: nothing is
/// left of `.`, `..` and empty components.
pub proof fn lemma_normal_is_clean(base: Seq<char>, path: Seq<char>)
    ensures
        clean(normal(base, path)),
{
    let none = Seq::<Seq<char>>::empty();
    assert(!Seq::<char>::empty().contains('/'));
    lemma_parts_from_unslashed(path, 0, Seq::empty(), none);
    lemma_parts_from_unslashed(base, 0, Seq::empty(), none);
    lemma_walked_is_clean(none, parts(path));
    lemma_walked_is_clean(none, parts(base));
    lemma_walked_is_clean(walked(none, parts(base)), parts(path));
}

/// Walking names only ever goes down.
pub proof fn lemma_walking_names(at: Seq<Seq<char>>, comps: Seq<Seq<char>>)
    requires
        clean(comps),
    ensures
        walked(at, comps) == at + comps,
    decreases comps.len(),
{
    if comps.len() > 0 {
        lemma_walking_names(at, comps.drop_last());
        assert(is_name(comps[comps.len() - 1]));
        assert(at + comps =~= (at + comps.drop_last()).push(comps.last()));
    } else {
        assert(at + comps =~= at);
    }
}

/// Reading on over one slash-free stretch.
proof fn lemma_parts_run(
    p: Seq<char>,
    i: int,
    run: Seq<char>,
    k: int,
    acc: Seq<Seq<char>>,
)
    requires
        0 <= k <= run.len(),
        0 <= i,
        i + run.len() <= p.len(),
        p.subrange(i, i + run.len()) == run,
        !run.contains('/'),
    ensures
        parts_from(p, i + k, run.subrange(0, k), acc) == parts_from(p, i + run.len(), run, acc),
    decreases run.len() - k,
{
    if k < run.len() {
        assert(p[i + k] == p.subrange(i, i + run.len())[k]);
        assert(run.contains(run[k]));
        assert(run.subrange(0, k).push(run[k]) =~= run.subrange(0, k + 1));
        lemma_parts_run(p, i, run, k + 1, acc);
    } else {
        assert(run.subrange(0, k) =~= run);
    }
}

/// Reading the components of a path back, one at a time from the `n`th on.
proof fn lemma_parts_of_slashed(comps: Seq<Seq<char>>, n: int)
    requires
        0 <= n <= comps.len(),
        unslashed(comps),
    ensures
        parts(slashed(comps)) == parts_from(
            slashed(comps),
            slashed(comps.subrange(0, n)).len() as int,
            if n == 0 {
                Seq::empty()
            } else {
                comps[n - 1]
            },
            if n == 0 {
                Seq::empty()
            } else {
                comps.subrange(0, n - 1)
            },
        ),
        slashed(comps).len() >= slashed(comps.subrange(0, n)).len(),
        slashed(comps).subrange(0, slashed(comps.subrange(0, n)).len() as int) == slashed(
            comps.subrange(0, n),
        ),
    decreases n,
{
    let p = slashed(comps);
    if n == 0 {
        assert(comps.subrange(0, 0) =~= Seq::empty());
        assert(p.subrange(0, 0) =~= Seq::empty());
        lemma_slashed_prefix(comps, 0);
    } else {
        lemma_parts_of_slashed(comps, n - 1);
        lemma_slashed_prefix(comps, n);
        lemma_slashed_prefix(comps, n - 1);
        let before = slashed(comps.subrange(0, n - 1));
        let now = slashed(comps.subrange(0, n));
        assert(comps.subrange(0, n).drop_last() =~= comps.subrange(0, n - 1));
        assert(comps.subrange(0, n).last() == comps[n - 1]);
        assert(now == before.push('/') + comps[n - 1]);
        let at = before.len() as int;
        assert(p[at] == p.subrange(0, now.len() as int)[at]);
        assert(p[at] == '/');
        let cur = if n == 1 {
            Seq::empty()
        } else {
            comps[n - 2]
        };
        let acc = if n == 1 {
            Seq::empty()
        } else {
            comps.subrange(0, n - 2)
        };
        assert(flushed(acc, cur) =~= comps.subrange(0, n - 1));
        assert(p.subrange(at + 1, at + 1 + comps[n - 1].len()) =~= comps[n - 1]) by {
            assert forall|j: int| 0 <= j < comps[n - 1].len() implies p[at + 1 + j]
                == #[trigger] comps[n - 1][j] by {
                assert(p[at + 1 + j] == p.subrange(0, now.len() as int)[at + 1 + j]);
            }
        }
        assert(comps[n - 1].subrange(0, 0) =~= Seq::empty());
        lemma_parts_run(p, at + 1, comps[n - 1], 0, comps.subrange(0, n - 1));
    }
}

proof fn lemma_slashed_prefix(comps: Seq<Seq<char>>, n: int)
    requires
        0 <= n <= comps.len(),
    ensures
        slashed(comps).len() >= slashed(comps.subrange(0, n)).len(),
        slashed(comps).subrange(0, slashed(comps.subrange(0, n)).len() as int) == slashed(
            comps.subrange(0, n),
        ),
    decreases comps.len(),
{
    if n == comps.len() {
        assert(comps.subrange(0, n) =~= comps);
        assert(slashed(comps).subrange(0, slashed(comps).len() as int) =~= slashed(comps));
    } else {
        let less = comps.drop_last();
        lemma_slashed_prefix(less, n);
        assert(less.subrange(0, n) =~= comps.subrange(0, n));
        let k = slashed(comps.subrange(0, n)).len() as int;
        assert(slashed(comps).subrange(0, k) =~= slashed(less).subrange(0, k));
    }
}

/// A path put together from components comes apart into the same components.
pub proof fn lemma_parts_round_trip(comps: Seq<Seq<char>>)
    requires
        unslashed(comps),
    ensures
        parts(slashed(comps)) == comps,
{
    let n = comps.len() as int;
    if n == 0 {
        assert(comps =~= Seq::empty());
    } else {
        lemma_parts_of_slashed(comps, n);
        assert(comps.subrange(0, n) =~= comps);
        assert(comps.subrange(0, n - 1).push(comps[n - 1]) =~= comps);
    }
}

/// A path put together from names comes apart into the same names, so normalizing a path that
/// is normal already changes nothing, and two different places never have one path.
pub proof fn law_path_round_trip(comps: Seq<Seq<char>>, base: Seq<char>)
    requires
        clean(comps),
    ensures
        parts(path_of(comps)) == comps,
        normal(base, path_of(comps)) == comps,
{
    let none = Seq::<Seq<char>>::empty();
    reveal_strlit("/");
    if comps.len() == 0 {
        assert(comps =~= none);
        assert("/"@[0] == '/');
        assert(parts_from("/"@, 1, Seq::empty(), none) == none);
        assert(parts("/"@) == none);
    } else {
        lemma_parts_round_trip(comps);
        lemma_slashed_prefix(comps, 1);
        let first = comps.subrange(0, 1);
        assert(first.drop_last() =~= none);
        assert(slashed(first) == slashed(none).push('/') + first.last());
        assert(slashed(comps)[0] == slashed(comps).subrange(0, slashed(first).len() as int)[0]);
    }
    lemma_walking_names(none, comps);
    assert(none + comps =~= comps);
}

} // verus!
