//! What a guest can make the kernel ask of a mounted filesystem.
//!
//! Whatever a guest does, a filesystem is asked only about absolute, normalized paths of places
//! that belong to its mount, and a read-only one is never asked to change anything.
use crate::kernel::mounts::{best_of, called, file_called, owner, program_at, MountView, ProgramId};
use crate::kernel::namespace::{
    link_owner, probed, redirected, resolved, resolved_from, settled, special, NodeView, Probed,
    WhoView, MAX_LINKS,
};
use crate::kernel::path::{
    begins, clean, is_normal_path, law_path_round_trip, lemma_normal_is_clean,
    lemma_parts_unslashed, lemma_walked_is_clean, normal, parts, path_of, unslashed, walked,
};
use crate::vfs::{FileCall, Vfs, VfsAnswer, VfsCall, VfsFile};
use vstd::prelude::*;

verus! {

/// One question put to a filesystem: about a path, or about an open file.
#[verifier::ext_equal]
pub enum Ask<H> {
    Path(VfsCall),
    File(H, FileCall),
}

/// Whether a call on a path could change the filesystem.
pub open spec fn changes(call: VfsCall) -> bool {
    match call {
        VfsCall::Open { opts, .. } => opts.write || opts.create || opts.create_new || opts.truncate,
        VfsCall::Stat { .. } => false,
        VfsCall::Readdir { .. } => false,
        VfsCall::Readlink { .. } => false,
        _ => true,
    }
}

/// Whether a call on an open file could change it.
pub open spec fn changes_file(call: FileCall) -> bool {
    call is Write || call is SetLen
}

/// Where the mounts are: the components of each mount point.
pub open spec fn points<S>(ms: Seq<MountView<S>>) -> Seq<Seq<Seq<char>>> {
    ms.map_values(|m: MountView<S>| m.comps())
}

/// Which of the first `n` mount points a place belongs to: the longest that is the beginning of
/// it, and of two at one place the later.
pub open spec fn nearest(points: Seq<Seq<Seq<char>>>, comps: Seq<Seq<char>>, n: int) -> Option<int>
    decreases n,
{
    if n <= 0 {
        None
    } else {
        let earlier = nearest(points, comps, n - 1);
        if begins(points[n - 1], comps) && match earlier {
            Some(i) => points[n - 1].len() >= points[i].len(),
            None => true,
        } {
            Some(n - 1)
        } else {
            earlier
        }
    }
}

/// Where one filesystem is mounted among others, and how.
#[verifier::ext_equal]
pub struct Seat {
    pub points: Seq<Seq<Seq<char>>>,
    pub index: int,
    pub read_only: bool,
}

/// The seat of the `i`th mount.
pub open spec fn seat_of<S>(ms: Seq<MountView<S>>, i: int) -> Seat {
    Seat { points: points(ms), index: i, read_only: ms[i].read_only }
}

/// Whether a path is one that a filesystem may be given: absolute and normalized, with no `.`, no
/// `..`, no empty component and no slash at the end, and relative to the mount point, of a place
/// that belongs to this mount and to no longer one.
pub open spec fn own_path(points: Seq<Seq<Seq<char>>>, i: int, path: Seq<char>) -> bool {
    &&& is_normal_path(path)
    &&& nearest(points, points[i] + parts(path), points.len() as int) == Some(i)
}

/// Whether every path a call names is one of the filesystem's own. A symlink's target is only
/// text.
pub open spec fn names_own(points: Seq<Seq<Seq<char>>>, i: int, call: VfsCall) -> bool {
    match call {
        VfsCall::Open { path, .. } => own_path(points, i, path),
        VfsCall::Stat { path, .. } => own_path(points, i, path),
        VfsCall::Readdir { path } => own_path(points, i, path),
        VfsCall::Mkdir { path, .. } => own_path(points, i, path),
        VfsCall::Unlink { path } => own_path(points, i, path),
        VfsCall::Rmdir { path } => own_path(points, i, path),
        VfsCall::Rename { from, to } => own_path(points, i, from) && own_path(points, i, to),
        VfsCall::Symlink { link, .. } => own_path(points, i, link),
        VfsCall::Readlink { path } => own_path(points, i, path),
        VfsCall::Truncate { path, .. } => own_path(points, i, path),
        VfsCall::SetMode { path, .. } => own_path(points, i, path),
    }
}

/// Whether a filesystem may be asked this, given where it is mounted.
pub open spec fn may_ask<H>(seat: Seat, ask: Ask<H>) -> bool {
    match ask {
        Ask::Path(call) => names_own(seat.points, seat.index, call) && (seat.read_only ==> !changes(
            call,
        )),
        Ask::File(_, call) => seat.read_only ==> !changes_file(call),
    }
}

/// A filesystem after one question.
pub open spec fn asked<V: Vfs>(
    s: <V as VfsFile>::State,
    ask: Ask<<V as VfsFile>::Handle>,
) -> <V as VfsFile>::State {
    match ask {
        Ask::Path(call) => V::answer(s, call).0,
        Ask::File(file, call) => V::file_answer(s, file, call).0,
    }
}

/// A filesystem after a series of questions.
pub open spec fn asked_all<V: Vfs>(
    s: <V as VfsFile>::State,
    asks: Seq<Ask<<V as VfsFile>::Handle>>,
) -> <V as VfsFile>::State
    decreases asks.len(),
{
    if asks.len() == 0 {
        s
    } else {
        asked::<V>(asked_all::<V>(s, asks.drop_last()), asks.last())
    }
}

/// Whether a filesystem may be asked all of this.
pub open spec fn may_ask_all<H>(seat: Seat, asks: Seq<Ask<H>>) -> bool {
    forall|i: int| 0 <= i < asks.len() ==> may_ask(seat, #[trigger] asks[i])
}

/// Whether questions that may be asked lead from one state of a filesystem to another.
pub open spec fn leads<V: Vfs>(
    seat: Seat,
    s: <V as VfsFile>::State,
    t: <V as VfsFile>::State,
) -> bool {
    exists|asks: Seq<Ask<<V as VfsFile>::Handle>>|
        may_ask_all(seat, asks) && #[trigger] asked_all::<V>(s, asks) == t
}

/// Whether one mount stands where it stood, and was asked only what it may be asked.
pub open spec fn kept_at<V: Vfs>(
    before: Seq<MountView<<V as VfsFile>::State>>,
    after: Seq<MountView<<V as VfsFile>::State>>,
    i: int,
) -> bool {
    &&& after[i].at == before[i].at
    &&& after[i].read_only == before[i].read_only
    &&& leads::<V>(seat_of(before, i), before[i].state, after[i].state)
}

/// Whether the mounts are where they were, and each was asked only what it may be asked.
pub open spec fn respected<V: Vfs>(
    before: Seq<MountView<<V as VfsFile>::State>>,
    after: Seq<MountView<<V as VfsFile>::State>>,
) -> bool {
    &&& after.len() == before.len()
    &&& points(after) == points(before)
    &&& forall|i: int| 0 <= i < before.len() ==> #[trigger] kept_at::<V>(before, after, i)
}

// ---------------------------------------------------------------------------------------------
// putting steps together

proof fn lemma_asked_all_split<V: Vfs>(
    s: <V as VfsFile>::State,
    a: Seq<Ask<<V as VfsFile>::Handle>>,
    b: Seq<Ask<<V as VfsFile>::Handle>>,
)
    ensures
        asked_all::<V>(s, a + b) == asked_all::<V>(asked_all::<V>(s, a), b),
    decreases b.len(),
{
    if b.len() == 0 {
        assert(a + b =~= a);
    } else {
        lemma_asked_all_split::<V>(s, a, b.drop_last());
        assert((a + b).drop_last() =~= a + b.drop_last());
        assert((a + b).last() == b.last());
    }
}

proof fn lemma_leads_nowhere<V: Vfs>(seat: Seat, s: <V as VfsFile>::State)
    ensures
        leads::<V>(seat, s, s),
{
    let none = Seq::<Ask<<V as VfsFile>::Handle>>::empty();
    assert(may_ask_all(seat, none));
    assert(asked_all::<V>(s, none) == s);
}

proof fn lemma_leads_once<V: Vfs>(
    seat: Seat,
    s: <V as VfsFile>::State,
    ask: Ask<<V as VfsFile>::Handle>,
)
    requires
        may_ask(seat, ask),
    ensures
        leads::<V>(seat, s, asked::<V>(s, ask)),
{
    let asks = Seq::<Ask<<V as VfsFile>::Handle>>::empty().push(ask);
    assert(asks.drop_last() =~= Seq::empty());
    assert(asks.last() == ask);
    assert(asked_all::<V>(s, asks.drop_last()) == s);
    assert(asked_all::<V>(s, asks) == asked::<V>(s, ask));
    assert(may_ask_all(seat, asks));
}

proof fn lemma_leads_on<V: Vfs>(
    seat: Seat,
    s: <V as VfsFile>::State,
    t: <V as VfsFile>::State,
    u: <V as VfsFile>::State,
)
    requires
        leads::<V>(seat, s, t),
        leads::<V>(seat, t, u),
    ensures
        leads::<V>(seat, s, u),
{
    let a = choose|asks: Seq<Ask<<V as VfsFile>::Handle>>|
        may_ask_all(seat, asks) && #[trigger] asked_all::<V>(s, asks) == t;
    let b = choose|asks: Seq<Ask<<V as VfsFile>::Handle>>|
        may_ask_all(seat, asks) && #[trigger] asked_all::<V>(t, asks) == u;
    lemma_asked_all_split::<V>(s, a, b);
    assert(may_ask_all(seat, a + b));
    assert(asked_all::<V>(s, a + b) == u);
}

/// Nothing asked respects the mounts.
pub proof fn lemma_respected_same<V: Vfs>(fs: Seq<MountView<<V as VfsFile>::State>>)
    ensures
        respected::<V>(fs, fs),
{
    assert forall|i: int| 0 <= i < fs.len() implies #[trigger] kept_at::<V>(fs, fs, i) by {
        lemma_leads_nowhere::<V>(seat_of(fs, i), fs[i].state);
    }
}

/// One thing after another respects the mounts if both do.
pub proof fn lemma_respected_then<V: Vfs>(
    a: Seq<MountView<<V as VfsFile>::State>>,
    b: Seq<MountView<<V as VfsFile>::State>>,
    c: Seq<MountView<<V as VfsFile>::State>>,
)
    requires
        respected::<V>(a, b),
        respected::<V>(b, c),
    ensures
        respected::<V>(a, c),
{
    assert forall|i: int| 0 <= i < a.len() implies #[trigger] kept_at::<V>(a, c, i) by {
        assert(kept_at::<V>(a, b, i));
        assert(kept_at::<V>(b, c, i));
        assert(seat_of(b, i) == seat_of(a, i));
        lemma_leads_on::<V>(seat_of(a, i), a[i].state, b[i].state, c[i].state);
    }
}

/// A call on a path that may be made respects the mounts.
pub proof fn lemma_respected_call<V: Vfs>(
    fs: Seq<MountView<<V as VfsFile>::State>>,
    mount: int,
    call: VfsCall,
)
    requires
        0 <= mount < fs.len() ==> names_own(points(fs), mount, call),
        0 <= mount < fs.len() && fs[mount].read_only ==> !changes(call),
    ensures
        respected::<V>(fs, called::<V>(fs, mount, call).0),
{
    let after = called::<V>(fs, mount, call).0;
    assert(points(after) =~= points(fs));
    assert forall|i: int| 0 <= i < fs.len() implies #[trigger] kept_at::<V>(fs, after, i) by {
        if i == mount {
            lemma_leads_once::<V>(seat_of(fs, i), fs[i].state, Ask::Path(call));
        } else {
            lemma_leads_nowhere::<V>(seat_of(fs, i), fs[i].state);
        }
    }
}

/// A call on an open file that may be made respects the mounts.
pub proof fn lemma_respected_file_call<V: Vfs>(
    fs: Seq<MountView<<V as VfsFile>::State>>,
    mount: int,
    file: <V as VfsFile>::Handle,
    call: FileCall,
)
    requires
        0 <= mount < fs.len() && fs[mount].read_only ==> !changes_file(call),
    ensures
        respected::<V>(fs, file_called::<V>(fs, mount, file, call).0),
{
    let after = file_called::<V>(fs, mount, file, call).0;
    assert(points(after) =~= points(fs));
    assert forall|i: int| 0 <= i < fs.len() implies #[trigger] kept_at::<V>(fs, after, i) by {
        if i == mount {
            lemma_leads_once::<V>(seat_of(fs, i), fs[i].state, Ask::File(file, call));
        } else {
            lemma_leads_nowhere::<V>(seat_of(fs, i), fs[i].state);
        }
    }
}

// ---------------------------------------------------------------------------------------------
// paths

proof fn lemma_owner<S>(ms: Seq<MountView<S>>, comps: Seq<Seq<char>>, n: int)
    requires
        n <= ms.len(),
    ensures
        best_of(ms, comps, n) matches Some(i) ==> 0 <= i < n && ms[i].covers(comps),
    decreases n,
{
    if n > 0 {
        lemma_owner(ms, comps, n - 1);
    }
}

proof fn lemma_nearest<S>(ms: Seq<MountView<S>>, comps: Seq<Seq<char>>, n: int)
    requires
        0 <= n <= ms.len(),
    ensures
        nearest(points(ms), comps, n) == best_of(ms, comps, n),
    decreases n,
{
    if n > 0 {
        lemma_nearest(ms, comps, n - 1);
        lemma_owner(ms, comps, n - 1);
    }
}

/// The path by which a mount knows a place that belongs to it is one it may be given.
proof fn lemma_rel_is_own<S>(ms: Seq<MountView<S>>, i: int, comps: Seq<Seq<char>>)
    requires
        clean(comps),
        owner(ms, comps) == Some(i),
    ensures
        0 <= i < ms.len(),
        ms[i].covers(comps),
        own_path(points(ms), i, ms[i].rel(comps)),
{
    lemma_owner(ms, comps, ms.len() as int);
    lemma_nearest(ms, comps, ms.len() as int);
    let tail = comps.subrange(ms[i].comps().len() as int, comps.len() as int);
    assert(clean(tail));
    assert(ms[i].rel(comps) == path_of(tail));
    law_path_round_trip(tail, "/"@);
    assert(points(ms)[i] + tail =~= comps);
}

proof fn lemma_redirected_is_clean(comps: Seq<Seq<char>>, k: int, target: Seq<char>)
    requires
        1 <= k <= comps.len(),
        clean(comps),
    ensures
        clean(redirected(comps, k, target)),
{
    lemma_parts_unslashed(target);
    let rest = comps.subrange(k, comps.len() as int);
    assert(unslashed(rest));
    let none = Seq::<Seq<char>>::empty();
    let front = comps.subrange(0, k - 1);
    assert(clean(none));
    assert(clean(front));
    lemma_walked_is_clean(none, parts(target));
    lemma_walked_is_clean(front, parts(target));
    lemma_walked_is_clean(walked(none, parts(target)), rest);
    lemma_walked_is_clean(walked(front, parts(target)), rest);
}

proof fn lemma_probed<V: Vfs>(
    programs: Seq<(Seq<char>, ProgramId)>,
    ms: Seq<MountView<<V as VfsFile>::State>>,
    who: WhoView,
    comps: Seq<Seq<char>>,
    k: int,
    follow: bool,
)
    requires
        1 <= k,
        clean(comps),
    ensures
        ({
            let (after, found) = probed::<V>(programs, ms, who, comps, k, follow);
            &&& respected::<V>(ms, after)
            &&& found matches Probed::Elsewhere(there) ==> clean(there)
        }),
    decreases comps.len() - k + 1,
{
    lemma_respected_same::<V>(ms);
    if !(k > comps.len() || (k == comps.len() && !follow)) {
        let place = comps.subrange(0, k);
        assert(clean(place));
        if special(place, who.pid) is Exe {
            lemma_redirected_is_clean(comps, k, who.exe);
        } else if special(place, who.pid) is Cwd {
            lemma_redirected_is_clean(comps, k, who.cwd);
        } else {
            match link_owner::<V>(programs, ms, place, who.pid) {
                None => {
                    lemma_probed::<V>(programs, ms, who, comps, k + 1, follow);
                },
                Some(i) => {
                    lemma_owner(ms, place, ms.len() as int);
                    lemma_rel_is_own(ms, i, place);
                    let rel = ms[i].rel(place);
                    let look = VfsCall::Stat { path: rel, follow: false };
                    let (next, answer) = called::<V>(ms, i, look);
                    lemma_respected_call::<V>(ms, i, look);
                    if answer matches VfsAnswer::Stat(st) && st.file_type is Symlink {
                        let read = VfsCall::Readlink { path: rel };
                        let (after, link) = called::<V>(next, i, read);
                        lemma_respected_call::<V>(next, i, read);
                        lemma_respected_then::<V>(ms, next, after);
                        if let VfsAnswer::Target(t) = link {
                            lemma_redirected_is_clean(comps, k, t);
                        }
                    } else {
                        lemma_probed::<V>(programs, next, who, comps, k + 1, follow);
                        let after = probed::<V>(programs, next, who, comps, k + 1, follow).0;
                        lemma_respected_then::<V>(ms, next, after);
                    }
                },
            }
        }
    }
}

/// Whether a path that led to a mount led to a place inside it: one that belongs to the mount,
/// whose mount point is the longest that is the beginning of the place, that no program has, and
/// that the kernel does not provide itself. The filesystem knows the place by a normalized path
/// of its own.
pub open spec fn inside<S>(
    programs: Seq<(Seq<char>, ProgramId)>,
    ms: Seq<MountView<S>>,
    pid: i32,
    node: NodeView,
) -> bool {
    node matches NodeView::Mounted { mount, rel, guest } ==> {
        &&& mount < ms.len()
        &&& own_path(points(ms), mount as int, rel)
        &&& program_at(programs, guest) is None
        &&& exists|comps: Seq<Seq<char>>| #[trigger]
            ms[mount as int].covers(comps) && {
                &&& clean(comps)
                &&& owner(ms, comps) == Some(mount as int)
                &&& guest == path_of(comps)
                &&& rel == ms[mount as int].rel(comps)
                &&& (special(comps, pid) is Nothing || special(comps, pid) is Dir)
            }
    }
}

proof fn lemma_settled<V: Vfs>(
    programs: Seq<(Seq<char>, ProgramId)>,
    ms: Seq<MountView<<V as VfsFile>::State>>,
    who: WhoView,
    comps: Seq<Seq<char>>,
)
    requires
        clean(comps),
        ms.len() <= usize::MAX,
    ensures
        ({
            let (after, node) = settled::<V>(programs, ms, who, comps);
            &&& respected::<V>(ms, after)
            &&& node matches Ok(node) ==> inside(programs, ms, who.pid, node)
        }),
{
    lemma_respected_same::<V>(ms);
    lemma_owner(ms, comps, ms.len() as int);
    if let Some(i) = owner(ms, comps) {
        lemma_rel_is_own(ms, i, comps);
        lemma_respected_call::<V>(
            ms,
            i,
            VfsCall::Stat { path: ms[i].rel(comps), follow: true },
        );
        let (after, node) = settled::<V>(programs, ms, who, comps);
        if let Ok(NodeView::Mounted { mount, rel, guest }) = node {
            assert(mount == i);
            assert(ms[mount as int].covers(comps));
            assert(program_at(programs, guest) is None);
            assert(special(comps, who.pid) is Nothing || special(comps, who.pid) is Dir);
            assert(inside(programs, ms, who.pid, node->Ok_0));
        }
    }
}

/// A place belongs to the same mount whatever the mounts were asked.
proof fn lemma_owner_kept<V: Vfs>(
    a: Seq<MountView<<V as VfsFile>::State>>,
    b: Seq<MountView<<V as VfsFile>::State>>,
    comps: Seq<Seq<char>>,
    n: int,
)
    requires
        respected::<V>(a, b),
        0 <= n <= a.len(),
    ensures
        best_of(a, comps, n) == best_of(b, comps, n),
    decreases n,
{
    if n > 0 {
        lemma_owner_kept::<V>(a, b, comps, n - 1);
        assert(kept_at::<V>(a, b, n - 1));
        lemma_owner(a, comps, n - 1);
        if let Some(i) = best_of(a, comps, n - 1) {
            assert(kept_at::<V>(a, b, i));
        }
    }
}

proof fn lemma_inside_kept<V: Vfs>(
    programs: Seq<(Seq<char>, ProgramId)>,
    a: Seq<MountView<<V as VfsFile>::State>>,
    b: Seq<MountView<<V as VfsFile>::State>>,
    pid: i32,
    node: NodeView,
)
    requires
        respected::<V>(a, b),
        inside(programs, b, pid, node),
    ensures
        inside(programs, a, pid, node),
{
    if let NodeView::Mounted { mount, rel, guest } = node {
        let m = mount as int;
        assert(kept_at::<V>(a, b, m));
        let comps = choose|comps: Seq<Seq<char>>| #[trigger]
            b[m].covers(comps) && {
                &&& clean(comps)
                &&& owner(b, comps) == Some(m)
                &&& guest == path_of(comps)
                &&& rel == b[m].rel(comps)
                &&& (special(comps, pid) is Nothing || special(comps, pid) is Dir)
            };
        assert(a[m].covers(comps));
        lemma_owner_kept::<V>(a, b, comps, a.len() as int);
    }
}

proof fn lemma_resolved_from<V: Vfs>(
    programs: Seq<(Seq<char>, ProgramId)>,
    ms: Seq<MountView<<V as VfsFile>::State>>,
    who: WhoView,
    comps: Seq<Seq<char>>,
    follow: bool,
    depth: int,
)
    requires
        clean(comps),
        ms.len() <= usize::MAX,
    ensures
        ({
            let (after, node) = resolved_from::<V>(programs, ms, who, comps, follow, depth);
            &&& respected::<V>(ms, after)
            &&& node matches Ok(node) ==> inside(programs, ms, who.pid, node)
        }),
    decreases MAX_LINKS - depth,
{
    lemma_probed::<V>(programs, ms, who, comps, 1, follow);
    let (next, found) = probed::<V>(programs, ms, who, comps, 1, follow);
    match found {
        Probed::Fail(e) => {},
        Probed::Clear => {
            lemma_settled::<V>(programs, next, who, comps);
            let (after, node) = settled::<V>(programs, next, who, comps);
            lemma_respected_then::<V>(ms, next, after);
            if let Ok(node) = node {
                lemma_inside_kept::<V>(programs, ms, next, who.pid, node);
            }
        },
        Probed::Elsewhere(there) => {
            if depth < MAX_LINKS {
                lemma_resolved_from::<V>(programs, next, who, there, follow, depth + 1);
                let (after, node) = resolved_from::<V>(
                    programs,
                    next,
                    who,
                    there,
                    follow,
                    depth + 1,
                );
                lemma_respected_then::<V>(ms, next, after);
                if let Ok(node) = node {
                    lemma_inside_kept::<V>(programs, ms, next, who.pid, node);
                }
            }
        },
    }
}

/// A guest cannot climb out of its mounts. Whatever path it names, from whatever directory and
/// through whatever links, what it reaches on a mount belongs to that mount, and finding that
/// out asks the filesystems nothing but what they may be asked.
pub proof fn law_paths_stay_inside_their_mounts<V: Vfs>(
    programs: Seq<(Seq<char>, ProgramId)>,
    ms: Seq<MountView<<V as VfsFile>::State>>,
    who: WhoView,
    base: Seq<char>,
    path: Seq<char>,
    follow: bool,
)
    requires
        ms.len() <= usize::MAX,
    ensures
        ({
            let (after, node) = resolved::<V>(programs, ms, who, base, path, follow);
            &&& respected::<V>(ms, after)
            &&& node matches Ok(node) ==> inside(programs, ms, who.pid, node)
        }),
{
    lemma_normal_is_clean(base, path);
    lemma_resolved_from::<V>(programs, ms, who, normal(base, path), follow, 0);
}

proof fn lemma_best_of<S>(ms: Seq<MountView<S>>, comps: Seq<Seq<char>>, n: int, j: int)
    requires
        0 <= j < n <= ms.len(),
        ms[j].covers(comps),
    ensures
        best_of(ms, comps, n) matches Some(i) && ms[j].comps().len() <= ms[i].comps().len(),
    decreases n,
{
    if j < n - 1 {
        lemma_best_of(ms, comps, n - 1, j);
    }
}

/// The longest mount point wins: a place belongs to a mount that covers it, if there is one,
/// and no mount that covers it has a longer mount point.
pub proof fn law_the_longest_mount_wins<S>(ms: Seq<MountView<S>>, comps: Seq<Seq<char>>, j: int)
    requires
        0 <= j < ms.len(),
        ms[j].covers(comps),
    ensures
        owner(ms, comps) matches Some(i) && 0 <= i < ms.len() && ms[i].covers(comps)
            && ms[j].comps().len() <= ms[i].comps().len(),
{
    lemma_owner(ms, comps, ms.len() as int);
    lemma_best_of(ms, comps, ms.len() as int, j);
}

} // verus!
