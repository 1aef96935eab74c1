//! What holds of the filesystems the library has.
use crate::errno::Errno;
use crate::kernel::path::{lemma_parts_round_trip, lemma_parts_unslashed, parts, slashed, unslashed};
use crate::text::{in_order, lemma_order_exists, strictly_sorted};
use crate::vfs::{DirEntryView, EmptyVfs, FileAnswer, FileCall, Vfs, VfsAnswer, VfsCall};
use crate::vfs::host::host_parts;
use crate::vfs::memory::{
    child_name, child_names, file_keys, has_name, key_of, lemma_listed_concat, lemma_listed_in,
    lemma_listed_moved, lemma_listed_pruned, lemma_moved_from, lemma_named, lemma_parent_within,
    lemma_with_dirs_keeps_all, lemma_with_dirs_wf, lemma_within_tail, listed, listing_of, moved,
    node_at, overwritten, read_at, same_file, stands_in, tail, with_dirs, within, MemFile, MemModel,
    NodeModel,
};
use crate::vfs::simple::{simple_answer, NoStorage, Storage};
use vstd::prelude::*;
use vstd::utf8::encode_utf8;

verus! {

proof fn lemma_made_wf(m: MemModel, path: Seq<char>)
    requires
        m.wf(),
        has_name(path),
    ensures
        (MemModel { nodes: with_dirs(m.nodes, parts(path).drop_last(), 0), ..m }).wf(),
{
    let comps = parts(path).drop_last();
    lemma_parts_unslashed(path);
    assert(comps.subrange(0, 0) =~= Seq::empty());
    assert(slashed(comps.subrange(0, 0)) =~= Seq::empty());
    lemma_with_dirs_wf(m, comps, 0);
}

/// A file that is listed has its bytes.
pub proof fn lemma_file_has_bytes(m: MemModel, key: Seq<char>, ino: usize)
    requires
        m.wf(),
        node_at(m.nodes, key) == Some(NodeModel::File(ino)),
    ensures
        ino < m.files.len(),
{
    lemma_listed_in(m.nodes, key);
    let i = choose|i: int|
        0 <= i < m.nodes.len() && #[trigger] m.nodes[i] == (key, NodeModel::File(ino));
    assert(m.placed(m.nodes[i]));
}

/// Two places are different files.
proof fn lemma_files_differ(m: MemModel, a: Seq<char>, b: Seq<char>, x: usize, y: usize)
    requires
        m.wf(),
        a != b,
        node_at(m.nodes, a) == Some(NodeModel::File(x)),
        node_at(m.nodes, b) == Some(NodeModel::File(y)),
    ensures
        x != y,
{
    lemma_listed_in(m.nodes, a);
    lemma_listed_in(m.nodes, b);
    let i = choose|i: int|
        0 <= i < m.nodes.len() && #[trigger] m.nodes[i] == (a, NodeModel::File(x));
    let j = choose|j: int|
        0 <= j < m.nodes.len() && #[trigger] m.nodes[j] == (b, NodeModel::File(y));
    assert(i != j);
    if i < j {
        assert(!same_file(m.nodes[i].1, m.nodes[j].1));
    } else {
        assert(!same_file(m.nodes[j].1, m.nodes[i].1));
    }
}

/// What was written to a path is what is read from it.
pub proof fn law_what_was_written_is_read(m: MemModel, path: Seq<char>, data: Seq<u8>)
    requires
        m.wf(),
        m.written(path, data).1 is Ok,
    ensures
        m.written(path, data).0.contents(path) == Ok::<Seq<u8>, Errno>(data),
{
    lemma_named(path);
    lemma_made_wf(m, path);
    let made = MemModel { nodes: with_dirs(m.nodes, parts(path).drop_last(), 0), ..m };
    let key = key_of(path);
    match node_at(made.nodes, key) {
        Some(NodeModel::File(ino)) => {
            lemma_file_has_bytes(made, key, ino);
        },
        Some(_) => {},
        None => {
            let after = made.new_file(key, data);
            assert(after.nodes.drop_last() =~= made.nodes);
            assert(after.nodes.last().0 == key);
        },
    }
}

/// Writing one file leaves every other file as it was.
pub proof fn law_writing_leaves_the_other_files(
    m: MemModel,
    path: Seq<char>,
    data: Seq<u8>,
    other: Seq<char>,
)
    requires
        m.wf(),
        key_of(other) != key_of(path),
        m.contents(other) is Ok,
    ensures
        m.written(path, data).0.contents(other) == m.contents(other),
{
    if has_name(path) {
        lemma_named(path);
        lemma_made_wf(m, path);
        let comps = parts(path).drop_last();
        let made = MemModel { nodes: with_dirs(m.nodes, comps, 0), ..m };
        let key = key_of(path);
        let q = key_of(other);
        lemma_with_dirs_keeps_all(m.nodes, comps, 0);
        assert(node_at(m.nodes, q) is Some);
        let ino = node_at(m.nodes, q)->Some_0->File_0;
        lemma_file_has_bytes(made, q, ino);
        match node_at(made.nodes, key) {
            Some(NodeModel::File(own)) => {
                lemma_files_differ(made, key, q, own, ino);
                lemma_file_has_bytes(made, key, own);
            },
            Some(_) => {},
            None => {
                let after = made.new_file(key, data);
                assert(after.nodes.drop_last() =~= made.nodes);
            },
        }
    }
}

/// A renamed file has the contents it had, under its new path, and the old path is gone.
pub proof fn law_renaming_moves_the_contents(m: MemModel, from: Seq<char>, to: Seq<char>)
    requires
        m.wf(),
        m.renamed(from, to).1 is Ok,
        m.contents(from) is Ok,
        key_of(from) != key_of(to),
    ensures
        m.renamed(from, to).0.contents(to) == m.contents(from),
        m.renamed(from, to).0.contents(from) == Err::<Seq<u8>, Errno>(Errno::NOENT),
{
    lemma_named(from);
    lemma_named(to);
    let a = key_of(from);
    let b = key_of(to);
    let rest = m.without(a);
    let kept = rest.without(b);
    let went = moved(m.nodes, a, b);
    let none = Seq::<char>::empty();
    assert(a + none =~= a);
    assert(b + none =~= b);
    lemma_listed_moved(m.nodes, a, b, none);
    lemma_listed_concat(kept.nodes, went, b);
    lemma_listed_concat(kept.nodes, went, a);
    lemma_listed_pruned(m.nodes, a, a);
    lemma_listed_pruned(rest.nodes, b, a);
    // The directory that `to` stands in is still there once `from` is out, so `to` is not
    // below `from`; and `from` is a file, so nothing is.
    lemma_listed_in(went, a);
    if listed(went, a) is Some {
        let i = choose|i: int| 0 <= i < went.len() && #[trigger] went[i] == (a, listed(went, a)->0);
        let j = lemma_moved_from(m.nodes, a, b, i);
        let k = m.nodes[j].0;
        lemma_within_tail(a, k);
        lemma_nothing_below_a_file(m, a, j);
        assert(k == a);
        assert(tail(a, a) =~= none);
        assert(b + tail(a, k) =~= b);
        assert(false);
    }
}

/// Nothing lies below a file.
proof fn lemma_nothing_below_a_file(m: MemModel, key: Seq<char>, j: int)
    requires
        m.wf(),
        node_at(m.nodes, key) matches Some(NodeModel::File(_)),
        0 <= j < m.nodes.len(),
        within(key, m.nodes[j].0),
    ensures
        m.nodes[j].0 == key,
    decreases m.nodes[j].0.len(),
{
    let e = m.nodes[j];
    if e.0 != key {
        assert(m.placed(e));
        let (p, n) = choose|p: Seq<char>, n: Seq<char>|
            #![trigger stands_in(e.0, p, n)]
            stands_in(e.0, p, n) && node_at(m.nodes, p) == Some(NodeModel::Dir);
        lemma_parent_within(key, e.0, p, n);
        assert(p != key);
        assert(p.len() > 0) by {
            if p.len() == 0 {
                assert(key.len() == 0);
            }
        }
        lemma_listed_in(m.nodes, p);
        let i = choose|i: int|
            0 <= i < m.nodes.len() && #[trigger] m.nodes[i] == (p, NodeModel::Dir);
        assert(p.len() < e.0.len());
        lemma_nothing_below_a_file(m, key, i);
    }
}

/// A path that was unlinked leads nowhere.
pub proof fn law_what_was_unlinked_is_gone(m: MemModel, path: Seq<char>)
    requires
        m.unlinked(path).1 is Ok,
    ensures
        m.unlinked(path).0.contents(path) == Err::<Seq<u8>, Errno>(Errno::NOENT),
        m.unlinked(path).0.stat(path, false) is Err,
{
    lemma_named(path);
    lemma_listed_pruned(m.nodes, key_of(path), key_of(path));
}

/// A symlink says what it was made to say.
pub proof fn law_a_link_reads_back(m: MemModel, link: Seq<char>, target: Seq<char>)
    requires
        m.added(link, NodeModel::Link(target)).1 is Ok,
    ensures
        m.added(link, NodeModel::Link(target)).0.link_target(link) == Ok::<Seq<char>, Errno>(
            target,
        ),
{
    lemma_named(link);
    let after = m.nodes.push((key_of(link), NodeModel::Link(target)));
    assert(after.drop_last() =~= m.nodes);
}

/// Bytes written through a handle are the bytes at that place, and every other byte that was
/// there is as it was.
pub proof fn law_a_write_is_read_back(m: MemModel, file: MemFile, bytes: Seq<u8>)
    requires
        m.file_answer(file, FileCall::Write { data: bytes }).2 is Count,
    ensures
        ({
            let after = m.file_answer(file, FileCall::Write { data: bytes }).0.data_of(file);
            let before = m.data_of(file);
            let start = if file.append {
                before.len() as int
            } else {
                file.pos as int
            };
            &&& read_at(after, start, bytes.len() as int) == bytes
            &&& forall|i: int|
                0 <= i < before.len() && !(start <= i < start + bytes.len()) ==> #[trigger] after[i]
                    == before[i]
        }),
{
    let before = m.data_of(file);
    let start = if file.append {
        before.len() as int
    } else {
        file.pos as int
    };
    let after = overwritten(before, start, bytes);
    assert(m.file_answer(file, FileCall::Write { data: bytes }).0.data_of(file) == after);
    if bytes.len() == 0 {
        assert(read_at(after, start, 0) =~= bytes);
    } else {
        assert(read_at(after, start, bytes.len() as int) =~= bytes);
    }
}

/// The filesystem in memory never asks to be called again.
pub proof fn law_memory_never_asks_to_wait(m: MemModel, call: VfsCall)
    ensures
        m.answer(call).1 != VfsAnswer::<MemFile>::Fail(Errno::AGAIN),
{
}

/// Nor does an open file of it.
pub proof fn law_a_memory_file_never_asks_to_wait(m: MemModel, file: MemFile, call: FileCall)
    ensures
        m.file_answer(file, call).2 != FileAnswer::Fail(Errno::AGAIN),
{
}

proof fn lemma_child_names(nodes: Seq<(Seq<char>, NodeModel)>, key: Seq<char>)
    ensures
        child_names(nodes, key).finite(),
        forall|name: Seq<char>| #[trigger]
            child_names(nodes, key).contains(name) <==> exists|i: int|
                0 <= i < nodes.len() && child_name(key, (#[trigger] nodes[i]).0) == Some(name),
    decreases nodes.len(),
{
    if nodes.len() > 0 {
        let less = nodes.drop_last();
        lemma_child_names(less, key);
        assert forall|name: Seq<char>| #[trigger]
            child_names(nodes, key).contains(name) <==> exists|i: int|
                0 <= i < nodes.len() && child_name(key, (#[trigger] nodes[i]).0) == Some(name) by {
            if child_names(nodes, key).contains(name) {
                if child_name(key, nodes.last().0) == Some(name) {
                    assert(child_name(key, nodes[nodes.len() - 1].0) == Some(name));
                } else {
                    assert(child_names(less, key).contains(name));
                    let i = choose|i: int|
                        0 <= i < less.len() && child_name(key, (#[trigger] less[i]).0) == Some(
                            name,
                        );
                    assert(nodes[i] == less[i]);
                }
            }
            if exists|i: int|
                0 <= i < nodes.len() && child_name(key, (#[trigger] nodes[i]).0) == Some(name) {
                let i = choose|i: int|
                    0 <= i < nodes.len() && child_name(key, (#[trigger] nodes[i]).0) == Some(name);
                if i < less.len() {
                    assert(less[i] == nodes[i]);
                    assert(child_names(less, key).contains(name));
                }
            }
        }
    }
}

/// A directory's listing is in order, each name once, and holds exactly what stands in it.
pub proof fn law_a_listing_is_sorted_and_complete(
    nodes: Seq<(Seq<char>, NodeModel)>,
    key: Seq<char>,
)
    ensures
        ({
            let names = listing_of(nodes, key).map_values(
                |e: DirEntryView| e.name,
            );
            &&& strictly_sorted(names)
            &&& forall|name: Seq<char>| #[trigger]
                names.contains(name) <==> exists|i: int|
                    0 <= i < nodes.len() && child_name(key, (#[trigger] nodes[i]).0) == Some(name)
        }),
{
    let set = child_names(nodes, key);
    lemma_child_names(nodes, key);
    lemma_order_exists(set);
    let names = listing_of(nodes, key).map_values(|e: DirEntryView| e.name);
    assert(names =~= in_order(set));
    assert forall|name: Seq<char>| #[trigger] names.contains(name) <==> set.contains(name) by {
        assert(in_order(set).to_set().contains(name) <==> in_order(set).contains(name));
    }
}

proof fn lemma_file_keys(nodes: Seq<(Seq<char>, NodeModel)>, key: Seq<char>)
    ensures
        file_keys(nodes).finite(),
        file_keys(nodes).contains(key) <==> exists|i: int|
            0 <= i < nodes.len() && (#[trigger] nodes[i]).0 == key && !(nodes[i].1 is Dir),
    decreases nodes.len(),
{
    if nodes.len() > 0 {
        let less = nodes.drop_last();
        lemma_file_keys(less, key);
        if exists|i: int|
            0 <= i < less.len() && (#[trigger] less[i]).0 == key && !(less[i].1 is Dir) {
            let i = choose|i: int|
                0 <= i < less.len() && (#[trigger] less[i]).0 == key && !(less[i].1 is Dir);
            assert(nodes[i].0 == key && !(nodes[i].1 is Dir));
        }
        if exists|i: int|
            0 <= i < nodes.len() && (#[trigger] nodes[i]).0 == key && !(nodes[i].1 is Dir) {
            let i = choose|i: int|
                0 <= i < nodes.len() && (#[trigger] nodes[i]).0 == key && !(nodes[i].1 is Dir);
            if i < less.len() {
                assert(less[i].0 == key);
            }
        }
        if nodes.last().0 == key {
            assert(nodes[nodes.len() - 1].0 == key);
        }
    }
}

/// What stands somewhere stands at a normalized path.
proof fn lemma_key_is_normal(m: MemModel, key: Seq<char>) -> (comps: Seq<Seq<char>>)
    requires
        m.wf(),
        node_at(m.nodes, key) is Some,
    ensures
        unslashed(comps),
        key == slashed(comps),
        key_of(key) == key,
    decreases key.len(),
{
    if key.len() == 0 {
        let none = Seq::<Seq<char>>::empty();
        assert(slashed(none) =~= key);
        lemma_parts_round_trip(none);
        none
    } else {
        lemma_listed_in(m.nodes, key);
        let i = choose|i: int| 0 <= i < m.nodes.len() && (#[trigger] m.nodes[i]).0 == key;
        assert(m.placed(m.nodes[i]));
        let (parent, name) = choose|parent: Seq<char>, name: Seq<char>|
            #![trigger stands_in(key, parent, name)]
            stands_in(key, parent, name) && node_at(m.nodes, parent) == Some(NodeModel::Dir);
        let up = lemma_key_is_normal(m, parent);
        let comps = up.push(name);
        assert(comps.drop_last() =~= up);
        assert forall|j: int| 0 <= j < comps.len() implies (#[trigger] comps[j]).len() > 0
            && !comps[j].contains('/') by {
            if j < up.len() {
                assert(comps[j] == up[j]);
            }
        }
        lemma_parts_round_trip(comps);
        comps
    }
}

/// A snapshot is in order, each path once. A path is in it with some bytes exactly where it is
/// normalized and reading it gives these bytes, or where it is a link to them; nothing changes.
pub proof fn law_a_snapshot_holds_the_files(m: MemModel, path: Seq<char>, data: Seq<u8>)
    requires
        m.wf(),
    ensures
        strictly_sorted(m.snapshot().map_values(|p: (Seq<char>, Seq<u8>)| p.0)),
        m.snapshot().contains((path, data)) <==> {
            &&& path == key_of(path)
            &&& m.contents(path) == Ok::<Seq<u8>, Errno>(data) || (node_at(m.nodes, path) matches Some(
                NodeModel::Link(target),
            ) && data == encode_utf8(target))
        },
{
    let set = file_keys(m.nodes);
    let snap = m.snapshot();
    lemma_file_keys(m.nodes, path);
    lemma_order_exists(set);
    assert(snap.map_values(|p: (Seq<char>, Seq<u8>)| p.0) =~= in_order(set));
    assert(in_order(set).to_set().contains(path) <==> in_order(set).contains(path));
    lemma_listed_in(m.nodes, path);
    if set.contains(path) {
        let i = choose|i: int|
            0 <= i < m.nodes.len() && (#[trigger] m.nodes[i]).0 == path && !(m.nodes[i].1 is Dir);
        assert(m.placed(m.nodes[i]));
        assert(path.len() > 0);
        lemma_listed_there(m.nodes, path, i);
        let j = choose|j: int|
            0 <= j < m.nodes.len() && #[trigger] m.nodes[j] == (
                path,
                listed(m.nodes, path)->0,
            );
        assert(i == j) by {
            if i < j {
                assert(m.nodes[i].0 != m.nodes[j].0);
            } else if j < i {
                assert(m.nodes[j].0 != m.nodes[i].0);
            }
        }
        let comps = lemma_key_is_normal(m, path);
        let at = choose|at: int| 0 <= at < in_order(set).len() && in_order(set)[at] == path;
        assert(snap[at] == (path, m.bytes_at(path)));
    }
    if snap.contains((path, data)) {
        let at = choose|at: int| 0 <= at < snap.len() && snap[at] == (path, data);
        assert(in_order(set)[at] == path);
        assert(in_order(set).contains(path));
        assert(set.contains(path));
    }
    if node_at(m.nodes, path) matches Some(node) && !(node is Dir) {
        let i = choose|i: int|
            0 <= i < m.nodes.len() && #[trigger] m.nodes[i] == (path, listed(m.nodes, path)->0);
        assert(m.nodes[i].0 == path && !(m.nodes[i].1 is Dir));
        assert(set.contains(path));
    }
}

/// What is in the list is listed.
proof fn lemma_listed_there(nodes: Seq<(Seq<char>, NodeModel)>, key: Seq<char>, i: int)
    requires
        0 <= i < nodes.len(),
        nodes[i].0 == key,
    ensures
        listed(nodes, key) is Some,
    decreases nodes.len(),
{
    if nodes.last().0 != key {
        assert(nodes.drop_last()[i].0 == key);
        lemma_listed_there(nodes.drop_last(), key, i);
    }
}

// ---------------------------------------------------------------------------------------------
// filesystems of three methods

/// An empty filesystem answers what its three methods and the defaults make of them.
pub proof fn law_an_empty_filesystem_is_a_simple_one(call: VfsCall)
    ensures
        simple_answer::<NoStorage>((), call) == <EmptyVfs as Vfs>::answer((), call),
{
}

/// A filesystem of three methods changes only by them: where it is neither opened, described nor
/// listed it is as it was, and where it has to change something else it says so.
pub proof fn law_the_defaults_are_read_only<T: Storage>(s: T::State, call: VfsCall)
    requires
        !(call is Open || call is Stat || call is Readdir || call is Truncate),
    ensures
        simple_answer::<T>(s, call).0 == s,
        call is SetMode <==> !(simple_answer::<T>(s, call).1 is Fail),
{
}

// ---------------------------------------------------------------------------------------------
// directories of the host

/// Every component a host filesystem joins is a plain name, and none of them goes up: no path
/// leads out of the directory it exposes.
pub proof fn law_host_paths_stay_inside(path: Seq<char>)
    ensures
        host_parts(path) matches Ok(names) ==> forall|i: int|
            0 <= i < names.len() ==> (#[trigger] names[i]).len() > 0 && names[i] != ".."@
                && names[i] != "."@ && !names[i].contains('/') && !names[i].contains('\0'),
{
    lemma_parts_unslashed(path);
}

} // verus!
