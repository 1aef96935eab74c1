//! An in-memory [`Vfs`]: the default for `/tmp`, and what the tests run on.
use super::{
    done_answer, entries_of, plain_stat, stat_answer, DirEntry, DirEntryView, FileAnswer, FileCall,
    FileType, OpenOptions, SeekFrom, Stat, Vfs, VfsAnswer, VfsCall, VfsFile,
};
use crate::errno::{Errno, VfsResult};
use crate::kernel::mem::{copy_bytes, zeros};
use crate::kernel::path::{
    is_absolute, lemma_parts_unslashed, parts, slashed, split, starts_at_root, unslashed,
};
use crate::text::{
    chars_of, in_order, insert_sorted, lemma_in_order, strictly_sorted, text_of, texts,
};
use vstd::prelude::*;
use vstd::string::*;
use vstd::utf8::encode_utf8;

verus! {

/// What stands at a path.
enum Node {
    Dir,
    /// The index of the file's bytes.
    File(usize),
    /// The target of a symlink.
    Link(String),
}

/// The content of a node.
#[verifier::ext_equal]
pub enum NodeModel {
    Dir,
    File(usize),
    Link(Seq<char>),
}

/// One path and what stands there. The root is not listed: it is always a directory.
struct Entry {
    key: Vec<char>,
    node: Node,
}

/// A filesystem held in memory.
///
/// Fully synchronous: it never returns [`Errno::AGAIN`]. A path leads to the same place however
/// many slashes separate its components.
pub struct MemVfs {
    entries: Vec<Entry>,
    files: Vec<Vec<u8>>,
}

/// What a [`MemVfs`] holds: every path but the root with what stands there, in the order the
/// paths came to be, and the bytes of every file that was ever made. A path is written with a
/// slash before each component; the root is the empty one.
#[verifier::ext_equal]
pub struct MemModel {
    pub nodes: Seq<(Seq<char>, NodeModel)>,
    pub files: Seq<Seq<u8>>,
}

/// An open file of a [`MemVfs`].
#[derive(Clone, Copy, PartialEq, Eq, Debug, Structural)]
pub struct MemFile {
    pub ino: usize,
    pub pos: u64,
    pub append: bool,
    pub writable: bool,
}

spec fn node_model(n: Node) -> NodeModel {
    match n {
        Node::Dir => NodeModel::Dir,
        Node::File(i) => NodeModel::File(i),
        Node::Link(t) => NodeModel::Link(t@),
    }
}

spec fn entry_model(e: Entry) -> (Seq<char>, NodeModel) {
    (e.key@, node_model(e.node))
}

// ---------------------------------------------------------------------------------------------
// the model

/// The key of the place a path leads to.
pub open spec fn key_of(path: Seq<char>) -> Seq<char> {
    slashed(parts(path))
}

/// Whether a path names something in a directory, rather than ending in a slash.
pub open spec fn has_name(path: Seq<char>) -> bool {
    parts(path).len() > 0 && path.last() != '/'
}

/// The key of the directory a path's last component is in.
pub open spec fn parent_of(path: Seq<char>) -> Seq<char> {
    if has_name(path) {
        slashed(parts(path).drop_last())
    } else {
        key_of(path)
    }
}

/// The node listed last under a key.
pub open spec fn listed(nodes: Seq<(Seq<char>, NodeModel)>, key: Seq<char>) -> Option<NodeModel>
    decreases nodes.len(),
{
    if nodes.len() == 0 {
        None
    } else if nodes.last().0 == key {
        Some(nodes.last().1)
    } else {
        listed(nodes.drop_last(), key)
    }
}

/// What stands under a key.
pub open spec fn node_at(nodes: Seq<(Seq<char>, NodeModel)>, key: Seq<char>) -> Option<NodeModel> {
    if key.len() == 0 {
        Some(NodeModel::Dir)
    } else {
        listed(nodes, key)
    }
}

/// Whether a place is a directory, and if not, what to say.
pub open spec fn dir_check(nodes: Seq<(Seq<char>, NodeModel)>, key: Seq<char>) -> VfsResult<()> {
    match node_at(nodes, key) {
        Some(NodeModel::Dir) => Ok(()),
        Some(_) => Err(Errno::NOTDIR),
        None => Err(Errno::NOENT),
    }
}

/// Whether `k` lies below `key`.
pub open spec fn below(key: Seq<char>, k: Seq<char>) -> bool {
    key.len() < k.len() && k.subrange(0, key.len() as int) == key && k[key.len() as int] == '/'
}

/// Whether `k` is `key` or lies below it.
pub open spec fn within(key: Seq<char>, k: Seq<char>) -> bool {
    k == key || below(key, k)
}

/// Everything but `key` and what lies below it.
pub open spec fn pruned(nodes: Seq<(Seq<char>, NodeModel)>, key: Seq<char>) -> Seq<
    (Seq<char>, NodeModel),
>
    decreases nodes.len(),
{
    if nodes.len() == 0 {
        nodes
    } else {
        let rest = pruned(nodes.drop_last(), key);
        if within(key, nodes.last().0) {
            rest
        } else {
            rest.push(nodes.last())
        }
    }
}

/// `key` and what lies below it, moved to `to`.
pub open spec fn moved(
    nodes: Seq<(Seq<char>, NodeModel)>,
    key: Seq<char>,
    to: Seq<char>,
) -> Seq<(Seq<char>, NodeModel)>
    decreases nodes.len(),
{
    if nodes.len() == 0 {
        nodes
    } else {
        let rest = moved(nodes.drop_last(), key, to);
        let (k, node) = nodes.last();
        if within(key, k) {
            rest.push((to + k.subrange(key.len() as int, k.len() as int), node))
        } else {
            rest
        }
    }
}

/// The name `k` has in the directory `key`, if it stands there.
pub open spec fn child_name(key: Seq<char>, k: Seq<char>) -> Option<Seq<char>> {
    if below(key, k) {
        let name = k.subrange(key.len() as int + 1, k.len() as int);
        if name.contains('/') {
            None
        } else {
            Some(name)
        }
    } else {
        None
    }
}

/// The names in a directory.
pub open spec fn child_names(nodes: Seq<(Seq<char>, NodeModel)>, key: Seq<char>) -> Set<Seq<char>>
    decreases nodes.len(),
{
    if nodes.len() == 0 {
        Set::empty()
    } else {
        let rest = child_names(nodes.drop_last(), key);
        match child_name(key, nodes.last().0) {
            Some(name) => rest.insert(name),
            None => rest,
        }
    }
}

/// The keys of everything that is no directory.
pub open spec fn file_keys(nodes: Seq<(Seq<char>, NodeModel)>) -> Set<Seq<char>>
    decreases nodes.len(),
{
    if nodes.len() == 0 {
        Set::empty()
    } else {
        let rest = file_keys(nodes.drop_last());
        match nodes.last().1 {
            NodeModel::Dir => rest,
            _ => rest.insert(nodes.last().0),
        }
    }
}

/// Paths with contents.
pub open spec fn pairs_of(v: Seq<(String, Vec<u8>)>) -> Seq<(Seq<char>, Seq<u8>)> {
    v.map_values(|p: (String, Vec<u8>)| (p.0@, p.1@))
}

/// The type of what stands at a node.
pub open spec fn type_of(node: Option<NodeModel>) -> FileType {
    match node {
        Some(NodeModel::File(_)) => FileType::File,
        Some(NodeModel::Link(_)) => FileType::Symlink,
        _ => FileType::Dir,
    }
}

/// The listing of a directory, by name.
pub open spec fn listing_of(nodes: Seq<(Seq<char>, NodeModel)>, key: Seq<char>) -> Seq<
    DirEntryView,
> {
    in_order(child_names(nodes, key)).map_values(
        |name: Seq<char>|
            DirEntryView {
                name,
                file_type: Some(type_of(node_at(nodes, key.push('/') + name))),
                ino: 0,
            },
    )
}

/// The nodes with every missing directory along `comps` made, from the `i`th on. Nothing is
/// made below something that is no directory.
pub open spec fn with_dirs(
    nodes: Seq<(Seq<char>, NodeModel)>,
    comps: Seq<Seq<char>>,
    i: int,
) -> Seq<(Seq<char>, NodeModel)>
    decreases comps.len() - i,
{
    if i >= comps.len() {
        nodes
    } else {
        let key = slashed(comps.subrange(0, i + 1));
        match node_at(nodes, key) {
            Some(NodeModel::Dir) => with_dirs(nodes, comps, i + 1),
            Some(_) => nodes,
            None => with_dirs(nodes.push((key, NodeModel::Dir)), comps, i + 1),
        }
    }
}

/// The first place along `comps`, from the `i`th on, where something stands that is no
/// directory, missing directories being made on the way.
pub open spec fn obstacle(
    nodes: Seq<(Seq<char>, NodeModel)>,
    comps: Seq<Seq<char>>,
    i: int,
) -> Option<int>
    decreases comps.len() - i,
{
    if i >= comps.len() {
        None
    } else {
        let key = slashed(comps.subrange(0, i + 1));
        match node_at(nodes, key) {
            Some(NodeModel::Dir) => obstacle(nodes, comps, i + 1),
            Some(_) => Some(i),
            None => obstacle(nodes.push((key, NodeModel::Dir)), comps, i + 1),
        }
    }
}

/// The metadata of what stands at a node.
pub open spec fn stat_of(files: Seq<Seq<u8>>, node: NodeModel) -> Stat {
    match node {
        NodeModel::Dir => plain_stat(FileType::Dir, 0),
        NodeModel::File(i) => plain_stat(FileType::File, files[i as int].len() as u64),
        NodeModel::Link(t) => plain_stat(FileType::Symlink, encode_utf8(t).len() as u64),
    }
}

/// Where a link at `path` points.
pub open spec fn target_key(path: Seq<char>, target: Seq<char>) -> Seq<char> {
    if is_absolute(target) {
        key_of(target)
    } else {
        key_of(parent_of(path).push('/') + target)
    }
}

/// Whether two nodes are the same file.
pub open spec fn same_file(a: NodeModel, b: NodeModel) -> bool {
    a is File && a == b
}

/// Whether no two paths are the same file.
pub open spec fn files_apart(nodes: Seq<(Seq<char>, NodeModel)>) -> bool {
    forall|i: int, j: int|
        0 <= i < j < nodes.len() ==> !same_file(
            (#[trigger] nodes[i]).1,
            (#[trigger] nodes[j]).1,
        )
}

impl MemModel {
    /// Nothing but the root.
    pub open spec fn empty() -> MemModel {
        MemModel { nodes: Seq::empty(), files: Seq::empty() }
    }

    /// Every path is there once and stands in a directory, and every file has bytes of its own.
    pub open spec fn wf(self) -> bool {
        &&& self.files.len() <= usize::MAX
        &&& files_apart(self.nodes)
        &&& forall|i: int, j: int|
            0 <= i < j < self.nodes.len() ==> (#[trigger] self.nodes[i]).0 != (
            #[trigger] self.nodes[j]).0
        &&& forall|i: int| 0 <= i < self.nodes.len() ==> self.placed(#[trigger] self.nodes[i])
    }

    /// Whether an entry stands in a directory that is there, and its file too.
    pub open spec fn placed(self, e: (Seq<char>, NodeModel)) -> bool {
        &&& e.1 matches NodeModel::File(ino) ==> ino < self.files.len()
        &&& exists|parent: Seq<char>, name: Seq<char>|
            #![trigger stands_in(e.0, parent, name)]
            stands_in(e.0, parent, name) && node_at(self.nodes, parent) == Some(NodeModel::Dir)
    }

    /// With the directories along a path.
    pub open spec fn made_dirs(self, path: Seq<char>) -> MemModel {
        MemModel { nodes: with_dirs(self.nodes, parts(path), 0), ..self }
    }

    /// Whether the directories along a path can be made: a file or a link at its end is there
    /// already, and one on the way is no directory.
    pub open spec fn dirs_made(self, path: Seq<char>) -> VfsResult<()> {
        match obstacle(self.nodes, parts(path), 0) {
            None => Ok(()),
            Some(i) => if i + 1 == parts(path).len() {
                Err(Errno::EXIST)
            } else {
                Err(Errno::NOTDIR)
            },
        }
    }

    /// Whether a path and every directory above it is a directory.
    pub open spec fn is_dir_path(self, path: Seq<char>) -> bool {
        forall|i: int|
            0 <= i <= parts(path).len() ==> node_at(
                self.nodes,
                slashed(#[trigger] parts(path).subrange(0, i)),
            ) == Some(NodeModel::Dir)
    }

    /// With a fresh file at `key`.
    pub open spec fn new_file(self, key: Seq<char>, data: Seq<u8>) -> MemModel {
        MemModel {
            nodes: self.nodes.push((key, NodeModel::File(self.files.len() as usize))),
            files: self.files.push(data),
        }
    }

    /// With a file's bytes replaced.
    pub open spec fn with_data(self, ino: int, data: Seq<u8>) -> MemModel {
        MemModel { files: self.files.update(ino, data), ..self }
    }

    /// Replacing the contents of a path.
    pub open spec fn written(self, path: Seq<char>, data: Seq<u8>) -> (MemModel, VfsResult<()>) {
        if !has_name(path) {
            (self, Err(Errno::ISDIR))
        } else {
            let made = MemModel { nodes: with_dirs(self.nodes, parts(path).drop_last(), 0), ..self };
            match dir_check(made.nodes, parent_of(path)) {
                Err(e) => (made, Err(e)),
                Ok(()) => match node_at(made.nodes, key_of(path)) {
                    Some(NodeModel::File(ino)) => (made.with_data(ino as int, data), Ok(())),
                    Some(_) => (made, Err(Errno::ISDIR)),
                    None => (made.new_file(key_of(path), data), Ok(())),
                },
            }
        }
    }

    /// The contents of a path.
    pub open spec fn contents(self, path: Seq<char>) -> VfsResult<Seq<u8>> {
        match node_at(self.nodes, key_of(path)) {
            Some(NodeModel::File(ino)) => Ok(self.files[ino as int]),
            Some(NodeModel::Dir) => Err(Errno::ISDIR),
            _ => Err(Errno::NOENT),
        }
    }

    /// What is read at a place: a file's bytes or a link's target.
    pub open spec fn bytes_at(self, key: Seq<char>) -> Seq<u8> {
        match node_at(self.nodes, key) {
            Some(NodeModel::File(ino)) => self.files[ino as int],
            Some(NodeModel::Link(target)) => encode_utf8(target),
            _ => Seq::empty(),
        }
    }

    /// Every file and link with what is read there, by path.
    pub open spec fn snapshot(self) -> Seq<(Seq<char>, Seq<u8>)> {
        in_order(file_keys(self.nodes)).map_values(|key: Seq<char>| (key, self.bytes_at(key)))
    }

    /// Opening a path.
    pub open spec fn opened(self, path: Seq<char>, opts: OpenOptions) -> (
        MemModel,
        VfsAnswer<MemFile>,
    ) {
        if !has_name(path) {
            (self, VfsAnswer::Fail(Errno::ISDIR))
        } else {
            match node_at(self.nodes, key_of(path)) {
                Some(NodeModel::Dir) => (self, VfsAnswer::Fail(Errno::ISDIR)),
                Some(NodeModel::Link(_)) => (self, VfsAnswer::Fail(Errno::LOOP)),
                Some(NodeModel::File(ino)) => if opts.create_new {
                    (self, VfsAnswer::Fail(Errno::EXIST))
                } else {
                    let now = if opts.truncate && opts.write {
                        self.with_data(ino as int, Seq::empty())
                    } else {
                        self
                    };
                    (now, VfsAnswer::Opened(now.handle(ino, opts)))
                },
                None => if !opts.create && !opts.create_new {
                    (self, VfsAnswer::Fail(Errno::NOENT))
                } else {
                    match dir_check(self.nodes, parent_of(path)) {
                        Err(e) => (self, VfsAnswer::Fail(e)),
                        Ok(()) => {
                            let now = self.new_file(key_of(path), Seq::empty());
                            (
                                now,
                                VfsAnswer::Opened(now.handle(self.files.len() as usize, opts)),
                            )
                        },
                    }
                },
            }
        }
    }

    /// A fresh handle on a file.
    pub open spec fn handle(self, ino: usize, opts: OpenOptions) -> MemFile {
        MemFile {
            ino,
            pos: if opts.append {
                self.files[ino as int].len() as u64
            } else {
                0
            },
            append: opts.append,
            writable: opts.write || opts.append,
        }
    }

    /// Making something new at a path.
    pub open spec fn added(self, path: Seq<char>, node: NodeModel) -> (MemModel, VfsResult<()>) {
        if !has_name(path) || node_at(self.nodes, key_of(path)) is Some {
            (self, Err(Errno::EXIST))
        } else {
            match dir_check(self.nodes, parent_of(path)) {
                Err(e) => (self, Err(e)),
                Ok(()) => (
                    MemModel { nodes: self.nodes.push((key_of(path), node)), ..self },
                    Ok(()),
                ),
            }
        }
    }

    /// Without what stands under a key.
    pub open spec fn without(self, key: Seq<char>) -> MemModel {
        MemModel { nodes: pruned(self.nodes, key), ..self }
    }

    /// Removing a file or a link.
    pub open spec fn unlinked(self, path: Seq<char>) -> (MemModel, VfsResult<()>) {
        match dir_check(self.nodes, parent_of(path)) {
            Err(e) => (self, Err(e)),
            Ok(()) => if !has_name(path) {
                (self, Err(Errno::NOENT))
            } else {
                match node_at(self.nodes, key_of(path)) {
                    Some(NodeModel::Dir) => (self, Err(Errno::ISDIR)),
                    Some(_) => (self.without(key_of(path)), Ok(())),
                    None => (self, Err(Errno::NOENT)),
                }
            },
        }
    }

    /// Removing an empty directory.
    pub open spec fn rmdired(self, path: Seq<char>) -> (MemModel, VfsResult<()>) {
        match dir_check(self.nodes, parent_of(path)) {
            Err(e) => (self, Err(e)),
            Ok(()) => if !has_name(path) {
                (self, Err(Errno::NOENT))
            } else {
                match node_at(self.nodes, key_of(path)) {
                    Some(NodeModel::Dir) => if child_names(self.nodes, key_of(path)) == Set::<
                        Seq<char>,
                    >::empty() {
                        (self.without(key_of(path)), Ok(()))
                    } else {
                        (self, Err(Errno::NOTEMPTY))
                    },
                    Some(_) => (self, Err(Errno::NOTDIR)),
                    None => (self, Err(Errno::NOENT)),
                }
            },
        }
    }

    /// Moving something, with everything below it, and dropping what stood at the new place.
    pub open spec fn renamed(self, from: Seq<char>, to: Seq<char>) -> (MemModel, VfsResult<()>) {
        if !has_name(from) || !has_name(to) {
            (self, Err(Errno::INVAL))
        } else {
            match dir_check(self.nodes, parent_of(from)) {
                Err(e) => (self, Err(e)),
                Ok(()) => if node_at(self.nodes, key_of(from)) is None {
                    (self, Err(Errno::NOENT))
                } else {
                    let rest = self.without(key_of(from));
                    match dir_check(rest.nodes, parent_of(to)) {
                        Err(e) => (self, Err(e)),
                        Ok(()) => (
                            MemModel {
                                nodes: rest.without(key_of(to)).nodes + moved(
                                    self.nodes,
                                    key_of(from),
                                    key_of(to),
                                ),
                                ..self
                            },
                            Ok(()),
                        ),
                    }
                },
            }
        }
    }

    /// The metadata of a path.
    pub open spec fn stat(self, path: Seq<char>, follow: bool) -> VfsResult<Stat> {
        match node_at(self.nodes, key_of(path)) {
            None => Err(Errno::NOENT),
            Some(NodeModel::Link(target)) => if follow {
                match node_at(self.nodes, target_key(path, target)) {
                    Some(node) => Ok(stat_of(self.files, node)),
                    None => Err(Errno::NOENT),
                }
            } else {
                Ok(stat_of(self.files, NodeModel::Link(target)))
            },
            Some(node) => Ok(stat_of(self.files, node)),
        }
    }

    /// What stands behind a link.
    pub open spec fn link_target(self, path: Seq<char>) -> VfsResult<Seq<char>> {
        match node_at(self.nodes, key_of(path)) {
            Some(NodeModel::Link(target)) => Ok(target),
            Some(_) => Err(Errno::INVAL),
            None => Err(Errno::NOENT),
        }
    }

    /// Setting the length of a path: open it for writing, set the length.
    pub open spec fn truncated(self, path: Seq<char>, len: u64) -> (MemModel, VfsResult<()>) {
        let opts = OpenOptions { write: true, ..super::no_options() };
        match self.opened(path, opts) {
            (now, VfsAnswer::Opened(file)) => {
                let (after, _, answer) = now.file_answer(file, FileCall::SetLen { len });
                (
                    after,
                    match answer {
                        FileAnswer::Fail(e) => Err(e),
                        _ => Ok(()),
                    },
                )
            },
            (now, VfsAnswer::Fail(e)) => (now, Err(e)),
            (now, _) => (now, Err(Errno::IO)),
        }
    }

    /// What a call on a path answers, and the filesystem afterwards.
    pub open spec fn answer(self, call: VfsCall) -> (MemModel, VfsAnswer<MemFile>) {
        match call {
            VfsCall::Open { path, opts } => self.opened(path, opts),
            VfsCall::Stat { path, follow } => (self, stat_answer(self.stat(path, follow))),
            VfsCall::Readdir { path } => match dir_check(self.nodes, key_of(path)) {
                Ok(()) => (self, VfsAnswer::Listing(listing_of(self.nodes, key_of(path)))),
                Err(e) => (self, VfsAnswer::Fail(e)),
            },
            VfsCall::Mkdir { path, .. } => {
                let (now, r) = self.added(path, NodeModel::Dir);
                (now, done_answer(r))
            },
            VfsCall::Unlink { path } => {
                let (now, r) = self.unlinked(path);
                (now, done_answer(r))
            },
            VfsCall::Rmdir { path } => {
                let (now, r) = self.rmdired(path);
                (now, done_answer(r))
            },
            VfsCall::Rename { from, to } => {
                let (now, r) = self.renamed(from, to);
                (now, done_answer(r))
            },
            VfsCall::Symlink { target, link } => {
                let (now, r) = self.added(link, NodeModel::Link(target));
                (now, done_answer(r))
            },
            VfsCall::Readlink { path } => match self.link_target(path) {
                Ok(target) => (self, VfsAnswer::Target(target)),
                Err(e) => (self, VfsAnswer::Fail(e)),
            },
            VfsCall::Truncate { path, len } => {
                let (now, r) = self.truncated(path, len);
                (now, done_answer(r))
            },
            VfsCall::SetMode { .. } => (self, VfsAnswer::Done),
        }
    }

    /// The bytes behind a handle.
    pub open spec fn data_of(self, file: MemFile) -> Seq<u8> {
        if file.ino < self.files.len() {
            self.files[file.ino as int]
        } else {
            Seq::empty()
        }
    }

    /// What a call on an open file answers, and the filesystem and the handle afterwards.
    pub open spec fn file_answer(self, file: MemFile, call: FileCall) -> (
        MemModel,
        MemFile,
        FileAnswer,
    ) {
        let data = self.data_of(file);
        if file.ino >= self.files.len() {
            (self, file, FileAnswer::Fail(Errno::BADF))
        } else {
            match call {
                FileCall::Read { max } => {
                    let got = read_at(data, file.pos as int, max as int);
                    (self, MemFile { pos: advanced(file.pos, got.len()), ..file }, FileAnswer::Data(got))
                },
                FileCall::Write { data: bytes } => if !file.writable {
                    (self, file, FileAnswer::Fail(Errno::BADF))
                } else {
                    let start = if file.append {
                        data.len() as int
                    } else {
                        file.pos as int
                    };
                    let end = start + bytes.len();
                    if end > usize::MAX || end > u64::MAX {
                        (self, file, FileAnswer::Fail(Errno::FBIG))
                    } else {
                        (
                            self.with_data(file.ino as int, overwritten(data, start, bytes)),
                            MemFile { pos: end as u64, ..file },
                            FileAnswer::Count(bytes.len() as usize),
                        )
                    }
                },
                FileCall::Seek { from } => {
                    let target = seek_target(data.len() as int, file.pos as int, from);
                    if target < 0 {
                        (self, file, FileAnswer::Fail(Errno::INVAL))
                    } else {
                        (
                            self,
                            MemFile { pos: target as u64, ..file },
                            FileAnswer::Position(target as u64),
                        )
                    }
                },
                FileCall::Stat => (
                    self,
                    file,
                    FileAnswer::Stat(plain_stat(FileType::File, data.len() as u64)),
                ),
                FileCall::SetLen { len } => if !file.writable {
                    (self, file, FileAnswer::Fail(Errno::BADF))
                } else if len > usize::MAX {
                    (self, file, FileAnswer::Fail(Errno::FBIG))
                } else {
                    (
                        self.with_data(file.ino as int, resized(data, len as int)),
                        file,
                        FileAnswer::Done,
                    )
                },
                FileCall::Close => (self, file, FileAnswer::Done),
            }
        }
    }
}

/// Whether `key` is `name` in the directory `parent`.
pub open spec fn stands_in(key: Seq<char>, parent: Seq<char>, name: Seq<char>) -> bool {
    key == parent.push('/') + name && name.len() > 0 && !name.contains('/')
}

/// The bytes a read at `pos` gives.
pub open spec fn read_at(data: Seq<u8>, pos: int, max: int) -> Seq<u8> {
    let start = if pos < data.len() {
        pos
    } else {
        data.len() as int
    };
    let end = if start + max < data.len() {
        start + max
    } else {
        data.len() as int
    };
    data.subrange(start, end)
}

/// The position after `n` bytes more.
pub open spec fn advanced(pos: u64, n: nat) -> u64 {
    if pos + n > u64::MAX {
        u64::MAX
    } else {
        (pos + n) as u64
    }
}

/// The bytes at a new length, zero-filled where they grow.
pub open spec fn resized(data: Seq<u8>, len: int) -> Seq<u8> {
    if len <= data.len() {
        data.subrange(0, len)
    } else {
        data + zeros((len - data.len()) as nat)
    }
}

/// The bytes with `bytes` written at `start`, zero-filled up to there where they are shorter.
pub open spec fn overwritten(data: Seq<u8>, start: int, bytes: Seq<u8>) -> Seq<u8> {
    let end = start + bytes.len();
    let long = if end > data.len() {
        resized(data, end)
    } else {
        data
    };
    Seq::new(
        long.len(),
        |i: int|
            if start <= i < end {
                bytes[i - start]
            } else {
                long[i]
            },
    )
}

/// A number as the signed word of the same 64 bits.
pub open spec fn signed64(v: int) -> int {
    if v < 0x8000_0000_0000_0000 {
        v
    } else {
        v - 0x1_0000_0000_0000_0000
    }
}

/// A sum held within the range of a signed 64-bit word.
pub open spec fn held64(v: int) -> int {
    if v > i64::MAX {
        i64::MAX as int
    } else if v < i64::MIN {
        i64::MIN as int
    } else {
        v
    }
}

/// Where a seek leads; negative where it would lead before the beginning.
pub open spec fn seek_target(len: int, pos: int, from: SeekFrom) -> int {
    match from {
        SeekFrom::Start(p) => signed64(p as int),
        SeekFrom::End(d) => held64(signed64(len) + d),
        SeekFrom::Current(d) => held64(signed64(pos) + d),
    }
}

// ---------------------------------------------------------------------------------------------
// what the operations keep

/// What is listed is in the list.
pub proof fn lemma_listed_in(nodes: Seq<(Seq<char>, NodeModel)>, key: Seq<char>)
    ensures
        match listed(nodes, key) {
            Some(node) => exists|i: int|
                0 <= i < nodes.len() && #[trigger] nodes[i] == (key, node),
            None => forall|i: int| 0 <= i < nodes.len() ==> (#[trigger] nodes[i]).0 != key,
        },
    decreases nodes.len(),
{
    if nodes.len() > 0 {
        let less = nodes.drop_last();
        lemma_listed_in(less, key);
        if nodes.last().0 == key {
            assert(nodes[nodes.len() - 1] == (key, nodes.last().1));
        } else {
            match listed(less, key) {
                Some(node) => {
                    let i = choose|i: int| 0 <= i < less.len() && #[trigger] less[i] == (key, node);
                    assert(nodes[i] == (key, node));
                },
                None => {
                    assert forall|i: int| 0 <= i < nodes.len() implies (#[trigger] nodes[i]).0
                        != key by {
                        if i < less.len() {
                            assert(less[i] == nodes[i]);
                        }
                    }
                },
            }
        }
    }
}

/// Something new in a directory leaves every path there once and in a directory.
proof fn lemma_added_wf(m: MemModel, parent: Seq<char>, name: Seq<char>, node: NodeModel)
    requires
        m.wf(),
        name.len() > 0,
        !name.contains('/'),
        node_at(m.nodes, parent) == Some(NodeModel::Dir),
        node_at(m.nodes, parent.push('/') + name) is None,
        node matches NodeModel::File(ino) ==> ino < m.files.len(),
        forall|i: int| 0 <= i < m.nodes.len() ==> !same_file((#[trigger] m.nodes[i]).1, node),
    ensures
        (MemModel { nodes: m.nodes.push((parent.push('/') + name, node)), ..m }).wf(),
{
    let key = parent.push('/') + name;
    let t = MemModel { nodes: m.nodes.push((key, node)), ..m };
    lemma_listed_in(m.nodes, key);
    assert(t.nodes.drop_last() =~= m.nodes);
    assert(parent != key) by {
        assert(parent.len() < key.len());
    }
    assert forall|i: int| 0 <= i < t.nodes.len() implies t.placed(#[trigger] t.nodes[i]) by {
        if i == m.nodes.len() {
            assert(stands_in(t.nodes[i].0, parent, name));
            assert(node_at(t.nodes, parent) == node_at(m.nodes, parent));
        } else {
            let e = m.nodes[i];
            assert(m.placed(e));
            let (p, n) = choose|p: Seq<char>, n: Seq<char>|
                #![trigger stands_in(e.0, p, n)]
                stands_in(e.0, p, n) && node_at(m.nodes, p) == Some(NodeModel::Dir);
            assert(stands_in(t.nodes[i].0, p, n));
            assert(node_at(t.nodes, p) == node_at(m.nodes, p));
        }
    }
    assert forall|i: int, j: int| 0 <= i < j < t.nodes.len() implies (#[trigger] t.nodes[i]).0 != (
    #[trigger] t.nodes[j]).0 by {
        assert(t.nodes[i] == m.nodes[i]);
    }
    assert forall|i: int, j: int| 0 <= i < j < t.nodes.len() implies !same_file(
        (#[trigger] t.nodes[i]).1,
        (#[trigger] t.nodes[j]).1,
    ) by {
        assert(t.nodes[i] == m.nodes[i]);
    }
}

/// Other bytes, or more files, leave the paths as they were.
proof fn lemma_files_wf(m: MemModel, files: Seq<Seq<u8>>)
    requires
        m.wf(),
        m.files.len() <= files.len() <= usize::MAX,
    ensures
        (MemModel { files, ..m }).wf(),
{
    let t = MemModel { files, ..m };
    assert forall|i: int| 0 <= i < t.nodes.len() implies t.placed(#[trigger] t.nodes[i]) by {
        let e = m.nodes[i];
        assert(m.placed(e));
        let (p, n) = choose|p: Seq<char>, n: Seq<char>|
            #![trigger stands_in(e.0, p, n)]
            stands_in(e.0, p, n) && node_at(m.nodes, p) == Some(NodeModel::Dir);
        assert(stands_in(t.nodes[i].0, p, n));
    }
}

/// What is left once a place is taken out.
pub proof fn lemma_listed_pruned(nodes: Seq<(Seq<char>, NodeModel)>, key: Seq<char>, q: Seq<char>)
    ensures
        listed(pruned(nodes, key), q) == if within(key, q) {
            None
        } else {
            listed(nodes, q)
        },
    decreases nodes.len(),
{
    if nodes.len() > 0 {
        lemma_listed_pruned(nodes.drop_last(), key, q);
        let rest = pruned(nodes.drop_last(), key);
        if !within(key, nodes.last().0) {
            assert(rest.push(nodes.last()).drop_last() =~= rest);
        }
    }
}

/// Every entry that is left was there, in the same order.
proof fn lemma_pruned_from(nodes: Seq<(Seq<char>, NodeModel)>, key: Seq<char>, i: int) -> (j: int)
    requires
        0 <= i < pruned(nodes, key).len(),
    ensures
        0 <= j < nodes.len(),
        nodes[j] == pruned(nodes, key)[i],
        i <= j,
        !within(key, nodes[j].0),
    decreases nodes.len(),
{
    let rest = pruned(nodes.drop_last(), key);
    if i < rest.len() {
        let j = lemma_pruned_from(nodes.drop_last(), key, i);
        j
    } else {
        lemma_pruned_len(nodes.drop_last(), key);
        nodes.len() - 1
    }
}

proof fn lemma_pruned_len(nodes: Seq<(Seq<char>, NodeModel)>, key: Seq<char>)
    ensures
        pruned(nodes, key).len() <= nodes.len(),
    decreases nodes.len(),
{
    if nodes.len() > 0 {
        lemma_pruned_len(nodes.drop_last(), key);
    }
}

/// Leaving entries out keeps those that are left apart.
proof fn lemma_pruned_unique(m: MemModel, key: Seq<char>, a: int, b: int)
    requires
        m.wf(),
        0 <= a < b < pruned(m.nodes, key).len(),
    ensures
        pruned(m.nodes, key)[a].0 != pruned(m.nodes, key)[b].0,
{
    lemma_pruned_keys_apart(m.nodes, key, a, b);
}

spec fn keys_apart(nodes: Seq<(Seq<char>, NodeModel)>) -> bool {
    forall|i: int, j: int|
        0 <= i < j < nodes.len() ==> (#[trigger] nodes[i]).0 != (#[trigger] nodes[j]).0
}

proof fn lemma_pruned_keys_apart(
    nodes: Seq<(Seq<char>, NodeModel)>,
    key: Seq<char>,
    a: int,
    b: int,
)
    requires
        keys_apart(nodes),
        0 <= a < b < pruned(nodes, key).len(),
    ensures
        pruned(nodes, key)[a].0 != pruned(nodes, key)[b].0,
    decreases nodes.len(),
{
    let less = nodes.drop_last();
    let rest = pruned(less, key);
    assert(keys_apart(less));
    if b < rest.len() {
        lemma_pruned_keys_apart(less, key, a, b);
    } else {
        let j = lemma_pruned_from(less, key, a);
        assert(nodes[j] == less[j]);
    }
}

proof fn lemma_pruned_files_apart(
    nodes: Seq<(Seq<char>, NodeModel)>,
    key: Seq<char>,
    a: int,
    b: int,
)
    requires
        files_apart(nodes),
        0 <= a < b < pruned(nodes, key).len(),
    ensures
        !same_file(pruned(nodes, key)[a].1, pruned(nodes, key)[b].1),
    decreases nodes.len(),
{
    let less = nodes.drop_last();
    let rest = pruned(less, key);
    assert(files_apart(less));
    if b < rest.len() {
        lemma_pruned_files_apart(less, key, a, b);
    } else {
        let j = lemma_pruned_from(less, key, a);
        assert(nodes[j] == less[j]);
    }
}

/// What stands in a directory within a place is within that place too.
proof fn lemma_within_child(key: Seq<char>, k: Seq<char>, parent: Seq<char>, name: Seq<char>)
    requires
        stands_in(k, parent, name),
        within(key, parent),
    ensures
        below(key, k),
{
    assert(k.subrange(0, parent.len() as int) =~= parent);
    if parent != key {
        assert(k[key.len() as int] == parent[key.len() as int]);
    } else {
        assert(k[key.len() as int] == '/');
    }
    assert(k.subrange(0, key.len() as int) =~= parent.subrange(0, key.len() as int));
    assert(parent.subrange(0, parent.len() as int) =~= parent);
}

/// What lies below a place stands in a directory within it.
pub proof fn lemma_parent_within(key: Seq<char>, k: Seq<char>, parent: Seq<char>, name: Seq<char>)
    requires
        stands_in(k, parent, name),
        below(key, k),
    ensures
        within(key, parent),
{
    if parent.len() < key.len() {
        let i = key.len() - parent.len() - 1;
        assert(k[key.len() as int] == name[i]);
        assert(name.contains(name[i]));
    } else {
        assert(k.subrange(0, parent.len() as int) =~= parent);
        assert(parent.subrange(0, key.len() as int) =~= k.subrange(0, key.len() as int));
        if parent.len() == key.len() {
            assert(parent =~= key);
        } else {
            assert(parent[key.len() as int] == k[key.len() as int]);
        }
    }
}

/// Taking out a place with everything below it leaves every path in a directory.
proof fn lemma_pruned_wf(m: MemModel, key: Seq<char>)
    requires
        m.wf(),
        key.len() > 0,
    ensures
        m.without(key).wf(),
{
    let t = m.without(key);
    assert forall|i: int| 0 <= i < t.nodes.len() implies t.placed(#[trigger] t.nodes[i]) by {
        let j = lemma_pruned_from(m.nodes, key, i);
        let e = m.nodes[j];
        assert(m.placed(e));
        let (p, n) = choose|p: Seq<char>, n: Seq<char>|
            #![trigger stands_in(e.0, p, n)]
            stands_in(e.0, p, n) && node_at(m.nodes, p) == Some(NodeModel::Dir);
        assert(stands_in(t.nodes[i].0, p, n));
        if within(key, p) {
            lemma_within_child(key, e.0, p, n);
        }
        lemma_listed_pruned(m.nodes, key, p);
    }
    assert forall|i: int, j: int| 0 <= i < j < t.nodes.len() implies (#[trigger] t.nodes[i]).0 != (
    #[trigger] t.nodes[j]).0 by {
        lemma_pruned_unique(m, key, i, j);
    }
    assert forall|i: int, j: int| 0 <= i < j < t.nodes.len() implies !same_file(
        (#[trigger] t.nodes[i]).1,
        (#[trigger] t.nodes[j]).1,
    ) by {
        lemma_pruned_files_apart(m.nodes, key, i, j);
    }
}

/// The part of a key behind the place it lies in.
pub open spec fn tail(key: Seq<char>, k: Seq<char>) -> Seq<char> {
    k.subrange(key.len() as int, k.len() as int)
}

/// Every entry that was moved stood within the place that was moved.
pub proof fn lemma_moved_from(
    nodes: Seq<(Seq<char>, NodeModel)>,
    key: Seq<char>,
    to: Seq<char>,
    i: int,
) -> (j: int)
    requires
        0 <= i < moved(nodes, key, to).len(),
    ensures
        0 <= j < nodes.len(),
        within(key, nodes[j].0),
        moved(nodes, key, to)[i] == (to + tail(key, nodes[j].0), nodes[j].1),
    decreases nodes.len(),
{
    let rest = moved(nodes.drop_last(), key, to);
    if i < rest.len() {
        lemma_moved_from(nodes.drop_last(), key, to, i)
    } else {
        nodes.len() - 1
    }
}

/// A key within a place is the place and what lies behind it.
pub proof fn lemma_within_tail(key: Seq<char>, k: Seq<char>)
    requires
        within(key, k),
    ensures
        k == key + tail(key, k),
        tail(key, k).len() == 0 || tail(key, k)[0] == '/',
{
    if k != key {
        assert(k =~= k.subrange(0, key.len() as int) + tail(key, k));
    } else {
        assert(k =~= key + tail(key, k));
    }
}

/// What lies behind a place is within it.
pub proof fn lemma_tail_within(to: Seq<char>, rest: Seq<char>)
    requires
        rest.len() == 0 || rest[0] == '/',
    ensures
        within(to, to + rest),
        tail(to, to + rest) == rest,
{
    let k = to + rest;
    assert(tail(to, k) =~= rest);
    if rest.len() == 0 {
        assert(k =~= to);
    } else {
        assert(k.subrange(0, to.len() as int) =~= to);
        assert(k[to.len() as int] == rest[0]);
    }
}

proof fn lemma_moved_keys_apart(
    nodes: Seq<(Seq<char>, NodeModel)>,
    key: Seq<char>,
    to: Seq<char>,
    a: int,
    b: int,
)
    requires
        keys_apart(nodes),
        0 <= a < b < moved(nodes, key, to).len(),
    ensures
        moved(nodes, key, to)[a].0 != moved(nodes, key, to)[b].0,
    decreases nodes.len(),
{
    let less = nodes.drop_last();
    let rest = moved(less, key, to);
    assert(keys_apart(less));
    if b < rest.len() {
        lemma_moved_keys_apart(less, key, to, a, b);
    } else {
        let j = lemma_moved_from(less, key, to, a);
        let k = nodes[j].0;
        let l = nodes.last().0;
        assert(nodes[j] == less[j]);
        assert(nodes[nodes.len() - 1].0 == l);
        assert(k != l);
        lemma_within_tail(key, k);
        lemma_within_tail(key, l);
        if to + tail(key, k) == to + tail(key, l) {
            assert(tail(to, to + tail(key, k)) =~= tail(key, k));
            assert(tail(to, to + tail(key, l)) =~= tail(key, l));
        }
    }
}

proof fn lemma_moved_files_apart(
    nodes: Seq<(Seq<char>, NodeModel)>,
    key: Seq<char>,
    to: Seq<char>,
    a: int,
    b: int,
)
    requires
        files_apart(nodes),
        0 <= a < b < moved(nodes, key, to).len(),
    ensures
        !same_file(moved(nodes, key, to)[a].1, moved(nodes, key, to)[b].1),
    decreases nodes.len(),
{
    let less = nodes.drop_last();
    let rest = moved(less, key, to);
    assert(files_apart(less));
    if b < rest.len() {
        lemma_moved_files_apart(less, key, to, a, b);
    } else {
        let j = lemma_moved_from(less, key, to, a);
        assert(nodes[j] == less[j]);
    }
}

/// What stood at a place stands, after the move, at the same place below the new one.
pub proof fn lemma_listed_moved(
    nodes: Seq<(Seq<char>, NodeModel)>,
    key: Seq<char>,
    to: Seq<char>,
    rest: Seq<char>,
)
    requires
        rest.len() == 0 || rest[0] == '/',
    ensures
        listed(moved(nodes, key, to), to + rest) == listed(nodes, key + rest),
    decreases nodes.len(),
{
    if nodes.len() > 0 {
        let less = nodes.drop_last();
        let k = nodes.last().0;
        lemma_listed_moved(less, key, to, rest);
        lemma_tail_within(key, rest);
        if within(key, k) {
            let m = moved(less, key, to);
            let e = (to + tail(key, k), nodes.last().1);
            assert(m.push(e).drop_last() =~= m);
            lemma_within_tail(key, k);
            if k == key + rest {
                assert(tail(key, k) =~= rest);
            } else if to + tail(key, k) == to + rest {
                assert(tail(to, to + tail(key, k)) =~= tail(key, k));
                assert(tail(to, to + rest) =~= rest);
            }
        }
    }
}

/// The later of two lists comes first.
pub proof fn lemma_listed_concat(
    a: Seq<(Seq<char>, NodeModel)>,
    b: Seq<(Seq<char>, NodeModel)>,
    q: Seq<char>,
)
    ensures
        listed(a + b, q) == if listed(b, q) is Some {
            listed(b, q)
        } else {
            listed(a, q)
        },
    decreases b.len(),
{
    if b.len() == 0 {
        assert(a + b =~= a);
    } else {
        lemma_listed_concat(a, b.drop_last(), q);
        assert((a + b).drop_last() =~= a + b.drop_last());
    }
}

/// Moving a place with everything below it leaves every path there once and in a directory.
proof fn lemma_renamed_wf(m: MemModel, from: Seq<char>, parent: Seq<char>, name: Seq<char>)
    requires
        m.wf(),
        from.len() > 0,
        name.len() > 0,
        !name.contains('/'),
        node_at(m.without(from).nodes, parent) == Some(NodeModel::Dir),
    ensures
        ({
            let to = parent.push('/') + name;
            (MemModel {
                nodes: m.without(from).without(to).nodes + moved(m.nodes, from, to),
                ..m
            }).wf()
        }),
{
    let to = parent.push('/') + name;
    let a = m.without(from).without(to);
    let b = moved(m.nodes, from, to);
    let t = MemModel { nodes: a.nodes + b, ..m };
    lemma_pruned_wf(m, from);
    lemma_pruned_wf(m.without(from), to);
    assert(keys_apart(m.nodes));
    assert forall|q: Seq<char>| !within(to, q) implies #[trigger] listed(b, q) is None by {
        lemma_listed_in(b, q);
        if listed(b, q) is Some {
            let i = choose|i: int| 0 <= i < b.len() && #[trigger] b[i] == (q, listed(b, q)->0);
            let j = lemma_moved_from(m.nodes, from, to, i);
            lemma_within_tail(from, m.nodes[j].0);
            lemma_tail_within(to, tail(from, m.nodes[j].0));
        }
    }
    assert(!within(to, parent)) by {
        assert(parent.len() < to.len());
    }
    lemma_listed_pruned(m.without(from).nodes, to, parent);
    lemma_listed_concat(a.nodes, b, parent);
    assert(node_at(t.nodes, parent) == Some(NodeModel::Dir));
    assert forall|i: int| 0 <= i < t.nodes.len() implies t.placed(#[trigger] t.nodes[i]) by {
        if i < a.nodes.len() {
            let e = a.nodes[i];
            assert(t.nodes[i] == e);
            assert(a.placed(e));
            let (p, n) = choose|p: Seq<char>, n: Seq<char>|
                #![trigger stands_in(e.0, p, n)]
                stands_in(e.0, p, n) && node_at(a.nodes, p) == Some(NodeModel::Dir);
            assert(stands_in(t.nodes[i].0, p, n));
            if p.len() > 0 {
                lemma_listed_pruned(m.without(from).nodes, to, p);
                lemma_listed_concat(a.nodes, b, p);
            }
        } else {
            let x = i - a.nodes.len();
            assert(t.nodes[i] == b[x]);
            let j = lemma_moved_from(m.nodes, from, to, x);
            let e = m.nodes[j];
            assert(m.placed(e));
            lemma_within_tail(from, e.0);
            if e.0 == from {
                assert(tail(from, e.0) =~= Seq::empty());
                assert(to + tail(from, e.0) =~= to);
                assert(stands_in(t.nodes[i].0, parent, name));
            } else {
                let (p, n) = choose|p: Seq<char>, n: Seq<char>|
                    #![trigger stands_in(e.0, p, n)]
                    stands_in(e.0, p, n) && node_at(m.nodes, p) == Some(NodeModel::Dir);
                lemma_parent_within(from, e.0, p, n);
                lemma_within_tail(from, p);
                let q = to + tail(from, p);
                assert(to + tail(from, e.0) =~= q.push('/') + n);
                assert(stands_in(t.nodes[i].0, q, n));
                lemma_listed_moved(m.nodes, from, to, tail(from, p));
                lemma_listed_concat(a.nodes, b, q);
            }
        }
    }
    assert forall|i: int, j: int| 0 <= i < j < t.nodes.len() implies (#[trigger] t.nodes[i]).0 != (
    #[trigger] t.nodes[j]).0 by {
        if j < a.nodes.len() {
            assert(t.nodes[i] == a.nodes[i] && t.nodes[j] == a.nodes[j]);
        } else if i >= a.nodes.len() {
            lemma_moved_keys_apart(m.nodes, from, to, i - a.nodes.len(), j - a.nodes.len());
        } else {
            let x = j - a.nodes.len();
            assert(t.nodes[j] == b[x] && t.nodes[i] == a.nodes[i]);
            let y = lemma_pruned_from(m.without(from).nodes, to, i);
            let z = lemma_moved_from(m.nodes, from, to, x);
            lemma_within_tail(from, m.nodes[z].0);
            lemma_tail_within(to, tail(from, m.nodes[z].0));
        }
    }
    assert forall|i: int, j: int| 0 <= i < j < t.nodes.len() implies !same_file(
        (#[trigger] t.nodes[i]).1,
        (#[trigger] t.nodes[j]).1,
    ) by {
        if j < a.nodes.len() {
            assert(t.nodes[i] == a.nodes[i] && t.nodes[j] == a.nodes[j]);
        } else if i >= a.nodes.len() {
            lemma_moved_files_apart(m.nodes, from, to, i - a.nodes.len(), j - a.nodes.len());
        } else {
            let x = j - a.nodes.len();
            assert(t.nodes[j] == b[x] && t.nodes[i] == a.nodes[i]);
            let y = lemma_pruned_from(m.without(from).nodes, to, i);
            let w = lemma_pruned_from(m.nodes, from, y);
            let z = lemma_moved_from(m.nodes, from, to, x);
            assert(w != z);
            assert(m.nodes[w].1 == t.nodes[i].1 && m.nodes[z].1 == t.nodes[j].1);
        }
    }
}

/// The directories along a path are made one inside the other.
pub proof fn lemma_with_dirs_wf(m: MemModel, comps: Seq<Seq<char>>, i: int)
    requires
        m.wf(),
        unslashed(comps),
        0 <= i <= comps.len(),
        node_at(m.nodes, slashed(comps.subrange(0, i))) == Some(NodeModel::Dir),
    ensures
        (MemModel { nodes: with_dirs(m.nodes, comps, i), ..m }).wf(),
    decreases comps.len() - i,
{
    if i < comps.len() {
        let key = slashed(comps.subrange(0, i + 1));
        let parent = slashed(comps.subrange(0, i));
        assert(comps.subrange(0, i + 1).drop_last() =~= comps.subrange(0, i));
        assert(key == parent.push('/') + comps[i]);
        match node_at(m.nodes, key) {
            Some(NodeModel::Dir) => {
                lemma_with_dirs_wf(m, comps, i + 1);
            },
            Some(_) => {},
            None => {
                lemma_added_wf(m, parent, comps[i], NodeModel::Dir);
                let next = MemModel { nodes: m.nodes.push((key, NodeModel::Dir)), ..m };
                assert(next.nodes.drop_last() =~= m.nodes);
                lemma_with_dirs_wf(next, comps, i + 1);
            },
        }
    }
}

/// Making directories leaves alone what is there.
pub proof fn lemma_with_dirs_keeps_all(
    nodes: Seq<(Seq<char>, NodeModel)>,
    comps: Seq<Seq<char>>,
    i: int,
)
    requires
        0 <= i <= comps.len(),
    ensures
        forall|k: Seq<char>| #[trigger]
            node_at(nodes, k) is Some ==> node_at(with_dirs(nodes, comps, i), k) == node_at(nodes, k),
    decreases comps.len() - i,
{
    if i < comps.len() {
        let key = slashed(comps.subrange(0, i + 1));
        match node_at(nodes, key) {
            Some(NodeModel::Dir) => {
                lemma_with_dirs_keeps_all(nodes, comps, i + 1);
            },
            Some(_) => {},
            None => {
                let next = nodes.push((key, NodeModel::Dir));
                assert(next.drop_last() =~= nodes);
                lemma_with_dirs_keeps_all(next, comps, i + 1);
                assert forall|k: Seq<char>| #[trigger] node_at(nodes, k) is Some implies node_at(
                    with_dirs(nodes, comps, i),
                    k,
                ) == node_at(nodes, k) by {
                    assert(k != key);
                    assert(node_at(next, k) == node_at(nodes, k));
                }
            },
        }
    }
}

/// Where nothing is in the way, everything along the path is a directory afterwards.
proof fn lemma_dirs_made(m: MemModel, comps: Seq<Seq<char>>, i: int)
    requires
        0 <= i <= comps.len(),
        forall|j: int|
            0 <= j <= i ==> node_at(m.nodes, slashed(#[trigger] comps.subrange(0, j))) == Some(
                NodeModel::Dir,
            ),
        obstacle(m.nodes, comps, i) is None,
    ensures
        forall|j: int|
            0 <= j <= comps.len() ==> node_at(
                with_dirs(m.nodes, comps, i),
                slashed(#[trigger] comps.subrange(0, j)),
            ) == Some(NodeModel::Dir),
    decreases comps.len() - i,
{
    if i < comps.len() {
        let key = slashed(comps.subrange(0, i + 1));
        match node_at(m.nodes, key) {
            Some(NodeModel::Dir) => {
                lemma_dirs_made(m, comps, i + 1);
            },
            Some(_) => {},
            None => {
                let next = MemModel { nodes: m.nodes.push((key, NodeModel::Dir)), ..m };
                assert(next.nodes.drop_last() =~= m.nodes);
                assert forall|j: int| 0 <= j <= i + 1 implies node_at(
                    next.nodes,
                    slashed(#[trigger] comps.subrange(0, j)),
                ) == Some(NodeModel::Dir) by {
                    if j <= i {
                        assert(node_at(m.nodes, slashed(comps.subrange(0, j))) is Some);
                    }
                }
                lemma_dirs_made(next, comps, i + 1);
            },
        }
    }
}

/// A path with a name at its end leads to that name in its parent.
pub proof fn lemma_named(path: Seq<char>)
    requires
        has_name(path),
    ensures
        key_of(path) == parent_of(path).push('/') + parts(path).last(),
        parts(path).last().len() > 0,
        !parts(path).last().contains('/'),
        key_of(path).len() > 0,
{
    lemma_parts_unslashed(path);
    let last = parts(path)[parts(path).len() - 1];
    assert(last == parts(path).last());
}

// ---------------------------------------------------------------------------------------------
// the implementation

/// What a place was found to be.
enum Look {
    Dir,
    File(usize),
    Link(String),
    Missing,
}

spec fn look_model(l: Look) -> Option<NodeModel> {
    match l {
        Look::Dir => Some(NodeModel::Dir),
        Look::File(i) => Some(NodeModel::File(i)),
        Look::Link(t) => Some(NodeModel::Link(t@)),
        Look::Missing => None,
    }
}

/// A path taken apart: the key of the place, the key of the directory, and whether there is a
/// name.
struct Target {
    key: Vec<char>,
    parent: Vec<char>,
    named: bool,
}

/// Each of the first `n` components behind a slash.
fn slash_chars(comps: &Vec<String>, n: usize) -> (r: Vec<char>)
    requires
        n <= comps@.len(),
    ensures
        r@ == slashed(texts(comps@).subrange(0, n as int)),
{
    let ghost all = texts(comps@);
    let mut out: Vec<char> = Vec::new();
    let mut i: usize = 0;
    assert(out@ =~= slashed(all.subrange(0, 0)));
    while i < n
        invariant
            i <= n <= comps@.len(),
            all == texts(comps@),
            out@ == slashed(all.subrange(0, i as int)),
        decreases n - i,
    {
        let mut part = chars_of(comps[i].as_str());
        assert(all.subrange(0, i + 1).drop_last() =~= all.subrange(0, i as int));
        assert(all.subrange(0, i + 1).last() == comps@[i as int]@);
        out.push('/');
        out.append(&mut part);
        i = i + 1;
    }
    out
}

fn key_chars(path: &str) -> (r: Vec<char>)
    ensures
        r@ == key_of(path@),
{
    let comps = split(path);
    let r = slash_chars(&comps, comps.len());
    assert(texts(comps@).subrange(0, comps@.len() as int) =~= texts(comps@));
    r
}

fn take_apart(path: &str) -> (r: Target)
    ensures
        r.key@ == key_of(path@),
        r.parent@ == parent_of(path@),
        r.named == has_name(path@),
{
    let comps = split(path);
    let chars = chars_of(path);
    assert(texts(comps@).subrange(0, comps@.len() as int) =~= texts(comps@));
    let key = slash_chars(&comps, comps.len());
    let named = comps.len() > 0 && chars.len() > 0 && chars[chars.len() - 1] != '/';
    proof {
        if parts(path@).len() > 0 && path@.len() == 0 {
            assert(parts(path@) =~= Seq::empty());
        }
    }
    let parent = if named {
        assert(texts(comps@).subrange(0, comps@.len() - 1) =~= texts(comps@).drop_last());
        slash_chars(&comps, comps.len() - 1)
    } else {
        slash_chars(&comps, comps.len())
    };
    Target { key, parent, named }
}

fn same_key(a: &Vec<char>, b: &Vec<char>) -> (r: bool)
    ensures
        r == (a@ == b@),
{
    if a.len() != b.len() {
        return false;
    }
    let mut i: usize = 0;
    while i < a.len()
        invariant
            i <= a@.len(),
            a@.len() == b@.len(),
            forall|j: int| 0 <= j < i ==> a@[j] == b@[j],
        decreases a@.len() - i,
    {
        if a[i] != b[i] {
            return false;
        }
        i = i + 1;
    }
    assert(a@ =~= b@);
    true
}

fn is_below(key: &Vec<char>, k: &Vec<char>) -> (r: bool)
    ensures
        r == below(key@, k@),
{
    if key.len() >= k.len() || k[key.len()] != '/' {
        return false;
    }
    let mut i: usize = 0;
    while i < key.len()
        invariant
            i <= key@.len() < k@.len(),
            forall|j: int| 0 <= j < i ==> key@[j] == k@[j],
        decreases key@.len() - i,
    {
        if key[i] != k[i] {
            assert(k@.subrange(0, key@.len() as int)[i as int] != key@[i as int]);
            return false;
        }
        i = i + 1;
    }
    assert(k@.subrange(0, key@.len() as int) =~= key@);
    true
}

fn is_within(key: &Vec<char>, k: &Vec<char>) -> (r: bool)
    ensures
        r == within(key@, k@),
{
    same_key(key, k) || is_below(key, k)
}

/// The characters from `from` on.
fn chars_after(k: &Vec<char>, from: usize) -> (r: Vec<char>)
    requires
        from <= k@.len(),
    ensures
        r@ == k@.subrange(from as int, k@.len() as int),
{
    let mut out: Vec<char> = Vec::new();
    let mut i: usize = from;
    while i < k.len()
        invariant
            from <= i <= k@.len(),
            out@ == k@.subrange(from as int, i as int),
        decreases k@.len() - i,
    {
        out.push(k[i]);
        i = i + 1;
        assert(out@ =~= k@.subrange(from as int, i as int));
    }
    out
}

fn child(key: &Vec<char>, k: &Vec<char>) -> (r: Option<String>)
    ensures
        match r {
            Some(name) => child_name(key@, k@) == Some(name@),
            None => child_name(key@, k@) is None,
        },
{
    if !is_below(key, k) {
        return None;
    }
    let total: usize = k.len();
    assert(key@.len() < total);
    let name = chars_after(k, key.len() + 1);
    let mut i: usize = 0;
    while i < name.len()
        invariant
            i <= name@.len(),
            below(key@, k@),
            name@ == k@.subrange(key@.len() as int + 1, k@.len() as int),
            forall|j: int| 0 <= j < i ==> name@[j] != '/',
        decreases name@.len() - i,
    {
        if name[i] == '/' {
            assert(name@.contains('/'));
            return None;
        }
        i = i + 1;
    }
    Some(text_of(name.as_slice()))
}

impl MemVfs {
    /// What the filesystem holds.
    pub closed spec fn model(&self) -> MemModel {
        MemModel {
            nodes: self.entries@.map_values(|e: Entry| entry_model(e)),
            files: self.files@.map_values(|f: Vec<u8>| f@),
        }
    }

    /// An empty filesystem with just a root directory.
    pub fn new() -> (r: MemVfs)
        ensures
            r.model() == MemModel::empty(),
            r.model().wf(),
    {
        let r = MemVfs { entries: Vec::new(), files: Vec::new() };
        assert(r.model() =~= MemModel::empty());
        r
    }

    /// Builder form of [`MemVfs::write_file`], creating parent directories.
    pub fn with_file(self, path: &str, contents: Vec<u8>) -> (r: MemVfs)
        requires
            self.model().wf(),
        ensures
            r.model() == self.model().written(path@, contents@).0,
            r.model().wf(),
    {
        let mut fs = self;
        let _ = fs.write_file(path, contents);
        fs
    }

    /// Builder form of [`MemVfs::mkdir_all`].
    pub fn with_dir(self, path: &str) -> (r: MemVfs)
        requires
            self.model().wf(),
        ensures
            r.model() == self.model().made_dirs(path@),
            r.model().wf(),
    {
        let mut fs = self;
        let _ = fs.mkdir_all(path);
        fs
    }

    /// Create `path` and every parent directory. A file or a link in the way stays, and is
    /// reported.
    pub fn mkdir_all(&mut self, path: &str) -> (r: VfsResult<()>)
        requires
            old(self).model().wf(),
        ensures
            r == old(self).model().dirs_made(path@),
            final(self).model() == old(self).model().made_dirs(path@),
            final(self).model().wf(),
            r is Ok ==> final(self).model().is_dir_path(path@),
            forall|k: Seq<char>| #[trigger]
                node_at(old(self).model().nodes, k) is Some ==> node_at(final(self).model().nodes, k)
                    == node_at(old(self).model().nodes, k),
    {
        let comps = split(path);
        proof {
            lemma_parts_unslashed(path@);
            lemma_with_dirs_keeps_all(self.model().nodes, parts(path@), 0);
            if obstacle(self.model().nodes, parts(path@), 0) is None {
                assert forall|j: int| 0 <= j <= 0 implies node_at(
                    self.model().nodes,
                    slashed(#[trigger] parts(path@).subrange(0, j)),
                ) == Some(NodeModel::Dir) by {
                    assert(parts(path@).subrange(0, j) =~= Seq::empty());
                }
                lemma_dirs_made(self.model(), parts(path@), 0);
            }
            assert(parts(path@).subrange(0, 0) =~= Seq::empty());
            lemma_with_dirs_wf(self.model(), parts(path@), 0);
            assert(texts(comps@).subrange(0, comps@.len() as int) =~= texts(comps@));
        }
        match self.make_dirs(&comps, comps.len()) {
            None => Ok(()),
            Some(i) => if i + 1 == comps.len() {
                Err(Errno::EXIST)
            } else {
                Err(Errno::NOTDIR)
            },
        }
    }

    /// Replace the contents of `path`, creating parent directories as needed.
    pub fn write_file(&mut self, path: &str, contents: Vec<u8>) -> (r: VfsResult<()>)
        requires
            old(self).model().wf(),
        ensures
            (final(self).model(), r) == old(self).model().written(path@, contents@),
            final(self).model().wf(),
    {
        let place = take_apart(path);
        if !place.named {
            return Err(Errno::ISDIR);
        }
        let comps = split(path);
        proof {
            lemma_named(path@);
            lemma_parts_unslashed(path@);
            let up = parts(path@).drop_last();
            assert(unslashed(up));
            assert(up.subrange(0, 0) =~= Seq::empty());
            lemma_with_dirs_wf(self.model(), up, 0);
            assert(texts(comps@).subrange(0, comps@.len() - 1) =~= up);
        }
        let _ = self.make_dirs(&comps, comps.len() - 1);
        let ghost made = self.model();
        match self.check_dir(&place.parent) {
            Err(e) => return Err(e),
            Ok(()) => {},
        }
        match self.look(&place.key) {
            Look::File(ino) => {
                proof {
                    self.lemma_ino(place.key@, ino);
                    lemma_files_wf(made, made.files.update(ino as int, contents@));
                }
                self.files[ino] = contents;
                assert(self.model() =~= made.with_data(ino as int, contents@));
                Ok(())
            },
            Look::Missing => {
                self.add_file(path, place.key, contents);
                Ok(())
            },
            _ => Err(Errno::ISDIR),
        }
    }

    /// The whole contents of `path`.
    pub fn read_file(&self, path: &str) -> (r: VfsResult<Vec<u8>>)
        requires
            self.model().wf(),
        ensures
            match r {
                Ok(data) => self.model().contents(path@) == Ok::<Seq<u8>, Errno>(data@),
                Err(e) => self.model().contents(path@) == Err::<Seq<u8>, Errno>(e),
            },
    {
        let key = key_chars(path);
        match self.look(&key) {
            Look::File(ino) => {
                proof {
                    self.lemma_ino(key@, ino);
                }
                Ok(copy_bytes(&self.files[ino]))
            },
            Look::Dir => Err(Errno::ISDIR),
            _ => Err(Errno::NOENT),
        }
    }

    /// The paths of every file and link, in order.
    fn file_paths(&self) -> (r: Vec<String>)
        ensures
            texts(r@) == in_order(file_keys(self.model().nodes)),
    {
        let ghost all = self.model().nodes;
        let mut out: Vec<String> = Vec::new();
        let mut i: usize = 0;
        assert(texts(out@).to_set() =~= Set::empty());
        while i < self.entries.len()
            invariant
                i <= self.entries@.len(),
                all == self.model().nodes,
                all.len() == self.entries@.len(),
                strictly_sorted(texts(out@)),
                texts(out@).to_set() == file_keys(all.subrange(0, i as int)),
            decreases self.entries@.len() - i,
        {
            assert(all.subrange(0, i + 1).drop_last() =~= all.subrange(0, i as int));
            assert(all.subrange(0, i + 1).last() == entry_model(self.entries@[i as int]));
            match &self.entries[i].node {
                Node::Dir => {},
                _ => {
                    insert_sorted(&mut out, text_of(self.entries[i].key.as_slice()));
                },
            }
            i = i + 1;
        }
        assert(all.subrange(0, i as int) =~= all);
        proof {
            lemma_in_order(texts(out@));
        }
        out
    }

    /// Every file in the tree as `(path, contents)`, sorted. A link's contents are its target.
    pub fn snapshot(&self) -> (r: Vec<(String, Vec<u8>)>)
        requires
            self.model().wf(),
        ensures
            pairs_of(r@) == self.model().snapshot(),
    {
        let ghost whole = self.model().snapshot();
        let paths = self.file_paths();
        let mut out: Vec<(String, Vec<u8>)> = Vec::new();
        let mut i: usize = 0;
        assert(pairs_of(out@) =~= whole.subrange(0, 0));
        while i < paths.len()
            invariant
                i <= paths@.len(),
                self.model().wf(),
                texts(paths@) == in_order(file_keys(self.model().nodes)),
                whole == self.model().snapshot(),
                pairs_of(out@) == whole.subrange(0, i as int),
            decreases paths@.len() - i,
        {
            assert(texts(paths@)[i as int] == paths@[i as int]@);
            let key = chars_of(paths[i].as_str());
            let data: Vec<u8> = match self.look(&key) {
                Look::File(ino) => {
                    proof {
                        self.lemma_ino(key@, ino);
                    }
                    copy_bytes(&self.files[ino])
                },
                Look::Link(target) => target.as_str().as_bytes_vec(),
                _ => Vec::new(),
            };
            let ghost before = pairs_of(out@);
            let ghost added = (paths@[i as int]@, data@);
            assert(data@ =~= self.model().bytes_at(key@));
            out.push((paths[i].clone(), data));
            assert(pairs_of(out@) =~= before.push(added));
            i = i + 1;
            assert(pairs_of(out@) =~= whole.subrange(0, i as int));
        }
        assert(whole.subrange(0, i as int) =~= whole);
        out
    }

    /// A listed file has its bytes.
    proof fn lemma_ino(&self, key: Seq<char>, ino: usize)
        requires
            self.model().wf(),
            node_at(self.model().nodes, key) == Some(NodeModel::File(ino)),
        ensures
            ino < self.files@.len(),
    {
        let m = self.model();
        lemma_listed_in(m.nodes, key);
        let i = choose|i: int|
            0 <= i < m.nodes.len() && #[trigger] m.nodes[i] == (key, NodeModel::File(ino));
        assert(m.placed(m.nodes[i]));
    }

    /// The index of the entry listed last under a key.
    fn find(&self, key: &Vec<char>) -> (r: Option<usize>)
        ensures
            match r {
                Some(i) => i < self.entries@.len() && listed(self.model().nodes, key@) == Some(
                    node_model(self.entries@[i as int].node),
                ),
                None => listed(self.model().nodes, key@) is None,
            },
    {
        let ghost nodes = self.model().nodes;
        let mut n: usize = self.entries.len();
        assert(nodes.subrange(0, n as int) =~= nodes);
        while n > 0
            invariant
                n <= self.entries@.len(),
                nodes == self.model().nodes,
                nodes.len() == self.entries@.len(),
                listed(nodes, key@) == listed(nodes.subrange(0, n as int), key@),
            decreases n,
        {
            assert(nodes.subrange(0, n as int).drop_last() =~= nodes.subrange(0, n - 1));
            assert(nodes.subrange(0, n as int).last() == entry_model(self.entries@[n - 1]));
            if same_key(&self.entries[n - 1].key, key) {
                return Some(n - 1);
            }
            n = n - 1;
        }
        None
    }

    fn look(&self, key: &Vec<char>) -> (r: Look)
        ensures
            look_model(r) == node_at(self.model().nodes, key@),
    {
        if key.len() == 0 {
            return Look::Dir;
        }
        match self.find(key) {
            Some(i) => match &self.entries[i].node {
                Node::Dir => Look::Dir,
                Node::File(ino) => Look::File(*ino),
                Node::Link(t) => Look::Link(t.clone()),
            },
            None => Look::Missing,
        }
    }

    fn check_dir(&self, key: &Vec<char>) -> (r: VfsResult<()>)
        ensures
            r == dir_check(self.model().nodes, key@),
    {
        match self.look(key) {
            Look::Dir => Ok(()),
            Look::Missing => Err(Errno::NOENT),
            _ => Err(Errno::NOTDIR),
        }
    }

    /// List one more entry.
    fn push_entry(&mut self, key: Vec<char>, node: Node)
        ensures
            final(self).model() == (MemModel {
                nodes: old(self).model().nodes.push((key@, node_model(node))),
                ..old(self).model()
            }),
    {
        let ghost before = self.model();
        self.entries.push(Entry { key, node });
        assert(self.model().nodes =~= before.nodes.push((key@, node_model(node))));
    }

    /// Create every missing directory along the first `n` components.
    fn make_dirs(&mut self, comps: &Vec<String>, n: usize) -> (r: Option<usize>)
        requires
            n <= comps@.len(),
        ensures
            match r {
                None => obstacle(
                    old(self).model().nodes,
                    texts(comps@).subrange(0, n as int),
                    0,
                ) is None,
                Some(i) => i < n && obstacle(
                    old(self).model().nodes,
                    texts(comps@).subrange(0, n as int),
                    0,
                ) == Some(i as int),
            },
            final(self).model() == (MemModel {
                nodes: with_dirs(
                    old(self).model().nodes,
                    texts(comps@).subrange(0, n as int),
                    0,
                ),
                ..old(self).model()
            }),
    {
        let ghost before = self.model();
        let ghost all = texts(comps@).subrange(0, n as int);
        let mut i: usize = 0;
        while i < n
            invariant
                i <= n <= comps@.len(),
                before == old(self).model(),
                all == texts(comps@).subrange(0, n as int),
                self.model().files == before.files,
                with_dirs(before.nodes, all, 0) == with_dirs(self.model().nodes, all, i as int),
                obstacle(before.nodes, all, 0) == obstacle(self.model().nodes, all, i as int),
            decreases n - i,
        {
            let key = slash_chars(comps, i + 1);
            assert(texts(comps@).subrange(0, i + 1) =~= all.subrange(0, i + 1));
            match self.look(&key) {
                Look::Dir => {},
                Look::Missing => {
                    self.push_entry(key, Node::Dir);
                },
                _ => {
                    return Some(i);
                },
            }
            i = i + 1;
        }
        None
    }

    /// A fresh file where there is none, in a directory that is there.
    fn add_file(&mut self, path: &str, key: Vec<char>, data: Vec<u8>)
        requires
            old(self).model().wf(),
            has_name(path@),
            key@ == key_of(path@),
            node_at(old(self).model().nodes, key@) is None,
            node_at(old(self).model().nodes, parent_of(path@)) == Some(NodeModel::Dir),
        ensures
            final(self).model() == old(self).model().new_file(key@, data@),
            final(self).model().wf(),
    {
        let ghost before = self.model();
        let ino: usize = self.files.len();
        self.files.push(data);
        let ghost grown = self.model();
        proof {
            assert(grown.files =~= before.files.push(data@));
            assert(grown.files.len() == self.files@.len());
            self.lemma_file_count();
            lemma_files_wf(before, grown.files);
            assert(grown =~= MemModel { files: grown.files, ..before });
            lemma_named(path@);
            lemma_added_wf(grown, parent_of(path@), parts(path@).last(), NodeModel::File(ino));
        }
        self.push_entry(key, Node::File(ino));
    }

    proof fn lemma_file_count(&self)
        ensures
            self.model().files.len() <= usize::MAX,
    {
        assert(self.files.len() == self.files@.len());
    }

    /// Something new at a path.
    fn add_node(&mut self, path: &str, node: Node) -> (r: VfsResult<()>)
        requires
            old(self).model().wf(),
            !(node is File),
        ensures
            (final(self).model(), r) == old(self).model().added(path@, node_model(node)),
            final(self).model().wf(),
    {
        let place = take_apart(path);
        if !place.named {
            return Err(Errno::EXIST);
        }
        match self.look(&place.key) {
            Look::Missing => {},
            _ => return Err(Errno::EXIST),
        }
        match self.check_dir(&place.parent) {
            Err(e) => return Err(e),
            Ok(()) => {},
        }
        proof {
            lemma_named(path@);
            lemma_added_wf(
                self.model(),
                parent_of(path@),
                parts(path@).last(),
                node_model(node),
            );
        }
        self.push_entry(place.key, node);
        Ok(())
    }

    /// Take out a place with everything below it.
    fn prune(&mut self, key: &Vec<char>)
        ensures
            final(self).model() == old(self).model().without(key@),
    {
        let ghost before = self.model();
        let ghost all = before.nodes;
        let mut i: usize = self.entries.len();
        assert(all.subrange(0, i as int) =~= all);
        assert(self.model().nodes.subrange(i as int, i as int) =~= Seq::empty());
        assert(pruned(all, key@) =~= pruned(all.subrange(0, i as int), key@) + Seq::empty());
        while i > 0
            invariant
                i <= self.entries@.len(),
                i <= all.len(),
                self.model().files == before.files,
                self.model().nodes.len() == self.entries@.len(),
                self.model().nodes.subrange(0, i as int) == all.subrange(0, i as int),
                pruned(all, key@) == pruned(all.subrange(0, i as int), key@)
                    + self.model().nodes.subrange(i as int, self.model().nodes.len() as int),
            decreases i,
        {
            let ghost now = self.model().nodes;
            let at: usize = i - 1;
            assert(all.subrange(0, i as int).drop_last() =~= all.subrange(0, at as int));
            assert(now.subrange(0, i as int)[at as int] == now[at as int]);
            assert(all.subrange(0, i as int).last() == now[at as int]);
            if is_within(key, &self.entries[at].key) {
                self.entries.remove(at);
                let ghost after = self.model().nodes;
                assert(after =~= now.remove(at as int));
                assert(after.subrange(at as int, after.len() as int) =~= now.subrange(
                    i as int,
                    now.len() as int,
                ));
            } else {
                assert(now.subrange(at as int, now.len() as int) =~= seq![now[at as int]]
                    + now.subrange(i as int, now.len() as int));
                assert(pruned(all, key@) =~= pruned(all.subrange(0, at as int), key@)
                    + now.subrange(at as int, now.len() as int));
            }
            i = at;
            assert(self.model().nodes.subrange(0, i as int) =~= all.subrange(0, i as int)) by {
                assert(now.subrange(0, i + 1) == all.subrange(0, i + 1));
                assert forall|j: int| 0 <= j < i implies now[j] == all[j] by {
                    assert(now.subrange(0, i + 1)[j] == all.subrange(0, i + 1)[j]);
                }
            }
        }
        assert(all.subrange(0, 0) =~= Seq::empty());
        assert(self.model().nodes.subrange(0, self.model().nodes.len() as int)
            =~= self.model().nodes);
        assert(self.model() =~= before.without(key@));
    }

    /// The entries of a place and everything below it, as they are called at another.
    fn moved_entries(&self, key: &Vec<char>, to: &Vec<char>) -> (r: Vec<Entry>)
        ensures
            r@.map_values(|e: Entry| entry_model(e)) == moved(self.model().nodes, key@, to@),
    {
        let ghost all = self.model().nodes;
        let mut out: Vec<Entry> = Vec::new();
        let mut i: usize = 0;
        assert(out@.map_values(|e: Entry| entry_model(e)) =~= moved(
            all.subrange(0, 0),
            key@,
            to@,
        ));
        while i < self.entries.len()
            invariant
                i <= self.entries@.len(),
                all == self.model().nodes,
                all.len() == self.entries@.len(),
                out@.map_values(|e: Entry| entry_model(e)) == moved(
                    all.subrange(0, i as int),
                    key@,
                    to@,
                ),
            decreases self.entries@.len() - i,
        {
            let ghost before = out@.map_values(|e: Entry| entry_model(e));
            assert(all.subrange(0, i + 1).drop_last() =~= all.subrange(0, i as int));
            assert(all.subrange(0, i + 1).last() == entry_model(self.entries@[i as int]));
            if is_within(key, &self.entries[i].key) {
                let mut name: Vec<char> = Vec::new();
                name.extend_from_slice(to.as_slice());
                assert(name@ =~= to@);
                let mut rest = chars_after(&self.entries[i].key, key.len());
                name.append(&mut rest);
                let node = match &self.entries[i].node {
                    Node::Dir => Node::Dir,
                    Node::File(ino) => Node::File(*ino),
                    Node::Link(t) => Node::Link(t.clone()),
                };
                out.push(Entry { key: name, node });
                assert(out@.map_values(|e: Entry| entry_model(e)) =~= before.push(
                    entry_model(out@[out@.len() - 1]),
                ));
            }
            i = i + 1;
        }
        assert(all.subrange(0, i as int) =~= all);
        out
    }

    /// The names in a directory, in order.
    fn names(&self, key: &Vec<char>) -> (r: Vec<String>)
        ensures
            texts(r@) == in_order(child_names(self.model().nodes, key@)),
            texts(r@).to_set() == child_names(self.model().nodes, key@),
    {
        let ghost all = self.model().nodes;
        let mut out: Vec<String> = Vec::new();
        let mut i: usize = 0;
        assert(texts(out@).to_set() =~= Set::empty());
        while i < self.entries.len()
            invariant
                i <= self.entries@.len(),
                all == self.model().nodes,
                all.len() == self.entries@.len(),
                strictly_sorted(texts(out@)),
                texts(out@).to_set() == child_names(all.subrange(0, i as int), key@),
            decreases self.entries@.len() - i,
        {
            assert(all.subrange(0, i + 1).drop_last() =~= all.subrange(0, i as int));
            assert(all.subrange(0, i + 1).last() == entry_model(self.entries@[i as int]));
            match child(key, &self.entries[i].key) {
                Some(name) => {
                    insert_sorted(&mut out, name);
                },
                None => {},
            }
            i = i + 1;
        }
        assert(all.subrange(0, i as int) =~= all);
        proof {
            lemma_in_order(texts(out@));
        }
        out
    }

    fn stat_node(&self, key: &Vec<char>) -> (r: VfsResult<Stat>)
        requires
            self.model().wf(),
        ensures
            r == match node_at(self.model().nodes, key@) {
                Some(node) => Ok(stat_of(self.model().files, node)),
                None => Err(Errno::NOENT),
            },
    {
        match self.look(key) {
            Look::Dir => Ok(Stat::dir()),
            Look::File(ino) => {
                proof {
                    self.lemma_ino(key@, ino);
                }
                Ok(Stat::file(self.files[ino].len() as u64))
            },
            Look::Link(t) => {
                let bytes = t.as_str().as_bytes_vec();
                Ok(Stat::symlink(bytes.len() as u64))
            },
            Look::Missing => Err(Errno::NOENT),
        }
    }

    /// Resize a file's bytes.
    fn resize_file(&mut self, ino: usize, len: usize)
        requires
            ino < old(self).model().files.len(),
        ensures
            final(self).model() == old(self).model().with_data(
                ino as int,
                resized(old(self).model().files[ino as int], len as int),
            ),
    {
        let ghost before = self.model();
        let ghost data = before.files[ino as int];
        let mut bytes: Vec<u8> = Vec::new();
        let mut i: usize = 0;
        while i < len
            invariant
                i <= len,
                ino < self.files@.len(),
                self.model() == before,
                data == self.files@[ino as int]@,
                bytes@ == resized(data, i as int),
            decreases len - i,
        {
            let b: u8 = if i < self.files[ino].len() {
                self.files[ino][i]
            } else {
                0
            };
            bytes.push(b);
            i = i + 1;
            assert(bytes@ =~= resized(data, i as int));
        }
        self.files[ino] = bytes;
        assert(self.model() =~= before.with_data(ino as int, resized(data, len as int)));
    }
}

impl VfsFile for MemVfs {
    type Handle = MemFile;

    type State = MemModel;

    open spec fn wf(&self) -> bool {
        self.model().wf()
    }

    open spec fn state(&self) -> MemModel {
        self.model()
    }

    open spec fn file_answer(s: MemModel, file: MemFile, call: FileCall) -> (
        MemModel,
        MemFile,
        FileAnswer,
    ) {
        s.file_answer(file, call)
    }

    fn read(&mut self, file: &mut MemFile, len: usize) -> (r: VfsResult<Vec<u8>>) {
        if file.ino >= self.files.len() {
            return Err(Errno::BADF);
        }
        let data = &self.files[file.ino];
        let size: usize = data.len();
        let start: usize = if file.pos < size as u64 {
            file.pos as usize
        } else {
            size
        };
        let end: usize = if len < size - start {
            start + len
        } else {
            size
        };
        let mut out: Vec<u8> = Vec::new();
        let mut i: usize = start;
        while i < end
            invariant
                start <= i <= end <= data@.len(),
                out@ == data@.subrange(start as int, i as int),
            decreases end - i,
        {
            out.push(data[i]);
            i = i + 1;
            assert(out@ =~= data@.subrange(start as int, i as int));
        }
        let got: u64 = (end - start) as u64;
        file.pos = if got > u64::MAX - file.pos {
            u64::MAX
        } else {
            file.pos + got
        };
        assert(out@ =~= read_at(data@, old(file).pos as int, len as int));
        Ok(out)
    }

    fn write(&mut self, file: &mut MemFile, data: &[u8]) -> (r: VfsResult<usize>) {
        if file.ino >= self.files.len() || !file.writable {
            return Err(Errno::BADF);
        }
        let ghost before = self.model();
        let ino: usize = file.ino;
        let size: usize = self.files[ino].len();
        let begin: u64 = if file.append {
            size as u64
        } else {
            file.pos
        };
        if begin > usize::MAX as u64 || data.len() > usize::MAX - begin as usize || data.len() as u64
            > u64::MAX - begin {
            return Err(Errno::FBIG);
        }
        let start: usize = begin as usize;
        let end: usize = start + data.len();
        let ghost old_bytes = self.files@[ino as int]@;
        assert(before.files[ino as int] == old_bytes);
        if size < end {
            self.resize_file(ino, end);
        }
        let ghost mid = self.model();
        let ghost long = mid.files[ino as int];
        assert(mid =~= before.with_data(ino as int, long));
        assert(self.files@.len() == self.model().files.len());
        assert(self.files@[ino as int]@ == long);
        let mut bytes: Vec<u8> = Vec::new();
        let total: usize = self.files[ino].len();
        let mut i: usize = 0;
        while i < total
            invariant
                i <= total,
                ino < self.files@.len(),
                long == self.files@[ino as int]@,
                self.model() == mid,
                total == long.len(),
                end == start + data@.len(),
                end <= total,
                bytes@.len() == i,
                forall|j: int|
                    0 <= j < i ==> #[trigger] bytes@[j] == if start <= j < end {
                        data@[j - start]
                    } else {
                        long[j]
                    },
            decreases total - i,
        {
            let b: u8 = if i >= start && i < end {
                data[i - start]
            } else {
                self.files[ino][i]
            };
            bytes.push(b);
            i = i + 1;
        }
        self.files[ino] = bytes;
        file.pos = end as u64;
        proof {
            assert(bytes@ =~= overwritten(old_bytes, start as int, data@));
            assert(self.model().files =~= mid.files.update(ino as int, bytes@));
            assert(self.model().nodes =~= mid.nodes);
            assert(self.model() =~= before.with_data(
                ino as int,
                overwritten(old_bytes, start as int, data@),
            ));
            lemma_files_wf(before, self.model().files);
        }
        Ok(data.len())
    }

    fn seek(&mut self, file: &mut MemFile, from: SeekFrom) -> (r: VfsResult<u64>) {
        if file.ino >= self.files.len() {
            return Err(Errno::BADF);
        }
        let size: u64 = self.files[file.ino].len() as u64;
        let target: i128 = match from {
            SeekFrom::Start(p) => as_signed(p),
            SeekFrom::End(d) => held(as_signed(size) + d as i128),
            SeekFrom::Current(d) => held(as_signed(file.pos) + d as i128),
        };
        if target < 0 {
            return Err(Errno::INVAL);
        }
        file.pos = target as u64;
        Ok(file.pos)
    }

    fn stat_file(&mut self, file: &mut MemFile) -> (r: VfsResult<Stat>) {
        if file.ino >= self.files.len() {
            return Err(Errno::BADF);
        }
        Ok(Stat::file(self.files[file.ino].len() as u64))
    }

    fn set_len(&mut self, file: &mut MemFile, len: u64) -> (r: VfsResult<()>) {
        if file.ino >= self.files.len() || !file.writable {
            return Err(Errno::BADF);
        }
        if len > usize::MAX as u64 {
            return Err(Errno::FBIG);
        }
        let ghost before = self.model();
        self.resize_file(file.ino, len as usize);
        proof {
            lemma_files_wf(before, self.model().files);
        }
        Ok(())
    }

    fn close(&mut self, file: &mut MemFile) -> (r: VfsResult<()>) {
        if file.ino >= self.files.len() {
            return Err(Errno::BADF);
        }
        Ok(())
    }
}

fn as_signed(v: u64) -> (r: i128)
    ensures
        r == signed64(v as int),
{
    if v < 0x8000_0000_0000_0000 {
        v as i128
    } else {
        v as i128 - 0x1_0000_0000_0000_0000
    }
}

fn held(v: i128) -> (r: i128)
    ensures
        r == held64(v as int),
{
    if v > i64::MAX as i128 {
        i64::MAX as i128
    } else if v < i64::MIN as i128 {
        i64::MIN as i128
    } else {
        v
    }
}

impl Vfs for MemVfs {
    open spec fn answer(s: MemModel, call: VfsCall) -> (MemModel, VfsAnswer<MemFile>) {
        s.answer(call)
    }

    open spec fn links(s: MemModel) -> bool {
        true
    }

    fn has_symlinks(&self) -> (r: bool) {
        true
    }

    fn open(&mut self, path: &str, opts: &OpenOptions) -> (r: VfsResult<MemFile>) {
        let ghost before = self.model();
        let place = take_apart(path);
        if !place.named {
            return Err(Errno::ISDIR);
        }
        let ino: usize = match self.look(&place.key) {
            Look::Dir => return Err(Errno::ISDIR),
            Look::Link(_) => return Err(Errno::LOOP),
            Look::File(ino) => {
                proof {
                    self.lemma_ino(place.key@, ino);
                }
                if opts.create_new {
                    return Err(Errno::EXIST);
                }
                if opts.truncate && opts.write {
                    self.files[ino] = Vec::new();
                    proof {
                        assert(self.files@[ino as int]@ =~= Seq::empty());
                        assert(self.model() =~= before.with_data(ino as int, Seq::empty()));
                        lemma_files_wf(before, self.model().files);
                    }
                }
                ino
            },
            Look::Missing => {
                if !opts.create && !opts.create_new {
                    return Err(Errno::NOENT);
                }
                match self.check_dir(&place.parent) {
                    Err(e) => return Err(e),
                    Ok(()) => {},
                }
                let ino: usize = self.files.len();
                let none: Vec<u8> = Vec::new();
                assert(none@ =~= Seq::empty());
                self.add_file(path, place.key, none);
                ino
            },
        };
        let pos: u64 = if opts.append {
            self.files[ino].len() as u64
        } else {
            0
        };
        Ok(MemFile { ino, pos, append: opts.append, writable: opts.write || opts.append })
    }

    fn stat(&mut self, path: &str, follow: bool) -> (r: VfsResult<Stat>) {
        let place = take_apart(path);
        match self.look(&place.key) {
            Look::Link(target) => {
                if !follow {
                    return self.stat_node(&place.key);
                }
                if starts_at_root(target.as_str()) {
                    self.stat_node(&key_chars(target.as_str()))
                } else {
                    let mut full = place.parent;
                    full.push('/');
                    let mut rest = chars_of(target.as_str());
                    full.append(&mut rest);
                    let text = text_of(full.as_slice());
                    self.stat_node(&key_chars(text.as_str()))
                }
            },
            _ => self.stat_node(&place.key),
        }
    }

    fn readdir(&mut self, path: &str) -> (r: VfsResult<Vec<DirEntry>>) {
        let key = key_chars(path);
        match self.check_dir(&key) {
            Err(e) => return Err(e),
            Ok(()) => {},
        }
        let names = self.names(&key);
        let ghost nodes = self.model().nodes;
        let ghost whole = listing_of(nodes, key@);
        let mut out: Vec<DirEntry> = Vec::new();
        let mut i: usize = 0;
        assert(entries_of(out@) =~= whole.subrange(0, 0));
        while i < names.len()
            invariant
                i <= names@.len(),
                nodes == self.model().nodes,
                texts(names@) == in_order(child_names(nodes, key@)),
                whole == listing_of(nodes, key@),
                entries_of(out@) == whole.subrange(0, i as int),
            decreases names@.len() - i,
        {
            let mut full: Vec<char> = Vec::new();
            full.extend_from_slice(key.as_slice());
            assert(full@ =~= key@);
            full.push('/');
            let mut rest = chars_of(names[i].as_str());
            full.append(&mut rest);
            assert(full@ =~= key@.push('/') + names@[i as int]@);
            let kind = match self.look(&full) {
                Look::File(_) => FileType::File,
                Look::Link(_) => FileType::Symlink,
                _ => FileType::Dir,
            };
            let ghost before = entries_of(out@);
            out.push(DirEntry { name: names[i].clone(), file_type: Some(kind), ino: 0 });
            assert(texts(names@)[i as int] == names@[i as int]@);
            assert(whole[i as int] == out@[out@.len() - 1]@);
            assert(entries_of(out@) =~= before.push(out@[out@.len() - 1]@));
            i = i + 1;
            assert(entries_of(out@) =~= whole.subrange(0, i as int));
        }
        assert(whole.len() == names@.len());
        assert(whole.subrange(0, i as int) =~= whole);
        Ok(out)
    }

    fn mkdir(&mut self, path: &str, mode: u32) -> (r: VfsResult<()>) {
        self.add_node(path, Node::Dir)
    }

    fn unlink(&mut self, path: &str) -> (r: VfsResult<()>) {
        let place = take_apart(path);
        match self.check_dir(&place.parent) {
            Err(e) => return Err(e),
            Ok(()) => {},
        }
        if !place.named {
            return Err(Errno::NOENT);
        }
        match self.look(&place.key) {
            Look::Dir => Err(Errno::ISDIR),
            Look::Missing => Err(Errno::NOENT),
            _ => {
                proof {
                    lemma_named(path@);
                    lemma_pruned_wf(self.model(), place.key@);
                }
                self.prune(&place.key);
                Ok(())
            },
        }
    }

    fn rmdir(&mut self, path: &str) -> (r: VfsResult<()>) {
        let place = take_apart(path);
        match self.check_dir(&place.parent) {
            Err(e) => return Err(e),
            Ok(()) => {},
        }
        if !place.named {
            return Err(Errno::NOENT);
        }
        match self.look(&place.key) {
            Look::Dir => {
                let names = self.names(&place.key);
                if names.len() > 0 {
                    assert(texts(names@).to_set().contains(texts(names@)[0]));
                    return Err(Errno::NOTEMPTY);
                }
                proof {
                    assert(texts(names@).to_set() =~= Set::empty());
                    lemma_named(path@);
                    lemma_pruned_wf(self.model(), place.key@);
                }
                self.prune(&place.key);
                Ok(())
            },
            Look::Missing => Err(Errno::NOENT),
            _ => Err(Errno::NOTDIR),
        }
    }

    fn rename(&mut self, from: &str, to: &str) -> (r: VfsResult<()>) {
        let ghost before = self.model();
        let source = take_apart(from);
        let target = take_apart(to);
        if !source.named || !target.named {
            return Err(Errno::INVAL);
        }
        match self.check_dir(&source.parent) {
            Err(e) => return Err(e),
            Ok(()) => {},
        }
        match self.look(&source.key) {
            Look::Missing => return Err(Errno::NOENT),
            _ => {},
        }
        proof {
            lemma_named(from@);
            lemma_named(to@);
            if parent_of(to@).len() > 0 {
                lemma_listed_pruned(before.nodes, source.key@, parent_of(to@));
            }
        }
        // Where the target's directory would be moved away itself, it is not there to move to.
        if target.parent.len() > 0 && is_within(&source.key, &target.parent) {
            return Err(Errno::NOENT);
        }
        match self.check_dir(&target.parent) {
            Err(e) => return Err(e),
            Ok(()) => {},
        }
        proof {
            lemma_renamed_wf(before, source.key@, parent_of(to@), parts(to@).last());
        }
        let mut entries = self.moved_entries(&source.key, &target.key);
        let ghost extra = entries@;
        self.prune(&source.key);
        self.prune(&target.key);
        let ghost rest = self.model();
        self.entries.append(&mut entries);
        assert(self.model().nodes =~= rest.nodes + extra.map_values(|e: Entry| entry_model(e)));
        Ok(())
    }

    fn symlink(&mut self, target: &str, link: &str) -> (r: VfsResult<()>) {
        self.add_node(link, Node::Link(target.to_owned()))
    }

    fn readlink(&mut self, path: &str) -> (r: VfsResult<String>) {
        let key = key_chars(path);
        match self.look(&key) {
            Look::Link(target) => Ok(target),
            Look::Missing => Err(Errno::NOENT),
            _ => Err(Errno::INVAL),
        }
    }

    fn truncate(&mut self, path: &str, len: u64) -> (r: VfsResult<()>) {
        let opts = OpenOptions { write: true, ..OpenOptions::new() };
        match self.open(path, &opts) {
            Ok(file) => {
                let mut file = file;
                self.set_len(&mut file, len)
            },
            Err(e) => Err(e),
        }
    }

    fn set_mode(&mut self, path: &str, mode: u32) -> (r: VfsResult<()>) {
        Ok(())
    }
}

} // verus!
