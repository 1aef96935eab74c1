//! Files, open and closed: where reading and writing go on, what outlives a name, what links and
//! mounts lead to.
use super::readiness::behind;
use crate::errno::Errno;
use crate::kernel::fd::{dirent_type, fd_at, DescView, KindView, PipeView};
use crate::kernel::mounts::MountView;
use crate::kernel::path::{
    clean, is_absolute, law_path_round_trip, lemma_walking_names, parts, walked,
};
use crate::kernel::state::{released, CtxView, SharedView};
use crate::syscall::base::errno;
use crate::syscall::io::{read_kind, write_kind};
use crate::syscall::open::{installed, Opening};
use crate::vfs::{
    FileAnswer, FileCall, FileType, OpenOptions, Stat, Vfs, VfsAnswer, VfsCall, VfsFile,
};
use crate::vfs::either::Either;
use crate::vfs::host::{host_options, host_stat, HostMeta};
use crate::vfs::memory::{
    has_name, key_of, node_at, overwritten, parent_of, read_at, MemFile, MemModel, NodeModel,
};
use vstd::prelude::*;

verus! {

// ---------------------------------------------------------------------------------------------
// where reading and writing go on

/// Two reads of a file in memory, one after the other, give what one read of both lengths does,
/// and leave the position where it does; reading changes nothing of the file.
pub proof fn law_reading_a_file_goes_on(
    m: MemModel,
    file: MemFile,
    a: usize,
    b: usize,
    both: usize,
)
    requires
        file.ino < m.files.len(),
        m.files[file.ino as int].len() <= u64::MAX,
        file.pos <= m.files[file.ino as int].len(),
        both == a + b,
    ensures
        ({
            let (m1, f1, r1) = m.file_answer(file, FileCall::Read { max: a });
            let (m2, f2, r2) = m1.file_answer(f1, FileCall::Read { max: b });
            let (m3, f3, r3) = m.file_answer(file, FileCall::Read { max: both });
            let data = m.files[file.ino as int];
            &&& r1 matches FileAnswer::Data(x)
            &&& r2 matches FileAnswer::Data(y)
            &&& r3 == FileAnswer::Data(x + y)
            &&& f2 == f3
            &&& m1 == m && m2 == m && m3 == m
            &&& f3.pos == file.pos + (x + y).len()
            &&& x + y == data.subrange(
                file.pos as int,
                if file.pos + both < data.len() {
                    file.pos + both
                } else {
                    data.len() as int
                },
            )
        }),
{
    let data = m.files[file.ino as int];
    let p = file.pos as int;
    let x = read_at(data, p, a as int);
    let y = read_at(data, p + x.len(), b as int);
    assert(x + y =~= read_at(data, p, both as int));
}

/// Two writes to a file in memory, one after the other, are one write of both, whether they go
/// on from a position or are appended.
pub proof fn law_writing_a_file_goes_on(
    m: MemModel,
    file: MemFile,
    a: Seq<u8>,
    b: Seq<u8>,
)
    requires
        file.ino < m.files.len(),
        file.writable,
        file.append ==> m.files[file.ino as int].len() <= u64::MAX,
        file.pos + (a + b).len() <= usize::MAX,
        file.pos + (a + b).len() <= u64::MAX,
        m.files[file.ino as int].len() + (a + b).len() <= usize::MAX,
        m.files[file.ino as int].len() + (a + b).len() <= u64::MAX,
    ensures
        ({
            let (m1, f1, r1) = m.file_answer(file, FileCall::Write { data: a });
            let (m2, f2, r2) = m1.file_answer(f1, FileCall::Write { data: b });
            let (m3, f3, r3) = m.file_answer(file, FileCall::Write { data: a + b });
            &&& r1 == FileAnswer::Count(a.len() as usize)
            &&& r2 == FileAnswer::Count(b.len() as usize)
            &&& r3 == FileAnswer::Count((a + b).len() as usize)
            &&& m2.files[file.ino as int] == m3.files[file.ino as int]
            &&& f2 == f3
        }),
{
    let data = m.files[file.ino as int];
    let start = if file.append {
        data.len() as int
    } else {
        file.pos as int
    };
    let one = overwritten(data, start, a);
    let two = overwritten(one, start + a.len(), b);
    let (m1, f1, r1) = m.file_answer(file, FileCall::Write { data: a });
    assert(m1.files[file.ino as int] == one);
    if file.append {
        assert(one.len() == data.len() + a.len());
    }
    assert(two =~= overwritten(data, start, a + b));
}

/// A write leaves a gap that was never written full of zeros.
pub proof fn law_a_gap_is_full_of_zeros(m: MemModel, file: MemFile, bytes: Seq<u8>, i: int)
    requires
        file.ino < m.files.len(),
        file.writable,
        !file.append,
        bytes.len() > 0,
        file.pos + bytes.len() <= usize::MAX,
        file.pos + bytes.len() <= u64::MAX,
        m.files[file.ino as int].len() <= i < file.pos,
    ensures
        ({
            let after = m.file_answer(file, FileCall::Write { data: bytes }).0.files[file.ino as int];
            after.len() == file.pos + bytes.len() && after[i] == 0
        }),
{
}

/// What is open outlives its name: removing a file, or giving it another name, leaves what an
/// open file reads and writes as it is.
pub proof fn law_an_open_file_outlives_its_name(
    m: MemModel,
    path: Seq<char>,
    to: Seq<char>,
    file: MemFile,
    call: FileCall,
)
    ensures
        m.unlinked(path).0.file_answer(file, call).2 == m.file_answer(file, call).2,
        m.renamed(path, to).0.file_answer(file, call).2 == m.file_answer(file, call).2,
        m.unlinked(path).0.data_of(file) == m.data_of(file),
        m.renamed(path, to).0.data_of(file) == m.data_of(file),
{
}

/// What is said of a link is said of what it leads to, or, where it is not to be followed, of
/// itself. A relative target is taken from the directory the link is in.
pub proof fn law_a_link_is_followed_or_not(m: MemModel, path: Seq<char>, target: Seq<char>)
    requires
        node_at(m.nodes, key_of(path)) == Some(NodeModel::Link(target)),
    ensures
        ({
            let there = if is_absolute(target) {
                node_at(m.nodes, key_of(target))
            } else {
                node_at(m.nodes, key_of(parent_of(path).push('/') + target))
            };
            &&& m.stat(path, false) matches Ok(st) && st.file_type is Symlink
            &&& there is None ==> m.stat(path, true) == Err::<Stat, Errno>(Errno::NOENT)
            &&& there matches Some(NodeModel::File(ino)) ==> (m.stat(path, true) matches Ok(st)
                && st.file_type is File && st.size == m.files[ino as int].len() as u64)
            &&& there matches Some(NodeModel::Dir) ==> (m.stat(path, true) matches Ok(st)
                && st.file_type is Dir)
        }),
{
}

// ---------------------------------------------------------------------------------------------
// opening and closing

/// A file that is opened gets the lowest free descriptor, and is known by its path; it keeps of
/// the flags how it may be used, and the descriptor whether it is closed on `execve`.
pub proof fn law_an_opened_file_gets_the_lowest_descriptor<V: Vfs>(
    sh: SharedView<<V as VfsFile>::Handle>,
    ctx: CtxView,
    fs: Seq<MountView<<V as VfsFile>::State>>,
    kind: KindView<<V as VfsFile>::Handle>,
    guest: Seq<char>,
    flags: u32,
)
    requires
        sh.descs.wf(),
        sh.descs.slots.len() < u32::MAX,
    ensures
        ({
            let (s, c, f, r) = installed::<V>(sh, ctx, fs, Opening::Fresh(kind, guest), flags);
            &&& r matches Ok(fd) ==> {
                &&& 0 <= fd < sh.limits.open_files
                &&& fd_at(ctx.task.fds, fd as int) is None
                &&& forall|k: int| 0 <= k < fd ==> #[trigger] fd_at(ctx.task.fds, k) is Some
                &&& super::descriptors::only_fd(ctx, c, fd as int)
                &&& fd_at(c.task.fds, fd as int)->0.cloexec == (flags & 0x80000 != 0)
                &&& behind(s, c, fd) == Some(
                    DescView { kind, path: guest, flags: flags & 0xc03, refs: 1 },
                )
                &&& f == fs
            }
            &&& r is Err ==> r == errno::<i32>(Errno::MFILE) && c == ctx
        }),
{
    super::buffers::law_the_lowest_free_descriptor(ctx.task.fds, 0);
    assert(flags & (3u32 | 0x400u32 | 0x800u32) == flags & 0xc03u32) by (bit_vector);
    let desc = DescView { kind, path: guest, flags: flags & 0xc03, refs: 1 };
    super::buffers::law_a_slab_keeps_what_it_was_given(
        sh.descs,
        desc,
        if sh.descs.next_key() == 0 {
            1
        } else {
            0
        },
    );
}

/// When the last descriptor of the last writer of a pipe is closed, whoever reads the empty pipe
/// gets the end of the file; when that of its last reader is, whoever writes to it is refused.
/// What is in the pipe stays.
pub proof fn law_a_pipe_notices_its_last_ends<V: Vfs>(
    sh: SharedView<<V as VfsFile>::Handle>,
    fs: Seq<MountView<<V as VfsFile>::State>>,
    key: u32,
    k: u32,
    realtime: u128,
    pid: i32,
    other: u32,
    end: DescView<<V as VfsFile>::Handle>,
    len: usize,
    data: Seq<u8>,
)
    requires
        sh.descs.get(key) matches Some(d) && d.refs == 1,
        sh.pipes.get(k) matches Some(p) && p.readers >= 1 && p.writers >= 1,
        len > 0,
        data.len() > 0,
    ensures
        ({
            let (s, f) = released::<V>(sh, fs, key);
            let kind = sh.descs.get(key)->0.kind;
            let before = sh.pipes.get(k)->0;
            &&& s.descs.get(key) is None
            &&& kind == KindView::<<V as VfsFile>::Handle>::PipeWrite(k) ==> {
                &&& s.pipes.get(k) == Some(
                    PipeView { writers: (before.writers - 1) as u32, ..before },
                )
                &&& before.writers == 1 && before.data.len() == 0 && end.kind == KindView::<
                    <V as VfsFile>::Handle,
                >::PipeRead(k) ==> (read_kind::<V>(s, f, realtime, other, end, len).2 matches Ok(
                    got,
                ) && got.len() == 0)
            }
            &&& kind == KindView::<<V as VfsFile>::Handle>::PipeRead(k) ==> {
                &&& s.pipes.get(k) == Some(
                    PipeView { readers: (before.readers - 1) as u32, ..before },
                )
                &&& before.readers == 1 && end.kind == KindView::<
                    <V as VfsFile>::Handle,
                >::PipeWrite(k) ==> write_kind::<V>(s, f, pid, other, end, data).2 == errno::<usize>(
                    Errno::PIPE,
                )
            }
        }),
{
}

/// The types of the entries of a directory have the numbers that programs know them by.
pub proof fn law_entries_have_their_usual_types()
    ensures
        forall|t: Option<FileType>| #[trigger] dirent_type(t) == match t {
            Some(FileType::Dir) => 4u8,
            Some(FileType::File) => 8u8,
            Some(FileType::Symlink) => 10u8,
            None => 0u8,
        },
{
}

// ---------------------------------------------------------------------------------------------
// mounts

/// What a mount is asked about is the rest of the path: put behind the place where the mount is,
/// it is the path again.
pub proof fn law_a_mount_sees_the_rest_of_the_path<S>(m: MountView<S>, comps: Seq<Seq<char>>)
    requires
        clean(comps),
        m.covers(comps),
    ensures
        is_absolute(m.rel(comps)),
        walked(m.comps(), parts(m.rel(comps))) == comps,
        m.comps() + parts(m.rel(comps)) == comps,
{
    let n = m.comps().len() as int;
    let rest = comps.subrange(n, comps.len() as int);
    assert forall|i: int| 0 <= i < rest.len() implies crate::kernel::path::is_name(
        #[trigger] rest[i],
    ) by {
        assert(crate::kernel::path::is_name(comps[n + i]));
    }
    law_path_round_trip(rest, "/"@);
    lemma_walking_names(m.comps(), rest);
    assert(m.comps() + rest =~= comps);
    super::calls::lemma_path_is_absolute(rest);
}

/// What the host says of a file: its size and number, its permissions without its type, and
/// when it was last changed, where that is known.
pub proof fn law_a_host_file_is_what_the_host_says(m: HostMeta)
    ensures
        ({
            let st = host_stat(m);
            &&& st.size == m.len
            &&& st.ino == m.ino
            &&& st.mode == m.mode % 4096
            &&& st.file_type is Dir <==> m.is_dir
            &&& st.file_type is Symlink <==> !m.is_dir && m.is_symlink
            &&& m.mtime matches Some((secs, nanos)) ==> st.mtime.1 == nanos && (secs <= i64::MAX
                ==> st.mtime.0 == secs)
        }),
{
}

/// A host file is only emptied where it may be written, and one that must be new is not merely
/// created.
pub proof fn law_host_files_are_opened_as_asked(o: OpenOptions)
    ensures
        ({
            let h = host_options(o);
            &&& h.read == o.read && h.write == o.write && h.append == o.append && h.mode == o.mode
            &&& h.truncate == (o.truncate && o.write)
            &&& h.create_new == o.create_new
            &&& h.create == (o.create && !o.create_new)
        }),
{
}

// ---------------------------------------------------------------------------------------------
// names in memory

/// Nothing is made but in a directory that is there, and under a name that is free.
pub proof fn law_things_are_made_in_directories(m: MemModel, path: Seq<char>, node: NodeModel)
    requires
        has_name(path),
    ensures
        ({
            let r = m.added(path, node).1;
            let parent = node_at(m.nodes, parent_of(path));
            let taken = node_at(m.nodes, key_of(path)) is Some;
            &&& r is Ok <==> !taken && parent == Some(NodeModel::Dir)
            &&& taken ==> r == Err::<(), Errno>(Errno::EXIST)
            &&& !taken && parent is None ==> r == Err::<(), Errno>(Errno::NOENT)
            &&& r is Ok ==> node_at(m.added(path, node).0.nodes, key_of(path)) == Some(node)
            &&& r is Err ==> m.added(path, node).0 == m
        }),
{
    crate::vfs::memory::lemma_named(path);
    let after = m.nodes.push((key_of(path), node));
    assert(after.drop_last() =~= m.nodes);
}

/// A renamed directory takes everything below it along.
pub proof fn law_renaming_takes_along_what_is_below(
    m: MemModel,
    from: Seq<char>,
    to: Seq<char>,
    rest: Seq<char>,
    ino: usize,
)
    requires
        m.renamed(from, to).1 is Ok,
        rest.len() > 0 && rest[0] == '/',
        node_at(m.nodes, key_of(from) + rest) == Some(NodeModel::File(ino)),
    ensures
        node_at(m.renamed(from, to).0.nodes, key_of(to) + rest) == Some(NodeModel::File(ino)),
        m.renamed(from, to).0.files == m.files,
{
    let a = key_of(from);
    let b = key_of(to);
    let kept = m.without(a).without(b);
    let went = crate::vfs::memory::moved(m.nodes, a, b);
    crate::vfs::memory::lemma_listed_moved(m.nodes, a, b, rest);
    crate::vfs::memory::lemma_listed_concat(kept.nodes, went, b + rest);
}

// ---------------------------------------------------------------------------------------------
// one of two filesystems

/// A filesystem that is one of two answers just as that one does, and its files stay its own.
pub proof fn law_one_of_two_answers_as_itself<A: Vfs, B: Vfs>(
    s: <A as VfsFile>::State,
    t: <B as VfsFile>::State,
    call: VfsCall,
)
    ensures
        ({
            let (after, said) = A::answer(s, call);
            let (both, told) = <Either<A, B> as Vfs>::answer(Either::Left(s), call);
            &&& both == Either::<<A as VfsFile>::State, <B as VfsFile>::State>::Left(after)
            &&& match said {
                VfsAnswer::Fail(e) => told == VfsAnswer::<
                    Either<<A as VfsFile>::Handle, <B as VfsFile>::Handle>,
                >::Fail(e),
                VfsAnswer::Stat(st) => told == VfsAnswer::<
                    Either<<A as VfsFile>::Handle, <B as VfsFile>::Handle>,
                >::Stat(st),
                VfsAnswer::Opened(h) => told == VfsAnswer::Opened(
                    Either::<<A as VfsFile>::Handle, <B as VfsFile>::Handle>::Left(h),
                ),
                VfsAnswer::Done => told is Done,
                VfsAnswer::Listing(list) => told == VfsAnswer::<
                    Either<<A as VfsFile>::Handle, <B as VfsFile>::Handle>,
                >::Listing(list),
                VfsAnswer::Target(link) => told == VfsAnswer::<
                    Either<<A as VfsFile>::Handle, <B as VfsFile>::Handle>,
                >::Target(link),
            }
        }),
{
}

} // verus!
