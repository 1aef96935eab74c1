//! The mounted filesystems, and the programs laid over them.
use crate::errno::{Errno, VfsResult};
use crate::kernel::path::{begins, is_prefix, join, normal, normalize, parts_between, path_of};
use crate::text::{same, texts};
use crate::vfs::{
    done_answer, file_count, file_data, file_done, file_position, file_stat, listing_answer,
    opened_answer, stat_answer, target_answer, DirEntry, FileAnswer, FileCall, OpenOptions,
    SeekFrom, Stat, Vfs, VfsAnswer, VfsCall, VfsFile,
};
use vstd::prelude::*;

verus! {

/// One filesystem and where it appears.
pub struct Mount<V> {
    /// Absolute and normalized: `/` or `/work`.
    pub at: String,
    pub vfs: V,
    /// Whether the kernel refuses every write here.
    pub read_only: bool,
}

/// The content of a [`Mount`].
#[verifier::ext_equal]
pub struct MountView<S> {
    pub at: Seq<char>,
    pub state: S,
    pub read_only: bool,
}

/// Everything that is mounted.
pub struct Mounts<V> {
    list: Vec<Mount<V>>,
}

impl<V: Vfs> View for Mounts<V> {
    type V = Seq<MountView<<V as VfsFile>::State>>;

    closed spec fn view(&self) -> Self::V {
        self.list@.map_values(|m: Mount<V>| mount_view(m))
    }
}

pub open spec fn mount_view<V: Vfs>(m: Mount<V>) -> MountView<<V as VfsFile>::State> {
    MountView { at: m.at@, state: m.vfs.state(), read_only: m.read_only }
}

impl<S> MountView<S> {
    /// The components of the mount point.
    pub open spec fn comps(self) -> Seq<Seq<char>> {
        normal("/"@, self.at)
    }

    /// Whether a place lies under the mount point.
    pub open spec fn covers(self, comps: Seq<Seq<char>>) -> bool {
        begins(self.comps(), comps)
    }

    /// The path by which the filesystem knows a place under its mount point.
    pub open spec fn rel(self, comps: Seq<Seq<char>>) -> Seq<char> {
        path_of(comps.subrange(self.comps().len() as int, comps.len() as int))
    }
}

/// Which of the first `n` mounts a place belongs to: the one with the longest mount point, and
/// of two at one place the later.
pub open spec fn best_of<S>(ms: Seq<MountView<S>>, comps: Seq<Seq<char>>, n: int) -> Option<int>
    decreases n,
{
    if n <= 0 {
        None
    } else {
        let earlier = best_of(ms, comps, n - 1);
        if ms[n - 1].covers(comps) && match earlier {
            Some(i) => ms[n - 1].comps().len() >= ms[i].comps().len(),
            None => true,
        } {
            Some(n - 1)
        } else {
            earlier
        }
    }
}

/// The mount a place belongs to.
pub open spec fn owner<S>(ms: Seq<MountView<S>>, comps: Seq<Seq<char>>) -> Option<int> {
    best_of(ms, comps, ms.len() as int)
}

/// What a call on a mount answers, and the mounts afterwards.
pub open spec fn called<V: Vfs>(
    ms: Seq<MountView<<V as VfsFile>::State>>,
    i: int,
    call: VfsCall,
) -> (Seq<MountView<<V as VfsFile>::State>>, VfsAnswer<<V as VfsFile>::Handle>) {
    if 0 <= i < ms.len() {
        let (next, answer) = V::answer(ms[i].state, call);
        (ms.update(i, MountView { state: next, ..ms[i] }), answer)
    } else {
        (ms, VfsAnswer::Fail(Errno::NOENT))
    }
}

/// What a call on an open file of a mount answers, and the mounts and the handle afterwards.
pub open spec fn file_called<V: Vfs>(
    ms: Seq<MountView<<V as VfsFile>::State>>,
    i: int,
    file: <V as VfsFile>::Handle,
    call: FileCall,
) -> (Seq<MountView<<V as VfsFile>::State>>, <V as VfsFile>::Handle, FileAnswer) {
    if 0 <= i < ms.len() {
        let (next, handle, answer) = V::file_answer(ms[i].state, file, call);
        (ms.update(i, MountView { state: next, ..ms[i] }), handle, answer)
    } else {
        (ms, file, FileAnswer::Fail(Errno::BADF))
    }
}

/// Whether a mount refuses writes. One that does not exist refuses everything.
pub open spec fn refuses_writes<S>(ms: Seq<MountView<S>>, i: int) -> bool {
    0 <= i < ms.len() ==> ms[i].read_only
}

/// Whether a mount has symlinks to look for.
pub open spec fn has_links<V: Vfs>(ms: Seq<MountView<<V as VfsFile>::State>>, i: int) -> bool {
    0 <= i < ms.len() && V::links(ms[i].state)
}

impl<V: Vfs> Mounts<V> {
    /// Every filesystem keeps what it promises of itself.
    pub closed spec fn wf(&self) -> bool {
        forall|i: int| 0 <= i < self.list@.len() ==> (#[trigger] self.list@[i]).vfs.wf()
    }

    pub fn new() -> (r: Mounts<V>)
        ensures
            r.wf(),
            r@ == Seq::<MountView<<V as VfsFile>::State>>::empty(),
    {
        let r = Mounts { list: Vec::new() };
        assert(r@ =~= Seq::<MountView<<V as VfsFile>::State>>::empty());
        r
    }

    /// Mount one more filesystem.
    pub fn push(&mut self, mount: Mount<V>)
        requires
            old(self).wf(),
            mount.vfs.wf(),
        ensures
            final(self).wf(),
            final(self)@ == old(self)@.push(mount_view(mount)),
    {
        let ghost before = self@;
        self.list.push(mount);
        assert(self@ =~= before.push(mount_view(mount)));
    }

    pub fn len(&self) -> (r: usize)
        ensures
            r == self@.len(),
    {
        self.list.len()
    }

    /// Where a mount appears.
    pub fn mount_point(&self, i: usize) -> (r: &str)
        requires
            i < self@.len(),
        ensures
            r@ == self@[i as int].at,
    {
        self.list[i].at.as_str()
    }

    /// Whether a mount refuses writes.
    pub fn is_read_only(&self, i: usize) -> (r: bool)
        ensures
            r == refuses_writes(self@, i as int),
    {
        i >= self.list.len() || self.list[i].read_only
    }

    /// The mount a place belongs to, if there is one, and its path there.
    pub fn find(&self, comps: &Vec<String>) -> (r: Option<(usize, String)>)
        ensures
            match r {
                Some((i, rel)) => {
                    &&& i < self@.len()
                    &&& owner(self@, texts(comps@)) == Some(i as int)
                    &&& self@[i as int].covers(texts(comps@))
                    &&& rel@ == self@[i as int].rel(texts(comps@))
                },
                None => owner(self@, texts(comps@)) is None,
            },
    {
        let mut best: Option<(usize, usize)> = None;
        let mut i: usize = 0;
        while i < self.list.len()
            invariant
                i <= self.list@.len(),
                self@.len() == self.list@.len(),
                match best {
                    Some((b, depth)) => {
                        &&& b < i
                        &&& best_of(self@, texts(comps@), i as int) == Some(b as int)
                        &&& self@[b as int].covers(texts(comps@))
                        &&& depth == self@[b as int].comps().len()
                        &&& depth <= comps@.len()
                    },
                    None => best_of(self@, texts(comps@), i as int) is None,
                },
            decreases self.list@.len() - i,
        {
            let at = normalize("/", self.list[i].at.as_str());
            assert(texts(at@) == self@[i as int].comps());
            let covers = is_prefix(&at, comps);
            let better = covers && match best {
                Some((_, depth)) => at.len() >= depth,
                None => true,
            };
            if better {
                best = Some((i, at.len()));
            }
            i = i + 1;
        }
        match best {
            Some((b, depth)) => {
                let rest = parts_between(comps, depth, comps.len());
                Some((b, join(&rest)))
            },
            None => None,
        }
    }

    /// How deep a mount point lies.
    pub fn depth(&self, i: usize) -> (r: usize)
        requires
            i < self@.len(),
        ensures
            r == self@[i as int].comps().len(),
    {
        normalize("/", self.list[i].at.as_str()).len()
    }

    /// Whether a mount has symlinks to look for.
    pub fn has_symlinks(&self, i: usize) -> (r: bool)
        requires
            self.wf(),
        ensures
            r == has_links::<V>(self@, i as int),
    {
        i < self.list.len() && self.list[i].vfs.has_symlinks()
    }

    pub fn open(&mut self, i: usize, path: &str, opts: &OpenOptions) -> (r: VfsResult<
        <V as VfsFile>::Handle,
    >)
        requires
            old(self).wf(),
        ensures
            final(self).wf(),
            called::<V>(old(self)@, i as int, VfsCall::Open { path: path@, opts: *opts }) == (
                final(self)@,
                opened_answer(r),
            ),
    {
        if i >= self.list.len() {
            return Err(Errno::NOENT);
        }
        let ghost before = self@;
        let r = self.list[i].vfs.open(path, opts);
        assert(self@ =~= before.update(i as int, mount_view(self.list@[i as int])));
        r
    }

    pub fn stat(&mut self, i: usize, path: &str, follow: bool) -> (r: VfsResult<Stat>)
        requires
            old(self).wf(),
        ensures
            final(self).wf(),
            called::<V>(old(self)@, i as int, VfsCall::Stat { path: path@, follow }) == (
                final(self)@,
                stat_answer::<<V as VfsFile>::Handle>(r),
            ),
    {
        if i >= self.list.len() {
            return Err(Errno::NOENT);
        }
        let ghost before = self@;
        let r = self.list[i].vfs.stat(path, follow);
        assert(self@ =~= before.update(i as int, mount_view(self.list@[i as int])));
        r
    }

    pub fn readdir(&mut self, i: usize, path: &str) -> (r: VfsResult<Vec<DirEntry>>)
        requires
            old(self).wf(),
        ensures
            final(self).wf(),
            called::<V>(old(self)@, i as int, VfsCall::Readdir { path: path@ }) == (
                final(self)@,
                listing_answer::<<V as VfsFile>::Handle>(r),
            ),
    {
        if i >= self.list.len() {
            return Err(Errno::NOENT);
        }
        let ghost before = self@;
        let r = self.list[i].vfs.readdir(path);
        assert(self@ =~= before.update(i as int, mount_view(self.list@[i as int])));
        r
    }

    pub fn mkdir(&mut self, i: usize, path: &str, mode: u32) -> (r: VfsResult<()>)
        requires
            old(self).wf(),
        ensures
            final(self).wf(),
            called::<V>(old(self)@, i as int, VfsCall::Mkdir { path: path@, mode }) == (
                final(self)@,
                done_answer::<<V as VfsFile>::Handle>(r),
            ),
    {
        if i >= self.list.len() {
            return Err(Errno::NOENT);
        }
        let ghost before = self@;
        let r = self.list[i].vfs.mkdir(path, mode);
        assert(self@ =~= before.update(i as int, mount_view(self.list@[i as int])));
        r
    }

    pub fn unlink(&mut self, i: usize, path: &str) -> (r: VfsResult<()>)
        requires
            old(self).wf(),
        ensures
            final(self).wf(),
            called::<V>(old(self)@, i as int, VfsCall::Unlink { path: path@ }) == (
                final(self)@,
                done_answer::<<V as VfsFile>::Handle>(r),
            ),
    {
        if i >= self.list.len() {
            return Err(Errno::NOENT);
        }
        let ghost before = self@;
        let r = self.list[i].vfs.unlink(path);
        assert(self@ =~= before.update(i as int, mount_view(self.list@[i as int])));
        r
    }

    pub fn rmdir(&mut self, i: usize, path: &str) -> (r: VfsResult<()>)
        requires
            old(self).wf(),
        ensures
            final(self).wf(),
            called::<V>(old(self)@, i as int, VfsCall::Rmdir { path: path@ }) == (
                final(self)@,
                done_answer::<<V as VfsFile>::Handle>(r),
            ),
    {
        if i >= self.list.len() {
            return Err(Errno::NOENT);
        }
        let ghost before = self@;
        let r = self.list[i].vfs.rmdir(path);
        assert(self@ =~= before.update(i as int, mount_view(self.list@[i as int])));
        r
    }

    pub fn rename(&mut self, i: usize, from: &str, to: &str) -> (r: VfsResult<()>)
        requires
            old(self).wf(),
        ensures
            final(self).wf(),
            called::<V>(old(self)@, i as int, VfsCall::Rename { from: from@, to: to@ }) == (
                final(self)@,
                done_answer::<<V as VfsFile>::Handle>(r),
            ),
    {
        if i >= self.list.len() {
            return Err(Errno::NOENT);
        }
        let ghost before = self@;
        let r = self.list[i].vfs.rename(from, to);
        assert(self@ =~= before.update(i as int, mount_view(self.list@[i as int])));
        r
    }

    pub fn symlink(&mut self, i: usize, target: &str, link: &str) -> (r: VfsResult<()>)
        requires
            old(self).wf(),
        ensures
            final(self).wf(),
            called::<V>(
                old(self)@,
                i as int,
                VfsCall::Symlink { target: target@, link: link@ },
            ) == (final(self)@, done_answer::<<V as VfsFile>::Handle>(r)),
    {
        if i >= self.list.len() {
            return Err(Errno::NOENT);
        }
        let ghost before = self@;
        let r = self.list[i].vfs.symlink(target, link);
        assert(self@ =~= before.update(i as int, mount_view(self.list@[i as int])));
        r
    }

    pub fn readlink(&mut self, i: usize, path: &str) -> (r: VfsResult<String>)
        requires
            old(self).wf(),
        ensures
            final(self).wf(),
            called::<V>(old(self)@, i as int, VfsCall::Readlink { path: path@ }) == (
                final(self)@,
                target_answer::<<V as VfsFile>::Handle>(r),
            ),
    {
        if i >= self.list.len() {
            return Err(Errno::NOENT);
        }
        let ghost before = self@;
        let r = self.list[i].vfs.readlink(path);
        assert(self@ =~= before.update(i as int, mount_view(self.list@[i as int])));
        r
    }

    pub fn truncate(&mut self, i: usize, path: &str, len: u64) -> (r: VfsResult<()>)
        requires
            old(self).wf(),
        ensures
            final(self).wf(),
            called::<V>(old(self)@, i as int, VfsCall::Truncate { path: path@, len }) == (
                final(self)@,
                done_answer::<<V as VfsFile>::Handle>(r),
            ),
    {
        if i >= self.list.len() {
            return Err(Errno::NOENT);
        }
        let ghost before = self@;
        let r = self.list[i].vfs.truncate(path, len);
        assert(self@ =~= before.update(i as int, mount_view(self.list@[i as int])));
        r
    }

    pub fn set_mode(&mut self, i: usize, path: &str, mode: u32) -> (r: VfsResult<()>)
        requires
            old(self).wf(),
        ensures
            final(self).wf(),
            called::<V>(old(self)@, i as int, VfsCall::SetMode { path: path@, mode }) == (
                final(self)@,
                done_answer::<<V as VfsFile>::Handle>(r),
            ),
    {
        if i >= self.list.len() {
            return Err(Errno::NOENT);
        }
        let ghost before = self@;
        let r = self.list[i].vfs.set_mode(path, mode);
        assert(self@ =~= before.update(i as int, mount_view(self.list@[i as int])));
        r
    }

    pub fn file_read(&mut self, i: usize, file: &mut <V as VfsFile>::Handle, len: usize) -> (r:
        VfsResult<Vec<u8>>)
        requires
            old(self).wf(),
        ensures
            final(self).wf(),
            file_called::<V>(old(self)@, i as int, *old(file), FileCall::Read { max: len }) == (
                final(self)@,
                *final(file),
                file_data(r),
            ),
            r matches Ok(data) ==> data@.len() <= len,
    {
        if i >= self.list.len() {
            return Err(Errno::BADF);
        }
        let ghost before = self@;
        let r = self.list[i].vfs.read(file, len);
        assert(self@ =~= before.update(i as int, mount_view(self.list@[i as int])));
        r
    }

    pub fn file_write(&mut self, i: usize, file: &mut <V as VfsFile>::Handle, data: &[u8]) -> (r:
        VfsResult<usize>)
        requires
            old(self).wf(),
        ensures
            final(self).wf(),
            file_called::<V>(old(self)@, i as int, *old(file), FileCall::Write { data: data@ })
                == (final(self)@, *final(file), file_count(r)),
            r matches Ok(n) ==> n <= data@.len(),
    {
        if i >= self.list.len() {
            return Err(Errno::BADF);
        }
        let ghost before = self@;
        let r = self.list[i].vfs.write(file, data);
        assert(self@ =~= before.update(i as int, mount_view(self.list@[i as int])));
        r
    }

    pub fn file_seek(&mut self, i: usize, file: &mut <V as VfsFile>::Handle, from: SeekFrom) -> (r:
        VfsResult<u64>)
        requires
            old(self).wf(),
        ensures
            final(self).wf(),
            file_called::<V>(old(self)@, i as int, *old(file), FileCall::Seek { from }) == (
                final(self)@,
                *final(file),
                file_position(r),
            ),
    {
        if i >= self.list.len() {
            return Err(Errno::BADF);
        }
        let ghost before = self@;
        let r = self.list[i].vfs.seek(file, from);
        assert(self@ =~= before.update(i as int, mount_view(self.list@[i as int])));
        r
    }

    pub fn file_stat(&mut self, i: usize, file: &mut <V as VfsFile>::Handle) -> (r: VfsResult<
        Stat,
    >)
        requires
            old(self).wf(),
        ensures
            final(self).wf(),
            file_called::<V>(old(self)@, i as int, *old(file), FileCall::Stat) == (
                final(self)@,
                *final(file),
                file_stat(r),
            ),
    {
        if i >= self.list.len() {
            return Err(Errno::BADF);
        }
        let ghost before = self@;
        let r = self.list[i].vfs.stat_file(file);
        assert(self@ =~= before.update(i as int, mount_view(self.list@[i as int])));
        r
    }

    pub fn file_set_len(&mut self, i: usize, file: &mut <V as VfsFile>::Handle, len: u64) -> (r:
        VfsResult<()>)
        requires
            old(self).wf(),
        ensures
            final(self).wf(),
            file_called::<V>(old(self)@, i as int, *old(file), FileCall::SetLen { len }) == (
                final(self)@,
                *final(file),
                file_done(r),
            ),
    {
        if i >= self.list.len() {
            return Err(Errno::BADF);
        }
        let ghost before = self@;
        let r = self.list[i].vfs.set_len(file, len);
        assert(self@ =~= before.update(i as int, mount_view(self.list@[i as int])));
        r
    }

    pub fn file_close(&mut self, i: usize, file: &mut <V as VfsFile>::Handle) -> (r: VfsResult<()>)
        requires
            old(self).wf(),
        ensures
            final(self).wf(),
            file_called::<V>(old(self)@, i as int, *old(file), FileCall::Close) == (
                final(self)@,
                *final(file),
                file_done(r),
            ),
    {
        if i >= self.list.len() {
            return Err(Errno::BADF);
        }
        let ghost before = self@;
        let r = self.list[i].vfs.close(file);
        assert(self@ =~= before.update(i as int, mount_view(self.list@[i as int])));
        r
    }
}

/// Which program a path runs: an index into the program table.
pub type ProgramId = usize;

/// One path at which a program appears.
pub struct Placed {
    pub path: String,
    pub id: ProgramId,
}

/// Where the programs appear, in the order they were put there. A later one replaces an
/// earlier one at the same path.
pub struct Overlay {
    list: Vec<Placed>,
}

impl View for Overlay {
    type V = Seq<(Seq<char>, ProgramId)>;

    closed spec fn view(&self) -> Self::V {
        self.list@.map_values(|p: Placed| (p.path@, p.id))
    }
}

/// The program at a path, among the first `n` placed.
pub open spec fn program_among(
    programs: Seq<(Seq<char>, ProgramId)>,
    path: Seq<char>,
    n: int,
) -> Option<ProgramId>
    decreases n,
{
    if n <= 0 {
        None
    } else if programs[n - 1].0 == path {
        Some(programs[n - 1].1)
    } else {
        program_among(programs, path, n - 1)
    }
}

/// The program at a path.
pub open spec fn program_at(programs: Seq<(Seq<char>, ProgramId)>, path: Seq<char>) -> Option<
    ProgramId,
> {
    program_among(programs, path, programs.len() as int)
}

impl Overlay {
    pub fn new() -> (r: Overlay)
        ensures
            r@ == Seq::<(Seq<char>, ProgramId)>::empty(),
    {
        let r = Overlay { list: Vec::new() };
        assert(r@ =~= Seq::<(Seq<char>, ProgramId)>::empty());
        r
    }

    /// Let a program appear at `path`.
    pub fn place(&mut self, path: String, id: ProgramId)
        ensures
            final(self)@ == old(self)@.push((path@, id)),
    {
        let ghost before = self@;
        self.list.push(Placed { path, id });
        assert(self@ =~= before.push((path@, id)));
    }

    pub fn len(&self) -> (r: usize)
        ensures
            r == self@.len(),
    {
        self.list.len()
    }

    /// The path of one placed program.
    pub fn path(&self, i: usize) -> (r: &str)
        requires
            i < self@.len(),
        ensures
            r@ == self@[i as int].0,
    {
        self.list[i].path.as_str()
    }

    /// A second overlay with the same programs.
    pub fn copy(&self) -> (r: Overlay)
        ensures
            r@ == self@,
    {
        let mut out = Overlay::new();
        let mut i: usize = 0;
        while i < self.list.len()
            invariant
                i <= self.list@.len(),
                self@.len() == self.list@.len(),
                out@ == self@.subrange(0, i as int),
            decreases self.list@.len() - i,
        {
            out.place(self.list[i].path.clone(), self.list[i].id);
            i = i + 1;
            assert(out@ =~= self@.subrange(0, i as int));
        }
        assert(self@.subrange(0, i as int) =~= self@);
        out
    }

    /// The program at a path, if one is there.
    pub fn program(&self, path: &str) -> (r: Option<ProgramId>)
        ensures
            r == program_at(self@, path@),
    {
        let mut n: usize = self.list.len();
        while n > 0
            invariant
                n <= self.list@.len(),
                self@.len() == self.list@.len(),
                program_at(self@, path@) == program_among(self@, path@, n as int),
            decreases n,
        {
            assert(self@[n - 1].0 == self.list@[n - 1].path@);
            if same(self.list[n - 1].path.as_str(), path) {
                return Some(self.list[n - 1].id);
            }
            n = n - 1;
        }
        None
    }
}

} // verus!
