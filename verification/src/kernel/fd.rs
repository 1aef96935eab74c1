//! Open file descriptions, pipes and descriptor tables.
//!
//! The shape follows Linux: a *descriptor* (an integer in a process's table) points at a
//! *description* (the thing with a file position and status flags), and `dup` makes a second
//! descriptor for the same description. Descriptions live in a slab owned by the kernel and
//! are referred to by key, so sharing them across processes costs a reference count.
//!
//! Reference counts are adjusted explicitly: every path that ends a process goes through
//! [`Shared::release_fds`](super::state::Shared::release_fds).
use crate::abi::{
    DT_DIR, DT_LNK, DT_REG, DT_UNKNOWN, O_ACCMODE, O_NONBLOCK, O_RDONLY, O_RDWR, O_WRONLY,
};
use crate::errno::{Errno, VfsResult};
use crate::slab::{Key, Slab, SlabView};
use crate::vfs::FileType;
use std::collections::VecDeque;
use vstd::prelude::*;

verus! {

/// A key into the kernel's description slab.
pub type DescKey = Key;

/// A key into the kernel's pipe slab.
pub type PipeKey = Key;

/// How many bytes a pipe holds before a writer blocks. Linux's default is the same.
pub const PIPE_CAPACITY: usize = 65536;

/// One directory entry as the guest will see it in `getdents64`.
pub struct DirEnt {
    pub ino: u64,
    pub kind: u8,
    pub name: String,
}

/// The content of a [`DirEnt`].
#[verifier::ext_equal]
pub struct DirEntView {
    pub ino: u64,
    pub kind: u8,
    pub name: Seq<char>,
}

impl View for DirEnt {
    type V = DirEntView;

    open spec fn view(&self) -> DirEntView {
        DirEntView { ino: self.ino, kind: self.kind, name: self.name@ }
    }
}

/// A listing, entry by entry.
pub open spec fn listing(entries: Seq<DirEnt>) -> Seq<DirEntView> {
    entries.map_values(|e: DirEnt| e@)
}

/// What an open description actually is.
pub enum DescKind<F> {
    /// A file belonging to a mount.
    File {
        /// The mount's own handle.
        file: F,
        /// Which mount it came from, so a write can be refused on a read-only one.
        mount: usize,
        /// Set once the file was closed, so it is not closed twice.
        closed: bool,
    },
    /// A directory, listed once at open time. `getdents64` walks the snapshot.
    Dir { entries: Vec<DirEnt>, pos: usize },
    /// Bytes the kernel generated, such as a `/proc` file. Read-only and already complete.
    Memory { data: Vec<u8>, pos: usize },
    /// The reading end of a pipe.
    PipeRead(PipeKey),
    /// The writing end of a pipe.
    PipeWrite(PipeKey),
    /// The session's standard input.
    Stdin,
    /// The session's standard output (1) or error (2).
    Stdout(u8),
    /// `/dev/null`.
    Null,
    /// `/dev/zero`.
    Zero,
    /// `/dev/urandom`.
    Random,
}

/// The content of a [`DescKind`].
#[verifier::ext_equal]
pub enum KindView<F> {
    File { file: F, mount: usize, closed: bool },
    Dir { entries: Seq<DirEntView>, pos: usize },
    Memory { data: Seq<u8>, pos: usize },
    PipeRead(PipeKey),
    PipeWrite(PipeKey),
    Stdin,
    Stdout(u8),
    Null,
    Zero,
    Random,
}

impl<F> View for DescKind<F> {
    type V = KindView<F>;

    open spec fn view(&self) -> KindView<F> {
        match *self {
            DescKind::File { file, mount, closed } => KindView::File { file, mount, closed },
            DescKind::Dir { entries, pos } => KindView::Dir { entries: listing(entries@), pos },
            DescKind::Memory { data, pos } => KindView::Memory { data: data@, pos },
            DescKind::PipeRead(k) => KindView::PipeRead(k),
            DescKind::PipeWrite(k) => KindView::PipeWrite(k),
            DescKind::Stdin => KindView::Stdin,
            DescKind::Stdout(n) => KindView::Stdout(n),
            DescKind::Null => KindView::Null,
            DescKind::Zero => KindView::Zero,
            DescKind::Random => KindView::Random,
        }
    }
}

/// An open file description: the state `dup` shares and `open` creates fresh.
pub struct Desc<F> {
    pub kind: DescKind<F>,
    /// The guest path it was opened as, for `/proc/self/fd` and `fchdir`.
    pub path: String,
    /// Access mode and status flags: `O_RDONLY`/`O_WRONLY`/`O_RDWR`, `O_APPEND`, `O_NONBLOCK`.
    pub flags: u32,
    /// Number of descriptors pointing here.
    pub refs: u32,
}

/// The content of a [`Desc`].
#[verifier::ext_equal]
pub struct DescView<F> {
    pub kind: KindView<F>,
    pub path: Seq<char>,
    pub flags: u32,
    pub refs: u32,
}

impl<F> View for Desc<F> {
    type V = DescView<F>;

    open spec fn view(&self) -> DescView<F> {
        DescView { kind: self.kind@, path: self.path@, flags: self.flags, refs: self.refs }
    }
}

/// One more than `n`, unless that is more than a count can hold.
pub open spec fn more(n: u32) -> u32 {
    if n < u32::MAX {
        (n + 1) as u32
    } else {
        n
    }
}

/// One less than `n`, or zero.
pub open spec fn fewer(n: u32) -> u32 {
    if n > 0 {
        (n - 1) as u32
    } else {
        0
    }
}

impl<F> DescView<F> {
    /// A description one descriptor points at.
    pub open spec fn fresh(kind: KindView<F>, path: Seq<char>, flags: u32) -> DescView<F> {
        DescView { kind, path, flags, refs: 1 }
    }

    pub open spec fn nonblocking(self) -> bool {
        self.flags & O_NONBLOCK != 0
    }

    pub open spec fn can_write(self) -> bool {
        self.flags & O_ACCMODE == O_WRONLY || self.flags & O_ACCMODE == O_RDWR
    }

    pub open spec fn can_read(self) -> bool {
        self.flags & O_ACCMODE == O_RDONLY || self.flags & O_ACCMODE == O_RDWR
    }

    /// Whether this is one of the session's standard streams.
    pub open spec fn is_stream(self) -> bool {
        self.kind is Stdin || self.kind is Stdout
    }
}

impl<F> Desc<F> {
    pub fn new(kind: DescKind<F>, path: String, flags: u32) -> (r: Desc<F>)
        ensures
            r@ == DescView::fresh(kind@, path@, flags),
    {
        Desc { kind, path, flags, refs: 1 }
    }

    pub fn is_nonblocking(&self) -> (r: bool)
        ensures
            r == self@.nonblocking(),
    {
        self.flags & O_NONBLOCK != 0
    }

    /// Whether the guest may write, by the mode it opened with.
    pub fn writable(&self) -> (r: bool)
        ensures
            r == self@.can_write(),
    {
        self.flags & O_ACCMODE == O_WRONLY || self.flags & O_ACCMODE == O_RDWR
    }

    /// Whether the guest may read, by the mode it opened with.
    pub fn readable(&self) -> (r: bool)
        ensures
            r == self@.can_read(),
    {
        self.flags & O_ACCMODE == O_RDONLY || self.flags & O_ACCMODE == O_RDWR
    }

    /// Whether `isatty` should say yes: only for a standard stream, and only in a session that
    /// was given a terminal.
    ///
    /// Without one the standard streams are buffers the host owns, so a program that asks is
    /// told what is true: this is a pipe. That keeps `jq` from emitting colour codes and keeps
    /// a shell out of its line-editing path, which is what a tool wants.
    pub fn is_tty(&self, has_terminal: bool) -> (r: bool)
        ensures
            r == (has_terminal && self@.is_stream()),
    {
        has_terminal && match self.kind {
            DescKind::Stdin | DescKind::Stdout(_) => true,
            _ => false,
        }
    }
}

/// A pipe's buffer and the number of open ends.
pub struct Pipe {
    pub data: VecDeque<u8>,
    pub readers: u32,
    pub writers: u32,
}

/// The content of a [`Pipe`].
#[verifier::ext_equal]
pub struct PipeView {
    pub data: Seq<u8>,
    pub readers: u32,
    pub writers: u32,
}

impl View for Pipe {
    type V = PipeView;

    open spec fn view(&self) -> PipeView {
        PipeView { data: self.data@, readers: self.readers, writers: self.writers }
    }
}

impl PipeView {
    /// An empty pipe with both ends open once.
    pub open spec fn fresh() -> PipeView {
        PipeView { data: Seq::empty(), readers: 1, writers: 1 }
    }

    /// How many more bytes fit.
    pub open spec fn space(self) -> int {
        if self.data.len() < PIPE_CAPACITY {
            PIPE_CAPACITY - self.data.len()
        } else {
            0
        }
    }
}

impl Pipe {
    pub fn new() -> (r: Pipe)
        ensures
            r@ == PipeView::fresh(),
    {
        Pipe { data: VecDeque::new(), readers: 1, writers: 1 }
    }

    pub fn room(&self) -> (r: usize)
        ensures
            r == self@.space(),
    {
        let held: usize = self.data.len();
        if held < PIPE_CAPACITY {
            PIPE_CAPACITY - held
        } else {
            0
        }
    }
}

/// One descriptor in a process's table.
#[derive(Clone, Copy, PartialEq, Eq, Debug, Structural)]
pub struct Fd {
    pub desc: DescKey,
    pub cloexec: bool,
}

/// A process's descriptor table: the integers the guest passes around.
pub struct FdTable {
    slots: Vec<Option<Fd>>,
}

/// What a descriptor refers to.
pub open spec fn fd_at(slots: Seq<Option<Fd>>, fd: int) -> Option<Fd> {
    if 0 <= fd < slots.len() {
        slots[fd]
    } else {
        None
    }
}

/// The lowest free descriptor at or above `i`.
pub open spec fn free_from(slots: Seq<Option<Fd>>, i: int) -> int
    decreases slots.len() - i,
{
    if i >= slots.len() || slots[i] is None {
        i
    } else {
        free_from(slots, i + 1)
    }
}

/// The table with `entry` at `i`, made longer where it has to be.
pub open spec fn with_fd(slots: Seq<Option<Fd>>, i: int, entry: Fd) -> Seq<Option<Fd>> {
    Seq::new(
        if i < slots.len() {
            slots.len()
        } else {
            (i + 1) as nat
        },
        |j: int|
            if j == i {
                Some(entry)
            } else {
                fd_at(slots, j)
            },
    )
}

/// The descriptions of the entries `keep` picks, in descriptor order.
pub open spec fn picked(slots: Seq<Option<Fd>>, keep: spec_fn(Fd) -> bool) -> Seq<DescKey>
    decreases slots.len(),
{
    if slots.len() == 0 {
        Seq::empty()
    } else {
        let rest = picked(slots.drop_last(), keep);
        match slots.last() {
            Some(entry) => if keep(entry) {
                rest.push(entry.desc)
            } else {
                rest
            },
            None => rest,
        }
    }
}

/// The descriptions of every live entry, in descriptor order.
pub open spec fn live_descs(slots: Seq<Option<Fd>>) -> Seq<DescKey> {
    picked(slots, |e: Fd| true)
}

/// The descriptions of the entries marked close-on-exec, in descriptor order.
pub open spec fn cloexec_descs(slots: Seq<Option<Fd>>) -> Seq<DescKey> {
    picked(slots, |e: Fd| e.cloexec)
}

/// The table without the entries marked close-on-exec.
pub open spec fn without_cloexec(slots: Seq<Option<Fd>>) -> Seq<Option<Fd>> {
    slots.map_values(
        |s: Option<Fd>|
            match s {
                Some(entry) => if entry.cloexec {
                    None
                } else {
                    Some(entry)
                },
                None => None,
            },
    )
}

/// How many of the slots hold an entry.
pub open spec fn count_of(slots: Seq<Option<Fd>>) -> nat
    decreases slots.len(),
{
    if slots.len() == 0 {
        0
    } else {
        count_of(slots.drop_last()) + if slots.last() is Some {
            1nat
        } else {
            0nat
        }
    }
}

/// The slab with one more reference to the description under `k`, if there is one.
pub open spec fn retained<F>(descs: SlabView<DescView<F>>, k: DescKey) -> SlabView<DescView<F>> {
    match descs.get(k) {
        Some(d) => descs.set(k, DescView { refs: more(d.refs), ..d }),
        None => descs,
    }
}

/// The slab with one more reference to each description listed.
pub open spec fn retained_all<F>(
    descs: SlabView<DescView<F>>,
    keys: Seq<DescKey>,
) -> SlabView<DescView<F>>
    decreases keys.len(),
{
    if keys.len() == 0 {
        descs
    } else {
        retained(retained_all(descs, keys.drop_last()), keys.last())
    }
}

/// Add a reference to a description.
pub fn retain<F>(descs: &mut Slab<Desc<F>>, k: DescKey)
    requires
        old(descs)@.wf(),
    ensures
        final(descs)@ == retained(old(descs)@, k),
        final(descs)@.wf(),
{
    match descs.get_mut(k) {
        Some(desc) => {
            if desc.refs < u32::MAX {
                desc.refs = desc.refs + 1;
            }
        },
        None => {},
    }
    proof {
        if old(descs)@.contains(k) {
            assert(descs@.wf());
        }
    }
}

impl View for FdTable {
    type V = Seq<Option<Fd>>;

    closed spec fn view(&self) -> Seq<Option<Fd>> {
        self.slots@
    }
}

impl FdTable {
    pub fn new() -> (r: FdTable)
        ensures
            r@ == Seq::<Option<Fd>>::empty(),
    {
        FdTable { slots: Vec::new() }
    }

    pub fn get(&self, fd: i32) -> (r: VfsResult<Fd>)
        ensures
            r == match fd_at(self@, fd as int) {
                Some(entry) => Ok(entry),
                None => Err(Errno::BADF),
            },
    {
        if fd < 0 || fd as usize >= self.slots.len() {
            return Err(Errno::BADF);
        }
        match self.slots[fd as usize] {
            Some(entry) => Ok(entry),
            None => Err(Errno::BADF),
        }
    }

    pub fn set_cloexec(&mut self, fd: i32, on: bool) -> (r: VfsResult<()>)
        ensures
            match fd_at(old(self)@, fd as int) {
                Some(entry) => {
                    &&& r == Ok::<(), Errno>(())
                    &&& final(self)@ == old(self)@.update(
                        fd as int,
                        Some(Fd { desc: entry.desc, cloexec: on }),
                    )
                },
                None => r == Err::<(), Errno>(Errno::BADF) && final(self)@ == old(self)@,
            },
    {
        match self.get(fd) {
            Ok(entry) => {
                self.slots[fd as usize] = Some(Fd { desc: entry.desc, cloexec: on });
                Ok(())
            },
            Err(e) => Err(e),
        }
    }

    /// Put `entry` at the lowest free descriptor at or above `min`.
    pub fn allocate(&mut self, entry: Fd, min: usize, max: usize) -> (r: VfsResult<i32>)
        ensures
            ({
                let fd = free_from(old(self)@, min as int);
                if fd < max && fd < i32::MAX {
                    r == Ok::<i32, Errno>(fd as i32) && final(self)@ == with_fd(
                        old(self)@,
                        fd,
                        entry,
                    )
                } else {
                    r == Err::<i32, Errno>(Errno::MFILE) && final(self)@ == old(self)@
                }
            }),
    {
        let i: usize = self.lowest_free(min);
        if i >= max || i >= 0x7fff_ffff {
            return Err(Errno::MFILE);
        }
        self.place(i, entry);
        Ok(i as i32)
    }

    /// The lowest free descriptor at or above `min`.
    pub fn lowest_free(&self, min: usize) -> (r: usize)
        ensures
            r == free_from(self@, min as int),
    {
        let mut i: usize = min;
        while i < self.slots.len() && self.slots[i].is_some()
            invariant
                free_from(self@, min as int) == free_from(self@, i as int),
            decreases self@.len() - i,
        {
            i = i + 1;
        }
        i
    }

    /// Put `entry` at `i`, growing the table where it has to.
    fn place(&mut self, i: usize, entry: Fd)
        requires
            i < i32::MAX,
        ensures
            final(self)@ == with_fd(old(self)@, i as int, entry),
    {
        let ghost before = self@;
        if i >= self.slots.len() {
            self.slots.resize(i + 1, None);
            assert forall|j: int| 0 <= j <= i implies self.slots@[j] == fd_at(before, j) by {
                if j < before.len() {
                    assert(self.slots@.subrange(0, before.len() as int)[j] == before[j]);
                } else {
                    assert(cloned(None::<Fd>, self.slots@[j]));
                }
            }
        }
        self.slots[i] = Some(entry);
        assert(self@ =~= with_fd(before, i as int, entry));
    }

    /// Put `entry` at exactly `fd`, returning what was there.
    pub fn replace(&mut self, fd: i32, entry: Fd, max: usize) -> (r: VfsResult<Option<Fd>>)
        ensures
            if 0 <= fd < max && fd < i32::MAX {
                r == Ok::<Option<Fd>, Errno>(fd_at(old(self)@, fd as int)) && final(self)@
                    == with_fd(old(self)@, fd as int, entry)
            } else {
                r == Err::<Option<Fd>, Errno>(Errno::BADF) && final(self)@ == old(self)@
            },
    {
        if fd < 0 || fd as usize >= max || fd == i32::MAX {
            return Err(Errno::BADF);
        }
        let i: usize = fd as usize;
        let previous: Option<Fd> = if i < self.slots.len() {
            self.slots[i]
        } else {
            None
        };
        self.place(i, entry);
        Ok(previous)
    }

    /// Remove `fd`, returning the description it referred to.
    pub fn take(&mut self, fd: i32) -> (r: VfsResult<Fd>)
        ensures
            match fd_at(old(self)@, fd as int) {
                Some(entry) => {
                    &&& r == Ok::<Fd, Errno>(entry)
                    &&& final(self)@ == old(self)@.update(fd as int, None)
                },
                None => r == Err::<Fd, Errno>(Errno::BADF) && final(self)@ == old(self)@,
            },
    {
        match self.get(fd) {
            Ok(entry) => {
                self.slots[fd as usize] = None;
                Ok(entry)
            },
            Err(e) => Err(e),
        }
    }

    /// Drop the descriptors marked close-on-exec, returning their descriptions.
    pub fn drain_cloexec(&mut self) -> (r: Vec<DescKey>)
        ensures
            r@ == cloexec_descs(old(self)@),
            final(self)@ == without_cloexec(old(self)@),
    {
        let ghost before = self@;
        let ghost keep = |e: Fd| e.cloexec;
        let mut released: Vec<DescKey> = Vec::new();
        let mut i: usize = 0;
        while i < self.slots.len()
            invariant
                i <= self.slots@.len(),
                self.slots@.len() == before.len(),
                keep == (|e: Fd| e.cloexec),
                released@ == picked(before.subrange(0, i as int), keep),
                forall|j: int|
                    0 <= j < i ==> self.slots@[j] == #[trigger] without_cloexec(before)[j],
                forall|j: int| i <= j < before.len() ==> #[trigger] self.slots@[j] == before[j],
            decreases before.len() - i,
        {
            let slot: Option<Fd> = self.slots[i];
            assert(before.subrange(0, i + 1).drop_last() =~= before.subrange(0, i as int));
            match slot {
                Some(entry) => {
                    if entry.cloexec {
                        released.push(entry.desc);
                        self.slots[i] = None;
                    }
                },
                None => {},
            }
            assert(without_cloexec(before)[i as int] == self.slots@[i as int]);
            i = i + 1;
        }
        assert(before.subrange(0, i as int) =~= before);
        assert(self@ =~= without_cloexec(before));
        released
    }

    /// Empty the table, returning every description that lost a reference.
    pub fn drain_all(&mut self) -> (r: Vec<DescKey>)
        ensures
            r@ == live_descs(old(self)@),
            count_of(final(self)@) == 0,
            final(self)@ == Seq::<Option<Fd>>::empty(),
    {
        let ghost before = self@;
        let ghost keep = |e: Fd| true;
        let mut released: Vec<DescKey> = Vec::new();
        let mut i: usize = 0;
        while i < self.slots.len()
            invariant
                i <= self.slots@.len(),
                self.slots@ == before,
                keep == (|e: Fd| true),
                released@ == picked(before.subrange(0, i as int), keep),
            decreases before.len() - i,
        {
            assert(before.subrange(0, i + 1).drop_last() =~= before.subrange(0, i as int));
            match self.slots[i] {
                Some(entry) => {
                    released.push(entry.desc);
                },
                None => {},
            }
            i = i + 1;
        }
        assert(before.subrange(0, i as int) =~= before);
        self.slots.clear();
        released
    }

    /// A copy for a new process. Every shared description gains a reference.
    pub fn duplicate<F>(&self, descs: &mut Slab<Desc<F>>) -> (r: FdTable)
        requires
            old(descs)@.wf(),
        ensures
            r@ == self@,
            final(descs)@ == retained_all(old(descs)@, live_descs(self@)),
            final(descs)@.wf(),
    {
        let ghost before = descs@;
        let ghost keep = |e: Fd| true;
        let mut slots: Vec<Option<Fd>> = Vec::new();
        let mut i: usize = 0;
        while i < self.slots.len()
            invariant
                i <= self.slots@.len(),
                keep == (|e: Fd| true),
                slots@ == self.slots@.subrange(0, i as int),
                descs@ == retained_all(before, picked(self.slots@.subrange(0, i as int), keep)),
                descs@.wf(),
            decreases self.slots@.len() - i,
        {
            assert(self.slots@.subrange(0, i + 1).drop_last() =~= self.slots@.subrange(
                0,
                i as int,
            ));
            let slot: Option<Fd> = self.slots[i];
            match slot {
                Some(entry) => {
                    retain(descs, entry.desc);
                    proof {
                        let head = picked(self.slots@.subrange(0, i as int), keep);
                        assert(head.push(entry.desc).drop_last() =~= head);
                    }
                },
                None => {},
            }
            slots.push(slot);
            i = i + 1;
            assert(slots@ =~= self.slots@.subrange(0, i as int));
        }
        assert(self.slots@.subrange(0, i as int) =~= self.slots@);
        FdTable { slots }
    }

    /// How many descriptors are open.
    pub fn count(&self) -> (r: usize)
        ensures
            r == count_of(self@),
    {
        let mut n: usize = 0;
        let mut i: usize = 0;
        while i < self.slots.len()
            invariant
                i <= self.slots@.len(),
                n <= i,
                n == count_of(self.slots@.subrange(0, i as int)),
            decreases self.slots@.len() - i,
        {
            assert(self.slots@.subrange(0, i + 1).drop_last() =~= self.slots@.subrange(
                0,
                i as int,
            ));
            if self.slots[i].is_some() {
                n = n + 1;
            }
            i = i + 1;
        }
        assert(self.slots@.subrange(0, i as int) =~= self.slots@);
        n
    }
}

/// The `d_type` byte for a directory entry.
pub open spec fn dirent_type(t: Option<FileType>) -> u8 {
    match t {
        Some(FileType::Dir) => DT_DIR,
        Some(FileType::File) => DT_REG,
        Some(FileType::Symlink) => DT_LNK,
        None => DT_UNKNOWN,
    }
}

/// The `d_type` byte for a directory entry.
pub fn dirent_kind(t: Option<FileType>) -> (r: u8)
    ensures
        r == dirent_type(t),
{
    match t {
        Some(FileType::Dir) => DT_DIR,
        Some(FileType::File) => DT_REG,
        Some(FileType::Symlink) => DT_LNK,
        None => DT_UNKNOWN,
    }
}

} // verus!
