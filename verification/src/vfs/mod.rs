//! The filesystem the guest sees: implement [`Vfs`] to give it yours.
//!
//! # The contract
//!
//! **Paths** arrive absolute, normalized and relative to the mount point: a `Vfs` mounted at
//! `/work` is asked for `/notes/a.md` when the guest opens `/work/notes/a.md`. There are no
//! `.` or `..` components, no empty components and no trailing slash. The mount root is `"/"`.
//! A path can therefore be used as a key directly, with no sanitizing: the kernel has already
//! done it, and a guest cannot escape the mount.
//!
//! **Blocking is expressed by [`Errno::AGAIN`].** A `Vfs` backed by something asynchronous
//! starts the work, returns `AGAIN`, and is asked again later. The kernel suspends only the
//! calling guest process; the rest keep running, and the session reports
//! [`Wait::Vfs`](crate::session::Wait::Vfs) to the caller so it can await its own future and
//! resume. Three rules make that sound:
//!
//! 1. **Retries are identical.** The same call is repeated with the same arguments, so an
//!    implementation must be idempotent and may cache by argument.
//! 2. **Writes are all or nothing.** A write either consumes bytes or returns `AGAIN` having
//!    consumed none.
//! 3. **`AGAIN` means progress is possible later.** Return a real error instead when the
//!    operation cannot succeed.
//!
//! **What a `Vfs` is not asked for.** `/bin`, `/dev`, `/proc` and the programs are synthesized
//! by the kernel and never reach a mount. Neither do permissions checks: everything runs as
//! root inside the sandbox, and a read-only mount is enforced by the kernel, not the `Vfs`.
//!
//! # How it is specified
//!
//! A filesystem is a state machine: [`VfsFile::state`] is what it holds, and [`Vfs::answer`]
//! and [`VfsFile::file_answer`] say, for each call, what it answers and what it holds
//! afterwards. The kernel's contracts speak of those functions, so they hold for every
//! filesystem.
pub mod either;
pub mod host;
pub mod memory;
pub mod simple;
use crate::errno::{Errno, VfsResult};
use vstd::prelude::*;

verus! {

/// What a directory entry or a stat refers to.
#[derive(Clone, Copy, PartialEq, Eq, PartialOrd, Ord, Hash, Debug, Structural)]
pub enum FileType {
    /// A regular file.
    File,
    /// A directory.
    Dir,
    /// A symbolic link.
    Symlink,
}

/// Metadata for one path.
///
/// Only the type and the size are needed; the rest have workable defaults, and `mode` is
/// completed by the kernel when left at zero.
#[derive(Clone, Copy, Debug)]
pub struct Stat {
    /// File, directory or symlink.
    pub file_type: FileType,
    /// Size in bytes. Ignored for directories.
    pub size: u64,
    /// Permission bits, without the type bits. Zero means "use the default": `0o755` for a
    /// directory, `0o644` for a file, `0o777` for a symlink.
    pub mode: u32,
    /// Inode number, for tools that detect hard links or recursion. Zero means the kernel
    /// derives a stable one by hashing the path.
    pub ino: u64,
    /// Modification time in seconds since the epoch, and nanoseconds.
    pub mtime: (i64, u32),
    /// Link count. Zero is treated as one.
    pub nlink: u32,
}

/// Metadata with a type and a size, and defaults for everything else.
pub open spec fn plain_stat(file_type: FileType, size: u64) -> Stat {
    Stat { file_type, size, mode: 0, ino: 0, mtime: (0, 0), nlink: 1 }
}

impl Stat {
    /// A regular file of `size` bytes, with defaults for everything else.
    pub fn file(size: u64) -> (r: Stat)
        ensures
            r == plain_stat(FileType::File, size),
    {
        Stat { file_type: FileType::File, size, mode: 0, ino: 0, mtime: (0, 0), nlink: 1 }
    }

    /// A directory, with defaults for everything else.
    pub fn dir() -> (r: Stat)
        ensures
            r == plain_stat(FileType::Dir, 0),
    {
        Stat { file_type: FileType::Dir, size: 0, mode: 0, ino: 0, mtime: (0, 0), nlink: 1 }
    }

    /// A symlink whose target is `len` bytes long.
    pub fn symlink(len: u64) -> (r: Stat)
        ensures
            r == plain_stat(FileType::Symlink, len),
    {
        Stat { file_type: FileType::Symlink, size: len, mode: 0, ino: 0, mtime: (0, 0), nlink: 1 }
    }
}

/// One entry of a directory listing.
#[derive(Clone, Debug)]
pub struct DirEntry {
    /// The file name alone, with no slashes. `.` and `..` are added by the kernel.
    pub name: String,
    /// The kind of entry, if known. `None` costs the caller a `stat` when it needs the type.
    pub file_type: Option<FileType>,
    /// Inode number, or zero to let the kernel derive one.
    pub ino: u64,
}

/// The content of a [`DirEntry`].
#[verifier::ext_equal]
pub struct DirEntryView {
    pub name: Seq<char>,
    pub file_type: Option<FileType>,
    pub ino: u64,
}

impl View for DirEntry {
    type V = DirEntryView;

    open spec fn view(&self) -> DirEntryView {
        DirEntryView { name: self.name@, file_type: self.file_type, ino: self.ino }
    }
}

/// The entries of a listing.
pub open spec fn entries_of(list: Seq<DirEntry>) -> Seq<DirEntryView> {
    list.map_values(|e: DirEntry| e@)
}

impl DirEntry {
    /// An entry of known type.
    pub fn new(name: String, file_type: FileType) -> (r: DirEntry)
        ensures
            r@ == (DirEntryView { name: name@, file_type: Some(file_type), ino: 0 }),
    {
        DirEntry { name, file_type: Some(file_type), ino: 0 }
    }
}

/// Where the file position starts for a seek.
#[derive(Clone, Copy, PartialEq, Eq, Debug, Structural)]
pub enum SeekFrom {
    /// From the beginning.
    Start(u64),
    /// From the end, backwards for a negative offset.
    End(i64),
    /// From the current position.
    Current(i64),
}

/// How the guest asked for a file to be opened.
#[derive(Clone, Copy, PartialEq, Eq, Debug, Structural)]
pub struct OpenOptions {
    /// Readable.
    pub read: bool,
    /// Writable.
    pub write: bool,
    /// Every write goes to the end.
    pub append: bool,
    /// Create if missing.
    pub create: bool,
    /// Create, and fail with [`Errno::EXIST`] if it is already there.
    pub create_new: bool,
    /// Set the length to zero on open.
    pub truncate: bool,
    /// Permission bits for a newly created file.
    pub mode: u32,
}

/// The permission bits of a file nobody gave any.
pub const DEFAULT_MODE: u32 = 0x1a4;

/// All flags off.
pub open spec fn no_options() -> OpenOptions {
    OpenOptions {
        read: false,
        write: false,
        append: false,
        create: false,
        create_new: false,
        truncate: false,
        mode: DEFAULT_MODE,
    }
}

impl OpenOptions {
    /// Read only, the common case.
    pub fn read() -> (r: OpenOptions)
        ensures
            r == (OpenOptions { read: true, ..no_options() }),
    {
        OpenOptions { read: true, ..OpenOptions::new() }
    }

    /// Create or truncate for writing.
    pub fn write() -> (r: OpenOptions)
        ensures
            r == (OpenOptions { write: true, create: true, truncate: true, ..no_options() }),
    {
        OpenOptions { write: true, create: true, truncate: true, ..OpenOptions::new() }
    }

    /// All flags off.
    pub fn new() -> (r: OpenOptions)
        ensures
            r == no_options(),
    {
        OpenOptions {
            read: false,
            write: false,
            append: false,
            create: false,
            create_new: false,
            truncate: false,
            mode: DEFAULT_MODE,
        }
    }
}

/// A call on a path of a filesystem.
#[verifier::ext_equal]
pub enum VfsCall {
    Open { path: Seq<char>, opts: OpenOptions },
    Stat { path: Seq<char>, follow: bool },
    Readdir { path: Seq<char> },
    Mkdir { path: Seq<char>, mode: u32 },
    Unlink { path: Seq<char> },
    Rmdir { path: Seq<char> },
    Rename { from: Seq<char>, to: Seq<char> },
    Symlink { target: Seq<char>, link: Seq<char> },
    Readlink { path: Seq<char> },
    Truncate { path: Seq<char>, len: u64 },
    SetMode { path: Seq<char>, mode: u32 },
}

/// The answer to a [`VfsCall`].
#[verifier::ext_equal]
pub enum VfsAnswer<H> {
    Fail(Errno),
    Done,
    Opened(H),
    Stat(Stat),
    Listing(Seq<DirEntryView>),
    Target(Seq<char>),
}

/// A call on an open file.
#[verifier::ext_equal]
pub enum FileCall {
    Read { max: usize },
    Write { data: Seq<u8> },
    Seek { from: SeekFrom },
    Stat,
    SetLen { len: u64 },
    Close,
}

/// The answer to a [`FileCall`].
#[verifier::ext_equal]
pub enum FileAnswer {
    Fail(Errno),
    Done,
    Data(Seq<u8>),
    Count(usize),
    Position(u64),
    Stat(Stat),
}

/// The answer that stands for a result without a value.
pub open spec fn done_answer<H>(r: VfsResult<()>) -> VfsAnswer<H> {
    match r {
        Ok(()) => VfsAnswer::Done,
        Err(e) => VfsAnswer::Fail(e),
    }
}

pub open spec fn opened_answer<H>(r: VfsResult<H>) -> VfsAnswer<H> {
    match r {
        Ok(h) => VfsAnswer::Opened(h),
        Err(e) => VfsAnswer::Fail(e),
    }
}

pub open spec fn stat_answer<H>(r: VfsResult<Stat>) -> VfsAnswer<H> {
    match r {
        Ok(st) => VfsAnswer::Stat(st),
        Err(e) => VfsAnswer::Fail(e),
    }
}

pub open spec fn listing_answer<H>(r: VfsResult<Vec<DirEntry>>) -> VfsAnswer<H> {
    match r {
        Ok(list) => VfsAnswer::Listing(entries_of(list@)),
        Err(e) => VfsAnswer::Fail(e),
    }
}

pub open spec fn target_answer<H>(r: VfsResult<String>) -> VfsAnswer<H> {
    match r {
        Ok(target) => VfsAnswer::Target(target@),
        Err(e) => VfsAnswer::Fail(e),
    }
}

pub open spec fn file_done(r: VfsResult<()>) -> FileAnswer {
    match r {
        Ok(()) => FileAnswer::Done,
        Err(e) => FileAnswer::Fail(e),
    }
}

pub open spec fn file_data(r: VfsResult<Vec<u8>>) -> FileAnswer {
    match r {
        Ok(data) => FileAnswer::Data(data@),
        Err(e) => FileAnswer::Fail(e),
    }
}

pub open spec fn file_count(r: VfsResult<usize>) -> FileAnswer {
    match r {
        Ok(n) => FileAnswer::Count(n),
        Err(e) => FileAnswer::Fail(e),
    }
}

pub open spec fn file_position(r: VfsResult<u64>) -> FileAnswer {
    match r {
        Ok(pos) => FileAnswer::Position(pos),
        Err(e) => FileAnswer::Fail(e),
    }
}

pub open spec fn file_stat(r: VfsResult<Stat>) -> FileAnswer {
    match r {
        Ok(st) => FileAnswer::Stat(st),
        Err(e) => FileAnswer::Fail(e),
    }
}

/// The operations on the open files of a filesystem.
///
/// A handle names an open file and holds its position; the bytes belong to the filesystem.
pub trait VfsFile: Sized {
    /// An open file.
    type Handle;

    /// What the filesystem holds, as far as its answers depend on it.
    type State;

    /// What the implementation keeps true of itself.
    spec fn wf(&self) -> bool;

    /// What the filesystem holds.
    spec fn state(&self) -> Self::State;

    /// What a call on an open file answers, and the filesystem and the handle afterwards.
    spec fn file_answer(s: Self::State, file: Self::Handle, call: FileCall) -> (
        Self::State,
        Self::Handle,
        FileAnswer,
    );

    /// Read at most `len` bytes at the current position, advancing it. None means end of file.
    fn read(&mut self, file: &mut Self::Handle, len: usize) -> (r: VfsResult<Vec<u8>>)
        requires
            old(self).wf(),
        ensures
            final(self).wf(),
            Self::file_answer(old(self).state(), *old(file), FileCall::Read { max: len }) == (
                final(self).state(),
                *final(file),
                file_data(r),
            ),
            r matches Ok(data) ==> data@.len() <= len,
    ;

    /// Write at the current position, advancing it. A short write is allowed; returning
    /// [`Errno::AGAIN`] is only allowed when nothing was consumed.
    fn write(&mut self, file: &mut Self::Handle, data: &[u8]) -> (r: VfsResult<usize>)
        requires
            old(self).wf(),
        ensures
            final(self).wf(),
            Self::file_answer(old(self).state(), *old(file), FileCall::Write { data: data@ }) == (
                final(self).state(),
                *final(file),
                file_count(r),
            ),
            r matches Ok(n) ==> n <= data@.len(),
    ;

    /// Move the file position, returning the new absolute position.
    fn seek(&mut self, file: &mut Self::Handle, from: SeekFrom) -> (r: VfsResult<u64>)
        requires
            old(self).wf(),
        ensures
            final(self).wf(),
            Self::file_answer(old(self).state(), *old(file), FileCall::Seek { from }) == (
                final(self).state(),
                *final(file),
                file_position(r),
            ),
    ;

    /// Metadata for the open file.
    fn stat_file(&mut self, file: &mut Self::Handle) -> (r: VfsResult<Stat>)
        requires
            old(self).wf(),
        ensures
            final(self).wf(),
            Self::file_answer(old(self).state(), *old(file), FileCall::Stat) == (
                final(self).state(),
                *final(file),
                file_stat(r),
            ),
    ;

    /// Set the length, zero-filling if it grows.
    fn set_len(&mut self, file: &mut Self::Handle, len: u64) -> (r: VfsResult<()>)
        requires
            old(self).wf(),
        ensures
            final(self).wf(),
            Self::file_answer(old(self).state(), *old(file), FileCall::SetLen { len }) == (
                final(self).state(),
                *final(file),
                file_done(r),
            ),
    ;

    /// Flush and release, before the handle is dropped. What it returns is what the guest's
    /// `close` reports; after [`Errno::AGAIN`] it is called again. Where a process ends with the
    /// file open there is nobody to report to.
    fn close(&mut self, file: &mut Self::Handle) -> (r: VfsResult<()>)
        requires
            old(self).wf(),
        ensures
            final(self).wf(),
            Self::file_answer(old(self).state(), *old(file), FileCall::Close) == (
                final(self).state(),
                *final(file),
                file_done(r),
            ),
    ;
}

/// A filesystem mounted into the guest's namespace.
///
/// See the [module documentation](self) for the path, blocking and idempotence rules.
pub trait Vfs: VfsFile {
    /// What a call on a path answers, and the filesystem afterwards.
    spec fn answer(s: Self::State, call: VfsCall) -> (Self::State, VfsAnswer<Self::Handle>);

    /// Whether this filesystem has symlinks at all.
    spec fn links(s: Self::State) -> bool;

    /// Open an existing file, or create one when [`OpenOptions::create`] is set.
    ///
    /// Opening a directory is the kernel's business, not this method's: it calls
    /// [`Vfs::readdir`] instead. A directory path here may return [`Errno::ISDIR`].
    fn open(&mut self, path: &str, opts: &OpenOptions) -> (r: VfsResult<Self::Handle>)
        requires
            old(self).wf(),
        ensures
            final(self).wf(),
            Self::answer(old(self).state(), VfsCall::Open { path: path@, opts: *opts }) == (
                final(self).state(),
                opened_answer::<Self::Handle>(r),
            ),
    ;

    /// Metadata for `path`. With `follow` false, describe a symlink itself rather than its
    /// target; an implementation without symlinks can ignore the flag.
    fn stat(&mut self, path: &str, follow: bool) -> (r: VfsResult<Stat>)
        requires
            old(self).wf(),
        ensures
            final(self).wf(),
            Self::answer(old(self).state(), VfsCall::Stat { path: path@, follow }) == (
                final(self).state(),
                stat_answer::<Self::Handle>(r),
            ),
    ;

    /// List a directory, in any order, without `.` or `..`.
    fn readdir(&mut self, path: &str) -> (r: VfsResult<Vec<DirEntry>>)
        requires
            old(self).wf(),
        ensures
            final(self).wf(),
            Self::answer(old(self).state(), VfsCall::Readdir { path: path@ }) == (
                final(self).state(),
                listing_answer::<Self::Handle>(r),
            ),
    ;

    /// Create a directory.
    fn mkdir(&mut self, path: &str, mode: u32) -> (r: VfsResult<()>)
        requires
            old(self).wf(),
        ensures
            final(self).wf(),
            Self::answer(old(self).state(), VfsCall::Mkdir { path: path@, mode }) == (
                final(self).state(),
                done_answer::<Self::Handle>(r),
            ),
    ;

    /// Remove a file.
    fn unlink(&mut self, path: &str) -> (r: VfsResult<()>)
        requires
            old(self).wf(),
        ensures
            final(self).wf(),
            Self::answer(old(self).state(), VfsCall::Unlink { path: path@ }) == (
                final(self).state(),
                done_answer::<Self::Handle>(r),
            ),
    ;

    /// Remove an empty directory.
    fn rmdir(&mut self, path: &str) -> (r: VfsResult<()>)
        requires
            old(self).wf(),
        ensures
            final(self).wf(),
            Self::answer(old(self).state(), VfsCall::Rmdir { path: path@ }) == (
                final(self).state(),
                done_answer::<Self::Handle>(r),
            ),
    ;

    /// Rename within this filesystem.
    fn rename(&mut self, from: &str, to: &str) -> (r: VfsResult<()>)
        requires
            old(self).wf(),
        ensures
            final(self).wf(),
            Self::answer(old(self).state(), VfsCall::Rename { from: from@, to: to@ }) == (
                final(self).state(),
                done_answer::<Self::Handle>(r),
            ),
    ;

    /// Create a symlink at `link` pointing at `target`, which is uninterpreted. A filesystem
    /// without symlinks reports [`Errno::PERM`].
    fn symlink(&mut self, target: &str, link: &str) -> (r: VfsResult<()>)
        requires
            old(self).wf(),
        ensures
            final(self).wf(),
            Self::answer(old(self).state(), VfsCall::Symlink { target: target@, link: link@ }) == (
                final(self).state(),
                done_answer::<Self::Handle>(r),
            ),
    ;

    /// Read a symlink's target. [`Errno::INVAL`] is what Linux returns for a path that is not
    /// a symlink.
    fn readlink(&mut self, path: &str) -> (r: VfsResult<String>)
        requires
            old(self).wf(),
        ensures
            final(self).wf(),
            Self::answer(old(self).state(), VfsCall::Readlink { path: path@ }) == (
                final(self).state(),
                target_answer::<Self::Handle>(r),
            ),
    ;

    /// Set the length of a file by path.
    fn truncate(&mut self, path: &str, len: u64) -> (r: VfsResult<()>)
        requires
            old(self).wf(),
        ensures
            final(self).wf(),
            Self::answer(old(self).state(), VfsCall::Truncate { path: path@, len }) == (
                final(self).state(),
                done_answer::<Self::Handle>(r),
            ),
    ;

    /// Whether this filesystem has symlinks at all.
    ///
    /// Where it has none, the kernel never probes for them: it saves a `stat` per path
    /// component. Say `true` only if [`Vfs::readlink`] can return something.
    fn has_symlinks(&self) -> (r: bool)
        requires
            self.wf(),
        ensures
            r == Self::links(self.state()),
    ;

    /// Change permission bits. A filesystem that keeps none accepts and ignores.
    fn set_mode(&mut self, path: &str, mode: u32) -> (r: VfsResult<()>)
        requires
            old(self).wf(),
        ensures
            final(self).wf(),
            Self::answer(old(self).state(), VfsCall::SetMode { path: path@, mode }) == (
                final(self).state(),
                done_answer::<Self::Handle>(r),
            ),
    ;
}

/// A `Vfs` with nothing in it but its root: every call is answered with [`Errno::ROFS`] or
/// [`Errno::NOENT`], or as a filesystem without symlinks answers it.
///
/// Useful as a placeholder mount, and as the thing a guest sees at a path the host declines to
/// back with anything.
pub struct EmptyVfs;

/// The handle of a filesystem that never opens a file.
pub struct NoFile;

/// What [`EmptyVfs`] answers.
pub open spec fn empty_answer(call: VfsCall) -> VfsAnswer<NoFile> {
    match call {
        VfsCall::Open { .. } => VfsAnswer::Fail(Errno::NOENT),
        VfsCall::Stat { path, .. } => if path == "/"@ {
            VfsAnswer::Stat(plain_stat(FileType::Dir, 0))
        } else {
            VfsAnswer::Fail(Errno::NOENT)
        },
        VfsCall::Readdir { path } => if path == "/"@ {
            VfsAnswer::Listing(Seq::empty())
        } else {
            VfsAnswer::Fail(Errno::NOENT)
        },
        VfsCall::Symlink { .. } => VfsAnswer::Fail(Errno::PERM),
        VfsCall::Readlink { .. } => VfsAnswer::Fail(Errno::INVAL),
        VfsCall::Truncate { .. } => VfsAnswer::Fail(Errno::NOENT),
        VfsCall::SetMode { .. } => VfsAnswer::Done,
        _ => VfsAnswer::Fail(Errno::ROFS),
    }
}

impl VfsFile for EmptyVfs {
    type Handle = NoFile;

    type State = ();

    open spec fn wf(&self) -> bool {
        true
    }

    open spec fn state(&self) -> () {
        ()
    }

    open spec fn file_answer(s: (), file: NoFile, call: FileCall) -> ((), NoFile, FileAnswer) {
        (
            (),
            file,
            match call {
                FileCall::Close => FileAnswer::Done,
                FileCall::SetLen { .. } => FileAnswer::Fail(Errno::ROFS),
                _ => FileAnswer::Fail(Errno::BADF),
            },
        )
    }

    fn read(&mut self, file: &mut NoFile, len: usize) -> (r: VfsResult<Vec<u8>>) {
        Err(Errno::BADF)
    }

    fn write(&mut self, file: &mut NoFile, data: &[u8]) -> (r: VfsResult<usize>) {
        Err(Errno::BADF)
    }

    fn seek(&mut self, file: &mut NoFile, from: SeekFrom) -> (r: VfsResult<u64>) {
        Err(Errno::BADF)
    }

    fn stat_file(&mut self, file: &mut NoFile) -> (r: VfsResult<Stat>) {
        Err(Errno::BADF)
    }

    fn set_len(&mut self, file: &mut NoFile, len: u64) -> (r: VfsResult<()>) {
        Err(Errno::ROFS)
    }

    fn close(&mut self, file: &mut NoFile) -> (r: VfsResult<()>) {
        Ok(())
    }
}

impl Vfs for EmptyVfs {
    open spec fn answer(s: (), call: VfsCall) -> ((), VfsAnswer<NoFile>) {
        ((), empty_answer(call))
    }

    open spec fn links(s: ()) -> bool {
        false
    }

    fn open(&mut self, path: &str, opts: &OpenOptions) -> (r: VfsResult<NoFile>) {
        Err(Errno::NOENT)
    }

    fn stat(&mut self, path: &str, follow: bool) -> (r: VfsResult<Stat>) {
        if crate::text::same(path, "/") {
            Ok(Stat::dir())
        } else {
            Err(Errno::NOENT)
        }
    }

    fn readdir(&mut self, path: &str) -> (r: VfsResult<Vec<DirEntry>>) {
        if crate::text::same(path, "/") {
            let list: Vec<DirEntry> = Vec::new();
            assert(entries_of(list@) =~= Seq::empty());
            Ok(list)
        } else {
            Err(Errno::NOENT)
        }
    }

    fn mkdir(&mut self, path: &str, mode: u32) -> (r: VfsResult<()>) {
        Err(Errno::ROFS)
    }

    fn unlink(&mut self, path: &str) -> (r: VfsResult<()>) {
        Err(Errno::ROFS)
    }

    fn rmdir(&mut self, path: &str) -> (r: VfsResult<()>) {
        Err(Errno::ROFS)
    }

    fn rename(&mut self, from: &str, to: &str) -> (r: VfsResult<()>) {
        Err(Errno::ROFS)
    }

    fn symlink(&mut self, target: &str, link: &str) -> (r: VfsResult<()>) {
        Err(Errno::PERM)
    }

    fn readlink(&mut self, path: &str) -> (r: VfsResult<String>) {
        Err(Errno::INVAL)
    }

    fn truncate(&mut self, path: &str, len: u64) -> (r: VfsResult<()>) {
        Err(Errno::NOENT)
    }

    fn has_symlinks(&self) -> (r: bool) {
        false
    }

    fn set_mode(&mut self, path: &str, mode: u32) -> (r: VfsResult<()>) {
        Ok(())
    }
}

} // verus!
