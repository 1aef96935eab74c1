//! A filesystem from three methods: everything that is not said is what a read-only filesystem
//! without symlinks would answer.
use super::{
    empty_answer, entries_of, file_count, file_data, file_position, file_stat, listing_answer,
    opened_answer, stat_answer, DirEntry, FileAnswer, FileCall, NoFile, OpenOptions, SeekFrom, Stat,
    Vfs, VfsAnswer, VfsCall, VfsFile,
};
use crate::errno::{Errno, VfsResult};
use crate::text::same;
use vstd::prelude::*;

verus! {

/// What a filesystem cannot do without: opening, describing and listing, and reading and writing
/// what was opened.
pub trait Storage: Sized {
    /// An open file.
    type Handle;

    /// What the storage holds, as far as its answers depend on it.
    type State;

    /// What the implementation keeps true of itself.
    spec fn wf(&self) -> bool;

    /// What the storage holds.
    spec fn state(&self) -> Self::State;

    /// What a call on a path answers, and the storage afterwards.
    spec fn answer(s: Self::State, call: VfsCall) -> (Self::State, VfsAnswer<Self::Handle>);

    /// What a call on an open file answers, and the storage and the handle afterwards.
    spec fn file_answer(s: Self::State, file: Self::Handle, call: FileCall) -> (
        Self::State,
        Self::Handle,
        FileAnswer,
    );

    /// Open an existing file, or create one when [`OpenOptions::create`] is set.
    fn open(&mut self, path: &str, opts: &OpenOptions) -> (r: VfsResult<Self::Handle>)
        requires
            old(self).wf(),
        ensures
            final(self).wf(),
            Self::answer(old(self).state(), VfsCall::Open { path: path@, opts: *opts }) == (
                final(self).state(),
                opened_answer::<Self::Handle>(r),
            ),
    ;

    /// Metadata for `path`.
    fn stat(&mut self, path: &str, follow: bool) -> (r: VfsResult<Stat>)
        requires
            old(self).wf(),
        ensures
            final(self).wf(),
            Self::answer(old(self).state(), VfsCall::Stat { path: path@, follow }) == (
                final(self).state(),
                stat_answer::<Self::Handle>(r),
            ),
    ;

    /// List a directory, in any order, without `.` or `..`.
    fn readdir(&mut self, path: &str) -> (r: VfsResult<Vec<DirEntry>>)
        requires
            old(self).wf(),
        ensures
            final(self).wf(),
            Self::answer(old(self).state(), VfsCall::Readdir { path: path@ }) == (
                final(self).state(),
                listing_answer::<Self::Handle>(r),
            ),
    ;

    /// Read at most `len` bytes at the current position, advancing it.
    fn read(&mut self, file: &mut Self::Handle, len: usize) -> (r: VfsResult<Vec<u8>>)
        requires
            old(self).wf(),
        ensures
            final(self).wf(),
            Self::file_answer(old(self).state(), *old(file), FileCall::Read { max: len }) == (
                final(self).state(),
                *final(file),
                file_data(r),
            ),
            r matches Ok(data) ==> data@.len() <= len,
    ;

    /// Write at the current position, advancing it.
    fn write(&mut self, file: &mut Self::Handle, data: &[u8]) -> (r: VfsResult<usize>)
        requires
            old(self).wf(),
        ensures
            final(self).wf(),
            Self::file_answer(old(self).state(), *old(file), FileCall::Write { data: data@ }) == (
                final(self).state(),
                *final(file),
                file_count(r),
            ),
            r matches Ok(n) ==> n <= data@.len(),
    ;

    /// Move the file position, returning the new absolute position.
    fn seek(&mut self, file: &mut Self::Handle, from: SeekFrom) -> (r: VfsResult<u64>)
        requires
            old(self).wf(),
        ensures
            final(self).wf(),
            Self::file_answer(old(self).state(), *old(file), FileCall::Seek { from }) == (
                final(self).state(),
                *final(file),
                file_position(r),
            ),
    ;

    /// Metadata for the open file.
    fn stat_file(&mut self, file: &mut Self::Handle) -> (r: VfsResult<Stat>)
        requires
            old(self).wf(),
        ensures
            final(self).wf(),
            Self::file_answer(old(self).state(), *old(file), FileCall::Stat) == (
                final(self).state(),
                *final(file),
                file_stat(r),
            ),
    ;
}

/// A filesystem over a [`Storage`], which refuses to change what the storage has no call for.
pub struct Simple<T> {
    pub storage: T,
}

/// What a [`Simple`] filesystem answers. Setting a length by path opens the file for it, and is
/// then refused.
pub open spec fn simple_answer<T: Storage>(s: T::State, call: VfsCall) -> (
    T::State,
    VfsAnswer<T::Handle>,
) {
    match call {
        VfsCall::Open { .. } => T::answer(s, call),
        VfsCall::Stat { .. } => T::answer(s, call),
        VfsCall::Readdir { .. } => T::answer(s, call),
        VfsCall::Symlink { .. } => (s, VfsAnswer::Fail(Errno::PERM)),
        VfsCall::Readlink { .. } => (s, VfsAnswer::Fail(Errno::INVAL)),
        VfsCall::SetMode { .. } => (s, VfsAnswer::Done),
        VfsCall::Truncate { path, len } => {
            let opts = OpenOptions { write: true, ..super::no_options() };
            match T::answer(s, VfsCall::Open { path, opts }) {
                (after, VfsAnswer::Fail(e)) => (after, VfsAnswer::Fail(e)),
                (after, _) => (after, VfsAnswer::Fail(Errno::ROFS)),
            }
        },
        _ => (s, VfsAnswer::Fail(Errno::ROFS)),
    }
}

/// What an open file of a [`Simple`] filesystem answers.
pub open spec fn simple_file_answer<T: Storage>(s: T::State, file: T::Handle, call: FileCall) -> (
    T::State,
    T::Handle,
    FileAnswer,
) {
    match call {
        FileCall::SetLen { .. } => (s, file, FileAnswer::Fail(Errno::ROFS)),
        FileCall::Close => (s, file, FileAnswer::Done),
        _ => T::file_answer(s, file, call),
    }
}

impl<T: Storage> VfsFile for Simple<T> {
    type Handle = T::Handle;

    type State = T::State;

    open spec fn wf(&self) -> bool {
        self.storage.wf()
    }

    open spec fn state(&self) -> T::State {
        self.storage.state()
    }

    open spec fn file_answer(s: T::State, file: T::Handle, call: FileCall) -> (
        T::State,
        T::Handle,
        FileAnswer,
    ) {
        simple_file_answer::<T>(s, file, call)
    }

    fn read(&mut self, file: &mut T::Handle, len: usize) -> (r: VfsResult<Vec<u8>>) {
        self.storage.read(file, len)
    }

    fn write(&mut self, file: &mut T::Handle, data: &[u8]) -> (r: VfsResult<usize>) {
        self.storage.write(file, data)
    }

    fn seek(&mut self, file: &mut T::Handle, from: SeekFrom) -> (r: VfsResult<u64>) {
        self.storage.seek(file, from)
    }

    fn stat_file(&mut self, file: &mut T::Handle) -> (r: VfsResult<Stat>) {
        self.storage.stat_file(file)
    }

    fn set_len(&mut self, file: &mut T::Handle, len: u64) -> (r: VfsResult<()>) {
        Err(Errno::ROFS)
    }

    fn close(&mut self, file: &mut T::Handle) -> (r: VfsResult<()>) {
        Ok(())
    }
}

impl<T: Storage> Vfs for Simple<T> {
    open spec fn answer(s: T::State, call: VfsCall) -> (T::State, VfsAnswer<T::Handle>) {
        simple_answer::<T>(s, call)
    }

    open spec fn links(s: T::State) -> bool {
        false
    }

    fn open(&mut self, path: &str, opts: &OpenOptions) -> (r: VfsResult<T::Handle>) {
        self.storage.open(path, opts)
    }

    fn stat(&mut self, path: &str, follow: bool) -> (r: VfsResult<Stat>) {
        self.storage.stat(path, follow)
    }

    fn readdir(&mut self, path: &str) -> (r: VfsResult<Vec<DirEntry>>) {
        self.storage.readdir(path)
    }

    fn mkdir(&mut self, path: &str, mode: u32) -> (r: VfsResult<()>) {
        Err(Errno::ROFS)
    }

    fn unlink(&mut self, path: &str) -> (r: VfsResult<()>) {
        Err(Errno::ROFS)
    }

    fn rmdir(&mut self, path: &str) -> (r: VfsResult<()>) {
        Err(Errno::ROFS)
    }

    fn rename(&mut self, from: &str, to: &str) -> (r: VfsResult<()>) {
        Err(Errno::ROFS)
    }

    fn symlink(&mut self, target: &str, link: &str) -> (r: VfsResult<()>) {
        Err(Errno::PERM)
    }

    fn readlink(&mut self, path: &str) -> (r: VfsResult<String>) {
        Err(Errno::INVAL)
    }

    fn truncate(&mut self, path: &str, len: u64) -> (r: VfsResult<()>) {
        let opts = OpenOptions { write: true, ..OpenOptions::new() };
        match self.storage.open(path, &opts) {
            Err(e) => Err(e),
            Ok(mut file) => match self.set_len(&mut file, len) {
                Err(e) => Err(e),
                Ok(()) => self.close(&mut file),
            },
        }
    }

    fn has_symlinks(&self) -> (r: bool) {
        false
    }

    fn set_mode(&mut self, path: &str, mode: u32) -> (r: VfsResult<()>) {
        Ok(())
    }
}

/// A storage with nothing but a root.
pub struct NoStorage;

impl Storage for NoStorage {
    type Handle = NoFile;

    type State = ();

    open spec fn wf(&self) -> bool {
        true
    }

    open spec fn state(&self) -> () {
        ()
    }

    open spec fn answer(s: (), call: VfsCall) -> ((), VfsAnswer<NoFile>) {
        ((), empty_answer(call))
    }

    open spec fn file_answer(s: (), file: NoFile, call: FileCall) -> ((), NoFile, FileAnswer) {
        ((), file, FileAnswer::Fail(Errno::BADF))
    }

    fn open(&mut self, path: &str, opts: &OpenOptions) -> (r: VfsResult<NoFile>) {
        Err(Errno::NOENT)
    }

    fn stat(&mut self, path: &str, follow: bool) -> (r: VfsResult<Stat>) {
        if same(path, "/") {
            Ok(Stat::dir())
        } else {
            Err(Errno::NOENT)
        }
    }

    fn readdir(&mut self, path: &str) -> (r: VfsResult<Vec<DirEntry>>) {
        if same(path, "/") {
            let list: Vec<DirEntry> = Vec::new();
            assert(entries_of(list@) =~= Seq::empty());
            Ok(list)
        } else {
            Err(Errno::NOENT)
        }
    }

    fn read(&mut self, file: &mut NoFile, len: usize) -> (r: VfsResult<Vec<u8>>) {
        Err(Errno::BADF)
    }

    fn write(&mut self, file: &mut NoFile, data: &[u8]) -> (r: VfsResult<usize>) {
        Err(Errno::BADF)
    }

    fn seek(&mut self, file: &mut NoFile, from: SeekFrom) -> (r: VfsResult<u64>) {
        Err(Errno::BADF)
    }

    fn stat_file(&mut self, file: &mut NoFile) -> (r: VfsResult<Stat>) {
        Err(Errno::BADF)
    }
}

} // verus!
