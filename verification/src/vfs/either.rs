//! One of two filesystems, so that mounts of different kinds can stand side by side.
//!
//! Every mount of a sandbox is of one type. `Either` is that type where there are two kinds of
//! them, and an `Either` of an `Either` where there are three. It answers what the one that is
//! there answers.
use super::{
    DirEntry, FileAnswer, FileCall, OpenOptions, SeekFrom, Stat, Vfs, VfsAnswer, VfsCall, VfsFile,
};
use crate::errno::{Errno, VfsResult};
use vstd::prelude::*;

verus! {

/// One of two: filesystems, their states, or their open files.
pub enum Either<A, B> {
    Left(A),
    Right(B),
}

/// What a call answers, as one of two filesystems answers it.
pub open spec fn lifted<H, K>(answer: VfsAnswer<H>, handle: spec_fn(H) -> K) -> VfsAnswer<K> {
    match answer {
        VfsAnswer::Fail(e) => VfsAnswer::Fail(e),
        VfsAnswer::Done => VfsAnswer::Done,
        VfsAnswer::Opened(h) => VfsAnswer::Opened(handle(h)),
        VfsAnswer::Stat(st) => VfsAnswer::Stat(st),
        VfsAnswer::Listing(list) => VfsAnswer::Listing(list),
        VfsAnswer::Target(t) => VfsAnswer::Target(t),
    }
}

impl<A: Vfs, B: Vfs> VfsFile for Either<A, B> {
    type Handle = Either<<A as VfsFile>::Handle, <B as VfsFile>::Handle>;

    type State = Either<<A as VfsFile>::State, <B as VfsFile>::State>;

    open spec fn wf(&self) -> bool {
        match *self {
            Either::Left(a) => a.wf(),
            Either::Right(b) => b.wf(),
        }
    }

    open spec fn state(&self) -> Self::State {
        match *self {
            Either::Left(a) => Either::Left(a.state()),
            Either::Right(b) => Either::Right(b.state()),
        }
    }

    open spec fn file_answer(s: Self::State, file: Self::Handle, call: FileCall) -> (
        Self::State,
        Self::Handle,
        FileAnswer,
    ) {
        match (s, file) {
            (Either::Left(s), Either::Left(f)) => {
                let (t, g, answer) = A::file_answer(s, f, call);
                (Either::Left(t), Either::Left(g), answer)
            },
            (Either::Right(s), Either::Right(f)) => {
                let (t, g, answer) = B::file_answer(s, f, call);
                (Either::Right(t), Either::Right(g), answer)
            },
            // A file of the other kind is none of this filesystem's.
            _ => (s, file, FileAnswer::Fail(Errno::BADF)),
        }
    }

    fn read(&mut self, file: &mut Self::Handle, len: usize) -> (r: VfsResult<Vec<u8>>) {
        match self {
            Either::Left(a) => match file {
                Either::Left(f) => a.read(f, len),
                Either::Right(_) => Err(Errno::BADF),
            },
            Either::Right(b) => match file {
                Either::Right(f) => b.read(f, len),
                Either::Left(_) => Err(Errno::BADF),
            },
        }
    }

    fn write(&mut self, file: &mut Self::Handle, data: &[u8]) -> (r: VfsResult<usize>) {
        match self {
            Either::Left(a) => match file {
                Either::Left(f) => a.write(f, data),
                Either::Right(_) => Err(Errno::BADF),
            },
            Either::Right(b) => match file {
                Either::Right(f) => b.write(f, data),
                Either::Left(_) => Err(Errno::BADF),
            },
        }
    }

    fn seek(&mut self, file: &mut Self::Handle, from: SeekFrom) -> (r: VfsResult<u64>) {
        match self {
            Either::Left(a) => match file {
                Either::Left(f) => a.seek(f, from),
                Either::Right(_) => Err(Errno::BADF),
            },
            Either::Right(b) => match file {
                Either::Right(f) => b.seek(f, from),
                Either::Left(_) => Err(Errno::BADF),
            },
        }
    }

    fn stat_file(&mut self, file: &mut Self::Handle) -> (r: VfsResult<Stat>) {
        match self {
            Either::Left(a) => match file {
                Either::Left(f) => a.stat_file(f),
                Either::Right(_) => Err(Errno::BADF),
            },
            Either::Right(b) => match file {
                Either::Right(f) => b.stat_file(f),
                Either::Left(_) => Err(Errno::BADF),
            },
        }
    }

    fn set_len(&mut self, file: &mut Self::Handle, len: u64) -> (r: VfsResult<()>) {
        match self {
            Either::Left(a) => match file {
                Either::Left(f) => a.set_len(f, len),
                Either::Right(_) => Err(Errno::BADF),
            },
            Either::Right(b) => match file {
                Either::Right(f) => b.set_len(f, len),
                Either::Left(_) => Err(Errno::BADF),
            },
        }
    }

    fn close(&mut self, file: &mut Self::Handle) -> (r: VfsResult<()>) {
        match self {
            Either::Left(a) => match file {
                Either::Left(f) => a.close(f),
                Either::Right(_) => Err(Errno::BADF),
            },
            Either::Right(b) => match file {
                Either::Right(f) => b.close(f),
                Either::Left(_) => Err(Errno::BADF),
            },
        }
    }
}

impl<A: Vfs, B: Vfs> Vfs for Either<A, B> {
    open spec fn answer(s: Self::State, call: VfsCall) -> (Self::State, VfsAnswer<Self::Handle>) {
        match s {
            Either::Left(s) => {
                let (t, answer) = A::answer(s, call);
                (
                    Either::Left(t),
                    lifted(
                        answer,
                        |h: <A as VfsFile>::Handle|
                            Either::<_, <B as VfsFile>::Handle>::Left(h),
                    ),
                )
            },
            Either::Right(s) => {
                let (t, answer) = B::answer(s, call);
                (
                    Either::Right(t),
                    lifted(
                        answer,
                        |h: <B as VfsFile>::Handle|
                            Either::<<A as VfsFile>::Handle, _>::Right(h),
                    ),
                )
            },
        }
    }

    open spec fn links(s: Self::State) -> bool {
        match s {
            Either::Left(s) => A::links(s),
            Either::Right(s) => B::links(s),
        }
    }

    fn open(&mut self, path: &str, opts: &OpenOptions) -> (r: VfsResult<Self::Handle>) {
        match self {
            Either::Left(a) => match a.open(path, opts) {
                Ok(h) => Ok(Either::Left(h)),
                Err(e) => Err(e),
            },
            Either::Right(b) => match b.open(path, opts) {
                Ok(h) => Ok(Either::Right(h)),
                Err(e) => Err(e),
            },
        }
    }

    fn stat(&mut self, path: &str, follow: bool) -> (r: VfsResult<Stat>) {
        match self {
            Either::Left(a) => a.stat(path, follow),
            Either::Right(b) => b.stat(path, follow),
        }
    }

    fn readdir(&mut self, path: &str) -> (r: VfsResult<Vec<DirEntry>>) {
        match self {
            Either::Left(a) => a.readdir(path),
            Either::Right(b) => b.readdir(path),
        }
    }

    fn mkdir(&mut self, path: &str, mode: u32) -> (r: VfsResult<()>) {
        match self {
            Either::Left(a) => a.mkdir(path, mode),
            Either::Right(b) => b.mkdir(path, mode),
        }
    }

    fn unlink(&mut self, path: &str) -> (r: VfsResult<()>) {
        match self {
            Either::Left(a) => a.unlink(path),
            Either::Right(b) => b.unlink(path),
        }
    }

    fn rmdir(&mut self, path: &str) -> (r: VfsResult<()>) {
        match self {
            Either::Left(a) => a.rmdir(path),
            Either::Right(b) => b.rmdir(path),
        }
    }

    fn rename(&mut self, from: &str, to: &str) -> (r: VfsResult<()>) {
        match self {
            Either::Left(a) => a.rename(from, to),
            Either::Right(b) => b.rename(from, to),
        }
    }

    fn symlink(&mut self, target: &str, link: &str) -> (r: VfsResult<()>) {
        match self {
            Either::Left(a) => a.symlink(target, link),
            Either::Right(b) => b.symlink(target, link),
        }
    }

    fn readlink(&mut self, path: &str) -> (r: VfsResult<String>) {
        match self {
            Either::Left(a) => a.readlink(path),
            Either::Right(b) => b.readlink(path),
        }
    }

    fn truncate(&mut self, path: &str, len: u64) -> (r: VfsResult<()>) {
        match self {
            Either::Left(a) => a.truncate(path, len),
            Either::Right(b) => b.truncate(path, len),
        }
    }

    fn has_symlinks(&self) -> (r: bool) {
        match self {
            Either::Left(a) => a.has_symlinks(),
            Either::Right(b) => b.has_symlinks(),
        }
    }

    fn set_mode(&mut self, path: &str, mode: u32) -> (r: VfsResult<()>) {
        match self {
            Either::Left(a) => a.set_mode(path, mode),
            Either::Right(b) => b.set_mode(path, mode),
        }
    }
}

} // verus!
