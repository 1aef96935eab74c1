//! What the handlers have in common: how they fail, and how they look up paths.
use crate::abi::AT_FDCWD;
use crate::errno::{Errno, VfsResult};
use crate::kernel::fd::{fd_at, DescKind};
use crate::kernel::mounts::{called, refuses_writes, MountView, Mounts};
use crate::kernel::namespace::{resolved, Node, NodeView};
use crate::kernel::path::{is_absolute, starts_at_root};
use crate::kernel::state::{Ctx, CtxView, Shared, SharedView};
use crate::vfs::{Vfs, VfsAnswer, VfsCall, VfsFile};
use vstd::prelude::*;

verus! {

/// The error channel inside the handlers.
#[derive(Clone, Copy, PartialEq, Eq, Debug, Structural)]
pub enum Fault {
    Errno(Errno),
    /// Could not finish; retry after something changes.
    Block,
    /// The process is over with this wait status.
    Exit(i32),
    /// `execve` succeeded; the scheduler replaces the instance.
    Exec,
    /// The guest's memory has to grow by this many pages before the call can go on.
    Grow(u64),
}

/// What a handler comes to: the value for the guest, or why there is none.
pub type Sys = Result<i32, Fault>;

/// Everything a syscall can see and change: what the processes share, the process itself, the
/// mounted filesystems and the guest's memory.
#[verifier::ext_equal]
pub struct World<S, F> {
    pub sh: SharedView<F>,
    pub ctx: CtxView,
    pub fs: Seq<MountView<S>>,
    pub mem: Seq<u8>,
}

/// A plain error.
pub open spec fn errno<T>(e: Errno) -> Result<T, Fault> {
    Err(Fault::Errno(e))
}

/// A `Vfs` error as a fault: [`Errno::AGAIN`] means "come back later".
pub open spec fn fault_of(e: Errno) -> Fault {
    if e.is_same(Errno::AGAIN) {
        Fault::Block
    } else {
        Fault::Errno(e)
    }
}

/// The session after a `Vfs` error: it remembers that one asked to be called again.
pub open spec fn noted<F>(sh: SharedView<F>, e: Errno) -> SharedView<F> {
    if e.is_same(Errno::AGAIN) {
        SharedView { vfs_pending: true, ..sh }
    } else {
        sh
    }
}

/// Turn a `Vfs` error into a fault, treating [`Errno::AGAIN`] as "come back later".
pub fn vfs_fault<F>(sh: &mut Shared<F>, e: Errno) -> (r: Fault)
    ensures
        r == fault_of(e),
        final(sh)@ == noted(old(sh)@, e),
{
    if e.same_as(Errno::AGAIN) {
        sh.note_vfs_pending();
        Fault::Block
    } else {
        Fault::Errno(e)
    }
}

/// The directory a path argument is relative to.
pub open spec fn base_of<F>(sh: SharedView<F>, ctx: CtxView, dirfd: i32, path: Seq<char>) -> VfsResult<
    Seq<char>,
> {
    if is_absolute(path) {
        Ok("/"@)
    } else if dirfd == AT_FDCWD {
        Ok(ctx.task.cwd)
    } else {
        match fd_at(ctx.task.fds, dirfd as int) {
            None => Err(Errno::BADF),
            Some(entry) => match sh.descs.get(entry.desc) {
                None => Err(Errno::BADF),
                Some(desc) => if desc.kind is Dir {
                    Ok(desc.path)
                } else {
                    Err(Errno::NOTDIR)
                },
            },
        }
    }
}

/// What a path argument means, with the session and the mounts after finding out.
pub open spec fn looked_up<V: Vfs>(
    sh: SharedView<<V as VfsFile>::Handle>,
    ctx: CtxView,
    fs: Seq<MountView<<V as VfsFile>::State>>,
    dirfd: i32,
    path: Seq<char>,
    follow: bool,
) -> (
    SharedView<<V as VfsFile>::Handle>,
    Seq<MountView<<V as VfsFile>::State>>,
    Result<NodeView, Fault>,
) {
    match base_of(sh, ctx, dirfd, path) {
        Err(e) => (sh, fs, errno(e)),
        Ok(base) => {
            let (next, found) = resolved::<V>(sh.overlay, fs, ctx.who(), base, path, follow);
            match found {
                Ok(node) => (sh, next, Ok(node)),
                Err(e) => (noted(sh, e), next, Err(fault_of(e))),
            }
        },
    }
}

/// The result of a lookup, as its model.
pub open spec fn lookup_result(r: Result<Node, Fault>) -> Result<NodeView, Fault> {
    match r {
        Ok(node) => Ok(node@),
        Err(f) => Err(f),
    }
}

/// Resolve a path argument, honouring `dirfd` for the `*at` calls.
pub fn resolve<V: Vfs>(
    sh: &mut Shared<<V as VfsFile>::Handle>,
    ctx: &Ctx,
    fs: &mut Mounts<V>,
    dirfd: i32,
    path: &str,
    follow: bool,
) -> (r: Result<Node, Fault>)
    requires
        old(fs).wf(),
    ensures
        final(fs).wf(),
        looked_up::<V>(old(sh)@, ctx@, old(fs)@, dirfd, path@, follow) == (
            final(sh)@,
            final(fs)@,
            lookup_result(r),
        ),
{
    let base: String = if starts_at_root(path) {
        "/".to_owned()
    } else if dirfd == AT_FDCWD {
        ctx.task.cwd.clone()
    } else {
        let entry = match ctx.task.fds.get(dirfd) {
            Ok(entry) => entry,
            Err(e) => return Err(Fault::Errno(e)),
        };
        match sh.descs.get(entry.desc) {
            None => return Err(Fault::Errno(Errno::BADF)),
            Some(desc) => match desc.kind {
                DescKind::Dir { .. } => desc.path.clone(),
                _ => return Err(Fault::Errno(Errno::NOTDIR)),
            },
        }
    };
    let found = crate::kernel::namespace::resolve(
        &sh.overlay,
        fs,
        ctx.task.cwd.as_str(),
        ctx.task.exe.as_str(),
        ctx.task.pid,
        base.as_str(),
        path,
        follow,
    );
    match found {
        Ok(node) => Ok(node),
        Err(e) => Err(vfs_fault(sh, e)),
    }
}

/// A handler whose last step is a call that has no value: zero, or the fault.
pub open spec fn after_call<F, H>(sh: SharedView<F>, answer: VfsAnswer<H>) -> (SharedView<F>, Sys) {
    match answer {
        VfsAnswer::Fail(e) => (noted(sh, e), Err(fault_of(e))),
        _ => (sh, Ok(0)),
    }
}

/// Zero, or the fault that a `Vfs` error stands for.
pub fn finish_call<F, H>(sh: &mut Shared<F>, r: VfsResult<()>) -> (s: Sys)
    ensures
        (final(sh)@, s) == after_call::<F, H>(old(sh)@, crate::vfs::done_answer::<H>(r)),
{
    match r {
        Ok(()) => Ok(0),
        Err(e) => Err(vfs_fault(sh, e)),
    }
}

/// A call that changes a filesystem: refused on a read-only mount, without asking it.
pub open spec fn changed<V: Vfs>(
    sh: SharedView<<V as VfsFile>::Handle>,
    fs: Seq<MountView<<V as VfsFile>::State>>,
    mount: usize,
    call: VfsCall,
) -> (SharedView<<V as VfsFile>::Handle>, Seq<MountView<<V as VfsFile>::State>>, Sys) {
    if refuses_writes(fs, mount as int) {
        (sh, fs, errno(Errno::ROFS))
    } else {
        let (next, answer) = called::<V>(fs, mount as int, call);
        let (s, r) = after_call(sh, answer);
        (s, next, r)
    }
}

/// Add two counts, staying within a word.
pub open spec fn held_sum(a: i32, b: i32) -> i32 {
    if a + b > i32::MAX {
        i32::MAX
    } else if a + b < i32::MIN {
        i32::MIN
    } else {
        (a + b) as i32
    }
}

} // verus!
