//! What a filesystem over a directory of the host decides: which host path a guest path leads
//! to, and what the host's metadata means to the guest.
//!
//! Paths from the kernel are already normalized, so no `..` can arrive here; the join is
//! nonetheless component-wise and rejects anything that is not a plain name, as defence in
//! depth against a bug elsewhere.
use super::{FileType, OpenOptions, Stat};
use crate::errno::{Errno, VfsResult};
use crate::kernel::path::{parts, split};
use crate::text::{chars_of, same, texts};
use vstd::prelude::*;
use vstd::string::*;

verus! {

/// Whether a component is a plain name: one that a host takes as it stands.
pub open spec fn is_plain(name: Seq<char>) -> bool {
    name != "."@ && name != ".."@ && !name.contains('\0')
}

/// The components to put behind the directory that a host filesystem exposes.
pub open spec fn host_parts(path: Seq<char>) -> VfsResult<Seq<Seq<char>>> {
    if forall|i: int| 0 <= i < parts(path).len() ==> is_plain(#[trigger] parts(path)[i]) {
        Ok(parts(path))
    } else {
        Err(Errno::INVAL)
    }
}

fn has_nul(name: &str) -> (r: bool)
    ensures
        r == name@.contains('\0'),
{
    let t = chars_of(name);
    let mut i: usize = 0;
    while i < t.len()
        invariant
            i <= t@.len(),
            t@ == name@,
            forall|j: int| 0 <= j < i ==> #[trigger] t@[j] != '\0',
        decreases t@.len() - i,
    {
        if t[i] == '\0' {
            return true;
        }
        i = i + 1;
    }
    false
}

/// The components to put behind the directory that a host filesystem exposes. Anything that is
/// no plain name is refused.
pub fn resolve(path: &str) -> (r: VfsResult<Vec<String>>)
    ensures
        match r {
            Ok(names) => host_parts(path@) == Ok::<Seq<Seq<char>>, Errno>(texts(names@)),
            Err(e) => host_parts(path@) == Err::<Seq<Seq<char>>, Errno>(e),
        },
{
    let names = split(path);
    let ghost all = parts(path@);
    let mut i: usize = 0;
    while i < names.len()
        invariant
            i <= names@.len(),
            all == parts(path@),
            all == texts(names@),
            forall|j: int| 0 <= j < i ==> is_plain(#[trigger] all[j]),
        decreases names@.len() - i,
    {
        let name = names[i].as_str();
        assert(all[i as int] == name@);
        if same(name, ".") || same(name, "..") || has_nul(name) {
            assert(!is_plain(all[i as int]));
            return Err(Errno::INVAL);
        }
        i = i + 1;
    }
    Ok(names)
}

/// What the host says of a path.
#[derive(Clone, Copy, Debug)]
pub struct HostMeta {
    pub is_dir: bool,
    pub is_symlink: bool,
    pub len: u64,
    /// The mode bits, or zero where the host has none.
    pub mode: u32,
    /// The inode number, or zero where the host has none.
    pub ino: u64,
    /// The modification time since the epoch in seconds and nanoseconds, if it can be told.
    pub mtime: Option<(u64, u32)>,
}

/// The type of something of which the host says this.
pub open spec fn host_type(is_dir: bool, is_symlink: bool) -> FileType {
    if is_dir {
        FileType::Dir
    } else if is_symlink {
        FileType::Symlink
    } else {
        FileType::File
    }
}

/// The guest's view of the host's metadata.
pub open spec fn host_stat(m: HostMeta) -> Stat {
    Stat {
        file_type: host_type(m.is_dir, m.is_symlink),
        size: m.len,
        mode: m.mode % 0x1000,
        ino: m.ino,
        mtime: match m.mtime {
            Some((secs, nanos)) => (
                if secs > i64::MAX {
                    (secs - 0x1_0000_0000_0000_0000) as i64
                } else {
                    secs as i64
                },
                nanos,
            ),
            None => (0, 0),
        },
        nlink: 1,
    }
}

/// The type of something of which the host says this.
pub fn type_of(is_dir: bool, is_symlink: bool) -> (r: FileType)
    ensures
        r == host_type(is_dir, is_symlink),
{
    if is_dir {
        FileType::Dir
    } else if is_symlink {
        FileType::Symlink
    } else {
        FileType::File
    }
}

/// The guest's view of the host's metadata.
pub fn stat_of(m: &HostMeta) -> (r: Stat)
    ensures
        r == host_stat(*m),
{
    let mtime: (i64, u32) = match m.mtime {
        Some((secs, nanos)) => {
            let signed: i64 = if secs > i64::MAX as u64 {
                (secs as i128 - 0x1_0000_0000_0000_0000) as i64
            } else {
                secs as i64
            };
            (signed, nanos)
        },
        None => (0, 0),
    };
    Stat {
        file_type: type_of(m.is_dir, m.is_symlink),
        size: m.len,
        mode: m.mode % 0x1000,
        ino: m.ino,
        mtime,
        nlink: 1,
    }
}

/// The flags to open a host file with.
pub open spec fn host_options(o: OpenOptions) -> OpenOptions {
    OpenOptions {
        truncate: o.truncate && o.write,
        create: o.create && !o.create_new,
        ..o
    }
}

/// The flags to open a host file with: nothing is truncated that is not written to, and a file
/// that must be new is not merely created.
pub fn open_options(o: &OpenOptions) -> (r: OpenOptions)
    ensures
        r == host_options(*o),
{
    OpenOptions { truncate: o.truncate && o.write, create: o.create && !o.create_new, ..*o }
}

} // verus!
