//! Linux error numbers, as seen by the guest.
//!
//! [`Errno`] is the error type of the [`Vfs`](crate::vfs::Vfs) trait, so these are the values
//! an integrator returns. They are the guest's numbers, not the host's: a `Vfs` built on the
//! host's own files translates with [`Errno::from_io`].
use vstd::prelude::*;

verus! {

/// A Linux error number. The kernel negates it at the syscall boundary.
#[derive(Clone, Copy, PartialEq, Eq, PartialOrd, Ord, Hash, Debug, Structural)]
pub enum Errno {
    /// Operation not permitted.
    PERM,
    /// No such file or directory.
    NOENT,
    /// No such process.
    SRCH,
    /// Interrupted system call.
    INTR,
    /// Input/output error.
    IO,
    /// No such device or address.
    NXIO,
    /// Argument list too long (`E2BIG`).
    TOOBIG,
    /// Exec format error.
    NOEXEC,
    /// Bad file descriptor.
    BADF,
    /// No child processes.
    CHILD,
    /// Try again. From a `Vfs`, this means *not ready yet*; see the trait docs.
    AGAIN,
    /// Cannot allocate memory.
    NOMEM,
    /// Permission denied.
    ACCES,
    /// Bad address.
    FAULT,
    /// Device or resource busy.
    BUSY,
    /// File exists.
    EXIST,
    /// Cross-device link.
    XDEV,
    /// No such device.
    NODEV,
    /// Not a directory.
    NOTDIR,
    /// Is a directory.
    ISDIR,
    /// Invalid argument.
    INVAL,
    /// Too many open files in system.
    NFILE,
    /// Too many open files.
    MFILE,
    /// Not a typewriter.
    NOTTY,
    /// File too large.
    FBIG,
    /// No space left on device.
    NOSPC,
    /// Illegal seek.
    SPIPE,
    /// Read-only file system.
    ROFS,
    /// Too many links.
    MLINK,
    /// Broken pipe.
    PIPE,
    /// Result too large, or a buffer too small.
    RANGE,
    /// File name too long.
    NAMETOOLONG,
    /// Function not implemented.
    NOSYS,
    /// Directory not empty.
    NOTEMPTY,
    /// Too many levels of symbolic links.
    LOOP,
    /// Value too large for defined data type.
    OVERFLOW,
    /// Socket operation on non-socket.
    NOTSOCK,
    /// Operation not supported.
    NOTSUP,
    /// Connection timed out.
    TIMEDOUT,
    /// A number without a name here, passed through from the host.
    Raw(i32),
}

/// The result of a [`Vfs`](crate::vfs::Vfs) operation.
pub type VfsResult<T> = Result<T, Errno>;

/// Why a host call failed, in the host's portable terms.
#[derive(Clone, Copy, PartialEq, Eq, Debug, Structural)]
pub enum IoKind {
    NotFound,
    PermissionDenied,
    AlreadyExists,
    InvalidInput,
    InvalidData,
    Unsupported,
    WouldBlock,
    BrokenPipe,
    IsADirectory,
    NotADirectory,
    DirectoryNotEmpty,
    ReadOnlyFilesystem,
    StorageFull,
    FileTooLarge,
    TooManyLinks,
    InvalidFilename,
    Interrupted,
    /// Anything else.
    Other,
}

/// The errno that stands for a host failure of this kind, if the kind alone decides it.
pub open spec fn errno_of_kind(kind: IoKind) -> Option<Errno> {
    match kind {
        IoKind::NotFound => Some(Errno::NOENT),
        IoKind::PermissionDenied => Some(Errno::ACCES),
        IoKind::AlreadyExists => Some(Errno::EXIST),
        IoKind::InvalidInput => Some(Errno::INVAL),
        IoKind::InvalidData => Some(Errno::INVAL),
        IoKind::Unsupported => Some(Errno::NOSYS),
        IoKind::WouldBlock => Some(Errno::AGAIN),
        IoKind::BrokenPipe => Some(Errno::PIPE),
        IoKind::IsADirectory => Some(Errno::ISDIR),
        IoKind::NotADirectory => Some(Errno::NOTDIR),
        IoKind::DirectoryNotEmpty => Some(Errno::NOTEMPTY),
        IoKind::ReadOnlyFilesystem => Some(Errno::ROFS),
        IoKind::StorageFull => Some(Errno::NOSPC),
        IoKind::FileTooLarge => Some(Errno::FBIG),
        IoKind::TooManyLinks => Some(Errno::MLINK),
        IoKind::InvalidFilename => Some(Errno::NAMETOOLONG),
        IoKind::Interrupted => Some(Errno::INTR),
        IoKind::Other => None,
    }
}

impl Errno {
    /// The number Linux gives this error.
    pub open spec fn code(self) -> i32 {
        match self {
            Errno::PERM => 1,
            Errno::NOENT => 2,
            Errno::SRCH => 3,
            Errno::INTR => 4,
            Errno::IO => 5,
            Errno::NXIO => 6,
            Errno::TOOBIG => 7,
            Errno::NOEXEC => 8,
            Errno::BADF => 9,
            Errno::CHILD => 10,
            Errno::AGAIN => 11,
            Errno::NOMEM => 12,
            Errno::ACCES => 13,
            Errno::FAULT => 14,
            Errno::BUSY => 16,
            Errno::EXIST => 17,
            Errno::XDEV => 18,
            Errno::NODEV => 19,
            Errno::NOTDIR => 20,
            Errno::ISDIR => 21,
            Errno::INVAL => 22,
            Errno::NFILE => 23,
            Errno::MFILE => 24,
            Errno::NOTTY => 25,
            Errno::FBIG => 27,
            Errno::NOSPC => 28,
            Errno::SPIPE => 29,
            Errno::ROFS => 30,
            Errno::MLINK => 31,
            Errno::PIPE => 32,
            Errno::RANGE => 34,
            Errno::NAMETOOLONG => 36,
            Errno::NOSYS => 38,
            Errno::NOTEMPTY => 39,
            Errno::LOOP => 40,
            Errno::OVERFLOW => 75,
            Errno::NOTSOCK => 88,
            Errno::NOTSUP => 95,
            Errno::TIMEDOUT => 110,
            Errno::Raw(n) => n,
        }
    }

    /// The conventional short name, as text.
    pub open spec fn short_name(self) -> Seq<char> {
        match self {
            Errno::PERM => "EPERM"@,
            Errno::NOENT => "ENOENT"@,
            Errno::SRCH => "ESRCH"@,
            Errno::INTR => "EINTR"@,
            Errno::IO => "EIO"@,
            Errno::NXIO => "ENXIO"@,
            Errno::TOOBIG => "ETOOBIG"@,
            Errno::NOEXEC => "ENOEXEC"@,
            Errno::BADF => "EBADF"@,
            Errno::CHILD => "ECHILD"@,
            Errno::AGAIN => "EAGAIN"@,
            Errno::NOMEM => "ENOMEM"@,
            Errno::ACCES => "EACCES"@,
            Errno::FAULT => "EFAULT"@,
            Errno::BUSY => "EBUSY"@,
            Errno::EXIST => "EEXIST"@,
            Errno::XDEV => "EXDEV"@,
            Errno::NODEV => "ENODEV"@,
            Errno::NOTDIR => "ENOTDIR"@,
            Errno::ISDIR => "EISDIR"@,
            Errno::INVAL => "EINVAL"@,
            Errno::NFILE => "ENFILE"@,
            Errno::MFILE => "EMFILE"@,
            Errno::NOTTY => "ENOTTY"@,
            Errno::FBIG => "EFBIG"@,
            Errno::NOSPC => "ENOSPC"@,
            Errno::SPIPE => "ESPIPE"@,
            Errno::ROFS => "EROFS"@,
            Errno::MLINK => "EMLINK"@,
            Errno::PIPE => "EPIPE"@,
            Errno::RANGE => "ERANGE"@,
            Errno::NAMETOOLONG => "ENAMETOOLONG"@,
            Errno::NOSYS => "ENOSYS"@,
            Errno::NOTEMPTY => "ENOTEMPTY"@,
            Errno::LOOP => "ELOOP"@,
            Errno::OVERFLOW => "EOVERFLOW"@,
            Errno::NOTSOCK => "ENOTSOCK"@,
            Errno::NOTSUP => "ENOTSUP"@,
            Errno::TIMEDOUT => "ETIMEDOUT"@,
            Errno::Raw(_) => "E?"@,
        }
    }

    /// Whether two errors are one: a number that has a name is the error of that name, however it
    /// is written.
    pub open spec fn is_same(self, other: Errno) -> bool {
        self.code() == other.code()
    }

    /// Whether two errors are one, however they are written.
    pub fn same_as(self, other: Errno) -> (r: bool)
        ensures
            r == self.is_same(other),
    {
        self.number() == other.number()
    }

    /// The number Linux gives this error.
    pub fn number(self) -> (r: i32)
        ensures
            r == self.code(),
    {
        match self {
            Errno::PERM => 1,
            Errno::NOENT => 2,
            Errno::SRCH => 3,
            Errno::INTR => 4,
            Errno::IO => 5,
            Errno::NXIO => 6,
            Errno::TOOBIG => 7,
            Errno::NOEXEC => 8,
            Errno::BADF => 9,
            Errno::CHILD => 10,
            Errno::AGAIN => 11,
            Errno::NOMEM => 12,
            Errno::ACCES => 13,
            Errno::FAULT => 14,
            Errno::BUSY => 16,
            Errno::EXIST => 17,
            Errno::XDEV => 18,
            Errno::NODEV => 19,
            Errno::NOTDIR => 20,
            Errno::ISDIR => 21,
            Errno::INVAL => 22,
            Errno::NFILE => 23,
            Errno::MFILE => 24,
            Errno::NOTTY => 25,
            Errno::FBIG => 27,
            Errno::NOSPC => 28,
            Errno::SPIPE => 29,
            Errno::ROFS => 30,
            Errno::MLINK => 31,
            Errno::PIPE => 32,
            Errno::RANGE => 34,
            Errno::NAMETOOLONG => 36,
            Errno::NOSYS => 38,
            Errno::NOTEMPTY => 39,
            Errno::LOOP => 40,
            Errno::OVERFLOW => 75,
            Errno::NOTSOCK => 88,
            Errno::NOTSUP => 95,
            Errno::TIMEDOUT => 110,
            Errno::Raw(n) => n,
        }
    }

    /// The conventional short name, e.g. `"ENOENT"`.
    pub fn name(self) -> (r: &'static str)
        ensures
            r@ == self.short_name(),
    {
        match self {
            Errno::PERM => "EPERM",
            Errno::NOENT => "ENOENT",
            Errno::SRCH => "ESRCH",
            Errno::INTR => "EINTR",
            Errno::IO => "EIO",
            Errno::NXIO => "ENXIO",
            Errno::TOOBIG => "ETOOBIG",
            Errno::NOEXEC => "ENOEXEC",
            Errno::BADF => "EBADF",
            Errno::CHILD => "ECHILD",
            Errno::AGAIN => "EAGAIN",
            Errno::NOMEM => "ENOMEM",
            Errno::ACCES => "EACCES",
            Errno::FAULT => "EFAULT",
            Errno::BUSY => "EBUSY",
            Errno::EXIST => "EEXIST",
            Errno::XDEV => "EXDEV",
            Errno::NODEV => "ENODEV",
            Errno::NOTDIR => "ENOTDIR",
            Errno::ISDIR => "EISDIR",
            Errno::INVAL => "EINVAL",
            Errno::NFILE => "ENFILE",
            Errno::MFILE => "EMFILE",
            Errno::NOTTY => "ENOTTY",
            Errno::FBIG => "EFBIG",
            Errno::NOSPC => "ENOSPC",
            Errno::SPIPE => "ESPIPE",
            Errno::ROFS => "EROFS",
            Errno::MLINK => "EMLINK",
            Errno::PIPE => "EPIPE",
            Errno::RANGE => "ERANGE",
            Errno::NAMETOOLONG => "ENAMETOOLONG",
            Errno::NOSYS => "ENOSYS",
            Errno::NOTEMPTY => "ENOTEMPTY",
            Errno::LOOP => "ELOOP",
            Errno::OVERFLOW => "EOVERFLOW",
            Errno::NOTSOCK => "ENOTSOCK",
            Errno::NOTSUP => "ENOTSUP",
            Errno::TIMEDOUT => "ETIMEDOUT",
            Errno::Raw(_) => "E?",
        }
    }

    /// The error a Linux number stands for, by name where it has one.
    pub fn from_number(n: i32) -> (r: Errno)
        ensures
            r.code() == n,
            r is Raw ==> forall|e: Errno| !(e is Raw) ==> #[trigger] e.code() != n,
    {
        match n {
            1 => Errno::PERM,
            2 => Errno::NOENT,
            3 => Errno::SRCH,
            4 => Errno::INTR,
            5 => Errno::IO,
            6 => Errno::NXIO,
            7 => Errno::TOOBIG,
            8 => Errno::NOEXEC,
            9 => Errno::BADF,
            10 => Errno::CHILD,
            11 => Errno::AGAIN,
            12 => Errno::NOMEM,
            13 => Errno::ACCES,
            14 => Errno::FAULT,
            16 => Errno::BUSY,
            17 => Errno::EXIST,
            18 => Errno::XDEV,
            19 => Errno::NODEV,
            20 => Errno::NOTDIR,
            21 => Errno::ISDIR,
            22 => Errno::INVAL,
            23 => Errno::NFILE,
            24 => Errno::MFILE,
            25 => Errno::NOTTY,
            27 => Errno::FBIG,
            28 => Errno::NOSPC,
            29 => Errno::SPIPE,
            30 => Errno::ROFS,
            31 => Errno::MLINK,
            32 => Errno::PIPE,
            34 => Errno::RANGE,
            36 => Errno::NAMETOOLONG,
            38 => Errno::NOSYS,
            39 => Errno::NOTEMPTY,
            40 => Errno::LOOP,
            75 => Errno::OVERFLOW,
            88 => Errno::NOTSOCK,
            95 => Errno::NOTSUP,
            110 => Errno::TIMEDOUT,
            _ => Errno::Raw(n),
        }
    }

    /// The negative value a syscall returns for this error.
    pub fn as_neg(self) -> (r: i32)
        ensures
            r == if self.code() == i32::MIN { i32::MIN as int } else { -self.code() },
    {
        let n: i32 = self.number();
        if n == i32::MIN {
            n
        } else {
            -n
        }
    }

    /// Translate a host failure into the guest's numbering.
    ///
    /// The portable kind decides where it says anything; the raw number is used only where the
    /// host numbers its errors as the guest does, and the caller passes `None` elsewhere.
    pub fn from_io(kind: IoKind, raw: Option<i32>) -> (r: Errno)
        ensures
            errno_of_kind(kind) is Some ==> r == errno_of_kind(kind)->0,
            errno_of_kind(kind) is None ==> match raw {
                Some(n) => if n > 0 {
                    r.code() == n && (r is Raw ==> forall|e: Errno|
                        !(e is Raw) ==> #[trigger] e.code() != n)
                } else {
                    r == Errno::IO
                },
                None => r == Errno::IO,
            },
    {
        match kind {
            IoKind::NotFound => Errno::NOENT,
            IoKind::PermissionDenied => Errno::ACCES,
            IoKind::AlreadyExists => Errno::EXIST,
            IoKind::InvalidInput => Errno::INVAL,
            IoKind::InvalidData => Errno::INVAL,
            IoKind::Unsupported => Errno::NOSYS,
            IoKind::WouldBlock => Errno::AGAIN,
            IoKind::BrokenPipe => Errno::PIPE,
            IoKind::IsADirectory => Errno::ISDIR,
            IoKind::NotADirectory => Errno::NOTDIR,
            IoKind::DirectoryNotEmpty => Errno::NOTEMPTY,
            IoKind::ReadOnlyFilesystem => Errno::ROFS,
            IoKind::StorageFull => Errno::NOSPC,
            IoKind::FileTooLarge => Errno::FBIG,
            IoKind::TooManyLinks => Errno::MLINK,
            IoKind::InvalidFilename => Errno::NAMETOOLONG,
            IoKind::Interrupted => Errno::INTR,
            IoKind::Other => match raw {
                Some(n) => if n > 0 {
                    Errno::from_number(n)
                } else {
                    Errno::IO
                },
                None => Errno::IO,
            },
        }
    }
}

} // verus!
