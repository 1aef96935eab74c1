//! A POSIX process sandbox: the kernel that gives guest programs pipes, signals, `vfork`,
//! `execve` and a filesystem of the embedder's own.
pub mod abi;
pub mod cli;
pub mod corpus;
pub mod engine;
pub mod errno;
pub mod host;
pub mod kernel;
pub mod laws;
pub mod nr;
pub mod sandbox;
pub mod session;
pub mod slab;
pub mod syscall;
pub mod text;
pub mod vfs;

pub use abi::ABI_VERSION;
pub use engine::LoadError;
pub use errno::{Errno, VfsResult};
pub use host::{Exit, HostCommand, Invocation};
pub use kernel::state::{Budget, Limits};
pub use sandbox::{commands, Builder, Error, ProgramInfo, Sandbox};
pub use session::{Command, ExitStatus, Output, Progress, Session, Wait};
pub use vfs::memory::MemVfs;
pub use vfs::{DirEntry, EmptyVfs, FileType, OpenOptions, SeekFrom, Stat, Vfs, VfsFile};
