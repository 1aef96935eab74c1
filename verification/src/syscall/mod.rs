//! The syscall table: what the guest asks for, and what the kernel does about it.
//!
//! Every handler is a pure function of the kernel's state, the mounted filesystems and the
//! guest's memory, which is what makes them testable without an engine and what keeps the
//! blocking story simple: a handler that cannot finish returns [`Fault::Block`](base::Fault)
//! and is called again later with the same arguments, so nothing is consumed before it can
//! commit.
//!
//! Nothing here panics. Bounds are checked, arithmetic saturates or is checked, and a bad
//! pointer from the guest is `EFAULT`.
pub mod base;
pub mod exec;
pub mod fds;
pub mod io;
pub mod ioctl;
pub mod memory;
pub mod open;
pub mod path;
pub mod poll;
pub mod process;
pub mod signal;
pub mod start;
pub mod stat;
pub mod table;
pub mod time;
pub mod vector;
