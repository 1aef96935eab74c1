//! The kernel: process lifecycle, the scheduler, and the state syscalls act on.
pub mod fd;
pub mod imports;
pub mod mem;
pub mod mounts;
pub mod namespace;
pub mod path;
pub mod run;
pub mod sched;
pub mod state;
pub mod step;
pub mod task;
pub mod tty;
