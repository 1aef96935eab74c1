//! Syscall numbers: Linux `asm-generic`, 32-bit, `time64`.
use vstd::prelude::*;

verus! {

pub const GETCWD: i32 = 17;
pub const DUP: i32 = 23;
pub const DUP3: i32 = 24;
pub const FCNTL: i32 = 25;
pub const IOCTL: i32 = 29;
pub const FLOCK: i32 = 32;
pub const MKDIRAT: i32 = 34;
pub const UNLINKAT: i32 = 35;
pub const SYMLINKAT: i32 = 36;
pub const LINKAT: i32 = 37;
pub const RENAMEAT: i32 = 38;
pub const STATFS: i32 = 43;
pub const FSTATFS: i32 = 44;
pub const TRUNCATE: i32 = 45;
pub const FTRUNCATE: i32 = 46;
pub const FACCESSAT: i32 = 48;
pub const CHDIR: i32 = 49;
pub const FCHDIR: i32 = 50;
pub const FCHMOD: i32 = 52;
pub const FCHMODAT: i32 = 53;
pub const FCHOWNAT: i32 = 54;
pub const FCHOWN: i32 = 55;
pub const OPENAT: i32 = 56;
pub const CLOSE: i32 = 57;
pub const PIPE2: i32 = 59;
pub const GETDENTS64: i32 = 61;
pub const LSEEK: i32 = 62;
pub const READ: i32 = 63;
pub const WRITE: i32 = 64;
pub const READV: i32 = 65;
pub const WRITEV: i32 = 66;
pub const READLINKAT: i32 = 78;
pub const NEWFSTATAT: i32 = 79;
pub const FSTAT: i32 = 80;
pub const SYNC: i32 = 81;
pub const FSYNC: i32 = 82;
pub const FDATASYNC: i32 = 83;
pub const EXIT: i32 = 93;
pub const EXIT_GROUP: i32 = 94;
pub const SET_TID_ADDRESS: i32 = 96;
pub const SET_ROBUST_LIST: i32 = 99;
pub const NANOSLEEP: i32 = 101;
pub const SCHED_GETAFFINITY: i32 = 123;
pub const SCHED_YIELD: i32 = 124;
pub const KILL: i32 = 129;
pub const TKILL: i32 = 130;
pub const TGKILL: i32 = 131;
pub const SIGALTSTACK: i32 = 132;
pub const RT_SIGSUSPEND: i32 = 133;
pub const RT_SIGACTION: i32 = 134;
pub const RT_SIGPROCMASK: i32 = 135;
pub const RT_SIGPENDING: i32 = 136;
pub const RT_SIGRETURN: i32 = 139;
pub const SETREGID: i32 = 143;
pub const SETGID: i32 = 144;
pub const SETREUID: i32 = 145;
pub const SETUID: i32 = 146;
pub const SETRESUID: i32 = 147;
pub const SETRESGID: i32 = 149;
pub const TIMES: i32 = 153;
pub const SETPGID: i32 = 154;
pub const GETPGID: i32 = 155;
pub const GETSID: i32 = 156;
pub const SETSID: i32 = 157;
pub const GETGROUPS: i32 = 158;
pub const SETGROUPS: i32 = 159;
pub const UNAME: i32 = 160;
pub const GETRUSAGE: i32 = 165;
pub const UMASK: i32 = 166;
pub const PRCTL: i32 = 167;
pub const GETTIMEOFDAY: i32 = 169;
pub const GETPID: i32 = 172;
pub const GETPPID: i32 = 173;
pub const GETUID: i32 = 174;
pub const GETEUID: i32 = 175;
pub const GETGID: i32 = 176;
pub const GETEGID: i32 = 177;
pub const GETTID: i32 = 178;
pub const SYSINFO: i32 = 179;
pub const SOCKET: i32 = 198;
pub const SOCKETPAIR: i32 = 199;
pub const BIND: i32 = 200;
pub const LISTEN: i32 = 201;
pub const ACCEPT: i32 = 202;
pub const CONNECT: i32 = 203;
pub const GETSOCKNAME: i32 = 204;
pub const GETPEERNAME: i32 = 205;
pub const SENDTO: i32 = 206;
pub const RECVFROM: i32 = 207;
pub const SETSOCKOPT: i32 = 208;
pub const GETSOCKOPT: i32 = 209;
pub const SHUTDOWN: i32 = 210;
pub const SENDMSG: i32 = 211;
pub const RECVMSG: i32 = 212;
pub const BRK: i32 = 214;
pub const MUNMAP: i32 = 215;
pub const MREMAP: i32 = 216;
pub const CLONE: i32 = 220;
pub const EXECVE: i32 = 221;
pub const MMAP: i32 = 222;
pub const FADVISE64: i32 = 223;
pub const MPROTECT: i32 = 226;
pub const MSYNC: i32 = 227;
pub const MLOCK: i32 = 228;
pub const MUNLOCK: i32 = 229;
pub const MADVISE: i32 = 233;
pub const ACCEPT4: i32 = 242;
pub const WAIT4: i32 = 260;
pub const PRLIMIT64: i32 = 261;
pub const SYNCFS: i32 = 267;
pub const RENAMEAT2: i32 = 276;
pub const GETRANDOM: i32 = 278;
pub const MEMBARRIER: i32 = 283;
pub const STATX: i32 = 291;
pub const RSEQ: i32 = 293;
pub const CLOCK_GETTIME64: i32 = 403;
pub const CLOCK_GETRES_TIME64: i32 = 406;
pub const CLOCK_NANOSLEEP_TIME64: i32 = 407;
pub const UTIMENSAT_TIME64: i32 = 412;
pub const PSELECT6_TIME64: i32 = 413;
pub const PPOLL_TIME64: i32 = 414;
pub const FACCESSAT2: i32 = 439;

} // verus!
