//! System calls, one at a time, on a process of their own.
use wasmux::abi::{
    AT_FDCWD, CLONE_THREAD, CLONE_VFORK, CLONE_VM, O_CLOEXEC, O_CREAT, O_RDONLY, O_RDWR, O_WRONLY,
    SIGCHLD, TCGETS,
};
use wasmux::engine::{self, TrapKind};
use wasmux::kernel::imports::{longjmp_entry, setjmp_entry, Reply};
use wasmux::kernel::mounts::{Mount, Mounts, Overlay};
use wasmux::kernel::run::{Idle, Kernel, Pick, ProcStep, Slice};
use wasmux::kernel::state::{Budget, Call, Clock, Limits, ProgramEntry, ProgramKind};
use wasmux::kernel::step::{After, Go};
use wasmux::nr;
use wasmux::syscall::table::{dispatch, dispatch_grown, Outcome};
use wasmux::vfs::memory::MemFile;
use wasmux::vfs::simple::{NoStorage, Simple};
use wasmux::{EmptyVfs, MemVfs, OpenOptions, Vfs};

const PAGE: usize = 65536;
const VFORK: u32 = CLONE_VM | CLONE_VFORK | SIGCHLD as u32;

/// A kernel with one guest, its memory, and two mounts: one at the root, one at `/tmp`.
struct Box1 {
    kernel: Kernel<MemFile>,
    fs: Mounts<MemVfs>,
    mem: Vec<u8>,
    now: u128,
}

fn clock(now: u128) -> Clock {
    Clock { elapsed: now, realtime: 1_700_000_000_000_000_000 + now, uptime: "0.00".to_string() }
}

fn new_box(limits: Limits) -> Box1 {
    let mut overlay = Overlay::new();
    overlay.place("/bin/sh".to_string(), 0);
    let programs = vec![ProgramEntry { name: "sh".to_string(), kind: ProgramKind::Guest }];
    let mut kernel: Kernel<MemFile> = Kernel::new(overlay, programs, limits);
    let argv = vec![b"sh".to_vec()];
    let first = kernel
        .spawn_first(0, "/bin/sh".to_string(), argv, vec![], "/".to_string())
        .ok()
        .unwrap();
    let (ctx, _) = kernel.launch(first);
    let charge = kernel.charge_guest(2 * PAGE as u64).ok().unwrap();
    assert_eq!(charge, 18 * PAGE as u64);
    assert_eq!(kernel.install_guest(0, ctx, charge, Some(2)).ok(), Some(0));
    let mut fs = Mounts::new();
    let root = MemVfs::new().with_file("/etc/motd", b"welcome\n".to_vec()).with_dir("/tmp");
    fs.push(Mount { at: "/".to_string(), vfs: root, read_only: false });
    fs.push(Mount { at: "/tmp".to_string(), vfs: MemVfs::new(), read_only: false });
    Box1 { kernel, fs, mem: vec![0; 18 * PAGE], now: 0 }
}

impl Box1 {
    fn call(&mut self, number: i32, a: [i32; 6]) -> Outcome {
        let call = Call { number, a0: a[0], a1: a[1], a2: a[2], a3: a[3], a4: a[4], a5: a[5] };
        let k = &mut self.kernel;
        dispatch(
            &mut k.shared,
            &mut k.procs[0].ctx,
            &mut self.fs,
            &mut self.mem,
            &clock(self.now),
            call,
        )
    }

    fn value(&mut self, number: i32, a: [i32; 6]) -> i32 {
        match self.call(number, a) {
            Outcome::Value(v) => v,
            other => panic!("{other:?}"),
        }
    }

    fn text(&mut self, at: usize, s: &str) -> i32 {
        self.mem[at..at + s.len()].copy_from_slice(s.as_bytes());
        self.mem[at + s.len()] = 0;
        at as i32
    }

    fn open(&mut self, path: &str, flags: u32) -> i32 {
        let at = self.text(1024, path);
        self.value(nr::OPENAT, [AT_FDCWD, at, flags as i32, 0o644, 0, 0])
    }

    fn write(&mut self, fd: i32, data: &[u8]) -> Outcome {
        self.mem[4096..4096 + data.len()].copy_from_slice(data);
        self.call(nr::WRITE, [fd, 4096, data.len() as i32, 0, 0, 0])
    }

    fn word(&self, at: usize) -> i32 {
        i32::from_le_bytes([self.mem[at], self.mem[at + 1], self.mem[at + 2], self.mem[at + 3]])
    }

    fn pipe(&mut self) -> (i32, i32) {
        assert_eq!(self.value(nr::PIPE2, [512, 0, 0, 0, 0, 0]), 0);
        (self.word(512), self.word(516))
    }
}

fn small() -> Box1 {
    new_box(Limits::default())
}

#[test]
fn there_are_no_sockets_and_no_threads() {
    let mut b = small();
    for number in nr::SOCKET..=nr::RECVMSG {
        assert_eq!(b.value(number, [0; 6]), -38);
    }
    assert_eq!(b.value(nr::ACCEPT4, [0; 6]), -38);
    assert_eq!(b.value(nr::FSTAT, [0; 6]), -38);
    let thread = CLONE_VM | CLONE_VFORK | CLONE_THREAD;
    assert_eq!(b.value(nr::CLONE, [thread as i32, 0, 0, 0, 0, 0]), -38);
    assert_eq!(b.value(nr::CLONE, [CLONE_VFORK as i32, 0, 0, 0, 0, 0]), -38);
    // Nothing but what `vfork` asks for, and all of it.
    let silent = CLONE_VM | CLONE_VFORK;
    assert_eq!(b.value(nr::CLONE, [silent as i32, 0, 0, 0, 0, 0]), -38);
    assert_eq!(b.value(nr::CLONE, [(VFORK | 0x200) as i32, 0, 0, 0, 0, 0]), -38);
}

#[test]
fn a_blocked_read_takes_nothing() {
    let mut b = small();
    let (r, w) = b.pipe();
    let before = b.mem.clone();
    let read = [r, 8192, 100, 0, 0, 0];
    assert_eq!(b.call(nr::READ, read), Outcome::Blocked);
    assert_eq!(b.mem, before);
    assert_eq!(b.write(w, b"abcdef"), Outcome::Value(6));
    assert_eq!(b.call(nr::READ, [r, 8192, 2, 0, 0, 0]), Outcome::Value(2));
    assert_eq!(b.call(nr::READ, [r, 8194, 100, 0, 0, 0]), Outcome::Value(4));
    assert_eq!(&b.mem[8192..8198], b"abcdef");
    assert_eq!(b.value(nr::CLOSE, [w, 0, 0, 0, 0, 0]), 0);
    assert_eq!(b.call(nr::READ, read), Outcome::Value(0));
}

#[test]
fn a_full_pipe_blocks_its_writer() {
    let mut b = small();
    let (r, w) = b.pipe();
    let chunk = vec![7u8; 40000];
    assert_eq!(b.write(w, &chunk), Outcome::Value(40000));
    assert_eq!(b.write(w, &chunk), Outcome::Value(25536));
    assert_eq!(b.write(w, &chunk), Outcome::Blocked);
    assert_eq!(b.value(nr::CLOSE, [r, 0, 0, 0, 0, 0]), 0);
    // Nobody will read it any more: `EPIPE`, and the signal that goes with it.
    assert_eq!(b.write(w, &chunk), Outcome::Value(-32));
    assert_eq!(b.kernel.shared.pending(1), 1 << 13);
}

#[test]
fn limits_are_errors_the_guest_can_see() {
    let limits = Limits { processes: 2, open_files: 5, memory: 20 * PAGE as u64, ..Limits::default() };
    let mut b = new_box(limits);
    // Three streams are open already.
    assert_eq!(b.open("/etc/motd", O_RDONLY), 3);
    assert_eq!(b.open("/etc/motd", O_RDONLY), 4);
    assert_eq!(b.open("/etc/motd", O_RDONLY), -24);
    assert_eq!(b.value(nr::DUP, [0, 0, 0, 0, 0, 0]), -24);
    let vfork = [VFORK as i32, 0, 0, 0, 0, 0];
    assert_eq!(b.value(nr::CLONE, vfork), 0);
    assert_eq!(b.value(nr::GETPID, [0; 6]), 2);
    assert_eq!(b.value(nr::CLONE, vfork), -11);
    // The child exits, and the parent is itself again, with the child's pid.
    assert_eq!(b.value(nr::EXIT_GROUP, [9, 0, 0, 0, 0, 0]), 2);
    assert_eq!(b.value(nr::GETPID, [0; 6]), 1);
    assert_eq!(b.value(nr::WAIT4, [-1, 600, 0, 0, 0, 0]), 2);
    assert_eq!(b.word(600), 9 << 8);
    assert_eq!(b.value(nr::WAIT4, [-1, 600, 0, 0, 0, 0]), -10);
    // Eighteen pages are in use, so two more fit and three do not.
    let here = b.value(nr::BRK, [0; 6]);
    assert_eq!(here, 18 * PAGE as i32);
    assert_eq!(b.value(nr::BRK, [here + 3 * PAGE as i32, 0, 0, 0, 0, 0]), here);
    let wanted = here + 2 * PAGE as i32;
    assert_eq!(b.call(nr::BRK, [wanted, 0, 0, 0, 0, 0]), Outcome::Grow(2));
    b.mem.resize(20 * PAGE, 0);
    let call = Call { number: nr::BRK, a0: wanted, a1: 0, a2: 0, a3: 0, a4: 0, a5: 0 };
    let k = &mut b.kernel;
    let done =
        dispatch_grown(&mut k.shared, &mut k.procs[0].ctx, &b.fs, &mut b.mem, call, Some(18));
    assert_eq!(done, Outcome::Value(wanted));
    assert_eq!(b.kernel.shared.memory_used, 20 * PAGE as u64);
    // Nothing a guest did has moved a limit.
    assert_eq!((b.kernel.shared.limits.processes, b.kernel.shared.limits.open_files), (2, 5));
    // Whoever ends gives back what it grew by, too.
    b.kernel.finish_process(&mut b.fs, 0, 0);
    assert_eq!(b.kernel.shared.memory_used, 0);
}

#[test]
fn a_child_that_cannot_start_lets_go_of_its_pipe() {
    let mut b = small();
    let (reader, writer) = b.pipe();
    let vfork = [VFORK as i32, 0, 0, 0, 0, 0];
    assert_eq!(b.value(nr::CLONE, vfork), 0);
    assert_eq!(b.value(nr::CLOSE, [reader, 0, 0, 0, 0, 0]), 0);
    let path = b.text(1024, "/bin/sh");
    assert_eq!(b.value(nr::EXECVE, [path, 0, 0, 0, 0, 0]), 2);
    assert_eq!(b.value(nr::CLOSE, [writer, 0, 0, 0, 0, 0]), 0);
    let mut pass = b.kernel.begin(0);
    let Pick::Start(spawn) = b.kernel.pick(&mut b.fs, &mut pass, 0, Budget::unlimited()) else {
        panic!("there is a child to start")
    };
    // It holds the only end that could write.
    assert_eq!(b.call(nr::READ, [reader, 4096, 8, 0, 0, 0]), Outcome::Blocked);
    assert_eq!(b.kernel.processes(), 2);
    let (ctx, _) = b.kernel.launch(spawn);
    b.kernel.start_failed(&mut b.fs, ctx);
    assert_eq!(b.kernel.processes(), 1);
    assert_eq!(b.value(nr::READ, [reader, 4096, 8, 0, 0, 0]), 0);
    assert_eq!(b.value(nr::WAIT4, [-1, 600, 0, 0, 0, 0]), 2);
    assert_eq!(b.word(600), 126 << 8);
    assert_eq!(b.kernel.exit_status, None);
}

#[test]
fn a_first_process_that_cannot_be_replaced_ends_the_session() {
    let mut b = small();
    let path = b.text(1024, "/bin/sh");
    assert_eq!(b.call(nr::EXECVE, [path, 0, 0, 0, 0, 0]), Outcome::Exec);
    let mut pass = b.kernel.begin(0);
    let picked = b.kernel.pick(&mut b.fs, &mut pass, 0, Budget::unlimited());
    assert!(matches!(picked, Pick::Guest(0)));
    let Ok((spawn, _)) = b.kernel.take_exec(0) else { panic!("it asked to be replaced") };
    assert_eq!(b.kernel.shared.memory_used, 0);
    let (ctx, _) = b.kernel.launch(spawn);
    b.kernel.start_failed(&mut b.fs, ctx);
    let slice = b.kernel.settle(&mut b.fs, &mut pass, ProcStep::Stuck);
    assert_eq!(slice, Some(Slice::Finished(126 << 8)));
    assert_eq!(b.kernel.shared.descs.len(), 0);
}

#[test]
fn what_cannot_be_had_leaves_nothing_behind() {
    let mut b = new_box(Limits { open_files: 4, ..Limits::default() });
    // There is one descriptor left, and a pipe needs two.
    assert_eq!(b.value(nr::PIPE2, [512, 0, 0, 0, 0, 0]), -24);
    assert_eq!((b.kernel.shared.descs.len(), b.kernel.shared.pipes.len()), (3, 0));
    assert_eq!(b.open("/etc/motd", O_RDONLY), 3);
    assert_eq!(b.value(nr::DUP, [3, 0, 0, 0, 0, 0]), -24);
    assert_eq!(b.value(nr::DUP3, [3, 9, 0, 0, 0, 0]), -9);
    // Its one descriptor was all that held it open.
    assert_eq!(b.kernel.shared.descs.len(), 4);
    assert_eq!(b.value(nr::CLOSE, [3, 0, 0, 0, 0, 0]), 0);
    assert_eq!(b.kernel.shared.descs.len(), 3);
    let mut b = small();
    let end = b.mem.len() as i32;
    assert_eq!(b.value(nr::PIPE2, [end - 4, 0, 0, 0, 0, 0]), -14);
    assert_eq!(b.word(end as usize - 4), 0);
    assert_eq!((b.kernel.shared.descs.len(), b.kernel.shared.pipes.len()), (3, 0));
    assert_eq!(b.pipe(), (3, 4));
}

#[test]
fn selecting_on_standard_input_asks_for_it() {
    let mut b = small();
    // Descriptor 1 is output: nothing it is asked about could end the wait.
    b.mem[512] = 0;
    assert_eq!(b.call(nr::PSELECT6_TIME64, [1, 512, 0, 0, 0, 0]), Outcome::Blocked);
    assert_eq!(b.kernel.why_idle(), Idle::Deadlock);
    b.mem[512] = 1;
    assert_eq!(b.call(nr::PSELECT6_TIME64, [1, 512, 0, 0, 0, 0]), Outcome::Blocked);
    assert_eq!(b.kernel.why_idle(), Idle::Stdin);
    b.kernel.shared.stdin.feed(b"x");
    assert_eq!(b.value(nr::PSELECT6_TIME64, [1, 512, 0, 0, 0, 0]), 1);
    assert_eq!(b.mem[512], 1);
}

#[test]
fn a_sleep_that_is_over_is_waited_for_no_longer() {
    let mut b = small();
    b.mem[512] = 1;
    let sleep = [1, 0, 512, 0, 0, 0];
    assert_eq!(b.call(nr::CLOCK_NANOSLEEP_TIME64, sleep), Outcome::Blocked);
    assert_eq!(b.kernel.why_idle(), Idle::Until(1_000_000_000));
    b.now = 1_000_000_000;
    assert_eq!(b.call(nr::CLOCK_NANOSLEEP_TIME64, sleep), Outcome::Value(0));
    assert_eq!(b.call(nr::READ, [0, 4096, 8, 0, 0, 0]), Outcome::Blocked);
    assert_eq!(b.kernel.why_idle(), Idle::Stdin);
}

#[test]
fn a_file_has_one_number() {
    let mut b = small();
    for dir in ["/", "/etc", "/dev", "/bin"] {
        let fd = b.open(dir, O_RDONLY);
        assert!(fd >= 0, "{dir}");
        let size = b.value(nr::GETDENTS64, [fd, 8192, 4096, 0, 0, 0]) as usize;
        let block = b.mem[8192..8192 + size].to_vec();
        let mut at = 0;
        let mut seen = 0;
        while at < size {
            let length = u16::from_le_bytes([block[at + 16], block[at + 17]]) as usize;
            let name: Vec<u8> =
                block[at + 19..at + length].iter().copied().take_while(|c| *c != 0).collect();
            let name = String::from_utf8(name).unwrap();
            if name != "." && name != ".." {
                let path = if dir == "/" { format!("/{name}") } else { format!("{dir}/{name}") };
                let text = b.text(1024, &path);
                // Follow nothing.
                assert_eq!(b.value(nr::STATX, [AT_FDCWD, text, 0x100, 0, 2048, 0]), 0, "{path}");
                assert_eq!(b.mem[2048 + 32..2048 + 40], block[at..at + 8], "{path}");
                assert!(block[at..at + 8].iter().any(|b| *b != 0));
                seen += 1;
            }
            at += length;
        }
        assert!(seen > 0, "{dir}");
    }
}

#[test]
fn a_read_only_mount_refuses_every_change() {
    let mut b = small();
    b.fs = Mounts::new();
    let root = MemVfs::new().with_file("/f", b"kept".to_vec()).with_dir("/d");
    b.fs.push(Mount { at: "/".to_string(), vfs: root, read_only: true });
    let f = b.text(1024, "/f");
    let g = b.text(1100, "/g");
    let d = b.text(1200, "/d");
    let open = b.call(nr::OPENAT, [AT_FDCWD, f, O_WRONLY as i32, 0, 0, 0]);
    assert_eq!(open, Outcome::Value(-30));
    let create = (O_RDONLY | O_CREAT) as i32;
    assert_eq!(b.value(nr::OPENAT, [AT_FDCWD, g, create, 0o644, 0, 0]), -30);
    assert_eq!(b.value(nr::TRUNCATE, [f, 0, 0, 0, 0, 0]), -30);
    assert_eq!(b.value(nr::MKDIRAT, [AT_FDCWD, g, 0o755, 0, 0, 0]), -30);
    assert_eq!(b.value(nr::UNLINKAT, [AT_FDCWD, f, 0, 0, 0, 0]), -30);
    assert_eq!(b.value(nr::UNLINKAT, [AT_FDCWD, d, 0x200, 0, 0, 0]), -30);
    assert_eq!(b.value(nr::RENAMEAT2, [AT_FDCWD, f, AT_FDCWD, g, 0, 0]), -30);
    assert_eq!(b.value(nr::SYMLINKAT, [f, AT_FDCWD, g, 0, 0, 0]), -30);
    assert_eq!(b.value(nr::FCHMODAT, [AT_FDCWD, f, 0o600, 0, 0, 0]), -30);
    let fd = b.value(nr::OPENAT, [AT_FDCWD, f, O_RDONLY as i32, 0, 0, 0]);
    assert_eq!(b.value(nr::FTRUNCATE, [fd, 0, 0, 0, 0, 0]), -30);
    assert_eq!(b.fs.stat(0, "/f", true).map(|s| s.size), Ok(4));
}

#[test]
fn the_longest_mount_wins() {
    let mut b = small();
    let fd = b.open("/tmp/f", O_WRONLY | O_CREAT);
    assert_eq!(b.write(fd, b"scratch"), Outcome::Value(7));
    assert_eq!(b.fs.stat(1, "/f", true).map(|s| s.size), Ok(7));
    assert!(b.fs.stat(0, "/tmp/f", true).is_err());
    let fd = b.open("/tmpf", O_WRONLY | O_CREAT);
    assert_eq!(b.write(fd, b"root"), Outcome::Value(4));
    assert_eq!(b.fs.stat(0, "/tmpf", true).map(|s| s.size), Ok(4));
    // A rename stays within one mount.
    let from = b.text(1024, "/tmp/f");
    let to = b.text(2048, "/g");
    let rename = [AT_FDCWD, from, AT_FDCWD, to, 0, 0];
    assert_eq!(b.value(nr::RENAMEAT, rename), -18);
}

#[test]
fn a_descriptor_shares_its_position_with_its_copies() {
    let mut b = small();
    let fd = b.open("/etc/motd", O_RDWR);
    let copy = b.value(nr::DUP, [fd, 0, 0, 0, 0, 0]);
    assert_eq!(b.call(nr::READ, [fd, 8192, 3, 0, 0, 0]), Outcome::Value(3));
    assert_eq!(b.value(nr::CLOSE, [fd, 0, 0, 0, 0, 0]), 0);
    assert_eq!(b.call(nr::READ, [copy, 8192, 100, 0, 0, 0]), Outcome::Value(5));
    assert_eq!(&b.mem[8192..8197], b"come\n");
    assert_eq!(b.value(nr::CLOSE, [fd, 0, 0, 0, 0, 0]), -9);
    let marked = b.open("/etc/motd", O_RDONLY | O_CLOEXEC);
    assert_eq!(b.value(nr::FCNTL, [marked, 1, 0, 0, 0, 0]), 1);
    assert_eq!(b.value(nr::FCNTL, [copy, 1, 0, 0, 0, 0]), 0);
}

#[test]
fn without_a_terminal_nothing_is_a_terminal() {
    let mut b = small();
    assert_eq!(b.value(nr::IOCTL, [0, TCGETS as i32, 8192, 0, 0, 0]), -25);
    b.kernel.set_terminal(80, 24);
    assert_eq!(b.value(nr::IOCTL, [0, TCGETS as i32, 8192, 0, 0, 0]), 0);
    let fd = b.open("/etc/motd", O_RDONLY);
    assert_eq!(b.value(nr::IOCTL, [fd, TCGETS as i32, 8192, 0, 0, 0]), -25);
}

#[test]
fn a_signal_interrupts_a_wait() {
    let mut b = small();
    let (r, _) = b.pipe();
    let read = [r, 8192, 1, 0, 0, 0];
    assert_eq!(b.call(nr::READ, read), Outcome::Blocked);
    assert_eq!(b.value(nr::KILL, [1, 15, 0, 0, 0, 0]), 0);
    assert_eq!(b.call(nr::READ, read), Outcome::Value(-4));
    assert_eq!(b.value(nr::KILL, [77, 15, 0, 0, 0, 0]), -3);
    assert_eq!(b.value(nr::KILL, [1, 64, 0, 0, 0, 0]), -22);
}

#[test]
fn longjmp_returns_to_setjmp() {
    let mut b = small();
    let area = 2 * PAGE as u32;
    let at = area as usize;
    // `setjmp` asks for the stack to be saved; the engine writes it behind the header.
    let reply = setjmp_entry(&mut b.kernel.procs[0].ctx, &mut b.mem, 777, 4000);
    assert_eq!(reply, Reply::Unwind(area));
    b.mem[at + 8..at + 12].copy_from_slice(b"deep");
    b.mem[at..at + 4].copy_from_slice(&(area + 12).to_le_bytes());
    let after = b.kernel.after_run(&mut b.mem, 0, engine::Exit::Returned);
    assert_eq!(after, After::Done(ProcStep::Ran));
    // It is entered again by rewinding, and `setjmp` returns zero.
    let go = b.kernel.resume(&mut b.fs, &mut b.mem, &clock(0), 0);
    assert_eq!(go, Go::Enter(Some(area)));
    let reply = setjmp_entry(&mut b.kernel.procs[0].ctx, &mut b.mem, 5, 4000);
    assert_eq!(reply, Reply::Rewound { sp: 777, value: 0 });
    // Later the stack is another one.
    b.mem[at + 8..at + 12].copy_from_slice(b"else");
    let reply = longjmp_entry(&mut b.kernel.procs[0].ctx, &mut b.mem, 4000, 42);
    assert_eq!(reply, Reply::Unwind(area));
    let after = b.kernel.after_run(&mut b.mem, 0, engine::Exit::Returned);
    assert_eq!(after, After::Done(ProcStep::Ran));
    assert_eq!(&b.mem[at + 8..at + 12], b"deep");
    let go = b.kernel.resume(&mut b.fs, &mut b.mem, &clock(0), 0);
    assert_eq!(go, Go::Enter(Some(area)));
    let reply = setjmp_entry(&mut b.kernel.procs[0].ctx, &mut b.mem, 5, 4000);
    assert_eq!(reply, Reply::Rewound { sp: 777, value: 42 });
    // A buffer that was never set is the guest's bug, and its death.
    longjmp_entry(&mut b.kernel.procs[0].ctx, &mut b.mem, 5000, 1);
    let after = b.kernel.after_run(&mut b.mem, 0, engine::Exit::Returned);
    assert_eq!(after, After::Done(ProcStep::Ended(11)));
}

#[test]
fn a_trap_kills_one_process() {
    let mut b = small();
    let exit = engine::Exit::Trap(TrapKind::OutOfBounds);
    let after = b.kernel.after_run(&mut b.mem, 0, exit);
    assert_eq!(after, After::Done(ProcStep::Ended(11)));
    assert_eq!(
        b.kernel.shared.stderr.data,
        b"wasmux: sh: out of bounds memory access\n".to_vec()
    );
    let mut pass = b.kernel.begin(0);
    let picked = b.kernel.pick(&mut b.fs, &mut pass, 0, Budget::unlimited());
    assert!(matches!(picked, Pick::Guest(0)));
    let over = b.kernel.settle(&mut b.fs, &mut pass, ProcStep::Ended(11));
    assert_eq!(over, Some(Slice::Finished(11)));
    assert_eq!(b.kernel.shared.memory_used, 0);
}

#[test]
fn a_guest_that_returns_has_exited_with_zero() {
    let mut b = small();
    let after = b.kernel.after_run(&mut b.mem, 0, engine::Exit::Returned);
    assert_eq!(after, After::Done(ProcStep::Ended(0)));
}

#[test]
fn a_bad_pointer_is_a_fault() {
    let mut b = small();
    let end = b.mem.len() as i32;
    assert_eq!(b.value(nr::WRITE, [1, end - 1, 2, 0, 0, 0]), -14);
    assert_eq!(b.value(nr::UNAME, [-1, 0, 0, 0, 0, 0]), -14);
    assert_eq!(b.value(nr::OPENAT, [AT_FDCWD, -1, 0, 0, 0, 0]), -14);
    assert!(b.kernel.shared.stdout.data.is_empty());
}

#[test]
fn a_storage_with_nothing_is_an_empty_filesystem() {
    let mut a = EmptyVfs;
    let mut b = Simple { storage: NoStorage };
    for path in ["/", "/x"] {
        let (x, y) = (a.stat(path, true), b.stat(path, true));
        assert_eq!(x.map(|s| s.file_type), y.map(|s| s.file_type));
        assert_eq!(a.readdir(path).map(|l| l.len()), b.readdir(path).map(|l| l.len()));
        assert_eq!(a.truncate(path, 0), b.truncate(path, 0));
        assert_eq!(a.unlink(path), b.unlink(path));
        let opts = OpenOptions::write();
        assert_eq!(a.open(path, &opts).err(), b.open(path, &opts).err());
    }
}
