//! The kernel's tables and codecs, piece by piece.
use wasmux::abi::{ECHO, ICANON, ISIG, SIGCHLD, SIGINT, SIGKILL, SIGSTOP, SIGTERM, SIG_DFL, SIG_IGN, VMIN};
use wasmux::kernel::fd::{Fd, FdTable};
use wasmux::kernel::mem::{
    bytes, cstr, put, put_timespec, put_u64, read_u32, read_u64, timespec, zero, SECOND,
};
use wasmux::kernel::task::{bit, status_exited, status_signaled, triage, SigAction, Task};
use wasmux::kernel::tty::{Termios, TERMIOS_BYTES};
use wasmux::slab::Slab;
use wasmux::Errno;

// ---- descriptors ----

#[test]
fn allocates_the_lowest_free_descriptor() {
    let mut t = FdTable::new();
    let e = Fd { desc: 0, cloexec: false };
    assert_eq!(t.allocate(e, 0, 8), Ok(0));
    assert_eq!(t.allocate(e, 0, 8), Ok(1));
    assert_eq!(t.allocate(e, 0, 8), Ok(2));
    t.take(1).unwrap();
    assert_eq!(t.allocate(e, 0, 8), Ok(1), "the hole is filled first");
    assert_eq!(t.allocate(e, 5, 8), Ok(5), "a minimum is honoured");
}

#[test]
fn enforces_the_descriptor_limit() {
    let mut t = FdTable::new();
    let e = Fd { desc: 0, cloexec: false };
    for _ in 0..4 {
        t.allocate(e, 0, 4).unwrap();
    }
    assert_eq!(t.allocate(e, 0, 4), Err(Errno::MFILE));
    assert_eq!(t.replace(9, e, 4).err(), Some(Errno::BADF));
}

#[test]
fn bad_descriptors_are_errors_not_panics() {
    let mut t = FdTable::new();
    assert_eq!(t.get(-1).err(), Some(Errno::BADF));
    assert_eq!(t.get(1000).err(), Some(Errno::BADF));
    assert_eq!(t.take(0).err(), Some(Errno::BADF));
    assert_eq!(t.set_cloexec(3, true).err(), Some(Errno::BADF));
}

#[test]
fn cloexec_drains_only_marked_entries() {
    let mut t = FdTable::new();
    t.allocate(Fd { desc: 10, cloexec: false }, 0, 8).unwrap();
    t.allocate(Fd { desc: 11, cloexec: true }, 0, 8).unwrap();
    assert_eq!(t.drain_cloexec(), vec![11]);
    assert_eq!(t.count(), 1);
    assert_eq!(t.drain_all(), vec![10]);
    assert_eq!(t.count(), 0);
}

// ---- guest memory ----

#[test]
fn out_of_bounds_is_a_fault_not_a_panic() {
    let mut buf = [0u8; 16];
    let m = &mut buf[..];
    assert_eq!(read_u32(m, 13), Err(Errno::FAULT), "straddling the end");
    assert_eq!(read_u32(m, u32::MAX), Err(Errno::FAULT), "overflowing the addition");
    assert_eq!(bytes(m, 8, 9), Err(Errno::FAULT));
    assert_eq!(put(m, 15, b"ab"), Err(Errno::FAULT));
    assert!(read_u32(m, 12).is_ok(), "the last aligned word is readable");
}

#[test]
fn strings_are_capped_and_unterminated_ones_rejected() {
    let buf = vec![b'a'; 8];
    assert_eq!(cstr(&buf, 0).err(), Some(Errno::NAMETOOLONG), "no NUL in range");
    let buf = b"hi\0there\0".to_vec();
    assert_eq!(cstr(&buf, 0).ok().as_deref(), Some("hi"));
    assert_eq!(cstr(&buf, 3).ok().as_deref(), Some("there"));
    assert_eq!(cstr(&buf, 9).err(), Some(Errno::NAMETOOLONG));
}

#[test]
fn round_trips() {
    let mut buf = [0u8; 32];
    let m = &mut buf[..];
    put_u64(m, 0, 0x1122_3344_5566_7788).ok();
    assert_eq!(read_u64(m, 0), Ok(0x1122_3344_5566_7788));
    put_timespec(m, 8, 7 * SECOND + 500).ok();
    assert_eq!(timespec(m, 8), Ok(7 * SECOND + 500));
    zero(m, 8, 16).ok();
    assert_eq!(read_u64(m, 8), Ok(0));
}

// ---- signals ----

fn task() -> Task {
    Task::new(1, FdTable::new())
}

#[test]
fn ignored_signals_are_discarded_not_delivered() {
    let t = task();
    let (live, discard) = triage(bit(SIGCHLD) | bit(SIGTERM), 0, &t);
    assert_eq!(live, bit(SIGTERM), "SIGCHLD defaults to ignored");
    assert_eq!(discard, bit(SIGCHLD));
}

#[test]
fn a_handler_makes_an_otherwise_ignored_signal_deliverable() {
    let mut t = task();
    t.set_action(SIGCHLD, SigAction { handler: 0x1234, flags: 0, mask: 0 });
    let (live, discard) = triage(bit(SIGCHLD), 0, &t);
    assert_eq!(live, bit(SIGCHLD));
    assert_eq!(discard, 0);
}

#[test]
fn explicit_ignore_beats_a_pending_signal() {
    let mut t = task();
    t.set_action(SIGINT, SigAction { handler: SIG_IGN, flags: 0, mask: 0 });
    let (live, discard) = triage(bit(SIGINT), 0, &t);
    assert_eq!(live, 0);
    assert_eq!(discard, bit(SIGINT));
}

#[test]
fn blocking_defers_everything_except_kill_and_stop() {
    let t = task();
    let all = bit(SIGTERM) | bit(SIGKILL) | bit(SIGSTOP);
    let (live, _) = triage(all, all, &t);
    assert_eq!(live, bit(SIGKILL), "SIGSTOP is ignored by default here, SIGKILL is not");
}

#[test]
fn out_of_range_signals_are_inert() {
    let mut t = task();
    assert_eq!(bit(0), 0);
    assert_eq!(bit(-1), 0);
    assert_eq!(bit(64), 0);
    assert_eq!(bit(9999), 0);
    t.set_action(9999, SigAction { handler: 1, flags: 0, mask: 0 });
    assert_eq!(t.action(9999), SigAction::default());
}

#[test]
fn wait_status_encoding_matches_the_shell() {
    assert_eq!(status_exited(0), 0);
    assert_eq!(status_exited(7) >> 8, 7);
    assert_eq!(status_signaled(SIGKILL) & 0x7f, 9);
    // What a shell reports as $? for each.
    assert_eq!((status_exited(7) >> 8) & 0xff, 7);
    assert_eq!(128 + (status_signaled(SIGKILL) & 0x7f), 137);
}

#[test]
fn exec_resets_handlers_but_keeps_ignores() {
    let mut t = task();
    t.set_action(SIGINT, SigAction { handler: 0xabc, flags: 0, mask: 0 });
    t.set_action(SIGTERM, SigAction { handler: SIG_IGN, flags: 0, mask: 0 });
    t.reset_handlers_for_exec();
    assert_eq!(t.action(SIGINT).handler, SIG_DFL);
    assert_eq!(t.action(SIGTERM).handler, SIG_IGN);
}

// ---- terminal settings ----

#[test]
fn a_fresh_terminal_is_canonical_and_echoing() {
    let t = Termios::cooked();
    assert!(!t.raw());
    assert!(t.signals());
}

#[test]
fn clearing_icanon_is_what_raw_means() {
    let mut t = Termios::cooked();
    t.lflag &= !ICANON;
    assert!(t.raw());
}

#[test]
fn a_round_trip_through_the_guest_layout_keeps_every_field() {
    let mut t = Termios::cooked();
    t.lflag &= !(ICANON | ECHO | ISIG);
    t.cc[VMIN] = 7;
    let back = Termios::decode(&t.encode()).unwrap();
    assert_eq!(back.iflag, t.iflag);
    assert_eq!(back.oflag, t.oflag);
    assert_eq!(back.cflag, t.cflag);
    assert_eq!(back.lflag, t.lflag);
    assert_eq!(back.cc[VMIN], 7);
    assert!(back.raw());
    assert!(!back.signals());
}

#[test]
fn a_short_buffer_is_refused_rather_than_read_past() {
    assert!(Termios::decode(&[0u8; TERMIOS_BYTES - 1]).is_none());
    assert!(Termios::decode(&[]).is_none());
}

#[test]
fn the_layout_is_the_one_the_kernel_abi_specifies() {
    assert_eq!(TERMIOS_BYTES, 36);
    assert_eq!(Termios::cooked().encode().len(), 36);
}

// ---- the slab ----

#[test]
fn reuses_freed_slots_and_respects_cap() {
    let mut s: Slab<u8> = Slab::new();
    let a = s.insert(1, 2).unwrap();
    let b = s.insert(2, 2).unwrap();
    assert!(s.insert(3, 2).is_none(), "cap must be enforced");
    assert_eq!(s.len(), 2);
    assert_eq!(s.remove(a), Some(1));
    assert_eq!(s.remove(a), None, "double remove must not free twice");
    assert_eq!(s.len(), 1);
    let c = s.insert(3, 2).unwrap();
    assert_eq!(c, a, "the freed slot is reused");
    assert_eq!(s.get(b), Some(&2));
    assert_eq!(s.get(99), None);
}
