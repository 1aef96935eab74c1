//! The library's own parts, one by one, on concrete values.
use std::collections::hash_map::DefaultHasher;
use std::hash::{Hash, Hasher};

use wasmux::cli::{exit_code, listing, next_move, Move, Options};
use wasmux::corpus::{case, failing, judge, no_run, no_sandbox, Report};
use wasmux::engine::interp::{max_depth, Interp};
use wasmux::engine::{Exports, TrapKind};
use wasmux::errno::IoKind;
use wasmux::kernel::fd::{Fd, FdTable};
use wasmux::kernel::mem::{cstr_array, put, put_u32, read_u32};
use wasmux::kernel::path::{join, normalize};
use wasmux::kernel::run::{Idle, Kernel, Slice};
use wasmux::kernel::mounts::Overlay;
use wasmux::kernel::state::{OutputBuffer, ProgramEntry};
use wasmux::kernel::task::{bit, triage, ProcRecord, SigAction, Task};
use wasmux::sandbox::Layout;
use wasmux::syscall::stat::hashed_ino;
use wasmux::vfs::either::Either;
use wasmux::vfs::host::{open_options, resolve, stat_of, HostMeta};
use wasmux::vfs::memory::MemFile;
use wasmux::vfs::simple::{Simple, Storage};
use wasmux::vfs::{FileAnswer, FileCall, VfsAnswer, VfsCall};
use wasmux::{
    commands, Budget, Builder, DirEntry, EmptyVfs, Errno, Error, Exit, FileType, HostCommand, Invocation,
    Limits, LoadError, MemVfs, OpenOptions, Output, ProgramInfo, Progress, Sandbox, SeekFrom,
    Session, Stat, Vfs, VfsFile, VfsResult, Wait, ABI_VERSION,
};

struct Nothing;

impl HostCommand for Nothing {
    fn run(&mut self, _: &Invocation) -> VfsResult<Exit> {
        Ok(Exit::default())
    }
    fn reads_stdin(&self, _: &Vec<Vec<u8>>) -> bool {
        false
    }
}

type Build = Builder<MemVfs, Nothing>;

fn info(name: &str, path: &str) -> ProgramInfo {
    ProgramInfo { name: name.to_string(), path: path.to_string() }
}

fn layout(image: &str, commands: &[(&str, &str)]) -> Layout {
    Layout {
        image: image.to_string(),
        commands: commands.iter().map(|(n, p)| info(n, p)).collect(),
    }
}

fn strings(list: &[&str]) -> Vec<String> {
    list.iter().map(|s| s.to_string()).collect()
}

// ---- building a sandbox ----

#[test]
fn a_mount_point_must_be_normal() {
    for bad in ["work", "/work/", "/a/../b", "//a", ""] {
        let b: Build = Builder::new().mount("/", MemVfs::new()).mount(bad, MemVfs::new());
        match b.build(&vec![layout("sh", &[("sh", "/bin/sh")])]) {
            Err(Error::BadMountPoint(at)) => assert_eq!(at, bad),
            _ => panic!("{bad} is no mount point"),
        }
    }
    // The words quote what was given, escapes and all.
    let e = Error::BadMountPoint("wo\"rk\n".to_string());
    assert_eq!(e.message(), "mount point \"wo\\\"rk\\n\" must be an absolute path");
}

#[test]
fn a_sandbox_needs_mounts_and_programs() {
    let b: Build = Builder::new();
    let e = b.build(&vec![layout("sh", &[("sh", "/bin/sh")])]).err().unwrap();
    assert_eq!(e.message(), "nothing is mounted");
    let b: Build = Builder::default().mount("/", MemVfs::new());
    let e = b.build(&vec![]).err().unwrap();
    assert!(matches!(e, Error::NoPrograms));
    assert!(e.message().starts_with("no programs are available: "));
    // One host command is enough.
    let b: Build = Builder::new().mount("/", MemVfs::new()).command("tool", Nothing);
    let s = b.build(&vec![]).ok().unwrap();
    assert_eq!(s.programs(), vec![info("tool", "/usr/bin/tool")]);
}

#[test]
fn later_registrations_replace_earlier_ones() {
    let layouts = vec![
        layout("a", &[("sh", "/bin/sh"), ("cat", "/bin/cat")]),
        layout("b", &[("cat", "/opt/cat"), ("ed", "/bin/ed")]),
    ];
    // What could run: the first path of a name.
    assert_eq!(
        commands(&layouts),
        vec![info("cat", "/bin/cat"), info("ed", "/bin/ed"), info("sh", "/bin/sh")]
    );
    // What does run: the last one registered.
    let b: Build = Builder::new()
        .mount("/", MemVfs::new())
        .command_at("sh", "/usr/bin/sh", Nothing);
    let s = b.build(&layouts).ok().unwrap();
    assert_eq!(
        s.programs(),
        vec![info("cat", "/opt/cat"), info("ed", "/bin/ed"), info("sh", "/usr/bin/sh")]
    );
    assert!(s.has_program("ed") && !s.has_program("vi"));
    assert_eq!(s.find_program("sh"), Some((2, "/usr/bin/sh".to_string())));
    assert_eq!(s.find_program("/opt/cat"), Some((1, "/opt/cat".to_string())));
    assert_eq!(s.find_program("/bin/cat"), None);
    assert_eq!(s.limits().processes, 64);
}

#[test]
fn a_variable_is_set_once() {
    let b: Build = Builder::new()
        .mount("/", MemVfs::new())
        .env("HOME", "/root")
        .env("HOME", "/home")
        .command("tool", Nothing);
    let s = b.build(&vec![]).ok().unwrap();
    let env: Vec<(String, String)> =
        s.env.iter().map(|e| (e.key.clone(), e.value.clone())).collect();
    let expected = [
        ("PATH", "/bin:/usr/bin:/sbin:/usr/sbin"),
        ("TERM", "dumb"),
        ("PS1", "$ "),
        ("HOME", "/home"),
    ];
    let expected: Vec<(String, String)> =
        expected.iter().map(|(k, v)| (k.to_string(), v.to_string())).collect();
    assert_eq!(env, expected);
}

// ---- the command line ----

fn parsed(args: &[&str]) -> Options {
    Options::parse(&strings(args)).unwrap()
}

#[test]
fn arguments_are_understood() {
    let o = parsed(&[
        "-d", "/srv", "--ro", "/usr", "-e", "A=b=c", "--env", "D=", "--memory", "64", "--timeout",
        "+5", "--stream", "--stats", "--programs", "ls", "-d", "--help",
    ]);
    assert_eq!(o.dir.as_deref(), Some("/srv"));
    assert_eq!(o.readonly.as_deref(), Some("/usr"));
    assert_eq!((o.env[0].key.as_str(), o.env[0].value.as_str()), ("A", "b=c"));
    assert_eq!((o.env[1].key.as_str(), o.env[1].value.as_str()), ("D", ""));
    assert_eq!((o.memory_mib, o.timeout), (64, 5));
    assert!(o.stream && o.stats && o.list && !o.help);
    assert_eq!(o.command, strings(&["ls", "-d", "--help"]));
    let limits = o.limits();
    assert_eq!(limits.memory, 64 << 20);
    assert_eq!(limits.memory_per_process, 16 << 20);
    assert_eq!(limits.wall_clock, Some(5_000_000_000));
    assert_eq!(limits.open_files, 256);

    let o = parsed(&["-c", "echo hi"]);
    assert_eq!(o.script.as_deref(), Some("echo hi"));
    assert!(o.command.is_empty());
    // Asking for help is enough, whatever follows.
    assert!(parsed(&["--help", "--dir"]).help);
    assert_eq!(parsed(&["--memory", "18446744073709551615"]).limits().memory, u64::MAX);
}

#[test]
fn wrong_arguments_are_named() {
    let wrong = [
        (vec!["-d"], "--dir needs a path"),
        (vec!["--ro"], "--ro needs a path"),
        (vec!["-c"], "-c needs a script"),
        (vec!["-e"], "--env needs KEY=VALUE"),
        (vec!["--env", "novalue"], "--env needs KEY=VALUE"),
        (vec!["--memory"], "--memory needs a number"),
        (vec!["--memory", "-1"], "--memory needs a number"),
        (vec!["--memory", "18446744073709551616"], "--memory needs a number"),
        (vec!["--timeout", "soon"], "--timeout needs a number"),
        (vec!["--timeout", "+"], "--timeout needs a number"),
    ];
    for (args, words) in wrong {
        assert_eq!(Options::parse(&strings(&args)).err().as_deref(), Some(words));
    }
}

#[test]
fn the_command_line_picks_a_command() {
    let b: Build = Builder::new().mount("/", MemVfs::new()).command("tool", Nothing);
    let s = b.build(&vec![]).ok().unwrap();
    let c = parsed(&["-c", "x y"]).command(&s);
    assert_eq!((c.program.as_str(), c.args.clone()), ("sh", strings(&["-c", "x y"])));
    let c = parsed(&["tool", "a", "b"]).command(&s);
    assert_eq!((c.program.as_str(), c.args.clone()), ("tool", strings(&["a", "b"])));
    let c = parsed(&[]).command(&s);
    assert_eq!((c.program.as_str(), c.args.clone()), ("sh", vec![]));
    assert_eq!(listing(&vec![info("jq", "/bin/jq")]), "jq           /bin/jq\n");
    assert_eq!(
        listing(&vec![info("a-rather-long-name", "/x"), info("b", "/y")]),
        "a-rather-long-name /x\nb            /y\n"
    );
}

#[test]
fn reports_are_acted_on() {
    assert!(matches!(next_move(Progress::Yielded), Move::Again));
    assert!(matches!(next_move(Progress::Waiting(Wait::Stdin)), Move::ReadInput));
    assert!(matches!(next_move(Progress::Waiting(Wait::Until(7))), Move::Sleep(7)));
    let long = Progress::Waiting(Wait::Until(3_600_000_000_000));
    assert!(matches!(next_move(long), Move::Sleep(50_000_000)));
    assert!(matches!(next_move(Progress::Waiting(Wait::Vfs)), Move::Refuse));
    assert!(matches!(next_move(Progress::Waiting(Wait::Host)), Move::Refuse));
}

// ---- how a session ends ----

fn session() -> Session<MemFile> {
    let kernel = Kernel::new(Overlay::new(), Vec::<ProgramEntry>::new(), Limits::default());
    Session { kernel, finished: None }
}

fn finished(status: i32, stdout: &[u8], stderr: &[u8]) -> Output {
    let mut s = session();
    s.kernel.shared.write_output(1, stdout);
    s.kernel.shared.write_output(2, stderr);
    match s.step(Slice::Finished(status), 0).unwrap() {
        Progress::Done(out) => out,
        other => panic!("{other:?}"),
    }
}

#[test]
fn a_status_is_read_as_a_shell_reads_it() {
    for code in 0..=255 {
        let out = finished(code << 8, b"", b"");
        assert_eq!(out.status.code(), Some(code));
        assert_eq!(out.status.signal(), None);
        assert_eq!(out.status.shell_code(), code);
        assert_eq!(i32::from(exit_code(out.status)), code);
        assert_eq!(out.status.success(), code == 0);
    }
    let out = finished(15, b"", b"");
    assert_eq!(out.status.code(), None);
    assert_eq!(out.status.signal(), Some(15));
    assert_eq!(exit_code(out.status), 143);
}

#[test]
fn bytes_that_are_no_text_are_replaced() {
    let out = finished(0, b"ok \xff\xfe!", "\u{e9}\n".as_bytes());
    assert_eq!(out.stdout_string(), "ok \u{fffd}\u{fffd}!");
    assert_eq!(out.stderr_string(), "\u{e9}\n");
    assert!(!out.truncated());
}

#[test]
fn output_is_kept_up_to_a_limit_and_streamed_once() {
    let mut o = OutputBuffer::new();
    o.push(b"hello ", 8);
    assert_eq!(o.drain_new(), b"hello ");
    o.push(b"world", 8);
    assert_eq!(o.drain_new(), b"wo");
    assert_eq!(o.drain_new(), b"");
    assert_eq!((o.data.as_slice(), o.dropped), (b"hello wo".as_slice(), 3));
    o.push(b"!", 8);
    assert_eq!(o.dropped, 4);
}

#[test]
fn slices_become_progress() {
    let mut s = session();
    assert!(matches!(s.step(Slice::Budget, 0), Ok(Progress::Yielded)));
    assert!(matches!(s.step(Slice::Idle(Idle::Vfs), 0), Ok(Progress::Waiting(Wait::Vfs))));
    assert!(matches!(s.step(Slice::Idle(Idle::Host), 0), Ok(Progress::Waiting(Wait::Host))));
    assert!(matches!(s.step(Slice::Idle(Idle::Stdin), 0), Ok(Progress::Waiting(Wait::Stdin))));
    let until = Slice::Idle(Idle::Until(30));
    assert!(matches!(s.step(until, 10), Ok(Progress::Waiting(Wait::Until(20)))));
    assert!(matches!(s.step(until, 40), Ok(Progress::Waiting(Wait::Until(0)))));
    assert!(matches!(s.step(Slice::Idle(Idle::Deadlock), 0), Err(Error::Deadlock)));
    assert!(!s.terminal_raw() && !s.terminal_signals());
    assert_eq!((s.process_count(), s.syscall_count()), (0, 0));
}

// ---- the corpus ----

#[test]
fn cases_are_judged() {
    let good = case("greeting", "echo hi", "hi");
    assert!(judge(&good, &finished(0, b"hi \n\n", b"")).is_none());
    let text = judge(&good, &finished(256, b"ho\n", b"oops\n")).unwrap();
    assert_eq!(
        text,
        "greeting\n    script:   echo hi\n    expected: \"hi\" (status 0)\n    actual:   \"ho\" (status 1)\n    stderr:   oops"
    );
    let bad = failing("exit", "exit 7", "", 7);
    assert!(judge(&bad, &finished(7 << 8, b"", b"")).is_none());
    assert!(judge(&bad, &finished(0, b"", b"")).is_some());
    assert_eq!(no_sandbox(&bad, &Error::NoMounts), "exit\n    sandbox: nothing is mounted");
    assert_eq!(
        no_run(&bad, &Error::NoSuchProgram("sh".to_string())),
        "exit\n    script: exit 7\n    error:  no such program: sh"
    );
    let mut report = Report::new();
    report.record(None);
    assert!(report.is_clean());
    report.record(Some("one".to_string()));
    assert_eq!((report.passed, report.total(), report.is_clean()), (1, 2, false));
}

#[test]
fn the_corpus_sandbox_holds_what_the_cases_expect() {
    let s: Result<Sandbox<MemVfs, Nothing>, Error> =
        wasmux::corpus::sandbox(&vec![layout("sh", &[("sh", "/bin/sh")])]);
    let mut s = s.ok().unwrap();
    let ats: Vec<&str> = (0..s.mounts.len()).map(|i| s.mounts.mount_point(i)).collect();
    assert_eq!(ats, vec!["/", "/tmp", "/data", "/etc", "/ro"]);
    assert!(s.mounts.is_read_only(4) && !s.mounts.is_read_only(2));
    let mut f = s.mounts.open(2, "/sub/obj.json", &OpenOptions::read()).unwrap();
    let data = s.mounts.file_read(2, &mut f, 100).unwrap();
    assert_eq!(data, br#"{"name":"wasmux","n":1}"#);
}

// ---- the engine ----

#[test]
fn only_modules_are_loaded() {
    let interp = Interp::new(max_depth(None));
    assert!(matches!(interp.load(b"#!/bin/sh\n"), Err(LoadError::NotWasm)));
    assert!(matches!(interp.load(b"\0as"), Err(LoadError::NotWasm)));
    // The text format, which the engine itself would take.
    assert!(matches!(interp.load(b"(module)"), Err(LoadError::NotWasm)));
    assert!(interp.load(b"\0asm\x01\0\0\0").is_ok());
    match interp.load(b"\0asm\x02\0\0\0") {
        Err(LoadError::Engine(words)) => assert!(words.contains("version"), "{words}"),
        _ => panic!("there is no version two"),
    }
}

#[test]
fn a_depth_can_be_set() {
    assert_eq!(max_depth(None), 2048);
    assert_eq!(max_depth(Some("100")), 100);
    assert_eq!(max_depth(Some("deep")), 2048);
    assert_eq!(max_depth(Some("")), 2048);
}

#[test]
fn traps_are_told_apart_by_their_words() {
    assert_eq!(TrapKind::classify("out of bounds memory access"), TrapKind::OutOfBounds);
    assert_eq!(TrapKind::classify("wasm: call stack exhausted"), TrapKind::Exhaustion);
    assert_eq!(TrapKind::classify("stack overflow"), TrapKind::Exhaustion);
    assert_eq!(TrapKind::classify("unreachable"), TrapKind::Fault);
    assert_eq!(TrapKind::trap_kind(0, 2), None);
    assert_eq!(TrapKind::trap_kind(7, 0), None);
    assert_eq!(TrapKind::trap_kind(1, 1), Some(TrapKind::OutOfBounds));
    assert_eq!(TrapKind::trap_kind(7, 2), Some(TrapKind::Exhaustion));
    assert_eq!(TrapKind::trap_kind(3, 9), Some(TrapKind::Fault));
    assert_eq!(TrapKind::Fault.as_str(), "illegal instruction");
}

#[test]
fn load_errors_have_words_and_numbers() {
    let all = Exports {
        memory: true,
        start: true,
        start_unwind: true,
        stop_unwind: true,
        start_rewind: true,
        stop_rewind: true,
    };
    assert!(all.check().is_ok());
    let lacking = Exports { stop_unwind: false, stop_rewind: false, ..all };
    let e = lacking.check().unwrap_err();
    assert_eq!(e.message(), "module does not export asyncify_stop_unwind");
    assert_eq!(e.errno(), Errno::NOEXEC);
    let e = LoadError::NotFound("jq".to_string());
    assert_eq!((e.message(), e.errno()), ("no such program: jq".to_string(), Errno::NOENT));
    let e = LoadError::AbiMismatch { found: 2, expected: ABI_VERSION };
    assert_eq!(e.message(), "guest ABI 2 is not the 1 this build speaks");
    assert_eq!(LoadError::OutOfMemory.errno(), Errno::NOMEM);
    assert_eq!(Error::from(LoadError::NotWasm).message(), "not a wasm module");
}

// ---- errors ----

#[test]
fn errnos_have_numbers_and_names() {
    assert_eq!((Errno::NOENT.number(), Errno::NOENT.name()), (2, "ENOENT"));
    assert_eq!(Errno::NOSYS.as_neg(), -38);
    assert_eq!(Errno::from_number(17), Errno::EXIST);
    assert_eq!(Errno::from_number(4095).number(), 4095);
    assert_eq!(Errno::from_io(IoKind::NotFound, Some(5)), Errno::NOENT);
    assert_eq!(Errno::from_io(IoKind::WouldBlock, None), Errno::AGAIN);
    assert_eq!(Errno::from_io(IoKind::Other, Some(13)), Errno::ACCES);
    assert_eq!(Errno::from_io(IoKind::Other, Some(-3)), Errno::IO);
    assert_eq!(Errno::from_io(IoKind::Other, None), Errno::IO);
}

// ---- paths ----

#[test]
fn paths_are_normalized() {
    let full = |base: &str, path: &str| join(&normalize(base, path));
    assert_eq!(full("/", "a/./b//c/"), "/a/b/c");
    assert_eq!(full("/x/y", "../z"), "/x/z");
    assert_eq!(full("/x/y", "/z"), "/z");
    assert_eq!(full("/", "../../.."), "/");
    assert_eq!(full("/", ""), "/");
    // A normal path is left as it is.
    assert_eq!(full("/elsewhere", "/a/b/c"), "/a/b/c");
}

#[test]
fn host_paths_are_plain_names() {
    assert_eq!(resolve("/a//b/c"), Ok(strings(&["a", "b", "c"])));
    assert_eq!(resolve("/"), Ok(vec![]));
    assert_eq!(resolve("/a/../b"), Err(Errno::INVAL));
    assert_eq!(resolve("/./a"), Err(Errno::INVAL));
    assert_eq!(resolve("/a\0b"), Err(Errno::INVAL));
    let meta = HostMeta {
        is_dir: false,
        is_symlink: true,
        len: 7,
        mode: 0o120777,
        ino: 42,
        mtime: Some((9, 5)),
    };
    let st = stat_of(&meta);
    assert_eq!((st.file_type, st.size, st.mode), (FileType::Symlink, 7, 0o777));
    assert_eq!((st.ino, st.mtime, st.nlink), (42, (9, 5), 1));
    let o = OpenOptions { truncate: true, create: true, create_new: true, ..OpenOptions::new() };
    let o = open_options(&o);
    assert!(!o.truncate && !o.create && o.create_new);
    assert_eq!(open_options(&OpenOptions::write()), OpenOptions::write());
}

#[test]
fn an_inode_number_is_a_hash_of_the_path() {
    let mut hasher = DefaultHasher::new();
    "/bin/sh".hash(&mut hasher);
    assert_eq!(hashed_ino("/bin/sh"), (hasher.finish() >> 1) | 1);
    assert_ne!(hashed_ino("/bin/sh"), hashed_ino("/bin/ed"));
}

// ---- the filesystem in memory ----

#[test]
fn what_was_written_is_read() {
    let mut m = MemVfs::new().with_file("/a/b.txt", b"one".to_vec());
    assert_eq!(m.read_file("/a/b.txt"), Ok(b"one".to_vec()));
    assert_eq!(m.write_file("/a/b.txt", b"two".to_vec()), Ok(()));
    assert_eq!(m.write_file("//c//d.txt", b"three".to_vec()), Ok(()));
    assert_eq!(m.read_file("/a/b.txt"), Ok(b"two".to_vec()));
    assert_eq!(m.read_file("/c/d.txt"), Ok(b"three".to_vec()));
    assert_eq!(m.read_file("/a"), Err(Errno::ISDIR));
    assert_eq!(m.read_file("/nowhere"), Err(Errno::NOENT));
    assert_eq!(m.write_file("/a", vec![]), Err(Errno::ISDIR));
    assert_eq!(m.write_file("/a/b.txt/x", vec![]), Err(Errno::NOTDIR));
    assert_eq!(
        m.snapshot(),
        vec![
            ("/a/b.txt".to_string(), b"two".to_vec()),
            ("/c/d.txt".to_string(), b"three".to_vec()),
        ]
    );
}

#[test]
fn files_move_and_go() {
    let mut m = MemVfs::new().with_file("/d/f", b"x".to_vec()).with_dir("/e");
    assert_eq!(m.rename("/d", "/e/d2"), Ok(()));
    assert_eq!(m.read_file("/e/d2/f"), Ok(b"x".to_vec()));
    assert_eq!(m.read_file("/d/f"), Err(Errno::NOENT));
    assert_eq!(m.rename("/e", "/e/inside"), Err(Errno::NOENT));
    assert_eq!(m.rename("/none", "/x"), Err(Errno::NOENT));
    assert_eq!(m.rmdir("/e/d2"), Err(Errno::NOTEMPTY));
    assert_eq!(m.unlink("/e/d2"), Err(Errno::ISDIR));
    assert_eq!(m.unlink("/e/d2/f"), Ok(()));
    assert_eq!(m.unlink("/e/d2/f"), Err(Errno::NOENT));
    assert_eq!(m.rmdir("/e/d2"), Ok(()));
    assert_eq!(m.mkdir("/e", 0o755), Err(Errno::EXIST));
    assert_eq!(m.mkdir("/q/r", 0o755), Err(Errno::NOENT));
    assert_eq!(m.mkdir_all("/q/r/s"), Ok(()));
    assert_eq!(m.stat("/q/r/s", true).map(|s| s.file_type), Ok(FileType::Dir));
    // What is in the way stays, and is reported.
    assert_eq!(m.write_file("/q/file", b"y".to_vec()), Ok(()));
    assert_eq!(m.mkdir_all("/q/file"), Err(Errno::EXIST));
    assert_eq!(m.mkdir_all("/q/file/below"), Err(Errno::NOTDIR));
    assert_eq!(m.read_file("/q/file"), Ok(b"y".to_vec()));
    assert_eq!(m.symlink("q", "/link"), Ok(()));
    assert_eq!(m.mkdir_all("/link"), Err(Errno::EXIST));
    assert_eq!(m.mkdir_all("/"), Ok(()));
}

#[test]
fn as_many_arguments_as_allowed_are_read() {
    // The pointers lie at 16, and all of them name one string.
    let mut m = vec![0u8; 16 + 4 * 4100];
    m[4..6].copy_from_slice(b"x\xff");
    for i in 0..4096usize {
        m[16 + 4 * i] = 4;
    }
    let read = cstr_array(&m, 16).unwrap();
    assert_eq!(read.len(), 4096);
    assert!(read.iter().all(|t| t == b"x\xff"));
    m[16 + 4 * 4096] = 4;
    assert_eq!(cstr_array(&m, 16), Err(Errno::TOOBIG));
}

#[test]
fn links_say_where_they_point() {
    let mut m = MemVfs::new().with_file("/t", b"12345".to_vec());
    assert_eq!(m.symlink("t", "/l"), Ok(()));
    assert_eq!(m.symlink("t", "/l"), Err(Errno::EXIST));
    assert_eq!(m.readlink("/l").as_deref(), Ok("t"));
    assert_eq!(m.readlink("/t"), Err(Errno::INVAL));
    assert_eq!(m.stat("/l", false).map(|s| (s.file_type, s.size)), Ok((FileType::Symlink, 1)));
    assert_eq!(m.stat("/l", true).map(|s| (s.file_type, s.size)), Ok((FileType::File, 5)));
    assert_eq!(m.snapshot()[0], ("/l".to_string(), b"t".to_vec()));
    assert!(m.has_symlinks());
}

#[test]
fn an_open_file_has_a_position() {
    let mut m = MemVfs::new();
    let opts = OpenOptions { read: true, ..OpenOptions::write() };
    let mut f = m.open("/f", &opts).unwrap();
    assert_eq!(m.write(&mut f, b"hello"), Ok(5));
    assert_eq!(m.seek(&mut f, SeekFrom::Start(1)), Ok(1));
    assert_eq!(m.write(&mut f, b"EL"), Ok(2));
    assert_eq!(m.read(&mut f, 10), Ok(b"lo".to_vec()));
    assert_eq!(m.seek(&mut f, SeekFrom::End(2)), Ok(7));
    assert_eq!(m.write(&mut f, b"!"), Ok(1));
    assert_eq!(m.read_file("/f"), Ok(b"hELlo\0\0!".to_vec()));
    assert_eq!(m.seek(&mut f, SeekFrom::Current(-100)), Err(Errno::INVAL));
    assert_eq!(m.set_len(&mut f, 2), Ok(()));
    assert_eq!(m.stat_file(&mut f).map(|s| s.size), Ok(2));
    assert_eq!(m.close(&mut f), Ok(()));
    assert_eq!(m.truncate("/f", 4), Ok(()));
    assert_eq!(m.read_file("/f"), Ok(b"hE\0\0".to_vec()));
    let mut g = m.open("/f", &OpenOptions::read()).unwrap();
    assert_eq!(m.write(&mut g, b"x"), Err(Errno::BADF));
    let appending = OpenOptions { write: true, append: true, ..OpenOptions::new() };
    let mut a = m.open("/f", &appending).unwrap();
    assert_eq!(m.seek(&mut a, SeekFrom::Start(0)), Ok(0));
    assert_eq!(m.write(&mut a, b"z"), Ok(1));
    assert_eq!(m.read_file("/f"), Ok(b"hE\0\0z".to_vec()));
    let new = OpenOptions { create_new: true, ..OpenOptions::write() };
    assert_eq!(m.open("/f", &new).err(), Some(Errno::EXIST));
    assert_eq!(m.open("/g", &OpenOptions::read()).err(), Some(Errno::NOENT));
}

#[test]
fn listings_are_sorted() {
    let mut m = MemVfs::new()
        .with_file("/z", vec![])
        .with_file("/a/deep", vec![])
        .with_file("/M", vec![]);
    let names: Vec<String> = m.readdir("/").unwrap().into_iter().map(|e| e.name).collect();
    assert_eq!(names, strings(&["M", "a", "z"]));
    assert_eq!(m.readdir("/z").err(), Some(Errno::NOTDIR));
}

#[test]
fn an_empty_filesystem_has_only_its_root() {
    let mut e = EmptyVfs;
    assert_eq!(e.stat("/", true).map(|s| s.file_type), Ok(FileType::Dir));
    assert_eq!(e.stat("/x", true).map(|s| s.file_type), Err(Errno::NOENT));
    assert!(e.readdir("/").unwrap().is_empty());
    assert_eq!(e.open("/x", &OpenOptions::read()).err(), Some(Errno::NOENT));
    assert_eq!(e.mkdir("/x", 0), Err(Errno::ROFS));
    assert_eq!(e.symlink("a", "/b"), Err(Errno::PERM));
    assert_eq!(Stat::symlink(3).size, 3);
}

/// Three methods and a file: the rest is what a read-only filesystem answers.
struct Motd;

impl Storage for Motd {
    type Handle = u64;
    type State = ();

    // Ghost functions: nothing calls them.
    fn wf(&self) -> bool {
        true
    }
    fn state(&self) {}
    fn answer(_: (), _: VfsCall) -> ((), VfsAnswer<u64>) {
        unreachable!()
    }
    fn file_answer(_: (), _: u64, _: FileCall) -> ((), u64, FileAnswer) {
        unreachable!()
    }

    fn open(&mut self, path: &str, _: &OpenOptions) -> VfsResult<u64> {
        if path == "/motd" { Ok(0) } else { Err(Errno::NOENT) }
    }
    fn stat(&mut self, path: &str, _: bool) -> VfsResult<Stat> {
        match path {
            "/" => Ok(Stat::dir()),
            "/motd" => Ok(Stat::file(5)),
            _ => Err(Errno::NOENT),
        }
    }
    fn readdir(&mut self, _: &str) -> VfsResult<Vec<DirEntry>> {
        Ok(vec![DirEntry::new("motd".to_string(), FileType::File)])
    }
    fn read(&mut self, file: &mut u64, len: usize) -> VfsResult<Vec<u8>> {
        let rest = &b"hello"[(*file).min(5) as usize..];
        let data = rest[..len.min(rest.len())].to_vec();
        *file += data.len() as u64;
        Ok(data)
    }
    fn write(&mut self, _: &mut u64, _: &[u8]) -> VfsResult<usize> {
        Err(Errno::ROFS)
    }
    fn seek(&mut self, file: &mut u64, _: SeekFrom) -> VfsResult<u64> {
        Ok(*file)
    }
    fn stat_file(&mut self, _: &mut u64) -> VfsResult<Stat> {
        Ok(Stat::file(5))
    }
}

#[test]
fn three_methods_make_a_filesystem() {
    let mut v = Simple { storage: Motd };
    let mut f = v.open("/motd", &OpenOptions::read()).unwrap();
    assert_eq!(v.read(&mut f, 3), Ok(b"hel".to_vec()));
    assert_eq!(v.read(&mut f, 3), Ok(b"lo".to_vec()));
    assert_eq!(v.set_len(&mut f, 0), Err(Errno::ROFS));
    assert_eq!(v.close(&mut f), Ok(()));
    assert_eq!(v.readdir("/").unwrap()[0].name, "motd");
    assert_eq!(v.mkdir("/d", 0), Err(Errno::ROFS));
    assert_eq!(v.unlink("/motd"), Err(Errno::ROFS));
    assert_eq!(v.rmdir("/d"), Err(Errno::ROFS));
    assert_eq!(v.rename("/motd", "/m"), Err(Errno::ROFS));
    assert_eq!(v.symlink("motd", "/m"), Err(Errno::PERM));
    assert_eq!(v.readlink("/motd"), Err(Errno::INVAL));
    assert_eq!(v.truncate("/motd", 0), Err(Errno::ROFS));
    assert_eq!(v.truncate("/nothing", 0), Err(Errno::NOENT));
    assert_eq!(v.set_mode("/motd", 0o600), Ok(()));
    assert!(!v.has_symlinks());
}

// ---- guest memory, descriptors, signals ----

#[test]
fn a_store_is_all_or_nothing() {
    let mut m = vec![9u8; 8];
    assert_eq!(put(&mut m, 6, b"abc"), Err(Errno::FAULT));
    assert_eq!(m, vec![9u8; 8]);
    assert_eq!(put_u32(&mut m, 2, 0x0403_0201), Ok(()));
    assert_eq!(m, vec![9, 9, 1, 2, 3, 4, 9, 9]);
    assert_eq!(read_u32(&m, 2), Ok(0x0403_0201));
}

#[test]
fn exec_closes_what_is_marked() {
    let mut t = FdTable::new();
    t.allocate(Fd { desc: 1, cloexec: true }, 0, 9).unwrap();
    t.allocate(Fd { desc: 2, cloexec: false }, 0, 9).unwrap();
    t.set_cloexec(1, true).unwrap();
    t.set_cloexec(0, false).unwrap();
    assert_eq!(t.drain_cloexec(), vec![2]);
    assert_eq!(t.get(0).map(|f| f.desc), Ok(1));
    assert_eq!(t.get(1).err(), Some(Errno::BADF));
}

#[test]
fn a_raised_signal_waits_until_it_is_unblocked() {
    let mut r = ProcRecord::new(2, 1, 1, 1, "x".to_string());
    r.raise(10);
    r.raise(12);
    assert_eq!(r.pending, bit(10) | bit(12));
    let mut t = Task::new(2, FdTable::new());
    t.set_action(12, SigAction { handler: 1, flags: 0, mask: 0 });
    let (live, gone) = triage(r.pending, bit(10), &t);
    assert_eq!((live, gone), (0, bit(12)));
    let (live, _) = triage(r.pending, 0, &t);
    assert_eq!(live, bit(10));
}

#[test]
fn budgets_are_spent() {
    assert!(!Budget::unlimited().spent(u64::MAX, u128::MAX));
    assert!(Budget::syscalls(3).spent(3, 0) && !Budget::syscalls(3).spent(2, 0));
    assert!(Budget::duration(5).spent(0, 5) && !Budget::duration(5).spent(9, 4));
}

#[test]
fn an_invocation_is_text_when_asked() {
    let call = Invocation {
        argv: vec![b"tool".to_vec(), b"caf\xc3\xa9".to_vec(), b"\xff".to_vec()],
        envp: vec![b"A=1".to_vec(), b"AB=2".to_vec(), b"A=3".to_vec()],
        cwd: "/".to_string(),
        stdin: vec![],
    };
    assert_eq!(call.name(), "tool");
    assert_eq!(call.args(), strings(&["tool", "caf\u{e9}", "\u{fffd}"]));
    assert_eq!(call.env("A").as_deref(), Some("1"));
    assert_eq!(call.env("AB").as_deref(), Some("2"));
    assert_eq!(call.env("B"), None);
    let e = Exit::failed(2, b"no".to_vec());
    assert_eq!((e.status, e.stdout.len(), e.stderr), (2, 0, b"no".to_vec()));
    assert_eq!(Exit::from_stdout(b"y".to_vec()).stdout, b"y".to_vec());
}

#[test]
fn one_of_two_filesystems_answers_as_itself() {
    type Two = Either<MemVfs, EmptyVfs>;
    let mut left: Two = Either::Left(MemVfs::new().with_file("/f", b"12345".to_vec()));
    let mut right: Two = Either::Right(EmptyVfs);
    let mut file = left.open("/f", &OpenOptions::read()).ok().unwrap();
    assert_eq!(left.read(&mut file, 3), Ok(b"123".to_vec()));
    assert_eq!(left.seek(&mut file, SeekFrom::Start(4)), Ok(4));
    assert_eq!(left.stat_file(&mut file).map(|s| s.size), Ok(5));
    assert!(left.has_symlinks() && !right.has_symlinks());
    assert_eq!(right.open("/f", &OpenOptions::read()).err(), Some(Errno::NOENT));
    assert_eq!(right.mkdir("/d", 0o755), Err(Errno::ROFS));
    assert_eq!(left.mkdir("/d", 0o755), Ok(()));
    assert_eq!(left.readdir("/").map(|l| l.len()), Ok(2));
    // A file of the other kind is refused.
    assert_eq!(right.read(&mut file, 1), Err(Errno::BADF));
    assert_eq!(left.read(&mut file, 8), Ok(b"5".to_vec()));
    assert_eq!(left.close(&mut file), Ok(()));
    // Mounts of both kinds stand side by side.
    let built: Result<Sandbox<Two, Nothing>, Error> = Builder::new()
        .mount("/", left)
        .mount("/empty", right)
        .build(&vec![Layout { image: "i".to_string(), commands: vec![] }]);
    assert!(built.is_ok());
}

#[test]
fn a_snapshot_holds_every_file_once() {
    let mut m = MemVfs::new()
        .with_file("/b", b"2".to_vec())
        .with_file("/a/c", b"1".to_vec())
        .with_dir("/empty");
    assert_eq!(m.symlink("a/c", "/l"), Ok(()));
    let want = [("/a/c", &b"1"[..]), ("/b", &b"2"[..]), ("/l", &b"a/c"[..])];
    let got = m.snapshot();
    assert_eq!(got.len(), want.len());
    for ((path, data), (p, d)) in got.iter().zip(want) {
        assert_eq!((path.as_str(), data.as_slice()), (p, d));
    }
    assert_eq!(m.read_file("/a/c"), Ok(b"1".to_vec()));
    assert_eq!(LoadError::NotWasm, LoadError::NotWasm);
    assert_ne!(LoadError::OutOfMemory, LoadError::NotFound("x".to_string()));
}
