//! Whole sessions: a small shell and a handful of tools, written as guests of the kernel, run
//! scripts the way a caller would.
//!
//! A guest here is an ordinary function that makes blocking system calls. When a call cannot
//! finish, the function is left, and it is run again from its beginning with the answers it has
//! had so far until it is back where it was.
use std::cell::{Cell, RefCell};
use std::collections::BTreeMap;
use std::rc::Rc;

use wasmux::abi::{
    AT_FDCWD, CLONE_VFORK, CLONE_VM, ECHO, ICANON, O_APPEND, O_CREAT, O_DIRECTORY, O_RDONLY,
    O_TRUNC, O_WRONLY, SIGCHLD, S_IFDIR, S_IFMT, TCGETS, TCSETS, TIOCGWINSZ,
};
use wasmux::engine;
use wasmux::kernel::imports::{init_entry, sigfetch_entry, syscall_entry, syscall_grown, Reply};
use wasmux::kernel::mounts::{Mount, Mounts, Overlay};
use wasmux::kernel::run::{Kernel, Pick, ProcStep, Slice};
use wasmux::kernel::state::{Call, Clock, Ctx, ProgramEntry, ProgramKind, Spawn, ASYNCIFY_PAGES};
use wasmux::kernel::step::{After, Go, HostGo};
use wasmux::nr;
use wasmux::sandbox::Layout;
use wasmux::syscall::table::{dispatch, dispatch_grown, Outcome};
use wasmux::vfs::memory::MemFile;
use wasmux::vfs::{FileAnswer, FileCall, VfsAnswer, VfsCall};
use wasmux::{
    Budget, Builder, Command, DirEntry, Errno, Error, Exit, HostCommand, Invocation, Limits,
    LoadError, MemVfs, OpenOptions, Output, ProgramInfo, Progress, Sandbox, SeekFrom, Session, Stat,
    Vfs, VfsFile, VfsResult, Wait,
};

// ---------------------------------------------------------------------------------------------
// filesystems and host commands

/// The filesystems the tests mount.
enum Disk {
    Mem(MemVfs),
    /// Checks every path a guest asked for, and counts what it opened.
    Watched { inner: MemVfs, reads: Rc<Cell<usize>> },
    /// Fails every call.
    Broken,
    /// Says `AGAIN` to so many calls before it answers one.
    Slow { inner: MemVfs, left: Cell<u32> },
    /// Says `AGAIN` to so many reads before it answers one.
    Late { inner: MemVfs, reads: Cell<u32> },
    /// Says `AGAIN` to one seek, so many after this.
    Stiff { inner: MemVfs, seeks: Cell<u32> },
    /// Answers each `close` with the next error of a list, the last first.
    Grudging { inner: MemVfs, errors: Vec<Errno> },
}

fn check_path(path: &str) {
    assert!(path.starts_with('/'), "a Vfs must be given absolute paths, got {path:?}");
    assert!(!path.contains(".."), "a Vfs must never see .., got {path:?}");
    assert!(!path.contains("//"), "a Vfs must never see an empty component, got {path:?}");
}

impl Disk {
    fn inner(&mut self) -> VfsResult<&mut MemVfs> {
        match self {
            Disk::Mem(m) => Ok(m),
            Disk::Watched { inner, .. } | Disk::Grudging { inner, .. } | Disk::Late { inner, .. } => {
                Ok(inner)
            }
            Disk::Stiff { inner, .. } => Ok(inner),
            Disk::Broken => Err(Errno::IO),
            Disk::Slow { inner, left } => {
                if left.get() > 0 {
                    left.set(left.get() - 1);
                    return Err(Errno::AGAIN);
                }
                Ok(inner)
            }
        }
    }
}

impl VfsFile for Disk {
    type Handle = MemFile;
    type State = ();

    // Ghost functions: nothing calls them.
    fn wf(&self) -> bool {
        true
    }
    fn state(&self) {}
    fn file_answer(_: (), _: MemFile, _: FileCall) -> ((), MemFile, FileAnswer) {
        unreachable!()
    }

    fn read(&mut self, file: &mut MemFile, len: usize) -> VfsResult<Vec<u8>> {
        if let Disk::Late { reads, .. } = self {
            if reads.get() > 0 {
                reads.set(reads.get() - 1);
                return Err(Errno::AGAIN);
            }
        }
        self.inner()?.read(file, len)
    }
    fn write(&mut self, file: &mut MemFile, data: &[u8]) -> VfsResult<usize> {
        self.inner()?.write(file, data)
    }
    fn seek(&mut self, file: &mut MemFile, from: SeekFrom) -> VfsResult<u64> {
        if let Disk::Stiff { seeks, .. } = self {
            seeks.set(seeks.get().wrapping_sub(1));
            if seeks.get() == 0 {
                return Err(Errno::AGAIN);
            }
        }
        self.inner()?.seek(file, from)
    }
    fn stat_file(&mut self, file: &mut MemFile) -> VfsResult<Stat> {
        self.inner()?.stat_file(file)
    }
    fn set_len(&mut self, file: &mut MemFile, len: u64) -> VfsResult<()> {
        self.inner()?.set_len(file, len)
    }
    fn close(&mut self, file: &mut MemFile) -> VfsResult<()> {
        if let Disk::Grudging { errors, .. } = self {
            if let Some(e) = errors.pop() {
                return Err(e);
            }
        }
        self.inner()?.close(file)
    }
}

impl Vfs for Disk {
    fn answer(_: (), _: VfsCall) -> ((), VfsAnswer<MemFile>) {
        unreachable!()
    }
    fn links(_: ()) -> bool {
        unreachable!()
    }

    fn open(&mut self, path: &str, opts: &OpenOptions) -> VfsResult<MemFile> {
        if let Disk::Watched { reads, .. } = self {
            check_path(path);
            reads.set(reads.get() + 1);
        }
        self.inner()?.open(path, opts)
    }
    fn stat(&mut self, path: &str, follow: bool) -> VfsResult<Stat> {
        if let Disk::Watched { .. } = self {
            check_path(path);
        }
        self.inner()?.stat(path, follow)
    }
    fn readdir(&mut self, path: &str) -> VfsResult<Vec<DirEntry>> {
        self.inner()?.readdir(path)
    }
    fn mkdir(&mut self, path: &str, mode: u32) -> VfsResult<()> {
        self.inner()?.mkdir(path, mode)
    }
    fn unlink(&mut self, path: &str) -> VfsResult<()> {
        self.inner()?.unlink(path)
    }
    fn rmdir(&mut self, path: &str) -> VfsResult<()> {
        self.inner()?.rmdir(path)
    }
    fn rename(&mut self, from: &str, to: &str) -> VfsResult<()> {
        self.inner()?.rename(from, to)
    }
    fn symlink(&mut self, target: &str, link: &str) -> VfsResult<()> {
        self.inner()?.symlink(target, link)
    }
    fn readlink(&mut self, path: &str) -> VfsResult<String> {
        self.inner()?.readlink(path)
    }
    fn truncate(&mut self, path: &str, len: u64) -> VfsResult<()> {
        self.inner()?.truncate(path, len)
    }
    fn has_symlinks(&self) -> bool {
        matches!(self, Disk::Mem(_))
    }
    fn set_mode(&mut self, path: &str, mode: u32) -> VfsResult<()> {
        self.inner()?.set_mode(path, mode)
    }
}

fn mem() -> Disk {
    Disk::Mem(MemVfs::new())
}

/// A host command made of a closure.
struct Cmd {
    stdin: bool,
    run: Box<dyn FnMut(&Invocation) -> VfsResult<Exit>>,
}

impl HostCommand for Cmd {
    fn run(&mut self, call: &Invocation) -> VfsResult<Exit> {
        (self.run)(call)
    }
    fn reads_stdin(&self, _: &Vec<Vec<u8>>) -> bool {
        self.stdin
    }
}

fn cmd(f: impl FnMut(&Invocation) -> VfsResult<Exit> + 'static) -> Cmd {
    Cmd { stdin: false, run: Box::new(f) }
}

fn filter(f: impl FnMut(&Invocation) -> VfsResult<Exit> + 'static) -> Cmd {
    Cmd { stdin: true, run: Box::new(f) }
}

type Sand = Sandbox<Disk, Cmd>;
type Build = Builder<Disk, Cmd>;

// ---------------------------------------------------------------------------------------------
// the engine

/// One guest's memory and the answers it has had.
struct Instance {
    mem: Vec<u8>,
    log: Vec<(i32, Vec<u8>)>,
}

/// The guest is left: it waits, it is over, or it is replaced.
struct Stop;

type Run<T> = Result<T, Stop>;

const PAGE: usize = 65536;
const FLAG: u32 = 512;
const ARGS: u32 = 1024;
const OUT: u32 = 2048;
const PATH: u32 = 4096;
const PATH2: u32 = 8192;
const BUF: u32 = 16384;
const STRINGS: u32 = 90_000;

/// What a guest sees of the kernel.
struct Os<'a> {
    kernel: &'a mut Kernel<MemFile>,
    fs: &'a mut Mounts<Disk>,
    clock: &'a Clock,
    index: usize,
    mem: &'a mut Vec<u8>,
    log: &'a mut Vec<(i32, Vec<u8>)>,
    at: usize,
}

impl Os<'_> {
    fn poke(&mut self, at: u32, bytes: &[u8]) {
        self.mem[at as usize..at as usize + bytes.len()].copy_from_slice(bytes);
    }

    fn replaying(&self) -> bool {
        self.at < self.log.len()
    }

    fn call(
        &mut self,
        number: i32,
        args: [i32; 6],
        give: &[(u32, &[u8])],
        take: (u32, usize),
    ) -> Run<(i32, Vec<u8>)> {
        if self.at < self.log.len() {
            self.at += 1;
            return Ok(self.log[self.at - 1].clone());
        }
        if !self.kernel.procs[self.index].ctx.state.rewinding {
            for (at, bytes) in give {
                self.poke(*at, bytes);
            }
            for (i, a) in args.iter().enumerate() {
                self.poke(ARGS + 4 * i as u32, &a.to_le_bytes());
            }
        }
        let ctx = &mut self.kernel.procs[self.index].ctx;
        let shared = &mut self.kernel.shared;
        let mut reply =
            syscall_entry(shared, ctx, self.fs, self.mem, self.clock, 0, number as u32, ARGS);
        let value = loop {
            match reply {
                Reply::Return(v) => break v as i32,
                Reply::Rewound { value, .. } => break value as i32,
                Reply::Unwind(_) => return Err(Stop),
                Reply::Grow { call, pages } => {
                    let previous = self.mem.len() / PAGE;
                    self.mem.resize(self.mem.len() + pages as usize * PAGE, 0);
                    reply = syscall_grown(
                        shared,
                        ctx,
                        self.fs,
                        self.mem,
                        0,
                        call,
                        Some(previous as u64),
                    );
                }
            }
        };
        // What the C library does on its way out of a call: take delivery of signals.
        while self.mem[FLAG as usize] != 0 {
            match sigfetch_entry(&mut self.kernel.shared, &mut self.kernel.procs[self.index].ctx, self.mem, OUT) {
                Reply::Return(0) => break,
                Reply::Return(_) => {}
                _ => return Err(Stop),
            }
        }
        let from = take.0 as usize;
        let out = if value >= 0 { self.mem[from..from + take.1].to_vec() } else { Vec::new() };
        self.log.push((value, out.clone()));
        self.at += 1;
        Ok((value, out))
    }

    fn simple(&mut self, number: i32, args: [i32; 6]) -> Run<i32> {
        Ok(self.call(number, args, &[], (0, 0))?.0)
    }

    fn on_path(&mut self, number: i32, path: &[u8], args: [i32; 6]) -> Run<i32> {
        let mut text = path.to_vec();
        text.push(0);
        Ok(self.call(number, args, &[(PATH, &text)], (0, 0))?.0)
    }

    fn open(&mut self, path: &[u8], flags: u32) -> Run<i32> {
        self.on_path(nr::OPENAT, path, [AT_FDCWD, PATH as i32, flags as i32, 0o666, 0, 0])
    }

    fn close(&mut self, fd: i32) -> Run<i32> {
        self.simple(nr::CLOSE, [fd, 0, 0, 0, 0, 0])
    }

    fn dup2(&mut self, from: i32, to: i32) -> Run<i32> {
        self.simple(nr::DUP3, [from, to, 0, 0, 0, 0])
    }

    fn read(&mut self, fd: i32, len: usize) -> Run<(i32, Vec<u8>)> {
        let (n, mut data) =
            self.call(nr::READ, [fd, BUF as i32, len as i32, 0, 0, 0], &[], (BUF, len))?;
        data.truncate(n.max(0) as usize);
        Ok((n, data))
    }

    fn write_all(&mut self, fd: i32, data: &[u8]) -> Run<i32> {
        let mut done = 0;
        while done < data.len() {
            let part = &data[done..data.len().min(done + 32768)];
            let n = self
                .call(
                    nr::WRITE,
                    [fd, BUF as i32, part.len() as i32, 0, 0, 0],
                    &[(BUF, part)],
                    (0, 0),
                )?
                .0;
            if n < 0 {
                return Ok(n);
            }
            done += n as usize;
        }
        Ok(0)
    }

    fn say(&mut self, fd: i32, text: &str) -> Run<i32> {
        self.write_all(fd, text.as_bytes())
    }

    fn read_all(&mut self, fd: i32) -> Run<Result<Vec<u8>, i32>> {
        let mut all = Vec::new();
        loop {
            let (n, data) = self.read(fd, 32768)?;
            if n < 0 {
                return Ok(Err(n));
            }
            if n == 0 {
                return Ok(Ok(all));
            }
            all.extend(data);
        }
    }

    fn pipe(&mut self) -> Run<(i32, i32, i32)> {
        let (r, out) = self.call(nr::PIPE2, [BUF as i32, 0, 0, 0, 0, 0], &[], (BUF, 8))?;
        if r < 0 {
            return Ok((r, -1, -1));
        }
        Ok((0, word(&out, 0), word(&out, 4)))
    }

    fn vfork(&mut self) -> Run<i32> {
        self.simple(nr::CLONE, [(CLONE_VM | CLONE_VFORK) as i32 | SIGCHLD, 0, 0, 0, 0, 0])
    }

    fn exit(&mut self, code: i32) -> Run<i32> {
        self.simple(nr::EXIT_GROUP, [code, 0, 0, 0, 0, 0])
    }

    fn wait(&mut self, pid: i32) -> Run<(i32, i32)> {
        let (r, out) = self.call(nr::WAIT4, [pid, BUF as i32, 0, 0, 0, 0], &[], (BUF, 4))?;
        Ok((r, if r > 0 { word(&out, 0) } else { 0 }))
    }

    /// Replace the program, or hand a `vfork` child over: then the child's pid comes back.
    fn exec(&mut self, path: &[u8], argv: &[Vec<u8>], envp: &[Vec<u8>]) -> Run<i32> {
        let mut strings = Vec::new();
        let mut tables = Vec::new();
        let mut starts = Vec::new();
        for list in [argv, envp] {
            starts.push(tables.len());
            for s in list {
                tables.push(Some(strings.len()));
                strings.extend_from_slice(s);
                strings.push(0);
            }
            tables.push(None);
        }
        let base = STRINGS + 4 * tables.len() as u32;
        let mut block = Vec::new();
        for t in &tables {
            let word = match t {
                Some(at) => base + *at as u32,
                None => 0,
            };
            block.extend_from_slice(&word.to_le_bytes());
        }
        block.extend(strings);
        let mut text = path.to_vec();
        text.push(0);
        let args = [
            PATH as i32,
            (STRINGS + 4 * starts[0] as u32) as i32,
            (STRINGS + 4 * starts[1] as u32) as i32,
            0,
            0,
            0,
        ];
        Ok(self.call(nr::EXECVE, args, &[(PATH, &text), (STRINGS, &block)], (0, 0))?.0)
    }

    fn ioctl(&mut self, fd: i32, request: u32, give: &[u8], take: usize) -> Run<(i32, Vec<u8>)> {
        self.call(nr::IOCTL, [fd, request as i32, BUF as i32, 0, 0, 0], &[(BUF, give)], (BUF, take))
    }

    /// The mode of a path, or why there is none.
    fn mode(&mut self, path: &[u8]) -> Run<Result<u32, i32>> {
        let mut text = path.to_vec();
        text.push(0);
        let (r, out) = self.call(
            nr::STATX,
            [AT_FDCWD, PATH as i32, 0, 0x7ff, BUF as i32, 0],
            &[(PATH, &text)],
            (BUF, 256),
        )?;
        if r < 0 {
            return Ok(Err(r));
        }
        Ok(Ok(u32::from(out[28]) + 256 * u32::from(out[29])))
    }

    fn list(&mut self, path: &[u8]) -> Run<Result<Vec<String>, i32>> {
        let fd = self.open(path, O_RDONLY | O_DIRECTORY)?;
        if fd < 0 {
            return Ok(Err(fd));
        }
        let mut names = Vec::new();
        loop {
            let (n, block) =
                self.call(nr::GETDENTS64, [fd, BUF as i32, 8192, 0, 0, 0], &[], (BUF, 8192))?;
            if n <= 0 {
                break;
            }
            let mut at = 0;
            while at < n as usize {
                let len = usize::from(block[at + 16]) + 256 * usize::from(block[at + 17]);
                let name = &block[at + 19..at + len];
                let end = name.iter().position(|b| *b == 0).unwrap();
                names.push(String::from_utf8(name[..end].to_vec()).unwrap());
                at += len;
            }
        }
        self.close(fd)?;
        Ok(Ok(names))
    }
}

fn word(b: &[u8], at: usize) -> i32 {
    i32::from_le_bytes([b[at], b[at + 1], b[at + 2], b[at + 3]])
}

/// A session and the guests in it.
struct Running {
    session: Session<MemFile>,
    instances: BTreeMap<u64, Instance>,
    now: u128,
}

fn spawn(sandbox: &mut Sand, prepare: impl for<'x> Fn(&'x Sand) -> Command<'x, Disk, Cmd>) -> Result<Running, Error> {
    let (session, first) = prepare(sandbox).spawn()?;
    let mut running = Running { session, instances: BTreeMap::new(), now: 0 };
    running.start(sandbox, first, 0).map_err(|(_, e)| Error::Load(e))?;
    Ok(running)
}

impl Running {
    fn clock(&self) -> Clock {
        Clock {
            elapsed: self.now,
            realtime: 1_700_000_000_000_000_000 + self.now,
            uptime: "0.00".to_string(),
        }
    }

    fn start(
        &mut self,
        sandbox: &mut Sand,
        spawn: Spawn,
        at: usize,
    ) -> Result<(), (Ctx, LoadError)> {
        let kernel = &mut self.session.kernel;
        let (ctx, kind) = kernel.launch(spawn);
        let kind = match kind {
            Ok(kind) => kind,
            Err(e) => return Err((ctx, e)),
        };
        match kind {
            ProgramKind::Host => {
                let guests = sandbox.programs.len() - sandbox.commands.len();
                let reads = sandbox.commands[ctx.program - guests].command.reads_stdin(&ctx.argv);
                kernel.install_host(at, ctx, reads);
            }
            ProgramKind::Guest => {
                let charge = match kernel.charge_guest(2 * PAGE as u64) {
                    Ok(charge) => charge,
                    Err(e) => return Err((ctx, e)),
                };
                let key = kernel.install_guest(at, ctx, charge, Some(2))?;
                let size = (2 + ASYNCIFY_PAGES as usize) * PAGE;
                self.instances.insert(key, Instance { mem: vec![0; size], log: Vec::new() });
            }
        }
        Ok(())
    }

    fn replace(&mut self, sandbox: &mut Sand, index: usize) -> ProcStep {
        match self.session.kernel.take_exec(index) {
            Err(step) => step,
            Ok((spawn, key)) => {
                self.instances.remove(&key);
                if let Err((ctx, _)) = self.start(sandbox, spawn, index) {
                    self.session.kernel.start_failed(&mut sandbox.mounts, ctx);
                    return ProcStep::Stuck;
                }
                ProcStep::Replaced
            }
        }
    }

    fn guest(&mut self, sandbox: &mut Sand, index: usize) -> ProcStep {
        let clock = self.clock();
        let kernel = &mut self.session.kernel;
        let key = kernel.procs[index].key;
        let mut inst = self.instances.remove(&key).unwrap();
        let fs = &mut sandbox.mounts;
        let mut go = kernel.resume(fs, &mut inst.mem, &clock, index);
        let after = loop {
            match go {
                Go::Done(step) => break After::Done(step),
                Go::Replace => break After::Replace,
                Go::Grow { call, pages } => {
                    let previous = inst.mem.len() / PAGE;
                    inst.mem.resize(inst.mem.len() + pages as usize * PAGE, 0);
                    go = kernel.resume_grown(fs, &mut inst.mem, index, call, Some(previous as u64));
                }
                Go::Enter(rewind) => {
                    if rewind.is_none() {
                        init_entry(&mut kernel.procs[index].ctx, FLAG);
                    }
                    let argv = kernel.procs[index].ctx.argv.clone();
                    let envp = kernel.procs[index].ctx.envp.clone();
                    let mut os = Os {
                        kernel,
                        fs,
                        clock: &clock,
                        index,
                        mem: &mut inst.mem,
                        log: &mut inst.log,
                        at: 0,
                    };
                    if let Ok(code) = tool(&mut os, &argv, &envp) {
                        let _ = os.exit(code);
                    }
                    break self.session.kernel.after_run(
                        &mut inst.mem,
                        index,
                        engine::Exit::Returned,
                    );
                }
            }
        };
        self.instances.insert(key, inst);
        match after {
            After::Done(step) => step,
            After::Replace => self.replace(sandbox, index),
        }
    }

    fn host(&mut self, sandbox: &mut Sand, index: usize) -> ProcStep {
        let clock = self.clock();
        let kernel = &mut self.session.kernel;
        loop {
            match kernel.host_step(&mut sandbox.mounts, &clock, index) {
                HostGo::More => {}
                HostGo::Done(step) => return step,
                HostGo::Run(call) => {
                    let guests = sandbox.programs.len() - sandbox.commands.len();
                    let program = kernel.procs[index].ctx.program;
                    let answer = sandbox.commands[program - guests].command.run(&call);
                    if !kernel.host_answer(index, answer) {
                        return ProcStep::Stuck;
                    }
                }
            }
        }
    }

    fn slice(&mut self, sandbox: &mut Sand, budget: Budget) -> Slice {
        let mut pass = self.session.kernel.begin(self.now);
        loop {
            self.now += 1000;
            let picked =
                self.session.kernel.pick(&mut sandbox.mounts, &mut pass, self.now, budget);
            let step = match picked {
                Pick::Report(slice) => return slice,
                Pick::Again => continue,
                Pick::Start(spawn) => {
                    let at = self.session.kernel.procs.len();
                    if let Err((ctx, _)) = self.start(sandbox, spawn, at) {
                        self.session.kernel.start_failed(&mut sandbox.mounts, ctx);
                    }
                    continue;
                }
                Pick::Guest(i) => self.guest(sandbox, i),
                Pick::Host(i) => self.host(sandbox, i),
            };
            if let Some(slice) =
                self.session.kernel.settle(&mut sandbox.mounts, &mut pass, step)
            {
                return slice;
            }
        }
    }

    fn step(&mut self, sandbox: &mut Sand, budget: Budget) -> Result<Progress, Error> {
        let ran = if self.session.finished.is_some() {
            Slice::Budget
        } else {
            self.slice(sandbox, budget)
        };
        self.session.step(ran, self.now)
    }

    fn output(mut self, sandbox: &mut Sand) -> Result<Output, Error> {
        loop {
            let progress = self.step(sandbox, Budget::unlimited())?;
            if let Progress::Waiting(Wait::Until(rest)) = progress {
                self.now += rest;
            }
            if let Some(output) = Command::<Disk, Cmd>::output(&mut self.session, progress)? {
                return Ok(output);
            }
        }
    }
}

fn output(
    sandbox: &mut Sand,
    prepare: impl for<'x> Fn(&'x Sand) -> Command<'x, Disk, Cmd>,
) -> Result<Output, Error> {
    spawn(sandbox, prepare)?.output(sandbox)
}

fn shell(sandbox: &mut Sand, script: &str) -> Result<Output, Error> {
    output(sandbox, |s| s.shell(script))
}

// ---------------------------------------------------------------------------------------------
// the guests: one image that answers to many names

const TOOLS: &[&str] = &[
    "[", "cat", "cp", "echo", "env", "false", "grep", "hang", "head", "hexdump", "kill", "ln", "ls",
    "mkdir", "mv", "printf", "pwd", "readlink", "rm", "rmdir", "seq", "sed", "sh", "sleep", "sort",
    "stty", "tail", "test", "timeout", "touch", "tr", "true", "uname", "wc", "yes",
];

fn layouts() -> Vec<Layout> {
    let mut commands: Vec<ProgramInfo> = TOOLS
        .iter()
        .map(|name| ProgramInfo { name: name.to_string(), path: format!("/bin/{name}") })
        .collect();
    commands.push(ProgramInfo {
        name: "busybox".to_string(),
        path: "/bin/busybox".to_string(),
    });
    vec![Layout { image: "busybox".to_string(), commands }]
}

fn text(bytes: &[u8]) -> String {
    String::from_utf8_lossy(bytes).into_owned()
}

fn why(code: i32) -> &'static str {
    match -code {
        1 => "Operation not permitted",
        2 => "No such file or directory",
        20 => "Not a directory",
        25 => "Not a tty",
        30 => "Read-only file system",
        _ => "error",
    }
}

/// Run the tool that `argv[0]` names.
fn tool(os: &mut Os, argv: &[Vec<u8>], envp: &[Vec<u8>]) -> Run<i32> {
    let mut name = argv.first().cloned().unwrap_or_default();
    // The mark of a program that has executed itself again.
    let again = name.first().is_some_and(|b| b & 0x80 != 0);
    if again {
        name[0] &= 0x7f;
    }
    let name = text(&name);
    let name = name.rsplit('/').next().unwrap().to_string();
    let args: Vec<String> = argv.iter().skip(1).map(|a| text(a)).collect();
    let arg = |i: usize| args.get(i).cloned().unwrap_or_default();
    match name.as_str() {
        "sh" => {
            if arg(0) == "-c" {
                return script(os, &arg(1), envp);
            }
            let code = match args.first() {
                Some(path) => {
                    let fd = os.open(path.as_bytes(), O_RDONLY)?;
                    if fd < 0 {
                        return Ok(127);
                    }
                    os.read_all(fd)?
                }
                None => os.read_all(0)?,
            };
            match code {
                Ok(code) => script(os, &text(&code), envp),
                Err(_) => Ok(1),
            }
        }
        "true" => Ok(0),
        "hang" => {
            let (_, r, _) = os.pipe()?;
            os.read(r, 1)?;
            Ok(0)
        }
        "false" => Ok(1),
        "echo" => {
            let line = args.join(" ") + "\n";
            Ok(i32::from(os.say(1, &line)? < 0))
        }
        "printf" => {
            os.write_all(1, &unescape(&arg(0)))?;
            Ok(0)
        }
        "cat" => {
            let mut code = 0;
            if args.is_empty() {
                return copy(os, 0, 1);
            }
            for path in &args {
                let fd = os.open(path.as_bytes(), O_RDONLY)?;
                if fd < 0 {
                    os.say(2, &format!("cat: can't open '{path}': {}\n", why(fd)))?;
                    code = 1;
                    continue;
                }
                code |= copy(os, fd, 1)?;
                os.close(fd)?;
            }
            Ok(code)
        }
        "wc" => {
            let data = match os.read_all(0)? {
                Ok(data) => data,
                Err(_) => return Ok(1),
            };
            let n = match arg(0).as_str() {
                "-c" => data.len(),
                "-l" => data.iter().filter(|b| **b == b'\n').count(),
                _ => text(&data).split_whitespace().count(),
            };
            os.say(1, &format!("{n}\n"))?;
            Ok(0)
        }
        "sort" => {
            let mut all = Vec::new();
            let mut room = 1usize << 18;
            loop {
                let (n, data) = os.read(0, 32768)?;
                if n <= 0 {
                    break;
                }
                all.extend(data);
                if all.len() > room {
                    let here = os.simple(nr::BRK, [0; 6])?;
                    let wanted = here + (1 << 20);
                    if os.simple(nr::BRK, [wanted, 0, 0, 0, 0, 0])? != wanted {
                        os.say(2, "sort: out of memory\n")?;
                        return Ok(2);
                    }
                    room += 1 << 20;
                }
            }
            let all = text(&all);
            let mut lines: Vec<&str> = all.lines().collect();
            lines.sort();
            if arg(0).contains('n') {
                lines.sort_by_key(|l| l.trim().parse::<i64>().unwrap_or(0));
            }
            if arg(0).contains('r') {
                lines.reverse();
            }
            let mut out = lines.join("\n");
            if !out.is_empty() {
                out.push('\n');
            }
            os.say(1, &out)?;
            Ok(0)
        }
        "seq" => {
            let from: u64 = arg(0).parse().unwrap();
            let to: u64 = arg(1).parse().unwrap();
            let mut n = from;
            while n <= to {
                let first = n;
                let mut size = 0;
                while n <= to && size < 16384 {
                    size += n.to_string().len() + 1;
                    n += 1;
                }
                let chunk = if os.replaying() {
                    vec![b'0'; size]
                } else {
                    (first..n).map(|i| format!("{i}\n")).collect::<String>().into_bytes()
                };
                if os.write_all(1, &chunk)? < 0 {
                    return Ok(1);
                }
            }
            Ok(0)
        }
        "yes" => loop {
            if os.say(1, &"y\n".repeat(512))? < 0 {
                return Ok(1);
            }
        },
        "head" => {
            let wanted: usize = arg(0).trim_start_matches('-').parse().unwrap_or(10);
            let mut all = Vec::new();
            loop {
                let lines = all.iter().filter(|b| **b == b'\n').count();
                if lines >= wanted {
                    break;
                }
                let (n, data) = os.read(0, 4096)?;
                if n <= 0 {
                    break;
                }
                all.extend(data);
            }
            let all = text(&all);
            for line in all.lines().take(wanted) {
                os.say(1, &format!("{line}\n"))?;
            }
            Ok(0)
        }
        "tail" => {
            let wanted: usize = arg(0).trim_start_matches('-').parse().unwrap_or(10);
            let all = text(&os.read_all(0)?.unwrap_or_default());
            let lines: Vec<&str> = all.lines().collect();
            for line in &lines[lines.len() - wanted.min(lines.len())..] {
                os.say(1, &format!("{line}\n"))?;
            }
            Ok(0)
        }
        "tr" => {
            let data = os.read_all(0)?.unwrap_or_default();
            let (from, to) = (unescape(&arg(0)), unescape(&arg(1)));
            let out: Vec<u8> =
                data.iter().map(|b| if *b == from[0] { to[0] } else { *b }).collect();
            os.write_all(1, &out)?;
            Ok(0)
        }
        "sed" => {
            // s/a/b/ and s/a/b/g, without patterns.
            let parts: Vec<String> = arg(0).split('/').map(|p| p.to_string()).collect();
            let all = text(&os.read_all(0)?.unwrap_or_default());
            for line in all.lines() {
                let line = if parts[3] == "g" {
                    line.replace(&parts[1], &parts[2])
                } else {
                    line.replacen(&parts[1], &parts[2], 1)
                };
                os.say(1, &format!("{line}\n"))?;
            }
            Ok(0)
        }
        "grep" => {
            let all = text(&os.read_all(0)?.unwrap_or_default());
            let pattern = args.last().unwrap().clone();
            let only = arg(0) == "-o";
            let inverted = arg(0) == "-v";
            let count = arg(0) == "-c";
            let mut found = 0;
            for line in all.lines() {
                if line.contains(&pattern) == inverted {
                    continue;
                }
                found += 1;
                if !count {
                    let shown = if only { pattern.as_str() } else { line };
                    os.say(1, &format!("{shown}\n"))?;
                }
            }
            if count {
                os.say(1, &format!("{found}\n"))?;
            }
            Ok(i32::from(found == 0))
        }
        "hexdump" => {
            let data = os.read_all(0)?.unwrap_or_default();
            let shown: String = data.iter().map(|b| format!("{b:02x}")).collect();
            os.say(1, &shown)?;
            Ok(0)
        }
        "env" => {
            for e in envp {
                os.say(1, &(text(e) + "\n"))?;
            }
            Ok(0)
        }
        "pwd" => {
            let (n, out) = os.call(nr::GETCWD, [BUF as i32, 4096, 0, 0, 0, 0], &[], (BUF, 4096))?;
            if n < 0 {
                return Ok(1);
            }
            let end = out.iter().position(|b| *b == 0).unwrap();
            os.say(1, &(text(&out[..end]) + "\n"))?;
            Ok(0)
        }
        "uname" => {
            let (_, out) = os.call(nr::UNAME, [BUF as i32, 0, 0, 0, 0, 0], &[], (BUF, 390))?;
            let end = out.iter().position(|b| *b == 0).unwrap();
            os.say(1, &(text(&out[..end]) + "\n"))?;
            Ok(0)
        }
        "readlink" => {
            let mut path = arg(0).into_bytes();
            path.push(0);
            let (n, out) = os.call(
                nr::READLINKAT,
                [AT_FDCWD, PATH as i32, BUF as i32, 4096, 0, 0],
                &[(PATH, &path)],
                (BUF, 4096),
            )?;
            if n < 0 {
                return Ok(1);
            }
            os.say(1, &(text(&out[..n as usize]) + "\n"))?;
            Ok(0)
        }
        "ls" => {
            let path = if args.is_empty() { ".".to_string() } else { arg(0) };
            let mode = match os.mode(path.as_bytes())? {
                Ok(mode) => mode,
                Err(e) => {
                    os.say(2, &format!("ls: {path}: {}\n", why(e)))?;
                    return Ok(1);
                }
            };
            if mode & S_IFMT != S_IFDIR {
                os.say(1, &format!("{path}\n"))?;
                return Ok(0);
            }
            match os.list(path.as_bytes())? {
                Ok(mut names) => {
                    names.retain(|n| n != "." && n != "..");
                    names.sort();
                    for name in names {
                        os.say(1, &format!("{name}\n"))?;
                    }
                    Ok(0)
                }
                Err(_) => Ok(1),
            }
        }
        "test" | "[" => condition(os, &args),
        "mkdir" => {
            let path = args.last().unwrap().clone();
            let r = os.on_path(nr::MKDIRAT, path.as_bytes(), [AT_FDCWD, PATH as i32, 0o777, 0, 0, 0])?;
            Ok(i32::from(r < 0))
        }
        "rm" | "rmdir" => {
            let flags = if name == "rmdir" { 0x200 } else { 0 };
            let r = os.on_path(nr::UNLINKAT, arg(0).as_bytes(), [AT_FDCWD, PATH as i32, flags, 0, 0, 0])?;
            Ok(i32::from(r < 0))
        }
        "mv" | "ln" => {
            let (a, b) = if name == "ln" { (arg(1), arg(2)) } else { (arg(0), arg(1)) };
            let (mut a, mut b) = (a.into_bytes(), b.into_bytes());
            a.push(0);
            b.push(0);
            let (number, args) = if name == "ln" {
                (nr::SYMLINKAT, [PATH as i32, AT_FDCWD, PATH2 as i32, 0, 0, 0])
            } else {
                (nr::RENAMEAT, [AT_FDCWD, PATH as i32, AT_FDCWD, PATH2 as i32, 0, 0])
            };
            let r = os.call(number, args, &[(PATH, &a), (PATH2, &b)], (0, 0))?.0;
            Ok(i32::from(r < 0))
        }
        "cp" => {
            let from = os.open(arg(0).as_bytes(), O_RDONLY)?;
            if from < 0 {
                return Ok(1);
            }
            let to = os.open(arg(1).as_bytes(), O_WRONLY | O_CREAT | O_TRUNC)?;
            if to < 0 {
                return Ok(1);
            }
            copy(os, from, to)
        }
        "touch" => {
            for path in &args {
                let fd = os.open(path.as_bytes(), O_WRONLY | O_CREAT)?;
                if fd < 0 {
                    return Ok(1);
                }
                os.close(fd)?;
            }
            Ok(0)
        }
        "kill" => {
            let sig: i32 = arg(0).trim_start_matches('-').parse().unwrap_or(15);
            let pid: i32 = arg(1).parse().unwrap();
            Ok(i32::from(os.simple(nr::KILL, [pid, sig, 0, 0, 0, 0])? < 0))
        }
        "sleep" => {
            let secs: u64 = arg(0).parse().unwrap();
            let mut span = secs.to_le_bytes().to_vec();
            span.extend_from_slice(&0u64.to_le_bytes());
            os.call(
                nr::CLOCK_NANOSLEEP_TIME64,
                [1, 0, BUF as i32, 0, 0, 0],
                &[(BUF, &span)],
                (0, 0),
            )?;
            Ok(0)
        }
        "timeout" => {
            if !again {
                // Execute the same program again, with the mark in its name.
                let mut next = argv.to_vec();
                next[0] = b"timeout".to_vec();
                next[0][0] |= 0x80;
                os.exec(b"/proc/self/exe", &next, envp)?;
                return Ok(126);
            }
            let rest = &argv[2..];
            let path = [b"/bin/".as_slice(), &rest[0]].concat();
            os.exec(&path, rest, envp)?;
            Ok(127)
        }
        "stty" => stty(os, &args),
        _ => {
            os.say(2, &format!("{name}: applet not found\n"))?;
            Ok(127)
        }
    }
}

fn stty(os: &mut Os, args: &[String]) -> Run<i32> {
    let (r, mut settings) = os.ioctl(0, TCGETS, &[], 36)?;
    if r < 0 {
        os.say(2, &format!("stty: standard input: {}\n", why(r)))?;
        return Ok(1);
    }
    let mut local = word(&settings, 12) as u32;
    let mut changed = false;
    for a in args {
        match a.as_str() {
            "size" => {
                let (r, out) = os.ioctl(0, TIOCGWINSZ, &[], 8)?;
                if r < 0 {
                    return Ok(1);
                }
                let rows = u32::from(out[0]) + 256 * u32::from(out[1]);
                let cols = u32::from(out[2]) + 256 * u32::from(out[3]);
                os.say(1, &format!("{rows} {cols}\n"))?;
            }
            "-a" => {
                let flag = |bit: u32, name: &str| {
                    if local & bit == 0 { format!("-{name}") } else { name.to_string() }
                };
                os.say(1, &format!("{} {}\n", flag(ICANON, "icanon"), flag(ECHO, "echo")))?;
            }
            "-echo" => {
                local &= !ECHO;
                changed = true;
            }
            "-icanon" => {
                local &= !ICANON;
                changed = true;
            }
            _ => return Ok(1),
        }
    }
    if changed {
        settings[12..16].copy_from_slice(&local.to_le_bytes());
        return Ok(i32::from(os.ioctl(0, TCSETS, &settings, 0)?.0 < 0));
    }
    Ok(0)
}

fn condition(os: &mut Os, args: &[String]) -> Run<i32> {
    let args: Vec<&str> = args.iter().map(|a| a.as_str()).filter(|a| *a != "]").collect();
    let holds = match args.as_slice() {
        ["-t", fd] => os.ioctl(fd.parse().unwrap(), TCGETS, &[], 36)?.0 >= 0,
        ["-e", path] => os.mode(path.as_bytes())?.is_ok(),
        ["-d", path] => {
            matches!(os.mode(path.as_bytes())?, Ok(mode) if mode & S_IFMT == S_IFDIR)
        }
        ["-x", path] => {
            os.on_path(nr::FACCESSAT, path.as_bytes(), [AT_FDCWD, PATH as i32, 1, 0, 0, 0])? == 0
        }
        [a, "-eq", b] => a == b,
        [a, "=", b] => a == b,
        _ => false,
    };
    Ok(i32::from(!holds))
}

/// Copy everything, without keeping it.
fn copy(os: &mut Os, from: i32, to: i32) -> Run<i32> {
    loop {
        let (n, data) = os.read(from, 16384)?;
        if n < 0 {
            return Ok(1);
        }
        if n == 0 {
            return Ok(0);
        }
        if os.write_all(to, &data)? < 0 {
            return Ok(1);
        }
    }
}

fn unescape(s: &str) -> Vec<u8> {
    let b = s.as_bytes();
    let mut out = Vec::new();
    let mut i = 0;
    while i < b.len() {
        if b[i] == b'\\' && i + 1 < b.len() {
            if b[i + 1] == b'n' {
                out.push(b'\n');
                i += 2;
                continue;
            }
            if b[i + 1].is_ascii_digit() {
                let digits = &s[i + 1..i + 4];
                out.push(u32::from_str_radix(digits, 8).unwrap() as u8);
                i += 4;
                continue;
            }
        }
        out.push(b[i]);
        i += 1;
    }
    out
}

// ---------------------------------------------------------------------------------------------
// the shell

#[derive(Clone)]
enum Part {
    Lit(String),
    Var(String),
    Sub(String),
}

#[derive(Clone)]
enum Tok {
    Word(Vec<Part>),
    Op(String),
}

fn is_op(t: &Tok, op: &str) -> bool {
    matches!(t, Tok::Op(o) if o == op)
}

fn is_word(t: &Tok, word: &str) -> bool {
    match t {
        Tok::Word(parts) => matches!(parts.as_slice(), [Part::Lit(l)] if l == word),
        Tok::Op(_) => false,
    }
}

fn tokens(code: &str) -> Vec<Tok> {
    let c: Vec<char> = code.chars().collect();
    let mut out = Vec::new();
    let mut i = 0;
    while i < c.len() {
        let rest: String = c[i..c.len().min(i + 4)].iter().collect();
        if c[i] == '#' {
            while i < c.len() && c[i] != '\n' {
                i += 1;
            }
        } else if c[i] == ' ' {
            i += 1;
        } else if rest.starts_with("2>&1") {
            out.push(Tok::Op("2>&1".to_string()));
            i += 4;
        } else if let Some(op) =
            ["2>", ">>", "&&", "||", ">", "<", "|", ";"].iter().find(|o| rest.starts_with(**o))
        {
            out.push(Tok::Op(op.to_string()));
            i += op.len();
        } else if c[i] == '\n' {
            out.push(Tok::Op(";".to_string()));
            i += 1;
        } else {
            let mut parts = Vec::new();
            let mut lit = String::new();
            let mut some = false;
            let mut double = false;
            while i < c.len() && (double || !" ;|&<>\n".contains(c[i])) {
                some = true;
                if c[i] == '"' {
                    double = !double;
                    i += 1;
                } else if c[i] == '\'' && !double {
                    i += 1;
                    while c[i] != '\'' {
                        lit.push(c[i]);
                        i += 1;
                    }
                    i += 1;
                } else if c[i] == '$' && i + 1 < c.len() && c[i + 1] == '(' {
                    parts.push(Part::Lit(std::mem::take(&mut lit)));
                    let mut depth = 1;
                    let start = i + 2;
                    i += 2;
                    while depth > 0 {
                        match c[i] {
                            '(' => depth += 1,
                            ')' => depth -= 1,
                            _ => {}
                        }
                        i += 1;
                    }
                    parts.push(Part::Sub(c[start..i - 1].iter().collect()));
                } else if c[i] == '$' && i + 1 < c.len() {
                    parts.push(Part::Lit(std::mem::take(&mut lit)));
                    i += 1;
                    let mut name = String::new();
                    if "?$".contains(c[i]) {
                        name.push(c[i]);
                        i += 1;
                    } else {
                        while i < c.len() && (c[i].is_alphanumeric() || c[i] == '_') {
                            name.push(c[i]);
                            i += 1;
                        }
                    }
                    parts.push(Part::Var(name));
                } else {
                    lit.push(c[i]);
                    i += 1;
                }
            }
            if !lit.is_empty() || (parts.is_empty() && some) {
                parts.push(Part::Lit(lit));
            }
            out.push(Tok::Word(parts));
        }
    }
    out
}

struct Shell<'e> {
    envp: &'e [Vec<u8>],
    vars: BTreeMap<String, String>,
    last: i32,
    done: Option<i32>,
}

fn script(os: &mut Os, code: &str, envp: &[Vec<u8>]) -> Run<i32> {
    let mut sh = Shell { envp, vars: BTreeMap::new(), last: 0, done: None };
    let toks = tokens(code);
    sh.list(os, &toks)?;
    Ok(sh.done.unwrap_or(sh.last))
}

impl Shell<'_> {
    /// Commands joined by `;`, `&&` and `||`.
    fn list(&mut self, os: &mut Os, toks: &[Tok]) -> Run<()> {
        let mut i = 0;
        let mut skip = false;
        while i < toks.len() && self.done.is_none() {
            if is_op(&toks[i], ";") {
                skip = false;
                i += 1;
            } else if is_op(&toks[i], "&&") {
                skip = self.last != 0;
                i += 1;
            } else if is_op(&toks[i], "||") {
                skip = self.last == 0;
                i += 1;
            } else if is_word(&toks[i], "for") {
                let body = i + toks[i..].iter().position(|t| is_word(t, "do")).unwrap();
                let end = i + toks[i..].iter().position(|t| is_word(t, "done")).unwrap();
                let name = self.expand(os, &toks[i + 1])?;
                for t in &toks[i + 3..body - 1] {
                    let value = self.expand(os, t)?;
                    for word in value.split_whitespace() {
                        self.vars.insert(name.clone(), word.to_string());
                        self.list(os, &toks[body + 1..end])?;
                    }
                }
                i = end + 1;
            } else {
                let end = toks[i..]
                    .iter()
                    .position(|t| is_op(t, ";") || is_op(t, "&&") || is_op(t, "||"))
                    .map_or(toks.len(), |n| i + n);
                if !skip {
                    self.pipeline(os, &toks[i..end])?;
                }
                i = end;
            }
        }
        Ok(())
    }

    fn lookup(&self, name: &str) -> String {
        if let Some(v) = self.vars.get(name) {
            return v.clone();
        }
        let prefix = format!("{name}=");
        self.envp
            .iter()
            .map(|e| text(e))
            .find(|e| e.starts_with(&prefix))
            .map(|e| e[prefix.len()..].to_string())
            .unwrap_or_default()
    }

    fn expand(&mut self, os: &mut Os, t: &Tok) -> Run<String> {
        let parts = match t {
            Tok::Word(parts) => parts,
            Tok::Op(op) => return Ok(op.clone()),
        };
        let mut out = String::new();
        for part in parts {
            match part {
                Part::Lit(l) => out.push_str(l),
                Part::Var(name) if name == "?" => out.push_str(&self.last.to_string()),
                Part::Var(name) if name == "$" => {
                    out.push_str(&os.simple(nr::GETPID, [0; 6])?.to_string())
                }
                Part::Var(name) => out.push_str(&self.lookup(name)),
                Part::Sub(code) => {
                    let (_, r, w) = os.pipe()?;
                    let argv = vec![b"sh".to_vec(), b"-c".to_vec(), code.clone().into_bytes()];
                    let pid = os.vfork()?;
                    let pid = if pid == 0 {
                        os.dup2(w, 1)?;
                        os.close(r)?;
                        os.close(w)?;
                        os.exec(b"/proc/self/exe", &argv, self.envp)?
                    } else {
                        pid
                    };
                    os.close(w)?;
                    let got = text(&os.read_all(r)?.unwrap_or_default());
                    os.close(r)?;
                    os.wait(pid)?;
                    out.push_str(got.trim_end_matches('\n'));
                }
            }
        }
        Ok(out)
    }

    fn pipeline(&mut self, os: &mut Os, toks: &[Tok]) -> Run<()> {
        let mut stages = Vec::new();
        for stage in toks.split(|t| is_op(t, "|")) {
            let mut words = Vec::new();
            let mut redirects = Vec::new();
            let mut i = 0;
            while i < stage.len() {
                match &stage[i] {
                    Tok::Op(op) if op == "2>&1" => {
                        redirects.push((op.clone(), String::new()));
                    }
                    Tok::Op(op) => {
                        i += 1;
                        redirects.push((op.clone(), self.expand(os, &stage[i])?));
                    }
                    word => words.push(self.expand(os, word)?),
                }
                i += 1;
            }
            stages.push((words, redirects));
        }
        if let [(words, _)] = stages.as_slice() {
            match words.first().map(|w| w.as_str()) {
                Some("cd") => {
                    let r = os.on_path(nr::CHDIR, words[1].as_bytes(), [PATH as i32, 0, 0, 0, 0, 0])?;
                    self.last = i32::from(r < 0);
                    return Ok(());
                }
                Some("exit") => {
                    self.done = Some(words.get(1).map_or(self.last, |w| w.parse().unwrap()));
                    return Ok(());
                }
                Some(w) if w.contains('=') => {
                    let (k, v) = w.split_once('=').unwrap();
                    self.vars.insert(k.to_string(), v.to_string());
                    return Ok(());
                }
                _ => {}
            }
        }
        let mut pids = Vec::new();
        let mut input = -1;
        let n = stages.len();
        for (at, (words, redirects)) in stages.into_iter().enumerate() {
            let (mut r, mut w) = (-1, -1);
            if at + 1 < n {
                let made = os.pipe()?;
                r = made.1;
                w = made.2;
            }
            let pid = self.launch(os, &words, &redirects, input, r, w)?;
            if input >= 0 {
                os.close(input)?;
            }
            if w >= 0 {
                os.close(w)?;
            }
            input = r;
            pids.push(pid);
        }
        for pid in pids {
            if pid < 0 {
                os.say(2, "sh: can't fork\n")?;
                self.last = 1;
                continue;
            }
            let (_, status) = os.wait(pid)?;
            self.last = if status & 0x7f == 0 { (status >> 8) & 0xff } else { 128 + (status & 0x7f) };
        }
        Ok(())
    }

    /// Start one stage in a child. The child's pid, or what `vfork` said.
    fn launch(
        &mut self,
        os: &mut Os,
        words: &[String],
        redirects: &[(String, String)],
        input: i32,
        r: i32,
        w: i32,
    ) -> Run<i32> {
        let pid = os.vfork()?;
        if pid != 0 {
            return Ok(pid);
        }
        if input >= 0 {
            os.dup2(input, 0)?;
            os.close(input)?;
        }
        if w >= 0 {
            os.dup2(w, 1)?;
            os.close(w)?;
            os.close(r)?;
        }
        for (op, path) in redirects {
            if op == "2>&1" {
                os.dup2(1, 2)?;
                continue;
            }
            let (to, flags) = match op.as_str() {
                "<" => (0, O_RDONLY),
                ">" => (1, O_WRONLY | O_CREAT | O_TRUNC),
                ">>" => (1, O_WRONLY | O_CREAT | O_APPEND),
                _ => (2, O_WRONLY | O_CREAT | O_TRUNC),
            };
            let fd = os.open(path.as_bytes(), flags)?;
            if fd < 0 {
                os.say(2, &format!("sh: can't open {path}: {}\n", why(fd)))?;
                return os.exit(1);
            }
            os.dup2(fd, to)?;
            os.close(fd)?;
        }
        let argv: Vec<Vec<u8>> = words.iter().map(|x| x.clone().into_bytes()).collect();
        let name = words[0].as_str();
        let mut places = Vec::new();
        if name.contains('/') {
            places.push(name.to_string());
        } else if TOOLS.contains(&name) {
            places.push("/proc/self/exe".to_string());
        } else {
            for dir in self.lookup("PATH").split(':') {
                places.push(format!("{dir}/{name}"));
            }
        }
        for place in places {
            let pid = os.exec(place.as_bytes(), &argv, self.envp)?;
            if pid > 0 {
                return Ok(pid);
            }
        }
        os.say(2, &format!("sh: {name}: not found\n"))?;
        os.exit(127)
    }
}

// ---------------------------------------------------------------------------------------------
// the first thing to check: that a program runs at all

fn built(b: Build) -> Sand {
    match b.build(&layouts()) {
        Ok(s) => s,
        Err(e) => panic!("the sandbox should build: {}", e.message()),
    }
}

fn plain() -> Build {
    Sandbox::builder().mount("/", mem()).mount("/tmp", mem())
}

/// What a script prints, without the white space at its end.
fn said(sandbox: &mut Sand, script: &str) -> String {
    match shell(sandbox, script) {
        Ok(out) => out.stdout_string().trim_end().to_string(),
        Err(e) => format!("error: {}", e.message()),
    }
}

#[test]
fn echo_runs_and_exits_cleanly() {
    let mut sandbox = built(Sandbox::builder().mount("/", mem()));
    let out = output(&mut sandbox, |s| {
        s.command("echo").args(vec!["hello".to_string(), "world".to_string()])
    })
    .expect("run");
    println!(
        "status={:?} stdout={:?} stderr={:?}",
        out.status,
        out.stdout_string(),
        out.stderr_string()
    );
    assert_eq!(out.stdout_string().trim(), "hello world");
    assert!(out.status.success());
}

// ---------------------------------------------------------------------------------------------
// host commands

/// Echoes its arguments, so argv arrives intact.
fn args() -> Cmd {
    cmd(|call| Ok(Exit::from_stdout((call.args()[1..].join("|") + "\n").into_bytes())))
}

/// Exits non-zero with a message on standard error.
fn fails() -> Cmd {
    cmd(|_| Ok(Exit::failed(3, b"it went wrong\n".to_vec())))
}

/// Upper-cases its standard input, so it works as a filter.
fn upper() -> Cmd {
    filter(|call| {
        Ok(Exit::from_stdout(String::from_utf8_lossy(&call.stdin).to_uppercase().into_bytes()))
    })
}

fn host_sandbox() -> Sand {
    built(plain().command("args", args()).command("upper", upper()).command("fails", fails()))
}

fn host_run(script: &str) -> Output {
    shell(&mut host_sandbox(), script).expect("the script should run")
}

#[test]
fn appears_as_a_program() {
    let sandbox = host_sandbox();
    assert!(sandbox.has_program("args"));
    let listed = sandbox.programs();
    let entry = listed.iter().find(|p| p.name == "args").unwrap();
    assert_eq!(entry.path, "/usr/bin/args");

    // And the guest agrees: `ls`, `which` and `test -x` all go through path resolution.
    let out = host_run("ls /usr/bin/args && test -x /usr/bin/args && echo yes");
    assert_eq!(out.stdout_string().trim(), "/usr/bin/args\nyes");
}

#[test]
fn receives_argv_and_the_environment() {
    let out = host_run("args one two 'three four'");
    assert_eq!(out.stdout_string().trim(), "one|two|three four");
}

#[test]
fn reads_the_environment() {
    let showenv = cmd(|call| {
        Ok(Exit::from_stdout(
            format!("{}\n", call.env("PICKED").unwrap_or_default()).into_bytes(),
        ))
    });
    let mut sandbox = built(
        Sandbox::builder()
            .mount("/", mem())
            .env("PICKED", "from-the-host")
            .command("showenv", showenv),
    );
    let out = shell(&mut sandbox, "showenv").unwrap();
    assert_eq!(out.stdout_string().trim(), "from-the-host");
}

#[test]
fn works_in_the_middle_of_a_pipeline() {
    // A guest, then a host command, then a guest again: the bytes have to cross both seams.
    let out = host_run("printf 'ab\\ncd\\n' | upper | sort -r");
    assert_eq!(out.stdout_string().trim(), "CD\nAB");
}

#[test]
fn output_can_be_redirected_and_read_back() {
    let out = host_run("args x y > /tmp/o.txt; wc -c < /tmp/o.txt");
    assert_eq!(out.stdout_string().trim(), "4");
}

#[test]
fn is_captured_by_command_substitution() {
    let out = host_run("echo \"[$(args a b)]\"");
    assert_eq!(out.stdout_string().trim(), "[a|b]");
}

#[test]
fn its_status_reaches_the_shell() {
    let out = host_run("fails; echo status=$?");
    assert_eq!(out.stdout_string().trim(), "status=3");
    assert_eq!(out.stderr_string(), "it went wrong\n");

    // And it participates in `&&` / `||` like anything else.
    let out = host_run("fails || echo recovered");
    assert_eq!(out.stdout_string().trim(), "recovered");
}

#[test]
fn a_command_that_does_not_read_stdin_does_not_wait_for_it() {
    // The failure this guards against: `args` as the first stage of a pipeline blocking on a
    // standard input nothing will ever close, because the kernel drained it unasked.
    let mut sandbox = host_sandbox();
    let mut session = spawn(&mut sandbox, |s| s.shell("args solo")).unwrap();
    let mut steps = 0;
    loop {
        steps += 1;
        assert!(steps < 10_000, "it should not spin");
        match session.step(&mut sandbox, Budget::unlimited()).unwrap() {
            Progress::Done(out) => {
                assert_eq!(out.stdout_string().trim(), "solo");
                return;
            }
            Progress::Yielded => {}
            Progress::Waiting(w) => panic!("it should not have waited: {w:?}"),
        }
    }
}

#[test]
fn again_suspends_and_the_retry_is_identical() {
    let calls = Rc::new(Cell::new(0));
    let counted = calls.clone();
    // Says `AGAIN` a fixed number of times before answering, the way an embedder awaiting an
    // HTTP response would.
    let mut remaining = 3;
    let slow = cmd(move |_| {
        counted.set(counted.get() + 1);
        remaining -= 1;
        if remaining > 0 {
            return Err(Errno::AGAIN);
        }
        Ok(Exit::from_stdout(b"eventually\n".to_vec()))
    });
    let mut sandbox = built(Sandbox::builder().mount("/", mem()).command("slow", slow));

    let mut session = spawn(&mut sandbox, |s| s.shell("slow")).unwrap();
    let mut waits = 0;
    let out = loop {
        match session.step(&mut sandbox, Budget::unlimited()).unwrap() {
            Progress::Done(out) => break out,
            Progress::Yielded => {}
            Progress::Waiting(Wait::Host) => waits += 1,
            Progress::Waiting(w) => panic!("unexpected wait: {w:?}"),
        }
    };
    assert_eq!(out.stdout_string().trim(), "eventually");
    assert_eq!(calls.get(), 3, "it was retried");
    assert_eq!(waits, 2, "each AGAIN surfaced as Wait::Host");
}

/// Runs a script to its end with two slow commands in it, and checks that neither is asked twice
/// between two steps of the caller. Gives the output, and how often each was asked.
fn patiently(script: &str, budget: Budget) -> (String, usize, usize) {
    let asked = [Rc::new(Cell::new(0)), Rc::new(Cell::new(0))];
    let slow = |count: &Rc<Cell<usize>>, word: &'static str| {
        let count = count.clone();
        cmd(move |_| {
            count.set(count.get() + 1);
            if count.get() < 4 {
                return Err(Errno::AGAIN);
            }
            Ok(Exit::from_stdout(word.as_bytes().to_vec()))
        })
    };
    let mut sandbox = built(
        plain().command("one", slow(&asked[0], "one\n")).command("two", slow(&asked[1], "two\n")),
    );
    let mut session = spawn(&mut sandbox, |s| s.shell(script)).unwrap();
    for _ in 0..10_000 {
        let before = [asked[0].get(), asked[1].get()];
        let step = session.step(&mut sandbox, budget).unwrap();
        assert!(asked[0].get() <= before[0] + 1, "the first was asked again in one step");
        assert!(asked[1].get() <= before[1] + 1, "the second was asked again in one step");
        match step {
            Progress::Done(out) => return (out.stdout_string(), asked[0].get(), asked[1].get()),
            Progress::Yielded => {}
            Progress::Waiting(w) => assert_eq!(w, Wait::Host),
        }
    }
    panic!("it is still running");
}

#[test]
fn two_commands_that_wait_are_each_asked_once_a_step() {
    let (out, one, two) = patiently("one | two | seq 1 3000 | sort -rn | head -1", Budget::unlimited());
    assert_eq!(out, "3000\n");
    assert_eq!((one, two), (4, 4));
}

#[test]
fn a_budget_that_ends_a_step_does_not_ask_again_sooner() {
    let (out, one, two) = patiently("one | two | seq 1 3000 | sort -rn | head -1", Budget::syscalls(1));
    assert_eq!(out, "3000\n");
    assert_eq!((one, two), (4, 4));
}

#[test]
fn an_error_is_its_number() {
    assert!(Errno::Raw(11).same_as(Errno::AGAIN));
    assert!(!Errno::Raw(12).same_as(Errno::AGAIN));
    // However it is written, it asks to be run again.
    let mut remaining = 2;
    let slow = cmd(move |_| {
        remaining -= 1;
        if remaining > 0 {
            return Err(Errno::Raw(11));
        }
        Ok(Exit::from_stdout(b"in the end\n".to_vec()))
    });
    let mut sandbox = built(plain().command("slow", slow));
    let mut session = spawn(&mut sandbox, |s| s.shell("slow")).unwrap();
    let step = session.step(&mut sandbox, Budget::unlimited()).unwrap();
    assert!(matches!(step, Progress::Waiting(Wait::Host)));
    assert_eq!(session.output(&mut sandbox).unwrap().stdout_string(), "in the end\n");
}

#[test]
fn kill_reaches_a_host_command() {
    let stuck = cmd(|_| Err(Errno::AGAIN));
    let mut sandbox = built(Sandbox::builder().mount("/", mem()).command("stuck", stuck));
    let mut patient = |script: &str| {
        let mut session = spawn(&mut sandbox, |s| s.shell(script)).unwrap();
        for _ in 0..1000 {
            if let Progress::Done(out) = session.step(&mut sandbox, Budget::unlimited()).unwrap() {
                return out;
            }
        }
        panic!("it is still running");
    };
    let out = patient("stuck | kill -15 2; echo over");
    assert_eq!(out.stdout_string(), "over\n");
    assert_eq!(out.status.code(), Some(0));
    // The command's status says which signal it was.
    assert_eq!(patient("kill -9 3 | stuck; echo $?").stdout_string(), "137\n");
}

#[test]
fn a_suspended_command_keeps_the_stdin_it_was_given() {
    // The contract says the retry gets the identical `Invocation`. If the kernel handed the
    // buffer away on the first call, the second would see an empty standard input.
    let seen = Rc::new(RefCell::new(Vec::new()));
    let noted = seen.clone();
    let consume = filter(move |call| {
        noted.borrow_mut().push(String::from_utf8_lossy(&call.stdin).into_owned());
        if noted.borrow().len() == 1 {
            return Err(Errno::AGAIN);
        }
        Ok(Exit::from_stdout(call.stdin.clone()))
    });
    let mut sandbox = built(Sandbox::builder().mount("/", mem()).command_at(
        "consume",
        "/usr/bin/consume",
        consume,
    ));

    let mut session = spawn(&mut sandbox, |s| s.shell("printf 'payload' | consume")).unwrap();
    let out = loop {
        if let Progress::Done(out) = session.step(&mut sandbox, Budget::unlimited()).unwrap() {
            break out;
        }
    };
    assert_eq!(out.stdout_string(), "payload");
    let seen = seen.borrow();
    assert_eq!(seen.len(), 2, "it ran twice");
    assert_eq!(seen[0], "payload");
    assert_eq!(seen[1], "payload", "the retry saw the same input");
}

#[test]
fn a_host_command_replaces_an_applet_of_the_same_name() {
    // The documented way to override a shipped tool.
    let fake = cmd(|_| Ok(Exit::from_stdout(b"not the real echo\n".to_vec())));
    let mut sandbox =
        built(Sandbox::builder().mount("/", mem()).command_at("echo", "/bin/echo", fake));
    let out = shell(&mut sandbox, "/bin/echo hello").unwrap();
    assert_eq!(out.stdout_string().trim(), "not the real echo");
}

#[test]
fn a_host_command_of_a_shipped_name_is_the_only_one() {
    let fake = cmd(|_| Ok(Exit::from_stdout(b"not the real echo\n".to_vec())));
    let mut sandbox = built(Sandbox::builder().mount("/", mem()).command("echo", fake));
    let listed: Vec<String> = sandbox
        .programs()
        .into_iter()
        .filter(|p| p.name == "echo")
        .map(|p| p.path)
        .collect();
    assert_eq!(listed, ["/usr/bin/echo"]);
    assert_eq!(said(&mut sandbox, "/usr/bin/echo hello"), "not the real echo");
    // Where the shipped one was there is nothing.
    assert_eq!(said(&mut sandbox, "/bin/echo hello 2>/dev/null || /usr/bin/echo"), "not the real echo");
}

#[test]
fn a_retry_sees_the_same_input_though_the_file_has_grown() {
    let seen = Rc::new(RefCell::new(Vec::new()));
    let noted = seen.clone();
    let consume = filter(move |call| {
        noted.borrow_mut().push(call.stdin.clone());
        if noted.borrow().len() < 3 {
            return Err(Errno::AGAIN);
        }
        Ok(Exit::from_stdout(call.stdin.clone()))
    });
    let mut sandbox = built(plain().command("consume", consume));
    let mut session =
        spawn(&mut sandbox, |s| s.shell("printf 'first' > /tmp/f; consume < /tmp/f")).unwrap();
    let out = loop {
        match session.step(&mut sandbox, Budget::unlimited()).unwrap() {
            Progress::Done(out) => break out,
            _ => {
                let opts = OpenOptions { append: true, ..OpenOptions::write() };
                let opts = OpenOptions { truncate: false, ..opts };
                let mut file = sandbox.mounts.open(1, "/f", &opts).unwrap();
                sandbox.mounts.file_write(1, &mut file, b" and more").unwrap();
            }
        }
    };
    assert_eq!(out.stdout_string(), "first");
    assert_eq!(*seen.borrow(), vec![b"first".to_vec(); 3]);
}

#[test]
fn a_command_that_needs_stdin_gets_all_of_it() {
    // More than one pipe buffer's worth, so the read loop has to go round.
    let out = host_run("seq 1 5000 | upper | wc -c");
    let expected: usize = (1..=5000).map(|n: i32| n.to_string().len() + 1).sum();
    assert_eq!(out.stdout_string().trim(), expected.to_string());
}

#[test]
fn several_host_commands_run_in_one_pipeline() {
    let out = host_run("args a b | upper | upper");
    assert_eq!(out.stdout_string().trim(), "A|B");
}

#[test]
fn a_failing_command_does_not_take_the_sandbox_down() {
    // Not `AGAIN`: a genuine error from trying to run it at all.
    let boom = cmd(|_| Err(Errno::IO));
    let mut sandbox = built(Sandbox::builder().mount("/", mem()).command("boom", boom));
    let out = shell(&mut sandbox, "boom; echo still here").unwrap();
    assert_eq!(out.stdout_string().trim(), "still here");
    assert!(
        out.stderr_string().contains("boom"),
        "the reason should name the command: {:?}",
        out.stderr_string()
    );
    assert_eq!(out.stderr_string(), "wasmux: boom: EIO\n");
}

// ---------------------------------------------------------------------------------------------
// isolation

fn sandbox_with(vfs: Disk) -> Sand {
    built(plain().mount("/work", vfs))
}

#[test]
fn a_guest_cannot_climb_out_of_its_mounts() {
    let reads = Rc::new(Cell::new(0));
    let watched = Disk::Watched {
        inner: MemVfs::new().with_file("/inside.txt", b"secret".to_vec()),
        reads: reads.clone(),
    };
    let mut sandbox = sandbox_with(watched);

    // Every one of these is an attempt to name something outside /work. None may succeed, and
    // the assertions inside `Watched` fail the test if a `..` ever reaches the filesystem.
    for attempt in [
        "cat /work/../etc/passwd",
        "cat /work/../../../../etc/passwd",
        "cd /work && cat ../../../../etc/passwd",
        "cat /work/./../work/../../etc/shadow",
        "cat //work/..//..//etc/passwd",
    ] {
        let script = format!("{attempt} 2>/dev/null; echo rc=$?");
        assert_eq!(said(&mut sandbox, &script), "rc=1", "{attempt} should have failed");
    }
    // The file that is genuinely inside is readable, so the test is not passing vacuously.
    assert_eq!(said(&mut sandbox, "cat /work/inside.txt"), "secret");
    assert!(reads.get() > 0);
}

#[test]
fn a_read_only_mount_refuses_every_way_of_writing() {
    let ro = MemVfs::new().with_file("/f.txt", b"fixed".to_vec()).with_dir("/d");
    let mut sandbox = built(plain().mount_ro("/ro", Disk::Mem(ro)));
    for attempt in [
        "echo x > /ro/new",
        "echo x >> /ro/f.txt",
        "rm /ro/f.txt",
        "mkdir /ro/d2",
        "rmdir /ro/d",
        "mv /ro/f.txt /ro/g.txt",
        "cp /etc/hostname /ro/copy",
        "touch /ro/f.txt2",
        "ln -s /ro/f.txt /ro/link",
    ] {
        let script = format!("{attempt} 2>/dev/null; echo rc=$?");
        assert_ne!(said(&mut sandbox, &script), "rc=0", "{attempt} should have been refused");
    }
    assert_eq!(said(&mut sandbox, "cat /ro/f.txt"), "fixed", "reading still works");
}

#[test]
fn there_is_no_network() {
    let mut sandbox = sandbox_with(mem());
    // No socket syscall is implemented, and no networking tool is compiled in. Both halves
    // matter: the first is the guarantee, the second is what an agent would reach for.
    for name in ["wget", "nc", "curl", "ftpget", "telnet", "ssl_client"] {
        assert!(!sandbox.has_program(name), "{name} must not be available");
    }
    assert_eq!(said(&mut sandbox, "wget http://example.com 2>/dev/null; echo rc=$?"), "rc=127");
}

#[test]
fn programs_cannot_be_read_or_replaced() {
    let mut sandbox = sandbox_with(mem());
    // A program is executable and nothing else: it cannot be copied out, and it cannot be
    // overwritten to make the sandbox run something else next time.
    assert_eq!(said(&mut sandbox, "wc -c < /bin/busybox"), "0");
    assert_ne!(said(&mut sandbox, "echo x > /bin/sh 2>/dev/null; echo rc=$?"), "rc=0");
    assert_ne!(said(&mut sandbox, "rm /bin/sh 2>/dev/null; echo rc=$?"), "rc=0");
    assert_eq!(said(&mut sandbox, "echo still-here | sh -c 'cat'"), "still-here");
}

#[test]
fn a_narrowed_program_list_is_all_the_guest_gets() {
    let names = vec!["sh".to_string(), "echo".to_string(), "cat".to_string()];
    let mut sandbox = built(Sandbox::builder().mount("/", mem()).programs(names));
    let names: Vec<String> = sandbox.programs().into_iter().map(|p| p.name).collect();
    assert_eq!(names, vec!["cat".to_string(), "echo".to_string(), "sh".to_string()]);
    assert_eq!(said(&mut sandbox, "echo yes"), "yes");
    // The paths are gone, which is what stops another program from execing them.
    assert_eq!(said(&mut sandbox, "test -e /bin/sed; echo rc=$?"), "rc=1");
    assert_eq!(said(&mut sandbox, "test -e /bin/ls; echo rc=$?"), "rc=1");
    // But the tools are one binary, and its shell starts them by executing itself, so the
    // shell can still run `sed`. Narrowing this list controls the namespace, not what a shell
    // can do; see the note on `Builder::programs`.
    assert_eq!(said(&mut sandbox, "echo a | sed s/a/b/"), "b");
}

#[test]
fn a_runaway_process_count_is_refused_not_fatal() {
    let limits = Limits { processes: 4, ..Limits::default() };
    let mut sandbox = built(Sandbox::builder().mount("/", mem()).limits(limits));
    // Far more processes than the limit allows. The shell survives and says so; the sandbox
    // does not fall over.
    let out = shell(&mut sandbox, "for i in 1 2 3 4 5 6 7 8; do true; done; echo alive")
        .expect("run");
    assert!(out.stdout_string().contains("alive"), "stdout was {:?}", out.stdout_string());
}

#[test]
fn output_is_capped_and_says_so() {
    let limits = Limits { output: 4096, ..Limits::default() };
    let mut sandbox = built(Sandbox::builder().mount("/", mem()).limits(limits));
    let out = shell(&mut sandbox, "seq 1 100000").expect("run");
    assert!(out.stdout.len() <= 4096, "kept {} bytes", out.stdout.len());
    assert!(out.truncated(), "the caller must be told that output was dropped");
    assert!(out.dropped > 0);
    // Nothing is lost track of: what was kept and what was dropped is what was written.
    let whole: usize = (1..=100_000).map(|n: i32| n.to_string().len() + 1).sum();
    assert_eq!(out.stdout.len() as u64 + out.dropped, whole as u64);
}

#[test]
fn a_memory_limit_becomes_an_error_inside_the_guest() {
    let limits =
        Limits { memory: 24 << 20, memory_per_process: 8 << 20, ..Limits::default() };
    let mut sandbox = built(plain().limits(limits));
    // Ask for far more than the limit. Whatever happens, the session returns and the host is
    // still standing; that is the property under test.
    let out = shell(&mut sandbox, "seq 1 2000000 | sort > /tmp/big; echo done");
    assert!(out.is_ok(), "the session must return an answer, got {out:?}");
    let out = out.unwrap();
    assert_eq!(out.stdout_string().trim(), "done");
    assert_eq!(out.stderr_string(), "sort: out of memory\n");
}

#[test]
fn a_vfs_that_fails_does_not_take_the_sandbox_with_it() {
    let mut sandbox = sandbox_with(Disk::Broken);
    assert_eq!(said(&mut sandbox, "cat /work/anything 2>/dev/null; echo rc=$?"), "rc=1");
    assert_eq!(said(&mut sandbox, "ls /work 2>/dev/null; echo rc=$?"), "rc=1");
    assert_eq!(said(&mut sandbox, "echo the shell is fine"), "the shell is fine");
}

#[test]
fn the_environment_is_only_what_was_given() {
    let mut sandbox =
        built(Sandbox::builder().mount("/", mem()).clear_env().env("ONLY", "this"));
    let out = said(&mut sandbox, "env | sort");
    // The shell adds its own variables; what matters is that nothing from the host leaked in.
    assert!(out.contains("ONLY=this"), "got {out:?}");
    for leaked in ["HOME=/home", "USER=", "CARGO", "PWD=/home"] {
        assert!(!out.contains(leaked), "{leaked} leaked into the guest: {out}");
    }
}

/// Arguments are bytes, and a program is entitled to put anything in them: `timeout` executes
/// itself again as `\xF4imeout`, the high bit of the first letter being its mark.
#[test]
fn arguments_survive_bytes_that_are_not_utf8() {
    let mut sandbox = built(Sandbox::builder().mount("/", mem()));

    // `printf` produces the byte and `hexdump` reads it back, so the whole trip stays inside
    // the guest and nothing here has to be able to spell it.
    let out = shell(&mut sandbox, r#"printf '\364imeout' | hexdump -e '16/1 "%02x"'"#)
        .expect("it should run");
    assert_eq!(
        out.stdout_string().trim(),
        "f4696d656f7574",
        "the byte must survive: {:?}",
        out.stdout_string()
    );

    // And the applet that depends on it works.
    let out = shell(&mut sandbox, "timeout 5 echo alive").expect("it should run");
    assert_eq!(out.stdout_string().trim(), "alive");
    assert!(
        out.stderr_string().is_empty(),
        "no diagnostics expected: {:?}",
        out.stderr_string()
    );
}

// ---------------------------------------------------------------------------------------------
// the terminal a session can be given, and what it means to leave it alone

fn tty_sandbox() -> Sand {
    built(plain())
}

fn tty_output(script: &str, columns: u16, rows: u16) -> Output {
    output(&mut tty_sandbox(), |s| {
        s.command("sh").arg("-c").arg(script).terminal(columns, rows)
    })
    .expect("run")
}

#[test]
fn without_a_terminal_the_guest_is_told_there_is_none() {
    let script = "[ -t 0 ] && echo yes || echo no; [ -t 1 ] && echo yes || echo no";
    let out = shell(&mut tty_sandbox(), script).expect("run");
    assert_eq!(out.stdout_string().trim(), "no\nno");
}

#[test]
fn without_a_terminal_stty_refuses_the_way_it_would_on_a_pipe() {
    let out = shell(&mut tty_sandbox(), "stty -a 2>&1 | head -1").expect("run");
    assert!(
        out.stdout_string().contains("Not a tty"),
        "expected ENOTTY, got {:?}",
        out.stdout_string()
    );
}

/// The shell's own output must not gain a prompt when nobody asked for a terminal, because
/// that output is what an agent reads.
#[test]
fn without_a_terminal_nothing_is_added_to_the_output() {
    let out = shell(&mut tty_sandbox(), "echo one; echo two").expect("run");
    assert_eq!(out.stdout_string(), "one\ntwo\n");
}

#[test]
fn the_guest_is_told_its_streams_are_a_terminal() {
    let out = tty_output("[ -t 0 ] && echo yes || echo no", 100, 40);
    assert_eq!(out.stdout_string().trim(), "yes");
}

#[test]
fn the_size_the_embedder_gave_is_the_size_the_guest_sees() {
    let out = tty_output("stty size", 100, 40);
    // `stty size` prints rows then columns, which is the order of the struct and the reverse
    // of the order they are passed in.
    assert_eq!(out.stdout_string().trim(), "40 100");
}

/// The host has to follow the guest, so what the guest set has to survive being read back.
#[test]
fn settings_written_by_the_guest_come_back_out() {
    let out = tty_output("stty -echo; stty -a 2>&1 | grep -o -- '-echo' | head -1", 80, 24);
    assert_eq!(out.stdout_string().trim(), "-echo");
}

/// A session that was never given a terminal must report false rather than panic, so a host
/// can poll it unconditionally.
#[test]
fn a_session_without_a_terminal_is_never_raw() {
    let mut sandbox = tty_sandbox();
    let mut running = spawn(&mut sandbox, |s| s.shell("echo hi")).expect("spawn");
    assert!(!running.session.terminal_raw());
    assert!(!running.session.terminal_signals());
    while let Progress::Yielded | Progress::Waiting(_) =
        running.step(&mut sandbox, Budget::syscalls(10_000)).expect("step")
    {
        assert!(!running.session.terminal_raw());
    }
}

/// Canonical mode is the state a terminal starts in: the host is still doing the echoing until
/// the guest says otherwise.
#[test]
fn a_fresh_terminal_is_not_raw() {
    let mut sandbox = tty_sandbox();
    let running = spawn(&mut sandbox, |s| {
        s.command("sh").arg("-c").arg("echo hi").terminal(80, 24)
    })
    .expect("spawn");
    assert!(!running.session.terminal_raw());
    assert!(running.session.terminal_signals());
}

/// The whole point of `terminal_raw`: a guest that turns off canonical mode is asking the host
/// to stop echoing, and the host can only find out by being told.
#[test]
fn turning_off_canonical_mode_is_visible_to_the_host() {
    let mut sandbox = tty_sandbox();
    let mut running = spawn(&mut sandbox, |s| {
        s.command("sh").arg("-c").arg("stty -icanon -echo; echo done").terminal(80, 24)
    })
    .expect("spawn");
    // A step at a time, because a generous budget runs the whole script inside one and the
    // state to observe is the one during it.
    let mut went_raw = false;
    loop {
        let progress = running.step(&mut sandbox, Budget::syscalls(1)).expect("step");
        went_raw |= running.session.terminal_raw();
        if matches!(progress, Progress::Done(_)) {
            break;
        }
    }
    assert!(went_raw, "the host was never told the guest wanted raw mode");
}

// ---------------------------------------------------------------------------------------------
// waiting

#[test]
fn a_slow_filesystem_suspends_the_process_that_asked() {
    let inner = MemVfs::new().with_file("/notes.txt", b"worth the wait\n".to_vec());
    let mut sandbox = sandbox_with(Disk::Slow { inner, left: Cell::new(3) });
    let mut running = spawn(&mut sandbox, |s| s.shell("cat /work/notes.txt")).unwrap();
    let mut waits = 0;
    let out = loop {
        match running.step(&mut sandbox, Budget::unlimited()).unwrap() {
            Progress::Done(out) => break out,
            Progress::Yielded => {}
            Progress::Waiting(Wait::Vfs) => waits += 1,
            Progress::Waiting(w) => panic!("unexpected wait: {w:?}"),
        }
    };
    assert_eq!(out.stdout_string(), "worth the wait\n");
    assert_eq!(waits, 3);
}

#[test]
fn running_to_completion_cannot_await_anything() {
    let inner = MemVfs::new().with_file("/notes.txt", b"x".to_vec());
    let mut sandbox = sandbox_with(Disk::Slow { inner, left: Cell::new(1) });
    let e = shell(&mut sandbox, "cat /work/notes.txt").unwrap_err();
    assert!(matches!(e, Error::WouldBlock));
    assert_eq!(
        e.message(),
        "the filesystem needs to be awaited; drive this command with Session::step"
    );
}

#[test]
fn standard_input_is_asked_for_and_ends() {
    let mut sandbox = tty_sandbox();
    let mut running = spawn(&mut sandbox, |s| s.shell("cat").interactive_stdin()).unwrap();
    let step = running.step(&mut sandbox, Budget::unlimited()).unwrap();
    assert!(matches!(step, Progress::Waiting(Wait::Stdin)));
    running.session.write_stdin(b"one\n");
    let step = running.step(&mut sandbox, Budget::unlimited()).unwrap();
    assert!(matches!(step, Progress::Waiting(Wait::Stdin)));
    assert_eq!(running.session.take_stdout(), b"one\n");
    running.session.write_stdin(b"two\n");
    running.session.close_stdin();
    let step = running.step(&mut sandbox, Budget::unlimited()).unwrap();
    let Progress::Done(out) = step else { panic!("not done: {step:?}") };
    // Streaming takes nothing away from what is collected at the end.
    assert_eq!(out.stdout_string(), "one\ntwo\n");
    // And collecting takes nothing away from what is streamed.
    assert_eq!(running.session.take_stdout(), b"two\n");
    assert!(running.session.take_stdout().is_empty());
}

#[test]
fn given_standard_input_is_read_to_its_end() {
    let mut sandbox = tty_sandbox();
    let out = output(&mut sandbox, |s| s.shell("sort -r").stdin(b"a\nc\nb\n".to_vec())).unwrap();
    assert_eq!(out.stdout_string(), "c\nb\na\n");
}

#[test]
fn a_sleeper_says_how_long() {
    let mut sandbox = tty_sandbox();
    let mut running = spawn(&mut sandbox, |s| s.shell("sleep 5; echo up")).unwrap();
    let step = running.step(&mut sandbox, Budget::unlimited()).unwrap();
    let Progress::Waiting(Wait::Until(rest)) = step else { panic!("{step:?}") };
    assert!(rest > 4_900_000_000 && rest <= 5_000_000_000, "{rest}");
    running.now += rest;
    let out = running.output(&mut sandbox).unwrap();
    assert_eq!(out.stdout_string(), "up\n");
}

#[test]
fn the_wall_clock_ends_the_session() {
    let limits = Limits { wall_clock: Some(1_000_000_000), ..Limits::default() };
    let mut sandbox = built(plain().limits(limits));
    let out = shell(&mut sandbox, "sleep 3600").unwrap();
    assert_eq!(out.status.signal(), Some(9));
    assert_eq!(out.status.code(), None);
    assert_eq!(out.status.shell_code(), 137);
    assert!(!out.status.success());
    assert_eq!(out.status.message(), "killed by signal 9");
}

#[test]
fn a_budget_of_syscalls_yields() {
    let mut sandbox = tty_sandbox();
    let mut running = spawn(&mut sandbox, |s| s.shell("seq 1 2000 | sort -rn | head -1")).unwrap();
    let mut yields = 0;
    let out = loop {
        match running.step(&mut sandbox, Budget::syscalls(1)).unwrap() {
            Progress::Done(out) => break out,
            Progress::Yielded => yields += 1,
            Progress::Waiting(w) => panic!("{w:?}"),
        }
    };
    assert!(yields > 1);
    assert_eq!(out.stdout_string(), "2000\n");
    assert!(running.session.syscall_count() > 10);
    assert_eq!(running.session.process_count(), 0);
}

#[test]
fn waiting_for_nothing_is_a_deadlock() {
    // It reads a pipe whose only writing end is its own.
    let mut sandbox = tty_sandbox();
    let e = shell(&mut sandbox, "hang").unwrap_err();
    assert!(matches!(e, Error::Deadlock));
    assert_eq!(e.message(), "every process is blocked with nothing to wait for");
}

#[test]
fn a_spawned_command_has_not_run_yet() {
    let sandbox = tty_sandbox();
    let (mut session, first) = sandbox.shell("echo here").spawn().ok().unwrap();
    assert_eq!(first.task.pid, 1);
    assert_eq!((session.process_count(), session.syscall_count()), (1, 0));
    assert!(session.take_stdout().is_empty() && session.take_stderr().is_empty());
}

#[test]
fn whoever_wanted_input_and_is_gone_wants_it_no_longer() {
    let mut sandbox = tty_sandbox();
    let mut running =
        spawn(&mut sandbox, |s| s.shell("cat | kill -9 2; hang").interactive_stdin()).unwrap();
    let e = running.step(&mut sandbox, Budget::unlimited()).unwrap_err();
    assert!(matches!(e, Error::Deadlock));
}

#[test]
fn a_finished_session_stays_finished() {
    let mut sandbox = tty_sandbox();
    let mut running = spawn(&mut sandbox, |s| s.shell("echo once; exit 7")).unwrap();
    let first = loop {
        if let Progress::Done(out) = running.step(&mut sandbox, Budget::unlimited()).unwrap() {
            break out;
        }
    };
    assert_eq!(first.stdout_string(), "once\n");
    assert_eq!(first.status.code(), Some(7));
    assert_eq!(first.status.message(), "exit status 7");
    let Progress::Done(again) = running.step(&mut sandbox, Budget::unlimited()).unwrap() else {
        panic!("it was finished")
    };
    assert_eq!(again.status, first.status);
    assert_eq!(again.stdout, first.stdout);
    assert_eq!(again.stderr, first.stderr);
    assert_eq!(running.session.take_stdout(), b"once\n");
}

// ---------------------------------------------------------------------------------------------
// processes

#[test]
fn a_writer_into_a_closed_pipe_is_killed() {
    assert_eq!(said(&mut tty_sandbox(), "yes | head -3 | tr '\\n' ' '"), "y y y");
}

#[test]
fn a_killed_child_is_reported_as_one() {
    assert_eq!(said(&mut tty_sandbox(), "sh -c 'kill -9 $$'; echo $?"), "137");
}

#[test]
fn a_script_runs_its_interpreter() {
    let script = "printf '#!/bin/sh\\necho from-a-script\\n' > /tmp/x.sh; /tmp/x.sh";
    assert_eq!(said(&mut tty_sandbox(), script), "from-a-script");
    // What the guest wrote is no program, and a directory is none either.
    assert_eq!(said(&mut tty_sandbox(), "printf 'junk' > /tmp/y; /tmp/y 2>/dev/null; echo $?"), "127");
    assert_eq!(said(&mut tty_sandbox(), "/tmp 2>/dev/null; echo $?"), "127");
}

#[test]
fn a_program_can_be_named_by_its_path() {
    let mut sandbox = tty_sandbox();
    let out = output(&mut sandbox, |s| s.command("/bin/echo").arg("here")).unwrap();
    assert_eq!(out.stdout_string(), "here\n");
    let e = output(&mut sandbox, |s| s.command("/bin/nothing")).unwrap_err();
    assert_eq!(e.message(), "no such program: /bin/nothing");
}

#[test]
fn the_working_directory_and_the_environment_are_the_commands_own() {
    let mut sandbox = built(plain().env("A", "one").current_dir("/tmp"));
    assert_eq!(said(&mut sandbox, "pwd; echo $A"), "/tmp\none");
    let out = output(&mut sandbox, |s| {
        s.shell("pwd; echo $A; echo $HOME").current_dir("/").env("A", "two")
    })
    .unwrap();
    assert_eq!(out.stdout_string(), "/\ntwo\n/\n");
}

#[test]
fn ordinary_shell_cases() {
    let cases = [
        ("echo hello", "hello"),
        ("x=hello; echo \"$x\"", "hello"),
        ("echo 'a  b' \"c  d\"", "a  b c  d"),
        ("echo \"$(echo nested $(echo deep))\"", "nested deep"),
        ("for i in 1 2 3; do printf $i; done", "123"),
        ("true && echo a; false || echo b", "a\nb"),
        ("echo one two three | tr ' ' '\\n' | wc -l", "3"),
        ("seq 1 20 | grep -v 5 | sort -rn | head -3 | tr '\\n' ' '", "20 19 18"),
        ("echo saved > /tmp/f; cat < /tmp/f", "saved"),
        ("echo one > /tmp/g; echo two >> /tmp/g; cat /tmp/g", "one\ntwo"),
        ("sh -c 'cat /nowhere' 2>/tmp/e; wc -l < /tmp/e", "1"),
        ("echo hidden > /dev/null; echo shown", "shown"),
        ("sh -c 'exit 5'; echo $?", "5"),
        ("/nonexistent 2>/dev/null; echo $?", "127"),
        ("readlink /proc/self/exe", "/bin/sh"),
        ("mkdir /tmp/a; test -d /tmp/a && rmdir /tmp/a && echo ok", "ok"),
        ("touch /tmp/y /tmp/x; ls /tmp", "x\ny"),
        ("echo v > /tmp/a1; mv /tmp/a1 /tmp/a2; cat /tmp/a2", "v"),
        ("printf '12345' > /tmp/s; wc -c < /tmp/s", "5"),
        ("ln -s /tmp/t /tmp/l; echo through > /tmp/t; cat /tmp/l; readlink /tmp/l", "through\n/tmp/t"),
        ("cat ../../../etc/passwd 2>/dev/null; echo $?", "1"),
        ("wc -c < /bin/busybox", "0"),
        ("seq 1 10 | tail -2 | head -1", "9"),
        ("uname", "Linux"),
        ("ls /dev", "fd\nnull\nrandom\nstderr\nstdin\nstdout\ntty\nurandom\nzero"),
        ("cat /proc/self/comm", "cat"),
        ("cat /proc/mounts", "wasmux / wasmux rw,relatime 0 0\nwasmux /tmp wasmux rw,relatime 0 0\nproc /proc proc rw,relatime 0 0"),
    ];
    for (script, expected) in cases {
        assert_eq!(said(&mut tty_sandbox(), script), expected, "{script}");
    }
}

#[test]
fn the_mounts_survive_the_session() {
    let mut sandbox = sandbox_with(Disk::Mem(MemVfs::new()));
    assert_eq!(said(&mut sandbox, "echo kept > /work/f"), "");
    assert_eq!(said(&mut sandbox, "cat /work/f"), "kept");
}

#[test]
fn close_says_what_the_mount_says() {
    let errors = vec![Errno::IO, Errno::AGAIN, Errno::AGAIN];
    let mut fs = Mounts::new();
    let vfs = Disk::Grudging { inner: MemVfs::new(), errors };
    fs.push(Mount { at: "/".to_string(), vfs, read_only: false });
    let programs = vec![ProgramEntry { name: "sh".to_string(), kind: ProgramKind::Guest }];
    let mut kernel: Kernel<MemFile> = Kernel::new(Overlay::new(), programs, Limits::default());
    let first = kernel
        .spawn_first(0, "/bin/sh".to_string(), vec![b"sh".to_vec()], vec![], "/".to_string())
        .ok()
        .unwrap();
    let (ctx, _) = kernel.launch(first);
    assert_eq!(kernel.install_guest(0, ctx, 65536, Some(1)).ok(), Some(0));
    let mut memory = vec![0u8; 65536];
    memory[64..66].copy_from_slice(b"/f");
    let clock = Clock { elapsed: 0, realtime: 0, uptime: "0.00".to_string() };
    let mut call = |number: i32, a0: i32, a1: i32, a2: i32| {
        let call = Call { number, a0, a1, a2, a3: 0o644, a4: 0, a5: 0 };
        let ctx = &mut kernel.procs[0].ctx;
        match dispatch(&mut kernel.shared, ctx, &mut fs, &mut memory, &clock, call) {
            Outcome::Value(v) => Some(v),
            Outcome::Blocked => None,
            other => panic!("{other:?}"),
        }
    };
    let create = (O_WRONLY | O_CREAT) as i32;
    assert_eq!(call(nr::OPENAT, AT_FDCWD, 64, create), Some(3));
    // A copy keeps the file open, so that closing it asks the mount nothing.
    assert_eq!(call(nr::DUP, 3, 0, 0), Some(4));
    assert_eq!(call(nr::CLOSE, 4, 0, 0), Some(0));
    // The mount asks to be waited for, twice, and the descriptor is still there.
    assert_eq!(call(nr::CLOSE, 3, 0, 0), None);
    assert_eq!(call(nr::CLOSE, 3, 0, 0), None);
    // It fails, and the descriptor is gone all the same.
    assert_eq!(call(nr::CLOSE, 3, 0, 0), Some(-Errno::IO.number()));
    assert_eq!(call(nr::CLOSE, 3, 0, 0), Some(-Errno::BADF.number()));
    assert_eq!(call(nr::OPENAT, AT_FDCWD, 64, 0), Some(3));
    assert_eq!(call(nr::CLOSE, 3, 0, 0), Some(0));
}

#[test]
fn a_mapping_that_waits_grows_the_memory_once() {
    let inner = MemVfs::new().with_file("/f", b"0123456789".to_vec());
    let mut fs = Mounts::new();
    let vfs = Disk::Late { inner, reads: Cell::new(2) };
    fs.push(Mount { at: "/".to_string(), vfs, read_only: true });
    let programs = vec![ProgramEntry { name: "sh".to_string(), kind: ProgramKind::Guest }];
    let mut kernel: Kernel<MemFile> = Kernel::new(Overlay::new(), programs, Limits::default());
    let first = kernel
        .spawn_first(0, "/bin/sh".to_string(), vec![b"sh".to_vec()], vec![], "/".to_string())
        .ok()
        .unwrap();
    let (ctx, _) = kernel.launch(first);
    assert_eq!(kernel.charge_guest(PAGE as u64).ok(), Some(17 * PAGE as u64));
    assert_eq!(kernel.install_guest(0, ctx, 17 * PAGE as u64, Some(1)).ok(), Some(0));
    let mut memory = vec![0u8; 17 * PAGE];
    memory[64..66].copy_from_slice(b"/f");
    let clock = Clock { elapsed: 0, realtime: 0, uptime: "0.00".to_string() };
    let call = |number: i32, a: [i32; 6]| Call {
        number,
        a0: a[0],
        a1: a[1],
        a2: a[2],
        a3: a[3],
        a4: a[4],
        a5: a[5],
    };
    let mut serve = |kernel: &mut Kernel<MemFile>, memory: &mut Vec<u8>, c: Call| {
        dispatch(&mut kernel.shared, &mut kernel.procs[0].ctx, &mut fs, memory, &clock, c)
    };
    let open = call(nr::OPENAT, [AT_FDCWD, 64, 0, 0, 0, 0]);
    assert_eq!(serve(&mut kernel, &mut memory, open), Outcome::Value(3));
    let read = call(nr::READ, [3, 128, 4, 0, 0, 0]);
    let map = call(nr::MMAP, [0, 8, 1, 2, 3, 0]);
    // Twice the file is to be waited for, and nothing is charged or grown.
    for _ in 0..2 {
        assert_eq!(serve(&mut kernel, &mut memory, map), Outcome::Blocked);
        assert_eq!(kernel.shared.memory_used, 17 * PAGE as u64);
        assert_eq!(memory.len(), 17 * PAGE);
    }
    assert_eq!(serve(&mut kernel, &mut memory, map), Outcome::Grow(1));
    assert_eq!(kernel.shared.memory_used, 18 * PAGE as u64);
    memory.resize(18 * PAGE, 0);
    let empty: Mounts<Disk> = Mounts::new();
    let ctx = &mut kernel.procs[0].ctx;
    let done = dispatch_grown(&mut kernel.shared, ctx, &empty, &mut memory, map, Some(17));
    assert_eq!(done, Outcome::Value(17 * PAGE as i32));
    assert_eq!(&memory[17 * PAGE..17 * PAGE + 9], b"01234567\0");
    // The position is where it was.
    assert_eq!(serve(&mut kernel, &mut memory, read), Outcome::Value(4));
    assert_eq!(&memory[128..132], b"0123");
    // What the engine refuses is given back.
    assert_eq!(serve(&mut kernel, &mut memory, map), Outcome::Grow(1));
    assert_eq!(kernel.shared.memory_used, 19 * PAGE as u64);
    let ctx = &mut kernel.procs[0].ctx;
    let done = dispatch_grown(&mut kernel.shared, ctx, &empty, &mut memory, map, None);
    assert_eq!(done, Outcome::Value(-Errno::NOMEM.number()));
    assert_eq!(kernel.shared.memory_used, 18 * PAGE as u64);
    let mut none: Mounts<Disk> = Mounts::new();
    kernel.finish_process(&mut none, 0, 0);
    assert_eq!(kernel.shared.memory_used, 0);
}

#[test]
fn a_mapping_waits_for_its_file_to_be_put_back() {
    let inner = MemVfs::new().with_file("/f", b"0123456789".to_vec());
    let mut fs = Mounts::new();
    // Where it is, where the mapping begins, and where it was: the third one is to be waited for.
    let vfs = Disk::Stiff { inner, seeks: Cell::new(3) };
    fs.push(Mount { at: "/".to_string(), vfs, read_only: false });
    let programs = vec![ProgramEntry { name: "sh".to_string(), kind: ProgramKind::Guest }];
    let mut kernel: Kernel<MemFile> = Kernel::new(Overlay::new(), programs, Limits::default());
    let first = kernel
        .spawn_first(0, "/bin/sh".to_string(), vec![b"sh".to_vec()], vec![], "/".to_string())
        .ok()
        .unwrap();
    let (ctx, _) = kernel.launch(first);
    assert_eq!(kernel.install_guest(0, ctx, 0, Some(1)).ok(), Some(0));
    let mut memory = vec![0u8; PAGE];
    memory[64..66].copy_from_slice(b"/f");
    let clock = Clock { elapsed: 0, realtime: 0, uptime: "0.00".to_string() };
    let mut serve = |kernel: &mut Kernel<MemFile>, memory: &mut Vec<u8>, number: i32, a: [i32; 6]| {
        let c = Call { number, a0: a[0], a1: a[1], a2: a[2], a3: a[3], a4: a[4], a5: a[5] };
        dispatch(&mut kernel.shared, &mut kernel.procs[0].ctx, &mut fs, memory, &clock, c)
    };
    let open = serve(&mut kernel, &mut memory, nr::OPENAT, [AT_FDCWD, 64, 0, 0, 0, 0]);
    assert_eq!(open, Outcome::Value(3));
    let read = serve(&mut kernel, &mut memory, nr::READ, [3, 128, 4, 0, 0, 0]);
    assert_eq!(read, Outcome::Value(4));
    let map = serve(&mut kernel, &mut memory, nr::MMAP, [0, 10, 1, 2, 3, 0]);
    assert_eq!(map, Outcome::Blocked);
    assert_eq!(kernel.shared.memory_used, 0);
    assert!(kernel.shared.vfs_pending);
    let map = serve(&mut kernel, &mut memory, nr::MMAP, [0, 10, 1, 2, 3, 0]);
    assert_eq!(map, Outcome::Grow(1));
    assert_eq!(kernel.procs[0].ctx.state.staged, b"0123456789");
    // It goes on where it was.
    let read = serve(&mut kernel, &mut memory, nr::READ, [3, 128, 3, 0, 0, 0]);
    assert_eq!(read, Outcome::Value(3));
    assert_eq!(&memory[128..131], b"456");
    assert!(!kernel.shared.vfs_pending);
}
