# wasmux

A POSIX process sandbox, verified with Verus.

wasmux gives guest programs real Linux processes: pipes, signals, `vfork`, `execve`, exit
statuses, and a filesystem that the embedder supplies. There is no CPU emulator and no separate
host process. A guest is a `wasm32` module; what it asks of the kernel goes through one imported
function, and everything the kernel does about it is in `src/`, with a contract that says exactly
what comes of it.

```rust
let files = MemVfs::new().with_file("/data.txt", b"3\n1\n2\n".to_vec());
let sandbox = Sandbox::builder().mount("/", files).build(&layouts)?;
let (session, first) = sandbox.shell("sort /data.txt").spawn()?;
```

## Layout

```
src/sandbox.rs    configuring a sandbox: mounts, programs, limits, environment
src/session.rs    preparing a command, driving it, and what it leaves behind
src/kernel/       processes, descriptors, pipes, signals, paths, mounts, the scheduler
src/syscall/      one specification and one handler for each system call, and the table
src/vfs/          the filesystem a guest sees: the traits, one in memory, one of three methods,
                  and one of two kinds
src/host.rs       commands the embedder writes in Rust
src/engine/       what the kernel has to know of whatever runs a guest, and loading with wasmi
src/cli.rs        what the command line decides
src/corpus.rs     how a behaviour case is judged
src/laws/         properties of the library as a whole, proved over the specifications
app/              the command line: entering guests, host files, the terminal
tests/            whole sessions, with a small shell and its tools as guests
```

## How it is specified

The state of a session is a value, `SharedView`, and so is a process, `CtxView`, each mount, and
the guest's memory. A system call is a function from these to these: `dispatched` says what every
call does, and `dispatch` is proved to do it. A filesystem is a state machine of its own, so the
kernel's contract says which questions a mount is asked, and in what order.

What holds of all of it is in `src/laws/`. Whatever a guest does, a mount is asked only about
normalized paths of places that belong to it, and a read-only one is never asked to change
anything; no call changes a limit, a program or the terminal; a call that could not finish has
taken nothing and charged nothing, as long as a signed word can count the guest's memory; the
memory in use is what the processes that are there have been charged; a process that waits for
something outside has no turn before the caller has had control; there is no network; bytes cross
a pipe unchanged and in order; what was written to a file is what is read.

Entering a guest is not verified, since a guest may never return: the kernel hands out what to do
next (`Pick`, `Go`, `Reply`), and the embedder does it.
