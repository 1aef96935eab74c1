//! Reading and writing through descriptors.
use super::base::{errno, fault_of, noted, vfs_fault, Fault, Sys};
use crate::abi::SIGPIPE;
use crate::errno::Errno;
use crate::kernel::fd::{fd_at, Desc, DescKind, DescView, KindView, PipeView};
use crate::kernel::mem::{bytes, count_word, fits, low_word, put, store, zeroed, zeros};
use crate::kernel::mounts::{file_called, refuses_writes, MountView, Mounts};
use crate::kernel::state::{with_signal, Clock, Ctx, CtxView, Shared, SharedView, StdinView};
use crate::vfs::{FileAnswer, FileCall, Vfs, VfsFile};
use vstd::prelude::*;

verus! {

/// The most one `read` hands over.
pub const MAX_READ: u32 = 0x10_0000;

// ---------------------------------------------------------------------------------------------
// pseudo-random bytes

/// One step of the generator.
pub open spec fn xorshift(x: u64) -> u64 {
    let a = x ^ (x << 13u64);
    let b = a ^ (a >> 7u64);
    b ^ (b << 17u64)
}

/// The generator after `n` steps.
pub open spec fn stepped(x: u64, n: nat) -> u64
    decreases n,
{
    if n == 0 {
        x
    } else {
        xorshift(stepped(x, (n - 1) as nat))
    }
}

/// What the generator starts from: the clock, once, and then where it left off.
pub open spec fn seed_of(state: u64, realtime: u128) -> u64 {
    if state == 0 {
        ((realtime % 0x1_0000_0000_0000_0000) as u64) | 1
    } else {
        state
    }
}

/// The next `n` pseudo-random bytes: the low byte of each step.
pub open spec fn random_bytes(seed: u64, n: nat) -> Seq<u8> {
    Seq::new(n, |i: int| (stepped(seed, (i + 1) as nat) % 256) as u8)
}

/// Pseudo-random bytes for `getrandom`, `AT_RANDOM` and `/dev/urandom`.
///
/// Deliberately not cryptographic: a sandbox with no network and no secrets does not need it,
/// and pulling in a source would mean asking the integrator for one.
pub fn fill_random<F>(sh: &mut Shared<F>, clock: &Clock, n: usize) -> (r: Vec<u8>)
    ensures
        r@ == random_bytes(seed_of(old(sh)@.random, clock.realtime), n as nat),
        final(sh)@ == (SharedView {
            random: stepped(seed_of(old(sh)@.random, clock.realtime), n as nat),
            ..old(sh)@
        }),
{
    let seed: u64 = if sh.random == 0 {
        ((clock.realtime % 0x1_0000_0000_0000_0000) as u64) | 1
    } else {
        sh.random
    };
    let mut x: u64 = seed;
    let mut out: Vec<u8> = Vec::new();
    let mut i: usize = 0;
    while i < n
        invariant
            i <= n,
            x == stepped(seed, i as nat),
            out@ == random_bytes(seed, i as nat),
        decreases n - i,
    {
        let a: u64 = x ^ (x << 13u64);
        let b: u64 = a ^ (a >> 7u64);
        x = b ^ (b << 17u64);
        out.push((x % 256) as u8);
        i = i + 1;
        assert(out@ =~= random_bytes(seed, i as nat));
    }
    sh.random = x;
    out
}

// ---------------------------------------------------------------------------------------------
// read

/// How much of standard input one read takes: up to `max` bytes, and no further than the end
/// of a line, as a terminal in canonical mode would.
pub open spec fn line_len(data: Seq<u8>, i: int, max: int) -> int
    decreases max - i,
{
    if i >= max || i >= data.len() {
        i
    } else if data[i] == 10 {
        i + 1
    } else {
        line_len(data, i + 1, max)
    }
}

/// The smaller of two.
pub open spec fn least(a: int, b: int) -> int {
    if a < b {
        a
    } else {
        b
    }
}

/// Reading at most `len` bytes from a descriptor: what comes, and everything afterwards.
pub open spec fn read_spec<V: Vfs>(
    sh: SharedView<<V as VfsFile>::Handle>,
    ctx: CtxView,
    fs: Seq<MountView<<V as VfsFile>::State>>,
    realtime: u128,
    fd: i32,
    len: usize,
) -> (
    SharedView<<V as VfsFile>::Handle>,
    Seq<MountView<<V as VfsFile>::State>>,
    Result<Seq<u8>, Fault>,
) {
    if len == 0 {
        (sh, fs, Ok(Seq::empty()))
    } else {
        match fd_at(ctx.task.fds, fd as int) {
            None => (sh, fs, errno(Errno::BADF)),
            Some(entry) => match sh.descs.get(entry.desc) {
                None => (sh, fs, errno(Errno::BADF)),
                Some(d) => if !d.can_read() {
                    (sh, fs, errno(Errno::BADF))
                } else {
                    read_kind::<V>(sh, fs, realtime, entry.desc, d, len)
                },
            },
        }
    }
}

/// Reading from a description that may be read.
pub open spec fn read_kind<V: Vfs>(
    sh: SharedView<<V as VfsFile>::Handle>,
    fs: Seq<MountView<<V as VfsFile>::State>>,
    realtime: u128,
    key: u32,
    d: DescView<<V as VfsFile>::Handle>,
    len: usize,
) -> (
    SharedView<<V as VfsFile>::Handle>,
    Seq<MountView<<V as VfsFile>::State>>,
    Result<Seq<u8>, Fault>,
) {
    match d.kind {
        KindView::File { file, mount, closed } => {
            let (next, handle, answer) = file_called::<V>(
                fs,
                mount as int,
                file,
                FileCall::Read { max: len },
            );
            let s = SharedView {
                descs: sh.descs.set(
                    key,
                    DescView { kind: KindView::File { file: handle, mount, closed }, ..d },
                ),
                ..sh
            };
            match answer {
                FileAnswer::Data(data) => (s, next, Ok(data)),
                FileAnswer::Fail(e) => (noted(s, e), next, Err(fault_of(e))),
                _ => (s, next, errno(Errno::IO)),
            }
        },
        KindView::Memory { data, pos } => {
            let start = least(pos as int, data.len() as int);
            let end = least(start + len, data.len() as int);
            (
                SharedView {
                    descs: sh.descs.set(
                        key,
                        DescView { kind: KindView::Memory { data, pos: end as usize }, ..d },
                    ),
                    ..sh
                },
                fs,
                Ok(data.subrange(start, end)),
            )
        },
        KindView::Null => (sh, fs, Ok(Seq::empty())),
        KindView::Zero => (sh, fs, Ok(zeros(len as nat))),
        KindView::Random => (
            SharedView { random: stepped(seed_of(sh.random, realtime), len as nat), ..sh },
            fs,
            Ok(random_bytes(seed_of(sh.random, realtime), len as nat)),
        ),
        KindView::Dir { .. } => (sh, fs, errno(Errno::ISDIR)),
        KindView::PipeWrite(_) => (sh, fs, errno(Errno::BADF)),
        KindView::Stdout(_) => (sh, fs, errno(Errno::BADF)),
        KindView::Stdin => if sh.stdin.data.len() == 0 {
            if sh.stdin.closed {
                (sh, fs, Ok(Seq::empty()))
            } else if d.nonblocking() {
                (sh, fs, errno(Errno::AGAIN))
            } else {
                (
                    SharedView { stdin: StdinView { wanted: true, ..sh.stdin }, ..sh },
                    fs,
                    Err(Fault::Block),
                )
            }
        } else {
            let n = line_len(sh.stdin.data, 0, len as int);
            (
                SharedView {
                    stdin: StdinView {
                        data: sh.stdin.data.subrange(n, sh.stdin.data.len() as int),
                        wanted: false,
                        ..sh.stdin
                    },
                    ..sh
                },
                fs,
                Ok(sh.stdin.data.subrange(0, n)),
            )
        },
        KindView::PipeRead(k) => match sh.pipes.get(k) {
            None => (sh, fs, errno(Errno::BADF)),
            Some(p) => if p.data.len() == 0 {
                if p.writers == 0 {
                    (sh, fs, Ok(Seq::empty()))
                } else if d.nonblocking() {
                    (sh, fs, errno(Errno::AGAIN))
                } else {
                    (sh, fs, Err(Fault::Block))
                }
            } else {
                let n = least(len as int, p.data.len() as int);
                (
                    SharedView {
                        pipes: sh.pipes.set(
                            k,
                            PipeView { data: p.data.subrange(n, p.data.len() as int), ..p },
                        ),
                        ..sh
                    },
                    fs,
                    Ok(p.data.subrange(0, n)),
                )
            },
        },
    }
}

/// Take up to `len` bytes of standard input, up to the end of a line.
fn take_line<F>(sh: &mut Shared<F>, len: usize) -> (r: Vec<u8>)
    ensures
        ({
            let before = old(sh)@.stdin.data;
            let n = line_len(before, 0, len as int);
            &&& 0 <= n <= before.len()
            &&& r@ == before.subrange(0, n)
            &&& final(sh)@ == (SharedView {
                stdin: StdinView {
                    data: before.subrange(n, before.len() as int),
                    wanted: false,
                    ..old(sh)@.stdin
                },
                ..old(sh)@
            })
        }),
{
    let ghost start = sh@;
    let ghost before = sh@.stdin.data;
    let mut out: Vec<u8> = Vec::new();
    let mut ended = false;
    assert(before.subrange(0, before.len() as int) =~= before);
    while !ended && out.len() < len && sh.stdin.data.len() > 0
        invariant
            out@.len() <= before.len(),
            out@.len() <= len,
            sh@ == (SharedView { stdin: StdinView { data: sh@.stdin.data, ..start.stdin }, ..start }),
            out@ == before.subrange(0, out@.len() as int),
            sh@.stdin.data == before.subrange(out@.len() as int, before.len() as int),
            line_len(before, 0, len as int) == if ended {
                out@.len() as int
            } else {
                line_len(before, out@.len() as int, len as int)
            },
        decreases len - out@.len(),
    {
        let ghost n = out@.len() as int;
        match sh.stdin.data.pop_front() {
            Some(byte) => {
                assert(byte == before[n]);
                out.push(byte);
                assert(out@ =~= before.subrange(0, n + 1));
                assert(sh@.stdin.data =~= before.subrange(n + 1, before.len() as int));
                if byte == 10 {
                    ended = true;
                }
            },
            None => {
                assert(false);
                ended = true;
            },
        }
    }
    sh.stdin.wanted = false;
    out
}

/// Take up to `len` bytes out of a pipe.
fn take_piped<F>(sh: &mut Shared<F>, k: u32, len: usize) -> (r: Vec<u8>)
    requires
        old(sh)@.pipes.contains(k),
    ensures
        ({
            let p = old(sh)@.pipes.get(k)->0;
            let n = least(len as int, p.data.len() as int);
            &&& r@ == p.data.subrange(0, n)
            &&& final(sh)@ == (SharedView {
                pipes: old(sh)@.pipes.set(
                    k,
                    PipeView { data: p.data.subrange(n, p.data.len() as int), ..p },
                ),
                ..old(sh)@
            })
        }),
{
    let mut out: Vec<u8> = Vec::new();
    match sh.pipes.get_mut(k) {
        None => {
            assert(false);
        },
        Some(pipe) => {
            let ghost before = pipe@;
            let ghost all = before.data;
            assert(all.subrange(0, all.len() as int) =~= all);
            while out.len() < len && pipe.data.len() > 0
                invariant
                    out@.len() <= all.len(),
                    out@.len() <= len,
                    out@ == all.subrange(0, out@.len() as int),
                    pipe@ == (PipeView {
                        data: all.subrange(out@.len() as int, all.len() as int),
                        ..before
                    }),
                decreases len - out@.len(),
            {
                let ghost n = out@.len() as int;
                match pipe.data.pop_front() {
                    Some(byte) => {
                        out.push(byte);
                        assert(out@ =~= all.subrange(0, n + 1));
                        assert(pipe@.data =~= all.subrange(n + 1, all.len() as int));
                    },
                    None => {
                        assert(false);
                    },
                }
            }
        },
    }
    out
}

/// The result of a read, as its model.
pub open spec fn read_result(r: Result<Vec<u8>, Fault>) -> Result<Seq<u8>, Fault> {
    match r {
        Ok(data) => Ok(data@),
        Err(x) => Err(x),
    }
}

/// Which of its ways a description is read in.
enum Source {
    File(usize),
    Memory,
    Null,
    Zero,
    Random,
    Dir,
    Closed,
    Stdin,
    Pipe(u32),
}

/// Read from a descriptor, with no guest involved.
///
/// This is the whole of `read(2)` except the copy into guest memory, which is why a host
/// command gets pipes, redirection and `/dev/*` for free rather than a parallel
/// implementation: it reads through the same descriptions the guests do.
pub fn read_bytes<V: Vfs>(
    sh: &mut Shared<<V as VfsFile>::Handle>,
    ctx: &Ctx,
    fs: &mut Mounts<V>,
    clock: &Clock,
    fd: i32,
    len: usize,
) -> (r: Result<Vec<u8>, Fault>)
    requires
        old(sh)@.wf(),
        old(fs).wf(),
    ensures
        final(sh)@.wf(),
        final(fs).wf(),
        read_spec::<V>(old(sh)@, ctx@, old(fs)@, clock.realtime, fd, len) == (
            final(sh)@,
            final(fs)@,
            read_result(r),
        ),
        r matches Ok(data) ==> data@.len() <= len,
{
    if len == 0 {
        let none: Vec<u8> = Vec::new();
        assert(none@ =~= Seq::empty());
        return Ok(none);
    }
    let entry = match ctx.task.fds.get(fd) {
        Ok(entry) => entry,
        Err(e) => return Err(Fault::Errno(e)),
    };
    let key: u32 = entry.desc;
    let (source, nonblocking) = match sh.descs.get(key) {
        None => return Err(Fault::Errno(Errno::BADF)),
        Some(desc) => {
            if !desc.readable() {
                return Err(Fault::Errno(Errno::BADF));
            }
            let source = match &desc.kind {
                DescKind::File { mount, .. } => Source::File(*mount),
                DescKind::Memory { .. } => Source::Memory,
                DescKind::Null => Source::Null,
                DescKind::Zero => Source::Zero,
                DescKind::Random => Source::Random,
                DescKind::Dir { .. } => Source::Dir,
                DescKind::PipeWrite(_) | DescKind::Stdout(_) => Source::Closed,
                DescKind::Stdin => Source::Stdin,
                DescKind::PipeRead(k) => Source::Pipe(*k),
            };
            (source, desc.is_nonblocking())
        },
    };
    match source {
        Source::File(mount) => {
            let done = match sh.descs.get_mut(key) {
                Some(Desc { kind: DescKind::File { file, .. }, .. }) => fs.file_read(
                    mount,
                    file,
                    len,
                ),
                _ => {
                    assert(false);
                    Err(Errno::BADF)
                },
            };
            match done {
                Ok(data) => Ok(data),
                Err(e) => Err(vfs_fault(sh, e)),
            }
        },
        Source::Memory => {
            let mut out: Vec<u8> = Vec::new();
            match sh.descs.get_mut(key) {
                Some(Desc { kind: DescKind::Memory { data, pos }, .. }) => {
                    let size: usize = data.len();
                    let start: usize = if *pos < size {
                        *pos
                    } else {
                        size
                    };
                    let end: usize = if len < size - start {
                        start + len
                    } else {
                        size
                    };
                    let mut i: usize = start;
                    while i < end
                        invariant
                            start <= i <= end <= data@.len(),
                            out@ == data@.subrange(start as int, i as int),
                        decreases end - i,
                    {
                        out.push(data[i]);
                        i = i + 1;
                        assert(out@ =~= data@.subrange(start as int, i as int));
                    }
                    *pos = end;
                },
                _ => {
                    assert(false);
                },
            }
            Ok(out)
        },
        Source::Null => {
            let none: Vec<u8> = Vec::new();
            assert(none@ =~= Seq::empty());
            Ok(none)
        },
        Source::Zero => Ok(zeroed(len)),
        Source::Random => Ok(fill_random(sh, clock, len)),
        Source::Dir => Err(Fault::Errno(Errno::ISDIR)),
        Source::Closed => Err(Fault::Errno(Errno::BADF)),
        Source::Stdin => {
            if sh.stdin.data.len() == 0 {
                if sh.stdin.closed {
                    let none: Vec<u8> = Vec::new();
                    assert(none@ =~= Seq::empty());
                    return Ok(none);
                }
                if nonblocking {
                    return Err(Fault::Errno(Errno::AGAIN));
                }
                sh.stdin.wanted = true;
                return Err(Fault::Block);
            }
            proof {
                lemma_line_len(sh@.stdin.data, 0, len as int);
            }
            Ok(take_line(sh, len))
        },
        Source::Pipe(k) => {
            match sh.pipes.get(k) {
                None => return Err(Fault::Errno(Errno::BADF)),
                Some(pipe) => {
                    if pipe.data.len() == 0 {
                        if pipe.writers == 0 {
                            let none: Vec<u8> = Vec::new();
                            assert(none@ =~= Seq::empty());
                            return Ok(none);
                        }
                        if nonblocking {
                            return Err(Fault::Errno(Errno::AGAIN));
                        }
                        return Err(Fault::Block);
                    }
                },
            }
            Ok(take_piped(sh, k, len))
        },
    }
}

proof fn lemma_line_len(data: Seq<u8>, i: int, max: int)
    requires
        0 <= i <= max,
        i <= data.len(),
    ensures
        i <= line_len(data, i, max) <= max,
        line_len(data, i, max) <= data.len(),
    decreases max - i,
{
    if i < max && i < data.len() && data[i] != 10 {
        lemma_line_len(data, i + 1, max);
    }
}

/// `read`: the bytes are staged first, and guest memory is touched only once there are some.
pub open spec fn sys_read_spec<V: Vfs>(
    sh: SharedView<<V as VfsFile>::Handle>,
    ctx: CtxView,
    fs: Seq<MountView<<V as VfsFile>::State>>,
    mem: Seq<u8>,
    realtime: u128,
    fd: i32,
    at: u32,
    length: u32,
) -> (
    SharedView<<V as VfsFile>::Handle>,
    Seq<MountView<<V as VfsFile>::State>>,
    Seq<u8>,
    Sys,
) {
    if length == 0 {
        (sh, fs, mem, Ok(0))
    } else {
        let (s, f, got) = read_spec::<V>(
            sh,
            ctx,
            fs,
            realtime,
            fd,
            least(length as int, MAX_READ as int) as usize,
        );
        match got {
            Err(x) => (s, f, mem, Err(x)),
            Ok(data) => match store(mem, at as int, data) {
                (m, Err(e)) => (s, f, m, errno(e)),
                (m, Ok(())) => (s, f, m, Ok(low_word(data.len() as int))),
            },
        }
    }
}

pub fn sys_read<V: Vfs>(
    sh: &mut Shared<<V as VfsFile>::Handle>,
    ctx: &Ctx,
    fs: &mut Mounts<V>,
    mem: &mut [u8],
    clock: &Clock,
    fd: i32,
    at: u32,
    length: u32,
) -> (r: Sys)
    requires
        old(sh)@.wf(),
        old(fs).wf(),
    ensures
        final(sh)@.wf(),
        final(fs).wf(),
        sys_read_spec::<V>(
            old(sh)@,
            ctx@,
            old(fs)@,
            old(mem)@,
            clock.realtime,
            fd,
            at,
            length,
        ) == (final(sh)@, final(fs)@, final(mem)@, r),
        r matches Ok(n) ==> 0 <= n <= length,
{
    if length == 0 {
        return Ok(0);
    }
    let len: usize = if length < MAX_READ {
        length as usize
    } else {
        MAX_READ as usize
    };
    match read_bytes(sh, ctx, fs, clock, fd, len) {
        Err(x) => Err(x),
        Ok(data) => match put(mem, at, data.as_slice()) {
            Ok(()) => Ok(count_word(data.len())),
            Err(e) => Err(Fault::Errno(e)),
        },
    }
}

// ---------------------------------------------------------------------------------------------
// write

/// Writing bytes to a descriptor: how many were taken, and everything afterwards.
pub open spec fn write_spec<V: Vfs>(
    sh: SharedView<<V as VfsFile>::Handle>,
    ctx: CtxView,
    fs: Seq<MountView<<V as VfsFile>::State>>,
    fd: i32,
    data: Seq<u8>,
) -> (
    SharedView<<V as VfsFile>::Handle>,
    Seq<MountView<<V as VfsFile>::State>>,
    Result<usize, Fault>,
) {
    match fd_at(ctx.task.fds, fd as int) {
        None => (sh, fs, errno(Errno::BADF)),
        Some(entry) => match sh.descs.get(entry.desc) {
            None => (sh, fs, errno(Errno::BADF)),
            Some(d) => if !d.can_write() {
                (sh, fs, errno(Errno::BADF))
            } else {
                write_kind::<V>(sh, fs, ctx.task.pid, entry.desc, d, data)
            },
        },
    }
}

/// Writing to a description that may be written.
pub open spec fn write_kind<V: Vfs>(
    sh: SharedView<<V as VfsFile>::Handle>,
    fs: Seq<MountView<<V as VfsFile>::State>>,
    pid: i32,
    key: u32,
    d: DescView<<V as VfsFile>::Handle>,
    data: Seq<u8>,
) -> (
    SharedView<<V as VfsFile>::Handle>,
    Seq<MountView<<V as VfsFile>::State>>,
    Result<usize, Fault>,
) {
    match d.kind {
        KindView::File { file, mount, closed } => if refuses_writes(fs, mount as int) {
            (sh, fs, errno(Errno::ROFS))
        } else {
            let (next, handle, answer) = file_called::<V>(
                fs,
                mount as int,
                file,
                FileCall::Write { data },
            );
            let s = SharedView {
                descs: sh.descs.set(
                    key,
                    DescView { kind: KindView::File { file: handle, mount, closed }, ..d },
                ),
                ..sh
            };
            match answer {
                FileAnswer::Count(n) => (s, next, Ok(n)),
                FileAnswer::Fail(e) => (noted(s, e), next, Err(fault_of(e))),
                _ => (s, next, errno(Errno::IO)),
            }
        },
        KindView::Null => (sh, fs, Ok(data.len() as usize)),
        KindView::Zero => (sh, fs, Ok(data.len() as usize)),
        KindView::Random => (sh, fs, Ok(data.len() as usize)),
        KindView::Memory { .. } => (sh, fs, Ok(data.len() as usize)),
        KindView::Dir { .. } => (sh, fs, errno(Errno::BADF)),
        KindView::PipeRead(_) => (sh, fs, errno(Errno::BADF)),
        KindView::Stdin => (sh, fs, errno(Errno::BADF)),
        KindView::Stdout(which) => (sh.with_output(which, data), fs, Ok(data.len() as usize)),
        KindView::PipeWrite(k) => match sh.pipes.get(k) {
            None => (sh, fs, errno(Errno::BADF)),
            Some(p) => if p.readers == 0 {
                (
                    SharedView { table: with_signal(sh.table, pid, SIGPIPE), ..sh },
                    fs,
                    errno(Errno::PIPE),
                )
            } else if p.space() == 0 {
                (
                    sh,
                    fs,
                    if d.nonblocking() {
                        errno(Errno::AGAIN)
                    } else {
                        Err(Fault::Block)
                    },
                )
            } else {
                let n = least(p.space(), data.len() as int);
                (
                    SharedView {
                        pipes: sh.pipes.set(
                            k,
                            PipeView { data: p.data + data.subrange(0, n), ..p },
                        ),
                        ..sh
                    },
                    fs,
                    Ok(n as usize),
                )
            },
        },
    }
}

/// Put as much of `data` into a pipe as it has room for.
fn put_piped<F>(sh: &mut Shared<F>, k: u32, data: &[u8]) -> (r: usize)
    requires
        old(sh)@.pipes.contains(k),
    ensures
        ({
            let p = old(sh)@.pipes.get(k)->0;
            let n = least(p.space(), data@.len() as int);
            &&& r == n
            &&& final(sh)@ == (SharedView {
                pipes: old(sh)@.pipes.set(
                    k,
                    PipeView { data: p.data + data@.subrange(0, n), ..p },
                ),
                ..old(sh)@
            })
        }),
{
    let mut i: usize = 0;
    match sh.pipes.get_mut(k) {
        None => {
            assert(false);
        },
        Some(pipe) => {
            let ghost before = pipe@;
            let room: usize = pipe.room();
            assert(pipe@.data =~= before.data + data@.subrange(0, 0));
            while i < room && i < data.len()
                invariant
                    i <= data@.len(),
                    i <= room,
                    pipe@ == (PipeView {
                        data: before.data + data@.subrange(0, i as int),
                        ..before
                    }),
                decreases data@.len() - i,
            {
                pipe.data.push_back(data[i]);
                i = i + 1;
                assert(pipe@.data =~= before.data + data@.subrange(0, i as int));
            }
        },
    }
    i
}

/// Which of its ways a description is written in.
enum Sink {
    File(usize),
    Drop,
    Closed,
    Output(u8),
    Pipe(u32),
}

/// Write `data` to a descriptor, with no guest involved. The counterpart of [`read_bytes`].
pub fn write_bytes<V: Vfs>(
    sh: &mut Shared<<V as VfsFile>::Handle>,
    ctx: &Ctx,
    fs: &mut Mounts<V>,
    fd: i32,
    data: &[u8],
) -> (r: Result<usize, Fault>)
    requires
        old(sh)@.wf(),
        old(fs).wf(),
    ensures
        final(sh)@.wf(),
        final(fs).wf(),
        write_spec::<V>(old(sh)@, ctx@, old(fs)@, fd, data@) == (final(sh)@, final(fs)@, r),
        r matches Ok(n) ==> n <= data@.len(),
{
    let entry = match ctx.task.fds.get(fd) {
        Ok(entry) => entry,
        Err(e) => return Err(Fault::Errno(e)),
    };
    let key: u32 = entry.desc;
    let (sink, nonblocking) = match sh.descs.get(key) {
        None => return Err(Fault::Errno(Errno::BADF)),
        Some(desc) => {
            if !desc.writable() {
                return Err(Fault::Errno(Errno::BADF));
            }
            let sink = match &desc.kind {
                DescKind::File { mount, .. } => Sink::File(*mount),
                DescKind::Null
                | DescKind::Zero
                | DescKind::Random
                | DescKind::Memory { .. } => Sink::Drop,
                DescKind::Dir { .. } | DescKind::PipeRead(_) | DescKind::Stdin => Sink::Closed,
                DescKind::Stdout(which) => Sink::Output(*which),
                DescKind::PipeWrite(k) => Sink::Pipe(*k),
            };
            (sink, desc.is_nonblocking())
        },
    };
    match sink {
        Sink::File(mount) => {
            if fs.is_read_only(mount) {
                return Err(Fault::Errno(Errno::ROFS));
            }
            let done = match sh.descs.get_mut(key) {
                Some(Desc { kind: DescKind::File { file, .. }, .. }) => fs.file_write(
                    mount,
                    file,
                    data,
                ),
                _ => {
                    assert(false);
                    Err(Errno::BADF)
                },
            };
            match done {
                Ok(n) => Ok(n),
                Err(e) => Err(vfs_fault(sh, e)),
            }
        },
        Sink::Drop => Ok(data.len()),
        Sink::Closed => Err(Fault::Errno(Errno::BADF)),
        Sink::Output(which) => Ok(sh.write_output(which, data)),
        Sink::Pipe(k) => {
            match sh.pipes.get(k) {
                None => return Err(Fault::Errno(Errno::BADF)),
                Some(pipe) => {
                    if pipe.readers == 0 {
                        sh.raise(ctx.task.pid, SIGPIPE);
                        return Err(Fault::Errno(Errno::PIPE));
                    }
                    if pipe.room() == 0 {
                        return if nonblocking {
                            Err(Fault::Errno(Errno::AGAIN))
                        } else {
                            Err(Fault::Block)
                        };
                    }
                },
            }
            Ok(put_piped(sh, k, data))
        },
    }
}

/// `write`.
pub open spec fn sys_write_spec<V: Vfs>(
    sh: SharedView<<V as VfsFile>::Handle>,
    ctx: CtxView,
    fs: Seq<MountView<<V as VfsFile>::State>>,
    mem: Seq<u8>,
    fd: i32,
    at: u32,
    length: u32,
) -> (SharedView<<V as VfsFile>::Handle>, Seq<MountView<<V as VfsFile>::State>>, Sys) {
    if !fits(mem, at as int, length as int) {
        (sh, fs, errno(Errno::FAULT))
    } else {
        let (s, f, done) = write_spec::<V>(sh, ctx, fs, fd, mem.subrange(at as int, at + length));
        match done {
            Err(x) => (s, f, Err(x)),
            Ok(n) => (s, f, Ok(low_word(n as int))),
        }
    }
}

pub fn sys_write<V: Vfs>(
    sh: &mut Shared<<V as VfsFile>::Handle>,
    ctx: &Ctx,
    fs: &mut Mounts<V>,
    mem: &[u8],
    fd: i32,
    at: u32,
    length: u32,
) -> (r: Sys)
    requires
        old(sh)@.wf(),
        old(fs).wf(),
    ensures
        final(sh)@.wf(),
        final(fs).wf(),
        sys_write_spec::<V>(old(sh)@, ctx@, old(fs)@, mem@, fd, at, length) == (
            final(sh)@,
            final(fs)@,
            r,
        ),
{
    let data = match bytes(mem, at, length) {
        Ok(data) => data,
        Err(e) => return Err(Fault::Errno(e)),
    };
    match write_bytes(sh, ctx, fs, fd, data.as_slice()) {
        Ok(n) => Ok(count_word(n)),
        Err(x) => Err(x),
    }
}

} // verus!
