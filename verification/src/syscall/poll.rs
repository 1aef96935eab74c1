//! Waiting on descriptors: `ppoll` and `pselect6`.
use super::base::{errno, Fault, Sys};
use super::time::{deadline, deadline_of, with_deadline};
use crate::abi::{POLLERR, POLLHUP, POLLIN, POLLNVAL, POLLOUT};
use crate::errno::{Errno, VfsResult};
use crate::kernel::fd::{fd_at, DescKind, KindView};
use crate::kernel::mem::{
    le16, le32, load32, put_u16, put_u32, read_i32, read_u32, signed_of, store, timespec,
    timespec_at, wrap, wrapped, Nanos,
};
use crate::kernel::state::{with_wake, Clock, Ctx, CtxView, Shared, SharedView, StdinView};
use vstd::prelude::*;

verus! {

/// The most descriptors one call looks at.
pub const MAX_POLL: u32 = 1024;

/// The signed half word with the low sixteen bits of a word.
pub open spec fn half_of(v: u32) -> i16 {
    if v % 65536 < 32768 {
        (v % 65536) as i16
    } else {
        (v % 65536 - 65536) as i16
    }
}

fn half(v: u32) -> (r: i16)
    ensures
        r == half_of(v),
{
    let low: u32 = v % 65536;
    if low < 32768 {
        low as i16
    } else {
        (low as i32 - 65536) as i16
    }
}

/// The unsigned half word with the same bits.
pub open spec fn unsigned_half(v: i16) -> u16 {
    if v >= 0 {
        v as u16
    } else {
        (v + 65536) as u16
    }
}

fn unsigned(v: i16) -> (r: u16)
    ensures
        r == unsigned_half(v),
{
    if v >= 0 {
        v as u16
    } else {
        (v as i32 + 65536) as u16
    }
}

/// What a description is ready for.
pub open spec fn readiness<F>(sh: SharedView<F>, kind: KindView<F>) -> i16 {
    match kind {
        KindView::PipeRead(k) => match sh.pipes.get(k) {
            Some(p) => if p.data.len() > 0 {
                POLLIN
            } else if p.writers == 0 {
                POLLHUP
            } else {
                0
            },
            None => 0,
        },
        KindView::PipeWrite(k) => match sh.pipes.get(k) {
            Some(p) => if p.readers == 0 {
                POLLERR
            } else if p.space() > 0 {
                POLLOUT
            } else {
                0
            },
            None => 0,
        },
        KindView::Stdin => if sh.stdin.data.len() > 0 || sh.stdin.closed {
            POLLIN
        } else {
            0
        },
        KindView::Stdout(_) => POLLOUT,
        _ => POLLIN | POLLOUT,
    }
}

/// Of what a descriptor is ready for, what was asked; trouble is reported in any case.
pub open spec fn polled<F>(sh: SharedView<F>, key: u32, events: i16) -> i16 {
    match sh.descs.get(key) {
        None => POLLNVAL,
        Some(d) => readiness(sh, d.kind) & (events | POLLHUP | POLLERR | POLLNVAL),
    }
}

/// What one descriptor is ready for.
pub fn poll_one<F>(sh: &Shared<F>, key: u32, events: i16) -> (r: i16)
    ensures
        r == polled(sh@, key, events),
{
    let desc = match sh.descs.get(key) {
        Some(desc) => desc,
        None => return POLLNVAL,
    };
    let ready: i16 = match &desc.kind {
        DescKind::PipeRead(k) => match sh.pipes.get(*k) {
            Some(pipe) => if pipe.data.len() > 0 {
                POLLIN
            } else if pipe.writers == 0 {
                POLLHUP
            } else {
                0
            },
            None => 0,
        },
        DescKind::PipeWrite(k) => match sh.pipes.get(*k) {
            Some(pipe) => if pipe.readers == 0 {
                POLLERR
            } else if pipe.room() > 0 {
                POLLOUT
            } else {
                0
            },
            None => 0,
        },
        DescKind::Stdin => if sh.stdin.data.len() > 0 || sh.stdin.closed {
            POLLIN
        } else {
            0
        },
        DescKind::Stdout(_) => POLLOUT,
        _ => POLLIN | POLLOUT,
    };
    ready & (events | POLLHUP | POLLERR | POLLNVAL)
}

/// What a descriptor of a process is ready for.
pub open spec fn fd_polled<F>(sh: SharedView<F>, ctx: CtxView, fd: i32, events: i16) -> i16 {
    match fd_at(ctx.task.fds, fd as int) {
        Some(entry) => polled(sh, entry.desc, events),
        None => POLLNVAL,
    }
}

fn poll_fd<F>(sh: &Shared<F>, ctx: &Ctx, fd: i32, events: i16) -> (r: i16)
    ensures
        r == fd_polled(sh@, ctx@, fd, events),
{
    match ctx.task.fds.get(fd) {
        Ok(entry) => poll_one(sh, entry.desc, events),
        Err(_) => POLLNVAL,
    }
}

// ---------------------------------------------------------------------------------------------
// the end of a wait

/// The deadline of a timed wait, and the process with it noted. No address means no deadline.
pub open spec fn wait_until(ctx: CtxView, mem: Seq<u8>, elapsed: Nanos, timeout_at: u32) -> (
    CtxView,
    VfsResult<Option<Nanos>>,
) {
    if timeout_at == 0 {
        (ctx, Ok(None))
    } else {
        match timespec_at(mem, timeout_at as int) {
            Err(e) => (ctx, Err(e)),
            Ok(span) => {
                let when = deadline_of(ctx, elapsed, span);
                (with_deadline(ctx, when), Ok(Some(when)))
            },
        }
    }
}

fn read_timeout(ctx: &mut Ctx, mem: &[u8], clock: &Clock, timeout_at: u32) -> (r: VfsResult<
    Option<Nanos>,
>)
    ensures
        wait_until(old(ctx)@, mem@, clock.elapsed, timeout_at) == (final(ctx)@, r),
{
    if timeout_at == 0 {
        return Ok(None);
    }
    match timespec(mem, timeout_at) {
        Ok(span) => Ok(Some(deadline(ctx, clock, span))),
        Err(e) => Err(e),
    }
}

/// How many of some results report anything.
pub open spec fn count_ready(results: Seq<i16>) -> int
    decreases results.len(),
{
    if results.len() == 0 {
        0
    } else {
        count_ready(results.drop_last()) + if results.last() != 0 {
            1int
        } else {
            0int
        }
    }
}

// ---------------------------------------------------------------------------------------------
// ppoll

/// The address of the `i`th entry.
pub open spec fn pollfd_at(fds_at: u32, i: int) -> u32 {
    wrapped(fds_at, i * 8)
}

/// The results for the entries from the `i`th on, after `got`.
pub open spec fn poll_results<F>(
    sh: SharedView<F>,
    ctx: CtxView,
    mem: Seq<u8>,
    fds_at: u32,
    n: int,
    i: int,
    got: Seq<i16>,
) -> VfsResult<Seq<i16>>
    decreases n - i,
{
    if i >= n {
        Ok(got)
    } else {
        let entry = pollfd_at(fds_at, i);
        match load32(mem, entry as int) {
            Err(e) => Err(e),
            Ok(fd) => match load32(mem, wrapped(entry, 4) as int) {
                Err(e) => Err(e),
                Ok(events) => poll_results(
                    sh,
                    ctx,
                    mem,
                    fds_at,
                    n,
                    i + 1,
                    got.push(
                        if signed_of(fd) < 0 {
                            0
                        } else {
                            fd_polled(sh, ctx, signed_of(fd), half_of(events))
                        },
                    ),
                ),
            },
        }
    }
}

/// Writing the results back, from the `i`th on, stopping at the first that faults.
pub open spec fn results_written(mem: Seq<u8>, fds_at: u32, results: Seq<i16>, i: int) -> (
    Seq<u8>,
    VfsResult<()>,
)
    decreases results.len() - i,
{
    if i >= results.len() {
        (mem, Ok(()))
    } else {
        match store(
            mem,
            wrapped(pollfd_at(fds_at, i), 6) as int,
            le16(unsigned_half(results[i])),
        ) {
            (m, Err(e)) => (m, Err(e)),
            (m, Ok(())) => results_written(m, fds_at, results, i + 1),
        }
    }
}

/// `ppoll`: look at every descriptor; if none is ready, wait until one is or the time is up.
pub open spec fn ppoll_spec<F>(
    sh: SharedView<F>,
    ctx: CtxView,
    mem: Seq<u8>,
    elapsed: Nanos,
    fds_at: u32,
    count: u32,
    timeout_at: u32,
) -> (SharedView<F>, CtxView, Seq<u8>, Sys) {
    let n = if count < MAX_POLL {
        count as int
    } else {
        MAX_POLL as int
    };
    let (c, until) = wait_until(ctx, mem, elapsed, timeout_at);
    match until {
        Err(e) => (sh, c, mem, errno(e)),
        Ok(until) => match poll_results(sh, c, mem, fds_at, n, 0, Seq::empty()) {
            Err(e) => (sh, c, mem, errno(e)),
            Ok(results) => {
                let ready = count_ready(results);
                if ready == 0 && until is None {
                    (
                        if fd_at(c.task.fds, 0) is Some {
                            SharedView { stdin: StdinView { wanted: true, ..sh.stdin }, ..sh }
                        } else {
                            sh
                        },
                        c,
                        mem,
                        Err(Fault::Block),
                    )
                } else if ready == 0 && elapsed < until->0 {
                    (
                        SharedView { table: with_wake(sh.table, c.task.pid, until), ..sh },
                        c,
                        mem,
                        Err(Fault::Block),
                    )
                } else {
                    match results_written(mem, fds_at, results, 0) {
                        (m, Err(e)) => (sh, c, m, errno(e)),
                        (m, Ok(())) => (sh, c, m, Ok(ready as i32)),
                    }
                }
            },
        },
    }
}

proof fn lemma_count_ready(results: Seq<i16>)
    ensures
        0 <= count_ready(results) <= results.len(),
    decreases results.len(),
{
    if results.len() > 0 {
        lemma_count_ready(results.drop_last());
    }
}

pub fn sys_ppoll<F>(
    sh: &mut Shared<F>,
    ctx: &mut Ctx,
    mem: &mut [u8],
    clock: &Clock,
    fds_at: u32,
    count: u32,
    timeout_at: u32,
) -> (r: Sys)
    ensures
        ppoll_spec(
            old(sh)@,
            old(ctx)@,
            old(mem)@,
            clock.elapsed,
            fds_at,
            count,
            timeout_at,
        ) == (final(sh)@, final(ctx)@, final(mem)@, r),
{
    let until: Option<Nanos> = match read_timeout(ctx, mem, clock, timeout_at) {
        Ok(until) => until,
        Err(e) => return Err(Fault::Errno(e)),
    };
    let n: u32 = if count < MAX_POLL {
        count
    } else {
        MAX_POLL
    };
    let mut results: Vec<i16> = Vec::new();
    let mut ready: i32 = 0;
    let mut i: u32 = 0;
    assert(results@ =~= Seq::empty());
    while i < n
        invariant
            i <= n <= MAX_POLL,
            0 <= ready <= i,
            results@.len() == i,
            ready == count_ready(results@),
            sh@ == old(sh)@,
            mem@ == old(mem)@,
            poll_results(sh@, ctx@, mem@, fds_at, n as int, 0, Seq::empty()) == poll_results(
                sh@,
                ctx@,
                mem@,
                fds_at,
                n as int,
                i as int,
                results@,
            ),
            wait_until(old(ctx)@, old(mem)@, clock.elapsed, timeout_at) == (
                ctx@,
                Ok::<Option<Nanos>, Errno>(until),
            ),
            n == if count < MAX_POLL {
                count
            } else {
                MAX_POLL
            },
        decreases n - i,
    {
        let entry: u32 = wrap(fds_at, i * 8);
        let fd: i32 = match read_i32(mem, entry) {
            Ok(fd) => fd,
            Err(e) => return Err(Fault::Errno(e)),
        };
        let events: i16 = match read_u32(mem, wrap(entry, 4)) {
            Ok(events) => half(events),
            Err(e) => return Err(Fault::Errno(e)),
        };
        let revents: i16 = if fd < 0 {
            0
        } else {
            poll_fd(sh, ctx, fd, events)
        };
        let ghost before = results@;
        results.push(revents);
        assert(results@.drop_last() =~= before);
        if revents != 0 {
            ready = ready + 1;
        }
        i = i + 1;
    }
    if ready == 0 {
        match until {
            None => {
                if ctx.task.fds.get(0).is_ok() {
                    sh.stdin.wanted = true;
                }
                return Err(Fault::Block);
            },
            Some(when) => {
                if clock.elapsed < when {
                    sh.set_wake(ctx.task.pid, Some(when));
                    return Err(Fault::Block);
                }
            },
        }
    }
    let mut i: u32 = 0;
    while i < n
        invariant
            i <= n <= MAX_POLL,
            n == results@.len(),
            results_written(old(mem)@, fds_at, results@, 0) == results_written(
                mem@,
                fds_at,
                results@,
                i as int,
            ),
            sh@ == old(sh)@,
            ready == count_ready(results@),
            ready != 0 || (until is Some && clock.elapsed >= until->0),
            poll_results(sh@, ctx@, old(mem)@, fds_at, n as int, 0, Seq::empty()) == Ok::<
                Seq<i16>,
                Errno,
            >(results@),
            wait_until(old(ctx)@, old(mem)@, clock.elapsed, timeout_at) == (
                ctx@,
                Ok::<Option<Nanos>, Errno>(until),
            ),
            n == if count < MAX_POLL {
                count
            } else {
                MAX_POLL
            },
        decreases n - i,
    {
        let entry: u32 = wrap(fds_at, i * 8);
        match put_u16(mem, wrap(entry, 6), unsigned(results[i as usize])) {
            Ok(()) => {},
            Err(e) => return Err(Fault::Errno(e)),
        }
        i = i + 1;
    }
    Ok(ready)
}

// ---------------------------------------------------------------------------------------------
// pselect

/// Whether bit `k` of a word is set.
pub open spec fn bit_set(word: u32, k: int) -> bool {
    word & (1u32 << (k as u32)) != 0
}

/// A descriptor set as the guest keeps it: bit by bit, from the `i`th descriptor on, after
/// `got`.
pub open spec fn set_from(mem: Seq<u8>, at: u32, n: int, i: int, got: Seq<bool>) -> VfsResult<
    Seq<bool>,
>
    decreases n - i,
{
    if i >= n {
        Ok(got)
    } else {
        match load32(mem, wrapped(at, i / 32 * 4) as int) {
            Err(e) => Err(e),
            Ok(word) => set_from(mem, at, n, i + 1, got.push(bit_set(word, i % 32))),
        }
    }
}

/// A descriptor set. No address means nothing is in it.
pub open spec fn fd_set(mem: Seq<u8>, at: u32, n: int) -> VfsResult<Seq<bool>> {
    if at == 0 {
        Ok(Seq::new(n as nat, |i: int| false))
    } else {
        set_from(mem, at, n, 0, Seq::empty())
    }
}

fn none_set(n: u32) -> (r: Vec<bool>)
    ensures
        r@ == Seq::new(n as nat, |i: int| false),
{
    let mut out: Vec<bool> = Vec::new();
    let mut i: u32 = 0;
    while i < n
        invariant
            i <= n,
            out@ == Seq::new(i as nat, |i: int| false),
        decreases n - i,
    {
        out.push(false);
        i = i + 1;
        assert(out@ =~= Seq::new(i as nat, |i: int| false));
    }
    out
}

/// The result of reading a set, as its model.
pub open spec fn set_result(r: VfsResult<Vec<bool>>) -> VfsResult<Seq<bool>> {
    match r {
        Ok(v) => Ok(v@),
        Err(e) => Err(e),
    }
}

/// Read a descriptor set.
pub fn read_fd_set(mem: &[u8], at: u32, n: u32) -> (r: VfsResult<Vec<bool>>)
    requires
        n <= MAX_POLL,
    ensures
        set_result(r) == fd_set(mem@, at, n as int),
        r matches Ok(v) ==> v@.len() == n,
{
    if at == 0 {
        return Ok(none_set(n));
    }
    let mut out: Vec<bool> = Vec::new();
    let mut i: u32 = 0;
    assert(out@ =~= Seq::empty());
    while i < n
        invariant
            i <= n <= MAX_POLL,
            out@.len() == i,
            set_from(mem@, at, n as int, 0, Seq::empty()) == set_from(
                mem@,
                at,
                n as int,
                i as int,
                out@,
            ),
            at != 0,
        decreases n - i,
    {
        match read_u32(mem, wrap(at, i / 32 * 4)) {
            Ok(word) => {
                out.push(word & (1u32 << (i % 32)) != 0);
            },
            Err(e) => return Err(e),
        }
        i = i + 1;
    }
    Ok(out)
}

/// The word that holds the first `k` of the descriptors from `base` on.
pub open spec fn set_word(values: Seq<bool>, base: int, k: int) -> u32
    decreases k,
{
    if k <= 0 {
        0
    } else {
        let rest = set_word(values, base, k - 1);
        if base + k - 1 < values.len() && values[base + k - 1] {
            rest | (1u32 << ((k - 1) as u32))
        } else {
            rest
        }
    }
}

/// Writing a set back word by word, from the `i`th on, stopping at the first that faults.
pub open spec fn set_written(mem: Seq<u8>, at: u32, values: Seq<bool>, i: int) -> (
    Seq<u8>,
    VfsResult<()>,
)
    decreases values.len() + 32 - i * 32,
{
    if i < 0 || i * 32 >= values.len() {
        (mem, Ok(()))
    } else {
        match store(mem, wrapped(at, i * 4) as int, le32(set_word(values, i * 32, 32))) {
            (m, Err(e)) => (m, Err(e)),
            (m, Ok(())) => set_written(m, at, values, i + 1),
        }
    }
}

/// Writing a set back, if there is a place for it.
pub open spec fn set_stored(mem: Seq<u8>, at: u32, values: Seq<bool>) -> (Seq<u8>, VfsResult<()>) {
    if at == 0 {
        (mem, Ok(()))
    } else {
        set_written(mem, at, values, 0)
    }
}

/// Write a descriptor set.
pub fn write_fd_set(mem: &mut [u8], at: u32, values: &Vec<bool>) -> (r: VfsResult<()>)
    requires
        values@.len() <= MAX_POLL,
    ensures
        set_stored(old(mem)@, at, values@) == (final(mem)@, r),
{
    if at == 0 {
        return Ok(());
    }
    let n: u32 = values.len() as u32;
    let mut i: u32 = 0;
    while i * 32 < n
        invariant
            n == values@.len(),
            n <= MAX_POLL,
            i <= 32,
            set_written(old(mem)@, at, values@, 0) == set_written(
                mem@,
                at,
                values@,
                i as int,
            ),
            at != 0,
        decreases n + 32 - i * 32,
    {
        let mut bits: u32 = 0;
        let mut k: u32 = 0;
        while k < 32
            invariant
                k <= 32,
                i <= 31,
                n == values@.len(),
                n <= MAX_POLL,
                bits == set_word(values@, i * 32, k as int),
            decreases 32 - k,
        {
            let fd: usize = (i * 32 + k) as usize;
            if fd < values.len() && values[fd] {
                bits = bits | (1u32 << k);
            }
            k = k + 1;
        }
        match put_u32(mem, wrap(at, i * 4), bits) {
            Ok(()) => {},
            Err(e) => return Err(e),
        }
        i = i + 1;
    }
    Ok(())
}

/// Which of the first `n` descriptors are readable and writable, of those asked about, and how
/// many answers that makes.
#[verifier::ext_equal]
pub struct Selected {
    pub readable: Seq<bool>,
    pub writable: Seq<bool>,
    pub ready: int,
}

/// The answer for one descriptor.
pub open spec fn selects<F>(
    sh: SharedView<F>,
    ctx: CtxView,
    fd: int,
    wants_read: bool,
    wants_write: bool,
) -> (bool, bool) {
    let events = (if wants_read {
        POLLIN
    } else {
        0
    }) | (if wants_write {
        POLLOUT
    } else {
        0
    });
    let revents = fd_polled(sh, ctx, fd as i32, events);
    (
        wants_read && revents & (POLLIN | POLLHUP | POLLERR) != 0,
        wants_write && revents & (POLLOUT | POLLERR) != 0,
    )
}

/// The answers for the first `n` descriptors.
pub open spec fn selected<F>(
    sh: SharedView<F>,
    ctx: CtxView,
    reads: Seq<bool>,
    writes: Seq<bool>,
    n: int,
) -> Selected
    decreases n,
{
    if n <= 0 {
        Selected { readable: Seq::empty(), writable: Seq::empty(), ready: 0 }
    } else {
        let before = selected(sh, ctx, reads, writes, n - 1);
        let (r, w) = selects(sh, ctx, n - 1, reads[n - 1], writes[n - 1]);
        Selected {
            readable: before.readable.push(r),
            writable: before.writable.push(w),
            ready: before.ready + (if r {
                1int
            } else {
                0
            }) + (if w {
                1int
            } else {
                0
            }),
        }
    }
}

/// How many descriptors a `pselect` looks at.
pub open spec fn select_count(count: i32) -> int {
    if count < 0 {
        0
    } else if count > 1024 {
        1024
    } else {
        count as int
    }
}

/// Writing the three sets back; nothing is ever exceptional.
pub open spec fn sets_written(
    mem: Seq<u8>,
    read_at: u32,
    write_at: u32,
    except_at: u32,
    answer: Selected,
    n: int,
) -> (Seq<u8>, VfsResult<()>) {
    match set_stored(mem, read_at, answer.readable) {
        (m1, Err(e)) => (m1, Err(e)),
        (m1, Ok(())) => match set_stored(m1, write_at, answer.writable) {
            (m2, Err(e)) => (m2, Err(e)),
            (m2, Ok(())) => set_stored(m2, except_at, Seq::new(n as nat, |i: int| false)),
        },
    }
}

/// Whether one of the first `n` descriptors is watched for reading and is standard input.
pub open spec fn awaits_stdin<F>(
    sh: SharedView<F>,
    ctx: CtxView,
    reads: Seq<bool>,
    n: int,
) -> bool {
    exists|fd: int| 0 <= fd < n && #[trigger] reads[fd] && is_stdin(sh, ctx, fd)
}

/// Whether a descriptor is standard input.
pub open spec fn is_stdin<F>(sh: SharedView<F>, ctx: CtxView, fd: int) -> bool {
    fd_at(ctx.task.fds, fd) matches Some(entry) && sh.descs.get(entry.desc) matches Some(d)
        && d.kind is Stdin
}

fn waits_for_stdin<F>(sh: &Shared<F>, ctx: &Ctx, reads: &Vec<bool>) -> (r: bool)
    requires
        reads@.len() <= MAX_POLL,
    ensures
        r == awaits_stdin(sh@, ctx@, reads@, reads@.len() as int),
{
    let mut i: usize = 0;
    while i < reads.len()
        invariant
            i <= reads@.len() <= MAX_POLL,
            forall|fd: int| 0 <= fd < i ==> !(#[trigger] reads@[fd] && is_stdin(sh@, ctx@, fd)),
        decreases reads@.len() - i,
    {
        if reads[i] {
            match ctx.task.fds.get(i as i32) {
                Ok(entry) => match sh.descs.get(entry.desc) {
                    Some(desc) => match desc.kind {
                        DescKind::Stdin => return true,
                        _ => {},
                    },
                    None => {},
                },
                Err(_) => {},
            }
        }
        i = i + 1;
    }
    false
}

/// `pselect6`: look at every descriptor asked about; if none is ready, wait until one is or the
/// time is up. Where only standard input could end the wait the caller is to know.
pub open spec fn pselect_spec<F>(
    sh: SharedView<F>,
    ctx: CtxView,
    mem: Seq<u8>,
    elapsed: Nanos,
    count: i32,
    read_at: u32,
    write_at: u32,
    except_at: u32,
    timeout_at: u32,
) -> (SharedView<F>, CtxView, Seq<u8>, Sys) {
    let n = select_count(count);
    let (c, until) = wait_until(ctx, mem, elapsed, timeout_at);
    match until {
        Err(e) => (sh, c, mem, errno(e)),
        Ok(until) => match (fd_set(mem, read_at, n), fd_set(mem, write_at, n), fd_set(
            mem,
            except_at,
            n,
        )) {
            (Err(e), _, _) => (sh, c, mem, errno(e)),
            (_, Err(e), _) => (sh, c, mem, errno(e)),
            (_, _, Err(e)) => (sh, c, mem, errno(e)),
            (Ok(reads), Ok(writes), Ok(_)) => {
                let answer = selected(sh, c, reads, writes, n);
                if answer.ready == 0 && until is None {
                    (
                        if awaits_stdin(sh, c, reads, n) {
                            SharedView { stdin: StdinView { wanted: true, ..sh.stdin }, ..sh }
                        } else {
                            sh
                        },
                        c,
                        mem,
                        Err(Fault::Block),
                    )
                } else if answer.ready == 0 && elapsed < until->0 {
                    (
                        SharedView { table: with_wake(sh.table, c.task.pid, until), ..sh },
                        c,
                        mem,
                        Err(Fault::Block),
                    )
                } else {
                    match sets_written(mem, read_at, write_at, except_at, answer, n) {
                        (m, Err(e)) => (sh, c, m, errno(e)),
                        (m, Ok(())) => (sh, c, m, Ok(answer.ready as i32)),
                    }
                }
            },
        },
    }
}

fn select<F>(sh: &Shared<F>, ctx: &Ctx, reads: &Vec<bool>, writes: &Vec<bool>, n: u32) -> (r: (
    Vec<bool>,
    Vec<bool>,
    i32,
))
    requires
        n <= MAX_POLL,
        reads@.len() == n,
        writes@.len() == n,
    ensures
        selected(sh@, ctx@, reads@, writes@, n as int) == (Selected {
            readable: r.0@,
            writable: r.1@,
            ready: r.2 as int,
        }),
        r.0@.len() == n,
        r.1@.len() == n,
        0 <= r.2,
{
    let mut readable: Vec<bool> = Vec::new();
    let mut writable: Vec<bool> = Vec::new();
    let mut ready: i32 = 0;
    let mut i: u32 = 0;
    assert(readable@ =~= Seq::empty());
    assert(writable@ =~= Seq::empty());
    while i < n
        invariant
            i <= n <= MAX_POLL,
            reads@.len() == n,
            writes@.len() == n,
            readable@.len() == i,
            writable@.len() == i,
            0 <= ready <= 2 * i,
            selected(sh@, ctx@, reads@, writes@, i as int) == (Selected {
                readable: readable@,
                writable: writable@,
                ready: ready as int,
            }),
        decreases n - i,
    {
        let wants_read = reads[i as usize];
        let wants_write = writes[i as usize];
        let events: i16 = (if wants_read {
            POLLIN
        } else {
            0
        }) | (if wants_write {
            POLLOUT
        } else {
            0
        });
        let revents: i16 = poll_fd(sh, ctx, i as i32, events);
        let r = wants_read && revents & (POLLIN | POLLHUP | POLLERR) != 0;
        let w = wants_write && revents & (POLLOUT | POLLERR) != 0;
        readable.push(r);
        writable.push(w);
        if r {
            ready = ready + 1;
        }
        if w {
            ready = ready + 1;
        }
        i = i + 1;
    }
    (readable, writable, ready)
}

pub fn sys_pselect<F>(
    sh: &mut Shared<F>,
    ctx: &mut Ctx,
    mem: &mut [u8],
    clock: &Clock,
    count: i32,
    read_at: u32,
    write_at: u32,
    except_at: u32,
    timeout_at: u32,
) -> (r: Sys)
    ensures
        pselect_spec(
            old(sh)@,
            old(ctx)@,
            old(mem)@,
            clock.elapsed,
            count,
            read_at,
            write_at,
            except_at,
            timeout_at,
        ) == (final(sh)@, final(ctx)@, final(mem)@, r),
{
    let n: u32 = if count < 0 {
        0
    } else if count > 1024 {
        1024
    } else {
        count as u32
    };
    let until: Option<Nanos> = match read_timeout(ctx, mem, clock, timeout_at) {
        Ok(until) => until,
        Err(e) => return Err(Fault::Errno(e)),
    };
    let reads = match read_fd_set(mem, read_at, n) {
        Ok(set) => set,
        Err(e) => return Err(Fault::Errno(e)),
    };
    let writes = match read_fd_set(mem, write_at, n) {
        Ok(set) => set,
        Err(e) => return Err(Fault::Errno(e)),
    };
    match read_fd_set(mem, except_at, n) {
        Ok(_) => {},
        Err(e) => return Err(Fault::Errno(e)),
    }
    let (readable, writable, ready) = select(sh, ctx, &reads, &writes, n);
    if ready == 0 {
        match until {
            None => {
                if waits_for_stdin(sh, ctx, &reads) {
                    sh.stdin.wanted = true;
                }
                return Err(Fault::Block);
            },
            Some(when) => {
                if clock.elapsed < when {
                    sh.set_wake(ctx.task.pid, Some(when));
                    return Err(Fault::Block);
                }
            },
        }
    }
    match write_fd_set(mem, read_at, &readable) {
        Ok(()) => {},
        Err(e) => return Err(Fault::Errno(e)),
    }
    match write_fd_set(mem, write_at, &writable) {
        Ok(()) => {},
        Err(e) => return Err(Fault::Errno(e)),
    }
    match write_fd_set(mem, except_at, &none_set(n)) {
        Ok(()) => Ok(ready),
        Err(e) => Err(Fault::Errno(e)),
    }
}

} // verus!
