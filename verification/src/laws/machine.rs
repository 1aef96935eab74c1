//! Clocks, limits, memory and the terminal as a guest sees them.
use super::plain::{double_in, half_in, lemma_patched_double, lemma_patched_word, same_but, word_in};
use super::readiness::behind;
use super::signals::{is_record, lemma_is_record};
use super::streams::memory_file;
use crate::errno::Errno;
use crate::kernel::fd::{fd_at, DescView};
use crate::kernel::mem::{
    le16, le32, le64, patched, stores, timespec_at, timespec_stores, zeros, Nanos,
};
use crate::kernel::mounts::MountView;
use crate::kernel::state::{alive_count, CtxView, Limits, SharedView};
use crate::kernel::task::TaskView;
use crate::kernel::tty::{TerminalView, TermiosView};
use crate::syscall::base::{errno, Fault, Sys};
use crate::syscall::io::{random_bytes, read_spec, seed_of, stepped};
use crate::syscall::ioctl::{ioctl_spec, terminal_spec, winsize_stores};
use crate::syscall::memory::{
    brk_grown, brk_spec, byte_offset, mapped, mmap_grown, padded, read_on, shown,
};
use crate::syscall::path::statfs_block;
use crate::syscall::process::{
    affinity_spec, getrandom_spec, prlimit_spec, sysinfo_block, times_spec,
};
use crate::syscall::time::{gettime_spec, sleep_spec, timeofday_spec};
use crate::vfs::{Vfs, VfsFile};
use crate::vfs::memory::{read_at, MemFile, MemModel, MemVfs};
use vstd::prelude::*;

verus! {

// ---------------------------------------------------------------------------------------------
// clocks

/// A `timespec` is seconds in eight bytes and nanoseconds in the next four; one with a whole
/// second of nanoseconds, or of before the beginning, is refused.
pub proof fn law_a_timespec_is_seconds_and_nanoseconds(m: Seq<u8>, at: u32)
    requires
        at + 12 <= m.len(),
        at + 8 <= u32::MAX,
    ensures
        ({
            let secs = double_in(m, at as int);
            let nanos = word_in(m, at + 8);
            timespec_at(m, at as int) == if nanos >= 1_000_000_000 || secs
                >= 0x8000_0000_0000_0000 {
                Err::<Nanos, Errno>(Errno::INVAL)
            } else {
                Ok((secs * 1_000_000_000 + nanos) as u128)
            }
        }),
{
}

pub proof fn lemma_timespec_stored(mem: Seq<u8>, at: u32, value: Nanos)
    requires
        at + 16 <= mem.len(),
        at + 16 <= u32::MAX,
        value / 1_000_000_000 <= u64::MAX,
    ensures
        ({
            let (m, r) = stores(mem, timespec_stores(at as int, value));
            &&& r is Ok
            &&& double_in(m, at as int) * 1_000_000_000 + word_in(m, at + 8) == value
            &&& word_in(m, at + 8) < 1_000_000_000
            &&& same_but(mem, m, at as int, 16)
        }),
{
    let secs = (value / 1_000_000_000) as u64;
    let nanos = (value % 1_000_000_000) as u32;
    let list = timespec_stores(at as int, value);
    let l1 = list.drop_first();
    let l2 = l1.drop_first();
    let l3 = l2.drop_first();
    assert(le64(secs).len() == 8 && le32(nanos).len() == 4 && le32(0).len() == 4);
    let m1 = patched(mem, at as int, le64(secs));
    let m2 = patched(m1, at + 8, le32(nanos));
    let m3 = patched(m2, at + 12, le32(0));
    assert(stores(m3, l3) == (m3, Ok::<(), Errno>(())));
    assert(stores(m2, l2) == (m3, Ok::<(), Errno>(())));
    assert(stores(m1, l1) == (m3, Ok::<(), Errno>(())));
    lemma_patched_double(mem, at as int, secs);
    lemma_patched_word(m1, at + 8, nanos);
    assert(word_in(m3, at as int) == word_in(m1, at as int));
    assert(word_in(m3, at + 4) == word_in(m1, at + 4));
    assert(word_in(m3, at + 8) == word_in(m2, at + 8));
}

/// Clock 0 tells the time of day, clocks 1, 2, 3 and 7 the time since the session began, as
/// seconds and the nanoseconds that are left; there are no others.
pub proof fn law_a_clock_tells_its_time(
    mem: Seq<u8>,
    elapsed: Nanos,
    realtime: Nanos,
    id: i32,
    at: u32,
)
    requires
        at + 16 <= mem.len(),
        at + 16 <= u32::MAX,
        elapsed / 1_000_000_000 <= u64::MAX,
        realtime / 1_000_000_000 <= u64::MAX,
    ensures
        ({
            let (m, r) = gettime_spec(mem, elapsed, realtime, id, at);
            let known = id == 0 || id == 1 || id == 2 || id == 3 || id == 7;
            &&& known ==> r == Sys::Ok(0) && word_in(m, at + 8) < 1_000_000_000 && double_in(
                m,
                at as int,
            ) * 1_000_000_000 + word_in(m, at + 8) == if id == 0 {
                realtime
            } else {
                elapsed
            }
            &&& known ==> same_but(mem, m, at as int, 16)
            &&& !known ==> r == errno::<i32>(Errno::INVAL) && m == mem
        }),
{
    lemma_timespec_stored(mem, at, elapsed);
    lemma_timespec_stored(mem, at, realtime);
}

/// What a clock told is what a `timespec` read back says.
pub proof fn law_a_told_time_reads_back(
    mem: Seq<u8>,
    elapsed: Nanos,
    realtime: Nanos,
    at: u32,
)
    requires
        at + 16 <= mem.len(),
        at + 16 <= u32::MAX,
        elapsed / 1_000_000_000 < 0x8000_0000_0000_0000,
        realtime / 1_000_000_000 < 0x8000_0000_0000_0000,
    ensures
        timespec_at(gettime_spec(mem, elapsed, realtime, 0, at).0, at as int) == Ok::<Nanos, Errno>(
            realtime,
        ),
        timespec_at(gettime_spec(mem, elapsed, realtime, 1, at).0, at as int) == Ok::<Nanos, Errno>(
            elapsed,
        ),
{
    law_a_clock_tells_its_time(mem, elapsed, realtime, 0, at);
    law_a_clock_tells_its_time(mem, elapsed, realtime, 1, at);
}

/// The time of day as seconds and microseconds, four bytes each.
pub proof fn law_the_time_of_day_in_microseconds(mem: Seq<u8>, realtime: Nanos, at: u32)
    requires
        at + 8 <= mem.len(),
        at + 8 <= u32::MAX,
        realtime / 1_000_000_000 <= u32::MAX,
    ensures
        ({
            let (m, r) = timeofday_spec(mem, realtime, at);
            &&& r == Sys::Ok(0)
            &&& word_in(m, at as int) * 1_000_000 + word_in(m, at + 4) == realtime / 1000
            &&& word_in(m, at + 4) < 1_000_000
        }),
{
    let secs = (realtime / 1_000_000_000) as u32;
    let micros = (realtime % 1_000_000_000 / 1000) as u32;
    let list = seq![
        (at as int, le32(secs)),
        (at + 4, le32(micros)),
    ];
    let l1 = list.drop_first();
    let l2 = l1.drop_first();
    assert(le32(secs).len() == 4 && le32(micros).len() == 4);
    let m1 = patched(mem, at as int, le32(secs));
    let m2 = patched(m1, at + 4, le32(micros));
    assert(stores(m2, l2) == (m2, Ok::<(), Errno>(())));
    assert(stores(m1, l1) == (m2, Ok::<(), Errno>(())));
    assert(stores(mem, list) == (m2, Ok::<(), Errno>(())));
    lemma_patched_word(mem, at as int, secs);
    lemma_patched_word(m1, at + 4, micros);
    assert(word_in(m2, at as int) == word_in(m1, at as int));
}

/// A sleep lasts as long as was asked: it is over once that long has passed since it began,
/// however often it is asked again in between, and until then the process is to be woken at
/// that moment.
pub proof fn law_a_sleep_lasts_as_long_as_asked<F>(
    sh: SharedView<F>,
    ctx: CtxView,
    mem: Seq<u8>,
    began: Nanos,
    now: Nanos,
    realtime: Nanos,
    at: u32,
    id: i32,
    asked: Nanos,
    i: int,
)
    requires
        timespec_at(mem, at as int) == Ok::<Nanos, Errno>(asked),
        ctx.state.deadline is None,
        began <= now,
        began + asked <= 9_223_372_036_854_775_807_000_000_000,
        is_record(sh.table, ctx.task.pid, i),
    ensures
        ({
            let (s, c, r) = sleep_spec(sh, ctx, mem, began, realtime, at, false, id);
            let (s2, c2, r2) = sleep_spec(s, c, mem, now, realtime, at, false, id);
            &&& r == Sys::Ok(0) <==> asked == 0
            &&& r2 == Sys::Ok(0) <==> now >= began + asked
            &&& r is Err ==> r == Sys::Err(Fault::Block) && s.table[i].wake_at == Some(
                (began + asked) as u128,
            )
            &&& r2 is Err ==> r2 == Sys::Err(Fault::Block)
        }),
{
    lemma_is_record(sh.table, ctx.task.pid, i);
}

/// A sleep until a moment is over once its clock has reached it.
pub proof fn law_a_sleep_until_a_moment<F>(
    sh: SharedView<F>,
    ctx: CtxView,
    mem: Seq<u8>,
    elapsed: Nanos,
    realtime: Nanos,
    at: u32,
    id: i32,
    moment: Nanos,
    i: int,
)
    requires
        timespec_at(mem, at as int) == Ok::<Nanos, Errno>(moment),
        ctx.state.deadline is None,
        elapsed + moment <= 9_223_372_036_854_775_807_000_000_000,
        is_record(sh.table, ctx.task.pid, i),
    ensures
        ({
            let (s, c, r) = sleep_spec(sh, ctx, mem, elapsed, realtime, at, true, id);
            let clock = if id == 0 {
                realtime
            } else {
                elapsed
            };
            &&& r == Sys::Ok(0) <==> clock >= moment
            &&& r is Err ==> r == Sys::Err(Fault::Block) && s.table[i].wake_at == Some(
                (elapsed + (moment - clock)) as u128,
            )
        }),
{
    lemma_is_record(sh.table, ctx.task.pid, i);
}

// ---------------------------------------------------------------------------------------------
// limits

/// `prlimit` stores two numbers of eight bytes: for open files the limit on them, for data the
/// limit on a process's memory, for the stack a megabyte, for a core nothing and no limit, and
/// for all else no limit.
pub proof fn law_prlimit_tells_the_limits(limits: Limits, mem: Seq<u8>, resource: i32, at: u32)
    requires
        0 < at,
        at + 16 <= mem.len(),
        at + 16 <= u32::MAX,
    ensures
        ({
            let (m, r) = prlimit_spec(limits, mem, resource, at);
            let most = double_in(m, at + 8);
            let soft = double_in(m, at as int);
            &&& r == Sys::Ok(0)
            &&& resource == 7 ==> soft == limits.open_files && most == limits.open_files
            &&& resource == 2 ==> soft == limits.memory_per_process && most
                == limits.memory_per_process
            &&& resource == 3 ==> soft == 1048576 && most == 1048576
            &&& resource == 4 ==> soft == 0 && most == u64::MAX
            &&& resource != 2 && resource != 3 && resource != 4 && resource != 7 ==> soft
                == u64::MAX && most == u64::MAX
        }),
{
    let (soft, hard) = crate::syscall::process::rlimit(limits, resource);
    let list = seq![(at as int, le64(soft)), (at + 8, le64(hard))];
    let l1 = list.drop_first();
    let l2 = l1.drop_first();
    assert(le64(soft).len() == 8 && le64(hard).len() == 8);
    let m1 = patched(mem, at as int, le64(soft));
    let m2 = patched(m1, at + 8, le64(hard));
    assert(stores(m2, l2) == (m2, Ok::<(), Errno>(())));
    assert(stores(m1, l1) == (m2, Ok::<(), Errno>(())));
    assert(stores(mem, list) == (m2, Ok::<(), Errno>(())));
    lemma_patched_double(mem, at as int, soft);
    lemma_patched_double(m1, at + 8, hard);
    assert(word_in(m2, at as int) == word_in(m1, at as int));
    assert(word_in(m2, at + 4) == word_in(m1, at + 4));
}

/// `times` returns the time since the session began in hundredths of a second.
pub proof fn law_times_counts_hundredths(mem: Seq<u8>, elapsed: Nanos)
    requires
        elapsed < 10_000_000 * 0x8000_0000,
    ensures
        times_spec(mem, elapsed, 0) == (mem, Sys::Ok((elapsed / 10_000_000) as i32)),
{
}

/// `sysinfo` tells the seconds since the session began in its first word, the memory there is
/// at 16 and what is left of it at 20, the living processes at 40, and one byte as the unit of
/// memory at 52.
pub proof fn law_sysinfo_tells_memory_and_processes<F>(sh: SharedView<F>, elapsed: Nanos)
    requires
        sh.limits.memory <= u32::MAX,
        sh.memory_used <= sh.limits.memory,
        elapsed / 1_000_000_000 <= u32::MAX,
        alive_count(sh.table) < 65536,
    ensures
        ({
            let block = sysinfo_block(sh, elapsed);
            &&& block.len() == 64
            &&& word_in(block, 0) == elapsed / 1_000_000_000
            &&& word_in(block, 16) == sh.limits.memory
            &&& word_in(block, 20) == sh.limits.memory - sh.memory_used
            &&& half_in(block, 40) == alive_count(sh.table)
            &&& word_in(block, 52) == 1
        }),
{
    let up = (elapsed / 1_000_000_000) as u32;
    let total = sh.limits.memory as u32;
    let free = (sh.limits.memory - sh.memory_used) as u32;
    let alive = alive_count(sh.table) as u16;
    assert((elapsed / 1_000_000_000 % 0x1_0000_0000) as u32 == up);
    lemma_sysinfo_block(up, total, free, alive);
}

/// The words of a block as `sysinfo` lays it out.
#[verifier::spinoff_prover]
proof fn lemma_sysinfo_block(up: u32, total: u32, free: u32, alive: u16)
    ensures
        ({
            let b0 = patched(zeros(64), 0, le32(up));
            let b1 = patched(b0, 16, le32(total));
            let b2 = patched(b1, 20, le32(free));
            let b3 = patched(b2, 52, le32(1));
            let block = patched(b3, 40, le16(alive));
            &&& block.len() == 64
            &&& word_in(block, 0) == up
            &&& word_in(block, 16) == total
            &&& word_in(block, 20) == free
            &&& half_in(block, 40) == alive
            &&& word_in(block, 52) == 1
        }),
{
    let b0 = patched(zeros(64), 0, le32(up));
    let b1 = patched(b0, 16, le32(total));
    let b2 = patched(b1, 20, le32(free));
    let b3 = patched(b2, 52, le32(1));
    let block = patched(b3, 40, le16(alive));
    lemma_patched_word(zeros(64), 0, up);
    lemma_patched_word(b0, 16, total);
    lemma_patched_word(b1, 20, free);
    lemma_patched_word(b2, 52, 1);
    assert(word_in(block, 0) == word_in(b0, 0));
    assert(word_in(block, 16) == word_in(b1, 16));
    assert(word_in(block, 20) == word_in(b2, 20));
    assert(word_in(block, 52) == word_in(b3, 52));
    assert(block[40] == le16(alive)[0] && block[41] == le16(alive)[1]);
}

// ---------------------------------------------------------------------------------------------
// memory

/// `brk` asks for just the pages that the request needs, within the limits, and then returns
/// the request; where it may not grow or cannot, it returns where memory ends.
pub proof fn law_brk_grows_to_the_request<F>(
    sh: SharedView<F>,
    ctx: CtxView,
    size: int,
    request: u32,
)
    requires
        0 <= size <= 0x7fff_ffff,
        request <= 0x7fff_ffff,
    ensures
        ({
            let (s, c, r) = brk_spec(sh, ctx, size, request);
            &&& request <= size || request > sh.limits.memory_per_process ==> r == Sys::Ok(
                size as i32,
            ) && s == sh && c == ctx
            &&& r matches Err(x) ==> {
                &&& x matches Fault::Grow(pages)
                &&& 65536 * (pages - 1) < request - size <= 65536 * pages
                &&& s.memory_used == sh.memory_used + 65536 * pages
                &&& brk_grown(s, c, size, request, true).2 == Sys::Ok(request as i32)
                &&& brk_grown(s, c, size, request, false).2 == Sys::Ok(size as i32)
                &&& brk_grown(s, c, size, request, false).0.memory_used == sh.memory_used
            }
            &&& r matches Ok(v) ==> v == size && s == sh
        }),
{
}

/// `mmap` asks for just the pages that hold its length, and then returns where the new pages
/// begin, which is where memory ended. What it was to show of a file stands there, and zeros
/// behind it up to its length; nothing else changes.
pub proof fn law_mmap_returns_where_memory_ended<F>(
    sh: SharedView<F>,
    ctx: CtxView,
    mem: Seq<u8>,
    length: u32,
    flags: i32,
    previous: u64,
)
    requires
        ctx.state.staged.len() <= length,
        65536 * previous + length <= mem.len(),
        65536 * previous <= 0x7fff_ffff,
    ensures
        ({
            let (s, c, m, r) = mmap_grown(sh, ctx, mem, length, flags, Some(previous));
            let at = 65536 * previous;
            &&& r == Sys::Ok(at as i32)
            &&& s == sh
            &&& flags & 0x20 != 0 ==> m == mem
            &&& flags & 0x20 == 0 ==> {
                &&& same_but(mem, m, at as int, length as int)
                &&& forall|i: int|
                    0 <= i < length ==> #[trigger] m[at + i] == if i < ctx.state.staged.len() {
                        ctx.state.staged[i]
                    } else {
                        0
                    }
            }
        }),
{
    let at = 65536 * previous;
    let data = padded(ctx.state.staged, length as int);
    assert(data.len() == length);
    assert(patched(mem, at as int, data).len() == mem.len());
}

/// What `mmap` shows of a file in memory is what the file holds from its offset, given in
/// pages of 4096 bytes, as far as both reach; the file's position stays where it was.
pub proof fn law_mmap_shows_the_file(
    sh: SharedView<MemFile>,
    ctx: CtxView,
    fs: Seq<MountView<MemModel>>,
    length: u32,
    fd: i32,
    pages: i32,
    mount: int,
    file: MemFile,
)
    requires
        memory_file(sh, ctx, fs, fd, mount, file),
        ctx.state.put_back is None,
        0 <= pages,
        length > 0,
    ensures
        ({
            let (s, c, f, r) = shown::<MemVfs>(sh, ctx, fs, length, fd, pages);
            let data = fs[mount].state.files[file.ino as int];
            let from = 4096 * pages;
            &&& memory_file(s, ctx, f, fd, mount, file)
            &&& f =~= fs
            &&& r matches Ok(got)
            &&& from >= data.len() ==> got.len() == 0
            &&& from < data.len() ==> got == data.subrange(
                from as int,
                if from + length < data.len() {
                    from + length
                } else {
                    data.len() as int
                },
            )
        }),
{
    let data = fs[mount].state.files[file.ino as int];
    let from = 4096 * pages;
    let there = MemFile { pos: from as u64, ..file };
    let got = read_at(data, from as int, length as int);
    let after = MemFile { pos: (from + got.len()) as u64, ..there };
    let f1 = fs.update(mount, fs[mount]);
    assert(f1 =~= fs);
    lemma_read_on(fs, mount, there, length as int);
    let (f4, h4, put, answer) = mapped::<MemVfs>(
        fs,
        mount,
        file,
        None,
        byte_offset(pages),
        length as int,
    );
    assert(byte_offset(pages) == from);
    assert(answer == Ok::<Seq<u8>, Errno>(got));
    assert(h4 == file);
    assert(f4 =~= fs);
}

/// Reading on gives all there is from the position, up to what is wanted.
proof fn lemma_read_on(fs: Seq<MountView<MemModel>>, mount: int, file: MemFile, want: int)
    requires
        0 <= mount < fs.len(),
        file.ino < fs[mount].state.files.len(),
        fs[mount].state.files[file.ino as int].len() < 0x4000_0000_0000_0000,
        file.pos < 0x4000_0000_0000_0000,
        0 < want <= u32::MAX,
    ensures
        ({
            let (f, h, got) = read_on::<MemVfs>(fs, mount, file, Seq::empty(), want);
            let data = fs[mount].state.files[file.ino as int];
            let all = read_at(data, file.pos as int, want);
            &&& f =~= fs
            &&& got == Ok::<Seq<u8>, Errno>(all)
            &&& h == (MemFile { pos: (file.pos + all.len()) as u64, ..file })
        }),
{
    let data = fs[mount].state.files[file.ino as int];
    let none = Seq::<u8>::empty();
    let all = read_at(data, file.pos as int, want);
    let h = MemFile { pos: (file.pos + all.len()) as u64, ..file };
    assert(fs.update(mount, fs[mount]) =~= fs);
    assert(none + all =~= all);
    if all.len() == 0 {
        assert(all =~= none);
        assert(read_on::<MemVfs>(fs, mount, file, none, want).2 == Ok::<Seq<u8>, Errno>(none));
    } else {
        assert(read_on::<MemVfs>(fs, mount, file, none, want) == read_on::<MemVfs>(
            fs,
            mount,
            h,
            all,
            want,
        ));
        if all.len() < want {
            assert(h.pos >= data.len());
            assert(read_at(data, h.pos as int, want - all.len()).len() == 0);
            assert(read_on::<MemVfs>(fs, mount, h, all, want).2 == Ok::<Seq<u8>, Errno>(all));
            assert(read_on::<MemVfs>(fs, mount, h, all, want).1 == h);
        }
    }
}

// ---------------------------------------------------------------------------------------------
// the terminal

/// The size of the terminal is its rows and then its columns, two bytes each.
pub proof fn law_the_terminal_tells_its_size<F>(
    sh: SharedView<F>,
    ctx: CtxView,
    mem: Seq<u8>,
    t: TerminalView,
    at: u32,
)
    requires
        at + 8 <= mem.len(),
        at + 8 <= u32::MAX,
    ensures
        ({
            let (s, m, r) = terminal_spec(sh, ctx, mem, t, 0x5413, at);
            &&& r == Sys::Ok(0)
            &&& half_in(m, at as int) == t.rows
            &&& half_in(m, at + 2) == t.cols
            &&& s == sh
        }),
{
    let list = winsize_stores(at, t);
    let l1 = list.drop_first();
    let l2 = l1.drop_first();
    let l3 = l2.drop_first();
    let l4 = l3.drop_first();
    assert(le16(t.rows).len() == 2 && le16(t.cols).len() == 2 && le16(0).len() == 2);
    let m1 = patched(mem, at as int, le16(t.rows));
    let m2 = patched(m1, at + 2, le16(t.cols));
    let m3 = patched(m2, at + 4, le16(0));
    let m4 = patched(m3, at + 6, le16(0));
    assert(stores(m4, l4) == (m4, Ok::<(), Errno>(())));
    assert(stores(m3, l3) == (m4, Ok::<(), Errno>(())));
    assert(stores(m2, l2) == (m4, Ok::<(), Errno>(())));
    assert(stores(m1, l1) == (m4, Ok::<(), Errno>(())));
    assert(m4[at as int] == le16(t.rows)[0] && m4[at + 1] == le16(t.rows)[1]);
    assert(m4[at + 2] == le16(t.cols)[0] && m4[at + 3] == le16(t.cols)[1]);
}

/// The settings of a terminal are four words of flags, one byte and nineteen characters. What
/// a guest sets is what the next one is told.
pub proof fn law_the_terminal_keeps_its_settings<F>(
    sh: SharedView<F>,
    ctx: CtxView,
    mem: Seq<u8>,
    t: TerminalView,
    request: u32,
    at: u32,
    other: Seq<u8>,
    place: u32,
)
    requires
        0x5402 <= request <= 0x5404,
        at + 36 <= mem.len(),
        place + 36 <= other.len(),
    ensures
        ({
            let (s, m, r) = terminal_spec(sh, ctx, mem, t, request, at);
            &&& r == Sys::Ok(0)
            &&& m == mem
            &&& s.terminal matches Some(now)
            &&& now.termios.iflag == word_in(mem, at as int)
            &&& now.termios.oflag == word_in(mem, at + 4)
            &&& now.termios.cflag == word_in(mem, at + 8)
            &&& now.termios.lflag == word_in(mem, at + 12)
            &&& now.rows == t.rows && now.cols == t.cols
            &&& terminal_spec(s, ctx, other, now, 0x5401, place).1.subrange(
                place as int,
                place + 36,
            ) == mem.subrange(at as int, at + 36)
        }),
{
    let b = mem.subrange(at as int, at + 36);
    let termios = TermiosView::decoded(b);
    crate::kernel::tty::law_termios_round_trip(termios);
    lemma_encoded(b);
    assert(word_in(b, 0) == word_in(mem, at as int));
    assert(word_in(b, 4) == word_in(mem, at + 4));
    assert(word_in(b, 8) == word_in(mem, at + 8));
    assert(word_in(b, 12) == word_in(mem, at + 12));
    assert(patched(other, place as int, b).subrange(place as int, place + 36) =~= b);
}

proof fn lemma_digits(a: int, b: int, c: int, d: int)
    requires
        0 <= a < 256,
        0 <= b < 256,
        0 <= c < 256,
        0 <= d < 256,
    ensures
        ({
            let v = a + 256 * b + 65536 * c + 16777216 * d;
            v % 256 == a && v / 256 % 256 == b && v / 65536 % 256 == c && v / 16777216 == d
        }),
{
    let v = a + 256 * b + 65536 * c + 16777216 * d;
    assert(v / 256 == b + 256 * c + 65536 * d);
    assert(v / 65536 == c + 256 * d);
    assert(v / 16777216 == d);
}

proof fn lemma_word_bytes(b: Seq<u8>, at: int)
    requires
        0 <= at,
        at + 4 <= b.len(),
    ensures
        le32(crate::kernel::mem::word_at(b, at)) == b.subrange(at, at + 4),
{
    lemma_digits(b[at] as int, b[at + 1] as int, b[at + 2] as int, b[at + 3] as int);
    assert(le32(crate::kernel::mem::word_at(b, at)) =~= b.subrange(at, at + 4));
}

proof fn lemma_encoded(b: Seq<u8>)
    requires
        b.len() == 36,
    ensures
        TermiosView::decoded(b).encoded() == b,
{
    lemma_word_bytes(b, 0);
    lemma_word_bytes(b, 4);
    lemma_word_bytes(b, 8);
    lemma_word_bytes(b, 12);
    assert(TermiosView::decoded(b).encoded() =~= b);
}

/// How much `FIONREAD` says can be read is how much a read with room for it gives from a pipe.
pub proof fn law_what_can_be_read_is_told<V: Vfs>(
    sh: SharedView<<V as VfsFile>::Handle>,
    ctx: CtxView,
    fs: Seq<MountView<<V as VfsFile>::State>>,
    mem: Seq<u8>,
    realtime: u128,
    fd: i32,
    at: u32,
    k: u32,
    len: usize,
)
    requires
        at + 4 <= mem.len(),
        super::vectors::reads_pipe(sh, ctx, fd, k),
        0 < sh.pipes.get(k)->0.data.len() <= len,
        sh.pipes.get(k)->0.data.len() <= u32::MAX,
    ensures
        ({
            let (s, c, m, r) = ioctl_spec(sh, ctx, mem, fd, 0x541b, at);
            let got = read_spec::<V>(sh, ctx, fs, realtime, fd, len).2;
            &&& r == Sys::Ok(0)
            &&& got matches Ok(data)
            &&& word_in(m, at as int) == data.len()
            &&& s == sh && c == ctx
        }),
{
    lemma_readable_is_told(sh, ctx, mem, fd, at, k);
    lemma_pipe_gives_all::<V>(sh, ctx, fs, realtime, fd, k, len);
}

#[verifier::spinoff_prover]
proof fn lemma_readable_is_told<F>(
    sh: SharedView<F>,
    ctx: CtxView,
    mem: Seq<u8>,
    fd: i32,
    at: u32,
    k: u32,
)
    requires
        at + 4 <= mem.len(),
        super::vectors::reads_pipe(sh, ctx, fd, k),
        sh.pipes.get(k)->0.data.len() <= u32::MAX,
    ensures
        ({
            let (s, c, m, r) = ioctl_spec(sh, ctx, mem, fd, 0x541b, at);
            &&& r == Sys::Ok(0)
            &&& word_in(m, at as int) == sh.pipes.get(k)->0.data.len()
            &&& s == sh && c == ctx
        }),
{
    let n = sh.pipes.get(k)->0.data.len();
    lemma_patched_word(mem, at as int, n as u32);
}

#[verifier::spinoff_prover]
proof fn lemma_pipe_gives_all<V: Vfs>(
    sh: SharedView<<V as VfsFile>::Handle>,
    ctx: CtxView,
    fs: Seq<MountView<<V as VfsFile>::State>>,
    realtime: u128,
    fd: i32,
    k: u32,
    len: usize,
)
    requires
        super::vectors::reads_pipe(sh, ctx, fd, k),
        0 < sh.pipes.get(k)->0.data.len() <= len,
    ensures
        read_spec::<V>(sh, ctx, fs, realtime, fd, len).2 matches Ok(data) && data.len()
            == sh.pipes.get(k)->0.data.len(),
{
}

/// `FIONBIO` makes a file wait or not by the word it is given, and changes nothing else of it;
/// `FIOCLEX` and `FIONCLEX` set and clear a descriptor's mark.
pub proof fn law_ioctl_sets_waiting_and_closing<F>(
    sh: SharedView<F>,
    ctx: CtxView,
    mem: Seq<u8>,
    fd: i32,
    at: u32,
)
    requires
        at + 4 <= mem.len(),
        behind(sh, ctx, fd) is Some,
    ensures
        ({
            let (s, c, m, r) = ioctl_spec(sh, ctx, mem, fd, 0x5421, at);
            let before = behind(sh, ctx, fd)->0;
            &&& r == Sys::Ok(0)
            &&& behind(s, c, fd) matches Some(after)
            &&& after.nonblocking() == (word_in(mem, at as int) != 0)
            &&& after.flags & !0x800u32 == before.flags & !0x800u32
            &&& after == (DescView { flags: after.flags, ..before })
        }),
        fd_at(ioctl_spec(sh, ctx, mem, fd, 0x5451, at).1.task.fds, fd as int)->0.cloexec,
        !fd_at(ioctl_spec(sh, ctx, mem, fd, 0x5450, at).1.task.fds, fd as int)->0.cloexec,
{
    let flags = behind(sh, ctx, fd)->0.flags;
    assert((flags | 0x800) & 0x800 != 0 && (flags & !0x800u32) & 0x800 == 0 && (flags | 0x800)
        & !0x800u32 == flags & !0x800u32 && (flags & !0x800u32) & !0x800u32 == flags & !0x800u32)
        by (bit_vector);
}

// ---------------------------------------------------------------------------------------------
// random bytes

/// `getrandom` fills exactly the bytes it is given, all or none of them, and moves on, so that
/// the next call draws from another state.
pub proof fn law_random_bytes_fill_the_buffer<F>(
    sh: SharedView<F>,
    mem: Seq<u8>,
    realtime: u128,
    at: u32,
    len: u32,
)
    requires
        len <= i32::MAX,
    ensures
        ({
            let (s, m, r) = getrandom_spec(sh, mem, realtime, at, len);
            &&& at + len > mem.len() ==> r == errno::<i32>(Errno::FAULT) && m == mem && s == sh
            &&& at + len <= mem.len() ==> {
                &&& r == Sys::Ok(len as i32)
                &&& same_but(mem, m, at as int, len as int)
                &&& s.random != 0
                &&& forall|i: int|
                    0 <= i < len ==> #[trigger] m[at + i] == stepped(
                        seed_of(sh.random, realtime),
                        (i + 1) as nat,
                    ) % 256
            }
        }),
{
    let seed = seed_of(sh.random, realtime);
    super::texts::law_random_states_stay_apart(sh.random, 0, realtime);
    lemma_never_zero(seed, len as nat);
    if at + len <= mem.len() {
        let data = random_bytes(seed, len as nat);
        let m = getrandom_spec(sh, mem, realtime, at, len).1;
        assert forall|i: int| 0 <= i < len implies #[trigger] m[at + i] == stepped(
            seed,
            (i + 1) as nat,
        ) % 256 by {
            assert(m[at + i] == data[i]);
        }
    }
}

proof fn lemma_never_zero(seed: u64, n: nat)
    requires
        seed != 0,
    ensures
        stepped(seed, n) != 0,
    decreases n,
{
    if n > 0 {
        lemma_never_zero(seed, (n - 1) as nat);
        super::texts::law_random_states_stay_apart(stepped(seed, (n - 1) as nat), 0, 0);
    }
}

// ---------------------------------------------------------------------------------------------
// the machine

/// There is one processor, and a process may run on it.
pub proof fn law_there_is_one_processor(mem: Seq<u8>, at: i32)
    requires
        8 <= at,
        at + 8 <= mem.len(),
    ensures
        affinity_spec(mem, at).1 == Sys::Ok(8),
        double_in(affinity_spec(mem, at).0, at as int) == 1,
{
    lemma_patched_double(mem, at as int, 1);
}

/// What is told of a filesystem: its kind, blocks of 4096 bytes, and names of up to 255.
pub proof fn law_what_is_told_of_a_filesystem()
    ensures
        statfs_block().len() == 88,
        word_in(statfs_block(), 0) == 0x5741534d,
        word_in(statfs_block(), 4) == 4096,
        word_in(statfs_block(), 56) == 255,
{
    let b0 = patched(zeros(88), 0, le32(0x5741534d));
    let b1 = patched(b0, 4, le32(4096));
    let b2 = patched(b1, 56, le32(255));
    let b3 = patched(b2, 60, le32(4096));
    lemma_patched_word(zeros(88), 0, 0x5741534d);
    lemma_patched_word(b0, 4, 4096);
    lemma_patched_word(b1, 56, 255);
    assert(statfs_block() == b3);
    assert(word_in(b3, 0) == word_in(b0, 0));
    assert(word_in(b3, 4) == word_in(b1, 4));
    assert(word_in(b3, 56) == word_in(b2, 56));
}

/// A process starts in the top directory, with the usual mask for new files, and with no signal
/// blocked or given an action.
pub proof fn law_a_fresh_process_has_nothing_set(pid: i32, s: i32)
    ensures
        ({
            let t = TaskView::fresh(pid, Seq::empty());
            &&& t.pid == pid
            &&& t.cwd == "/"@
            &&& t.umask == 2 * 8 + 2
            &&& t.sigmask == 0
            &&& t.action(s).handler == 0 && t.action(s).flags == 0 && t.action(s).mask == 0
        }),
{
}

} // verus!
