//! `statx`, and the files under `/proc`.
use super::base::{errno, fault_of, looked_up, noted, resolve, vfs_fault, Fault, Sys};
use super::path::follows;
use crate::abi::{
    AT_EMPTY_PATH, AT_SYMLINK_NOFOLLOW, STATX_BASIC_STATS, S_IFCHR, S_IFDIR, S_IFLNK, S_IFREG,
};
use crate::errno::Errno;
use crate::kernel::fd::{fd_at, DescKind, DescView, KindView};
use crate::kernel::mem::{
    byte_strings, bytes16, bytes32, bytes64, cstr, le16, le32, le64, patched, put, put_u16,
    set_field, store, text_at, wrap, wrapped, zeroed, zeros,
};
use crate::kernel::mounts::{called, file_called, MountView, Mounts};
use crate::kernel::namespace::{Device, Node, NodeView};
use crate::kernel::state::{Clock, Ctx, CtxView, Shared, SharedView};
use crate::text::{chars_of, padded, push_padded, push_signed, same, signed_decimal, text_of};
use crate::vfs::{
    plain_stat, FileAnswer, FileCall, FileType, Stat, Vfs, VfsAnswer, VfsCall, VfsFile,
};
use std::hash::{BuildHasher, BuildHasherDefault, DefaultHasher};
use vstd::prelude::*;
use vstd::string::*;
use vstd::utf8::encode_utf8;

verus! {

/// What the standard library's default hasher gives for a text.
pub uninterp spec fn text_hash(text: Seq<char>) -> u64;

/// `BuildHasher::hash_one` with the standard library's default hasher, which is made without a
/// seed: every hasher made that way is the same, so the hash depends on the text alone.
#[verifier::external_body]
fn hash_text(text: &str) -> (r: u64)
    ensures
        r == text_hash(text@),
{
    BuildHasherDefault::<DefaultHasher>::default().hash_one(text)
}

/// The inode number of a path that has none: odd, so never zero, and positive when signed.
pub open spec fn ino_of(path: Seq<char>) -> u64 {
    (text_hash(path) >> 1u64) | 1
}

/// A stable inode number for a path that has none.
pub fn hashed_ino(path: &str) -> (r: u64)
    ensures
        r == ino_of(path@),
{
    (hash_text(path) >> 1u64) | 1
}

/// The default permission bits for a stat that did not supply any.
pub open spec fn mode_of(kind: FileType) -> u32 {
    match kind {
        FileType::Dir => 0x1ed,
        FileType::File => 0x1a4,
        FileType::Symlink => 0x1ff,
    }
}

/// The default permission bits for a stat that did not supply any.
pub fn default_mode(kind: FileType) -> (r: u32)
    ensures
        r == mode_of(kind),
{
    match kind {
        FileType::Dir => 0x1ed,
        FileType::File => 0x1a4,
        FileType::Symlink => 0x1ff,
    }
}

/// The bits of a mode that say what kind of file it is.
pub open spec fn kind_bits(kind: FileType) -> u32 {
    match kind {
        FileType::Dir => S_IFDIR,
        FileType::File => S_IFREG,
        FileType::Symlink => S_IFLNK,
    }
}

/// The bits of a mode that say what kind of file it is.
pub fn type_bits(kind: FileType) -> (r: u32)
    ensures
        r == kind_bits(kind),
{
    match kind {
        FileType::Dir => S_IFDIR,
        FileType::File => S_IFREG,
        FileType::Symlink => S_IFLNK,
    }
}

/// The unsigned double word with the same bits.
pub open spec fn double_of(v: i64) -> u64 {
    if v >= 0 {
        v as u64
    } else {
        (v + 0x1_0000_0000_0000_0000) as u64
    }
}

fn double(v: i64) -> (r: u64)
    ensures
        r == double_of(v),
{
    if v >= 0 {
        v as u64
    } else {
        (v as i128 + 0x1_0000_0000_0000_0000) as u64
    }
}

/// The four timestamps, from the `at`th byte on: all of them the modification time.
pub open spec fn with_time(block: Seq<u8>, at: int, mtime: (i64, u32)) -> Seq<u8> {
    patched(patched(block, at, le64(double_of(mtime.0))), at + 8, le32(mtime.1))
}

/// The `statx` buffer: what is filled in, and where.
pub open spec fn statx_block(stat: Stat, path: Seq<char>, rdev: (u32, u32)) -> Seq<u8> {
    let mode = if stat.mode == 0 {
        mode_of(stat.file_type)
    } else {
        stat.mode
    };
    let ino = if stat.ino == 0 {
        ino_of(path)
    } else {
        stat.ino
    };
    let nlink = if stat.nlink > 0 {
        stat.nlink
    } else {
        1
    };
    let b0 = patched(zeros(256), 0, le32(STATX_BASIC_STATS));
    let b1 = patched(b0, 4, le32(4096));
    let b2 = patched(b1, 16, le32(nlink));
    let b3 = patched(b2, 28, le16(((kind_bits(stat.file_type) | mode) % 65536) as u16));
    let b4 = patched(b3, 32, le64(ino));
    let b5 = patched(b4, 40, le64(stat.size));
    let b6 = patched(b5, 48, le64(((stat.size + 511) / 512) as u64));
    let b7 = with_time(
        with_time(with_time(with_time(b6, 64, stat.mtime), 80, stat.mtime), 96, stat.mtime),
        112,
        stat.mtime,
    );
    let b8 = patched(b7, 128, le32(rdev.0));
    let b9 = patched(b8, 132, le32(rdev.1));
    patched(patched(b9, 136, le32(0)), 140, le32(1))
}

fn set_time(block: &mut Vec<u8>, at: usize, mtime: (i64, u32))
    requires
        at + 12 <= old(block)@.len(),
    ensures
        final(block)@ == with_time(old(block)@, at as int, mtime),
{
    let size: usize = block.len();
    assert(at + 12 <= size);
    set_field(block, at, &bytes64(double(mtime.0)));
    set_field(block, at + 8, &bytes32(mtime.1));
}

/// Fill in the `statx` buffer.
fn build_statx(stat: &Stat, path: &str, rdev: (u32, u32)) -> (r: Vec<u8>)
    ensures
        r@ == statx_block(*stat, path@, rdev),
        r@.len() == 256,
{
    let mode: u32 = if stat.mode == 0 {
        default_mode(stat.file_type)
    } else {
        stat.mode
    };
    let ino: u64 = if stat.ino == 0 {
        hashed_ino(path)
    } else {
        stat.ino
    };
    let nlink: u32 = if stat.nlink > 0 {
        stat.nlink
    } else {
        1
    };
    let blocks: u64 = stat.size / 512 + if stat.size % 512 != 0 {
        1
    } else {
        0
    };
    assert(blocks == (stat.size + 511) / 512);
    let mut b = zeroed(256);
    set_field(&mut b, 0, &bytes32(STATX_BASIC_STATS));
    set_field(&mut b, 4, &bytes32(4096));
    set_field(&mut b, 16, &bytes32(nlink));
    set_field(&mut b, 28, &bytes16(((type_bits(stat.file_type) | mode) % 65536) as u16));
    set_field(&mut b, 32, &bytes64(ino));
    set_field(&mut b, 40, &bytes64(stat.size));
    set_field(&mut b, 48, &bytes64(blocks));
    set_time(&mut b, 64, stat.mtime);
    set_time(&mut b, 80, stat.mtime);
    set_time(&mut b, 96, stat.mtime);
    set_time(&mut b, 112, stat.mtime);
    set_field(&mut b, 128, &bytes32(rdev.0));
    set_field(&mut b, 132, &bytes32(rdev.1));
    set_field(&mut b, 136, &bytes32(0));
    set_field(&mut b, 140, &bytes32(1));
    b
}

// ---------------------------------------------------------------------------------------------
// /proc

/// What follows the last slash of a path.
pub open spec fn last_part(path: Seq<char>) -> Seq<char>
    decreases path.len(),
{
    if path.len() == 0 || path.last() == '/' {
        Seq::empty()
    } else {
        last_part(path.drop_last()).push(path.last())
    }
}

fn last_of(path: &str) -> (r: String)
    ensures
        r@ == last_part(path@),
{
    let chars = chars_of(path);
    let mut i: usize = 0;
    let mut from: usize = 0;
    while i < chars.len()
        invariant
            from <= i <= chars@.len(),
            chars@.subrange(from as int, i as int) == last_part(chars@.subrange(0, i as int)),
        decreases chars@.len() - i,
    {
        assert(chars@.subrange(0, i + 1).drop_last() =~= chars@.subrange(0, i as int));
        assert(chars@.subrange(0, i + 1).last() == chars@[i as int]);
        if chars[i] == '/' {
            from = i + 1;
            assert(chars@.subrange(from as int, i + 1) =~= Seq::empty());
        } else {
            assert(chars@.subrange(from as int, i + 1) =~= chars@.subrange(
                from as int,
                i as int,
            ).push(chars@[i as int]));
        }
        i = i + 1;
    }
    let mut out: Vec<char> = Vec::new();
    let mut j: usize = from;
    while j < chars.len()
        invariant
            from <= j <= chars@.len(),
            out@ == chars@.subrange(from as int, j as int),
        decreases chars@.len() - j,
    {
        out.push(chars[j]);
        j = j + 1;
        assert(out@ =~= chars@.subrange(from as int, j as int));
    }
    assert(chars@.subrange(0, i as int) =~= path@);
    text_of(out.as_slice())
}

/// One line per mount, for the first `n` of them.
pub open spec fn mount_lines<S>(ms: Seq<MountView<S>>, n: int) -> Seq<char>
    decreases n,
{
    if n <= 0 {
        Seq::empty()
    } else {
        mount_lines(ms, n - 1) + "wasmux "@ + ms[n - 1].at + " wasmux "@ + (if ms[n - 1].read_only {
            "ro"@
        } else {
            "rw"@
        }) + ",relatime 0 0\n"@
    }
}

/// Memory that is in use and memory there is, in kB.
pub open spec fn meminfo_text<F>(sh: SharedView<F>) -> Seq<char> {
    let total = sh.limits.memory / 1024;
    let used = sh.memory_used / 1024;
    let free = if used < total {
        (total - used) as nat
    } else {
        0
    };
    "MemTotal:       "@ + padded(total as nat, 8) + " kB\nMemFree:        "@ + padded(free, 8)
        + " kB\nMemAvailable:   "@ + padded(free, 8)
        + " kB\nBuffers:               0 kB\nCached:                0 kB\nSwapTotal:             0 kB\nSwapFree:              0 kB\n"@
}

/// The text of a generated `/proc` file.
pub open spec fn proc_text<F, S>(
    sh: SharedView<F>,
    ctx: CtxView,
    fs: Seq<MountView<S>>,
    uptime: Seq<char>,
    guest: Seq<char>,
) -> Seq<char> {
    let name = last_part(guest);
    let pid = signed_decimal(ctx.task.pid as int);
    if name == "cpuinfo"@ {
        "processor\t: 0\nvendor_id\t: wasmux\nmodel name\t: WebAssembly\nflags\t\t: wasm32\n"@
    } else if name == "meminfo"@ {
        meminfo_text(sh)
    } else if name == "uptime"@ {
        uptime + " "@ + uptime + "\n"@
    } else if name == "version"@ {
        "Linux version 6.1.0-wasmux (wasmux) #1 wasm32\n"@
    } else if name == "loadavg"@ {
        "0.00 0.00 0.00 1/1 1\n"@
    } else if name == "filesystems"@ {
        "nodev\tproc\n\twasmux\n"@
    } else if name == "mounts"@ {
        mount_lines(fs, fs.len() as int) + "proc /proc proc rw,relatime 0 0\n"@
    } else if name == "stat"@ && guest == "/proc/stat"@ {
        "cpu  0 0 0 0 0 0 0 0 0 0\nprocesses 1\n"@
    } else if name == "comm"@ {
        ctx.task.comm + "\n"@
    } else if name == "stat"@ {
        pid + " ("@ + ctx.task.comm + ") R 1 "@ + pid + " "@ + pid
            + " 0 -1 0 0 0 0 0 0 0 0 0 20 0 1 0 0 0 0\n"@
    } else if name == "status"@ {
        "Name:\t"@ + ctx.task.comm + "\nPid:\t"@ + pid + "\nPPid:\t1\nThreads:\t1\n"@
    } else {
        Seq::empty()
    }
}

/// Each argument with a NUL behind it, for the first `n` of them.
pub open spec fn nul_ended(list: Seq<Seq<u8>>, n: int) -> Seq<u8>
    decreases n,
{
    if n <= 0 {
        Seq::empty()
    } else {
        (nul_ended(list, n - 1) + list[n - 1]).push(0)
    }
}

/// The content of a generated `/proc` file.
pub open spec fn proc_bytes<F, S>(
    sh: SharedView<F>,
    ctx: CtxView,
    fs: Seq<MountView<S>>,
    uptime: Seq<char>,
    guest: Seq<char>,
) -> Seq<u8> {
    if last_part(guest) == "cmdline"@ {
        nul_ended(ctx.argv, ctx.argv.len() as int)
    } else {
        encode_utf8(proc_text(sh, ctx, fs, uptime, guest))
    }
}

/// Each argument with a NUL behind it.
pub fn join_nul(list: &Vec<Vec<u8>>) -> (r: Vec<u8>)
    ensures
        r@ == nul_ended(byte_strings(list@), list@.len() as int),
{
    let ghost all = byte_strings(list@);
    let mut out: Vec<u8> = Vec::new();
    let mut i: usize = 0;
    assert(out@ =~= nul_ended(all, 0));
    while i < list.len()
        invariant
            i <= list@.len(),
            all == byte_strings(list@),
            out@ == nul_ended(all, i as int),
        decreases list@.len() - i,
    {
        let ghost before = out@;
        out.extend_from_slice(list[i].as_slice());
        assert(out@ =~= before + all[i as int]);
        out.push(0);
        i = i + 1;
    }
    out
}

/// The content of a generated `/proc` file.
pub fn proc_content<V: Vfs>(
    sh: &Shared<<V as VfsFile>::Handle>,
    ctx: &Ctx,
    fs: &Mounts<V>,
    clock: &Clock,
    guest: &str,
) -> (r: Vec<u8>)
    ensures
        r@ == proc_bytes(sh@, ctx@, fs@, clock.uptime@, guest@),
{
    let name = last_of(guest);
    let name = name.as_str();
    let text: String = if same(name, "cpuinfo") {
        "processor\t: 0\nvendor_id\t: wasmux\nmodel name\t: WebAssembly\nflags\t\t: wasm32\n".to_owned()
    } else if same(name, "meminfo") {
        let total: u64 = sh.limits.memory / 1024;
        let used: u64 = sh.memory_used / 1024;
        let free: u64 = if used < total {
            total - used
        } else {
            0
        };
        let mut out = "MemTotal:       ".to_owned();
        push_padded(&mut out, total, 8);
        out.append(" kB\nMemFree:        ");
        push_padded(&mut out, free, 8);
        out.append(" kB\nMemAvailable:   ");
        push_padded(&mut out, free, 8);
        out.append(
            " kB\nBuffers:               0 kB\nCached:                0 kB\nSwapTotal:             0 kB\nSwapFree:              0 kB\n",
        );
        out
    } else if same(name, "uptime") {
        let mut out = clock.uptime.clone();
        out.append(" ");
        out.append(clock.uptime.as_str());
        out.append("\n");
        out
    } else if same(name, "version") {
        "Linux version 6.1.0-wasmux (wasmux) #1 wasm32\n".to_owned()
    } else if same(name, "loadavg") {
        "0.00 0.00 0.00 1/1 1\n".to_owned()
    } else if same(name, "filesystems") {
        "nodev\tproc\n\twasmux\n".to_owned()
    } else if same(name, "mounts") {
        let mut out = String::new();
        let mut i: usize = 0;
        while i < fs.len()
            invariant
                i <= fs@.len(),
                out@ == mount_lines(fs@, i as int),
            decreases fs@.len() - i,
        {
            out.append("wasmux ");
            out.append(fs.mount_point(i));
            out.append(" wasmux ");
            out.append(
                if fs.is_read_only(i) {
                    "ro"
                } else {
                    "rw"
                },
            );
            out.append(",relatime 0 0\n");
            i = i + 1;
        }
        out.append("proc /proc proc rw,relatime 0 0\n");
        out
    } else if same(name, "stat") && same(guest, "/proc/stat") {
        "cpu  0 0 0 0 0 0 0 0 0 0\nprocesses 1\n".to_owned()
    } else if same(name, "cmdline") {
        return join_nul(&ctx.argv);
    } else if same(name, "comm") {
        let mut out = ctx.task.comm.clone();
        out.append("\n");
        out
    } else if same(name, "stat") {
        let mut out = String::new();
        push_signed(&mut out, ctx.task.pid);
        assert(out@ =~= signed_decimal(ctx.task.pid as int));
        out.append(" (");
        out.append(ctx.task.comm.as_str());
        out.append(") R 1 ");
        push_signed(&mut out, ctx.task.pid);
        out.append(" ");
        push_signed(&mut out, ctx.task.pid);
        out.append(" 0 -1 0 0 0 0 0 0 0 0 0 20 0 1 0 0 0 0\n");
        out
    } else if same(name, "status") {
        let mut out = "Name:\t".to_owned();
        out.append(ctx.task.comm.as_str());
        out.append("\nPid:\t");
        push_signed(&mut out, ctx.task.pid);
        out.append("\nPPid:\t1\nThreads:\t1\n");
        out
    } else {
        String::new()
    };
    proof {
        reveal_strlit("cmdline");
        reveal_strlit("cpuinfo");
        reveal_strlit("meminfo");
        reveal_strlit("uptime");
        reveal_strlit("version");
        reveal_strlit("loadavg");
        reveal_strlit("filesystems");
        reveal_strlit("mounts");
        reveal_strlit("stat");
        assert("cmdline"@[2] == 'd');
        assert("cpuinfo"@[2] == 'u');
        assert("meminfo"@[2] == 'm');
        assert("uptime"@[2] == 't');
        assert("version"@[2] == 'r');
        assert("loadavg"@[2] == 'a');
        assert("filesystems"@[2] == 'l');
        assert("mounts"@[2] == 'u');
        assert("stat"@[2] == 'a');
    }
    text.as_str().as_bytes_vec()
}

// ---------------------------------------------------------------------------------------------
// statx

/// What `statx` has to say: the metadata, the path its inode may be derived from, and the
/// device numbers.
#[verifier::ext_equal]
pub struct Facts {
    pub stat: Stat,
    pub name: Seq<char>,
    pub rdev: (u32, u32),
}

/// Metadata of a file without size, with these permission bits.
pub open spec fn bare(mode: u32) -> Stat {
    Stat { mode, ..plain_stat(FileType::File, 0) }
}

/// What `statx` says of an open description.
pub open spec fn desc_facts<V: Vfs>(
    sh: SharedView<<V as VfsFile>::Handle>,
    fs: Seq<MountView<<V as VfsFile>::State>>,
    key: u32,
    d: DescView<<V as VfsFile>::Handle>,
) -> (
    SharedView<<V as VfsFile>::Handle>,
    Seq<MountView<<V as VfsFile>::State>>,
    Result<Facts, Fault>,
) {
    match d.kind {
        KindView::File { file, mount, closed } => {
            let (next, handle, answer) = file_called::<V>(fs, mount as int, file, FileCall::Stat);
            let s = SharedView {
                descs: sh.descs.set(
                    key,
                    DescView { kind: KindView::File { file: handle, mount, closed }, ..d },
                ),
                ..sh
            };
            match answer {
                FileAnswer::Stat(stat) => (s, next, Ok(Facts { stat, name: d.path, rdev: (0, 0) })),
                FileAnswer::Fail(e) => (noted(s, e), next, Err(fault_of(e))),
                _ => (s, next, errno(Errno::IO)),
            }
        },
        KindView::Dir { .. } => (
            sh,
            fs,
            Ok(Facts { stat: plain_stat(FileType::Dir, 0), name: d.path, rdev: (0, 0) }),
        ),
        KindView::PipeRead(_) => (
            sh,
            fs,
            Ok(Facts { stat: bare(0x180), name: "pipe:"@, rdev: (0, 0) }),
        ),
        KindView::PipeWrite(_) => (
            sh,
            fs,
            Ok(Facts { stat: bare(0x180), name: "pipe:"@, rdev: (0, 0) }),
        ),
        KindView::Stdin => (sh, fs, Ok(Facts { stat: bare(0x190), name: d.path, rdev: (5, 0) })),
        KindView::Stdout(_) => (sh, fs, Ok(Facts { stat: bare(0x190), name: d.path, rdev: (5, 0) })),
        KindView::Memory { data, .. } => (
            sh,
            fs,
            Ok(
                Facts {
                    stat: plain_stat(FileType::File, data.len() as u64),
                    name: d.path,
                    rdev: (0, 0),
                },
            ),
        ),
        _ => (sh, fs, Ok(Facts { stat: bare(0x1b6), name: d.path, rdev: (1, 3) })),
    }
}

/// The permission bits and numbers of a device.
pub open spec fn device_facts(device: Device, path: Seq<char>) -> Facts {
    match device {
        Device::Null => Facts { stat: bare(0x1b6), name: path, rdev: (1, 3) },
        Device::Zero => Facts { stat: bare(0x1b6), name: path, rdev: (1, 5) },
        Device::Random => Facts { stat: bare(0x1b6), name: path, rdev: (1, 9) },
        Device::Tty => Facts { stat: bare(0x190), name: path, rdev: (5, 0) },
        Device::Fd(_) => Facts { stat: bare(0x190), name: path, rdev: (5, 0) },
    }
}

/// What `statx` says of what a path was resolved to.
pub open spec fn node_facts<V: Vfs>(
    sh: SharedView<<V as VfsFile>::Handle>,
    ctx: CtxView,
    fs: Seq<MountView<<V as VfsFile>::State>>,
    uptime: Seq<char>,
    node: NodeView,
    follow: bool,
) -> (
    SharedView<<V as VfsFile>::Handle>,
    Seq<MountView<<V as VfsFile>::State>>,
    Result<Facts, Fault>,
) {
    match node {
        NodeView::Program { guest, .. } => (
            sh,
            fs,
            Ok(Facts { stat: bare(0x1ed), name: guest, rdev: (0, 0) }),
        ),
        NodeView::Device { device, guest } => (sh, fs, Ok(device_facts(device, guest))),
        NodeView::Synth { guest } => (
            sh,
            fs,
            Ok(
                Facts {
                    stat: Stat {
                        mode: 0x124,
                        ..plain_stat(
                            FileType::File,
                            proc_bytes(sh, ctx, fs, uptime, guest).len() as u64,
                        )
                    },
                    name: guest,
                    rdev: (0, 0),
                },
            ),
        ),
        NodeView::VirtualDir { guest } => (
            sh,
            fs,
            Ok(Facts { stat: plain_stat(FileType::Dir, 0), name: guest, rdev: (0, 0) }),
        ),
        NodeView::VirtualLink { target, guest } => (
            sh,
            fs,
            Ok(
                Facts {
                    stat: plain_stat(FileType::Symlink, encode_utf8(target).len() as u64),
                    name: guest,
                    rdev: (0, 0),
                },
            ),
        ),
        NodeView::Mounted { mount, rel, guest } => {
            let (next, answer) = called::<V>(
                fs,
                mount as int,
                VfsCall::Stat { path: rel, follow },
            );
            match answer {
                VfsAnswer::Stat(stat) => (sh, next, Ok(Facts { stat, name: guest, rdev: (0, 0) })),
                VfsAnswer::Fail(e) => (noted(sh, e), next, Err(fault_of(e))),
                _ => (sh, next, errno(Errno::IO)),
            }
        },
    }
}

/// What `statx` says of its arguments.
pub open spec fn statx_facts<V: Vfs>(
    sh: SharedView<<V as VfsFile>::Handle>,
    ctx: CtxView,
    fs: Seq<MountView<<V as VfsFile>::State>>,
    uptime: Seq<char>,
    dirfd: i32,
    path: Seq<char>,
    flags: i32,
) -> (
    SharedView<<V as VfsFile>::Handle>,
    Seq<MountView<<V as VfsFile>::State>>,
    Result<Facts, Fault>,
) {
    if flags & AT_EMPTY_PATH != 0 && path.len() == 0 {
        match fd_at(ctx.task.fds, dirfd as int) {
            None => (sh, fs, errno(Errno::BADF)),
            Some(entry) => match sh.descs.get(entry.desc) {
                None => (sh, fs, errno(Errno::BADF)),
                Some(d) => desc_facts::<V>(sh, fs, entry.desc, d),
            },
        }
    } else {
        let (s, f, node) = looked_up::<V>(sh, ctx, fs, dirfd, path, follows(flags));
        match node {
            Err(x) => (s, f, Err(x)),
            Ok(node) => node_facts::<V>(s, ctx, f, uptime, node, follows(flags)),
        }
    }
}

/// Writing what `statx` says. A device has its own type bits, which no [`Stat`] can express,
/// so its mode is written once more behind the block.
pub open spec fn facts_written(mem: Seq<u8>, at: u32, facts: Facts) -> (Seq<u8>, Sys) {
    let device = facts.rdev != (0u32, 0u32);
    let stat = if device {
        Stat { file_type: FileType::File, ..facts.stat }
    } else {
        facts.stat
    };
    match store(mem, at as int, statx_block(stat, facts.name, facts.rdev)) {
        (m, Err(e)) => (m, errno(e)),
        (m, Ok(())) => if device {
            let bits = S_IFCHR | if stat.mode == 0 {
                0x1b6
            } else {
                stat.mode
            };
            match store(m, wrapped(at, 28) as int, le16((bits % 65536) as u16)) {
                (m2, Err(e)) => (m2, errno(e)),
                (m2, Ok(())) => (m2, Ok(0)),
            }
        } else {
            (m, Ok(0))
        },
    }
}

/// `statx`.
pub open spec fn statx_spec<V: Vfs>(
    sh: SharedView<<V as VfsFile>::Handle>,
    ctx: CtxView,
    fs: Seq<MountView<<V as VfsFile>::State>>,
    mem: Seq<u8>,
    uptime: Seq<char>,
    dirfd: i32,
    path_at: u32,
    flags: i32,
    at: u32,
) -> (
    SharedView<<V as VfsFile>::Handle>,
    Seq<MountView<<V as VfsFile>::State>>,
    Seq<u8>,
    Sys,
) {
    match text_at(mem, path_at as int) {
        Err(e) => (sh, fs, mem, errno(e)),
        Ok(path) => {
            let (s, f, facts) = statx_facts::<V>(sh, ctx, fs, uptime, dirfd, path, flags);
            match facts {
                Err(x) => (s, f, mem, Err(x)),
                Ok(facts) => {
                    let (m, r) = facts_written(mem, at, facts);
                    (s, f, m, r)
                },
            }
        },
    }
}

/// The metadata, the path and the device numbers `statx` reports.
struct Report {
    stat: Stat,
    name: String,
    rdev: (u32, u32),
}

spec fn report_facts(r: Result<Report, Fault>) -> Result<Facts, Fault> {
    match r {
        Ok(r) => Ok(Facts { stat: r.stat, name: r.name@, rdev: r.rdev }),
        Err(x) => Err(x),
    }
}

fn bare_stat(mode: u32) -> (r: Stat)
    ensures
        r == bare(mode),
{
    Stat { mode, ..Stat::file(0) }
}

fn describe_desc<V: Vfs>(
    sh: &mut Shared<<V as VfsFile>::Handle>,
    fs: &mut Mounts<V>,
    key: u32,
) -> (r: Result<Report, Fault>)
    requires
        old(fs).wf(),
        old(sh)@.wf(),
        old(sh)@.descs.contains(key),
    ensures
        final(fs).wf(),
        final(sh)@.wf(),
        desc_facts::<V>(old(sh)@, old(fs)@, key, old(sh)@.descs.get(key)->0) == (
            final(sh)@,
            final(fs)@,
            report_facts(r),
        ),
{
    let done = match sh.descs.get_mut(key) {
        None => {
            assert(false);
            return Err(Fault::Errno(Errno::BADF));
        },
        Some(desc) => {
            let name = desc.path.clone();
            match &mut desc.kind {
                DescKind::File { file, mount, .. } => (fs.file_stat(*mount, file), name),
                DescKind::Dir { .. } => {
                    return Ok(Report { stat: Stat::dir(), name, rdev: (0, 0) });
                },
                DescKind::PipeRead(_) | DescKind::PipeWrite(_) => {
                    return Ok(
                        Report { stat: bare_stat(0x180), name: "pipe:".to_owned(), rdev: (0, 0) },
                    );
                },
                DescKind::Stdin | DescKind::Stdout(_) => {
                    return Ok(Report { stat: bare_stat(0x190), name, rdev: (5, 0) });
                },
                DescKind::Memory { data, .. } => {
                    return Ok(
                        Report { stat: Stat::file(data.len() as u64), name, rdev: (0, 0) },
                    );
                },
                _ => {
                    return Ok(Report { stat: bare_stat(0x1b6), name, rdev: (1, 3) });
                },
            }
        },
    };
    match done {
        (Ok(stat), name) => Ok(Report { stat, name, rdev: (0, 0) }),
        (Err(e), _) => Err(vfs_fault(sh, e)),
    }
}

fn describe_node<V: Vfs>(
    sh: &mut Shared<<V as VfsFile>::Handle>,
    ctx: &Ctx,
    fs: &mut Mounts<V>,
    clock: &Clock,
    node: Node,
    follow: bool,
) -> (r: Result<Report, Fault>)
    requires
        old(fs).wf(),
        old(sh)@.wf(),
    ensures
        final(fs).wf(),
        final(sh)@.wf(),
        node_facts::<V>(
            old(sh)@,
            ctx@,
            old(fs)@,
            clock.uptime@,
            node@,
            follow,
        ) == (final(sh)@, final(fs)@, report_facts(r)),
{
    match node {
        Node::Program { guest, .. } => Ok(
            Report { stat: bare_stat(0x1ed), name: guest, rdev: (0, 0) },
        ),
        Node::Device { device, guest } => {
            let (mode, rdev): (u32, (u32, u32)) = match device {
                Device::Null => (0x1b6, (1, 3)),
                Device::Zero => (0x1b6, (1, 5)),
                Device::Random => (0x1b6, (1, 9)),
                Device::Tty | Device::Fd(_) => (0x190, (5, 0)),
            };
            Ok(Report { stat: bare_stat(mode), name: guest, rdev })
        },
        Node::Synth { guest } => {
            let content = proc_content(sh, ctx, fs, clock, guest.as_str());
            let stat = Stat { mode: 0x124, ..Stat::file(content.len() as u64) };
            Ok(Report { stat, name: guest, rdev: (0, 0) })
        },
        Node::VirtualDir { guest } => Ok(Report { stat: Stat::dir(), name: guest, rdev: (0, 0) }),
        Node::VirtualLink { target, guest } => {
            let bytes = target.as_str().as_bytes_vec();
            Ok(Report { stat: Stat::symlink(bytes.len() as u64), name: guest, rdev: (0, 0) })
        },
        Node::Mounted { mount, rel, guest } => match fs.stat(mount, rel.as_str(), follow) {
            Ok(stat) => Ok(Report { stat, name: guest, rdev: (0, 0) }),
            Err(e) => Err(vfs_fault(sh, e)),
        },
    }
}

fn describe<V: Vfs>(
    sh: &mut Shared<<V as VfsFile>::Handle>,
    ctx: &Ctx,
    fs: &mut Mounts<V>,
    clock: &Clock,
    dirfd: i32,
    path: String,
    flags: i32,
) -> (r: Result<Report, Fault>)
    requires
        old(fs).wf(),
        old(sh)@.wf(),
    ensures
        final(fs).wf(),
        final(sh)@.wf(),
        statx_facts::<V>(
            old(sh)@,
            ctx@,
            old(fs)@,
            clock.uptime@,
            dirfd,
            path@,
            flags,
        ) == (final(sh)@, final(fs)@, report_facts(r)),
{
    if flags & AT_EMPTY_PATH != 0 && path.as_str().is_empty() {
        let entry = match ctx.task.fds.get(dirfd) {
            Ok(entry) => entry,
            Err(e) => return Err(Fault::Errno(e)),
        };
        if sh.descs.get(entry.desc).is_none() {
            return Err(Fault::Errno(Errno::BADF));
        }
        return describe_desc(sh, fs, entry.desc);
    }
    let follow = flags & AT_SYMLINK_NOFOLLOW == 0;
    match resolve(sh, ctx, fs, dirfd, path.as_str(), follow) {
        Ok(node) => describe_node(sh, ctx, fs, clock, node, follow),
        Err(x) => Err(x),
    }
}

pub fn sys_statx<V: Vfs>(
    sh: &mut Shared<<V as VfsFile>::Handle>,
    ctx: &Ctx,
    fs: &mut Mounts<V>,
    mem: &mut [u8],
    clock: &Clock,
    dirfd: i32,
    path_at: u32,
    flags: i32,
    at: u32,
) -> (r: Sys)
    requires
        old(fs).wf(),
        old(sh)@.wf(),
    ensures
        final(fs).wf(),
        final(sh)@.wf(),
        statx_spec::<V>(
            old(sh)@,
            ctx@,
            old(fs)@,
            old(mem)@,
            clock.uptime@,
            dirfd,
            path_at,
            flags,
            at,
        ) == (final(sh)@, final(fs)@, final(mem)@, r),
{
    let path = match cstr(mem, path_at) {
        Ok(path) => path,
        Err(e) => return Err(Fault::Errno(e)),
    };
    let report = match describe(sh, ctx, fs, clock, dirfd, path, flags) {
        Ok(report) => report,
        Err(x) => return Err(x),
    };
    // A character device has to look like one, or `test -c` and `ls` disagree.
    let device = report.rdev.0 != 0 || report.rdev.1 != 0;
    let stat: Stat = if device {
        Stat { file_type: FileType::File, ..report.stat }
    } else {
        report.stat
    };
    let block = build_statx(&stat, report.name.as_str(), report.rdev);
    match put(mem, at, block.as_slice()) {
        Ok(()) => {},
        Err(e) => return Err(Fault::Errno(e)),
    }
    if device {
        let bits: u32 = S_IFCHR | if stat.mode == 0 {
            0x1b6
        } else {
            stat.mode
        };
        match put_u16(mem, wrap(at, 28), (bits % 65536) as u16) {
            Ok(()) => {},
            Err(e) => return Err(Fault::Errno(e)),
        }
    }
    Ok(0)
}

} // verus!
