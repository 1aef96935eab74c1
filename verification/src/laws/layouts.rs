//! Where the calls that tell about files leave each value.
use super::plain::{double_in, half_in, same_but, word_in};
use super::readiness::behind;
use crate::errno::Errno;
use crate::kernel::fd::KindView;
use crate::kernel::mem::{
    le16, le32, le64, lemma_double_round_trip, lemma_word_round_trip, text_at, word_at,
};
use crate::kernel::mounts::{called, file_called, MountView};
use crate::kernel::namespace::NodeView;
use crate::kernel::state::{CtxView, SharedView};
use crate::syscall::base::{errno, looked_up, Sys};
use crate::syscall::path::follows;
use crate::syscall::stat::{
    double_of, facts_written, kind_bits, mode_of, statx_block, statx_facts, statx_spec, Facts,
};
use crate::vfs::{
    no_options, plain_stat, FileAnswer, FileCall, FileType, OpenOptions, Stat, Vfs, VfsAnswer,
    VfsCall, VfsFile,
};
use crate::vfs::memory::{key_of, node_at, read_at, MemFile, MemModel, MemVfs};
use vstd::prelude::*;

verus! {

pub proof fn lemma_eight(block: Seq<u8>, at: int, v: u64)
    requires
        forall|i: int| 0 <= i < 8 ==> block[at + i] == #[trigger] le64(v)[i],
    ensures
        double_in(block, at) == v,
{
    lemma_double_round_trip(v);
    let b = le64(v);
    assert(block[at + 0] == b[0] && block[at + 1] == b[1] && block[at + 2] == b[2] && block[at + 3]
        == b[3]);
    assert(block[at + 4] == b[4] && block[at + 5] == b[5] && block[at + 6] == b[6] && block[at + 7]
        == b[7]);
    assert(word_in(block, at) == word_at(b, 0));
    assert(word_in(block, at + 4) == word_at(b, 4));
}

pub proof fn lemma_four(block: Seq<u8>, at: int, v: u32)
    requires
        forall|i: int| 0 <= i < 4 ==> block[at + i] == #[trigger] le32(v)[i],
    ensures
        word_in(block, at) == v,
{
    lemma_word_round_trip(v);
    let b = le32(v);
    assert(block[at + 0] == b[0] && block[at + 1] == b[1] && block[at + 2] == b[2] && block[at + 3]
        == b[3]);
}

#[verifier::rlimit(40)]
proof fn lemma_block_size(stat: Stat, path: Seq<char>, rdev: (u32, u32))
    ensures
        statx_block(stat, path, rdev).len() == 256,
        double_in(statx_block(stat, path, rdev), 40) == stat.size,
{
    let block = statx_block(stat, path, rdev);
    assert forall|i: int| 0 <= i < 8 implies block[40 + i] == #[trigger] le64(stat.size)[i] by {}
    lemma_eight(block, 40, stat.size);
}

#[verifier::rlimit(40)]
proof fn lemma_block_blocks(stat: Stat, path: Seq<char>, rdev: (u32, u32))
    ensures
        double_in(statx_block(stat, path, rdev), 48) == (stat.size + 511) / 512,
{
    let block = statx_block(stat, path, rdev);
    let v = ((stat.size + 511) / 512) as u64;
    assert forall|i: int| 0 <= i < 8 implies block[48 + i] == #[trigger] le64(v)[i] by {}
    lemma_eight(block, 48, v);
}

proof fn lemma_block_links(stat: Stat, path: Seq<char>, rdev: (u32, u32))
    ensures
        word_in(statx_block(stat, path, rdev), 16) == if stat.nlink == 0 {
            1
        } else {
            stat.nlink
        },
{
    let block = statx_block(stat, path, rdev);
    let v: u32 = if stat.nlink == 0 {
        1
    } else {
        stat.nlink
    };
    assert forall|i: int| 0 <= i < 4 implies block[16 + i] == #[trigger] le32(v)[i] by {}
    lemma_four(block, 16, v);
}

#[verifier::rlimit(40)]
proof fn lemma_block_time(stat: Stat, path: Seq<char>, rdev: (u32, u32))
    ensures
        double_in(statx_block(stat, path, rdev), 112) == double_of(stat.mtime.0),
        word_in(statx_block(stat, path, rdev), 120) == stat.mtime.1,
{
    let block = statx_block(stat, path, rdev);
    let v = double_of(stat.mtime.0);
    assert forall|i: int| 0 <= i < 8 implies block[112 + i] == #[trigger] le64(v)[i] by {}
    lemma_eight(block, 112, v);
    assert forall|i: int| 0 <= i < 4 implies block[120 + i] == #[trigger] le32(stat.mtime.1)[i] by {}
    lemma_four(block, 120, stat.mtime.1);
}

#[verifier::rlimit(40)]
proof fn lemma_block_heads(stat: Stat, path: Seq<char>, rdev: (u32, u32))
    ensures
        word_in(statx_block(stat, path, rdev), 0) == 0x7ff,
        word_in(statx_block(stat, path, rdev), 4) == 4096,
        word_in(statx_block(stat, path, rdev), 128) == rdev.0,
        word_in(statx_block(stat, path, rdev), 132) == rdev.1,
{
    let block = statx_block(stat, path, rdev);
    assert forall|i: int| 0 <= i < 4 implies block[0 + i] == #[trigger] le32(0x7ff)[i] by {}
    lemma_four(block, 0, 0x7ff);
    assert forall|i: int| 0 <= i < 4 implies block[4 + i] == #[trigger] le32(4096)[i] by {}
    lemma_four(block, 4, 4096);
    assert forall|i: int| 0 <= i < 4 implies block[128 + i] == #[trigger] le32(rdev.0)[i] by {}
    lemma_four(block, 128, rdev.0);
    assert forall|i: int| 0 <= i < 4 implies block[132 + i] == #[trigger] le32(rdev.1)[i] by {}
    lemma_four(block, 132, rdev.1);
}

/// The number of a file's type, as the top four bits of its mode have it.
pub open spec fn type_number(kind: FileType) -> int {
    match kind {
        FileType::Dir => 4,
        FileType::File => 8,
        FileType::Symlink => 10,
    }
}

/// The permissions of a file that says nothing of them.
pub open spec fn usual_mode(kind: FileType) -> int {
    match kind {
        FileType::Dir => 7 * 64 + 5 * 8 + 5int,
        FileType::File => 6 * 64 + 4 * 8 + 4int,
        FileType::Symlink => 7 * 64 + 7 * 8 + 7int,
    }
}

proof fn lemma_block_mode(stat: Stat, path: Seq<char>, rdev: (u32, u32))
    requires
        stat.mode < 4096,
    ensures
        half_in(statx_block(stat, path, rdev), 28) == 4096 * type_number(stat.file_type) + (
        if stat.mode == 0 {
            usual_mode(stat.file_type)
        } else {
            stat.mode as int
        }),
{
    let mode = if stat.mode == 0 {
        mode_of(stat.file_type)
    } else {
        stat.mode
    };
    lemma_mode_value(stat.file_type, mode);
    lemma_block_half(stat, path, rdev, mode);
}

proof fn lemma_mode_value(kind: FileType, mode: u32)
    requires
        mode < 4096,
    ensures
        (kind_bits(kind) | mode) % 65536 == 4096 * type_number(kind) + mode,
        mode_of(kind) == usual_mode(kind),
        mode_of(kind) < 4096,
{
    lemma_mode_bits(mode);
}

/// The bits of a type and of permissions do not meet.
proof fn lemma_mode_bits(mode: u32)
    requires
        mode < 4096,
    ensures
        (0x4000u32 | mode) == 0x4000 + mode,
        (0x8000u32 | mode) == 0x8000 + mode,
        (0xa000u32 | mode) == 0xa000 + mode,
        (0x2000u32 | mode) == 0x2000 + mode,
{
    assert((0x4000u32 | mode) == 0x4000u32 + mode && (0x8000u32 | mode) == 0x8000u32 + mode && (
    0xa000u32 | mode) == 0xa000u32 + mode && (0x2000u32 | mode) == 0x2000u32 + mode) by (bit_vector)
        requires
            mode < 4096,
    ;
}

proof fn lemma_block_half(stat: Stat, path: Seq<char>, rdev: (u32, u32), mode: u32)
    requires
        mode == if stat.mode == 0 {
            mode_of(stat.file_type)
        } else {
            stat.mode
        },
    ensures
        half_in(statx_block(stat, path, rdev), 28) == (kind_bits(stat.file_type) | mode) % 65536,
{
    let block = statx_block(stat, path, rdev);
    let v = ((kind_bits(stat.file_type) | mode) % 65536) as u16;
    assert(block[28] == le16(v)[0]);
    assert(block[29] == le16(v)[1]);
}

/// `statx` of a path on a mount leaves in the guest's buffer what the mount says of the file:
/// its size in the eight bytes at 40, how many blocks of 512 bytes that is at 48, its links at
/// 16, its type and permissions in the two bytes at 28, and when it was last changed at 112
/// and 120. Nothing outside the 256 bytes of the buffer changes.
pub proof fn law_statx_tells_what_the_mount_says<V: Vfs>(
    sh: SharedView<<V as VfsFile>::Handle>,
    ctx: CtxView,
    fs: Seq<MountView<<V as VfsFile>::State>>,
    mem: Seq<u8>,
    uptime: Seq<char>,
    dirfd: i32,
    path_at: u32,
    flags: i32,
    at: u32,
    path: Seq<char>,
    stat: Stat,
)
    requires
        text_at(mem, path_at as int) == Ok::<Seq<char>, Errno>(path),
        path.len() > 0,
        looked_up::<V>(sh, ctx, fs, dirfd, path, follows(flags)).2 matches Ok(
            NodeView::Mounted { mount, rel, .. },
        ) && called::<V>(
            looked_up::<V>(sh, ctx, fs, dirfd, path, follows(flags)).1,
            mount as int,
            VfsCall::Stat { path: rel, follow: follows(flags) },
        ).1 == VfsAnswer::<<V as VfsFile>::Handle>::Stat(stat),
    ensures
        ({
            let (s, f, m, r) = statx_spec::<V>(
                sh,
                ctx,
                fs,
                mem,
                uptime,
                dirfd,
                path_at,
                flags,
                at,
            );
            let blocks = double_in(m, at + 48);
            &&& r == Sys::Ok(0) <==> at + 256 <= mem.len()
            &&& r is Err ==> m == mem
            &&& r is Ok ==> {
                &&& word_in(m, at as int) == 0x7ff
                &&& word_in(m, at + 4) == 4096
                &&& double_in(m, at + 40) == stat.size
                &&& 512 * blocks - 512 < stat.size <= 512 * blocks
                &&& word_in(m, at + 16) == if stat.nlink == 0 {
                    1
                } else {
                    stat.nlink
                }
                &&& double_in(m, at + 112) == if stat.mtime.0 < 0 {
                    stat.mtime.0 + 0x1_0000_0000_0000_0000
                } else {
                    stat.mtime.0 as int
                }
                &&& word_in(m, at + 120) == stat.mtime.1
                &&& stat.mode < 4096 ==> half_in(m, at + 28) == 4096 * type_number(stat.file_type)
                    + (if stat.mode == 0 {
                    usual_mode(stat.file_type)
                } else {
                    stat.mode as int
                })
                &&& same_but(mem, m, at as int, 256)
            }
        }),
{
    let guest = looked_up::<V>(sh, ctx, fs, dirfd, path, follows(flags)).2->Ok_0->Mounted_guest;
    let facts = Facts { stat, name: guest, rdev: (0u32, 0u32) };
    assert(statx_facts::<V>(sh, ctx, fs, uptime, dirfd, path, flags).2 == Ok::<
        Facts,
        crate::syscall::base::Fault,
    >(facts));
    lemma_facts_left(mem, at, stat, guest);
}

proof fn lemma_facts_left(mem: Seq<u8>, at: u32, stat: Stat, name: Seq<char>)
    ensures
        ({
            let (m, r) = facts_written(mem, at, Facts { stat, name, rdev: (0u32, 0u32) });
            let blocks = double_in(m, at + 48);
            &&& r == Sys::Ok(0) <==> at + 256 <= mem.len()
            &&& r is Err ==> m == mem
            &&& r is Ok ==> {
                &&& word_in(m, at as int) == 0x7ff
                &&& word_in(m, at + 4) == 4096
                &&& double_in(m, at + 40) == stat.size
                &&& 512 * blocks - 512 < stat.size <= 512 * blocks
                &&& word_in(m, at + 16) == if stat.nlink == 0 {
                    1
                } else {
                    stat.nlink
                }
                &&& double_in(m, at + 112) == double_of(stat.mtime.0)
                &&& word_in(m, at + 120) == stat.mtime.1
                &&& stat.mode < 4096 ==> half_in(m, at + 28) == 4096 * type_number(stat.file_type)
                    + (if stat.mode == 0 {
                    usual_mode(stat.file_type)
                } else {
                    stat.mode as int
                })
                &&& same_but(mem, m, at as int, 256)
            }
        }),
{
    let block = statx_block(stat, name, (0u32, 0u32));
    let (m, r) = facts_written(mem, at, Facts { stat, name, rdev: (0u32, 0u32) });
    lemma_block_size(stat, name, (0u32, 0u32));
    lemma_block_blocks(stat, name, (0u32, 0u32));
    lemma_block_links(stat, name, (0u32, 0u32));
    lemma_block_time(stat, name, (0u32, 0u32));
    lemma_block_heads(stat, name, (0u32, 0u32));
    if stat.mode < 4096 {
        lemma_block_mode(stat, name, (0u32, 0u32));
    }
    if at + 256 <= mem.len() {
        lemma_copied(mem, m, at as int, block, 0);
        lemma_copied(mem, m, at as int, block, 4);
        lemma_copied(mem, m, at as int, block, 40);
        lemma_copied(mem, m, at as int, block, 48);
        lemma_copied(mem, m, at as int, block, 16);
        lemma_copied(mem, m, at as int, block, 112);
        lemma_copied(mem, m, at as int, block, 120);
        lemma_copied(mem, m, at as int, block, 28);
    }
}

/// `statx` of an open file on a mount leaves what the mount says of the open file; of a
/// generated file, how many bytes it has.
pub proof fn law_statx_of_an_open_file<V: Vfs>(
    sh: SharedView<<V as VfsFile>::Handle>,
    ctx: CtxView,
    fs: Seq<MountView<<V as VfsFile>::State>>,
    mem: Seq<u8>,
    uptime: Seq<char>,
    fd: i32,
    path_at: u32,
    at: u32,
)
    requires
        text_at(mem, path_at as int) matches Ok(path) && path.len() == 0,
        at + 256 <= mem.len(),
    ensures
        ({
            let (s, f, m, r) = statx_spec::<V>(
                sh,
                ctx,
                fs,
                mem,
                uptime,
                fd,
                path_at,
                0x1000,
                at,
            );
            match behind(sh, ctx, fd) {
                None => r == errno::<i32>(Errno::BADF) && m == mem,
                Some(d) => match d.kind {
                    KindView::File { file, mount, .. } => file_called::<V>(
                        fs,
                        mount as int,
                        file,
                        FileCall::Stat,
                    ).2 matches FileAnswer::Stat(stat) ==> {
                        &&& r == Sys::Ok(0)
                        &&& double_in(m, at + 40) == stat.size
                        &&& same_but(mem, m, at as int, 256)
                    },
                    KindView::Memory { data, .. } => data.len() <= u64::MAX ==> {
                        &&& r == Sys::Ok(0)
                        &&& double_in(m, at + 40) == data.len()
                    },
                    KindView::Dir { .. } => r == Sys::Ok(0) && half_in(m, at + 28) == 0x4000
                        + usual_mode(FileType::Dir),
                    _ => true,
                },
            }
        }),
{
    assert(0x1000i32 & 0x1000i32 != 0) by (bit_vector);
    match behind(sh, ctx, fd) {
        None => {},
        Some(d) => match d.kind {
            KindView::File { file, mount, .. } => {
                if let FileAnswer::Stat(stat) = file_called::<V>(
                    fs,
                    mount as int,
                    file,
                    FileCall::Stat,
                ).2 {
                    lemma_facts_left(mem, at, stat, d.path);
                }
            },
            KindView::Memory { data, .. } => {
                lemma_facts_left(mem, at, plain_stat(FileType::File, data.len() as u64), d.path);
            },
            KindView::Dir { .. } => {
                lemma_facts_left(mem, at, plain_stat(FileType::Dir, 0), d.path);
            },
            _ => {},
        },
    }
}

/// What stands in a block stands in the memory that it was copied to.
proof fn lemma_copied(mem: Seq<u8>, m: Seq<u8>, at: int, block: Seq<u8>, k: int)
    requires
        0 <= k,
        k + 8 <= block.len(),
        0 <= at,
        at + block.len() <= mem.len(),
        m == crate::kernel::mem::patched(mem, at, block),
    ensures
        double_in(m, at + k) == double_in(block, k),
        word_in(m, at + k) == word_in(block, k),
        half_in(m, at + k) == half_in(block, k),
{
    assert(m[at + k] == block[k] && m[at + k + 1] == block[k + 1] && m[at + k + 2] == block[k + 2]
        && m[at + k + 3] == block[k + 3]);
    assert(m[at + k + 4] == block[k + 4] && m[at + k + 5] == block[k + 5] && m[at + k + 6]
        == block[k + 6] && m[at + k + 7] == block[k + 7]);
}

/// The filesystem in memory says of a file, by its path or open, that it is as large as it has
/// bytes, which is how many a read from its beginning to its end gives.
pub proof fn law_a_memory_file_is_as_large_as_it_reads(
    m: MemModel,
    path: Seq<char>,
    follow: bool,
    max: usize,
)
    requires
        m.wf(),
        m.contents(path) matches Ok(data) && data.len() <= max,
        crate::vfs::memory::has_name(path),
    ensures
        ({
            let data = m.contents(path)->Ok_0;
            let (m1, said) = MemVfs::answer(m, VfsCall::Stat { path, follow });
            let (m2, opened) = MemVfs::answer(
                m,
                VfsCall::Open { path, opts: OpenOptions { read: true, ..no_options() } },
            );
            let (m3, file, got) = MemVfs::file_answer(m2, opened->Opened_0, FileCall::Read { max });
            let (m4, last, told) = MemVfs::file_answer(m2, opened->Opened_0, FileCall::Stat);
            &&& said matches VfsAnswer::Stat(st) && st.size == data.len() && st.file_type is File
            &&& opened is Opened
            &&& got == FileAnswer::Data(data)
            &&& told matches FileAnswer::Stat(st) && st.size == data.len() && st.file_type is File
        }),
{
    let ino = node_at(m.nodes, key_of(path))->Some_0->File_0;
    super::files::lemma_file_has_bytes(m, key_of(path), ino);
    let data = m.contents(path)->Ok_0;
    assert(read_at(data, 0, max as int) =~= data);
}

/// `statx` of a file in memory leaves how many bytes the file holds, in the eight bytes at 40,
/// and that it is a file, in the two at 28.
pub proof fn law_statx_of_a_memory_file(
    sh: SharedView<MemFile>,
    ctx: CtxView,
    fs: Seq<MountView<MemModel>>,
    mem: Seq<u8>,
    uptime: Seq<char>,
    dirfd: i32,
    path_at: u32,
    flags: i32,
    at: u32,
    path: Seq<char>,
    mount: usize,
    rel: Seq<char>,
    guest: Seq<char>,
    data: Seq<u8>,
)
    requires
        text_at(mem, path_at as int) == Ok::<Seq<char>, Errno>(path),
        path.len() > 0,
        looked_up::<MemVfs>(sh, ctx, fs, dirfd, path, follows(flags)).2 == Ok::<
            NodeView,
            crate::syscall::base::Fault,
        >(NodeView::Mounted { mount, rel, guest }),
        looked_up::<MemVfs>(sh, ctx, fs, dirfd, path, follows(flags)).1 == fs,
        mount < fs.len(),
        fs[mount as int].state.contents(rel) == Ok::<Seq<u8>, Errno>(data),
        data.len() <= u64::MAX,
        at + 256 <= mem.len(),
    ensures
        ({
            let (s, f, m, r) = statx_spec::<MemVfs>(
                sh,
                ctx,
                fs,
                mem,
                uptime,
                dirfd,
                path_at,
                flags,
                at,
            );
            &&& r == Sys::Ok(0)
            &&& double_in(m, at + 40) == data.len()
            &&& half_in(m, at + 28) == 0x8000 + 6 * 64 + 4 * 8 + 4
        }),
{
    law_statx_tells_what_the_mount_says::<MemVfs>(
        sh,
        ctx,
        fs,
        mem,
        uptime,
        dirfd,
        path_at,
        flags,
        at,
        path,
        plain_stat(FileType::File, data.len() as u64),
    );
}

} // verus!
