//! What directories list: the kernel's own names, programs, mounts and what mounts hold.
use crate::errno::Errno;
use crate::kernel::fd::DirEntView;
use crate::kernel::mem::text_at;
use crate::kernel::mounts::{called, program_at, MountView, ProgramId};
use crate::kernel::namespace::{
    fixed_names, is_invented, lies_below, lists, pid_name, settled, special, virtual_names,
    with_mounts, with_name, with_programs, Device, NodeView, Special, WhoView,
};
use crate::kernel::path::{normal, path_of};
use crate::kernel::state::{CtxView, SharedView};
use crate::syscall::base::{errno, looked_up, Sys};
use crate::syscall::open::{dots, has_entry, mount_entry, mounted_listing, with_added};
use crate::syscall::path::faccessat_spec;
use crate::syscall::stat::{last_part, node_facts, nul_ended, proc_bytes};
use crate::vfs::{DirEntryView, FileType, Vfs, VfsAnswer, VfsCall, VfsFile};
use crate::vfs::memory::{child_name, child_names, key_of, MemModel, NodeModel};
use vstd::prelude::*;
use vstd::utf8::encode_utf8;

verus! {

// ---------------------------------------------------------------------------------------------
// the kernel's own names

proof fn lemma_names_differ(pid: i32)
    ensures
        "dev"@.len() == 3 && "proc"@.len() == 4 && "self"@.len() == 4,
        "proc"@[0] == 'p' && "self"@[0] == 's' && "self"@[1] == 'e',
        "fd"@.len() == 2,
        "null"@.len() == 4 && "zero"@.len() == 4 && "random"@.len() == 6 && "urandom"@.len() == 7,
        "tty"@.len() == 3 && "stdin"@.len() == 5 && "stdout"@.len() == 6 && "stderr"@.len() == 6,
        "cpuinfo"@.len() == 7 && "meminfo"@.len() == 7 && "uptime"@.len() == 6,
        "version"@.len() == 7 && "loadavg"@.len() == 7 && "filesystems"@.len() == 11,
        "mounts"@.len() == 6 && "stat"@.len() == 4 && "stat"@[1] == 't',
        "cpuinfo"@[0] == 'c' && "meminfo"@[0] == 'm' && "uptime"@[0] == 'u' && "version"@[0] == 'v',
        "loadavg"@[0] == 'l' && "filesystems"@[0] == 'f' && "mounts"@[0] == 'm' && "stat"@[0] == 's',
        "exe"@.len() == 3 && "exe"@[0] == 'e' && "cwd"@.len() == 3 && "cwd"@[0] == 'c',
        "cmdline"@.len() == 7 && "comm"@.len() == 4 && "status"@.len() == 6,
        pid_name(pid).len() > 0 ==> '0' <= pid_name(pid)[0] <= '9',
{
    reveal_strlit("dev");
    reveal_strlit("proc");
    reveal_strlit("self");
    reveal_strlit("fd");
    reveal_strlit("null");
    reveal_strlit("zero");
    reveal_strlit("random");
    reveal_strlit("urandom");
    reveal_strlit("tty");
    reveal_strlit("stdin");
    reveal_strlit("stdout");
    reveal_strlit("stderr");
    reveal_strlit("cpuinfo");
    reveal_strlit("meminfo");
    reveal_strlit("uptime");
    reveal_strlit("version");
    reveal_strlit("loadavg");
    reveal_strlit("filesystems");
    reveal_strlit("mounts");
    reveal_strlit("stat");
    reveal_strlit("exe");
    reveal_strlit("cwd");
    reveal_strlit("cmdline");
    reveal_strlit("comm");
    reveal_strlit("status");
    if pid >= 0 {
        super::texts::law_a_number_is_written_plainly(pid as nat);
        super::commands::law_a_number_reads_back(pid as u64);
    }
}

/// Everything that is listed in `/dev` is there: the descriptors are a directory and all else
/// is a device.
pub proof fn law_devices_are_listed_as_they_are(pid: i32, i: int)
    requires
        0 <= i < fixed_names(seq!["dev"@]).len(),
    ensures
        ({
            let (name, kind) = fixed_names(seq!["dev"@])[i];
            let what = special(seq!["dev"@, name], pid);
            &&& kind is Dir <==> what is Dir
            &&& !(kind is Dir) ==> what is Device
        }),
{
    lemma_names_differ(pid);
    let list = fixed_names(seq!["dev"@]);
    assert(list.len() == 9);
    assert(i == 0 || i == 1 || i == 2 || i == 3 || i == 4 || i == 5 || i == 6 || i == 7 || i == 8);
}

/// Everything that is listed in `/proc` is there: the caller is a directory and all else is a
/// generated file.
pub proof fn law_proc_is_listed_as_it_is(pid: i32, i: int)
    requires
        0 <= i < fixed_names(seq!["proc"@]).len(),
    ensures
        ({
            let (name, kind) = fixed_names(seq!["proc"@])[i];
            let what = special(seq!["proc"@, name], pid);
            &&& kind is Dir <==> what is Dir
            &&& !(kind is Dir) ==> what is Synth
        }),
{
    lemma_names_differ(pid);
    let list = fixed_names(seq!["proc"@]);
    assert(seq!["proc"@][0] == "proc"@);
    assert(list.len() == 9);
    assert(i == 0 || i == 1 || i == 2 || i == 3 || i == 4 || i == 5 || i == 6 || i == 7 || i == 8);
}

// ---------------------------------------------------------------------------------------------
// programs and mounts

proof fn lemma_with_name(
    list: Seq<(Seq<char>, FileType)>,
    name: Seq<char>,
    kind: FileType,
    other: Seq<char>,
)
    ensures
        lists(with_name(list, name, kind), name),
        lists(list, other) ==> lists(with_name(list, name, kind), other),
{
    let after = with_name(list, name, kind);
    if !lists(list, name) {
        assert(after[list.len() as int].0 == name);
        if lists(list, other) {
            let i = choose|i: int| 0 <= i < list.len() && (#[trigger] list[i]).0 == other;
            assert(after[i].0 == other);
        }
    }
}

proof fn lemma_programs_listed(
    list: Seq<(Seq<char>, FileType)>,
    programs: Seq<(Seq<char>, ProgramId)>,
    comps: Seq<Seq<char>>,
    n: int,
    j: int,
)
    requires
        0 <= j < n <= programs.len(),
        lies_below(comps, normal("/"@, programs[j].0)),
    ensures
        lists(
            with_programs(list, programs, comps, n),
            normal("/"@, programs[j].0)[comps.len() as int],
        ),
    decreases n,
{
    let name = normal("/"@, programs[j].0)[comps.len() as int];
    let place = normal("/"@, programs[n - 1].0);
    let rest = with_programs(list, programs, comps, n - 1);
    let kind = if place.len() == comps.len() + 1 {
        FileType::File
    } else {
        FileType::Dir
    };
    if j < n - 1 {
        lemma_programs_listed(list, programs, comps, n - 1, j);
    }
    if lies_below(comps, place) {
        lemma_with_name(rest, place[comps.len() as int], kind, name);
    }
}

proof fn lemma_mounts_listed<S>(
    list: Seq<(Seq<char>, FileType)>,
    ms: Seq<MountView<S>>,
    comps: Seq<Seq<char>>,
    n: int,
    j: int,
    other: Seq<char>,
)
    requires
        0 <= n <= ms.len(),
    ensures
        lists(list, other) ==> lists(with_mounts(list, ms, comps, n), other),
        0 <= j < n && lies_below(comps, ms[j].comps()) ==> lists(
            with_mounts(list, ms, comps, n),
            ms[j].comps()[comps.len() as int],
        ),
    decreases n,
{
    if n > 0 {
        lemma_mounts_listed(list, ms, comps, n - 1, j, other);
        let rest = with_mounts(list, ms, comps, n - 1);
        let place = ms[n - 1].comps();
        if lies_below(comps, place) {
            let name = place[comps.len() as int];
            lemma_with_name(rest, name, FileType::Dir, other);
            if 0 <= j < n && lies_below(comps, ms[j].comps()) {
                lemma_with_name(rest, name, FileType::Dir, ms[j].comps()[comps.len() as int]);
            }
        }
    }
}

/// A directory lists the way to every program and to every mount below it, and is a directory
/// for that alone.
pub proof fn law_programs_and_mounts_are_listed<S>(
    programs: Seq<(Seq<char>, ProgramId)>,
    ms: Seq<MountView<S>>,
    comps: Seq<Seq<char>>,
    pid: i32,
    j: int,
)
    ensures
        0 <= j < programs.len() && lies_below(comps, normal("/"@, programs[j].0)) ==> lists(
            virtual_names(programs, ms, comps),
            normal("/"@, programs[j].0)[comps.len() as int],
        ) && is_invented(programs, ms, comps, pid),
        0 <= j < ms.len() && lies_below(comps, ms[j].comps()) ==> lists(
            virtual_names(programs, ms, comps),
            ms[j].comps()[comps.len() as int],
        ) && is_invented(programs, ms, comps, pid),
{
    let list = with_programs(fixed_names(comps), programs, comps, programs.len() as int);
    if 0 <= j < programs.len() && lies_below(comps, normal("/"@, programs[j].0)) {
        let name = normal("/"@, programs[j].0)[comps.len() as int];
        lemma_programs_listed(fixed_names(comps), programs, comps, programs.len() as int, j);
        lemma_mounts_listed(list, ms, comps, ms.len() as int, 0, name);
    }
    if 0 <= j < ms.len() && lies_below(comps, ms[j].comps()) {
        lemma_mounts_listed(list, ms, comps, ms.len() as int, j, Seq::empty());
    }
}

// ---------------------------------------------------------------------------------------------
// what a mount holds

proof fn lemma_with_added(
    guest: Seq<char>,
    list: Seq<DirEntView>,
    names: Seq<(Seq<char>, FileType)>,
    n: int,
    j: int,
)
    requires
        0 <= n <= names.len(),
    ensures
        with_added(guest, list, names, n).len() >= list.len(),
        forall|i: int|
            0 <= i < list.len() ==> #[trigger] with_added(guest, list, names, n)[i] == list[i],
        0 <= j < n ==> has_entry(with_added(guest, list, names, n), names[j].0),
    decreases n,
{
    if n > 0 {
        lemma_with_added(guest, list, names, n - 1, j);
        let rest = with_added(guest, list, names, n - 1);
        let all = with_added(guest, list, names, n);
        if !has_entry(rest, names[n - 1].0) {
            assert(all[rest.len() as int].name == names[n - 1].0);
            if 0 <= j < n - 1 {
                let i = choose|i: int| 0 <= i < rest.len() && (#[trigger] rest[i]).name == names[j].0;
                assert(all[i].name == names[j].0);
            }
        }
    }
}

/// A directory of a mount lists itself and its parent first, then everything the mount lists
/// there, in the mount's order, with its name and type, and then what else is to be found
/// there.
pub proof fn law_a_directory_lists_what_the_mount_holds(
    guest: Seq<char>,
    items: Seq<DirEntryView>,
    names: Seq<(Seq<char>, FileType)>,
    i: int,
    j: int,
)
    ensures
        ({
            let list = mounted_listing(guest, items, names);
            &&& list.len() >= 2 + items.len()
            &&& list[0].name == "."@ && list[1].name == ".."@
            &&& list[0].kind == 4 && list[1].kind == 4
            &&& 0 <= i < items.len() ==> {
                &&& list[2 + i].name == items[i].name
                &&& list[2 + i].kind == match items[i].file_type {
                    Some(FileType::Dir) => 4u8,
                    Some(FileType::File) => 8u8,
                    Some(FileType::Symlink) => 10u8,
                    None => 0u8,
                }
                &&& items[i].ino != 0 ==> list[2 + i].ino == items[i].ino
            }
            &&& 0 <= j < names.len() ==> has_entry(list, names[j].0)
        }),
{
    let own = dots() + items.map_values(|e: DirEntryView| mount_entry(guest, e));
    lemma_with_added(guest, own, names, names.len() as int, j);
    let list = mounted_listing(guest, items, names);
    assert(list[0] == own[0] && list[1] == own[1]);
    if 0 <= i < items.len() {
        assert(list[2 + i] == own[2 + i]);
    }
}

proof fn lemma_no_children(nodes: Seq<(Seq<char>, NodeModel)>, key: Seq<char>, i: int)
    requires
        0 <= i < nodes.len(),
        child_name(key, nodes[i].0) is Some,
    ensures
        child_names(nodes, key).contains(child_name(key, nodes[i].0)->0),
    decreases nodes.len(),
{
    if i < nodes.len() - 1 {
        lemma_no_children(nodes.drop_last(), key, i);
    }
}

/// A directory is removed only where nothing stands in it.
pub proof fn law_a_removed_directory_was_empty(m: MemModel, path: Seq<char>, name: Seq<char>, i: int)
    requires
        m.rmdired(path).1 is Ok,
        !name.contains('/'),
        0 <= i < m.nodes.len(),
    ensures
        m.nodes[i].0 != key_of(path).push('/') + name,
{
    let key = key_of(path);
    let k = key.push('/') + name;
    if m.nodes[i].0 == k {
        assert(k.subrange(0, key.len() as int) =~= key);
        assert(k.subrange(key.len() as int + 1, k.len() as int) =~= name);
        assert(child_name(key, k) == Some(name));
        lemma_no_children(m.nodes, key, i);
        assert(child_names(m.nodes, key).contains(name));
    }
}

// ---------------------------------------------------------------------------------------------
// access, and generated files

/// What is on a mount may be accessed exactly when the mount says that it is there; else the
/// caller is told what the mount says.
pub proof fn law_access_is_given_to_what_is_there<V: Vfs>(
    sh: SharedView<<V as VfsFile>::Handle>,
    ctx: CtxView,
    fs: Seq<MountView<<V as VfsFile>::State>>,
    mem: Seq<u8>,
    dirfd: i32,
    path_at: u32,
    flags: i32,
    path: Seq<char>,
    mount: usize,
    rel: Seq<char>,
    guest: Seq<char>,
)
    requires
        text_at(mem, path_at as int) == Ok::<Seq<char>, Errno>(path),
        looked_up::<V>(sh, ctx, fs, dirfd, path, flags & 0x100 == 0).2 == Ok::<
            NodeView,
            crate::syscall::base::Fault,
        >(NodeView::Mounted { mount, rel, guest }),
    ensures
        ({
            let r = faccessat_spec::<V>(sh, ctx, fs, mem, dirfd, path_at, flags).2;
            let said = called::<V>(
                looked_up::<V>(sh, ctx, fs, dirfd, path, flags & 0x100 == 0).1,
                mount as int,
                VfsCall::Stat { path: rel, follow: flags & 0x100 == 0 },
            ).1;
            &&& said is Stat ==> r == Sys::Ok(0)
            &&& said matches VfsAnswer::Fail(e) ==> r is Err && (e.code() != 11 ==> r == errno::<
                i32,
            >(e))
        }),
{
}

/// The command line of a process reads as its arguments, each with a NUL behind it.
pub proof fn law_the_command_line_reads_as_the_arguments<F, S>(
    sh: SharedView<F>,
    ctx: CtxView,
    fs: Seq<MountView<S>>,
    uptime: Seq<char>,
    dir: Seq<char>,
    i: int,
)
    requires
        0 <= i < ctx.argv.len(),
    ensures
        ({
            let guest = dir.push('/') + "cmdline"@;
            let bytes = proc_bytes(sh, ctx, fs, uptime, guest);
            let from = nul_ended(ctx.argv, i).len() as int;
            let to = from + ctx.argv[i].len();
            &&& to < bytes.len()
            &&& bytes.subrange(from, to) == ctx.argv[i]
            &&& bytes[to] == 0
            &&& i + 1 < ctx.argv.len() ==> nul_ended(ctx.argv, i + 1).len() == to + 1
            &&& i == 0 ==> from == 0
            &&& i + 1 == ctx.argv.len() ==> bytes.len() == to + 1
        }),
{
    let guest = dir.push('/') + "cmdline"@;
    lemma_names_differ(0);
    reveal_strlit("cmdline");
    lemma_last_part(dir, "cmdline"@);
    super::startup::lemma_strings(ctx.argv, i, ctx.argv.len() as int);
}

proof fn lemma_last_part(dir: Seq<char>, name: Seq<char>)
    requires
        !name.contains('/'),
    ensures
        last_part(dir.push('/') + name) == name,
    decreases name.len(),
{
    let path = dir.push('/') + name;
    if name.len() == 0 {
        assert(path =~= dir.push('/'));
        assert(path.last() == '/');
        assert(last_part(path) =~= name);
    } else {
        let front = name.drop_last();
        assert forall|i: int| 0 <= i < front.len() implies front[i] != '/' by {
            assert(name.contains(name[i]));
        }
        assert(!front.contains('/'));
        lemma_last_part(dir, front);
        assert(path.drop_last() =~= dir.push('/') + front);
        assert(path.last() == name.last());
        assert(name.contains(name[name.len() - 1]));
        assert(front.push(name.last()) =~= name);
    }
}

// ---------------------------------------------------------------------------------------------
// devices and links of the kernel

/// The devices by their names.
pub proof fn law_devices_have_their_names(pid: i32)
    ensures
        special(seq!["dev"@, "null"@], pid) == Special::Device(Device::Null),
        special(seq!["dev"@, "zero"@], pid) == Special::Device(Device::Zero),
        special(seq!["dev"@, "random"@], pid) == Special::Device(Device::Random),
        special(seq!["dev"@, "urandom"@], pid) == Special::Device(Device::Random),
        special(seq!["dev"@, "tty"@], pid) == Special::Device(Device::Tty),
        special(seq!["dev"@, "stdin"@], pid) == Special::Device(Device::Fd(0)),
        special(seq!["dev"@, "stdout"@], pid) == Special::Device(Device::Fd(1)),
        special(seq!["dev"@, "stderr"@], pid) == Special::Device(Device::Fd(2)),
{
    lemma_names_differ(pid);
    reveal_strlit("null");
    reveal_strlit("zero");
    reveal_strlit("random");
    reveal_strlit("stdout");
    reveal_strlit("stderr");
    assert("null"@[0] == 'n' && "zero"@[0] == 'z');
    assert("random"@[0] == 'r' && "stdout"@[0] == 's' && "stderr"@[0] == 's');
    assert("stdout"@[3] == 'o' && "stderr"@[3] == 'e');
    assert("urandom"@.len() == 7);
}

/// Two links of the kernel's lead to the program a process runs and to the directory it is in.
pub proof fn law_a_process_has_links_to_its_program_and_directory<V: Vfs>(
    programs: Seq<(Seq<char>, ProgramId)>,
    ms: Seq<MountView<<V as VfsFile>::State>>,
    who: WhoView,
    comps: Seq<Seq<char>>,
)
    requires
        program_at(programs, path_of(comps)) is None,
    ensures
        comps == seq!["proc"@, "self"@, "exe"@] ==> settled::<V>(programs, ms, who, comps).1 == Ok::<
            NodeView,
            Errno,
        >(NodeView::VirtualLink { target: who.exe, guest: path_of(comps) }),
        comps == seq!["proc"@, "self"@, "cwd"@] ==> settled::<V>(programs, ms, who, comps).1 == Ok::<
            NodeView,
            Errno,
        >(NodeView::VirtualLink { target: who.cwd, guest: path_of(comps) }),
{
    lemma_names_differ(who.pid);
}

/// A program right in a directory is listed there as a file, and the way to one further down as
/// a directory.
pub proof fn law_programs_are_listed_as_files(
    list: Seq<(Seq<char>, FileType)>,
    programs: Seq<(Seq<char>, ProgramId)>,
    comps: Seq<Seq<char>>,
)
    requires
        programs.len() == 1,
        lies_below(comps, normal("/"@, programs[0].0)),
        !lists(list, normal("/"@, programs[0].0)[comps.len() as int]),
    ensures
        ({
            let place = normal("/"@, programs[0].0);
            with_programs(list, programs, comps, 1) == list.push(
                (
                    place[comps.len() as int],
                    if place.len() == comps.len() + 1 {
                        FileType::File
                    } else {
                        FileType::Dir
                    },
                ),
            )
        }),
{
    assert(with_programs(list, programs, comps, 0) == list);
}

/// What the kernel says of its own: a program may be executed and holds nothing to be read, a
/// directory is one, a link is as long as its target, and a generated file, which may only be
/// read, as long as what it holds.
pub proof fn law_what_is_said_of_the_kernels_own<V: Vfs>(
    sh: SharedView<<V as VfsFile>::Handle>,
    ctx: CtxView,
    fs: Seq<MountView<<V as VfsFile>::State>>,
    uptime: Seq<char>,
    follow: bool,
    id: ProgramId,
    guest: Seq<char>,
    target: Seq<char>,
)
    ensures
        node_facts::<V>(sh, ctx, fs, uptime, NodeView::Program { id, guest }, follow).2 matches Ok(f)
            && f.stat.file_type is File && f.stat.mode == 7 * 64 + 5 * 8 + 5 && f.stat.size == 0
            && f.name == guest,
        node_facts::<V>(sh, ctx, fs, uptime, NodeView::VirtualDir { guest }, follow).2 matches Ok(f)
            && f.stat.file_type is Dir && f.name == guest,
        encode_utf8(target).len() <= u64::MAX ==> (node_facts::<V>(
            sh,
            ctx,
            fs,
            uptime,
            NodeView::VirtualLink { target, guest },
            follow,
        ).2 matches Ok(f) && f.stat.file_type is Symlink && f.stat.size == encode_utf8(
            target,
        ).len()),
        proc_bytes(sh, ctx, fs, uptime, guest).len() <= u64::MAX ==> (node_facts::<V>(
            sh,
            ctx,
            fs,
            uptime,
            NodeView::Synth { guest },
            follow,
        ).2 matches Ok(f) && f.stat.file_type is File && f.stat.mode == 4 * 64 + 4 * 8 + 4
            && f.stat.size == proc_bytes(sh, ctx, fs, uptime, guest).len()),
{
}

} // verus!
