//! `openat`.
use super::base::{errno, fault_of, looked_up, noted, resolve, vfs_fault, Fault, Sys};
use super::fds::{desc_cap, desc_limit, dup_spec, place, placed, sys_dup};
use super::stat::{hashed_ino, ino_of, proc_bytes, proc_content};
use crate::abi::{
    DT_DIR, O_ACCMODE, O_APPEND, O_CLOEXEC, O_CREAT, O_DIRECTORY, O_EXCL, O_NOFOLLOW, O_NONBLOCK,
    O_RDONLY, O_RDWR, O_TRUNC, O_WRONLY,
};
use crate::errno::Errno;
use crate::kernel::fd::{
    dirent_kind, dirent_type, listing, Desc, DescKind, DescView, DirEnt, DirEntView, Fd, KindView,
};
use crate::kernel::mem::{cstr, text_at};
use crate::kernel::mounts::{called, refuses_writes, MountView, Mounts};
use crate::kernel::namespace::{
    named, virtual_entries, virtual_names, Device, Named, Node, NodeView,
};
use crate::kernel::path::normal;
use crate::kernel::state::{released, Clock, Ctx, CtxView, Shared, SharedView};
use crate::text::same;
use crate::vfs::{
    entries_of, DirEntry, DirEntryView, FileType, OpenOptions, Vfs, VfsAnswer, VfsCall, VfsFile,
};
use vstd::prelude::*;
use vstd::string::*;

verus! {

/// `.` and `..`, which every listing begins with.
pub open spec fn dots() -> Seq<DirEntView> {
    seq![
        DirEntView { ino: 1, kind: DT_DIR, name: "."@ },
        DirEntView { ino: 1, kind: DT_DIR, name: ".."@ },
    ]
}

/// `.` and `..`, which every listing begins with.
pub fn base_entries() -> (r: Vec<DirEnt>)
    ensures
        listing(r@) == dots(),
{
    let mut out: Vec<DirEnt> = Vec::new();
    out.push(DirEnt { ino: 1, kind: DT_DIR, name: ".".to_owned() });
    out.push(DirEnt { ino: 1, kind: DT_DIR, name: "..".to_owned() });
    assert(listing(out@) =~= dots());
    out
}

/// The path of a name in the directory `guest`.
pub open spec fn entry_path(guest: Seq<char>, name: Seq<char>) -> Seq<char> {
    if guest == "/"@ {
        guest + name
    } else {
        guest + "/"@ + name
    }
}

/// An entry the kernel adds to the directory `guest`.
pub open spec fn added_entry(guest: Seq<char>, name: Seq<char>, kind: FileType) -> DirEntView {
    DirEntView { ino: ino_of(entry_path(guest, name)), kind: dirent_type(Some(kind)), name }
}

/// An entry a mount lists, in the directory `guest`.
pub open spec fn mount_entry(guest: Seq<char>, e: DirEntryView) -> DirEntView {
    DirEntView {
        ino: if e.ino == 0 {
            ino_of(entry_path(guest, e.name))
        } else {
            e.ino
        },
        kind: dirent_type(e.file_type),
        name: e.name,
    }
}

/// Whether a listing has an entry of this name.
pub open spec fn has_entry(list: Seq<DirEntView>, name: Seq<char>) -> bool {
    exists|i: int| 0 <= i < list.len() && (#[trigger] list[i]).name == name
}

/// A listing with the first `n` names the kernel adds, each unless it is there already.
pub open spec fn with_added(
    guest: Seq<char>,
    list: Seq<DirEntView>,
    names: Seq<(Seq<char>, FileType)>,
    n: int,
) -> Seq<DirEntView>
    decreases n,
{
    if n <= 0 {
        list
    } else {
        let rest = with_added(guest, list, names, n - 1);
        if has_entry(rest, names[n - 1].0) {
            rest
        } else {
            rest.push(added_entry(guest, names[n - 1].0, names[n - 1].1))
        }
    }
}

/// The listing of a directory no mount has.
pub open spec fn virtual_listing(guest: Seq<char>, names: Seq<(Seq<char>, FileType)>) -> Seq<
    DirEntView,
> {
    dots() + names.map_values(|e: (Seq<char>, FileType)| added_entry(guest, e.0, e.1))
}

/// The listing of a directory on a mount. Mount points that live under it are part of it too.
pub open spec fn mounted_listing(
    guest: Seq<char>,
    items: Seq<DirEntryView>,
    names: Seq<(Seq<char>, FileType)>,
) -> Seq<DirEntView> {
    with_added(
        guest,
        dots() + items.map_values(|e: DirEntryView| mount_entry(guest, e)),
        names,
        names.len() as int,
    )
}

fn path_in(guest: &str, name: &str) -> (r: String)
    ensures
        r@ == entry_path(guest@, name@),
{
    let mut full = guest.to_owned();
    if !same(guest, "/") {
        full.append("/");
    }
    full.append(name);
    full
}

fn push_added(out: &mut Vec<DirEnt>, guest: &str, name: &str, kind: FileType)
    ensures
        listing(final(out)@) == listing(old(out)@).push(added_entry(guest@, name@, kind)),
{
    let ghost before = listing(out@);
    out.push(
        DirEnt {
            ino: hashed_ino(path_in(guest, name).as_str()),
            kind: dirent_kind(Some(kind)),
            name: name.to_owned(),
        },
    );
    assert(listing(out@) =~= before.push(added_entry(guest@, name@, kind)));
}

fn list_virtual(guest: &str, names: &Vec<Named>) -> (r: Vec<DirEnt>)
    ensures
        listing(r@) == virtual_listing(guest@, named(names@)),
{
    let ghost all = named(names@);
    let ghost whole = virtual_listing(guest@, all);
    let mut out = base_entries();
    let mut i: usize = 0;
    assert(listing(out@) =~= whole.subrange(0, 2));
    while i < names.len()
        invariant
            i <= names@.len(),
            all == named(names@),
            whole == virtual_listing(guest@, all),
            listing(out@) == whole.subrange(0, 2 + i),
        decreases names@.len() - i,
    {
        assert(all[i as int] == (names@[i as int].name@, names@[i as int].kind));
        assert(whole[2 + i] == added_entry(guest@, all[i as int].0, all[i as int].1));
        push_added(&mut out, guest, names[i].name.as_str(), names[i].kind);
        i = i + 1;
        assert(listing(out@) =~= whole.subrange(0, 2 + i));
    }
    assert(whole.subrange(0, 2 + i) =~= whole);
    out
}

fn has_name(list: &Vec<DirEnt>, name: &str) -> (r: bool)
    ensures
        r == has_entry(listing(list@), name@),
{
    let ghost all = listing(list@);
    let mut i: usize = 0;
    while i < list.len()
        invariant
            i <= list@.len(),
            all == listing(list@),
            forall|j: int| 0 <= j < i ==> (#[trigger] all[j]).name != name@,
        decreases list@.len() - i,
    {
        assert(all[i as int].name == list@[i as int].name@);
        if same(list[i].name.as_str(), name) {
            return true;
        }
        i = i + 1;
    }
    false
}

fn list_mounted(guest: &str, items: &Vec<DirEntry>, names: &Vec<Named>) -> (r: Vec<DirEnt>)
    ensures
        listing(r@) == mounted_listing(guest@, entries_of(items@), named(names@)),
{
    let ghost from = entries_of(items@);
    let ghost own = dots() + from.map_values(|e: DirEntryView| mount_entry(guest@, e));
    let mut out = base_entries();
    let mut i: usize = 0;
    assert(listing(out@) =~= own.subrange(0, 2));
    while i < items.len()
        invariant
            i <= items@.len(),
            from == entries_of(items@),
            own == dots() + from.map_values(|e: DirEntryView| mount_entry(guest@, e)),
            listing(out@) == own.subrange(0, 2 + i),
        decreases items@.len() - i,
    {
        let item = &items[i];
        let ino: u64 = if item.ino == 0 {
            hashed_ino(path_in(guest, item.name.as_str()).as_str())
        } else {
            item.ino
        };
        let ghost before = listing(out@);
        out.push(DirEnt { ino, kind: dirent_kind(item.file_type), name: item.name.clone() });
        assert(from[i as int] == items@[i as int]@);
        assert(own[2 + i] == mount_entry(guest@, from[i as int]));
        assert(listing(out@) =~= before.push(mount_entry(guest@, from[i as int])));
        i = i + 1;
        assert(listing(out@) =~= own.subrange(0, 2 + i));
    }
    assert(own.subrange(0, 2 + i) =~= own);
    let ghost all = named(names@);
    let mut i: usize = 0;
    while i < names.len()
        invariant
            i <= names@.len(),
            all == named(names@),
            listing(out@) == with_added(guest@, own, all, i as int),
        decreases names@.len() - i,
    {
        assert(all[i as int] == (names@[i as int].name@, names@[i as int].kind));
        if !has_name(&out, names[i].name.as_str()) {
            push_added(&mut out, guest, names[i].name.as_str(), names[i].kind);
        }
        i = i + 1;
    }
    out
}

// ---------------------------------------------------------------------------------------------
// opening

/// Whether an open could change something.
pub open spec fn wants_write(flags: u32) -> bool {
    flags & O_ACCMODE == O_WRONLY || flags & O_ACCMODE == O_RDWR || flags & (O_CREAT | O_TRUNC) != 0
}

/// How a mount is asked to open a file.
pub open spec fn options_of(flags: u32, mode: u32, umask: u32) -> OpenOptions {
    let access = flags & O_ACCMODE;
    OpenOptions {
        read: access == O_RDONLY || access == O_RDWR,
        write: access == O_WRONLY || access == O_RDWR,
        append: flags & O_APPEND != 0,
        create: flags & O_CREAT != 0,
        create_new: flags & O_EXCL != 0 && flags & O_CREAT != 0,
        truncate: flags & O_TRUNC != 0 && access != O_RDONLY,
        mode: mode & !umask & 0xfff,
    }
}

/// What opening comes to, before a descriptor is found for it.
#[verifier::ext_equal]
pub enum Opening<F> {
    /// A new description, opened as this path.
    Fresh(KindView<F>, Seq<char>),
    /// A descriptor that is open already: share its description.
    Again(i32),
    Fail(Fault),
}

/// Opening a place on a mount.
pub open spec fn mounted_opening<V: Vfs>(
    sh: SharedView<<V as VfsFile>::Handle>,
    fs: Seq<MountView<<V as VfsFile>::State>>,
    umask: u32,
    mount: usize,
    rel: Seq<char>,
    guest: Seq<char>,
    flags: u32,
    mode: u32,
) -> (
    SharedView<<V as VfsFile>::Handle>,
    Seq<MountView<<V as VfsFile>::State>>,
    Opening<<V as VfsFile>::Handle>,
) {
    if wants_write(flags) && refuses_writes(fs, mount as int) {
        (sh, fs, Opening::Fail(Fault::Errno(Errno::ROFS)))
    } else {
        let (f1, found) = called::<V>(fs, mount as int, VfsCall::Stat { path: rel, follow: true });
        let there = found is Stat;
        let is_dir = found matches VfsAnswer::Stat(st) && st.file_type is Dir;
        if found matches VfsAnswer::Fail(e) && !e.is_same(Errno::NOENT) {
            (noted(sh, found->Fail_0), f1, Opening::Fail(fault_of(found->Fail_0)))
        } else if flags & O_DIRECTORY != 0 && there && !is_dir {
            (sh, f1, Opening::Fail(Fault::Errno(Errno::NOTDIR)))
        } else if is_dir {
            if wants_write(flags) {
                (sh, f1, Opening::Fail(Fault::Errno(Errno::ISDIR)))
            } else {
                let (f2, answer) = called::<V>(f1, mount as int, VfsCall::Readdir { path: rel });
                match answer {
                    VfsAnswer::Listing(items) => (
                        sh,
                        f2,
                        Opening::Fresh(
                            KindView::Dir {
                                entries: mounted_listing(
                                    guest,
                                    items,
                                    virtual_names(sh.overlay, f2, normal("/"@, guest)),
                                ),
                                pos: 0,
                            },
                            guest,
                        ),
                    ),
                    VfsAnswer::Fail(e) => (noted(sh, e), f2, Opening::Fail(fault_of(e))),
                    _ => (sh, f2, Opening::Fail(Fault::Errno(Errno::IO))),
                }
            }
        } else {
            let (f2, answer) = called::<V>(
                f1,
                mount as int,
                VfsCall::Open { path: rel, opts: options_of(flags, mode, umask) },
            );
            match answer {
                VfsAnswer::Opened(file) => (
                    sh,
                    f2,
                    Opening::Fresh(KindView::File { file, mount, closed: false }, guest),
                ),
                VfsAnswer::Fail(e) => (noted(sh, e), f2, Opening::Fail(fault_of(e))),
                _ => (sh, f2, Opening::Fail(Fault::Errno(Errno::IO))),
            }
        }
    }
}

/// Opening what a path was resolved to.
pub open spec fn node_opening<V: Vfs>(
    sh: SharedView<<V as VfsFile>::Handle>,
    ctx: CtxView,
    fs: Seq<MountView<<V as VfsFile>::State>>,
    uptime: Seq<char>,
    node: NodeView,
    flags: u32,
    mode: u32,
) -> (
    SharedView<<V as VfsFile>::Handle>,
    Seq<MountView<<V as VfsFile>::State>>,
    Opening<<V as VfsFile>::Handle>,
) {
    match node {
        // A program is executable but not readable: nothing can copy it out.
        NodeView::Program { guest, .. } => (
            sh,
            fs,
            if wants_write(flags) {
                Opening::Fail(Fault::Errno(Errno::ROFS))
            } else {
                Opening::Fresh(KindView::Null, guest)
            },
        ),
        NodeView::Device { device, guest } => (
            sh,
            fs,
            match device {
                Device::Null => Opening::Fresh(KindView::Null, guest),
                Device::Zero => Opening::Fresh(KindView::Zero, guest),
                Device::Random => Opening::Fresh(KindView::Random, guest),
                Device::Tty => Opening::Fresh(
                    if flags & O_ACCMODE == O_RDONLY {
                        KindView::Stdin
                    } else {
                        KindView::Stdout(1)
                    },
                    guest,
                ),
                Device::Fd(fd) => Opening::Again(fd),
            },
        ),
        NodeView::Synth { guest } => (
            sh,
            fs,
            if wants_write(flags) {
                Opening::Fail(Fault::Errno(Errno::ROFS))
            } else {
                Opening::Fresh(
                    KindView::Memory { data: proc_bytes(sh, ctx, fs, uptime, guest), pos: 0 },
                    guest,
                )
            },
        ),
        NodeView::VirtualDir { guest } => (
            sh,
            fs,
            if wants_write(flags) {
                Opening::Fail(Fault::Errno(Errno::ISDIR))
            } else {
                Opening::Fresh(
                    KindView::Dir {
                        entries: virtual_listing(
                            guest,
                            virtual_names(sh.overlay, fs, normal("/"@, guest)),
                        ),
                        pos: 0,
                    },
                    guest,
                )
            },
        ),
        NodeView::VirtualLink { .. } => (sh, fs, Opening::Fail(Fault::Errno(Errno::LOOP))),
        NodeView::Mounted { mount, rel, guest } => mounted_opening::<V>(
            sh,
            fs,
            ctx.task.umask,
            mount,
            rel,
            guest,
            flags,
            mode,
        ),
    }
}

/// Finding a descriptor for what was opened.
pub open spec fn installed<V: Vfs>(
    sh: SharedView<<V as VfsFile>::Handle>,
    ctx: CtxView,
    fs: Seq<MountView<<V as VfsFile>::State>>,
    opening: Opening<<V as VfsFile>::Handle>,
    flags: u32,
) -> (SharedView<<V as VfsFile>::Handle>, CtxView, Seq<MountView<<V as VfsFile>::State>>, Sys) {
    let cloexec = flags & O_CLOEXEC != 0;
    match opening {
        Opening::Fail(x) => (sh, ctx, fs, Err(x)),
        Opening::Again(fd) => {
            let (s, c, r) = dup_spec(sh, ctx, fd, 0, cloexec);
            (s, c, fs, r)
        },
        Opening::Fresh(kind, guest) => {
            let limit = sh.limits.open_files;
            if !sh.descs.has_room(desc_cap(limit)) {
                (sh, ctx, fs, errno(Errno::MFILE))
            } else {
                let key = sh.descs.next_key();
                let desc = DescView::fresh(
                    kind,
                    guest,
                    flags & (O_ACCMODE | O_APPEND | O_NONBLOCK),
                );
                let s = SharedView { descs: sh.descs.insert(desc), ..sh };
                let (c, r) = placed(ctx, Fd { desc: key, cloexec }, 0, limit);
                if r is Ok {
                    (s, c, fs, r)
                } else {
                    let (s2, f2) = released::<V>(s, fs, key);
                    (s2, c, f2, r)
                }
            }
        },
    }
}

/// `openat`.
pub open spec fn openat_spec<V: Vfs>(
    sh: SharedView<<V as VfsFile>::Handle>,
    ctx: CtxView,
    fs: Seq<MountView<<V as VfsFile>::State>>,
    mem: Seq<u8>,
    uptime: Seq<char>,
    dirfd: i32,
    path_at: u32,
    flags: u32,
    mode: u32,
) -> (SharedView<<V as VfsFile>::Handle>, CtxView, Seq<MountView<<V as VfsFile>::State>>, Sys) {
    match text_at(mem, path_at as int) {
        Err(e) => (sh, ctx, fs, errno(e)),
        Ok(path) => {
            let (s, f, node) = looked_up::<V>(sh, ctx, fs, dirfd, path, flags & O_NOFOLLOW == 0);
            match node {
                Err(x) => (s, ctx, f, Err(x)),
                Ok(node) => {
                    let (s2, f2, opening) = node_opening::<V>(
                        s,
                        ctx,
                        f,
                        uptime,
                        node,
                        flags,
                        mode,
                    );
                    installed::<V>(s2, ctx, f2, opening, flags)
                },
            }
        },
    }
}

/// What opening comes to.
enum Opened<F> {
    Fresh(DescKind<F>, String),
    Again(i32),
    Fail(Fault),
}

spec fn opened_view<F>(o: Opened<F>) -> Opening<F> {
    match o {
        Opened::Fresh(kind, guest) => Opening::Fresh(kind@, guest@),
        Opened::Again(fd) => Opening::Again(fd),
        Opened::Fail(x) => Opening::Fail(x),
    }
}

fn open_mounted<V: Vfs>(
    sh: &mut Shared<<V as VfsFile>::Handle>,
    fs: &mut Mounts<V>,
    umask: u32,
    mount: usize,
    rel: String,
    guest: String,
    flags: u32,
    mode: u32,
) -> (r: Opened<<V as VfsFile>::Handle>)
    requires
        old(fs).wf(),
        old(sh)@.wf(),
    ensures
        final(fs).wf(),
        final(sh)@.wf(),
        mounted_opening::<V>(
            old(sh)@,
            old(fs)@,
            umask,
            mount,
            rel@,
            guest@,
            flags,
            mode,
        ) == (final(sh)@, final(fs)@, opened_view(r)),
{
    let access: u32 = flags & O_ACCMODE;
    let writes = access == O_WRONLY || access == O_RDWR || flags & (O_CREAT | O_TRUNC) != 0;
    if writes && fs.is_read_only(mount) {
        return Opened::Fail(Fault::Errno(Errno::ROFS));
    }
    let (there, is_dir) = match fs.stat(mount, rel.as_str(), true) {
        Ok(st) => (true, st.file_type == FileType::Dir),
        Err(e) => {
            if !e.same_as(Errno::NOENT) {
                return Opened::Fail(vfs_fault(sh, e));
            }
            (false, false)
        },
    };
    if flags & O_DIRECTORY != 0 && there && !is_dir {
        return Opened::Fail(Fault::Errno(Errno::NOTDIR));
    }
    if is_dir {
        if writes {
            return Opened::Fail(Fault::Errno(Errno::ISDIR));
        }
        return match fs.readdir(mount, rel.as_str()) {
            Ok(items) => {
                let names = virtual_entries(&sh.overlay, fs, guest.as_str());
                let entries = list_mounted(guest.as_str(), &items, &names);
                Opened::Fresh(DescKind::Dir { entries, pos: 0 }, guest)
            },
            Err(e) => Opened::Fail(vfs_fault(sh, e)),
        };
    }
    let options = OpenOptions {
        read: access == O_RDONLY || access == O_RDWR,
        write: access == O_WRONLY || access == O_RDWR,
        append: flags & O_APPEND != 0,
        create: flags & O_CREAT != 0,
        create_new: flags & O_EXCL != 0 && flags & O_CREAT != 0,
        truncate: flags & O_TRUNC != 0 && access != O_RDONLY,
        mode: mode & !umask & 0xfff,
    };
    match fs.open(mount, rel.as_str(), &options) {
        Ok(file) => Opened::Fresh(DescKind::File { file, mount, closed: false }, guest),
        Err(e) => Opened::Fail(vfs_fault(sh, e)),
    }
}

fn open_node<V: Vfs>(
    sh: &mut Shared<<V as VfsFile>::Handle>,
    ctx: &Ctx,
    fs: &mut Mounts<V>,
    clock: &Clock,
    node: Node,
    flags: u32,
    mode: u32,
) -> (r: Opened<<V as VfsFile>::Handle>)
    requires
        old(fs).wf(),
        old(sh)@.wf(),
    ensures
        final(fs).wf(),
        final(sh)@.wf(),
        node_opening::<V>(
            old(sh)@,
            ctx@,
            old(fs)@,
            clock.uptime@,
            node@,
            flags,
            mode,
        ) == (final(sh)@, final(fs)@, opened_view(r)),
{
    let access: u32 = flags & O_ACCMODE;
    let writes = access == O_WRONLY || access == O_RDWR || flags & (O_CREAT | O_TRUNC) != 0;
    match node {
        Node::Program { guest, .. } => if writes {
            Opened::Fail(Fault::Errno(Errno::ROFS))
        } else {
            Opened::Fresh(DescKind::Null, guest)
        },
        Node::Device { device, guest } => match device {
            Device::Null => Opened::Fresh(DescKind::Null, guest),
            Device::Zero => Opened::Fresh(DescKind::Zero, guest),
            Device::Random => Opened::Fresh(DescKind::Random, guest),
            Device::Tty => Opened::Fresh(
                if access == O_RDONLY {
                    DescKind::Stdin
                } else {
                    DescKind::Stdout(1)
                },
                guest,
            ),
            Device::Fd(fd) => Opened::Again(fd),
        },
        Node::Synth { guest } => {
            if writes {
                return Opened::Fail(Fault::Errno(Errno::ROFS));
            }
            let data = proc_content(sh, ctx, fs, clock, guest.as_str());
            Opened::Fresh(DescKind::Memory { data, pos: 0 }, guest)
        },
        Node::VirtualDir { guest } => {
            if writes {
                return Opened::Fail(Fault::Errno(Errno::ISDIR));
            }
            let names = virtual_entries(&sh.overlay, fs, guest.as_str());
            Opened::Fresh(DescKind::Dir { entries: list_virtual(guest.as_str(), &names), pos: 0 }, guest)
        },
        Node::VirtualLink { .. } => Opened::Fail(Fault::Errno(Errno::LOOP)),
        Node::Mounted { mount, rel, guest } => open_mounted(
            sh,
            fs,
            ctx.task.umask,
            mount,
            rel,
            guest,
            flags,
            mode,
        ),
    }
}

fn install<V: Vfs>(
    sh: &mut Shared<<V as VfsFile>::Handle>,
    ctx: &mut Ctx,
    fs: &mut Mounts<V>,
    opened: Opened<<V as VfsFile>::Handle>,
    flags: u32,
) -> (r: Sys)
    requires
        old(fs).wf(),
        old(sh)@.wf(),
    ensures
        final(fs).wf(),
        final(sh)@.wf(),
        installed::<V>(old(sh)@, old(ctx)@, old(fs)@, opened_view(opened), flags) == (
            final(sh)@,
            final(ctx)@,
            final(fs)@,
            r,
        ),
{
    let cloexec = flags & O_CLOEXEC != 0;
    match opened {
        Opened::Fail(x) => Err(x),
        Opened::Again(fd) => sys_dup(sh, ctx, fd, 0, cloexec),
        Opened::Fresh(kind, guest) => {
            let limit: usize = sh.limits.open_files;
            let status: u32 = flags & (O_ACCMODE | O_APPEND | O_NONBLOCK);
            let key: u32 = match sh.descs.insert(Desc::new(kind, guest, status), desc_limit(limit)) {
                Some(key) => key,
                None => return Err(Fault::Errno(Errno::MFILE)),
            };
            let r = place(ctx, Fd { desc: key, cloexec }, 0, limit);
            if r.is_err() {
                sh.release_desc(fs, key);
            }
            r
        },
    }
}

pub fn sys_openat<V: Vfs>(
    sh: &mut Shared<<V as VfsFile>::Handle>,
    ctx: &mut Ctx,
    fs: &mut Mounts<V>,
    mem: &[u8],
    clock: &Clock,
    dirfd: i32,
    path_at: u32,
    flags: u32,
    mode: u32,
) -> (r: Sys)
    requires
        old(fs).wf(),
        old(sh)@.wf(),
    ensures
        final(fs).wf(),
        final(sh)@.wf(),
        openat_spec::<V>(
            old(sh)@,
            old(ctx)@,
            old(fs)@,
            mem@,
            clock.uptime@,
            dirfd,
            path_at,
            flags,
            mode,
        ) == (final(sh)@, final(ctx)@, final(fs)@, r),
{
    let path = match cstr(mem, path_at) {
        Ok(path) => path,
        Err(e) => return Err(Fault::Errno(e)),
    };
    match resolve(sh, ctx, fs, dirfd, path.as_str(), flags & O_NOFOLLOW == 0) {
        Err(x) => Err(x),
        Ok(node) => {
            let opened = open_node(sh, ctx, fs, clock, node, flags, mode);
            install(sh, ctx, fs, opened, flags)
        },
    }
}

} // verus!
