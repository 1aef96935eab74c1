//! What paths mean, and what the calls that take them do.
use super::files::{
    law_a_link_reads_back, law_renaming_moves_the_contents, law_what_was_unlinked_is_gone,
};
use super::plain::{ends_in_nul, same_but};
use crate::errno::Errno;
use crate::kernel::mem::{patched, stores, text_at};
use crate::kernel::mounts::{called, refuses_writes, MountView};
use crate::kernel::namespace::{
    link_owner, probed, redirected, resolved_from, special, NodeView, Probed, WhoView,
};
use crate::kernel::path::{
    clean, flushed, is_absolute, is_name, law_path_round_trip, normal, parts, parts_from, path_of,
    step, walked,
};
use crate::kernel::state::{CtxView, SharedView};
use crate::syscall::base::{errno, looked_up, Fault, Sys};
use crate::syscall::open::{mounted_opening, options_of, Opening};
use crate::syscall::path::{
    fchdir_spec, getcwd_spec, link_text, mkdirat_spec, readlinkat_spec, renameat_spec,
    symlinkat_spec, truncate_spec, unlinkat_spec,
};
use crate::vfs::{Vfs, VfsAnswer, VfsCall, VfsFile};
use crate::vfs::memory::{has_name, key_of, node_at, MemFile, MemModel, MemVfs, NodeModel};
use vstd::prelude::*;
use vstd::utf8::encode_utf8;

verus! {

// ---------------------------------------------------------------------------------------------
// components

proof fn lemma_split(p: Seq<char>, q: Seq<char>, i: int, cur: Seq<char>, acc: Seq<Seq<char>>)
    requires
        0 <= i <= p.len(),
    ensures
        parts_from(p.push('/') + q, i, cur, acc) == parts_from(
            p.push('/') + q,
            p.len() as int + 1,
            Seq::empty(),
            parts_from(p, i, cur, acc),
        ),
    decreases p.len() - i,
{
    let s = p.push('/') + q;
    if i < p.len() {
        assert(s[i] == p[i]);
        if p[i] == '/' {
            lemma_split(p, q, i + 1, Seq::empty(), flushed(acc, cur));
        } else {
            lemma_split(p, q, i + 1, cur.push(p[i]), acc);
        }
    } else {
        assert(s[i] == '/');
    }
}

proof fn lemma_shifted(x: Seq<char>, q: Seq<char>, i: int, cur: Seq<char>, acc: Seq<Seq<char>>)
    requires
        0 <= i <= q.len(),
    ensures
        parts_from(x + q, x.len() + i, cur, acc) == parts_from(q, i, cur, acc),
    decreases q.len() - i,
{
    if i < q.len() {
        assert((x + q)[x.len() + i] == q[i]);
        if q[i] == '/' {
            lemma_shifted(x, q, i + 1, Seq::empty(), flushed(acc, cur));
        } else {
            lemma_shifted(x, q, i + 1, cur.push(q[i]), acc);
        }
    }
}

proof fn lemma_collected(
    p: Seq<char>,
    i: int,
    cur: Seq<char>,
    more: Seq<Seq<char>>,
    acc: Seq<Seq<char>>,
)
    requires
        0 <= i,
    ensures
        parts_from(p, i, cur, more + acc) == more + parts_from(p, i, cur, acc),
    decreases p.len() - i,
{
    assert(flushed(more + acc, cur) =~= more + flushed(acc, cur));
    if i < p.len() {
        if p[i] == '/' {
            lemma_collected(p, i + 1, Seq::empty(), more, flushed(acc, cur));
        } else {
            lemma_collected(p, i + 1, cur.push(p[i]), more, acc);
        }
    }
}

proof fn lemma_run(p: Seq<char>, i: int)
    requires
        0 <= i <= p.len(),
        !p.contains('/'),
    ensures
        parts_from(p, i, p.subrange(0, i), Seq::empty()) == flushed(Seq::empty(), p),
    decreases p.len() - i,
{
    if i < p.len() {
        assert(p.contains(p[i]));
        assert(p.subrange(0, i).push(p[i]) =~= p.subrange(0, i + 1));
        lemma_run(p, i + 1);
    } else {
        assert(p.subrange(0, i) =~= p);
    }
}

/// A path comes apart at its slashes: the components of two paths with a slash between them
/// are those of the one and then those of the other, and a text without a slash is one
/// component, or none where it is empty.
pub proof fn law_a_path_comes_apart_at_its_slashes(p: Seq<char>, q: Seq<char>)
    ensures
        parts(p.push('/') + q) == parts(p) + parts(q),
        !p.contains('/') && p.len() > 0 ==> parts(p) == seq![p],
        p.len() == 0 ==> parts(p).len() == 0,
{
    let none = Seq::<Seq<char>>::empty();
    lemma_split(p, q, 0, Seq::empty(), none);
    lemma_shifted(p.push('/'), q, 0, Seq::empty(), parts(p));
    lemma_collected(q, 0, Seq::empty(), parts(p), none);
    assert(parts(p) + none =~= parts(p));
    if !p.contains('/') {
        lemma_run(p, 0);
        assert(p.subrange(0, 0) =~= Seq::empty());
        assert(flushed(none, p) =~= if p.len() > 0 {
            seq![p]
        } else {
            none
        });
    }
}

/// To walk along two lists of components is to walk along the one and then along the other.
pub proof fn law_walking_goes_step_by_step(
    at: Seq<Seq<char>>,
    a: Seq<Seq<char>>,
    b: Seq<Seq<char>>,
)
    ensures
        walked(at, a + b) == walked(walked(at, a), b),
    decreases b.len(),
{
    if b.len() == 0 {
        assert(a + b =~= a);
    } else {
        law_walking_goes_step_by_step(at, a, b.drop_last());
        assert((a + b).drop_last() =~= a + b.drop_last());
        assert((a + b).last() == b.last());
    }
}

/// A name leads down, one dot nowhere, two dots back up, and from the top not past it: a name
/// and then two dots might as well not be there, wherever they stand in a path.
pub proof fn law_dots_lead_where_they_should(
    at: Seq<Seq<char>>,
    a: Seq<Seq<char>>,
    name: Seq<char>,
    b: Seq<Seq<char>>,
)
    requires
        is_name(name),
    ensures
        walked(at, a.push(name)) == walked(at, a).push(name),
        walked(at, a.push(name).push(".."@) + b) == walked(at, a + b),
        walked(at, a.push("."@) + b) == walked(at, a + b),
        walked(Seq::empty(), seq![".."@] + b) == walked(Seq::empty(), b),
{
    let none = Seq::<Seq<char>>::empty();
    reveal_strlit(".");
    reveal_strlit("..");
    assert("."@.len() != ".."@.len());
    assert(a.push(name).drop_last() =~= a);
    assert(a.push(name).push(".."@).drop_last() =~= a.push(name));
    assert(walked(at, a).push(name).drop_last() =~= walked(at, a));
    assert(a.push("."@).drop_last() =~= a);
    law_walking_goes_step_by_step(at, a.push(name).push(".."@), b);
    law_walking_goes_step_by_step(at, a.push("."@), b);
    law_walking_goes_step_by_step(at, a, b);
    law_walking_goes_step_by_step(none, seq![".."@], b);
    assert("."@ != ".."@);
    let down = a.push(name);
    assert(walked(at, down) == walked(at, a).push(name));
    assert(down.push(".."@).last() == ".."@);
    assert(walked(at, down.push(".."@)) == step(walked(at, down), ".."@));
    assert(walked(at, down.push(".."@)) == walked(at, a));
    let up = seq![".."@];
    assert(up.drop_last() =~= none);
    assert(up.last() == ".."@);
    assert(walked(none, none) == none);
    assert(walked(none, up) == step(walked(none, up.drop_last()), up.last()));
    assert(walked(none, up) == none);
}

/// An absolute path means the same from everywhere; a relative one means what it means with
/// its base, and a slash, in front.
pub proof fn law_a_relative_path_starts_at_its_base(base: Seq<char>, path: Seq<char>)
    requires
        is_absolute(base),
    ensures
        is_absolute(path) ==> normal(base, path) == normal("/"@, path),
        !is_absolute(path) ==> normal(base, path) == normal("/"@, base.push('/') + path),
{
    let both = base.push('/') + path;
    assert(both[0] == base[0]);
    law_a_path_comes_apart_at_its_slashes(base, path);
    law_walking_goes_step_by_step(Seq::empty(), parts(base), parts(path));
}

/// A relative path is looked up from the working directory, just as if that stood in front of
/// it; an absolute one is looked up from the top, whatever directory it is said to be in.
pub proof fn law_relative_paths_start_at_the_working_directory<V: Vfs>(
    sh: SharedView<<V as VfsFile>::Handle>,
    ctx: CtxView,
    fs: Seq<MountView<<V as VfsFile>::State>>,
    dirfd: i32,
    path: Seq<char>,
    follow: bool,
)
    requires
        is_absolute(ctx.task.cwd),
    ensures
        !is_absolute(path) ==> looked_up::<V>(sh, ctx, fs, (-100int) as i32, path, follow) == looked_up::<V>(
            sh,
            ctx,
            fs,
            (-100int) as i32,
            ctx.task.cwd.push('/') + path,
            follow,
        ),
        is_absolute(path) ==> looked_up::<V>(sh, ctx, fs, dirfd, path, follow) == looked_up::<V>(
            sh,
            ctx,
            fs,
            (-100int) as i32,
            path,
            follow,
        ),
{
    law_a_relative_path_starts_at_its_base(ctx.task.cwd, path);
    let both = ctx.task.cwd.push('/') + path;
    assert(both[0] == ctx.task.cwd[0]);
}

/// What a link on the way stands for: an absolute target is taken from the top, a relative one
/// from the directory that the link is in, and what followed the link follows the target.
pub proof fn law_a_link_leads_to_its_target(comps: Seq<Seq<char>>, k: int, target: Seq<char>)
    requires
        clean(comps),
        1 <= k <= comps.len(),
    ensures
        redirected(comps, k, target) == walked(
            normal(path_of(comps.subrange(0, k - 1)), target),
            comps.subrange(k, comps.len() as int),
        ),
{
    let dir = comps.subrange(0, k - 1);
    assert forall|i: int| 0 <= i < dir.len() implies is_name(#[trigger] dir[i]) by {
        assert(is_name(comps[i]));
    }
    law_path_round_trip(dir, "/"@);
    let none = Seq::<Seq<char>>::empty();
    crate::kernel::path::lemma_walking_names(none, dir);
    assert(none + dir =~= dir);
}

// ---------------------------------------------------------------------------------------------
// the working directory

/// `getcwd` stores the working directory with a NUL behind it and returns how many bytes that
/// is; it fails exactly where the buffer is too small for them.
pub proof fn law_getcwd_tells_the_working_directory(
    ctx: CtxView,
    mem: Seq<u8>,
    at: u32,
    size: u32,
)
    requires
        at + size <= mem.len(),
        at + size <= u32::MAX,
        size <= i32::MAX,
        forall|i: int|
            0 <= i < encode_utf8(ctx.task.cwd).len() ==> #[trigger] encode_utf8(ctx.task.cwd)[i]
                != 0,
    ensures
        ({
            let (m, r) = getcwd_spec(ctx, mem, at, size);
            let bytes = encode_utf8(ctx.task.cwd);
            &&& size <= bytes.len() ==> r == errno::<i32>(Errno::RANGE) && m == mem
            &&& size > bytes.len() ==> {
                &&& r == Sys::Ok((bytes.len() + 1) as i32)
                &&& ends_in_nul(m, at as int, bytes)
                &&& same_but(mem, m, at as int, bytes.len() as int + 1)
            }
        }),
{
    let bytes = encode_utf8(ctx.task.cwd);
    if size > bytes.len() {
        let n = bytes.len() as int;
        let list = seq![(at as int, bytes), (at + n, seq![0u8])];
        let l1 = list.drop_first();
        let l2 = l1.drop_first();
        let m1 = patched(mem, at as int, bytes);
        let m2 = patched(m1, at + n, seq![0u8]);
        assert(stores(m2, l2) == (m2, Ok::<(), Errno>(())));
        assert(stores(m1, l1) == (m2, Ok::<(), Errno>(())));
        assert(stores(mem, list) == (m2, Ok::<(), Errno>(())));
        assert(m2.subrange(at as int, at + n) =~= bytes);
    }
}

/// `fchdir` goes where an open directory is, and nowhere else.
pub proof fn law_fchdir_goes_to_an_open_directory<F>(sh: SharedView<F>, ctx: CtxView, fd: i32)
    ensures
        ({
            let (c, r) = fchdir_spec(sh, ctx, fd);
            let d = super::readiness::behind(sh, ctx, fd);
            &&& d is None ==> r == errno::<i32>(Errno::BADF)
            &&& (d matches Some(x) && !(x.kind is Dir)) ==> r == errno::<i32>(Errno::NOTDIR)
            &&& (d matches Some(x) && x.kind is Dir) ==> r == Sys::Ok(0) && c.task.cwd == d->0.path
            &&& r is Err ==> c == ctx
        }),
{
}

// ---------------------------------------------------------------------------------------------
// opening

/// What the flags of `open` ask for: the low two bits are 0 to read, 1 to write and 2 for
/// both; 0x40 creates, with 0x80 only what is not there, 0x200 empties what may be written,
/// and 0x400 writes at the end. A new file gets the permissions that are asked for and not
/// masked.
pub proof fn law_the_flags_say_how_to_open(flags: u32, mode: u32, umask: u32, bit: u32)
    requires
        bit < 12,
    ensures
        ({
            let o = options_of(flags, mode, umask);
            &&& o.read == (flags & 3 == 0 || flags & 3 == 2)
            &&& o.write == (flags & 3 == 1 || flags & 3 == 2)
            &&& o.append == (flags & 0x400 != 0)
            &&& o.create == (flags & 0x40 != 0)
            &&& o.create_new == (flags & 0x40 != 0 && flags & 0x80 != 0)
            &&& o.truncate == (flags & 0x200 != 0 && flags & 3 != 0)
            &&& o.mode < 4096
            &&& (o.mode >> bit) & 1 == 1 <==> (mode >> bit) & 1 == 1 && (umask >> bit) & 1 == 0
        }),
{
    assert((mode & !umask & 0xfff) < 4096 && (((mode & !umask & 0xfff) >> bit) & 1 == 1) == ((mode
        >> bit) & 1 == 1 && (umask >> bit) & 1 == 0)) by (bit_vector)
        requires
            bit < 12,
    ;
}

/// Opening a path on a filesystem in memory. A file that is there is opened, at its beginning
/// or, to append, at its end, with what it holds unless it is to be emptied; it is refused
/// where it is only to be created. One that is not there is made, empty, where that is asked
/// for, and else is missing. A directory is never opened to be written.
pub proof fn law_opening_does_what_the_flags_say(
    sh: SharedView<MemFile>,
    fs: Seq<MountView<MemModel>>,
    umask: u32,
    mount: usize,
    rel: Seq<char>,
    guest: Seq<char>,
    flags: u32,
    mode: u32,
)
    requires
        mount < fs.len(),
        !refuses_writes(fs, mount as int),
        fs[mount as int].state.wf(),
        has_name(rel),
        flags & 0x10000 == 0,
    ensures
        ({
            let (s, f, opening) = mounted_opening::<MemVfs>(
                sh,
                fs,
                umask,
                mount,
                rel,
                guest,
                flags,
                mode,
            );
            let before = fs[mount as int].state;
            let after = f[mount as int].state;
            let writes = flags & 3 == 1 || flags & 3 == 2;
            match node_at(before.nodes, key_of(rel)) {
                Some(NodeModel::File(ino)) => {
                    let data = before.files[ino as int];
                    let empties = flags & 0x200 != 0 && writes;
                    if flags & 0x40 != 0 && flags & 0x80 != 0 {
                        opening == Opening::<MemFile>::Fail(Fault::Errno(Errno::EXIST))
                    } else {
                        &&& opening matches Opening::Fresh(kind, name)
                        &&& name == guest
                        &&& kind matches crate::kernel::fd::KindView::File { file, mount: n, closed }
                        &&& n == mount && !closed && file.ino == ino
                        &&& file.writable == (writes || flags & 0x400 != 0)
                        &&& file.append == (flags & 0x400 != 0)
                        &&& flags & 0x400 == 0 ==> file.pos == 0
                        &&& flags & 0x400 != 0 && data.len() <= u64::MAX ==> file.pos == if empties {
                            0
                        } else {
                            data.len() as int
                        }
                        &&& after.contents(rel) == Ok::<Seq<u8>, Errno>(
                            if empties {
                                Seq::empty()
                            } else {
                                data
                            },
                        )
                    }
                },
                Some(NodeModel::Dir) => writes || flags & 0x240 != 0 ==> opening == Opening::<
                    MemFile,
                >::Fail(Fault::Errno(Errno::ISDIR)),
                Some(NodeModel::Link(_)) => true,
                None => {
                    &&& flags & 0x40 == 0 ==> opening == Opening::<MemFile>::Fail(
                        Fault::Errno(Errno::NOENT),
                    )
                    &&& opening is Fresh ==> after.contents(rel) == Ok::<Seq<u8>, Errno>(Seq::empty())
                },
            }
        }),
{
    let before = fs[mount as int].state;
    crate::vfs::memory::lemma_named(rel);
    assert((flags & (0x40u32 | 0x200u32) != 0) == (flags & 0x240 != 0) && flags & 3 <= 3 && (flags
        & 0x200 != 0 ==> flags & 0x240 != 0)) by (bit_vector);
    match node_at(before.nodes, key_of(rel)) {
        Some(NodeModel::File(ino)) => {
            super::files::lemma_file_has_bytes(before, key_of(rel), ino);
        },
        Some(_) => {},
        None => {
            let made = before.new_file(key_of(rel), Seq::empty());
            assert(made.nodes.drop_last() =~= before.nodes);
        },
    }
}

// ---------------------------------------------------------------------------------------------
// changing

/// Where a path leads on a filesystem in memory.
pub open spec fn leads_to(
    sh: SharedView<MemFile>,
    ctx: CtxView,
    fs: Seq<MountView<MemModel>>,
    mem: Seq<u8>,
    dirfd: i32,
    path_at: u32,
    follow: bool,
    mount: usize,
    rel: Seq<char>,
) -> bool {
    &&& text_at(mem, path_at as int) matches Ok(path)
    &&& looked_up::<MemVfs>(sh, ctx, fs, dirfd, path, follow).2 matches Ok(
        NodeView::Mounted { mount: n, rel: x, .. },
    ) && n == mount && x == rel
    &&& looked_up::<MemVfs>(sh, ctx, fs, dirfd, path, follow).1 == fs
    &&& mount < fs.len()
    &&& fs[mount as int].state.wf()
}

/// Removing takes a file away, or with 0x200 a directory that holds nothing, and what was
/// removed is gone.
pub proof fn law_what_was_removed_is_gone(
    sh: SharedView<MemFile>,
    ctx: CtxView,
    fs: Seq<MountView<MemModel>>,
    mem: Seq<u8>,
    dirfd: i32,
    path_at: u32,
    flags: i32,
    mount: usize,
    rel: Seq<char>,
)
    requires
        leads_to(sh, ctx, fs, mem, dirfd, path_at, false, mount, rel),
        unlinkat_spec::<MemVfs>(sh, ctx, fs, mem, dirfd, path_at, flags).2 is Ok,
    ensures
        ({
            let f = unlinkat_spec::<MemVfs>(sh, ctx, fs, mem, dirfd, path_at, flags).1;
            let before = fs[mount as int].state;
            let after = f[mount as int].state;
            &&& before.stat(rel, false) matches Ok(st)
            &&& st.file_type is Dir <==> flags & 0x200 != 0
            &&& after.stat(rel, false) == Err::<crate::vfs::Stat, Errno>(Errno::NOENT)
        }),
{
    let before = fs[mount as int].state;
    if flags & 0x200 == 0 {
        law_what_was_unlinked_is_gone(before, rel);
    }
    crate::vfs::memory::lemma_named(rel);
    crate::vfs::memory::lemma_listed_pruned(before.nodes, key_of(rel), key_of(rel));
}

/// What was made is there: a directory after `mkdir`, and after `symlink` a link that says
/// what it was made to say. Neither replaces anything.
pub proof fn law_what_was_made_is_there(
    sh: SharedView<MemFile>,
    ctx: CtxView,
    fs: Seq<MountView<MemModel>>,
    mem: Seq<u8>,
    dirfd: i32,
    path_at: u32,
    target_at: u32,
    mode: u32,
    mount: usize,
    rel: Seq<char>,
    target: Seq<char>,
)
    ensures
        leads_to(sh, ctx, fs, mem, dirfd, path_at, true, mount, rel) && mkdirat_spec::<MemVfs>(
            sh,
            ctx,
            fs,
            mem,
            dirfd,
            path_at,
            mode,
        ).2 is Ok ==> {
            let f = mkdirat_spec::<MemVfs>(sh, ctx, fs, mem, dirfd, path_at, mode).1;
            &&& fs[mount as int].state.stat(rel, false) is Err
            &&& f[mount as int].state.stat(rel, false) matches Ok(st) && st.file_type is Dir
        },
        leads_to(sh, ctx, fs, mem, dirfd, path_at, false, mount, rel) && text_at(
            mem,
            target_at as int,
        ) == Ok::<Seq<char>, Errno>(target) && symlinkat_spec::<MemVfs>(
            sh,
            ctx,
            fs,
            mem,
            target_at,
            dirfd,
            path_at,
        ).2 is Ok ==> {
            let f = symlinkat_spec::<MemVfs>(sh, ctx, fs, mem, target_at, dirfd, path_at).1;
            &&& fs[mount as int].state.stat(rel, false) is Err
            &&& f[mount as int].state.link_target(rel) == Ok::<Seq<char>, Errno>(target)
        },
{
    let before = fs[mount as int].state;
    if leads_to(sh, ctx, fs, mem, dirfd, path_at, true, mount, rel) && mkdirat_spec::<MemVfs>(
        sh,
        ctx,
        fs,
        mem,
        dirfd,
        path_at,
        mode,
    ).2 is Ok {
        crate::vfs::memory::lemma_named(rel);
        assert(before.nodes.push((key_of(rel), NodeModel::Dir)).drop_last() =~= before.nodes);
    }
    if leads_to(sh, ctx, fs, mem, dirfd, path_at, false, mount, rel) && text_at(
        mem,
        target_at as int,
    ) == Ok::<Seq<char>, Errno>(target) && symlinkat_spec::<MemVfs>(
        sh,
        ctx,
        fs,
        mem,
        target_at,
        dirfd,
        path_at,
    ).2 is Ok {
        law_a_link_reads_back(before, rel, target);
    }
}

/// What was renamed is under its new name with what it held, and no longer under the old.
pub proof fn law_what_was_renamed_has_moved(
    sh: SharedView<MemFile>,
    ctx: CtxView,
    fs: Seq<MountView<MemModel>>,
    mem: Seq<u8>,
    from_dir: i32,
    from_at: u32,
    to_dir: i32,
    to_at: u32,
    mount: usize,
    from: Seq<char>,
    to: Seq<char>,
)
    requires
        leads_to(sh, ctx, fs, mem, from_dir, from_at, false, mount, from),
        leads_to(sh, ctx, fs, mem, to_dir, to_at, false, mount, to),
        fs[mount as int].state.contents(from) is Ok,
        key_of(from) != key_of(to),
        renameat_spec::<MemVfs>(sh, ctx, fs, mem, from_dir, from_at, to_dir, to_at).2 is Ok,
    ensures
        ({
            let f = renameat_spec::<MemVfs>(sh, ctx, fs, mem, from_dir, from_at, to_dir, to_at).1;
            let before = fs[mount as int].state;
            let after = f[mount as int].state;
            &&& after.contents(to) == before.contents(from)
            &&& after.contents(from) == Err::<Seq<u8>, Errno>(Errno::NOENT)
        }),
{
    law_renaming_moves_the_contents(fs[mount as int].state, from, to);
}

/// A file that was cut to a length has that length: what it held up to there, then zeros.
pub proof fn law_truncate_sets_the_length(
    sh: SharedView<MemFile>,
    ctx: CtxView,
    fs: Seq<MountView<MemModel>>,
    mem: Seq<u8>,
    path_at: u32,
    len: u64,
    mount: usize,
    rel: Seq<char>,
)
    requires
        leads_to(sh, ctx, fs, mem, (-100int) as i32, path_at, true, mount, rel),
        truncate_spec::<MemVfs>(sh, ctx, fs, mem, path_at, len).2 is Ok,
    ensures
        ({
            let f = truncate_spec::<MemVfs>(sh, ctx, fs, mem, path_at, len).1;
            &&& fs[mount as int].state.contents(rel) matches Ok(before)
            &&& f[mount as int].state.contents(rel) matches Ok(after)
            &&& after.len() == len
            &&& forall|i: int|
                0 <= i < len ==> #[trigger] after[i] == if i < before.len() {
                    before[i]
                } else {
                    0
                }
        }),
{
    let before = fs[mount as int].state;
    match node_at(before.nodes, key_of(rel)) {
        Some(NodeModel::File(ino)) => {
            super::files::lemma_file_has_bytes(before, key_of(rel), ino);
        },
        _ => {},
    }
}

/// `readlink` stores as much of a link's target as fits, with nothing behind it, and returns
/// how much that is.
pub proof fn law_readlink_stores_the_target<V: Vfs>(
    sh: SharedView<<V as VfsFile>::Handle>,
    ctx: CtxView,
    fs: Seq<MountView<<V as VfsFile>::State>>,
    mem: Seq<u8>,
    dirfd: i32,
    path_at: u32,
    buffer: u32,
    size: u32,
    path: Seq<char>,
    node: NodeView,
    target: Seq<char>,
)
    requires
        text_at(mem, path_at as int) == Ok::<Seq<char>, Errno>(path),
        looked_up::<V>(sh, ctx, fs, dirfd, path, false).2 == Ok::<NodeView, Fault>(node),
        link_text::<V>(
            looked_up::<V>(sh, ctx, fs, dirfd, path, false).0,
            ctx,
            looked_up::<V>(sh, ctx, fs, dirfd, path, false).1,
            node,
        ).2 == Ok::<Seq<char>, Fault>(target),
        buffer + size <= mem.len(),
        size <= i32::MAX,
    ensures
        ({
            let (s, f, m, r) = readlinkat_spec::<V>(
                sh,
                ctx,
                fs,
                mem,
                dirfd,
                path_at,
                buffer,
                size,
            );
            let bytes = encode_utf8(target);
            let n = if size < bytes.len() {
                size as int
            } else {
                bytes.len() as int
            };
            &&& r == Sys::Ok(n as i32)
            &&& m.subrange(buffer as int, buffer + n) == bytes.subrange(0, n)
            &&& same_but(mem, m, buffer as int, n)
        }),
{
    let bytes = encode_utf8(target);
    let n = if size < bytes.len() {
        size as int
    } else {
        bytes.len() as int
    };
    let part = bytes.subrange(0, n);
    if n == bytes.len() {
        assert(part =~= bytes);
    }
    assert(patched(mem, buffer as int, part).subrange(buffer as int, buffer + n) =~= part);
}

// ---------------------------------------------------------------------------------------------
// links on the way

/// Links are followed one after the other, forty times and no more: a path that leads on after
/// that is refused.
pub proof fn law_links_are_followed_so_many_times<V: Vfs>(
    programs: Seq<(Seq<char>, usize)>,
    ms: Seq<MountView<<V as VfsFile>::State>>,
    who: WhoView,
    comps: Seq<Seq<char>>,
    follow: bool,
    depth: int,
    there: Seq<Seq<char>>,
)
    requires
        0 <= depth <= 40,
        probed::<V>(programs, ms, who, comps, 1, follow).1 == Probed::Elsewhere(there),
    ensures
        ({
            let next = probed::<V>(programs, ms, who, comps, 1, follow).0;
            let found = resolved_from::<V>(programs, ms, who, comps, follow, depth);
            &&& depth == 40 ==> found.1 == Err::<NodeView, Errno>(Errno::LOOP)
            &&& depth < 40 ==> found == resolved_from::<V>(
                programs,
                next,
                who,
                there,
                follow,
                depth + 1,
            )
        }),
{
}

/// A relative path with an open directory is looked up from there; with a descriptor that is not
/// open or no directory it is refused.
pub proof fn law_relative_paths_start_at_an_open_directory<V: Vfs>(
    sh: SharedView<<V as VfsFile>::Handle>,
    ctx: CtxView,
    fs: Seq<MountView<<V as VfsFile>::State>>,
    dirfd: i32,
    path: Seq<char>,
    follow: bool,
)
    requires
        dirfd >= 0,
        !is_absolute(path),
    ensures
        match super::readiness::behind(sh, ctx, dirfd) {
            None => looked_up::<V>(sh, ctx, fs, dirfd, path, follow).2 == errno::<NodeView>(
                Errno::BADF,
            ),
            Some(d) => if !(d.kind is Dir) {
                looked_up::<V>(sh, ctx, fs, dirfd, path, follow).2 == errno::<NodeView>(Errno::NOTDIR)
            } else {
                is_absolute(d.path) ==> looked_up::<V>(sh, ctx, fs, dirfd, path, follow)
                    == looked_up::<V>(sh, ctx, fs, dirfd, d.path.push('/') + path, follow)
            },
        },
{
    if let Some(d) = super::readiness::behind(sh, ctx, dirfd) {
        if is_absolute(d.path) {
            law_a_relative_path_starts_at_its_base(d.path, path);
            let both = d.path.push('/') + path;
            assert(both[0] == d.path[0]);
        }
    }
}

/// A link on a mount leads elsewhere, wherever on the way it stands; but at the end of a path it
/// is itself where it is not to be followed.
pub proof fn law_links_on_the_way_are_followed<V: Vfs>(
    programs: Seq<(Seq<char>, usize)>,
    ms: Seq<MountView<<V as VfsFile>::State>>,
    who: WhoView,
    comps: Seq<Seq<char>>,
    k: int,
    follow: bool,
    i: int,
    target: Seq<char>,
)
    requires
        1 <= k <= comps.len(),
        special(comps.subrange(0, k), who.pid) is Nothing,
        link_owner::<V>(programs, ms, comps.subrange(0, k), who.pid) == Some(i),
        ({
            let rel = ms[i].rel(comps.subrange(0, k));
            let (next, said) = called::<V>(ms, i, VfsCall::Stat { path: rel, follow: false });
            &&& said matches VfsAnswer::Stat(st) && st.file_type is Symlink
            &&& called::<V>(next, i, VfsCall::Readlink { path: rel }).1 == VfsAnswer::<
                <V as VfsFile>::Handle,
            >::Target(target)
        }),
    ensures
        k < comps.len() || follow ==> probed::<V>(programs, ms, who, comps, k, follow).1
            == Probed::Elsewhere(redirected(comps, k, target)),
        k == comps.len() && !follow ==> probed::<V>(programs, ms, who, comps, k, follow).1
            == Probed::Clear,
{
}

} // verus!
