//! What a program is given when `execve` starts it.
use crate::abi::AT_FDCWD;
use crate::errno::Errno;
use crate::kernel::fd::fd_at;
use crate::kernel::mem::{strings_at, text_at};
use crate::kernel::mounts::MountView;
use crate::kernel::namespace::NodeView;
use crate::kernel::state::{CtxView, SharedView, SpawnView};
use crate::kernel::task::TaskView;
use crate::syscall::base::{looked_up, Sys};
use crate::syscall::exec::{
    execve_spec, extra_of, head_of, interpreter_of, line_end, script_exec, shebang_text, word_end,
};
use crate::text::{after_spaces, before_spaces, is_space, lossy_text, trimmed};
use crate::vfs::{Vfs, VfsFile};
use vstd::prelude::*;
use vstd::utf8::encode_utf8;

verus! {

/// Whether an `execve` made in `before` and left in `sh` and `after` with `r` starts a program.
pub open spec fn starts(before: CtxView, after: CtxView, r: Sys) -> bool {
    if before.vfork_stack.len() > 0 {
        r is Ok
    } else {
        after.exec_request is Some
    }
}

/// The program it starts: as a process of its own where a vfork child asked for it, and in
/// place of the caller where it did not.
pub open spec fn start_of<F>(before: CtxView, sh: SharedView<F>, after: CtxView) -> SpawnView {
    if before.vfork_stack.len() > 0 {
        sh.spawn.last()
    } else {
        after.exec_request->0
    }
}

/// Whether every character is a space.
pub open spec fn blank(t: Seq<char>) -> bool {
    forall|i: int| 0 <= i < t.len() ==> is_space(#[trigger] t[i])
}

/// Whether no character is a space.
pub open spec fn solid(t: Seq<char>) -> bool {
    forall|i: int| 0 <= i < t.len() ==> !is_space(#[trigger] t[i])
}

/// Whether a text neither starts nor ends with a space.
pub open spec fn tight(t: Seq<char>) -> bool {
    t.len() > 0 ==> !is_space(t[0]) && !is_space(t.last())
}

proof fn lemma_after_spaces(t: Seq<char>, i: int, n: int)
    requires
        0 <= i <= n <= t.len(),
        forall|k: int| i <= k < n ==> is_space(#[trigger] t[k]),
        n < t.len() ==> !is_space(t[n]),
    ensures
        after_spaces(t, i) == n,
    decreases n - i,
{
    if i < n {
        assert(is_space(t[i]));
        lemma_after_spaces(t, i + 1, n);
    }
}

proof fn lemma_before_spaces(t: Seq<char>, i: int, n: int)
    requires
        0 <= n <= i <= t.len(),
        forall|k: int| n <= k < i ==> is_space(#[trigger] t[k]),
        n > 0 ==> !is_space(t[n - 1]),
    ensures
        before_spaces(t, i) == n,
    decreases i - n,
{
    if n < i {
        assert(is_space(t[i - 1]));
        lemma_before_spaces(t, i - 1, n);
    }
}

proof fn lemma_word_end(t: Seq<char>, i: int, n: int)
    requires
        0 <= i <= n <= t.len(),
        forall|k: int| i <= k < n ==> !is_space(#[trigger] t[k]),
        n < t.len() ==> is_space(t[n]),
    ensures
        word_end(t, i) == n,
    decreases n - i,
{
    if i < n {
        lemma_word_end(t, i + 1, n);
    }
}

proof fn lemma_line_end(b: Seq<u8>, i: int, n: int)
    requires
        0 <= i <= n <= b.len(),
        forall|k: int| i <= k < n ==> #[trigger] b[k] != 10,
        n < b.len() ==> b[n] == 10,
    ensures
        line_end(b, i) == n,
    decreases n - i,
{
    if i < n {
        lemma_line_end(b, i + 1, n);
    }
}

/// Spaces around a text are what trimming takes away, and all that it takes away.
pub proof fn law_trimming_takes_the_outer_spaces(front: Seq<char>, inner: Seq<char>, back: Seq<char>)
    requires
        blank(front),
        tight(inner),
        blank(back),
    ensures
        trimmed(front + inner + back) == inner,
{
    let t = front + inner + back;
    let a = front.len() as int;
    let b = a + inner.len();
    assert forall|k: int| 0 <= k < a implies is_space(#[trigger] t[k]) by {
        assert(t[k] == front[k]);
    }
    assert forall|k: int| b <= k < t.len() implies is_space(#[trigger] t[k]) by {
        assert(t[k] == back[k - b]);
    }
    if inner.len() == 0 {
        lemma_after_spaces(t, 0, t.len() as int);
        lemma_before_spaces(t, t.len() as int, 0);
    } else {
        assert(t[a] == inner[0]);
        assert(t[b - 1] == inner.last());
        lemma_after_spaces(t, 0, a);
        lemma_before_spaces(t, t.len() as int, b);
    }
    assert(trimmed(t) =~= inner);
}

/// The first line of a script: `#!`, the interpreter's name, and perhaps one argument, which
/// may hold spaces inside, with spaces round either.
pub open spec fn names(
    head: Seq<u8>,
    end: int,
    front: Seq<char>,
    name: Seq<char>,
    gap: Seq<char>,
    extra: Seq<char>,
    back: Seq<char>,
) -> bool {
    &&& 2 <= end <= head.len()
    &&& head[0] == 35
    &&& head[1] == 33
    &&& forall|i: int| 2 <= i < end ==> #[trigger] head[i] != 10
    &&& end < head.len() ==> head[end] == 10
    &&& lossy_text(head.subrange(2, end)) == front + name + gap + extra + back
    &&& blank(front)
    &&& name.len() > 0
    &&& solid(name)
    &&& blank(gap)
    &&& tight(extra)
    &&& blank(back)
    &&& extra.len() > 0 ==> gap.len() > 0
}

/// The first line of a script names its interpreter and the one argument it is to get.
pub proof fn law_the_first_line_names_the_interpreter(
    head: Seq<u8>,
    end: int,
    front: Seq<char>,
    name: Seq<char>,
    gap: Seq<char>,
    extra: Seq<char>,
    back: Seq<char>,
)
    requires
        names(head, end, front, name, gap, extra, back),
    ensures
        shebang_text(head) is Some,
        interpreter_of(shebang_text(head)->0) == name,
        extra_of(shebang_text(head)->0) == extra,
{
    lemma_line_end(head, 2, end);
    let (inner, rest) = if extra.len() > 0 {
        (name + gap + extra, back)
    } else {
        (name, gap + back)
    };
    assert(!is_space(name[0]) && !is_space(name.last()));
    if extra.len() > 0 {
        assert(inner.last() == extra.last());
    }
    assert(inner[0] == name[0]);
    assert forall|i: int| 0 <= i < rest.len() implies is_space(#[trigger] rest[i]) by {
        if extra.len() == 0 {
            if i < gap.len() {
                assert(rest[i] == gap[i]);
            } else {
                assert(rest[i] == back[i - gap.len()]);
            }
        }
    }
    law_trimming_takes_the_outer_spaces(front, inner, rest);
    assert(front + name + gap + extra + back =~= front + inner + rest);
    let n = name.len() as int;
    assert forall|k: int| 0 <= k < n implies !is_space(#[trigger] inner[k]) by {
        assert(inner[k] == name[k]);
    }
    if extra.len() > 0 {
        assert(inner[n] == gap[0]);
    }
    lemma_word_end(inner, 0, n);
    assert(inner.subrange(0, n) =~= name);
    if extra.len() > 0 {
        let between = gap.subrange(1, gap.len() as int);
        assert forall|i: int| 0 <= i < between.len() implies is_space(#[trigger] between[i]) by {
            assert(between[i] == gap[i + 1]);
        }
        law_trimming_takes_the_outer_spaces(between, extra, Seq::empty());
        assert(inner.subrange(n + 1, inner.len() as int) =~= between + extra + Seq::<char>::empty());
    } else {
        assert(extra =~= Seq::empty());
    }
}

/// A script whose interpreter is a program is run by that program, which gets its own name as
/// the script gives it, then the script's one argument where there is one, then the script's
/// path, then the caller's arguments.
pub proof fn law_a_script_runs_under_its_interpreter<V: Vfs>(
    sh: SharedView<<V as VfsFile>::Handle>,
    ctx: CtxView,
    fs: Seq<MountView<<V as VfsFile>::State>>,
    mount: usize,
    rel: Seq<char>,
    path: Seq<char>,
    argv: Seq<Seq<u8>>,
    envp: Seq<Seq<u8>>,
    end: int,
    front: Seq<char>,
    name: Seq<char>,
    gap: Seq<char>,
    extra: Seq<char>,
    back: Seq<char>,
)
    requires
        head_of::<V>(sh, fs, mount, rel).2 matches Ok(head) && names(
            head,
            end,
            front,
            name,
            gap,
            extra,
            back,
        ),
        ({
            let (s, f, _) = head_of::<V>(sh, fs, mount, rel);
            looked_up::<V>(s, ctx, f, AT_FDCWD, name, true).2 matches Ok(NodeView::Program { .. })
        }),
    ensures
        ({
            let (s1, f1, _) = head_of::<V>(sh, fs, mount, rel);
            let node = looked_up::<V>(s1, ctx, f1, AT_FDCWD, name, true).2->Ok_0;
            let (s, c, f, r) = script_exec::<V>(sh, ctx, fs, mount, rel, path, argv, envp);
            let start = start_of(ctx, s, c);
            let k = if extra.len() > 0 {
                2int
            } else {
                1int
            };
            &&& starts(ctx, c, r)
            &&& start.program == node->Program_id
            &&& start.exe == node->Program_guest
            &&& start.envp == envp
            &&& start.argv[0] == encode_utf8(name)
            &&& extra.len() > 0 ==> start.argv[1] == encode_utf8(extra)
            &&& start.argv[k] == encode_utf8(path)
            &&& start.argv.len() == k + (if argv.len() > 0 {
                argv.len() as int
            } else {
                1
            })
            &&& forall|j: int| 1 <= j < argv.len() ==> start.argv[k + j] == #[trigger] argv[j]
        }),
{
    let head = head_of::<V>(sh, fs, mount, rel).2->Ok_0;
    law_the_first_line_names_the_interpreter(head, end, front, name, gap, extra, back);
}

/// Whatever file `execve` starts, the program gets the caller's environment, and the caller's
/// arguments behind the first one end its own. The program of a script finds the script's path
/// just before them and the interpreter's name in front; any other gets exactly what was
/// passed.
pub proof fn law_execve_hands_on_the_arguments<V: Vfs>(
    sh: SharedView<<V as VfsFile>::Handle>,
    ctx: CtxView,
    fs: Seq<MountView<<V as VfsFile>::State>>,
    mem: Seq<u8>,
    path_at: u32,
    argv_at: u32,
    envp_at: u32,
    path: Seq<char>,
    argv: Seq<Seq<u8>>,
    envp: Seq<Seq<u8>>,
)
    requires
        text_at(mem, path_at as int) == Ok::<Seq<char>, Errno>(path),
        strings_at(mem, argv_at as int) == Ok::<Seq<Seq<u8>>, Errno>(argv),
        strings_at(mem, envp_at as int) == Ok::<Seq<Seq<u8>>, Errno>(envp),
        ctx.exec_request is None,
    ensures
        ({
            let (s, c, f, r) = execve_spec::<V>(sh, ctx, fs, mem, path_at, argv_at, envp_at);
            let node = looked_up::<V>(sh, ctx, fs, AT_FDCWD, path, true).2;
            let start = start_of(ctx, s, c);
            let n = argv.len() as int;
            let m = start.argv.len() as int;
            starts(ctx, c, r) ==> {
                &&& start.envp == envp
                &&& match node {
                    Ok(NodeView::Program { id, guest }) => start.argv == argv && start.program == id
                        && start.exe == guest,
                    _ => {
                        &&& forall|j: int|
                            1 <= j < n ==> start.argv[m - n + j] == #[trigger] argv[j]
                        &&& n >= 1 ==> m >= n + 1 && start.argv[m - n] == encode_utf8(path)
                        &&& n == 0 ==> m >= 2 && start.argv[m - 1] == encode_utf8(path)
                    },
                }
            }
        }),
{
}

/// `execve` changes the program and not the process: its number, working directory, masks and
/// every descriptor stay, but for those descriptors that are marked to be closed.
pub proof fn law_execve_keeps_the_process<V: Vfs>(
    sh: SharedView<<V as VfsFile>::Handle>,
    ctx: CtxView,
    fs: Seq<MountView<<V as VfsFile>::State>>,
    mem: Seq<u8>,
    path_at: u32,
    argv_at: u32,
    envp_at: u32,
    fd: int,
)
    requires
        ctx.exec_request is None,
    ensures
        ({
            let (s, c, f, r) = execve_spec::<V>(sh, ctx, fs, mem, path_at, argv_at, envp_at);
            let start = start_of(ctx, s, c);
            starts(ctx, c, r) ==> {
                &&& start.task == (TaskView { fds: start.task.fds, ..ctx.task })
                &&& fd_at(start.task.fds, fd) == match fd_at(ctx.task.fds, fd) {
                    Some(entry) => if entry.cloexec {
                        None
                    } else {
                        Some(entry)
                    },
                    None => None,
                }
                &&& ctx.vfork_stack.len() > 0 ==> c.task == ctx.vfork_stack.last() && r == Sys::Ok(
                    ctx.task.pid,
                )
            }
        }),
{
}

} // verus!
