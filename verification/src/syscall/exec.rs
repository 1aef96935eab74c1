//! `execve`, for programs and for scripts.
use super::base::{errno, fault_of, looked_up, noted, resolve, vfs_fault, Fault, Sys};
use super::process::{back_to_parent, leave_vfork};
use crate::abi::AT_FDCWD;
use crate::errno::Errno;
use crate::kernel::fd::{cloexec_descs, without_cloexec, FdTable};
use crate::kernel::mem::{byte_strings, copy_bytes, cstr, cstr_array, strings_at, text_at};
use crate::kernel::mounts::{called, file_called, MountView, Mounts, ProgramId};
use crate::kernel::namespace::{Node, NodeView};
use crate::kernel::state::{released_all, tasks, Ctx, CtxView, Shared, SharedView, Spawn, SpawnView};
use crate::kernel::task::{Task, TaskView};
use crate::text::{chars_of, is_space, lossy, lossy_text, space, text_of, trim, trimmed};
use crate::vfs::{
    no_options, FileAnswer, FileCall, FileType, OpenOptions, Vfs, VfsAnswer, VfsCall, VfsFile,
};
use vstd::prelude::*;
use vstd::string::*;
use vstd::utf8::encode_utf8;

verus! {

/// How much of a file is looked at for an interpreter.
pub const HEAD: usize = 256;

// ---------------------------------------------------------------------------------------------
// the interpreter line

/// The first position at or after `i` that ends a line, or the end.
pub open spec fn line_end(b: Seq<u8>, i: int) -> int
    decreases b.len() - i,
{
    if i >= b.len() || b[i] == 10 {
        i
    } else {
        line_end(b, i + 1)
    }
}

/// What a file's beginning says about its interpreter: the rest of a first line that begins
/// with `#!`, without the spaces around it.
pub open spec fn shebang_text(head: Seq<u8>) -> Option<Seq<char>> {
    if head.len() < 2 || head[0] != 0x23 || head[1] != 0x21 {
        None
    } else {
        let text = trimmed(lossy_text(head.subrange(2, line_end(head, 2))));
        if text.len() == 0 {
            None
        } else {
            Some(text)
        }
    }
}

/// The interpreter line of a script, if it has one.
pub fn shebang(head: &Vec<u8>) -> (r: Option<Vec<char>>)
    ensures
        match r {
            Some(t) => shebang_text(head@) == Some(t@),
            None => shebang_text(head@) is None,
        },
{
    if head.len() < 2 || head[0] != 0x23 || head[1] != 0x21 {
        return None;
    }
    let mut line: Vec<u8> = Vec::new();
    let mut i: usize = 2;
    while i < head.len() && head[i] != 10
        invariant
            2 <= i <= head@.len(),
            line_end(head@, 2) == line_end(head@, i as int),
            line@ == head@.subrange(2, i as int),
        decreases head@.len() - i,
    {
        line.push(head[i]);
        i = i + 1;
        assert(line@ =~= head@.subrange(2, i as int));
    }
    let text = lossy(line.as_slice());
    let out = trim(&chars_of(text.as_str()));
    if out.len() == 0 {
        None
    } else {
        Some(out)
    }
}

/// The first position at or after `i` that holds a space, or the end.
pub open spec fn word_end(t: Seq<char>, i: int) -> int
    decreases t.len() - i,
{
    if i >= t.len() || is_space(t[i]) {
        i
    } else {
        word_end(t, i + 1)
    }
}

/// The interpreter an interpreter line names.
pub open spec fn interpreter_of(line: Seq<char>) -> Seq<char> {
    line.subrange(0, word_end(line, 0))
}

/// The one argument an interpreter line may give; empty where it gives none.
pub open spec fn extra_of(line: Seq<char>) -> Seq<char> {
    let end = word_end(line, 0);
    if end < line.len() {
        trimmed(line.subrange(end + 1, line.len() as int))
    } else {
        Seq::empty()
    }
}

fn split_line(line: &Vec<char>) -> (r: (String, String))
    ensures
        r.0@ == interpreter_of(line@),
        r.1@ == extra_of(line@),
{
    let mut first: Vec<char> = Vec::new();
    let mut i: usize = 0;
    while i < line.len() && !space(line[i])
        invariant
            i <= line@.len(),
            word_end(line@, 0) == word_end(line@, i as int),
            first@ == line@.subrange(0, i as int),
        decreases line@.len() - i,
    {
        first.push(line[i]);
        i = i + 1;
        assert(first@ =~= line@.subrange(0, i as int));
    }
    let mut rest: Vec<char> = Vec::new();
    if i < line.len() {
        let from: usize = i + 1;
        let mut j: usize = from;
        while j < line.len()
            invariant
                from <= j <= line@.len(),
                rest@ == line@.subrange(from as int, j as int),
            decreases line@.len() - j,
        {
            rest.push(line[j]);
            j = j + 1;
            assert(rest@ =~= line@.subrange(from as int, j as int));
        }
        rest = trim(&rest);
    } else {
        assert(rest@ =~= Seq::empty());
    }
    (text_of(first.as_slice()), text_of(rest.as_slice()))
}

/// The argument vector a script's interpreter gets: its own name, its argument if it has one,
/// the script's path, and what the caller passed behind the script's name.
pub open spec fn script_args(line: Seq<char>, path: Seq<char>, argv: Seq<Seq<u8>>) -> Seq<Seq<u8>> {
    let start = if extra_of(line).len() == 0 {
        seq![encode_utf8(interpreter_of(line)), encode_utf8(path)]
    } else {
        seq![
            encode_utf8(interpreter_of(line)),
            encode_utf8(extra_of(line)),
            encode_utf8(path),
        ]
    };
    start + if argv.len() > 0 {
        argv.subrange(1, argv.len() as int)
    } else {
        Seq::empty()
    }
}

fn build_args(
    interpreter: &String,
    extra: &String,
    path: &String,
    argv: &Vec<Vec<u8>>,
    Ghost(line): Ghost<Seq<char>>,
) -> (r: Vec<Vec<u8>>)
    requires
        interpreter@ == interpreter_of(line),
        extra@ == extra_of(line),
    ensures
        byte_strings(r@) == script_args(line, path@, byte_strings(argv@)),
{
    let ghost given = byte_strings(argv@);
    let ghost whole = script_args(line, path@, given);
    let mut out: Vec<Vec<u8>> = Vec::new();
    out.push(interpreter.as_str().as_bytes_vec());
    if !extra.as_str().is_empty() {
        out.push(extra.as_str().as_bytes_vec());
    }
    out.push(path.as_str().as_bytes_vec());
    let ghost n = out@.len() as int;
    assert(byte_strings(out@) =~= whole.subrange(0, n));
    let mut i: usize = 1;
    while i < argv.len()
        invariant
            1 <= i,
            i <= argv@.len() || i == 1,
            given == byte_strings(argv@),
            whole == script_args(line, path@, given),
            n == 2 || n == 3,
            n == if extra_of(line).len() == 0 {
                2int
            } else {
                3int
            },
            byte_strings(out@) == whole.subrange(0, n + i - 1),
        decreases argv@.len() - i,
    {
        let ghost before = byte_strings(out@);
        out.push(copy_bytes(&argv[i]));
        assert(whole[n + i - 1] == given[i as int]);
        assert(byte_strings(out@) =~= before.push(given[i as int]));
        i = i + 1;
        assert(byte_strings(out@) =~= whole.subrange(0, n + i - 1));
    }
    assert(byte_strings(out@) =~= whole);
    out
}

// ---------------------------------------------------------------------------------------------
// finishing

/// The session, the process and the mounts once it is settled what runs: descriptors marked
/// close-on-exec are closed; a `vfork` child is handed to the scheduler and its parent goes on
/// with its pid; anything else is to be replaced.
pub open spec fn exec_done<V: Vfs>(
    sh: SharedView<<V as VfsFile>::Handle>,
    ctx: CtxView,
    fs: Seq<MountView<<V as VfsFile>::State>>,
    program: ProgramId,
    exe: Seq<char>,
    argv: Seq<Seq<u8>>,
    envp: Seq<Seq<u8>>,
) -> (SharedView<<V as VfsFile>::Handle>, CtxView, Seq<MountView<<V as VfsFile>::State>>, Sys) {
    let (s, f) = released_all::<V>(sh, fs, cloexec_descs(ctx.task.fds));
    let task = TaskView { fds: without_cloexec(ctx.task.fds), ..ctx.task };
    let spawn = SpawnView { task, program, exe, argv, envp };
    if ctx.vfork_stack.len() > 0 {
        (
            SharedView { spawn: s.spawn.push(spawn), ..s },
            back_to_parent(ctx),
            f,
            Ok(ctx.task.pid),
        )
    } else {
        (
            s,
            CtxView {
                task: TaskView::fresh(0, Seq::empty()),
                exec_request: Some(spawn),
                ..ctx
            },
            f,
            Err(Fault::Exec),
        )
    }
}

/// Finish an `execve`: either hand the child to the scheduler, or replace this instance.
pub fn finish_exec<V: Vfs>(
    sh: &mut Shared<<V as VfsFile>::Handle>,
    ctx: &mut Ctx,
    fs: &mut Mounts<V>,
    program: ProgramId,
    exe: String,
    argv: Vec<Vec<u8>>,
    envp: Vec<Vec<u8>>,
) -> (r: Sys)
    requires
        old(sh)@.wf(),
        old(fs).wf(),
    ensures
        final(sh)@.wf(),
        final(fs).wf(),
        exec_done::<V>(
            old(sh)@,
            old(ctx)@,
            old(fs)@,
            program,
            exe@,
            byte_strings(argv@),
            byte_strings(envp@),
        ) == (final(sh)@, final(ctx)@, final(fs)@, r),
{
    let ghost before = ctx@;
    let closing = ctx.task.fds.drain_cloexec();
    sh.release_descs(fs, &closing);
    match ctx.vfork_stack.pop() {
        Some(parent) => {
            assert(tasks(ctx.vfork_stack@) =~= before.vfork_stack.drop_last());
            let task = leave_vfork(ctx, parent);
            let pid: i32 = task.pid;
            let ghost queue = sh@.spawn;
            let spawn = Spawn { task, program, exe, argv, envp };
            let ghost added = spawn@;
            sh.spawn.push(spawn);
            assert(sh@.spawn =~= queue.push(added));
            Ok(pid)
        },
        None => {
            assert(tasks(ctx.vfork_stack@) =~= before.vfork_stack);
            let mut task = Task::new(0, FdTable::new());
            core::mem::swap(&mut ctx.task, &mut task);
            ctx.exec_request = Some(Spawn { task, program, exe, argv, envp });
            Err(Fault::Exec)
        },
    }
}

/// The beginning of a file, or why it cannot be had. A directory cannot be executed, whatever
/// opening it would say.
pub open spec fn head_of<V: Vfs>(
    sh: SharedView<<V as VfsFile>::Handle>,
    fs: Seq<MountView<<V as VfsFile>::State>>,
    mount: usize,
    rel: Seq<char>,
) -> (
    SharedView<<V as VfsFile>::Handle>,
    Seq<MountView<<V as VfsFile>::State>>,
    Result<Seq<u8>, Fault>,
) {
    let (f1, what) = called::<V>(fs, mount as int, VfsCall::Stat { path: rel, follow: true });
    if what matches VfsAnswer::Stat(st) && st.file_type is Dir {
        (sh, f1, errno(Errno::ACCES))
    } else {
        let (f2, opened) = called::<V>(
            f1,
            mount as int,
            VfsCall::Open { path: rel, opts: OpenOptions { read: true, ..no_options() } },
        );
        match opened {
            VfsAnswer::Fail(e) => (noted(sh, e), f2, Err(fault_of(e))),
            VfsAnswer::Opened(file) => {
                let (f3, handle, got) = file_called::<V>(
                    f2,
                    mount as int,
                    file,
                    FileCall::Read { max: HEAD },
                );
                match got {
                    FileAnswer::Fail(e) => (noted(sh, e), f3, Err(fault_of(e))),
                    FileAnswer::Data(data) => {
                        let (f4, _, _) = file_called::<V>(
                            f3,
                            mount as int,
                            handle,
                            FileCall::Close,
                        );
                        (sh, f4, Ok(data))
                    },
                    _ => (sh, f3, errno(Errno::IO)),
                }
            },
            _ => (sh, f2, errno(Errno::IO)),
        }
    }
}

fn read_head<V: Vfs>(
    sh: &mut Shared<<V as VfsFile>::Handle>,
    fs: &mut Mounts<V>,
    mount: usize,
    rel: &str,
) -> (r: Result<Vec<u8>, Fault>)
    requires
        old(sh)@.wf(),
        old(fs).wf(),
    ensures
        final(sh)@.wf(),
        final(fs).wf(),
        head_of::<V>(old(sh)@, old(fs)@, mount, rel@) == (
            final(sh)@,
            final(fs)@,
            super::io::read_result(r),
        ),
{
    match fs.stat(mount, rel, true) {
        Ok(st) => {
            if st.file_type == FileType::Dir {
                return Err(Fault::Errno(Errno::ACCES));
            }
        },
        Err(_) => {},
    }
    let mut file = match fs.open(mount, rel, &OpenOptions::read()) {
        Ok(file) => file,
        Err(e) => return Err(vfs_fault(sh, e)),
    };
    let data = match fs.file_read(mount, &mut file, HEAD) {
        Ok(data) => data,
        Err(e) => return Err(vfs_fault(sh, e)),
    };
    let _ = fs.file_close(mount, &mut file);
    Ok(data)
}

/// Running a script: its interpreter has to be a program of the sandbox.
pub open spec fn script_exec<V: Vfs>(
    sh: SharedView<<V as VfsFile>::Handle>,
    ctx: CtxView,
    fs: Seq<MountView<<V as VfsFile>::State>>,
    mount: usize,
    rel: Seq<char>,
    path: Seq<char>,
    argv: Seq<Seq<u8>>,
    envp: Seq<Seq<u8>>,
) -> (SharedView<<V as VfsFile>::Handle>, CtxView, Seq<MountView<<V as VfsFile>::State>>, Sys) {
    let (s1, f1, head) = head_of::<V>(sh, fs, mount, rel);
    match head {
        Err(x) => (s1, ctx, f1, Err(x)),
        Ok(head) => match shebang_text(head) {
            None => (s1, ctx, f1, errno(Errno::NOEXEC)),
            Some(line) => {
                let (s2, f2, node) = looked_up::<V>(
                    s1,
                    ctx,
                    f1,
                    AT_FDCWD,
                    interpreter_of(line),
                    true,
                );
                match node {
                    Err(x) => (s2, ctx, f2, Err(x)),
                    Ok(NodeView::Program { id, guest }) => exec_done::<V>(
                        s2,
                        ctx,
                        f2,
                        id,
                        guest,
                        script_args(line, path, argv),
                        envp,
                    ),
                    Ok(_) => (s2, ctx, f2, errno(Errno::NOEXEC)),
                }
            },
        },
    }
}

/// `execve`.
pub open spec fn execve_spec<V: Vfs>(
    sh: SharedView<<V as VfsFile>::Handle>,
    ctx: CtxView,
    fs: Seq<MountView<<V as VfsFile>::State>>,
    mem: Seq<u8>,
    path_at: u32,
    argv_at: u32,
    envp_at: u32,
) -> (SharedView<<V as VfsFile>::Handle>, CtxView, Seq<MountView<<V as VfsFile>::State>>, Sys) {
    match text_at(mem, path_at as int) {
        Err(e) => (sh, ctx, fs, errno(e)),
        Ok(path) => match strings_at(mem, argv_at as int) {
            Err(e) => (sh, ctx, fs, errno(e)),
            Ok(argv) => match strings_at(mem, envp_at as int) {
                Err(e) => (sh, ctx, fs, errno(e)),
                Ok(envp) => {
                    let (s, f, node) = looked_up::<V>(sh, ctx, fs, AT_FDCWD, path, true);
                    match node {
                        Err(x) => (s, ctx, f, Err(x)),
                        Ok(NodeView::Program { id, guest }) => exec_done::<V>(
                            s,
                            ctx,
                            f,
                            id,
                            guest,
                            argv,
                            envp,
                        ),
                        Ok(NodeView::Mounted { mount, rel, .. }) => script_exec::<V>(
                            s,
                            ctx,
                            f,
                            mount,
                            rel,
                            path,
                            argv,
                            envp,
                        ),
                        Ok(_) => (s, ctx, f, errno(Errno::ACCES)),
                    }
                },
            },
        },
    }
}

fn exec_script<V: Vfs>(
    sh: &mut Shared<<V as VfsFile>::Handle>,
    ctx: &mut Ctx,
    fs: &mut Mounts<V>,
    mount: usize,
    rel: String,
    path: String,
    argv: Vec<Vec<u8>>,
    envp: Vec<Vec<u8>>,
) -> (r: Sys)
    requires
        old(sh)@.wf(),
        old(fs).wf(),
    ensures
        final(sh)@.wf(),
        final(fs).wf(),
        script_exec::<V>(
            old(sh)@,
            old(ctx)@,
            old(fs)@,
            mount,
            rel@,
            path@,
            byte_strings(argv@),
            byte_strings(envp@),
        ) == (final(sh)@, final(ctx)@, final(fs)@, r),
{
    let head = match read_head(sh, fs, mount, rel.as_str()) {
        Ok(head) => head,
        Err(x) => return Err(x),
    };
    let line = match shebang(&head) {
        Some(line) => line,
        None => return Err(Fault::Errno(Errno::NOEXEC)),
    };
    let (interpreter, extra) = split_line(&line);
    match resolve(sh, ctx, fs, AT_FDCWD, interpreter.as_str(), true) {
        Err(x) => Err(x),
        Ok(Node::Program { id, guest }) => {
            let args = build_args(&interpreter, &extra, &path, &argv, Ghost(line@));
            finish_exec(sh, ctx, fs, id, guest, args, envp)
        },
        Ok(_) => Err(Fault::Errno(Errno::NOEXEC)),
    }
}

pub fn sys_execve<V: Vfs>(
    sh: &mut Shared<<V as VfsFile>::Handle>,
    ctx: &mut Ctx,
    fs: &mut Mounts<V>,
    mem: &[u8],
    path_at: u32,
    argv_at: u32,
    envp_at: u32,
) -> (r: Sys)
    requires
        old(sh)@.wf(),
        old(fs).wf(),
    ensures
        final(sh)@.wf(),
        final(fs).wf(),
        execve_spec::<V>(old(sh)@, old(ctx)@, old(fs)@, mem@, path_at, argv_at, envp_at) == (
            final(sh)@,
            final(ctx)@,
            final(fs)@,
            r,
        ),
{
    let path = match cstr(mem, path_at) {
        Ok(path) => path,
        Err(e) => return Err(Fault::Errno(e)),
    };
    let argv = match cstr_array(mem, argv_at) {
        Ok(argv) => argv,
        Err(e) => return Err(Fault::Errno(e)),
    };
    let envp = match cstr_array(mem, envp_at) {
        Ok(envp) => envp,
        Err(e) => return Err(Fault::Errno(e)),
    };
    match resolve(sh, ctx, fs, AT_FDCWD, path.as_str(), true) {
        Err(x) => Err(x),
        Ok(Node::Program { id, guest }) => finish_exec(sh, ctx, fs, id, guest, argv, envp),
        Ok(Node::Mounted { mount, rel, .. }) => exec_script(
            sh,
            ctx,
            fs,
            mount,
            rel,
            path,
            argv,
            envp,
        ),
        Ok(_) => Err(Fault::Errno(Errno::ACCES)),
    }
}

} // verus!
