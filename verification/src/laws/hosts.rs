//! Host commands, and what is told of sessions and limits.
use super::scripts::blank;
use super::vectors::takes;
use crate::cli::{listing_text, move_for, widened, MoveView};
use crate::corpus::{matches_case, Case};
use crate::engine::{Exports, TrapKind};
use crate::engine::interp::{depth_of, has_magic};
use crate::errno::{errno_of_kind, Errno, IoKind};
use crate::kernel::mem::Nanos;
use crate::kernel::mounts::MountView;
use crate::kernel::run::{BodyView, KernelView, PhaseView, ProcStep};
use crate::kernel::state::{default_limits, CtxView, SharedView};
use crate::kernel::step::{flushed, host_answered, host_stepped, killer, HostGoView};
use crate::kernel::tty::TermiosView;
use crate::sandbox::default_env;
use crate::session::{completed, shell_code_of, FinishedView, ProgressView, SessionView, Wait};
use crate::syscall::base::Fault;
use crate::syscall::io::{read_spec, write_spec};
use crate::text::{decimal, is_space, lossy_text};
use crate::vfs::{Vfs, VfsFile};
use vstd::prelude::*;

verus! {

// ---------------------------------------------------------------------------------------------
// host commands

/// A host command gets all of its input before it runs: what it reads is collected in order
/// until the end, and then it is run with that, and with the arguments, the environment and the
/// directory of its process. One that does not want input is run at once.
pub proof fn law_a_host_command_gets_all_its_input<V: Vfs>(
    k: KernelView<<V as VfsFile>::Handle>,
    fs: Seq<MountView<<V as VfsFile>::State>>,
    realtime: u128,
    index: int,
    wants: bool,
    so_far: Seq<u8>,
)
    requires
        0 <= index < k.procs.len(),
        k.procs[index].body == (BodyView::Host {
            reads_stdin: wants,
            phase: PhaseView::Reading(so_far),
        }),
        killer(k.shared, k.procs[index].ctx) is None,
    ensures
        ({
            let ctx = k.procs[index].ctx;
            let got = read_spec::<V>(k.shared, ctx, fs, realtime, 0, 8192).2;
            let (after, f, go) = host_stepped::<V>(k, fs, realtime, index);
            &&& wants && (got matches Ok(data) && data.len() > 0) ==> {
                &&& go is More
                &&& after.procs[index].body == (BodyView::Host {
                    reads_stdin: true,
                    phase: PhaseView::Reading(so_far + got->Ok_0),
                })
            }
            &&& wants && got == Err::<Seq<u8>, Fault>(Fault::Block) ==> go == HostGoView::Done(
                ProcStep::Stuck,
            ) && after.procs[index] == k.procs[index]
            &&& !wants || (got matches Ok(data) && data.len() == 0) ==> {
                &&& go matches HostGoView::Run(call)
                &&& call.stdin == so_far
                &&& call.argv == ctx.argv
                &&& call.envp == ctx.envp
                &&& call.cwd == ctx.task.cwd
            }
        }),
{
}

/// What a host command wrote goes out whole where it is taken, as one write would.
pub proof fn law_a_host_commands_output_goes_out_whole<V: Vfs>(
    sh: SharedView<<V as VfsFile>::Handle>,
    ctx: CtxView,
    fs: Seq<MountView<<V as VfsFile>::State>>,
    fd: i32,
    data: Seq<u8>,
)
    requires
        takes(sh, ctx, fd, data.len() as int),
        0 < data.len() <= usize::MAX,
    ensures
        flushed::<V>(sh, ctx, fs, fd, data, 0) == (
            write_spec::<V>(sh, ctx, fs, fd, data).0,
            fs,
            data.len() as int,
            false,
        ),
{
    assert(data.subrange(0, data.len() as int) =~= data);
    let (s, f, r) = write_spec::<V>(sh, ctx, fs, fd, data);
    assert(r == Ok::<usize, Fault>(data.len() as usize));
    assert(f == fs);
    assert(flushed::<V>(s, ctx, f, fd, data, data.len() as int) == (s, f, data.len() as int, false));
}

/// A host command's answer is what it wrote and the low byte of its status in a status's second
/// byte; one that cannot be run ends with 126, and one that is to be asked again is not
/// answered.
pub proof fn law_a_host_commands_answer_is_kept<F>(
    k: KernelView<F>,
    index: int,
    status: i32,
    stdout: Seq<u8>,
    stderr: Seq<u8>,
    e: Errno,
)
    requires
        0 <= index < k.procs.len(),
        k.procs[index].body is Host,
    ensures
        ({
            let (after, done) = host_answered(k, index, Ok((status, stdout, stderr)));
            &&& done
            &&& after.procs[index].body matches BodyView::Host {
                phase: PhaseView::Flushing { status: s, stdout: o, stderr: x, out_done, err_done },
                ..
            } && s == 256 * (status as int % 256) && o == stdout && x == stderr && out_done == 0
                && err_done == 0
        }),
        ({
            let (after, done) = host_answered(k, index, Err(e));
            &&& e.code() == 11 ==> !done && after.shared.host_pending && after.procs == k.procs
            &&& e.code() != 11 ==> done && (after.procs[index].body matches BodyView::Host {
                phase: PhaseView::Flushing { status: s, stdout: o, .. },
                ..
            } && s == 256 * 126 && o.len() == 0)
        }),
{
}

// ---------------------------------------------------------------------------------------------
// sessions

/// How a command is driven to its end without anyone watching: it is over when it is done, it
/// cannot wait for a filesystem or a host command, its input ends when it asks for more, and
/// otherwise it goes on.
pub proof fn law_driving_a_command_to_its_end<F>(s: SessionView<F>, output: FinishedView, left: Nanos)
    ensures
        completed(s, ProgressView::Done(output)) == (
            s,
            Some(Ok::<FinishedView, ()>(output)),
        ),
        completed(s, ProgressView::Waiting(Wait::Vfs)).1 == Some(Err::<FinishedView, ()>(())),
        completed(s, ProgressView::Waiting(Wait::Host)).1 == Some(Err::<FinishedView, ()>(())),
        ({
            let (after, r) = completed(s, ProgressView::Waiting(Wait::Stdin));
            &&& r is None
            &&& after.kernel.shared.stdin.closed
            &&& after.kernel.shared.stdin.data == s.kernel.shared.stdin.data
        }),
        completed(s, ProgressView::Yielded) == (s, None::<Result<FinishedView, ()>>),
        completed(s, ProgressView::Waiting(Wait::Until(left))) == (
            s,
            None::<Result<FinishedView, ()>>,
        ),
{
}

/// How the command line drives a session: it finishes when the session does, reads input when
/// input is wanted, sleeps as long as there is to wait but never longer than a twentieth of a
/// second, and refuses to wait for what nobody there can answer.
pub proof fn law_driving_a_session_from_the_command_line(output: FinishedView, left: Nanos)
    ensures
        move_for(ProgressView::Done(output)) == MoveView::Finish(output),
        move_for(ProgressView::Yielded) is Again,
        move_for(ProgressView::Waiting(Wait::Stdin)) is ReadInput,
        move_for(ProgressView::Waiting(Wait::Vfs)) is Refuse,
        move_for(ProgressView::Waiting(Wait::Host)) is Refuse,
        move_for(ProgressView::Waiting(Wait::Until(left))) matches MoveView::Sleep(nap) && nap
            <= left && nap <= 50_000_000 && (nap == left || nap == 50_000_000),
{
}

proof fn lemma_widened(t: Seq<char>, width: int)
    ensures
        widened(t, width).len() >= t.len(),
        widened(t, width).len() >= width,
        t.len() < width ==> widened(t, width).len() == width,
        t.len() >= width ==> widened(t, width) == t,
        widened(t, width).subrange(0, t.len() as int) == t,
        forall|i: int|
            t.len() <= i < widened(t, width).len() ==> #[trigger] widened(t, width)[i] == ' ',
    decreases width - t.len(),
{
    if t.len() < width {
        let more = t.push(' ');
        lemma_widened(more, width);
        let w = widened(t, width);
        assert(w.subrange(0, more.len() as int)[t.len() as int] == more[t.len() as int]);
        assert(w.subrange(0, t.len() as int) =~= w.subrange(0, more.len() as int).subrange(
            0,
            t.len() as int,
        ));
        assert(more.subrange(0, t.len() as int) =~= t);
        assert forall|i: int| t.len() <= i < w.len() implies #[trigger] w[i] == ' ' by {
            if i == t.len() {
                assert(w[i] == w.subrange(0, more.len() as int)[i]);
            }
        }
    } else {
        assert(t.subrange(0, t.len() as int) =~= t);
    }
}

/// The list of programs has a line for each, in order: its name, filled up to twelve characters
/// with spaces, a space, and its path.
pub proof fn law_the_list_of_programs_has_a_line_for_each(
    list: Seq<(Seq<char>, Seq<char>)>,
    name: Seq<char>,
    path: Seq<char>,
)
    ensures
        ({
            let line = widened(name, 12);
            &&& listing_text(list.push((name, path))) == listing_text(list) + line + " "@ + path
                + "\n"@
            &&& line.subrange(0, name.len() as int) == name
            &&& line.len() == if name.len() < 12 {
                12
            } else {
                name.len()
            }
            &&& forall|i: int| name.len() <= i < line.len() ==> #[trigger] line[i] == ' '
        }),
        listing_text(Seq::empty()).len() == 0,
{
    lemma_widened(name, 12);
    assert(list.push((name, path)).drop_last() =~= list);
}

// ---------------------------------------------------------------------------------------------
// defaults

/// The limits of a sandbox that is told none: 256 MiB in all and 64 MiB for a process, 64
/// processes, 256 open files, 8 MiB of output and a minute.
pub proof fn law_the_usual_limits()
    ensures
        default_limits().memory == 256 * 1024 * 1024,
        default_limits().memory_per_process == 64 * 1024 * 1024,
        default_limits().processes == 64,
        default_limits().open_files == 256,
        default_limits().output == 8 * 1024 * 1024,
        default_limits().wall_clock == Some(60_000_000_000u128),
{
}

/// A terminal is read line by line and turns keys into signals until a guest asks otherwise,
/// and that is what two bits of its settings say.
pub proof fn law_a_terminal_starts_out_cooked(t: TermiosView)
    ensures
        t.is_raw() == (t.lflag & 2 == 0),
        t.wants_signals() == (t.lflag & 1 != 0),
        !TermiosView::cooked().is_raw(),
        TermiosView::cooked().wants_signals(),
        TermiosView::cooked().lflag & 8 != 0,
{
    assert((1u32 | 2 | 8 | 0x10 | 0x20 | 0x8000) & 2 != 0 && (1u32 | 2 | 8 | 0x10 | 0x20 | 0x8000) & 1
        != 0 && (1u32 | 2 | 8 | 0x10 | 0x20 | 0x8000) & 8 != 0) by (bit_vector);
}

/// What an error of the host is to a guest.
pub proof fn law_host_errors_are_told_in_kind(kind: IoKind)
    ensures
        match errno_of_kind(kind) {
            None => kind is Other,
            Some(e) => e.code() == match kind {
                IoKind::NotFound => 2int,
                IoKind::Interrupted => 4,
                IoKind::WouldBlock => 11,
                IoKind::PermissionDenied => 13,
                IoKind::AlreadyExists => 17,
                IoKind::NotADirectory => 20,
                IoKind::IsADirectory => 21,
                IoKind::InvalidInput => 22,
                IoKind::InvalidData => 22,
                IoKind::FileTooLarge => 27,
                IoKind::StorageFull => 28,
                IoKind::ReadOnlyFilesystem => 30,
                IoKind::TooManyLinks => 31,
                IoKind::BrokenPipe => 32,
                IoKind::InvalidFilename => 36,
                IoKind::Unsupported => 38,
                IoKind::DirectoryNotEmpty => 39,
                IoKind::Other => 0,
            },
        },
{
}

/// What a session tells at its end is what was captured: standard output and standard error
/// apart, and how much was dropped of both together.
pub proof fn law_the_output_is_what_was_captured<F>(s: SessionView<F>, status: i32)
    requires
        s.kernel.shared.stdout.dropped + s.kernel.shared.stderr.dropped <= u64::MAX,
    ensures
        ({
            let o = s.output(status);
            &&& o.status == status
            &&& o.stdout == s.kernel.shared.stdout.data
            &&& o.stderr == s.kernel.shared.stderr.data
            &&& o.dropped == s.kernel.shared.stdout.dropped + s.kernel.shared.stderr.dropped
        }),
{
}

/// The environment of a sandbox that is told none.
pub proof fn law_the_usual_environment()
    ensures
        default_env().len() == 4,
        default_env()[0] == ("PATH"@, "/bin:/usr/bin:/sbin:/usr/sbin"@),
        default_env()[1] == ("HOME"@, "/"@),
        default_env()[2] == ("TERM"@, "dumb"@),
        default_env()[3] == ("PS1"@, "$ "@),
{
}

// ---------------------------------------------------------------------------------------------
// modules

/// A module begins with a NUL and `asm`; what does not is none.
pub proof fn law_a_module_begins_with_its_magic(bytes: Seq<u8>)
    ensures
        has_magic(bytes) <==> bytes.len() >= 4 && bytes.subrange(0, 4) == seq![0u8, 97, 115, 109],
{
    if bytes.len() >= 4 {
        let head = bytes.subrange(0, 4);
        let magic = seq![0u8, 97, 115, 109];
        assert(head[0] == bytes[0] && head[1] == bytes[1] && head[2] == bytes[2] && head[3]
            == bytes[3]);
        if has_magic(bytes) {
            assert(head =~= magic);
        } else if head == magic {
            assert(magic[0] == 0 && magic[1] == 97 && magic[2] == 115 && magic[3] == 109);
        }
    }
}

/// How deep calls may nest is what the setting says, and 2048 where it says nothing.
pub proof fn law_calls_nest_as_deep_as_the_setting_says(n: u64)
    requires
        n <= usize::MAX,
    ensures
        depth_of(Some(decimal(n as nat))) == n,
        depth_of(None) == 2048,
{
    super::commands::law_a_number_reads_back(n);
}

/// What ended a program, by the class that an engine gives it; without a code it did not end.
pub proof fn law_traps_are_told_by_their_class(code: i32, class: i32)
    ensures
        TrapKind::of_class(code, class) is None <==> code == 0 || class == 0,
        code != 0 && class == 1 ==> TrapKind::of_class(code, class) == Some(TrapKind::OutOfBounds),
        code != 0 && class == 2 ==> TrapKind::of_class(code, class) == Some(TrapKind::Exhaustion),
        code != 0 && class != 0 && class != 1 && class != 2 ==> TrapKind::of_class(code, class)
            == Some(TrapKind::Fault),
{
}

/// A module is complete exactly when it has everything the kernel calls.
pub proof fn law_a_complete_module_misses_nothing(e: Exports)
    ensures
        e.missing() is None <==> e.memory && e.start && e.start_unwind && e.stop_unwind
            && e.start_rewind && e.stop_rewind,
{
}

/// A case of the corpus passes exactly when what it printed, but for the spaces at its end, is
/// what it should have printed, and it ended as it should have.
pub proof fn law_a_case_passes_on_its_output_and_status(
    c: Case,
    stdout: Seq<u8>,
    status: i32,
    text: Seq<char>,
    back: Seq<char>,
)
    requires
        lossy_text(stdout) == text + back,
        blank(back),
        text.len() > 0 ==> !is_space(text.last()),
    ensures
        matches_case(c, stdout, status) <==> text == c.stdout@ && shell_code_of(status) == c.status,
{
    super::texts::law_only_the_last_spaces_are_trimmed(text, back);
}

} // verus!
