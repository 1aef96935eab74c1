//! `ioctl`: descriptor flags, and the terminal a session may have.
use super::base::{errno, Fault, Sys};
use super::fds::with_fds;
use crate::abi::{
    FIOCLEX, FIONBIO, FIONCLEX, FIONREAD, O_NONBLOCK, TCGETS, TCSETS, TCSETSF, TCSETSW, TIOCGPGRP,
    TIOCGWINSZ, TIOCNOTTY, TIOCSCTTY, TIOCSPGRP, TIOCSWINSZ,
};
use crate::errno::Errno;
use crate::kernel::fd::{fd_at, DescKind, DescView, Fd, KindView};
use crate::kernel::mem::{
    bytes, fits, le16, le32, load32, put, put_u16, put_u32, read_u32, store, stores, word, word_of,
    wrap, wrapped,
};
use crate::kernel::state::{group_of, Ctx, CtxView, Shared, SharedView};
use crate::kernel::tty::{TerminalView, Termios, TermiosView, TERMIOS_BYTES};
use vstd::prelude::*;

verus! {

/// How many bytes can be read at once without blocking, as far as that is known.
pub open spec fn available<F>(sh: SharedView<F>, kind: KindView<F>) -> int {
    match kind {
        KindView::PipeRead(k) => match sh.pipes.get(k) {
            Some(p) => p.data.len() as int,
            None => 0,
        },
        KindView::Stdin => sh.stdin.data.len() as int,
        KindView::Memory { data, pos } => if pos < data.len() {
            data.len() - pos
        } else {
            0
        },
        _ => 0,
    }
}

/// The stores that write a window size: rows, then columns.
pub open spec fn winsize_stores(at: u32, t: TerminalView) -> Seq<(int, Seq<u8>)> {
    seq![
        (at as int, le16(t.rows)),
        (wrapped(at, 2) as int, le16(t.cols)),
        (wrapped(at, 4) as int, le16(0)),
        (wrapped(at, 6) as int, le16(0)),
    ]
}

/// A store as the end of a call.
pub open spec fn stored(r: (Seq<u8>, Result<(), Errno>)) -> (Seq<u8>, Sys) {
    match r {
        (m, Err(e)) => (m, errno(e)),
        (m, Ok(())) => (m, Ok(0)),
    }
}

/// The requests a terminal answers: its size, its settings, and its process group.
pub open spec fn terminal_spec<F>(
    sh: SharedView<F>,
    ctx: CtxView,
    mem: Seq<u8>,
    t: TerminalView,
    request: u32,
    argument: u32,
) -> (SharedView<F>, Seq<u8>, Sys) {
    if request == TIOCGWINSZ {
        let (m, r) = stored(stores(mem, winsize_stores(argument, t)));
        (sh, m, r)
    } else if request == TCGETS {
        let (m, r) = stored(store(mem, argument as int, t.termios.encoded()));
        (sh, m, r)
    } else if request == TCSETS || request == TCSETSW || request == TCSETSF {
        if fits(mem, argument as int, TERMIOS_BYTES as int) {
            let termios = TermiosView::decoded(
                mem.subrange(argument as int, argument + TERMIOS_BYTES),
            );
            (
                SharedView { terminal: Some(TerminalView { termios, ..t }), ..sh },
                mem,
                Ok(0),
            )
        } else {
            (sh, mem, errno(Errno::FAULT))
        }
    } else if request == TIOCGPGRP {
        let (m, r) = stored(
            store(
                mem,
                argument as int,
                le32(word_of(group_of(sh.table, ctx.task.pid))),
            ),
        );
        (sh, m, r)
    } else if request == TIOCSPGRP || request == TIOCSWINSZ || request == TIOCSCTTY || request
        == TIOCNOTTY {
        (sh, mem, Ok(0))
    } else {
        (sh, mem, errno(Errno::NOTTY))
    }
}

/// `ioctl`. The terminal requests are answered only on a standard stream of a session that
/// has a terminal; everything else is `ENOTTY`, which is what makes `isatty` say no.
pub open spec fn ioctl_spec<F>(
    sh: SharedView<F>,
    ctx: CtxView,
    mem: Seq<u8>,
    fd: i32,
    request: u32,
    argument: u32,
) -> (SharedView<F>, CtxView, Seq<u8>, Sys) {
    match fd_at(ctx.task.fds, fd as int) {
        None => (sh, ctx, mem, errno(Errno::BADF)),
        Some(entry) => if request == FIOCLEX || request == FIONCLEX {
            (
                sh,
                with_fds(
                    ctx,
                    ctx.task.fds.update(
                        fd as int,
                        Some(Fd { desc: entry.desc, cloexec: request == FIOCLEX }),
                    ),
                ),
                mem,
                Ok(0),
            )
        } else if request == FIONBIO && load32(mem, argument as int) is Err {
            (sh, ctx, mem, errno(load32(mem, argument as int)->Err_0))
        } else {
            match sh.descs.get(entry.desc) {
                None => (sh, ctx, mem, errno(Errno::BADF)),
                Some(d) => if request == FIONBIO {
                    let on = load32(mem, argument as int)->Ok_0 != 0;
                    (
                        SharedView {
                            descs: sh.descs.set(
                                entry.desc,
                                DescView {
                                    flags: if on {
                                        d.flags | O_NONBLOCK
                                    } else {
                                        d.flags & !O_NONBLOCK
                                    },
                                    ..d
                                },
                            ),
                            ..sh
                        },
                        ctx,
                        mem,
                        Ok(0),
                    )
                } else if request == FIONREAD {
                    let (m, r) = stored(
                        store(
                            mem,
                            argument as int,
                            le32((available(sh, d.kind) % 0x1_0000_0000) as u32),
                        ),
                    );
                    (sh, ctx, m, r)
                } else {
                    match sh.terminal {
                        Some(t) => if d.is_stream() {
                            let (s, m, r) = terminal_spec(sh, ctx, mem, t, request, argument);
                            (s, ctx, m, r)
                        } else {
                            (sh, ctx, mem, errno(Errno::NOTTY))
                        },
                        None => (sh, ctx, mem, errno(Errno::NOTTY)),
                    }
                },
            }
        },
    }
}

fn put_winsize(mem: &mut [u8], at: u32, rows: u16, cols: u16, Ghost(t): Ghost<TerminalView>) -> (r:
    Sys)
    requires
        t.rows == rows,
        t.cols == cols,
    ensures
        stored(stores(old(mem)@, winsize_stores(at, t))) == (final(mem)@, r),
{
    proof {
        reveal_with_fuel(stores, 5);
    }
    match put_u16(mem, at, rows) {
        Ok(()) => {},
        Err(e) => return Err(Fault::Errno(e)),
    }
    match put_u16(mem, wrap(at, 2), cols) {
        Ok(()) => {},
        Err(e) => return Err(Fault::Errno(e)),
    }
    match put_u16(mem, wrap(at, 4), 0) {
        Ok(()) => {},
        Err(e) => return Err(Fault::Errno(e)),
    }
    match put_u16(mem, wrap(at, 6), 0) {
        Ok(()) => Ok(0),
        Err(e) => Err(Fault::Errno(e)),
    }
}

fn ioctl_terminal<F>(
    sh: &mut Shared<F>,
    ctx: &Ctx,
    mem: &mut [u8],
    request: u32,
    argument: u32,
) -> (r: Sys)
    requires
        old(sh)@.terminal is Some,
    ensures
        terminal_spec(
            old(sh)@,
            ctx@,
            old(mem)@,
            old(sh)@.terminal->0,
            request,
            argument,
        ) == (final(sh)@, final(mem)@, r),
{
    let group: i32 = sh.group(ctx.task.pid);
    match &mut sh.terminal {
        None => {
            assert(false);
            Err(Fault::Errno(Errno::NOTTY))
        },
        Some(t) => match request {
            TIOCGWINSZ => put_winsize(mem, argument, t.rows, t.cols, Ghost(t@)),
            TCGETS => {
                let block = t.termios.encode();
                match put(mem, argument, block.as_slice()) {
                    Ok(()) => Ok(0),
                    Err(e) => Err(Fault::Errno(e)),
                }
            },
            TCSETS | TCSETSW | TCSETSF => match bytes(mem, argument, TERMIOS_BYTES as u32) {
                Err(e) => Err(Fault::Errno(e)),
                Ok(block) => match Termios::decode(block.as_slice()) {
                    Some(termios) => {
                        t.termios = termios;
                        Ok(0)
                    },
                    None => {
                        assert(false);
                        Err(Fault::Errno(Errno::INVAL))
                    },
                },
            },
            TIOCGPGRP => match put_u32(mem, argument, word(group)) {
                Ok(()) => Ok(0),
                Err(e) => Err(Fault::Errno(e)),
            },
            TIOCSPGRP | TIOCSWINSZ | TIOCSCTTY | TIOCNOTTY => Ok(0),
            _ => Err(Fault::Errno(Errno::NOTTY)),
        },
    }
}

fn readable_now<F>(sh: &Shared<F>, kind: &DescKind<F>) -> (r: usize)
    ensures
        r == available(sh@, kind@),
{
    match kind {
        DescKind::PipeRead(k) => match sh.pipes.get(*k) {
            Some(pipe) => pipe.data.len(),
            None => 0,
        },
        DescKind::Stdin => sh.stdin.data.len(),
        DescKind::Memory { data, pos } => if *pos < data.len() {
            data.len() - *pos
        } else {
            0
        },
        _ => 0,
    }
}

pub fn sys_ioctl<F>(
    sh: &mut Shared<F>,
    ctx: &mut Ctx,
    mem: &mut [u8],
    fd: i32,
    request: u32,
    argument: u32,
) -> (r: Sys)
    requires
        old(sh)@.wf(),
    ensures
        final(sh)@.wf(),
        ioctl_spec(old(sh)@, old(ctx)@, old(mem)@, fd, request, argument) == (
            final(sh)@,
            final(ctx)@,
            final(mem)@,
            r,
        ),
{
    let entry = match ctx.task.fds.get(fd) {
        Ok(entry) => entry,
        Err(e) => return Err(Fault::Errno(e)),
    };
    match request {
        FIOCLEX | FIONCLEX => {
            return match ctx.task.fds.set_cloexec(fd, request == FIOCLEX) {
                Ok(()) => Ok(0),
                Err(e) => Err(Fault::Errno(e)),
            };
        },
        FIONBIO => {
            let value: u32 = match read_u32(mem, argument) {
                Ok(value) => value,
                Err(e) => return Err(Fault::Errno(e)),
            };
            return match sh.descs.get_mut(entry.desc) {
                None => Err(Fault::Errno(Errno::BADF)),
                Some(desc) => {
                    desc.flags = if value != 0 {
                        desc.flags | O_NONBLOCK
                    } else {
                        desc.flags & !O_NONBLOCK
                    };
                    Ok(0)
                },
            };
        },
        FIONREAD => {
            let n: usize = match sh.descs.get(entry.desc) {
                None => return Err(Fault::Errno(Errno::BADF)),
                Some(desc) => readable_now(sh, &desc.kind),
            };
            return match put_u32(mem, argument, (n as u64 % 0x1_0000_0000) as u32) {
                Ok(()) => Ok(0),
                Err(e) => Err(Fault::Errno(e)),
            };
        },
        _ => {},
    }
    match sh.descs.get(entry.desc) {
        None => return Err(Fault::Errno(Errno::BADF)),
        Some(desc) => {
            if !desc.is_tty(sh.terminal.is_some()) {
                return Err(Fault::Errno(Errno::NOTTY));
            }
        },
    }
    ioctl_terminal(sh, ctx, mem, request, argument)
}

} // verus!
