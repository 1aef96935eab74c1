//! The terminal a session may be given, and the `termios` the guest sees.
//!
//! A sandbox has no terminal unless the embedder says otherwise, and most embedders never
//! should: an agent's standard streams are buffers, and a program told it has a terminal starts
//! behaving like it.
//!
//! When there *is* a terminal, the state here is the authority and the embedder follows it.
//! The guest asks for raw mode by clearing `ICANON` with `TCSETS`; the host reads that back
//! through [`Session::terminal_raw`](crate::session::Session::terminal_raw) and puts its own
//! terminal into raw mode to match.
use crate::abi::{
    B38400, CREAD, CS8, ECHO, ECHOE, ECHOK, ICANON, ICRNL, IEXTEN, ISIG, IXON, NCCS_KERNEL, ONLCR,
    OPOST, VEOF, VERASE, VINTR, VKILL, VMIN, VQUIT, VSUSP, VWERASE,
};
use crate::kernel::mem::{bytes, bytes32, le32, lemma_word_round_trip, read_u32, word_at};
use vstd::prelude::*;

verus! {

/// `struct termios` as the Linux `asm-generic` ABI lays it out: four flag words, the line
/// discipline, and the control characters.
pub const TERMIOS_BYTES: usize = 17 + NCCS_KERNEL;

/// The terminal settings a guest can read and change.
pub struct Termios {
    pub iflag: u32,
    pub oflag: u32,
    pub cflag: u32,
    pub lflag: u32,
    pub line: u8,
    pub cc: Vec<u8>,
}

/// The content of a [`Termios`].
#[verifier::ext_equal]
pub struct TermiosView {
    pub iflag: u32,
    pub oflag: u32,
    pub cflag: u32,
    pub lflag: u32,
    pub line: u8,
    pub cc: Seq<u8>,
}

impl View for Termios {
    type V = TermiosView;

    open spec fn view(&self) -> TermiosView {
        TermiosView {
            iflag: self.iflag,
            oflag: self.oflag,
            cflag: self.cflag,
            lflag: self.lflag,
            line: self.line,
            cc: self.cc@,
        }
    }
}

/// The control characters of a fresh terminal.
pub open spec fn cooked_cc() -> Seq<u8> {
    Seq::new(
        NCCS_KERNEL as nat,
        |i: int|
            if i == VINTR {
                0x03u8
            } else if i == VQUIT {
                0x1c
            } else if i == VERASE {
                0x7f
            } else if i == VKILL {
                0x15
            } else if i == VEOF {
                0x04
            } else if i == VMIN {
                1
            } else if i == VSUSP {
                0x1a
            } else if i == VWERASE {
                0x17
            } else {
                0
            },
    )
}

impl TermiosView {
    /// There is a control character for every index the kernel knows.
    pub open spec fn wf(self) -> bool {
        self.cc.len() == NCCS_KERNEL
    }

    /// What a terminal looks like before anything has touched it.
    pub open spec fn cooked() -> TermiosView {
        TermiosView {
            iflag: ICRNL | IXON,
            oflag: OPOST | ONLCR,
            cflag: B38400 | CS8 | CREAD,
            lflag: ISIG | ICANON | ECHO | ECHOE | ECHOK | IEXTEN,
            line: 0,
            cc: cooked_cc(),
        }
    }

    pub open spec fn is_raw(self) -> bool {
        self.lflag & ICANON == 0
    }

    pub open spec fn wants_signals(self) -> bool {
        self.lflag & ISIG != 0
    }

    /// The bytes of the guest's `struct termios`.
    pub open spec fn encoded(self) -> Seq<u8> {
        le32(self.iflag) + le32(self.oflag) + le32(self.cflag) + le32(self.lflag) + seq![self.line]
            + self.cc
    }

    /// The settings a guest's `struct termios` stands for.
    pub open spec fn decoded(b: Seq<u8>) -> TermiosView {
        TermiosView {
            iflag: word_at(b, 0),
            oflag: word_at(b, 4),
            cflag: word_at(b, 8),
            lflag: word_at(b, 12),
            line: b[16],
            cc: b.subrange(17, TERMIOS_BYTES as int),
        }
    }
}

impl Termios {
    /// What a terminal looks like before anything has touched it: canonical mode, echo on,
    /// signals on. The same settings a login shell inherits on Linux.
    pub fn cooked() -> (r: Termios)
        ensures
            r@ == TermiosView::cooked(),
            r@.wf(),
            !r@.is_raw(),
            r@.wants_signals(),
    {
        let mut cc: Vec<u8> = vec![0u8; NCCS_KERNEL];
        cc[VINTR] = 0x03;  // ^C
        cc[VQUIT] = 0x1c;  // ^\
        cc[VERASE] = 0x7f;  // del
        cc[VKILL] = 0x15;  // ^U
        cc[VEOF] = 0x04;  // ^D
        cc[VMIN] = 1;
        cc[VSUSP] = 0x1a;  // ^Z
        cc[VWERASE] = 0x17;  // ^W
        assert(cc@ =~= cooked_cc());
        proof {
            assert((1u32 | 2u32 | 8u32 | 0x10u32 | 0x20u32 | 0x8000u32) & 2u32 != 0) by (bit_vector);
            assert((1u32 | 2u32 | 8u32 | 0x10u32 | 0x20u32 | 0x8000u32) & 1u32 != 0) by (bit_vector);
        }
        Termios {
            iflag: ICRNL | IXON,
            oflag: OPOST | ONLCR,
            cflag: B38400 | CS8 | CREAD,
            lflag: ISIG | ICANON | ECHO | ECHOE | ECHOK | IEXTEN,
            line: 0,
            cc,
        }
    }

    /// Whether the guest has taken over line editing.
    ///
    /// `ICANON` is the one that decides it: with canonical mode off the guest wants a keystroke
    /// at a time and does its own echoing and erasing. The host has to match, or both ends
    /// echo.
    pub fn raw(&self) -> (r: bool)
        ensures
            r == self@.is_raw(),
    {
        self.lflag & ICANON == 0
    }

    /// Whether the guest wants Ctrl-C and friends to raise signals rather than arrive as bytes.
    pub fn signals(&self) -> (r: bool)
        ensures
            r == self@.wants_signals(),
    {
        self.lflag & ISIG != 0
    }

    /// The bytes of the guest's `struct termios`.
    pub fn encode(&self) -> (r: Vec<u8>)
        ensures
            r@ == self@.encoded(),
            self@.wf() ==> r@.len() == TERMIOS_BYTES,
    {
        let mut out = bytes32(self.iflag);
        let mut next = bytes32(self.oflag);
        out.append(&mut next);
        let mut next = bytes32(self.cflag);
        out.append(&mut next);
        let mut next = bytes32(self.lflag);
        out.append(&mut next);
        out.push(self.line);
        out.extend_from_slice(self.cc.as_slice());
        assert(out@ =~= self@.encoded());
        out
    }

    /// Read what the guest wrote. A short buffer is refused rather than read past.
    pub fn decode(b: &[u8]) -> (r: Option<Termios>)
        ensures
            match r {
                Some(t) => b@.len() >= TERMIOS_BYTES && t@ == TermiosView::decoded(b@) && t@.wf(),
                None => b@.len() < TERMIOS_BYTES,
            },
    {
        if b.len() < TERMIOS_BYTES {
            return None;
        }
        match (read_u32(b, 0), read_u32(b, 4), read_u32(b, 8), read_u32(b, 12), bytes(b, 17, 19)) {
            (Ok(iflag), Ok(oflag), Ok(cflag), Ok(lflag), Ok(cc)) => {
                Some(Termios { iflag, oflag, cflag, lflag, line: b[16], cc })
            },
            _ => None,
        }
    }
}

/// The terminal a session was given: its size, and how it is currently set.
pub struct Terminal {
    pub cols: u16,
    pub rows: u16,
    pub termios: Termios,
}

/// The content of a [`Terminal`].
#[verifier::ext_equal]
pub struct TerminalView {
    pub cols: u16,
    pub rows: u16,
    pub termios: TermiosView,
}

impl View for Terminal {
    type V = TerminalView;

    open spec fn view(&self) -> TerminalView {
        TerminalView { cols: self.cols, rows: self.rows, termios: self.termios@ }
    }
}

impl Terminal {
    pub fn new(cols: u16, rows: u16) -> (r: Terminal)
        ensures
            r@ == (TerminalView { cols, rows, termios: TermiosView::cooked() }),
            r@.termios.wf(),
    {
        Terminal { cols, rows, termios: Termios::cooked() }
    }
}

/// What the guest reads back is what it wrote: every field survives the trip through the
/// guest's layout.
pub proof fn law_termios_round_trip(t: TermiosView)
    requires
        t.wf(),
    ensures
        t.encoded().len() == TERMIOS_BYTES,
        TermiosView::decoded(t.encoded()) == t,
{
    let b = t.encoded();
    lemma_word_round_trip(t.iflag);
    lemma_word_round_trip(t.oflag);
    lemma_word_round_trip(t.cflag);
    lemma_word_round_trip(t.lflag);
    let i = le32(t.iflag);
    let o = le32(t.oflag);
    let c = le32(t.cflag);
    let l = le32(t.lflag);
    assert(b[0] == i[0] && b[1] == i[1] && b[2] == i[2] && b[3] == i[3]);
    assert(b[4] == o[0] && b[5] == o[1] && b[6] == o[2] && b[7] == o[3]);
    assert(b[8] == c[0] && b[9] == c[1] && b[10] == c[2] && b[11] == c[3]);
    assert(b[12] == l[0] && b[13] == l[1] && b[14] == l[2] && b[15] == l[3]);
    assert(TermiosView::decoded(b) =~= t);
}

} // verus!
