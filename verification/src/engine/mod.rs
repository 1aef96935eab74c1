//! What the kernel has to know of whatever runs a guest program.
//!
//! A guest program is a `wasm32-linux` module instrumented with Binaryen's Asyncify pass. The
//! engine that executes it is the embedder's: it enters a program, hands every import call to
//! [`imports`](crate::kernel::imports), and does what the answer says. How such a call can end
//! and why a program cannot be loaded is said here.
pub mod interp;
use crate::errno::Errno;
use crate::text::{contains_text, decimal, holds_text, push_decimal};
use vstd::prelude::*;
use vstd::string::*;

verus! {

/// Why a program could not be loaded or instantiated.
#[derive(Clone, PartialEq, Eq, Debug)]
pub enum LoadError {
    /// No program of that name is available in this build.
    NotFound(String),
    /// The bytes are not a wasm module, or not one this build can run.
    NotWasm,
    /// The module is missing something the ABI requires, named here.
    MissingExport(String),
    /// The module declares an incompatible guest ABI version.
    AbiMismatch {
        /// What the module was built for.
        found: u32,
        /// What this build of wasmux speaks.
        expected: u32,
    },
    /// The engine refused it, with its own words.
    Engine(String),
    /// Instantiating it would exceed the sandbox's memory limit.
    OutOfMemory,
}

impl LoadError {
    /// What the guest's `execve` should report.
    pub fn errno(&self) -> (r: Errno)
        ensures
            r == match *self {
                LoadError::NotFound(_) => Errno::NOENT,
                LoadError::OutOfMemory => Errno::NOMEM,
                _ => Errno::NOEXEC,
            },
    {
        match self {
            LoadError::NotFound(_) => Errno::NOENT,
            LoadError::OutOfMemory => Errno::NOMEM,
            _ => Errno::NOEXEC,
        }
    }

    /// The error in words.
    pub open spec fn text(self) -> Seq<char> {
        match self {
            LoadError::NotFound(name) => "no such program: "@ + name@,
            LoadError::NotWasm => "not a wasm module"@,
            LoadError::MissingExport(name) => "module does not export "@ + name@,
            LoadError::AbiMismatch { found, expected } => "guest ABI "@ + decimal(found as nat)
                + " is not the "@ + decimal(expected as nat) + " this build speaks"@,
            LoadError::Engine(message) => message@,
            LoadError::OutOfMemory => "out of memory"@,
        }
    }

    /// The error in words.
    pub fn message(&self) -> (r: String)
        ensures
            r@ == self.text(),
    {
        match self {
            LoadError::NotFound(name) => {
                let mut out = "no such program: ".to_owned();
                out.append(name.as_str());
                out
            },
            LoadError::NotWasm => "not a wasm module".to_owned(),
            LoadError::MissingExport(name) => {
                let mut out = "module does not export ".to_owned();
                out.append(name.as_str());
                out
            },
            LoadError::AbiMismatch { found, expected } => {
                let mut out = "guest ABI ".to_owned();
                push_decimal(&mut out, *found as u64);
                out.append(" is not the ");
                push_decimal(&mut out, *expected as u64);
                out.append(" this build speaks");
                out
            },
            LoadError::Engine(message) => message.clone(),
            LoadError::OutOfMemory => "out of memory".to_owned(),
        }
    }
}

/// How a call into the guest ended.
#[derive(Clone, Copy, PartialEq, Eq, Debug, Structural)]
pub enum Exit {
    /// `_start` returned. Either the program is finished or an import unwound its stack; the
    /// kernel tells them apart by what the import recorded.
    Returned,
    /// The guest trapped: out of bounds, `unreachable`, bad indirect call, depth fuse. The
    /// process is dead; nothing else is affected.
    Trap(TrapKind),
}

/// Why a guest trapped, in the terms a wait status can carry.
#[derive(Clone, Copy, PartialEq, Eq, Debug, Structural)]
pub enum TrapKind {
    /// Memory access outside the guest's own linear memory.
    OutOfBounds,
    /// Call depth past the fuse, which exists so that this is a process death rather than a
    /// stack overflow of the whole component.
    Exhaustion,
    /// `unreachable`, a failed assertion, an unrepresentable conversion, division by zero.
    Fault,
}

impl TrapKind {
    pub open spec fn text(self) -> Seq<char> {
        match self {
            TrapKind::OutOfBounds => "out of bounds memory access"@,
            TrapKind::Exhaustion => "call stack exhausted"@,
            TrapKind::Fault => "illegal instruction"@,
        }
    }

    pub fn as_str(self) -> (r: &'static str)
        ensures
            r@ == self.text(),
    {
        match self {
            TrapKind::OutOfBounds => "out of bounds memory access",
            TrapKind::Exhaustion => "call stack exhausted",
            TrapKind::Fault => "illegal instruction",
        }
    }
}

impl TrapKind {
    /// The kind of trap an engine's words stand for.
    pub open spec fn of_words(words: Seq<char>) -> TrapKind {
        if holds_text(words, "out of bounds"@) {
            TrapKind::OutOfBounds
        } else if holds_text(words, "call stack exhausted"@) || holds_text(
            words,
            "stack overflow"@,
        ) {
            TrapKind::Exhaustion
        } else {
            TrapKind::Fault
        }
    }

    /// The kind of trap a compiled-in runtime reports: its code, zero where the call returned
    /// normally, and the class it puts that code in.
    pub open spec fn of_class(code: i32, class: i32) -> Option<TrapKind> {
        if code == 0 || class == 0 {
            None
        } else if class == 1 {
            Some(TrapKind::OutOfBounds)
        } else if class == 2 {
            Some(TrapKind::Exhaustion)
        } else {
            Some(TrapKind::Fault)
        }
    }

    /// Turn a compiled-in runtime's trap into the wait status the guest deserves. `None` when the
    /// call returned normally.
    pub fn trap_kind(code: i32, class: i32) -> (r: Option<TrapKind>)
        ensures
            r == TrapKind::of_class(code, class),
    {
        if code == 0 {
            return None;
        }
        match class {
            0 => None,
            1 => Some(TrapKind::OutOfBounds),
            2 => Some(TrapKind::Exhaustion),
            _ => Some(TrapKind::Fault),
        }
    }

    /// Turn an engine's words into the wait status the guest deserves.
    pub fn classify(words: &str) -> (r: TrapKind)
        ensures
            r == TrapKind::of_words(words@),
    {
        if contains_text(words, "out of bounds") {
            TrapKind::OutOfBounds
        } else if contains_text(words, "call stack exhausted") || contains_text(
            words,
            "stack overflow",
        ) {
            TrapKind::Exhaustion
        } else {
            TrapKind::Fault
        }
    }
}

/// Which of the exports that the guest ABI requires a module has.
#[derive(Clone, Copy, PartialEq, Eq, Debug, Structural)]
pub struct Exports {
    pub memory: bool,
    pub start: bool,
    pub start_unwind: bool,
    pub stop_unwind: bool,
    pub start_rewind: bool,
    pub stop_rewind: bool,
}

impl Exports {
    /// The first export that is missing.
    pub open spec fn missing(self) -> Option<Seq<char>> {
        if !self.memory {
            Some("memory"@)
        } else if !self.start {
            Some("_start"@)
        } else if !self.start_unwind {
            Some("asyncify_start_unwind"@)
        } else if !self.stop_unwind {
            Some("asyncify_stop_unwind"@)
        } else if !self.start_rewind {
            Some("asyncify_start_rewind"@)
        } else if !self.stop_rewind {
            Some("asyncify_stop_rewind"@)
        } else {
            None
        }
    }

    /// Whether a module has everything the ABI requires, and if not, what it lacks.
    pub fn check(self) -> (r: Result<(), LoadError>)
        ensures
            match r {
                Ok(()) => self.missing() is None,
                Err(e) => e matches LoadError::MissingExport(name) && self.missing() == Some(name@),
            },
    {
        let name = if !self.memory {
            "memory"
        } else if !self.start {
            "_start"
        } else if !self.start_unwind {
            "asyncify_start_unwind"
        } else if !self.stop_unwind {
            "asyncify_stop_unwind"
        } else if !self.start_rewind {
            "asyncify_start_rewind"
        } else if !self.stop_rewind {
            "asyncify_stop_rewind"
        } else {
            return Ok(());
        };
        Err(LoadError::MissingExport(name.to_owned()))
    }
}

} // verus!
