//! Commands the embedder implements in Rust.
//!
//! A guest program is C compiled to `wasm32`. That covers anything whose source you can build,
//! and it is the right answer whenever it applies. Two kinds of command it does not cover:
//! anything that needs a capability wasmux does not have, a network most obviously, and
//! anything whose value is a Rust crate. A [`HostCommand`] closes that gap: it appears in the
//! guest's namespace as an ordinary executable.
//!
//! It is a real process. It has a pid, it holds descriptors, it can be the middle of a
//! pipeline, `>` redirects it, `$( )` captures it, `kill` reaches it, and its exit status
//! propagates the way any other program's does. What it does not have is guest memory or the
//! ability to make syscalls: it is a function from an [`Invocation`] to an [`Exit`].
//!
//! Blocking follows the same convention as [`Vfs`](crate::vfs::Vfs): `Err(Errno::AGAIN)` means
//! "started, ask me again", and the retry passes the identical [`Invocation`].
use crate::errno::VfsResult;
use crate::kernel::mem::byte_strings;
use crate::text::{lossy, lossy_text, texts};
use vstd::prelude::*;
use vstd::string::*;
use vstd::utf8::encode_utf8;

verus! {

/// What a [`HostCommand`] was asked to do.
///
/// Everything a program gets at startup, in the form Rust wants it rather than the form the C
/// ABI wants it. Arguments and the environment are bytes because a shell can produce a path
/// that is not UTF-8; [`Invocation::args`] is the convenient view for the common case.
pub struct Invocation {
    /// The full argument vector. `argv[0]` is the name the command was invoked as, so a single
    /// implementation can serve several names.
    pub argv: Vec<Vec<u8>>,
    /// The environment, in `KEY=value` form, as the guest would see it.
    pub envp: Vec<Vec<u8>>,
    /// The working directory, absolute in the guest's namespace.
    pub cwd: String,
    /// Everything the command's standard input produced, already read to end of file.
    ///
    /// Empty unless [`HostCommand::reads_stdin`] returned true, because draining a standard
    /// input nobody is going to write to would hang.
    pub stdin: Vec<u8>,
}

/// The content of an [`Invocation`].
#[verifier::ext_equal]
pub struct InvocationView {
    pub argv: Seq<Seq<u8>>,
    pub envp: Seq<Seq<u8>>,
    pub cwd: Seq<char>,
    pub stdin: Seq<u8>,
}

impl View for Invocation {
    type V = InvocationView;

    open spec fn view(&self) -> InvocationView {
        InvocationView {
            argv: byte_strings(self.argv@),
            envp: byte_strings(self.envp@),
            cwd: self.cwd@,
            stdin: self.stdin@,
        }
    }
}

/// Whether bytes begin with other bytes.
pub open spec fn begins_with(bytes: Seq<u8>, head: Seq<u8>) -> bool {
    head.len() <= bytes.len() && bytes.subrange(0, head.len() as int) == head
}

/// What an environment holds under a key, from its `i`th entry on: what follows the first
/// `KEY=`.
pub open spec fn env_from(envp: Seq<Seq<u8>>, prefix: Seq<u8>, i: int) -> Option<Seq<u8>>
    decreases envp.len() - i,
{
    if i >= envp.len() {
        None
    } else if begins_with(envp[i], prefix) {
        Some(envp[i].subrange(prefix.len() as int, envp[i].len() as int))
    } else {
        env_from(envp, prefix, i + 1)
    }
}

/// The bytes an environment entry of this key begins with.
pub open spec fn env_prefix(key: Seq<char>) -> Seq<u8> {
    encode_utf8(key).push(61)
}

impl Invocation {
    /// The arguments as text, lossily, which is what an option parser wants.
    pub fn args(&self) -> (r: Vec<String>)
        ensures
            texts(r@) == self@.argv.map_values(|a: Seq<u8>| lossy_text(a)),
    {
        let ghost all = self@.argv.map_values(|a: Seq<u8>| lossy_text(a));
        let mut out: Vec<String> = Vec::new();
        let mut i: usize = 0;
        assert(texts(out@) =~= all.subrange(0, 0));
        while i < self.argv.len()
            invariant
                i <= self.argv@.len(),
                all == self@.argv.map_values(|a: Seq<u8>| lossy_text(a)),
                texts(out@) == all.subrange(0, i as int),
            decreases self.argv@.len() - i,
        {
            let ghost before = texts(out@);
            let text = lossy(self.argv[i].as_slice());
            let ghost t = text@;
            out.push(text);
            assert(all[i as int] == t);
            assert(texts(out@) =~= before.push(t));
            i = i + 1;
            assert(texts(out@) =~= all.subrange(0, i as int));
        }
        assert(all.subrange(0, i as int) =~= all);
        out
    }

    /// The name the command was invoked as, from `argv[0]`.
    pub fn name(&self) -> (r: String)
        ensures
            r@ == if self@.argv.len() > 0 {
                lossy_text(self@.argv[0])
            } else {
                Seq::empty()
            },
    {
        if self.argv.len() > 0 {
            lossy(self.argv[0].as_slice())
        } else {
            String::new()
        }
    }

    /// Look up one environment variable.
    pub fn env(&self, key: &str) -> (r: Option<String>)
        ensures
            match r {
                Some(value) => env_from(self@.envp, env_prefix(key@), 0) matches Some(v)
                    && value@ == lossy_text(v),
                None => env_from(self@.envp, env_prefix(key@), 0) is None,
            },
    {
        let mut prefix = key.as_bytes_vec();
        prefix.push(61);
        assert(prefix@ =~= env_prefix(key@));
        let mut i: usize = 0;
        while i < self.envp.len()
            invariant
                i <= self.envp@.len(),
                prefix@ == env_prefix(key@),
                env_from(self@.envp, prefix@, 0) == env_from(self@.envp, prefix@, i as int),
            decreases self.envp@.len() - i,
        {
            let entry = &self.envp[i];
            assert(self@.envp[i as int] == entry@);
            if starts_with(entry, &prefix) {
                let value = bytes_after(entry, prefix.len());
                return Some(lossy(value.as_slice()));
            }
            i = i + 1;
        }
        None
    }
}

fn starts_with(bytes: &Vec<u8>, head: &Vec<u8>) -> (r: bool)
    ensures
        r == begins_with(bytes@, head@),
{
    if head.len() > bytes.len() {
        return false;
    }
    let mut i: usize = 0;
    while i < head.len()
        invariant
            i <= head@.len() <= bytes@.len(),
            forall|j: int| 0 <= j < i ==> bytes@[j] == head@[j],
        decreases head@.len() - i,
    {
        if bytes[i] != head[i] {
            assert(bytes@.subrange(0, head@.len() as int)[i as int] != head@[i as int]);
            return false;
        }
        i = i + 1;
    }
    assert(bytes@.subrange(0, head@.len() as int) =~= head@);
    true
}

fn bytes_after(bytes: &Vec<u8>, from: usize) -> (r: Vec<u8>)
    requires
        from <= bytes@.len(),
    ensures
        r@ == bytes@.subrange(from as int, bytes@.len() as int),
{
    let mut out: Vec<u8> = Vec::new();
    let mut i: usize = from;
    while i < bytes.len()
        invariant
            from <= i <= bytes@.len(),
            out@ == bytes@.subrange(from as int, i as int),
        decreases bytes@.len() - i,
    {
        out.push(bytes[i]);
        i = i + 1;
        assert(out@ =~= bytes@.subrange(from as int, i as int));
    }
    out
}

/// How a [`HostCommand`] finished.
#[derive(Debug, Clone)]
pub struct Exit {
    /// The exit status, 0 to 255, as `$?` will report it.
    pub status: i32,
    /// Bytes for standard output.
    pub stdout: Vec<u8>,
    /// Bytes for standard error.
    pub stderr: Vec<u8>,
}

impl Default for Exit {
    fn default() -> (r: Exit)
        ensures
            r.status == 0,
            r.stdout@ == Seq::<u8>::empty(),
            r.stderr@ == Seq::<u8>::empty(),
    {
        Exit { status: 0, stdout: Vec::new(), stderr: Vec::new() }
    }
}

impl Exit {
    /// Success, with this on standard output.
    pub fn from_stdout(bytes: Vec<u8>) -> (r: Exit)
        ensures
            r.status == 0,
            r.stdout == bytes,
            r.stderr@ == Seq::<u8>::empty(),
    {
        Exit { status: 0, stdout: bytes, stderr: Vec::new() }
    }

    /// A failure, with this on standard error. Conventionally status 1.
    pub fn failed(status: i32, message: Vec<u8>) -> (r: Exit)
        ensures
            r.status == status,
            r.stdout@ == Seq::<u8>::empty(),
            r.stderr == message,
    {
        Exit { status, stdout: Vec::new(), stderr: message }
    }
}

/// A command implemented in Rust rather than compiled to wasm.
///
/// See the [module documentation](self) for when to reach for this and what it costs.
pub trait HostCommand {
    /// Do the work.
    ///
    /// Return `Err(Errno::AGAIN)` to suspend and be asked again with the same [`Invocation`];
    /// report a problem *the command* had as a non-zero [`Exit`] with a message on standard
    /// error, the way a program does.
    fn run(&mut self, call: &Invocation) -> VfsResult<Exit>;

    /// Whether this invocation reads standard input.
    ///
    /// False by default, and the default is the important case: a command that does not read
    /// standard input must not have it drained, or it would sit waiting, as the first stage of
    /// a pipeline, for a standard input nothing is going to close. It takes the arguments
    /// because for real tools the answer depends on them.
    fn reads_stdin(&self, argv: &Vec<Vec<u8>>) -> bool {
        false
    }
}

} // verus!
