//! The interpreter: programs are compiled and run by [wasmi].
//!
//! It needs nothing but Rust, and it can execute a program that was never built into the
//! consumer. A program is loaded here; instantiating and entering it is the embedder's, because
//! a guest may never return.
//!
//! [wasmi]: https://docs.rs/wasmi
use super::LoadError;
use crate::text::{number_of, parse_number};
use vstd::prelude::*;

verus! {

/// wasmi's engine: a configuration and the code compiled under it.
#[verifier::external_type_specification]
#[verifier::external_body]
pub struct ExEngine(wasmi::Engine);

/// A module wasmi has compiled.
#[verifier::external_type_specification]
#[verifier::external_body]
pub struct ExModule(wasmi::Module);

/// Guest call depth the interpreter allows. Chosen to fit a two-megabyte host stack even in an
/// unoptimized build.
pub const DEFAULT_MAX_DEPTH: usize = 2048;

/// The call depth a setting asks for: the number it spells, if an index can hold it, and the
/// default otherwise.
pub open spec fn depth_of(setting: Option<Seq<char>>) -> usize {
    match setting {
        Some(t) => match number_of(t) {
            Some(n) => if n <= usize::MAX {
                n as usize
            } else {
                DEFAULT_MAX_DEPTH
            },
            None => DEFAULT_MAX_DEPTH,
        },
        None => DEFAULT_MAX_DEPTH,
    }
}

/// How deep a guest may recurse before it is stopped with a trap of its own rather than taking
/// the host's stack with it. The interpreter uses host stack per guest frame, so this is a real
/// ceiling; a setting moves it for anyone whose programs legitimately go deeper.
pub fn max_depth(setting: Option<&str>) -> (r: usize)
    ensures
        r == depth_of(
            match setting {
                Some(t) => Some(t@),
                None => None,
            },
        ),
{
    match setting {
        None => DEFAULT_MAX_DEPTH,
        Some(text) => match parse_number(text) {
            None => DEFAULT_MAX_DEPTH,
            Some(n) => if n <= usize::MAX as u64 {
                n as usize
            } else {
                DEFAULT_MAX_DEPTH
            },
        },
    }
}

/// Why wasmi does not compile some bytes, in its own words, or `None` where it does.
pub uninterp spec fn module_refusal(bytes: Seq<u8>) -> Option<Seq<char>>;

/// How deep an engine lets guests recurse: the depth its configuration was given.
pub uninterp spec fn recursion_limit(engine: wasmi::Engine) -> usize;

/// The bytes a module was compiled from.
pub uninterp spec fn module_source(module: wasmi::Module) -> Seq<u8>;

/// `wasmi::Engine::new`, on a default configuration in which only the recursion depth is set. The
/// engine keeps its configuration for as long as it lives, so the depth is the one it was made
/// with; nothing else is claimed of it.
#[verifier::external_body]
fn new_engine(depth: usize) -> (r: wasmi::Engine)
    ensures
        recursion_limit(r) == depth,
{
    let mut config = wasmi::Config::default();
    config.set_max_recursion_depth(depth);
    wasmi::Engine::new(&config)
}

/// `wasmi::Module::new` under an interpreter's engine. Every such engine is configured alike but
/// for the recursion depth, which only limits execution, so whether the bytes are a module, and
/// what wasmi says if not, depends on the bytes alone. The module is the one these bytes
/// describe; what it does when it runs is left unsaid.
#[verifier::external_body]
fn compile(interp: &Interp, bytes: &[u8]) -> (r: Result<wasmi::Module, String>)
    ensures
        match r {
            Ok(m) => module_refusal(bytes@) is None && module_source(m) == bytes@,
            Err(words) => module_refusal(bytes@) == Some(words@),
        },
{
    wasmi::Module::new(&interp.engine, bytes).map_err(|e| e.to_string())
}

/// Compiles programs for the interpreter.
pub struct Interp {
    engine: wasmi::Engine,
}

/// A loaded program, ready to be instantiated as many times as there are processes running it.
pub struct InterpProgram {
    module: wasmi::Module,
}

/// Whether bytes begin the way a module in the binary format does. The text format, which wasmi
/// would take, is none of the guest ABI's.
pub open spec fn has_magic(bytes: Seq<u8>) -> bool {
    bytes.len() >= 4 && bytes[0] == 0 && bytes[1] == 0x61 && bytes[2] == 0x73 && bytes[3] == 0x6d
}

/// Whether loading some bytes fails, and how.
pub open spec fn load_error(bytes: Seq<u8>, e: LoadError) -> bool {
    if !has_magic(bytes) {
        e is NotWasm
    } else {
        e matches LoadError::Engine(words) && module_refusal(bytes) == Some(words@)
    }
}

impl Interp {
    /// The engine this interpreter compiles for.
    pub closed spec fn uses(&self) -> wasmi::Engine {
        self.engine
    }

    /// An interpreter that lets guests recurse this deep.
    pub fn new(depth: usize) -> (r: Interp)
        ensures
            recursion_limit(r.uses()) == depth,
    {
        Interp { engine: new_engine(depth) }
    }

    /// Load a program from a module's bytes. What the program does is between the bytes and
    /// wasmi.
    pub fn load(&self, bytes: &[u8]) -> (r: Result<InterpProgram, LoadError>)
        ensures
            match r {
                Ok(p) => {
                    &&& has_magic(bytes@)
                    &&& module_refusal(bytes@) is None
                    &&& module_source(p.compiled()) == bytes@
                },
                Err(e) => load_error(bytes@, e),
            },
    {
        if bytes.len() < 4 || bytes[0] != 0 || bytes[1] != 0x61 || bytes[2] != 0x73 || bytes[3]
            != 0x6d {
            return Err(LoadError::NotWasm);
        }
        match compile(self, bytes) {
            Ok(module) => Ok(InterpProgram { module }),
            Err(words) => Err(LoadError::Engine(words)),
        }
    }

    /// The engine that instances of this interpreter's programs belong to.
    pub fn engine(&self) -> (r: &wasmi::Engine)
        ensures
            *r == self.uses(),
    {
        &self.engine
    }
}

impl InterpProgram {
    /// The module wasmi compiled.
    pub closed spec fn compiled(&self) -> wasmi::Module {
        self.module
    }

    /// The compiled module.
    pub fn module(&self) -> (r: &wasmi::Module)
        ensures
            *r == self.compiled(),
    {
        &self.module
    }
}

} // verus!
