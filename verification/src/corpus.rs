//! The behaviour corpus: what a case is, the sandbox it runs in, and how a run is judged.
//!
//! Every case is ordinary POSIX shell, so a failure is a real difference from what the same
//! script does on Linux. Keep each case small enough that a failure names one thing.
use crate::host::HostCommand;
use crate::kernel::mounts::MountView;
use crate::sandbox::{
    built, env_with, layouts_view, quoted, quoted_text, refusal_of, Builder, BuilderView, Error,
    Layout, Refusal, Sandbox, SandboxView,
};
use crate::session::{shell_code_of, Output};
use crate::text::{lossy_text, push_signed, same, signed_decimal, trim_end, trimmed_end};
use crate::vfs::memory::{MemModel, MemVfs};
use vstd::prelude::*;
use vstd::string::*;
use vstd::utf8::encode_utf8;

verus! {

/// One case: a script, the output it must produce, and the status it must end with.
pub struct Case {
    /// What the case is called, for the failure report.
    pub name: &'static str,
    /// The script, run through `sh -c`.
    pub script: &'static str,
    /// Expected stdout, with trailing whitespace trimmed.
    pub stdout: &'static str,
    /// Expected exit status.
    pub status: i32,
}

/// A case that is to end with status zero.
pub fn case(name: &'static str, script: &'static str, stdout: &'static str) -> (r: Case)
    ensures
        r == (Case { name, script, stdout, status: 0 }),
{
    Case { name, script, stdout, status: 0 }
}

/// A case that is to end with the status given.
pub fn failing(
    name: &'static str,
    script: &'static str,
    stdout: &'static str,
    status: i32,
) -> (r: Case)
    ensures
        r == (Case { name, script, stdout, status }),
{
    Case { name, script, stdout, status }
}

// ---------------------------------------------------------------------------------------------
// the sandbox

/// A filesystem with one file.
pub open spec fn one_file(m: MemModel, path: Seq<char>, text: Seq<char>) -> MemModel {
    m.written(path, encode_utf8(text)).0
}

/// The mounts every case expects.
pub open spec fn corpus_mounts() -> Seq<MountView<MemModel>> {
    let data = one_file(
        one_file(MemModel::empty(), "/hello.txt"@, "from the host\n"@),
        "/sub/obj.json"@,
        "{\"name\":\"wasmux\",\"n\":1}"@,
    );
    let readonly = one_file(MemModel::empty(), "/fixed.txt"@, "immutable\n"@);
    let etc = one_file(MemModel::empty(), "/hosts"@, "127.0.0.1 localhost\n"@);
    seq![
        MountView { at: "/"@, state: MemModel::empty(), read_only: false },
        MountView { at: "/tmp"@, state: MemModel::empty(), read_only: false },
        MountView { at: "/data"@, state: data, read_only: false },
        MountView { at: "/etc"@, state: etc, read_only: false },
        MountView { at: "/ro"@, state: readonly, read_only: true },
    ]
}

/// The configuration every case expects.
pub open spec fn corpus_config() -> BuilderView<MemModel> {
    let fresh = BuilderView::<MemModel>::fresh();
    BuilderView {
        mounts: corpus_mounts(),
        env: env_with(fresh.env, "WASMUX_TEST"@, "set-by-the-host"@),
        ..fresh
    }
}

/// A sandbox with the mounts every case expects.
///
/// Rebuilt for each case, so a case passes on its own rather than because of what ran before.
pub fn sandbox<H: HostCommand>(layouts: &Vec<Layout>) -> (r: Result<Sandbox<MemVfs, H>, Error>)
    ensures
        match r {
            Ok(s) => built(corpus_config(), layouts_view(layouts@)) == Ok::<_, Refusal>(s@)
                && s.wf(),
            Err(e) => built(corpus_config(), layouts_view(layouts@)) == Err::<
                SandboxView<MemModel>,
                _,
            >(refusal_of(e)),
        },
{
    let data = MemVfs::new().with_file("/hello.txt", "from the host\n".as_bytes_vec()).with_file(
        "/sub/obj.json",
        "{\"name\":\"wasmux\",\"n\":1}".as_bytes_vec(),
    );
    let readonly = MemVfs::new().with_file("/fixed.txt", "immutable\n".as_bytes_vec());
    let etc = MemVfs::new().with_file("/hosts", "127.0.0.1 localhost\n".as_bytes_vec());
    let builder: Builder<MemVfs, H> = Builder::new();
    let builder = builder.mount("/", MemVfs::new()).mount("/tmp", MemVfs::new()).mount(
        "/data",
        data,
    ).mount("/etc", etc).mount_ro("/ro", readonly).env("WASMUX_TEST", "set-by-the-host");
    assert(builder@.mounts =~= corpus_mounts());
    assert(builder@ =~= corpus_config());
    let _n: usize = layouts.len();
    builder.build(layouts)
}

// ---------------------------------------------------------------------------------------------
// the report

/// What a corpus run found.
pub struct Report {
    /// How many cases matched.
    pub passed: usize,
    /// One entry per case that did not, formatted for a human.
    pub failures: Vec<String>,
}

/// Whether a finished script did what its case says.
pub open spec fn matches_case(c: Case, stdout: Seq<u8>, status: i32) -> bool {
    trimmed_end(lossy_text(stdout)) == c.stdout@ && shell_code_of(status) == c.status
}

/// A case in which the script did something else, for a human.
pub open spec fn mismatch_text(c: Case, stdout: Seq<u8>, stderr: Seq<u8>, status: i32) -> Seq<char> {
    c.name@ + "\n    script:   "@ + c.script@ + "\n    expected: "@ + quoted_text(c.stdout@)
        + " (status "@ + signed_decimal(c.status as int) + ")\n    actual:   "@ + quoted_text(
        trimmed_end(lossy_text(stdout)),
    ) + " (status "@ + signed_decimal(shell_code_of(status)) + ")\n    stderr:   "@ + trimmed_end(
        lossy_text(stderr),
    )
}

/// What there is to say of a finished script, `None` where it did what its case says.
pub fn judge(c: &Case, out: &Output) -> (r: Option<String>)
    ensures
        match r {
            None => matches_case(*c, out@.stdout, out@.status),
            Some(text) => !matches_case(*c, out@.stdout, out@.status) && text@ == mismatch_text(
                *c,
                out@.stdout,
                out@.stderr,
                out@.status,
            ),
        },
{
    let stdout = trim_end(out.stdout_string().as_str());
    let status: i32 = out.status.shell_code();
    if same(stdout.as_str(), c.stdout) && status == c.status {
        return None;
    }
    let mut text = c.name.to_owned();
    text.append("\n    script:   ");
    text.append(c.script);
    text.append("\n    expected: ");
    text.append(quoted(c.stdout).as_str());
    text.append(" (status ");
    push_signed(&mut text, c.status);
    text.append(")\n    actual:   ");
    text.append(quoted(stdout.as_str()).as_str());
    text.append(" (status ");
    push_signed(&mut text, status);
    text.append(")\n    stderr:   ");
    text.append(trim_end(out.stderr_string().as_str()).as_str());
    Some(text)
}

/// A case whose sandbox could not be built.
pub open spec fn sandbox_text(c: Case, e: Error) -> Seq<char> {
    c.name@ + "\n    sandbox: "@ + e.text()
}

/// A case whose script could not be run.
pub open spec fn error_text(c: Case, e: Error) -> Seq<char> {
    c.name@ + "\n    script: "@ + c.script@ + "\n    error:  "@ + e.text()
}

/// What there is to say of a case whose sandbox could not be built.
pub fn no_sandbox(c: &Case, e: &Error) -> (r: String)
    ensures
        r@ == sandbox_text(*c, *e),
{
    let mut text = c.name.to_owned();
    text.append("\n    sandbox: ");
    text.append(e.message().as_str());
    text
}

/// What there is to say of a case whose script could not be run.
pub fn no_run(c: &Case, e: &Error) -> (r: String)
    ensures
        r@ == error_text(*c, *e),
{
    let mut text = c.name.to_owned();
    text.append("\n    script: ");
    text.append(c.script);
    text.append("\n    error:  ");
    text.append(e.message().as_str());
    text
}

impl Report {
    /// Nothing attempted yet.
    pub fn new() -> (r: Report)
        ensures
            r.passed == 0,
            r.failures@ == Seq::<String>::empty(),
    {
        Report { passed: 0, failures: Vec::new() }
    }

    /// Take note of a case: it matched, or this is what there is to say of it.
    pub fn record(&mut self, failure: Option<String>)
        ensures
            match failure {
                None => {
                    &&& final(self).passed == if old(self).passed < usize::MAX {
                        old(self).passed + 1
                    } else {
                        usize::MAX as int
                    }
                    &&& final(self).failures@ == old(self).failures@
                },
                Some(text) => {
                    &&& final(self).passed == old(self).passed
                    &&& final(self).failures@ == old(self).failures@.push(text)
                },
            },
    {
        match failure {
            None => {
                if self.passed < usize::MAX {
                    self.passed = self.passed + 1;
                }
            },
            Some(text) => {
                self.failures.push(text);
            },
        }
    }

    /// Total cases attempted.
    pub fn total(&self) -> (r: usize)
        ensures
            r == if self.passed + self.failures@.len() > usize::MAX {
                usize::MAX as int
            } else {
                self.passed + self.failures@.len()
            },
    {
        let n: usize = self.failures.len();
        if self.passed > usize::MAX - n {
            usize::MAX
        } else {
            self.passed + n
        }
    }

    /// Every case matched.
    pub fn is_clean(&self) -> (r: bool)
        ensures
            r == (self.failures@.len() == 0),
    {
        self.failures.len() == 0
    }
}

} // verus!
