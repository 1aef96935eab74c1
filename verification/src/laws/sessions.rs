//! What holds of configuring a sandbox, of a session, and of how it ends.
use crate::kernel::mem::Nanos;
use crate::kernel::mounts::{program_among, program_at, MountView};
use crate::kernel::run::Slice;
use crate::kernel::task::{exited, signaled};
use crate::sandbox::{
    bad_mount, built, env_with, env_without, image_regs, is_mount_point, is_taken, is_wanted,
    placements, program_list, reg_among, reg_names, reg_of, untaken, with_commands, with_hosts,
    BuilderView, RegView,
};
use crate::session::{code_in, reported, shell_code_of, signal_in, ProgressView, SessionView};
use crate::text::{in_order, lemma_order_exists, strictly_sorted};
use vstd::prelude::*;

verus! {

// ---------------------------------------------------------------------------------------------
// how a command ended

/// A program that exits is reported with the low eight bits of what it exited with.
pub proof fn law_an_exit_code_reads_back(code: i32)
    ensures
        signal_in(exited(code)) == 0,
        code_in(exited(code)) == code as int % 256,
        shell_code_of(exited(code)) == code as int % 256,
{
    let low = code as int % 256;
    assert(low * 256 % 128 == 0) by (nonlinear_arith);
    assert(low * 256 / 256 == low) by (nonlinear_arith);
}

/// A program that a signal killed is reported as 128 and the signal.
pub proof fn law_a_signal_reads_back(sig: i32)
    requires
        0 < sig < 128,
    ensures
        signal_in(signaled(sig)) == sig,
        shell_code_of(signaled(sig)) == 128 + sig,
{
}

/// What a shell is told lies between 0 and 255, whatever the status.
pub proof fn law_a_shell_code_is_a_byte(status: i32)
    ensures
        0 <= shell_code_of(status) <= 255,
{
}

// ---------------------------------------------------------------------------------------------
// a session that is over

/// A session that has finished stays finished, whatever is reported to it: every later step
/// reports the same output, everything that was written, and nothing runs. What was not taken
/// before the end can be taken after it.
pub proof fn law_finished_is_finished<F>(
    s: SessionView<F>,
    status: i32,
    first: Slice,
    again: Slice,
    elapsed: Nanos,
    later: Nanos,
)
    requires
        s.finished is None ==> first == Slice::Finished(status),
        s.finished matches Some(known) ==> known == status,
    ensures
        ({
            let (s1, p1) = reported(s, first, elapsed);
            let (s2, p2) = reported(s1, again, later);
            &&& p1 == Some(ProgressView::Done(s.output(status)))
            &&& p2 == p1
            &&& s2 == s1
            &&& s1.kernel == s.kernel
        }),
{
}

// ---------------------------------------------------------------------------------------------
// programs

proof fn lemma_with_hosts_len(
    list: Seq<RegView>,
    hosts: Seq<(Seq<char>, Seq<char>)>,
    first_id: int,
    n: int,
)
    requires
        0 <= n <= hosts.len(),
    ensures
        with_hosts(list, hosts, first_id, n).len() == list.len() + n,
    decreases n,
{
    if n > 0 {
        lemma_with_hosts_len(list, hosts, first_id, n - 1);
    }
}

proof fn lemma_reg_among_push(list: Seq<RegView>, r: RegView, name: Seq<char>, n: int)
    requires
        0 <= n <= list.len(),
    ensures
        reg_among(list.push(r), name, n) == reg_among(list, name, n),
    decreases n,
{
    if n > 0 {
        lemma_reg_among_push(list, r, name, n - 1);
    }
}

proof fn lemma_last_host_counts(
    list: Seq<RegView>,
    hosts: Seq<(Seq<char>, Seq<char>)>,
    first_id: int,
    i: int,
    n: int,
)
    requires
        0 <= i < n <= hosts.len(),
        forall|j: int| i < j < n ==> (#[trigger] hosts[j]).0 != hosts[i].0,
    ensures
        reg_of(with_hosts(list, hosts, first_id, n), hosts[i].0) == Some(
            RegView { name: hosts[i].0, path: hosts[i].1, id: (first_id + i) as usize },
        ),
    decreases n,
{
    let rest = with_hosts(list, hosts, first_id, n - 1);
    let last = RegView {
        name: hosts[n - 1].0,
        path: hosts[n - 1].1,
        id: (first_id + n - 1) as usize,
    };
    let all = rest.push(last);
    assert(with_hosts(list, hosts, first_id, n) == all);
    if n - 1 > i {
        assert(hosts[n - 1].0 != hosts[i].0);
        lemma_last_host_counts(list, hosts, first_id, i, n - 1);
        lemma_reg_among_push(rest, last, hosts[i].0, rest.len() as int);
        assert(all[all.len() - 1] == last);
    } else {
        assert(all[all.len() - 1] == last);
    }
}

proof fn lemma_other_names(
    list: Seq<RegView>,
    hosts: Seq<(Seq<char>, Seq<char>)>,
    first_id: int,
    n: int,
    name: Seq<char>,
)
    requires
        0 <= n <= hosts.len(),
        forall|j: int| 0 <= j < n ==> (#[trigger] hosts[j]).0 != name,
    ensures
        reg_of(with_hosts(list, hosts, first_id, n), name) == reg_of(list, name),
    decreases n,
{
    if n > 0 {
        lemma_other_names(list, hosts, first_id, n - 1, name);
        let rest = with_hosts(list, hosts, first_id, n - 1);
        let last = RegView {
            name: hosts[n - 1].0,
            path: hosts[n - 1].1,
            id: (first_id + n - 1) as usize,
        };
        assert(hosts[n - 1].0 != name);
        lemma_reg_among_push(rest, last, name, rest.len() as int);
        assert(rest.push(last)[rest.len() as int] == last);
    }
}

proof fn lemma_with_hosts_at(
    list: Seq<RegView>,
    hosts: Seq<(Seq<char>, Seq<char>)>,
    first_id: int,
    n: int,
    k: int,
)
    requires
        0 <= n <= hosts.len(),
        0 <= k < list.len() + n,
    ensures
        with_hosts(list, hosts, first_id, n).len() == list.len() + n,
        with_hosts(list, hosts, first_id, n)[k] == if k < list.len() {
            list[k]
        } else {
            RegView {
                name: hosts[k - list.len()].0,
                path: hosts[k - list.len()].1,
                id: (first_id + k - list.len()) as usize,
            }
        },
    decreases n,
{
    lemma_with_hosts_len(list, hosts, first_id, n);
    if n > 0 {
        lemma_with_hosts_len(list, hosts, first_id, n - 1);
        if k < list.len() + n - 1 {
            lemma_with_hosts_at(list, hosts, first_id, n - 1, k);
        }
    }
}

proof fn lemma_untaken(
    list: Seq<RegView>,
    hosts: Seq<(Seq<char>, Seq<char>)>,
    n: int,
    name: Seq<char>,
)
    requires
        0 <= n <= list.len(),
    ensures
        forall|k: int|
            0 <= k < untaken(list, hosts, n).len() ==> !is_taken(
                hosts,
                (#[trigger] untaken(list, hosts, n)[k]).name,
            ),
        !is_taken(hosts, name) ==> reg_of(untaken(list, hosts, n), name) == reg_among(
            list,
            name,
            n,
        ),
    decreases n,
{
    if n > 0 {
        lemma_untaken(list, hosts, n - 1, name);
        let rest = untaken(list, hosts, n - 1);
        lemma_reg_among_push(rest, list[n - 1], name, rest.len() as int);
        assert(rest.push(list[n - 1])[rest.len() as int] == list[n - 1]);
    }
}

proof fn lemma_program_placed(list: Seq<RegView>, path: Seq<char>, n: int)
    requires
        0 <= n <= list.len(),
    ensures
        program_among(placements(list), path, n) matches Some(id) ==> exists|k: int|
            0 <= k < n && (#[trigger] list[k]).path == path && list[k].id == id,
    decreases n,
{
    if n > 0 {
        lemma_program_placed(list, path, n - 1);
        assert(placements(list)[n - 1] == (list[n - 1].path, list[n - 1].id));
        if list[n - 1].path == path {
            assert(0 <= n - 1 < n && list[n - 1].path == path);
        }
    }
}

/// A host command overrides whatever an image offers under its name: the last one registered
/// under a name is what the name stands for, and what the image offered is nowhere. Every path
/// at which a program appears is one at which it was registered, and what is registered under
/// the name of a host command is a host command.
pub proof fn law_a_host_command_overrides<S>(
    b: BuilderView<S>,
    layouts: Seq<Seq<(Seq<char>, Seq<char>)>>,
    i: int,
    path: Seq<char>,
)
    requires
        built(b, layouts) is Ok,
        layouts.len() + b.commands.len() <= usize::MAX,
        0 <= i < b.commands.len(),
        forall|j: int| i < j < b.commands.len() ==> (#[trigger] b.commands[j]).0 != b.commands[i].0,
    ensures
        ({
            let s = built(b, layouts)->Ok_0;
            let name = b.commands[i].0;
            &&& reg_of(s.registered, name) == Some(
                RegView { name, path: b.commands[i].1, id: (layouts.len() + i) as usize },
            )
            &&& forall|k: int|
                0 <= k < s.registered.len() && (#[trigger] s.registered[k]).name == name
                    ==> s.registered[k].id >= layouts.len()
            &&& program_at(s.overlay, path) matches Some(id) ==> exists|k: int|
                0 <= k < s.registered.len() && (#[trigger] s.registered[k]).path == path
                    && s.registered[k].id == id
        }),
{
    let n = layouts.len() as int;
    let m = b.commands.len() as int;
    let images = image_regs(layouts, b.programs, n);
    let shipped = untaken(images, b.commands, images.len() as int);
    let list = with_hosts(shipped, b.commands, n, m);
    let name = b.commands[i].0;
    lemma_last_host_counts(shipped, b.commands, n, i, m);
    lemma_untaken(images, b.commands, images.len() as int, name);
    lemma_with_hosts_len(shipped, b.commands, n, m);
    lemma_program_placed(list, path, list.len() as int);
    assert forall|k: int| 0 <= k < list.len() && (#[trigger] list[k]).name == name implies list[k].id
        >= n by {
        lemma_with_hosts_at(shipped, b.commands, n, m, k);
        if k < shipped.len() {
            assert(!is_taken(b.commands, shipped[k].name));
        }
    }
}

/// What no host command and no image offers has no program, and what the images offer stays
/// where no host command takes its name.
pub proof fn law_other_names_are_left<S>(
    b: BuilderView<S>,
    layouts: Seq<Seq<(Seq<char>, Seq<char>)>>,
    name: Seq<char>,
)
    requires
        built(b, layouts) is Ok,
        !is_taken(b.commands, name),
    ensures
        reg_of(built(b, layouts)->Ok_0.registered, name) == reg_of(
            image_regs(layouts, b.programs, layouts.len() as int),
            name,
        ),
{
    let n = layouts.len() as int;
    let m = b.commands.len() as int;
    let images = image_regs(layouts, b.programs, n);
    lemma_untaken(images, b.commands, images.len() as int, name);
    lemma_other_names(
        untaken(images, b.commands, images.len() as int),
        b.commands,
        n,
        m,
        name,
    );
}

pub proof fn lemma_reg_names(list: Seq<RegView>, n: int, name: Seq<char>)
    requires
        0 <= n <= list.len(),
    ensures
        reg_names(list, n).finite(),
        reg_names(list, n).contains(name) == (reg_among(list, name, n) is Some),
    decreases n,
{
    if n > 0 {
        lemma_reg_names(list, n - 1, name);
    }
}

/// The list of programs is in order, each name once, and holds exactly the names that stand for
/// a program.
pub proof fn law_the_program_list_is_sorted_and_complete(list: Seq<RegView>, name: Seq<char>)
    ensures
        ({
            let names = program_list(list).map_values(|p: (Seq<char>, Seq<char>)| p.0);
            &&& strictly_sorted(names)
            &&& names.contains(name) == (reg_of(list, name) is Some)
        }),
{
    let set = reg_names(list, list.len() as int);
    lemma_reg_names(list, list.len() as int, name);
    lemma_order_exists(set);
    let names = program_list(list).map_values(|p: (Seq<char>, Seq<char>)| p.0);
    assert(names =~= in_order(set));
    assert(in_order(set).to_set().contains(name) == in_order(set).contains(name));
}

/// Whether one of some images offers a command.
pub open spec fn is_offered(
    layouts: Seq<Seq<(Seq<char>, Seq<char>)>>,
    name: Seq<char>,
    n: int,
) -> bool {
    exists|i: int, j: int|
        0 <= i < n && 0 <= j < layouts[i].len() && (#[trigger] layouts[i][j]).0 == name
}

proof fn lemma_commands_offered(
    list: Seq<RegView>,
    commands: Seq<(Seq<char>, Seq<char>)>,
    wanted: Option<Seq<Seq<char>>>,
    id: int,
    n: int,
    name: Seq<char>,
)
    requires
        0 <= n <= commands.len(),
    ensures
        ({
            let all = with_commands(list, commands, wanted, id, n);
            reg_of(all, name) is Some ==> reg_of(list, name) is Some || (is_wanted(wanted, name)
                && exists|j: int| 0 <= j < n && (#[trigger] commands[j]).0 == name)
        }),
    decreases n,
{
    if n > 0 {
        lemma_commands_offered(list, commands, wanted, id, n - 1, name);
        let rest = with_commands(list, commands, wanted, id, n - 1);
        let (own, path) = commands[n - 1];
        let last = RegView { name: own, path, id: id as usize };
        lemma_reg_among_push(rest, last, name, rest.len() as int);
        assert(rest.push(last)[rest.len() as int] == last);
        assert(commands[n - 1].0 == own);
    }
}

proof fn lemma_images_offered(
    layouts: Seq<Seq<(Seq<char>, Seq<char>)>>,
    wanted: Option<Seq<Seq<char>>>,
    n: int,
    name: Seq<char>,
)
    requires
        0 <= n <= layouts.len(),
    ensures
        reg_of(image_regs(layouts, wanted, n), name) is Some ==> is_wanted(wanted, name)
            && is_offered(layouts, name, n),
    decreases n,
{
    if n > 0 {
        lemma_images_offered(layouts, wanted, n - 1, name);
        let rest = image_regs(layouts, wanted, n - 1);
        let last = layouts[n - 1];
        lemma_commands_offered(rest, last, wanted, n - 1, last.len() as int, name);
        if reg_of(image_regs(layouts, wanted, n), name) is Some && reg_of(rest, name) is None {
            let j = choose|j: int| 0 <= j < last.len() && (#[trigger] last[j]).0 == name;
            assert(layouts[n - 1][j].0 == name);
        }
    }
}

/// What can run is what was offered: a name that no host command takes stands for a program only
/// where an image offers it and it was not left out. So a sandbox has no networking tool, or any
/// other, that its images do not have and its embedder did not register.
pub proof fn law_only_what_is_offered_can_run<S>(
    b: BuilderView<S>,
    layouts: Seq<Seq<(Seq<char>, Seq<char>)>>,
    name: Seq<char>,
)
    requires
        built(b, layouts) is Ok,
        !is_taken(b.commands, name),
        !(is_wanted(b.programs, name) && is_offered(layouts, name, layouts.len() as int)),
    ensures
        ({
            let list = built(b, layouts)->Ok_0.registered;
            &&& reg_of(list, name) is None
            &&& !program_list(list).map_values(|p: (Seq<char>, Seq<char>)| p.0).contains(name)
        }),
{
    law_other_names_are_left(b, layouts, name);
    lemma_images_offered(layouts, b.programs, layouts.len() as int, name);
    law_the_program_list_is_sorted_and_complete(built(b, layouts)->Ok_0.registered, name);
}

// ---------------------------------------------------------------------------------------------
// the environment

proof fn lemma_env_without(env: Seq<(Seq<char>, Seq<char>)>, key: Seq<char>)
    ensures
        forall|i: int|
            0 <= i < env_without(env, key).len() ==> (#[trigger] env_without(env, key)[i]).0 != key,
        forall|e: (Seq<char>, Seq<char>)|
            e.0 != key ==> (#[trigger] env_without(env, key).contains(e) <==> env.contains(e)),
    decreases env.len(),
{
    if env.len() > 0 {
        let less = env.drop_last();
        lemma_env_without(less, key);
        let rest = env_without(less, key);
        assert forall|e: (Seq<char>, Seq<char>)| e.0 != key implies (#[trigger] env_without(
            env,
            key,
        ).contains(e) <==> env.contains(e)) by {
            assert(env =~= less.push(env.last()));
            if env.contains(e) {
                let i = choose|i: int| 0 <= i < env.len() && env[i] == e;
                if i < less.len() {
                    assert(less[i] == e);
                    assert(rest.contains(e));
                    let j = choose|j: int| 0 <= j < rest.len() && rest[j] == e;
                    assert(env_without(env, key)[j] == e);
                } else {
                    assert(env.last() == e);
                    assert(env_without(env, key)[rest.len() as int] == e);
                }
            }
            if env_without(env, key).contains(e) {
                let j = choose|j: int|
                    0 <= j < env_without(env, key).len() && env_without(env, key)[j] == e;
                if j < rest.len() {
                    assert(rest[j] == e);
                    assert(rest.contains(e));
                    assert(less.contains(e));
                    let i = choose|i: int| 0 <= i < less.len() && less[i] == e;
                    assert(env[i] == e);
                } else {
                    assert(env[env.len() - 1] == e);
                }
            }
        }
    }
}

/// A variable that was set is there once, with its value, and every other variable is as it
/// was.
pub proof fn law_a_variable_is_set_once(
    env: Seq<(Seq<char>, Seq<char>)>,
    key: Seq<char>,
    value: Seq<char>,
    other: (Seq<char>, Seq<char>),
)
    requires
        other.0 != key,
    ensures
        ({
            let after = env_with(env, key, value);
            &&& after.last() == (key, value)
            &&& forall|i: int| 0 <= i < after.len() - 1 ==> (#[trigger] after[i]).0 != key
            &&& after.contains(other) <==> env.contains(other)
        }),
{
    lemma_env_without(env, key);
    let rest = env_without(env, key);
    let after = env_with(env, key, value);
    assert(rest.contains(other) <==> env.contains(other));
    if after.contains(other) {
        let i = choose|i: int| 0 <= i < after.len() && after[i] == other;
        assert(i < rest.len());
        assert(rest[i] == other);
    }
    if rest.contains(other) {
        let i = choose|i: int| 0 <= i < rest.len() && rest[i] == other;
        assert(after[i] == other);
    }
}

// ---------------------------------------------------------------------------------------------
// building

/// A sandbox that is built has something mounted, every mount point is absolute and normalized,
/// and there is something to run.
pub proof fn law_a_sandbox_is_usable<S>(
    b: BuilderView<S>,
    layouts: Seq<Seq<(Seq<char>, Seq<char>)>>,
)
    requires
        built(b, layouts) is Ok,
    ensures
        ({
            let s = built(b, layouts)->Ok_0;
            &&& s.mounts.len() > 0
            &&& forall|i: int| 0 <= i < s.mounts.len() ==> is_mount_point((#[trigger] s.mounts[i]).at)
            &&& s.programs.len() > 0
        }),
{
    lemma_no_bad_mount(b.mounts, 0);
}

proof fn lemma_no_bad_mount<S>(mounts: Seq<MountView<S>>, i: int)
    requires
        0 <= i,
        bad_mount(mounts, i) is None,
    ensures
        forall|j: int| i <= j < mounts.len() ==> is_mount_point((#[trigger] mounts[j]).at),
    decreases mounts.len() - i,
{
    if i < mounts.len() {
        lemma_no_bad_mount(mounts, i + 1);
    }
}

} // verus!
