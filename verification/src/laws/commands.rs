//! Commands: how they are asked for, what they start with, and what is told of their end.
use crate::cli::{asked_for, command_of, equals_at, limits_of, parted, OptionsView};
use crate::host::{begins_with, env_from, env_prefix};
use crate::kernel::mem::Nanos;
use crate::kernel::run::{Idle, Slice};
use crate::sandbox::{
    program_named, reg_among, reg_at_path, reg_names, reg_of, RegView, SandboxView,
};
use crate::session::{
    code_in, reported, shell_code_of, signal_in, spawned, status_text, CommandView, ProgressView,
    SessionView, Wait,
};
use crate::text::{decimal, digit, in_order, lemma_order_exists, number_of, value_upto};
use vstd::prelude::*;
use vstd::utf8::encode_utf8;

verus! {

// ---------------------------------------------------------------------------------------------
// the end

/// A program that ended with a code is told by its code, and one that a signal ended by 128 and
/// the signal's number.
pub proof fn law_a_shell_tells_how_a_program_ended(code: int, signal: int)
    requires
        0 <= code < 256,
        0 < signal < 127,
    ensures
        shell_code_of((256 * code) as i32) == code,
        signal_in((256 * code) as i32) == 0,
        code_in((256 * code) as i32) == code,
        shell_code_of(signal as i32) == 128 + signal,
        signal_in(signal as i32) == signal,
{
}

/// And in words: by its code, or by the signal that ended it.
pub proof fn law_a_status_is_told_in_words(code: int, signal: int)
    requires
        0 <= code < 256,
        0 < signal < 127,
    ensures
        status_text((256 * code) as i32) == "exit status "@ + decimal(code as nat),
        status_text(signal as i32) == "killed by signal "@ + decimal(signal as nat),
{
}

/// A session whose programs all sleep says how long there is to wait: as long as it takes from
/// now to the moment the first is to wake, and no time where that has passed.
pub proof fn law_a_session_says_how_long_to_wait<F>(
    s: SessionView<F>,
    when: Nanos,
    now: Nanos,
)
    requires
        s.finished is None,
    ensures
        ({
            let (after, p) = reported(s, Slice::Idle(Idle::Until(when)), now);
            &&& after == s
            &&& p matches Some(ProgressView::Waiting(Wait::Until(left)))
            &&& now <= when ==> now + left == when
            &&& now > when ==> left == 0
        }),
{
}

// ---------------------------------------------------------------------------------------------
// the beginning

/// A command starts with its own name and its arguments, in order, and with a variable for each
/// of its environment, in order, its name and its value joined by an equals sign; in its
/// directory, with its input. It starts exactly when there is a program of its name, and room
/// for its streams.
pub proof fn law_a_command_starts_with_what_it_was_given<S, F>(
    c: CommandView,
    s: SandboxView<S>,
    i: int,
)
    ensures
        program_named(s.registered, c.program) is None ==> spawned::<S, F>(c, s) is Err,
        spawned::<S, F>(c, s) matches Ok((k, first)) ==> {
            &&& first.argv.len() == 1 + c.args.len()
            &&& first.argv[0] == encode_utf8(c.program)
            &&& 0 <= i < c.args.len() ==> first.argv[1 + i] == encode_utf8(c.args[i])
            &&& first.envp.len() == c.env.len()
            &&& 0 <= i < c.env.len() ==> first.envp[i] == encode_utf8(
                c.env[i].0 + "="@ + c.env[i].1,
            )
            &&& first.task.cwd == c.cwd
            &&& first.exe == program_named(s.registered, c.program)->0.path
            &&& first.program == program_named(s.registered, c.program)->0.id
            &&& k.shared.stdin.data == c.stdin
            &&& k.shared.stdin.closed == c.stdin_closed
            &&& k.shared.limits == s.limits
            &&& (k.shared.terminal is Some) == (c.terminal is Some)
            &&& c.terminal matches Some((cols, rows)) ==> k.shared.terminal->0.cols == cols
                && k.shared.terminal->0.rows == rows
            &&& k.exit_status is None
            &&& k.procs.len() == 0
        },
{
}

// ---------------------------------------------------------------------------------------------
// variables

/// A variable is found by its name: the first entry that is the name, an equals sign and a
/// value gives the value, whatever entries of other names stand before it.
pub proof fn law_a_variable_is_found_by_its_name(
    envp: Seq<Seq<u8>>,
    key: Seq<char>,
    value: Seq<u8>,
    i: int,
    from: int,
)
    requires
        0 <= from <= i < envp.len(),
        envp[i] == encode_utf8(key) + seq![61u8] + value,
        forall|j: int|
            from <= j < i ==> !((#[trigger] envp[j]).len() > encode_utf8(key).len()
                && envp[j].subrange(0, encode_utf8(key).len() as int) == encode_utf8(key)
                && envp[j][encode_utf8(key).len() as int] == 61),
    ensures
        env_from(envp, env_prefix(key), from) == Some(value),
    decreases i - from,
{
    let name = encode_utf8(key);
    let prefix = env_prefix(key);
    let n = name.len() as int;
    assert(prefix == name.push(61));
    if from < i {
        let e = envp[from];
        if begins_with(e, prefix) {
            assert(e.subrange(0, n + 1)[n] == prefix[n]);
            assert(e.subrange(0, n) =~= e.subrange(0, n + 1).subrange(0, n));
            assert(prefix.subrange(0, n) =~= name);
        }
        law_a_variable_is_found_by_its_name(envp, key, value, i, from + 1);
    } else {
        assert(envp[i].subrange(0, n + 1) =~= prefix);
        assert(envp[i].subrange(n + 1, envp[i].len() as int) =~= value);
    }
}

proof fn lemma_equals(key: Seq<char>, value: Seq<char>, i: int)
    requires
        0 <= i <= key.len(),
        !key.contains('='),
    ensures
        equals_at(key.push('=') + value, i) == key.len(),
    decreases key.len() - i,
{
    let t = key.push('=') + value;
    if i < key.len() {
        assert(key.contains(key[i]));
        assert(t[i] == key[i]);
        lemma_equals(key, value, i + 1);
    } else {
        assert(t[i] == '=');
    }
}

/// A setting comes apart at its first equals sign; without one it is none.
pub proof fn law_a_setting_comes_apart_at_its_equals_sign(key: Seq<char>, value: Seq<char>)
    requires
        !key.contains('='),
    ensures
        parted(key.push('=') + value) == Some((key, value)),
        parted(key) is None,
{
    let t = key.push('=') + value;
    lemma_equals(key, value, 0);
    assert(t.subrange(0, key.len() as int) =~= key);
    assert(t.subrange(key.len() as int + 1, t.len() as int) =~= value);
    lemma_no_equals(key, 0);
}

proof fn lemma_no_equals(key: Seq<char>, i: int)
    requires
        0 <= i <= key.len(),
        !key.contains('='),
    ensures
        equals_at(key, i) == key.len(),
    decreases key.len() - i,
{
    if i < key.len() {
        assert(key.contains(key[i]));
        lemma_no_equals(key, i + 1);
    }
}

// ---------------------------------------------------------------------------------------------
// numbers

proof fn lemma_value_prefix(t: Seq<char>, u: Seq<char>, n: int)
    requires
        0 <= n <= t.len(),
        n <= u.len(),
        forall|i: int| 0 <= i < n ==> #[trigger] t[i] == u[i],
    ensures
        value_upto(t, 0, n) == value_upto(u, 0, n),
    decreases n,
{
    if n > 0 {
        lemma_value_prefix(t, u, n - 1);
    }
}

proof fn lemma_decimal(n: nat)
    ensures
        decimal(n).len() > 0,
        value_upto(decimal(n), 0, decimal(n).len() as int) == Some(n as int),
        '0' <= decimal(n)[0] <= '9',
    decreases n,
{
    if n < 10 {
        assert(decimal(n) == seq![digit(n)]);
        assert(value_upto(decimal(n), 0, 0) == Some(0int));
    } else {
        let front = decimal(n / 10);
        lemma_decimal(n / 10);
        let all = decimal(n);
        assert(all == front.push(digit(n % 10)));
        lemma_value_prefix(all, front, front.len() as int);
    }
}

/// A number that is written out reads as that number.
pub proof fn law_a_number_reads_back(n: u64)
    ensures
        number_of(decimal(n as nat)) == Some(n),
{
    lemma_decimal(n as nat);
}

// ---------------------------------------------------------------------------------------------
// the command line

/// The limits that are asked for on the command line: memory in units of 2^20 bytes, a quarter
/// of it for each process, and a time in seconds.
pub proof fn law_the_limits_are_those_asked_for(o: OptionsView)
    requires
        o.memory_mib < 0x1000_0000_0000,
    ensures
        ({
            let l = limits_of(o);
            &&& l.memory == 1048576 * o.memory_mib
            &&& l.memory_per_process * 4 == l.memory
            &&& l.wall_clock == Some((1_000_000_000 * o.timeout) as u128)
        }),
{
}

/// What stands before the place that is read makes no difference.
proof fn lemma_asked_from(x: Seq<Seq<char>>, args: Seq<Seq<char>>, i: int, o: OptionsView)
    requires
        0 <= i,
    ensures
        asked_for(x + args, x.len() + i, o) == asked_for(args, i, o),
    decreases args.len() - i,
{
    let all = x + args;
    let n = x.len() as int;
    if i < args.len() {
        assert(all[n + i] == args[i]);
        assert(i + 1 < args.len() ==> all[n + i + 1] == args[i + 1]);
        assert(all.subrange(n + i, all.len() as int) =~= args.subrange(i, args.len() as int));
        let next = args[i + 1];
        lemma_asked_from(x, args, i + 1, OptionsView { list: true, ..o });
        lemma_asked_from(x, args, i + 1, OptionsView { stream: true, ..o });
        lemma_asked_from(x, args, i + 1, OptionsView { stats: true, ..o });
        if i + 1 < args.len() {
            lemma_asked_from(x, args, i + 2, OptionsView { dir: Some(next), ..o });
            lemma_asked_from(x, args, i + 2, OptionsView { readonly: Some(next), ..o });
            lemma_asked_from(x, args, i + 2, OptionsView { script: Some(next), ..o });
            if parted(next) is Some {
                lemma_asked_from(
                    x,
                    args,
                    i + 2,
                    OptionsView { env: o.env.push(parted(next)->0), ..o },
                );
            }
            if number_of(next) is Some {
                lemma_asked_from(
                    x,
                    args,
                    i + 2,
                    OptionsView { memory_mib: number_of(next)->0, ..o },
                );
                lemma_asked_from(
                    x,
                    args,
                    i + 2,
                    OptionsView { timeout: number_of(next)->0, ..o },
                );
            }
        }
    }
}

proof fn lemma_options_differ()
    ensures
        "-h"@.len() == 2 && "-d"@.len() == 2 && "-c"@.len() == 2 && "-e"@.len() == 2,
        "-h"@[1] == 'h' && "-d"@[1] == 'd' && "-c"@[1] == 'c' && "-e"@[1] == 'e',
        "--ro"@.len() == 4,
        "--dir"@.len() == 5 && "--env"@.len() == 5,
        "--dir"@[2] == 'd' && "--env"@[2] == 'e',
        "--help"@.len() == 6,
        "--stats"@.len() == 7,
        "--memory"@.len() == 8 && "--stream"@.len() == 8,
        "--memory"@[2] == 'm' && "--stream"@[2] == 's',
        "--timeout"@.len() == 9,
        "--programs"@.len() == 10,
{
    reveal_strlit("-h");
    reveal_strlit("-d");
    reveal_strlit("-c");
    reveal_strlit("-e");
    reveal_strlit("--ro");
    reveal_strlit("--dir");
    reveal_strlit("--env");
    reveal_strlit("--help");
    reveal_strlit("--stats");
    reveal_strlit("--memory");
    reveal_strlit("--stream");
    reveal_strlit("--timeout");
    reveal_strlit("--programs");
}

/// Options stand in front of the command, in any order: each is taken with its value, and what
/// follows is read as if it stood alone.
pub proof fn law_options_are_taken_one_by_one(
    rest: Seq<Seq<char>>,
    o: OptionsView,
    key: Seq<char>,
    value: Seq<char>,
    n: u64,
)
    requires
        !key.contains('='),
    ensures
        asked_for(seq!["--memory"@, decimal(n as nat)] + rest, 0, o) == asked_for(
            rest,
            0,
            OptionsView { memory_mib: n, ..o },
        ),
        asked_for(seq!["--timeout"@, decimal(n as nat)] + rest, 0, o) == asked_for(
            rest,
            0,
            OptionsView { timeout: n, ..o },
        ),
        asked_for(seq!["--env"@, key.push('=') + value] + rest, 0, o) == asked_for(
            rest,
            0,
            OptionsView { env: o.env.push((key, value)), ..o },
        ),
        asked_for(seq!["--dir"@, value] + rest, 0, o) == asked_for(
            rest,
            0,
            OptionsView { dir: Some(value), ..o },
        ),
        asked_for(seq!["--ro"@, value] + rest, 0, o) == asked_for(
            rest,
            0,
            OptionsView { readonly: Some(value), ..o },
        ),
        asked_for(seq!["-c"@, value] + rest, 0, o) == asked_for(
            rest,
            0,
            OptionsView { script: Some(value), ..o },
        ),
        asked_for(seq!["--stream"@] + rest, 0, o) == asked_for(
            rest,
            0,
            OptionsView { stream: true, ..o },
        ),
        asked_for(seq!["--stats"@] + rest, 0, o) == asked_for(
            rest,
            0,
            OptionsView { stats: true, ..o },
        ),
        asked_for(seq!["--programs"@] + rest, 0, o) == asked_for(
            rest,
            0,
            OptionsView { list: true, ..o },
        ),
{
    lemma_options_differ();
    law_a_number_reads_back(n);
    law_a_setting_comes_apart_at_its_equals_sign(key, value);
    let number = decimal(n as nat);
    let setting = key.push('=') + value;
    lemma_asked_from(seq!["--memory"@, number], rest, 0, OptionsView { memory_mib: n, ..o });
    lemma_asked_from(seq!["--timeout"@, number], rest, 0, OptionsView { timeout: n, ..o });
    lemma_asked_from(
        seq!["--env"@, setting],
        rest,
        0,
        OptionsView { env: o.env.push((key, value)), ..o },
    );
    lemma_asked_from(seq!["--dir"@, value], rest, 0, OptionsView { dir: Some(value), ..o });
    lemma_asked_from(seq!["--ro"@, value], rest, 0, OptionsView { readonly: Some(value), ..o });
    lemma_asked_from(seq!["-c"@, value], rest, 0, OptionsView { script: Some(value), ..o });
    lemma_asked_from(seq!["--stream"@], rest, 0, OptionsView { stream: true, ..o });
    lemma_asked_from(seq!["--stats"@], rest, 0, OptionsView { stats: true, ..o });
    lemma_asked_from(seq!["--programs"@], rest, 0, OptionsView { list: true, ..o });
}

/// What is run: a script in the shell, or the command with its arguments, or the shell alone.
pub proof fn law_the_command_line_says_what_is_run<S>(o: OptionsView, s: SandboxView<S>, i: int)
    ensures
        ({
            let c = command_of(o, s);
            &&& o.script matches Some(text) ==> c.program == "sh"@ && c.args == seq!["-c"@, text]
            &&& o.script is None && o.command.len() == 0 ==> c.program == "sh"@ && c.args.len() == 0
            &&& o.script is None && o.command.len() > 0 ==> {
                &&& c.program == o.command[0]
                &&& c.args.len() == o.command.len() - 1
                &&& 1 <= i < o.command.len() ==> c.args[i - 1] == o.command[i]
            }
            &&& c.env == s.env
            &&& c.cwd == s.cwd
        }),
{
}

// ---------------------------------------------------------------------------------------------
// finding programs

proof fn lemma_named_reg(list: Seq<RegView>, name: Seq<char>, n: int)
    requires
        0 <= n <= list.len(),
    ensures
        reg_among(list, name, n) matches Some(r) ==> r.name == name && reg_names(list, n).contains(
            name,
        ),
    decreases n,
{
    if n > 0 {
        lemma_named_reg(list, name, n - 1);
    }
}

proof fn lemma_reg_at_path(
    list: Seq<RegView>,
    names: Seq<Seq<char>>,
    path: Seq<char>,
    i: int,
    j: int,
)
    requires
        0 <= i <= names.len(),
    ensures
        reg_at_path(list, names, path, i) matches Some(r) ==> r.path == path,
        i <= j < names.len() && (reg_of(list, names[j]) matches Some(r) && r.path == path)
            ==> reg_at_path(list, names, path, i) is Some,
    decreases names.len() - i,
{
    if i < names.len() {
        lemma_reg_at_path(list, names, path, i + 1, j);
    }
}

/// A program is found by its name, and where nothing has that name by its path.
pub proof fn law_a_program_is_found_by_name_or_path(
    list: Seq<RegView>,
    wanted: Seq<char>,
    other: Seq<char>,
)
    ensures
        reg_of(list, wanted) is Some ==> program_named(list, wanted) == reg_of(list, wanted),
        program_named(list, wanted) matches Some(r) ==> r.name == wanted || r.path == wanted,
        reg_of(list, wanted) is None && (reg_of(list, other) matches Some(r) && r.path == wanted)
            ==> (program_named(list, wanted) matches Some(r) && r.path == wanted),
{
    let set = reg_names(list, list.len() as int);
    let names = in_order(set);
    lemma_named_reg(list, wanted, list.len() as int);
    lemma_named_reg(list, other, list.len() as int);
    lemma_reg_at_path(list, names, wanted, 0, 0);
    if reg_of(list, other) is Some {
        super::sessions::lemma_reg_names(list, list.len() as int, other);
        lemma_order_exists(set);
        assert(names.to_set().contains(other));
        let j = choose|j: int| 0 <= j < names.len() && names[j] == other;
        lemma_reg_at_path(list, names, wanted, 0, j);
    }
}

} // verus!
