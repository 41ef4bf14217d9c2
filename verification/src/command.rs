//! From the arguments behind the separator to the command that starts the child server.

use crate::text::chars_of;
use crate::text::decimal;
use crate::text::decimal_string;
use crate::text::find_char;
use crate::text::run_before;
use crate::text::run_before_is_first;
use crate::text::texts;
use vstd::prelude::*;

verus! {

/// No child server: the command is missing, could not be started, or failed.
#[derive(Debug, Clone, Copy, PartialEq, Eq, Structural)]
pub struct ChildBuildError;

/// Where the proxy's own arguments end and where the child's command starts.
#[derive(Debug, Clone, Copy, PartialEq, Eq, Structural)]
pub struct ArgSplit {
    /// The number of arguments before the separator.
    pub own: usize,
    /// The position of the first argument behind the separator.
    pub command: usize,
}

/// Splits the program's arguments at the first `--`, which belongs to neither side. Without one
/// they are all the proxy's own.
pub fn split_args(args: &Vec<String>) -> (r: ArgSplit)
    ensures
        r.own <= r.command <= args@.len(),
        forall|i: int| 0 <= i < r.own ==> #[trigger] args@[i]@ != "--"@,
        r.own < args@.len() ==> args@[r.own as int]@ == "--"@ && r.command == r.own + 1,
        r.own == args@.len() ==> r.command == args@.len(),
{
    let separator: String = "--".to_owned();
    let mut i: usize = 0;
    while i < args.len()
        invariant
            i <= args@.len(),
            separator@ == "--"@,
            forall|j: int| 0 <= j < i ==> #[trigger] args@[j]@ != "--"@,
        decreases args.len() - i,
    {
        if args[i] == separator {
            return ArgSplit { own: i, command: i + 1 };
        }
        i = i + 1;
    }
    ArgSplit { own: i, command: i }
}

/// Whether a character has the Unicode property `Uppercase`.
pub uninterp spec fn char_uppercase(c: char) -> bool;

/// `char::is_uppercase` depends on the character alone. Of the ASCII characters, the letters
/// from `A` to `Z` have the property and no others.
pub assume_specification[ char::is_uppercase ](c: char) -> (r: bool)
    ensures
        r == char_uppercase(c),
        c <= '\u{7f}' ==> r == ('A' <= c <= 'Z'),
;

/// Whether a text starts with an uppercase character.
pub open spec fn uppercase_start(arg: Seq<char>) -> bool {
    arg.len() > 0 && char_uppercase(arg[0])
}

/// Whether `arg` starts with an uppercase character.
pub fn starts_uppercase(arg: &str) -> (r: bool)
    ensures
        r == uppercase_start(arg@),
        r == (arg@.len() > 0 && char_uppercase(arg@[0])),
        arg@.len() > 0 && arg@[0] <= '\u{7f}' ==> r == ('A' <= arg@[0] <= 'Z'),
{
    match arg.chars().next() {
        Some(c) => c.is_uppercase(),
        None => false,
    }
}

/// The variable and the value that an argument of the form `NAME=value` assigns, given whether it
/// starts with an uppercase character. Only such a name is one of a variable.
pub open spec fn assignment(arg: Seq<char>, uppercase: bool) -> Option<(Seq<char>, Seq<char>)> {
    let n: int = run_before(arg, '=') as int;
    if uppercase && 0 < n < arg.len() {
        Some((arg.take(n), arg.skip(n + 1)))
    } else {
        None
    }
}

/// How many arguments at the front are assignments.
pub open spec fn assignments(args: Seq<Seq<char>>, uppercase: Seq<bool>) -> nat
    decreases args.len(),
{
    if args.len() == 0 || assignment(args[0], uppercase[0]) is None {
        0
    } else {
        1 + assignments(args.drop_first(), uppercase.drop_first())
    }
}

/// The arguments in front of the command are assignments; the command is the first that is none.
pub proof fn assignments_end_at_command(args: Seq<Seq<char>>, uppercase: Seq<bool>)
    requires
        args.len() == uppercase.len(),
    ensures
        assignments(args, uppercase) <= args.len(),
        forall|i: int|
            0 <= i < assignments(args, uppercase) ==> #[trigger] assignment(
                args[i],
                uppercase[i],
            ) is Some,
        assignments(args, uppercase) < args.len() ==> assignment(
            args[assignments(args, uppercase) as int],
            uppercase[assignments(args, uppercase) as int],
        ) is None,
    decreases args.len(),
{
    if args.len() != 0 && assignment(args[0], uppercase[0]) is Some {
        let rest = args.drop_first();
        let flags = uppercase.drop_first();
        assignments_end_at_command(rest, flags);
        assert forall|i: int| 0 <= i < assignments(args, uppercase) implies #[trigger] assignment(
            args[i],
            uppercase[i],
        ) is Some by {
            if i > 0 {
                assert(assignment(rest[i - 1], flags[i - 1]) is Some);
            }
        }
    }
}

/// A command that starts a child server. `D` is how the caller names a directory.
#[derive(Debug, PartialEq, Eq)]
pub struct ChildCommand<D> {
    /// The program.
    pub program: String,
    /// Its arguments.
    pub args: Vec<String>,
    /// The variables to set in its environment, in this order: a later one overrides an earlier
    /// one of the same name.
    pub envs: Vec<(String, String)>,
    /// The directory that it runs in.
    pub current_dir: D,
}

/// What a command says, as sequences of characters.
#[verifier::ext_equal]
pub struct CommandText<D> {
    pub program: Seq<char>,
    pub args: Seq<Seq<char>>,
    pub envs: Seq<(Seq<char>, Seq<char>)>,
    pub current_dir: D,
}

impl<D> View for ChildCommand<D> {
    type V = CommandText<D>;

    open spec fn view(&self) -> CommandText<D> {
        CommandText {
            program: self.program@,
            args: texts(self.args@),
            envs: self.envs@.map_values(|e: (String, String)| (e.0@, e.1@)),
            current_dir: self.current_dir,
        }
    }
}

/// The command that `args` stand for: assignments, the program, its arguments. The child is told
/// its network port in the variable `PORT`, which is set last, and runs in the given directory.
pub open spec fn command_for<D>(
    args: Seq<Seq<char>>,
    uppercase: Seq<bool>,
    port: u16,
    current_dir: D,
) -> Result<CommandText<D>, ChildBuildError> {
    let n: nat = assignments(args, uppercase);
    if n < args.len() {
        Ok(
            CommandText {
                program: args[n as int],
                args: args.skip(n as int + 1),
                envs: Seq::new(n, |i: int| assignment(args[i], uppercase[i])->0).push(
                    ("PORT"@, decimal(port as nat)),
                ),
                current_dir,
            },
        )
    } else {
        Err(ChildBuildError)
    }
}

/// The value that a variable has after all assignments.
pub open spec fn env_value(envs: Seq<(Seq<char>, Seq<char>)>, name: Seq<char>) -> Option<Seq<char>>
    decreases envs.len(),
{
    if envs.len() == 0 {
        None
    } else if envs.last().0 == name {
        Some(envs.last().1)
    } else {
        env_value(envs.drop_last(), name)
    }
}

/// The command that `args` stand for, given for each whether it starts with an uppercase
/// character.
pub fn child_command_with<D>(
    args: &Vec<String>,
    uppercase: &Vec<bool>,
    port: u16,
    current_dir: D,
) -> (r: Result<ChildCommand<D>, ChildBuildError>)
    requires
        args@.len() == uppercase@.len(),
    ensures
        match r {
            Ok(command) => command_for(texts(args@), uppercase@, port, current_dir) == Ok::<CommandText<D>, ChildBuildError>(command@),
            Err(e) => command_for(texts(args@), uppercase@, port, current_dir) == Err::<CommandText<D>, ChildBuildError>(e),
        },
{
    let ghost all = texts(args@);
    let mut envs: Vec<(String, String)> = Vec::new();
    let mut i: usize = 0;
    assert(all.skip(0) =~= all);
    assert(uppercase@.skip(0) =~= uppercase@);
    while i < args.len()
        invariant
            i <= args@.len(),
            args@.len() == uppercase@.len(),
            all == texts(args@),
            envs@.len() == i,
            assignments(all, uppercase@) == i + assignments(
                all.skip(i as int),
                uppercase@.skip(i as int),
            ),
            forall|j: int|
                0 <= j < i ==> (#[trigger] envs@[j].0@, envs@[j].1@) == assignment(
                    all[j],
                    uppercase@[j],
                )->0,
        decreases args.len() - i,
    {
        let ghost rest = all.skip(i as int);
        let ghost flags = uppercase@.skip(i as int);
        assert(rest[0] == all[i as int] && flags[0] == uppercase@[i as int]);
        match read_assignment(args[i].as_str(), uppercase[i]) {
            Some(env) => {
                envs.push(env);
                i = i + 1;
                assert(rest.drop_first() =~= all.skip(i as int));
                assert(flags.drop_first() =~= uppercase@.skip(i as int));
            },
            None => {
                return Ok(command_at(args, uppercase, i, envs, port, current_dir));
            },
        }
    }
    Err(ChildBuildError)
}

/// The variable and the value that `arg` assigns.
fn read_assignment(arg: &str, uppercase: bool) -> (r: Option<(String, String)>)
    ensures
        match r {
            Some(env) => assignment(arg@, uppercase) == Some((env.0@, env.1@)),
            None => assignment(arg@, uppercase) is None,
        },
{
    let chars: Vec<char> = chars_of(arg);
    let n: usize = find_char(&chars, '=');
    if uppercase && 0 < n && n < chars.len() {
        let name: String = arg.substring_char(0, n).to_owned();
        let value: String = arg.substring_char(n + 1, chars.len()).to_owned();
        assert(name@ =~= arg@.take(n as int));
        assert(value@ =~= arg@.skip(n + 1));
        Some((name, value))
    } else {
        None
    }
}

/// The command whose program stands at position `at`, behind the assignments `envs`.
fn command_at<D>(
    args: &Vec<String>,
    uppercase: &Vec<bool>,
    at: usize,
    envs: Vec<(String, String)>,
    port: u16,
    current_dir: D,
) -> (command: ChildCommand<D>)
    requires
        at < args.len(),
        args@.len() == uppercase@.len(),
        at == envs@.len() == assignments(texts(args@), uppercase@),
        forall|j: int|
            0 <= j < at ==> (#[trigger] envs@[j].0@, envs@[j].1@) == assignment(
                texts(args@)[j],
                uppercase@[j],
            )->0,
    ensures
        command_for(texts(args@), uppercase@, port, current_dir) == Ok::<CommandText<D>, ChildBuildError>(
            command@,
        ),
{
    let mut envs = envs;
    let mut rest: Vec<String> = Vec::new();
    let mut i: usize = at + 1;
    while i < args.len()
        invariant
            at < i <= args@.len(),
            texts(rest@) == texts(args@).subrange(at + 1, i as int),
        decreases args.len() - i,
    {
        let ghost before = rest@;
        rest.push(args[i].clone());
        i = i + 1;
        assert(texts(rest@) =~= texts(before).push(args@[i - 1]@));
        assert(texts(args@).subrange(at + 1, i as int) =~= texts(args@).subrange(
            at + 1,
            i - 1,
        ).push(args@[i - 1]@));
    }
    envs.push(("PORT".to_owned(), decimal_string(port)));
    let command = ChildCommand { program: args[at].clone(), args: rest, envs, current_dir };
    proof {
        let wanted = command_for(texts(args@), uppercase@, port, current_dir)->Ok_0;
        assert(command@.args =~= wanted.args);
        assert(command@.envs =~= wanted.envs);
        assert(command@.program =~= wanted.program);
    }
    command
}

/// For each argument, whether it starts with an uppercase character.
pub open spec fn uppercase_starts(args: Seq<Seq<char>>) -> Seq<bool> {
    args.map_values(|arg: Seq<char>| uppercase_start(arg))
}

/// The command that `args` stand for.
pub fn child_command<D>(args: &Vec<String>, port: u16, current_dir: D) -> (r: Result<
    ChildCommand<D>,
    ChildBuildError,
>)
    ensures
        match r {
            Ok(command) => command_for(texts(args@), uppercase_starts(texts(args@)), port, current_dir) == Ok::<CommandText<D>, ChildBuildError>(command@),
            Err(e) => command_for(texts(args@), uppercase_starts(texts(args@)), port, current_dir) == Err::<CommandText<D>, ChildBuildError>(e),
        },
{
    let mut uppercase: Vec<bool> = Vec::new();
    while uppercase.len() < args.len()
        invariant
            uppercase@.len() <= args@.len(),
            forall|j: int|
                0 <= j < uppercase@.len() ==> #[trigger] uppercase@[j] == uppercase_start(
                    args@[j]@,
                ),
        decreases args.len() - uppercase.len(),
    {
        let i: usize = uppercase.len();
        uppercase.push(starts_uppercase(args[i].as_str()));
    }
    assert(uppercase@ =~= uppercase_starts(texts(args@)));
    child_command_with(args, &uppercase, port, current_dir)
}

/// The child always finds its own network port in `PORT`, also where the arguments assign it
/// another value.
pub proof fn child_knows_its_port<D>(
    args: Seq<Seq<char>>,
    uppercase: Seq<bool>,
    port: u16,
    current_dir: D,
)
    requires
        args.len() == uppercase.len(),
    ensures
        command_for(args, uppercase, port, current_dir) matches Ok(command) ==> env_value(
            command.envs,
            "PORT"@,
        ) == Some(decimal(port as nat)),
{
}

/// No argument is lost and none is changed: the assignments written out, the program and its
/// arguments are the arguments that were given, in their order. The program runs in the directory
/// that was given.
pub proof fn arguments_are_kept<D>(
    args: Seq<Seq<char>>,
    uppercase: Seq<bool>,
    port: u16,
    current_dir: D,
)
    requires
        args.len() == uppercase.len(),
    ensures
        command_for(args, uppercase, port, current_dir) matches Ok(command) ==> {
            let given = command.envs.drop_last();
            &&& command.current_dir == current_dir
            &&& args == given.map_values(|e: (Seq<char>, Seq<char>)| e.0 + seq!['='] + e.1) + seq![
                command.program,
            ] + command.args
        },
{
    let n: nat = assignments(args, uppercase);
    if n < args.len() {
        let command = command_for(args, uppercase, port, current_dir)->Ok_0;
        let given = command.envs.drop_last();
        let written = given.map_values(|e: (Seq<char>, Seq<char>)| e.0 + seq!['='] + e.1);
        assignments_end_at_command(args, uppercase);
        assert forall|i: int| 0 <= i < n implies written[i] == args[i] by {
            assert(assignment(args[i], uppercase[i]) is Some);
            run_before_is_first(args[i], '=');
            let at: int = run_before(args[i], '=') as int;
            assert(args[i] =~= args[i].take(at) + seq!['='] + args[i].skip(at + 1));
        }
        assert(args =~= written + seq![command.program] + command.args);
    }
}

/// A variable has the value that is assigned to it last, and none where nothing is.
pub proof fn last_assignment_counts(envs: Seq<(Seq<char>, Seq<char>)>, name: Seq<char>)
    ensures
        env_value(envs, name) is None <==> forall|i: int|
            0 <= i < envs.len() ==> (#[trigger] envs[i]).0 != name,
        forall|i: int|
            0 <= i < envs.len() && (#[trigger] envs[i]).0 == name && (forall|j: int|
                i < j < envs.len() ==> (#[trigger] envs[j]).0 != name) ==> env_value(envs, name)
                == Some(envs[i].1),
    decreases envs.len(),
{
    if envs.len() != 0 {
        let shorter = envs.drop_last();
        let last: int = envs.len() - 1;
        last_assignment_counts(shorter, name);
        if envs[last].0 != name {
            assert forall|i: int|
                0 <= i < envs.len() && (#[trigger] envs[i]).0 == name && (forall|j: int|
                    i < j < envs.len() ==> (#[trigger] envs[j]).0 != name) implies env_value(
                envs,
                name,
            ) == Some(envs[i].1) by {
                assert(shorter[i] == envs[i]);
                assert forall|j: int| i < j < shorter.len() implies (#[trigger] shorter[j]).0
                    != name by {
                    assert(shorter[j] == envs[j]);
                }
            }
            if env_value(envs, name) is None {
                assert forall|i: int| 0 <= i < envs.len() implies (#[trigger] envs[i]).0
                    != name by {
                    if i < last {
                        assert(shorter[i] == envs[i]);
                    }
                }
            }
            if forall|i: int| 0 <= i < envs.len() ==> (#[trigger] envs[i]).0 != name {
                assert forall|i: int| 0 <= i < shorter.len() implies (#[trigger] shorter[i]).0
                    != name by {
                    assert(shorter[i] == envs[i]);
                }
            }
        }
    }
}

/// Of the assignments that were given, the last one of each name counts, and no variable is set
/// but by them, `PORT` excepted.
pub proof fn given_variables_are_set<D>(
    args: Seq<Seq<char>>,
    uppercase: Seq<bool>,
    port: u16,
    current_dir: D,
    name: Seq<char>,
)
    requires
        args.len() == uppercase.len(),
        name != "PORT"@,
    ensures
        command_for(args, uppercase, port, current_dir) matches Ok(command) ==> {
            let given = Seq::new(
                assignments(args, uppercase),
                |i: int| assignment(args[i], uppercase[i])->0,
            );
            env_value(command.envs, name) == env_value(given, name)
        },
{
    if let Ok(command) = command_for(args, uppercase, port, current_dir) {
        let given = Seq::new(
            assignments(args, uppercase),
            |i: int| assignment(args[i], uppercase[i])->0,
        );
        assert(command.envs.drop_last() =~= given);
    }
}

/// There is no command exactly where every argument is an assignment.
pub proof fn no_command_without_program<D>(
    args: Seq<Seq<char>>,
    uppercase: Seq<bool>,
    port: u16,
    current_dir: D,
)
    requires
        args.len() == uppercase.len(),
    ensures
        command_for(args, uppercase, port, current_dir) is Err <==> forall|i: int|
            0 <= i < args.len() ==> #[trigger] assignment(args[i], uppercase[i]) is Some,
{
    assignments_end_at_command(args, uppercase);
}

/// A text starts uppercase exactly where it is not empty and its first character is uppercase.
pub proof fn uppercase_is_the_first_character(c: char, rest: Seq<char>)
    ensures
        uppercase_start(seq![c] + rest) == char_uppercase(c),
        !uppercase_start(Seq::<char>::empty()),
{
    assert((seq![c] + rest)[0] == c);
}

/// Whether an argument starts uppercase is told of each, in their order.
pub proof fn uppercase_is_told_of_each(args: Seq<Seq<char>>)
    ensures
        uppercase_starts(args).len() == args.len(),
        forall|i: int|
            0 <= i < args.len() ==> #[trigger] uppercase_starts(args)[i] == (args[i].len() > 0
                && char_uppercase(args[i][0])),
{
}

/// Whatever the name, as long as it is not empty and holds no equals sign, and whatever the value,
/// the two joined by an equals sign assign the value to the name, if they start uppercase.
pub proof fn joined_names_and_values_are_assignments(name: Seq<char>, value: Seq<char>)
    requires
        name.len() > 0,
        forall|i: int| 0 <= i < name.len() ==> name[i] != '=',
    ensures
        assignment(name + seq!['='] + value, true) == Some((name, value)),
        assignment(name + seq!['='] + value, false) is None,
{
    let arg = name + seq!['='] + value;
    let n: int = name.len() as int;
    assert forall|i: int| 0 <= i < n implies arg[i] != '=' by {
        assert(arg[i] == name[i]);
    }
    crate::text::first_is_run_before(arg, '=', n);
    assert(arg.take(n) =~= name);
    assert(arg.skip(n + 1) =~= value);
}

/// Nothing else is an assignment: a text does not assign where it starts with anything but an
/// uppercase character, where it starts with an equals sign, and where it holds none.
pub proof fn nothing_else_is_an_assignment(arg: Seq<char>, uppercase: bool)
    requires
        !uppercase || arg.len() == 0 || arg[0] == '=' || forall|i: int|
            0 <= i < arg.len() ==> arg[i] != '=',
    ensures
        assignment(arg, uppercase) is None,
{
    run_before_is_first(arg, '=');
}

/// Arguments written as variables with their values, a program and its arguments are read so:
/// every name, every value, the program and every argument come back, the network port is set
/// behind them in `PORT`, and the directory is the one that was given.
pub proof fn written_commands_are_read<D>(
    names: Seq<Seq<char>>,
    values: Seq<Seq<char>>,
    program: Seq<char>,
    program_uppercase: bool,
    rest: Seq<Seq<char>>,
    rest_uppercase: Seq<bool>,
    port: u16,
    current_dir: D,
)
    requires
        names.len() == values.len(),
        forall|i: int| 0 <= i < names.len() ==> (#[trigger] names[i]).len() > 0,
        forall|i: int, j: int|
            0 <= i < names.len() && 0 <= j < names[i].len() ==> #[trigger] names[i][j] != '=',
        !program_uppercase || program.len() == 0 || program[0] == '=' || forall|i: int|
            0 <= i < program.len() ==> program[i] != '=',
        rest.len() == rest_uppercase.len(),
    ensures
        command_for(
            Seq::new(names.len(), |i: int| names[i] + seq!['='] + values[i]) + seq![program] + rest,
            Seq::new(names.len(), |i: int| true) + seq![program_uppercase] + rest_uppercase,
            port,
            current_dir,
        ) == Ok::<CommandText<D>, ChildBuildError>(
            CommandText {
                program,
                args: rest,
                envs: Seq::new(names.len(), |i: int| (names[i], values[i])).push(
                    ("PORT"@, decimal(port as nat)),
                ),
                current_dir,
            },
        ),
        command_for(
            Seq::new(names.len(), |i: int| names[i] + seq!['='] + values[i]),
            Seq::new(names.len(), |i: int| true),
            port,
            current_dir,
        ) == Err::<CommandText<D>, ChildBuildError>(ChildBuildError),
{
    let n: int = names.len() as int;
    let written = Seq::new(names.len(), |i: int| names[i] + seq!['='] + values[i]);
    let told = Seq::new(names.len(), |i: int| true);
    let args = written + seq![program] + rest;
    let flags = told + seq![program_uppercase] + rest_uppercase;
    assert forall|i: int| 0 <= i < n implies #[trigger] assignment(written[i], told[i]) == Some(
        (names[i], values[i]),
    ) by {
        assert forall|j: int| 0 <= j < names[i].len() implies names[i][j] != '=' by {}
        joined_names_and_values_are_assignments(names[i], values[i]);
    }
    assert forall|i: int| 0 <= i < n implies #[trigger] assignment(args[i], flags[i]) == Some(
        (names[i], values[i]),
    ) by {
        assert(args[i] == written[i] && flags[i] == told[i]);
        assert(assignment(written[i], told[i]) == Some((names[i], values[i])));
    }
    assert(args[n] == program && flags[n] == program_uppercase);
    nothing_else_is_an_assignment(program, program_uppercase);
    assignments_end_at_command(args, flags);
    assignments_end_at_command(written, told);
    let m: int = assignments(args, flags) as int;
    if m < n {
        assert(assignment(args[m], flags[m]) is Some);
    } else if n < m {
        assert(assignment(args[n], flags[n]) is Some);
    }
    assert(args.skip(n + 1) =~= rest);
    assert(Seq::new(n as nat, |i: int| assignment(args[i], flags[i])->0) =~= Seq::new(
        n as nat,
        |i: int| (names[i], values[i]),
    ));
    let k: int = assignments(written, told) as int;
    if k < n {
        assert(assignment(written[k], told[k]) is Some);
    }
}

/// What a command says is what its fields hold.
pub proof fn commands_say_what_they_hold<D>(command: ChildCommand<D>)
    ensures
        command@.program == command.program@,
        command@.current_dir == command.current_dir,
        command@.args.len() == command.args@.len(),
        forall|i: int|
            0 <= i < command.args@.len() ==> #[trigger] command@.args[i] == command.args@[i]@,
        command@.envs.len() == command.envs@.len(),
        forall|i: int|
            0 <= i < command.envs@.len() ==> #[trigger] command@.envs[i] == (
                command.envs@[i].0@,
                command.envs@[i].1@,
            ),
{
}

} // verus!
