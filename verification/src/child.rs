//! Starting a child server: what to do next until it accepts connections or has failed.

use crate::ansi::is_plain;
use crate::ansi::strip_ansi;
use crate::ansi::stripped;
use crate::command::ChildBuildError;
use crate::command::ChildCommand;
use crate::command::CommandText;
use crate::command::child_command;
use crate::command::child_knows_its_port;
use crate::command::command_for;
use crate::command::env_value;
use crate::command::uppercase_starts;
use crate::text::decimal;
use crate::text::texts;
use std::collections::VecDeque;
use vstd::prelude::*;

verus! {

/// How many lines of a child's error output are kept.
pub const STDERR_LINES: usize = 20;

/// How long to wait before the next attempt to connect, in milliseconds.
pub const RETRY_MILLIS: u64 = 100;

/// How long a failed child's error output is given to arrive, in milliseconds.
pub const FLUSH_MILLIS: u64 = 50;

/// What a look at the child process told.
#[derive(Debug, Clone, Copy, PartialEq, Eq, Structural)]
pub enum ExitCheck {
    /// Nothing: its state could not be read.
    Unknown,
    /// It has not exited.
    Running,
    /// It has exited.
    Exited { success: bool },
}

/// What is to be done next.
#[derive(Debug, Clone, Copy, PartialEq, Eq, Structural)]
pub enum BuildState {
    /// Start the child process.
    Spawn,
    /// Try to connect to the child.
    Connect,
    /// Look whether the child process has exited.
    TryWait,
    /// Wait before the next attempt to connect.
    Pause,
    /// Wait for the rest of the child's error output.
    Flush,
    /// Show the child's error output.
    Report,
    /// Nothing: the child accepts connections.
    Ready,
    /// Nothing: there is no child.
    Failed,
}

/// What came of it.
#[derive(Debug, Clone, Copy, PartialEq, Eq, Structural)]
pub enum BuildEvent {
    /// Whether the child process was started.
    Spawned(bool),
    /// Whether the child accepted the connection.
    Connected(bool),
    /// What the look at the child process told.
    Checked(ExitCheck),
    /// The waiting time is over.
    Slept,
    /// The error output was shown.
    Reported,
}

/// What follows in `state` on `event`. An event that does not belong to the state changes nothing.
pub open spec fn next_state(state: BuildState, event: BuildEvent) -> BuildState {
    match (state, event) {
        (BuildState::Spawn, BuildEvent::Spawned(true)) => BuildState::Connect,
        (BuildState::Spawn, BuildEvent::Spawned(false)) => BuildState::Failed,
        (BuildState::Connect, BuildEvent::Connected(true)) => BuildState::Ready,
        (BuildState::Connect, BuildEvent::Connected(false)) => BuildState::TryWait,
        (
            BuildState::TryWait,
            BuildEvent::Checked(ExitCheck::Exited { success: false }),
        ) => BuildState::Flush,
        (BuildState::TryWait, BuildEvent::Checked(_)) => BuildState::Pause,
        (BuildState::Pause, BuildEvent::Slept) => BuildState::Connect,
        (BuildState::Flush, BuildEvent::Slept) => BuildState::Report,
        (BuildState::Report, BuildEvent::Reported) => BuildState::Failed,
        _ => state,
    }
}

/// Where a sequence of events leads.
pub open spec fn run(state: BuildState, events: Seq<BuildEvent>) -> BuildState {
    events.fold_left(state, |s: BuildState, e: BuildEvent| next_state(s, e))
}

impl BuildState {
    /// What follows on `event`.
    pub fn next(self, event: BuildEvent) -> (r: BuildState)
        ensures
            r == next_state(self, event),
    {
        match (self, event) {
            (BuildState::Spawn, BuildEvent::Spawned(spawned)) => {
                if spawned {
                    BuildState::Connect
                } else {
                    BuildState::Failed
                }
            },
            (BuildState::Connect, BuildEvent::Connected(connected)) => {
                if connected {
                    BuildState::Ready
                } else {
                    BuildState::TryWait
                }
            },
            (BuildState::TryWait, BuildEvent::Checked(check)) => {
                match check {
                    ExitCheck::Exited { success } if !success => BuildState::Flush,
                    _ => BuildState::Pause,
                }
            },
            (BuildState::Pause, BuildEvent::Slept) => BuildState::Connect,
            (BuildState::Flush, BuildEvent::Slept) => BuildState::Report,
            (BuildState::Report, BuildEvent::Reported) => BuildState::Failed,
            _ => self,
        }
    }

    /// How long to wait in this state, in milliseconds.
    pub fn wait_millis(self) -> (r: u64)
        ensures
            r == match self {
                BuildState::Pause => RETRY_MILLIS,
                BuildState::Flush => FLUSH_MILLIS,
                _ => 0,
            },
            self == BuildState::Pause ==> r == 100,
            self == BuildState::Flush ==> r == 50,
    {
        match self {
            BuildState::Pause => RETRY_MILLIS,
            BuildState::Flush => FLUSH_MILLIS,
            _ => 0,
        }
    }
}

/// The start of one child on one network port.
#[derive(Debug, Clone, Copy, PartialEq, Eq, Structural)]
pub struct Build {
    /// The network port that the child is told, and on which it is awaited.
    pub port: u16,
    /// What is to be done next.
    pub state: BuildState,
}

/// How a build ended: with a child on its port, without one, or not yet.
pub open spec fn outcome_of(build: Build) -> Option<Result<u16, ChildBuildError>> {
    match build.state {
        BuildState::Ready => Some(Ok(build.port)),
        BuildState::Failed => Some(Err(ChildBuildError)),
        _ => None,
    }
}

/// The command of a build.
pub open spec fn started_from<D>(args: Seq<Seq<char>>, port: u16, current_dir: D) -> Result<
    CommandText<D>,
    ChildBuildError,
> {
    command_for(args, uppercase_starts(args), port, current_dir)
}

impl Build {
    /// Begins a build from the arguments that stand for the child's command, and the directory
    /// that it runs in. Without a program among the arguments there is nothing to begin.
    pub fn start<D>(args: &Vec<String>, port: u16, current_dir: D) -> (r: Result<
        (Build, ChildCommand<D>),
        ChildBuildError,
    >)
        ensures
            match r {
                Ok((build, command)) => {
                    &&& build == (Build { port, state: BuildState::Spawn })
                    &&& command.current_dir == current_dir
                    &&& command_for(
                        texts(args@),
                        uppercase_starts(texts(args@)),
                        port,
                        current_dir,
                    ) == Ok::<CommandText<D>, ChildBuildError>(command@)
                    &&& started_from(texts(args@), port, current_dir) == Ok::<
                        CommandText<D>,
                        ChildBuildError,
                    >(command@)
                },
                Err(e) => {
                    &&& command_for(
                        texts(args@),
                        uppercase_starts(texts(args@)),
                        port,
                        current_dir,
                    ) is Err
                    &&& started_from(texts(args@), port, current_dir) == Err::<
                        CommandText<D>,
                        ChildBuildError,
                    >(e)
                },
            },
    {
        match child_command(args, port, current_dir) {
            Ok(command) => Ok((Build { port, state: BuildState::Spawn }, command)),
            Err(e) => Err(e),
        }
    }

    /// Takes in what came of the last step.
    pub fn on_event(&mut self, event: BuildEvent)
        ensures
            *final(self) == (Build {
                port: old(self).port,
                state: next_state(old(self).state, event),
            }),
    {
        self.state = self.state.next(event);
    }

    /// How the build ended, if it has.
    pub fn outcome(&self) -> (r: Option<Result<u16, ChildBuildError>>)
        ensures
            r == outcome_of(*self),
            self.state == BuildState::Ready ==> r == Some(Ok::<u16, ChildBuildError>(self.port)),
            r matches Some(Err(_)) ==> self.state == BuildState::Failed,
    {
        match self.state {
            BuildState::Ready => Some(Ok(self.port)),
            BuildState::Failed => Some(Err(ChildBuildError)),
            _ => None,
        }
    }
}

/// The network port on which a build ends is the one that the child finds in `PORT`.
pub proof fn children_are_reached_where_told<D>(
    args: Seq<Seq<char>>,
    uppercase: Seq<bool>,
    port: u16,
    current_dir: D,
    events: Seq<BuildEvent>,
)
    requires
        args.len() == uppercase.len(),
    ensures
        ({
            let ended = Build { port, state: run(BuildState::Spawn, events) };
            command_for(args, uppercase, port, current_dir) matches Ok(command) ==> (outcome_of(
                ended,
            ) matches Some(Ok(reached)) ==> {
                &&& env_value(command.envs, "PORT"@) == Some(decimal(reached as nat))
                &&& events.contains(BuildEvent::Connected(true))
            })
        }),
{
    child_knows_its_port(args, uppercase, port, current_dir);
    ready_means_connected(events);
}

proof fn lemma_run_last(state: BuildState, events: Seq<BuildEvent>)
    requires
        events.len() > 0,
    ensures
        run(state, events) == next_state(run(state, events.drop_last()), events.last()),
{
    reveal_with_fuel(Seq::fold_left, 2);
}

/// A child counts as ready only once it has accepted a connection.
pub proof fn ready_means_connected(events: Seq<BuildEvent>)
    ensures
        run(BuildState::Spawn, events) == BuildState::Ready ==> events.contains(
            BuildEvent::Connected(true),
        ),
    decreases events.len(),
{
    reveal_with_fuel(Seq::fold_left, 2);
    if events.len() > 0 {
        let before = events.drop_last();
        lemma_run_last(BuildState::Spawn, events);
        ready_means_connected(before);
        if run(BuildState::Spawn, before) == BuildState::Ready {
            lemma_contains_longer(events, BuildEvent::Connected(true));
        } else if run(BuildState::Spawn, events) == BuildState::Ready {
            assert(events[events.len() - 1] == BuildEvent::Connected(true));
        }
    }
}

/// A build fails only where the child process could not be started, or has exited with a failure
/// and its error output was shown.
pub proof fn failed_means_told(events: Seq<BuildEvent>)
    ensures
        run(BuildState::Spawn, events) == BuildState::Failed ==> events.contains(
            BuildEvent::Spawned(false),
        ) || (events.contains(BuildEvent::Checked(ExitCheck::Exited { success: false }))
            && events.contains(BuildEvent::Reported)),
        run(BuildState::Spawn, events) == BuildState::Flush || run(BuildState::Spawn, events)
            == BuildState::Report ==> events.contains(
            BuildEvent::Checked(ExitCheck::Exited { success: false }),
        ),
    decreases events.len(),
{
    reveal_with_fuel(Seq::fold_left, 2);
    if events.len() > 0 {
        let before = events.drop_last();
        lemma_run_last(BuildState::Spawn, events);
        failed_means_told(before);
        lemma_contains_longer(events, BuildEvent::Spawned(false));
        lemma_contains_longer(events, BuildEvent::Checked(ExitCheck::Exited { success: false }));
        lemma_contains_longer(events, BuildEvent::Reported);
        assert(events.contains(events[events.len() - 1]));
    }
}

/// A build that has ended stays as it is.
pub proof fn ended_builds_stay(state: BuildState, event: BuildEvent)
    requires
        state == BuildState::Ready || state == BuildState::Failed,
    ensures
        next_state(state, event) == state,
{
}

/// A child that does not accept connections yet is tried again, as long as it has not exited with
/// a failure.
pub proof fn slow_children_are_awaited(check: ExitCheck)
    requires
        check != (ExitCheck::Exited { success: false }),
    ensures
        run(
            BuildState::Connect,
            seq![BuildEvent::Connected(false), BuildEvent::Checked(check), BuildEvent::Slept],
        ) == BuildState::Connect,
{
    reveal_with_fuel(Seq::fold_left, 4);
    let events = seq![BuildEvent::Connected(false), BuildEvent::Checked(check), BuildEvent::Slept];
    lemma_run_last(BuildState::Connect, events);
    lemma_run_last(BuildState::Connect, events.drop_last());
    lemma_run_last(BuildState::Connect, events.drop_last().drop_last());
}

proof fn lemma_contains_longer(events: Seq<BuildEvent>, e: BuildEvent)
    requires
        events.len() > 0,
    ensures
        events.drop_last().contains(e) ==> events.contains(e),
{
    if events.drop_last().contains(e) {
        let i: int = choose|i: int| 0 <= i < events.len() - 1 && events.drop_last()[i] == e;
        assert(events[i] == e);
    }
}

/// The last `n` elements of `s`, or all of them where there are no more.
pub open spec fn last_of<T>(s: Seq<T>, n: nat) -> Seq<T> {
    if s.len() <= n {
        s
    } else {
        s.skip(s.len() - n)
    }
}

/// The last lines of a child's error output.
pub struct StderrTail {
    lines: VecDeque<String>,
}

impl View for StderrTail {
    type V = Seq<Seq<char>>;

    closed spec fn view(&self) -> Seq<Seq<char>> {
        texts(self.lines@)
    }
}

/// What is shown of a failed child.
pub open spec fn failure_report(lines: Seq<Seq<char>>) -> Seq<Seq<char>> {
    if lines.len() == 0 {
        seq!["build failed"@]
    } else {
        seq![""@, "build failed:"@, ""@] + lines.map_values(|line: Seq<char>| "  "@ + line)
            + seq![""@]
    }
}

impl StderrTail {
    /// No lines yet.
    pub fn new() -> (r: StderrTail)
        ensures
            r@ == Seq::<Seq<char>>::empty(),
    {
        let r = StderrTail { lines: VecDeque::new() };
        assert(r@ =~= Seq::<Seq<char>>::empty());
        r
    }

    /// Keeps one line more, and of all lines the last `STDERR_LINES`.
    pub fn push(&mut self, line: String)
        ensures
            final(self)@ == last_of(old(self)@.push(line@), STDERR_LINES as nat),
            old(self)@.len() < 20 ==> final(self)@ == old(self)@.push(line@),
            old(self)@.len() == 20 ==> final(self)@ == old(self)@.drop_first().push(line@),
            final(self)@.len() <= STDERR_LINES,
    {
        let ghost all = self.lines@.push(line);
        self.lines.push_back(line);
        assert(all.skip(0) =~= all);
        while self.lines.len() > STDERR_LINES
            invariant
                self.lines@.len() <= all.len(),
                self.lines@ == all.skip(all.len() - self.lines@.len()),
                self.lines@.len() < all.len() ==> self.lines@.len() >= STDERR_LINES,
            decreases self.lines.len(),
        {
            let _ = self.lines.pop_front();
            assert(self.lines@ =~= all.skip(all.len() - self.lines@.len()));
        }
        proof {
            assert(texts(all) =~= old(self)@.push(line@));
            assert(self@ =~= last_of(texts(all), STDERR_LINES as nat));
        }
    }

    /// Takes in one line as the child wrote it. The line is kept without escape sequences, and
    /// handed back so.
    pub fn record(&mut self, raw: &str) -> (line: String)
        ensures
            line@ == stripped(raw@),
            line@ == vstd::utf8::decode_utf8(crate::ansi::stripped_bytes(raw@)),
            forall|i: int| 0 <= i < line@.len() ==> is_plain(#[trigger] line@[i]),
            final(self)@ == last_of(old(self)@.push(line@), STDERR_LINES as nat),
            old(self)@.len() < 20 ==> final(self)@ == old(self)@.push(line@),
            old(self)@.len() == 20 ==> final(self)@ == old(self)@.drop_first().push(line@),
            final(self)@.len() <= STDERR_LINES,
    {
        let line: String = strip_ansi(raw);
        self.push(line.clone());
        line
    }

    /// The lines to show once the build has failed.
    pub fn report(&self) -> (r: Vec<String>)
        ensures
            texts(r@) == failure_report(self@),
    {
        let mut r: Vec<String> = Vec::new();
        if self.lines.len() == 0 {
            r.push("build failed".to_owned());
            assert(texts(r@) =~= failure_report(self@));
            return r;
        }
        let ghost head = seq![""@, "build failed:"@, ""@];
        let ghost shown = self@.map_values(|line: Seq<char>| "  "@ + line);
        r.push("".to_owned());
        r.push("build failed:".to_owned());
        r.push("".to_owned());
        let mut i: usize = 0;
        assert(texts(r@) =~= head + shown.take(0));
        while i < self.lines.len()
            invariant
                i <= self.lines@.len(),
                shown == self@.map_values(|line: Seq<char>| "  "@ + line),
                texts(r@) == head + shown.take(i as int),
            decreases self.lines.len() - i,
        {
            let ghost before = r@;
            let mut line: String = "  ".to_owned();
            line.append(self.lines[i].as_str());
            assert(line@ == shown[i as int]);
            r.push(line);
            i = i + 1;
            assert(texts(r@) =~= texts(before).push(line@));
            assert(shown.take(i as int) =~= shown.take(i - 1).push(shown[i - 1]));
            assert(texts(r@) =~= head + shown.take(i as int));
        }
        let ghost before = r@;
        r.push("".to_owned());
        assert(shown.take(i as int) =~= shown);
        assert(texts(r@) =~= texts(before).push(""@));
        assert(texts(r@) =~= failure_report(self@));
        r
    }
}

/// What is kept after `lines`, one after the other.
pub open spec fn kept_after(kept: Seq<Seq<char>>, lines: Seq<Seq<char>>) -> Seq<Seq<char>>
    decreases lines.len(),
{
    if lines.len() == 0 {
        kept
    } else {
        last_of(kept_after(kept, lines.drop_last()).push(lines.last()), STDERR_LINES as nat)
    }
}

/// However many lines there were, the kept ones are the last of them, in their order.
pub proof fn last_lines_are_kept(lines: Seq<Seq<char>>)
    ensures
        kept_after(Seq::empty(), lines) == last_of(lines, STDERR_LINES as nat),
    decreases lines.len(),
{
    if lines.len() != 0 {
        last_lines_are_kept(lines.drop_last());
        assert(kept_after(Seq::empty(), lines) =~= last_of(lines, STDERR_LINES as nat));
    } else {
        assert(lines =~= Seq::empty());
    }
}

/// A sequence of events leads where its steps lead, one after the other.
pub proof fn runs_go_step_by_step(state: BuildState, events: Seq<BuildEvent>, event: BuildEvent)
    ensures
        run(state, Seq::<BuildEvent>::empty()) == state,
        run(state, events.push(event)) == next_state(run(state, events), event),
{
    reveal_with_fuel(Seq::fold_left, 1);
    assert(events.push(event).drop_last() =~= events);
    lemma_run_last(state, events.push(event));
}

/// Each step asks for one thing, and whatever comes of it the build moves on: a started child is
/// connected to, one that accepts is ready, one that does not is looked at, one that has failed is
/// given time and shown before the build fails, and any other is tried again after a pause.
pub proof fn builds_move_on(check: ExitCheck)
    ensures
        next_state(BuildState::Spawn, BuildEvent::Spawned(true)) == BuildState::Connect,
        next_state(BuildState::Spawn, BuildEvent::Spawned(false)) == BuildState::Failed,
        next_state(BuildState::Connect, BuildEvent::Connected(true)) == BuildState::Ready,
        next_state(BuildState::Connect, BuildEvent::Connected(false)) == BuildState::TryWait,
        next_state(BuildState::TryWait, BuildEvent::Checked(check)) == (if check == (
        ExitCheck::Exited { success: false }) {
            BuildState::Flush
        } else {
            BuildState::Pause
        }),
        next_state(BuildState::Pause, BuildEvent::Slept) == BuildState::Connect,
        next_state(BuildState::Flush, BuildEvent::Slept) == BuildState::Report,
        next_state(BuildState::Report, BuildEvent::Reported) == BuildState::Failed,
{
}

/// An event that a step did not ask for leaves it as it is.
pub proof fn other_events_build_nothing(state: BuildState, event: BuildEvent)
    requires
        !(state == BuildState::Spawn && event is Spawned),
        !(state == BuildState::Connect && event is Connected),
        !(state == BuildState::TryWait && event is Checked),
        !(state == BuildState::Pause && event is Slept),
        !(state == BuildState::Flush && event is Slept),
        !(state == BuildState::Report && event is Reported),
    ensures
        next_state(state, event) == state,
{
}

/// A build has ended with a child on its own network port exactly where it is ready, and without
/// one exactly where it has failed, on every port.
pub proof fn outcomes_are_told_on_every_port(port: u16, state: BuildState)
    ensures
        outcome_of(Build { port, state }) == Some(Ok::<u16, ChildBuildError>(port)) <==> state
            == BuildState::Ready,
        outcome_of(Build { port, state }) == Some(Err::<u16, ChildBuildError>(ChildBuildError))
            <==> state == BuildState::Failed,
        outcome_of(Build { port, state }) is None <==> state != BuildState::Ready && state
            != BuildState::Failed,
{
}

/// After any number of rounds in which the child does not accept the connection, has not exited
/// with a failure, and is given a pause, the next thing is to connect to it.
proof fn lemma_rounds(events: Seq<BuildEvent>, rounds: int)
    requires
        rounds >= 0,
        events.len() >= 1 + 3 * rounds,
        events[0] == BuildEvent::Spawned(true),
        forall|i: int|
            0 <= i < rounds ==> #[trigger] events[1 + 3 * i] == BuildEvent::Connected(false),
        forall|i: int|
            0 <= i < rounds ==> (#[trigger] events[2 + 3 * i] matches BuildEvent::Checked(check)
                && check != (ExitCheck::Exited { success: false })),
        forall|i: int| 0 <= i < rounds ==> #[trigger] events[3 + 3 * i] == BuildEvent::Slept,
    ensures
        run(BuildState::Spawn, events.take(1 + 3 * rounds)) == BuildState::Connect,
    decreases rounds,
{
    let n: int = 3 * rounds;
    if rounds == 0 {
        runs_go_step_by_step(BuildState::Spawn, Seq::empty(), events[0]);
        assert(events.take(1) =~= Seq::<BuildEvent>::empty().push(events[0]));
    } else {
        let k: int = rounds - 1;
        lemma_rounds(events, k);
        assert(events[1 + 3 * k] == BuildEvent::Connected(false));
        assert(events[3 + 3 * k] == BuildEvent::Slept);
        assert(events[2 + 3 * k] is Checked);
        lemma_take_step(events, n - 2);
        lemma_take_step(events, n - 1);
        lemma_take_step(events, n);
    }
}

proof fn lemma_take_step(events: Seq<BuildEvent>, n: int)
    requires
        0 <= n < events.len(),
    ensures
        run(BuildState::Spawn, events.take(n + 1)) == next_state(
            run(BuildState::Spawn, events.take(n)),
            events[n],
        ),
{
    runs_go_step_by_step(BuildState::Spawn, events.take(n), events[n]);
    assert(events.take(n + 1) =~= events.take(n).push(events[n]));
}

/// On every network port, and however many times the child was not ready yet, a build ends with
/// the child on that port as soon as it accepts the connection, and not before.
pub proof fn accepted_connections_end_builds(port: u16, events: Seq<BuildEvent>, rounds: int)
    requires
        rounds >= 0,
        events.len() == 2 + 3 * rounds,
        events[0] == BuildEvent::Spawned(true),
        forall|i: int|
            0 <= i < rounds ==> #[trigger] events[1 + 3 * i] == BuildEvent::Connected(false),
        forall|i: int|
            0 <= i < rounds ==> (#[trigger] events[2 + 3 * i] matches BuildEvent::Checked(check)
                && check != (ExitCheck::Exited { success: false })),
        forall|i: int| 0 <= i < rounds ==> #[trigger] events[3 + 3 * i] == BuildEvent::Slept,
        events.last() == BuildEvent::Connected(true),
    ensures
        outcome_of(Build { port, state: run(BuildState::Spawn, events) }) == Some(
            Ok::<u16, ChildBuildError>(port),
        ),
        outcome_of(Build { port, state: run(BuildState::Spawn, events.drop_last()) }) is None,
{
    lemma_rounds(events, rounds);
    lemma_take_step(events, 1 + 3 * rounds);
    assert(events.take(events.len() as int) =~= events);
    assert(events.drop_last() =~= events.take(1 + 3 * rounds));
}

/// On every network port, a build ends without a child where the process cannot be started, and
/// where, after however many rounds, it has exited with a failure: then not before its error
/// output was given time and shown.
pub proof fn failures_end_builds(port: u16, events: Seq<BuildEvent>, rounds: int)
    requires
        rounds >= 0,
        events.len() == 5 + 3 * rounds,
        events[0] == BuildEvent::Spawned(true),
        forall|i: int|
            0 <= i < rounds ==> #[trigger] events[1 + 3 * i] == BuildEvent::Connected(false),
        forall|i: int|
            0 <= i < rounds ==> (#[trigger] events[2 + 3 * i] matches BuildEvent::Checked(check)
                && check != (ExitCheck::Exited { success: false })),
        forall|i: int| 0 <= i < rounds ==> #[trigger] events[3 + 3 * i] == BuildEvent::Slept,
        events[events.len() - 4] == BuildEvent::Connected(false),
        events[events.len() - 3] == BuildEvent::Checked(ExitCheck::Exited { success: false }),
        events[events.len() - 2] == BuildEvent::Slept,
        events[events.len() - 1] == BuildEvent::Reported,
    ensures
        outcome_of(Build { port, state: run(BuildState::Spawn, events) }) == Some(
            Err::<u16, ChildBuildError>(ChildBuildError),
        ),
        outcome_of(Build { port, state: run(BuildState::Spawn, events.drop_last()) }) is None,
        outcome_of(
            Build { port, state: run(BuildState::Spawn, seq![BuildEvent::Spawned(false)]) },
        ) == Some(Err::<u16, ChildBuildError>(ChildBuildError)),
{
    let n: int = 1 + 3 * rounds;
    lemma_rounds(events, rounds);
    lemma_take_step(events, n);
    lemma_take_step(events, n + 1);
    lemma_take_step(events, n + 2);
    lemma_take_step(events, n + 3);
    assert(events.take(events.len() as int) =~= events);
    assert(events.drop_last() =~= events.take(n + 3));
    runs_go_step_by_step(BuildState::Spawn, Seq::empty(), BuildEvent::Spawned(false));
    assert(seq![BuildEvent::Spawned(false)] =~= Seq::<BuildEvent>::empty().push(
        BuildEvent::Spawned(false),
    ));
}

/// Whatever has happened: a build that has ended without a child could not start one, or the child
/// has exited with a failure; and one that has ended with a child names its own network port, and
/// the child has accepted a connection.
pub proof fn outcomes_have_their_reason(port: u16, events: Seq<BuildEvent>)
    ensures
        outcome_of(Build { port, state: run(BuildState::Spawn, events) }) matches Some(Err(_))
            ==> events.contains(BuildEvent::Spawned(false)) || events.contains(
            BuildEvent::Checked(ExitCheck::Exited { success: false }),
        ),
        outcome_of(Build { port, state: run(BuildState::Spawn, events) }) matches Some(Ok(p)) ==> p
            == port && events.contains(BuildEvent::Connected(true)),
{
    failed_means_told(events);
    ready_means_connected(events);
}

/// Of a sequence the last elements are left, as many as asked for or as there are, in their order.
pub proof fn the_end_is_left<T>(s: Seq<T>, n: nat)
    ensures
        last_of(s, n).len() == if s.len() < n {
            s.len()
        } else {
            n
        },
        forall|i: int|
            0 <= i < last_of(s, n).len() ==> #[trigger] last_of(s, n)[i] == s[s.len() - last_of(
                s,
                n,
            ).len() + i],
{
}

/// Of any number of lines the last twenty are kept, in their order, and all of them where there
/// are no more.
pub proof fn twenty_lines_are_kept(lines: Seq<Seq<char>>)
    ensures
        lines.len() <= 20 ==> kept_after(Seq::empty(), lines) == lines,
        lines.len() > 20 ==> kept_after(Seq::empty(), lines) == lines.subrange(
            lines.len() - 20,
            lines.len() as int,
        ),
{
    last_lines_are_kept(lines);
}

/// A failure is told in a line, and where there is error output, line by line and indented
/// between blank lines.
pub proof fn reports_show_every_line(lines: Seq<Seq<char>>)
    ensures
        lines.len() == 0 ==> failure_report(lines) == seq!["build failed"@],
        lines.len() > 0 ==> {
            let shown = failure_report(lines);
            &&& shown.len() == lines.len() + 4
            &&& shown[0] == ""@ && shown[2] == ""@ && shown.last() == ""@
            &&& shown[1] == "build failed:"@
            &&& forall|i: int| 0 <= i < lines.len() ==> shown[i + 3] == "  "@ + #[trigger] lines[i]
        },
{
}

/// A build starts from the command that its arguments stand for.
pub proof fn builds_start_from_their_command<D>(args: Seq<Seq<char>>, port: u16, current_dir: D)
    ensures
        started_from(args, port, current_dir) == command_for(
            args,
            Seq::new(
                args.len(),
                |i: int| args[i].len() > 0 && crate::command::char_uppercase(args[i][0]),
            ),
            port,
            current_dir,
        ),
{
    assert(uppercase_starts(args) =~= Seq::new(
        args.len(),
        |i: int| args[i].len() > 0 && crate::command::char_uppercase(args[i][0]),
    ));
}

} // verus!
