//! Stopping a child server, and whatever else listens on its network port.

use crate::text::after_first_line;
use crate::text::chars_of;
use crate::text::decimal;
use crate::text::decimal_reads_back;
use crate::text::decimal_string;
use crate::text::first_is_run_before;
use crate::text::first_line;
use crate::text::integer;
use crate::text::lines;
use crate::text::parse_i32;
use crate::text::texts;
use vstd::prelude::*;
use vstd::utf8::decode_utf8;
use vstd::utf8::valid_utf8;

verus! {

/// What is to be done next to stop a child.
#[derive(Debug, Clone, Copy, PartialEq, Eq, Structural)]
pub enum StopState {
    /// Ask the child for its process id.
    Identify { port: u16 },
    /// Kill the process.
    Kill { pid: i32, port: u16 },
    /// Kill the processes that still listen on the child's network port.
    Sweep { port: u16 },
    /// Nothing.
    Done,
}

/// What came of it.
#[derive(Debug, Clone, Copy, PartialEq, Eq, Structural)]
pub enum StopEvent {
    /// The child's process id, or nothing where it has exited.
    Identified(Option<u32>),
    /// Whether the process was killed.
    Killed(bool),
    /// The port was swept.
    Swept,
}

/// The number that the system calls take for a process id: the same bits, read as signed.
pub open spec fn raw_pid(id: u32) -> int {
    if id <= i32::MAX {
        id as int
    } else {
        id - 0x1_0000_0000
    }
}

/// What follows in `state` on `event`. An event that does not belong to the state changes nothing.
pub open spec fn next_stop(state: StopState, event: StopEvent) -> StopState {
    match (state, event) {
        (StopState::Identify { port }, StopEvent::Identified(Some(id))) => StopState::Kill {
            pid: raw_pid(id) as i32,
            port,
        },
        (StopState::Identify { .. }, StopEvent::Identified(None)) => StopState::Done,
        (StopState::Kill { port, .. }, StopEvent::Killed(true)) => StopState::Sweep { port },
        (StopState::Kill { .. }, StopEvent::Killed(false)) => StopState::Done,
        (StopState::Sweep { .. }, StopEvent::Swept) => StopState::Done,
        _ => state,
    }
}

/// Reads an unsigned process id as signed.
fn signed_pid(id: u32) -> (pid: i32)
    ensures
        pid == raw_pid(id),
{
    if id <= 0x7fff_ffff {
        id as i32
    } else {
        (id as i64 - 0x1_0000_0000) as i32
    }
}

impl StopState {
    /// How the stopping of a child on `port` begins.
    pub fn new(port: u16) -> (r: StopState)
        ensures
            r == (StopState::Identify { port }),
    {
        StopState::Identify { port }
    }

    /// What follows on `event`.
    pub fn next(self, event: StopEvent) -> (r: StopState)
        ensures
            r == next_stop(self, event),
            self matches StopState::Identify { port } ==> (event matches StopEvent::Identified(
                Some(id),
            ) ==> (r matches StopState::Kill { pid, port: kept } && kept == port && (pid == id
                || pid + 0x1_0000_0000 == id))),
    {
        match (self, event) {
            (StopState::Identify { port }, StopEvent::Identified(id)) => {
                match id {
                    Some(id) => StopState::Kill { pid: signed_pid(id), port },
                    None => StopState::Done,
                }
            },
            (StopState::Kill { port, .. }, StopEvent::Killed(killed)) => {
                if killed {
                    StopState::Sweep { port }
                } else {
                    StopState::Done
                }
            },
            (StopState::Sweep { .. }, StopEvent::Swept) => StopState::Done,
            _ => self,
        }
    }
}

/// A child that has a process id is killed under it, and its own network port is swept exactly
/// where that worked.
pub proof fn killed_children_leave_no_listeners(port: u16, id: u32, killed: bool)
    ensures
        ({
            let kill = next_stop(
                StopState::Identify { port },
                StopEvent::Identified(Some(id)),
            );
            let after = next_stop(kill, StopEvent::Killed(killed));
            &&& kill == (StopState::Kill { pid: raw_pid(id) as i32, port })
            &&& killed ==> after == (StopState::Sweep { port })
            &&& !killed ==> after == StopState::Done
        }),
        next_stop(StopState::Identify { port }, StopEvent::Identified(None)) == StopState::Done,
{
}

/// The arguments with which `lsof` lists the processes that use a network port.
pub fn lsof_args(port: u16) -> (r: Vec<String>)
    ensures
        texts(r@) == seq!["-ti"@, ":"@ + decimal(port as nat)],
{
    let mut filter: String = ":".to_owned();
    filter.append(decimal_string(port).as_str());
    let mut r: Vec<String> = Vec::new();
    r.push("-ti".to_owned());
    r.push(filter);
    assert(texts(r@) =~= seq!["-ti"@, ":"@ + decimal(port as nat)]);
    r
}

/// The process ids that `lsof` listed.
#[derive(Debug, PartialEq, Eq)]
pub struct Listed {
    /// The process ids up to the first line that is none.
    pub pids: Vec<i32>,
    /// Whether every line was a process id.
    pub complete: bool,
}

/// The process id that a line stands for.
pub open spec fn pid_line(line: Seq<char>) -> Option<i32> {
    match integer(line) {
        Some(n) => if i32::MIN <= n <= i32::MAX {
            Some(n as i32)
        } else {
            None
        },
        None => None,
    }
}

/// The process ids at the front of `lines`, up to the first line that is none.
pub open spec fn leading_pids(lines: Seq<Seq<char>>) -> Seq<i32>
    decreases lines.len(),
{
    if lines.len() == 0 || pid_line(lines[0]) is None {
        Seq::empty()
    } else {
        seq![pid_line(lines[0])->0] + leading_pids(lines.drop_first())
    }
}

/// Calls `String::from_utf8`: the text that the bytes encode, or nothing where they are not
/// UTF-8.
#[verifier::external_body]
fn utf8_text(bytes: Vec<u8>) -> (text: Option<String>)
    ensures
        match text {
            Some(text) => valid_utf8(bytes@) && text@ == decode_utf8(bytes@),
            None => !valid_utf8(bytes@),
        },
{
    String::from_utf8(bytes).ok()
}

/// Reads the output of `lsof`. Output that is not UTF-8 lists nothing.
pub fn listed_pids(stdout: Vec<u8>) -> (r: Listed)
    ensures
        !valid_utf8(stdout@) ==> r.pids@ == Seq::<i32>::empty() && !r.complete,
        valid_utf8(stdout@) ==> {
            let all = lines(decode_utf8(stdout@));
            r.pids@ == leading_pids(all) && r.complete == (r.pids@.len() == all.len())
        },
{
    match utf8_text(stdout) {
        Some(text) => read_pids(&chars_of(text.as_str())),
        None => Listed { pids: Vec::new(), complete: false },
    }
}

/// Reads one process id from each line.
fn read_pids(text: &Vec<char>) -> (r: Listed)
    ensures
        r.pids@ == leading_pids(lines(text@)),
        r.complete == (r.pids@.len() == lines(text@).len()),
{
    let mut pids: Vec<i32> = Vec::new();
    let mut at: usize = 0;
    assert(text@.skip(0) =~= text@);
    while at < text.len()
        invariant
            at <= text@.len(),
            leading_pids(lines(text@)) == pids@ + leading_pids(lines(text@.skip(at as int))),
            lines(text@).len() == pids@.len() + lines(text@.skip(at as int)).len(),
        decreases text.len() - at,
    {
        let ghost rest = text@.skip(at as int);
        let mut feed: usize = at;
        while feed < text.len() && text[feed] != '\n'
            invariant
                at <= feed <= text@.len(),
                rest == text@.skip(at as int),
                forall|i: int| 0 <= i < feed - at ==> rest[i] != '\n',
            decreases text.len() - feed,
        {
            feed = feed + 1;
        }
        proof {
            first_is_run_before(rest, '\n', feed - at);
        }
        let end: usize = if at < feed && feed < text.len() && text[feed - 1] == '\r' {
            feed - 1
        } else {
            feed
        };
        assert(text@.subrange(at as int, end as int) =~= first_line(rest));
        assert(lines(rest) =~= seq![first_line(rest)] + lines(after_first_line(rest)));
        assert(lines(rest)[0] == first_line(rest));
        assert(lines(rest).drop_first() =~= lines(after_first_line(rest)));
        let ghost before = pids@;
        match parse_i32(text, at, end) {
            Some(pid) => {
                pids.push(pid);
            },
            None => {
                assert(before + Seq::<i32>::empty() =~= before);
                return Listed { pids, complete: false };
            },
        }
        at = if feed < text.len() {
            feed + 1
        } else {
            feed
        };
        assert(text@.skip(at as int) =~= after_first_line(rest));
        assert(pids@ + leading_pids(lines(text@.skip(at as int))) =~= before + leading_pids(
            lines(rest),
        ));
    }
    assert(text@.skip(at as int) =~= Seq::<char>::empty());
    assert(pids@ + Seq::<i32>::empty() =~= pids@);
    Listed { pids, complete: true }
}

/// The process ids read are those of the lines up to the first that is none, in their order.
pub proof fn reading_ends_at_first_other_line(lines: Seq<Seq<char>>)
    ensures
        leading_pids(lines).len() <= lines.len(),
        forall|i: int|
            0 <= i < leading_pids(lines).len() ==> pid_line(lines[i]) == Some(
                #[trigger] leading_pids(lines)[i],
            ),
        leading_pids(lines).len() < lines.len() ==> pid_line(
            lines[leading_pids(lines).len() as int],
        ) is None,
    decreases lines.len(),
{
    if lines.len() != 0 && pid_line(lines[0]) is Some {
        let rest = lines.drop_first();
        reading_ends_at_first_other_line(rest);
        assert forall|i: int| 0 <= i < leading_pids(lines).len() implies pid_line(lines[i]) == Some(
            #[trigger] leading_pids(lines)[i],
        ) by {
            if i > 0 {
                assert(leading_pids(lines)[i] == leading_pids(rest)[i - 1]);
                assert(lines[i] == rest[i - 1]);
            }
        }
        let n: int = leading_pids(rest).len() as int;
        if n < rest.len() {
            assert(lines[n + 1] == rest[n]);
        }
    }
}

/// How a sweep goes on.
#[derive(Debug, Clone, Copy, PartialEq, Eq, Structural)]
pub enum SweepAction {
    /// Kill this process.
    Kill(i32),
    /// Nothing: every listed process was killed.
    Done,
    /// Stop with an error: a process could not be killed, or a line was no process id.
    GiveUp,
}

/// How a sweep goes on after `at` processes were killed, the last of them as `worked` says. The
/// listed processes come one after the other; the first that cannot be killed ends the sweep, as
/// does the first line that is no process id.
pub open spec fn sweep_action(
    pids: Seq<i32>,
    complete: bool,
    at: nat,
    worked: bool,
) -> SweepAction {
    if !worked {
        SweepAction::GiveUp
    } else if at < pids.len() {
        SweepAction::Kill(pids[at as int])
    } else if complete {
        SweepAction::Done
    } else {
        SweepAction::GiveUp
    }
}

impl Listed {
    /// How the sweep goes on after signals were sent to `at` processes. `worked` says whether the
    /// last one was killed, and is true before the first.
    pub fn next(&self, at: usize, worked: bool) -> (r: SweepAction)
        ensures
            r == sweep_action(self.pids@, self.complete, at as nat, worked),
            worked && at < self.pids@.len() ==> r == SweepAction::Kill(self.pids@[at as int]),
            r == SweepAction::Done <==> worked && at >= self.pids@.len() && self.complete,
    {
        if !worked {
            SweepAction::GiveUp
        } else if at < self.pids.len() {
            SweepAction::Kill(self.pids[at])
        } else if self.complete {
            SweepAction::Done
        } else {
            SweepAction::GiveUp
        }
    }
}

/// The processes that are sent a signal from the `at`th on, in their order, and how the sweep ends,
/// where `works` says of each process whether it can be killed.
pub open spec fn sweep(
    pids: Seq<i32>,
    complete: bool,
    works: Seq<bool>,
    at: nat,
    worked: bool,
) -> (Seq<i32>, SweepAction)
    decreases pids.len() - at,
{
    match sweep_action(pids, complete, at, worked) {
        SweepAction::Kill(pid) => {
            let (rest, end) = sweep(pids, complete, works, at + 1, works[at as int]);
            (seq![pid] + rest, end)
        },
        end => (Seq::empty(), end),
    }
}

/// The first process that cannot be killed ends the sweep with an error: those before it were
/// killed, in their order, and none behind it is sent a signal.
pub proof fn sweeps_end_at_first_failure(
    pids: Seq<i32>,
    complete: bool,
    works: Seq<bool>,
    failing: int,
)
    requires
        works.len() == pids.len(),
        0 <= failing < pids.len(),
        !works[failing],
        forall|i: int| 0 <= i < failing ==> works[i],
    ensures
        sweep(pids, complete, works, 0, true) == (pids.take(failing + 1), SweepAction::GiveUp),
{
    lemma_sweep_to_failure(pids, complete, works, failing, 0);
    assert(pids.subrange(0, failing + 1) =~= pids.take(failing + 1));
}

proof fn lemma_sweep_to_failure(
    pids: Seq<i32>,
    complete: bool,
    works: Seq<bool>,
    failing: int,
    at: nat,
)
    requires
        works.len() == pids.len(),
        at <= failing < pids.len(),
        !works[failing],
        forall|i: int| 0 <= i < failing ==> works[i],
    ensures
        sweep(pids, complete, works, at, true) == (
            pids.subrange(at as int, failing + 1),
            SweepAction::GiveUp,
        ),
    decreases failing - at,
{
    reveal_with_fuel(sweep, 3);
    if at < failing {
        lemma_sweep_to_failure(pids, complete, works, failing, at + 1);
        assert(works[at as int]);
        assert(seq![pids[at as int]] + pids.subrange(at as int + 1, failing + 1) =~= pids.subrange(
            at as int,
            failing + 1,
        ));
    } else {
        assert(seq![pids[at as int]] + Seq::<i32>::empty() =~= pids.subrange(
            at as int,
            failing + 1,
        ));
    }
}

/// Where every process can be killed, all that were read are, in their order. The sweep then ends
/// with an error exactly where a line was no process id.
pub proof fn sweeps_reach_every_pid(pids: Seq<i32>, complete: bool, works: Seq<bool>)
    requires
        works.len() == pids.len(),
        forall|i: int| 0 <= i < works.len() ==> works[i],
    ensures
        sweep(pids, complete, works, 0, true) == (
            pids,
            if complete {
                SweepAction::Done
            } else {
                SweepAction::GiveUp
            },
        ),
{
    lemma_sweep_to_end(pids, complete, works, 0);
    assert(pids.skip(0) =~= pids);
}

proof fn lemma_sweep_to_end(pids: Seq<i32>, complete: bool, works: Seq<bool>, at: nat)
    requires
        works.len() == pids.len(),
        at <= pids.len(),
        forall|i: int| 0 <= i < works.len() ==> works[i],
    ensures
        sweep(pids, complete, works, at, true) == (
            pids.skip(at as int),
            if complete {
                SweepAction::Done
            } else {
                SweepAction::GiveUp
            },
        ),
    decreases pids.len() - at,
{
    if at < pids.len() {
        lemma_sweep_to_end(pids, complete, works, at + 1);
        assert(works[at as int]);
        assert(seq![pids[at as int]] + pids.skip(at as int + 1) =~= pids.skip(at as int));
    } else {
        assert(pids.skip(at as int) =~= Seq::<i32>::empty());
    }
}

/// Process ids, each on a line of its own.
pub open spec fn listing(pids: Seq<nat>) -> Seq<char>
    decreases pids.len(),
{
    if pids.len() == 0 {
        Seq::empty()
    } else {
        decimal(pids[0]) + seq!['\n'] + listing(pids.drop_first())
    }
}

/// A list of process ids is read back whole.
pub proof fn listings_read_back(pids: Seq<nat>)
    requires
        forall|i: int| 0 <= i < pids.len() ==> #[trigger] pids[i] <= i32::MAX,
    ensures
        leading_pids(lines(listing(pids))) == pids.map_values(|pid: nat| pid as i32),
        lines(listing(pids)).len() == pids.len(),
    decreases pids.len(),
{
    let text = listing(pids);
    let read = pids.map_values(|pid: nat| pid as i32);
    if pids.len() != 0 {
        let rest = pids.drop_first();
        assert forall|i: int| 0 <= i < rest.len() implies #[trigger] rest[i] <= i32::MAX by {
            assert(rest[i] == pids[i + 1]);
        }
        listings_read_back(rest);
        let line = decimal(pids[0]);
        decimal_reads_back(pids[0]);
        let n: int = line.len() as int;
        assert forall|i: int| 0 <= i < n implies text[i] != '\n' && text[i] != '\r' by {
            assert(text[i] == line[i]);
        }
        first_is_run_before(text, '\n', n);
        assert(first_line(text) =~= line);
        assert(after_first_line(text) =~= listing(rest));
        assert(lines(text).drop_first() =~= lines(listing(rest)));
        assert(lines(text)[0] == line);
        assert(leading_pids(lines(text)) =~= read);
    } else {
        assert(leading_pids(lines(text)) =~= read);
    }
}

/// The signal goes to the process that was identified: under its own id, or, where an `i32` is too
/// small for it, under the negative number that is the same modulo two to the thirty-second. The
/// network port stays the child's own.
pub proof fn the_identified_process_is_killed(port: u16, id: u32)
    ensures
        match next_stop(StopState::Identify { port }, StopEvent::Identified(Some(id))) {
            StopState::Kill { pid, port: kept } => {
                &&& kept == port
                &&& id <= 0x7fff_ffff ==> pid == id
                &&& id > 0x7fff_ffff ==> pid + 0x1_0000_0000 == id
            },
            _ => false,
        },
        next_stop(StopState::Identify { port }, StopEvent::Identified(None)) == StopState::Done,
{
}

/// A kill that worked is followed by a sweep of the same network port, a kill that failed by
/// nothing, and a sweep by nothing more.
pub proof fn kills_are_followed_by_sweeps(pid: i32, port: u16)
    ensures
        next_stop(StopState::Kill { pid, port }, StopEvent::Killed(true)) == (StopState::Sweep {
            port,
        }),
        next_stop(StopState::Kill { pid, port }, StopEvent::Killed(false)) == StopState::Done,
        next_stop(StopState::Sweep { port }, StopEvent::Swept) == StopState::Done,
{
}

/// An event that a step did not ask for leaves it as it is, and what is done stays done.
pub proof fn other_events_stop_nothing(
    pid: i32,
    port: u16,
    id: Option<u32>,
    killed: bool,
    event: StopEvent,
)
    ensures
        next_stop(StopState::Done, event) == StopState::Done,
        next_stop(StopState::Identify { port }, StopEvent::Killed(killed)) == (
        StopState::Identify { port }),
        next_stop(StopState::Identify { port }, StopEvent::Swept) == (StopState::Identify { port }),
        next_stop(StopState::Kill { pid, port }, StopEvent::Identified(id)) == (StopState::Kill {
            pid,
            port,
        }),
        next_stop(StopState::Kill { pid, port }, StopEvent::Swept) == (StopState::Kill {
            pid,
            port,
        }),
        next_stop(StopState::Sweep { port }, StopEvent::Identified(id)) == (StopState::Sweep {
            port,
        }),
        next_stop(StopState::Sweep { port }, StopEvent::Killed(killed)) == (StopState::Sweep {
            port,
        }),
{
}

/// A line is a process id exactly where it stands for an integer that is one.
pub proof fn pid_lines_are_integers(line: Seq<char>, pid: i32)
    ensures
        pid_line(line) == Some(pid) <==> integer(line) == Some(pid as int),
{
}

/// As long as every signal worked, the next process in line gets one. A failure ends the sweep at
/// once, and behind the last process it ends well exactly where every line was read.
pub proof fn sweeps_go_down_the_list(pids: Seq<i32>, complete: bool, at: nat, worked: bool)
    ensures
        at < pids.len() ==> sweep_action(pids, complete, at, true) == SweepAction::Kill(
            pids[at as int],
        ),
        sweep_action(pids, complete, at, false) == SweepAction::GiveUp,
        at >= pids.len() ==> sweep_action(pids, true, at, true) == SweepAction::Done,
        at >= pids.len() ==> sweep_action(pids, false, at, true) == SweepAction::GiveUp,
{
}

} // verus!
