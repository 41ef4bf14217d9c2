use build_proxy::child::{Build, BuildEvent, BuildState, ExitCheck, StderrTail, STDERR_LINES};
use build_proxy::command::ChildBuildError;

fn outcome(state: BuildState, port: u16) -> Option<Result<u16, ChildBuildError>> {
    Build { port, state }.outcome()
}

fn run(events: &[BuildEvent]) -> BuildState {
    events.iter().fold(BuildState::Spawn, |state, event| state.next(*event))
}

#[test]
fn a_child_is_ready_once_it_accepts_a_connection() {
    let state = run(&[BuildEvent::Spawned(true), BuildEvent::Connected(true)]);
    assert_eq!(state, BuildState::Ready);
    assert_eq!(outcome(state, 4321), Some(Ok(4321)));
}

#[test]
fn a_build_ends_on_the_port_that_the_child_is_told() {
    let args = vec!["A=b".to_string(), "go".to_string()];
    let (mut build, command) = Build::start(&args, 4321, "/p").unwrap();
    assert_eq!(build, Build { port: 4321, state: BuildState::Spawn });
    assert_eq!(command.program, "go");
    assert_eq!(command.current_dir, "/p");
    assert_eq!(command.envs[1], ("PORT".to_string(), "4321".to_string()));
    build.on_event(BuildEvent::Spawned(true));
    assert_eq!(build.outcome(), None);
    build.on_event(BuildEvent::Connected(true));
    assert_eq!(build.outcome(), Some(Ok(4321)));
}

#[test]
fn a_build_without_a_program_does_not_start() {
    assert_eq!(Build::start(&vec!["A=b".to_string()], 4321, "/p"), Err(ChildBuildError));
}

#[test]
fn a_child_that_is_slow_is_awaited() {
    for check in [
        ExitCheck::Running,
        ExitCheck::Unknown,
        ExitCheck::Exited { success: true },
    ] {
        let paused = run(&[
            BuildEvent::Spawned(true),
            BuildEvent::Connected(false),
            BuildEvent::Checked(check),
        ]);
        assert_eq!(paused, BuildState::Pause);
        assert_eq!(paused.wait_millis(), 100);
        assert_eq!(outcome(paused, 1), None);
        assert_eq!(paused.next(BuildEvent::Slept), BuildState::Connect);
    }
}

#[test]
fn a_child_that_cannot_be_started_is_an_error() {
    let state = run(&[BuildEvent::Spawned(false)]);
    assert_eq!(state, BuildState::Failed);
    assert_eq!(outcome(state, 4321), Some(Err(ChildBuildError)));
}

#[test]
fn a_child_that_fails_is_reported() {
    let flush = run(&[
        BuildEvent::Spawned(true),
        BuildEvent::Connected(false),
        BuildEvent::Checked(ExitCheck::Exited { success: false }),
    ]);
    assert_eq!(flush, BuildState::Flush);
    assert_eq!(flush.wait_millis(), 50);
    let report = flush.next(BuildEvent::Slept);
    assert_eq!(report, BuildState::Report);
    assert_eq!(outcome(report, 1), None);
    let failed = report.next(BuildEvent::Reported);
    assert_eq!(outcome(failed, 1), Some(Err(ChildBuildError)));
    assert_eq!(failed.wait_millis(), 0);
}

#[test]
fn an_ended_build_stays() {
    for event in [
        BuildEvent::Spawned(true),
        BuildEvent::Connected(true),
        BuildEvent::Checked(ExitCheck::Exited { success: false }),
        BuildEvent::Slept,
        BuildEvent::Reported,
    ] {
        assert_eq!(BuildState::Ready.next(event), BuildState::Ready);
        assert_eq!(BuildState::Failed.next(event), BuildState::Failed);
    }
}

#[test]
fn an_event_out_of_place_changes_nothing() {
    assert_eq!(BuildState::Spawn.next(BuildEvent::Connected(true)), BuildState::Spawn);
    assert_eq!(BuildState::Connect.next(BuildEvent::Slept), BuildState::Connect);
}

#[test]
fn the_last_lines_are_kept() {
    assert_eq!(STDERR_LINES, 20);
    let mut tail = StderrTail::new();
    for i in 0..25 {
        tail.push(format!("line {i}"));
    }
    let mut expected = vec!["".to_string(), "build failed:".to_string(), "".to_string()];
    for i in 5..25 {
        expected.push(format!("  line {i}"));
    }
    expected.push("".to_string());
    assert_eq!(tail.report(), expected);
}

#[test]
fn exactly_as_many_lines_as_fit_are_kept() {
    let mut tail = StderrTail::new();
    for i in 0..20 {
        tail.push(i.to_string());
    }
    let report = tail.report();
    assert_eq!(report.len(), 24);
    assert_eq!(report[3], "  0");
    assert_eq!(report[22], "  19");
}

#[test]
fn without_error_output_the_report_is_one_line() {
    assert_eq!(StderrTail::new().report(), vec!["build failed".to_string()]);
}

#[test]
fn recorded_lines_lose_their_colors() {
    let mut tail = StderrTail::new();
    assert_eq!(tail.record("\u{1b}[31merror\u{1b}[0m: no"), "error: no");
    assert_eq!(tail.report()[3], "  error: no");
}
