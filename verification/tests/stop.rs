use build_proxy::stop::{listed_pids, lsof_args, Listed, StopEvent, StopState, SweepAction};

#[test]
fn a_child_is_killed_and_its_port_swept() {
    let state = StopState::new(4001);
    assert_eq!(state, StopState::Identify { port: 4001 });
    let state = state.next(StopEvent::Identified(Some(77)));
    assert_eq!(state, StopState::Kill { pid: 77, port: 4001 });
    let state = state.next(StopEvent::Killed(true));
    assert_eq!(state, StopState::Sweep { port: 4001 });
    assert_eq!(state.next(StopEvent::Swept), StopState::Done);
}

#[test]
fn a_child_that_has_exited_is_left_alone() {
    let state = StopState::new(4001).next(StopEvent::Identified(None));
    assert_eq!(state, StopState::Done);
}

#[test]
fn a_port_is_not_swept_where_killing_failed() {
    let state = StopState::new(4001)
        .next(StopEvent::Identified(Some(77)))
        .next(StopEvent::Killed(false));
    assert_eq!(state, StopState::Done);
}

#[test]
fn process_ids_are_read_as_signed() {
    for id in [0u32, 1, 0x7fff_ffff, 0x8000_0000, u32::MAX] {
        assert_eq!(
            StopState::new(1).next(StopEvent::Identified(Some(id))),
            StopState::Kill { pid: id as i32, port: 1 }
        );
    }
}

#[test]
fn a_stop_event_out_of_place_changes_nothing() {
    assert_eq!(StopState::Done.next(StopEvent::Killed(true)), StopState::Done);
    assert_eq!(StopState::new(1).next(StopEvent::Swept), StopState::new(1));
}

#[test]
fn lsof_is_asked_for_one_port() {
    assert_eq!(lsof_args(4001), vec!["-ti".to_string(), ":4001".to_string()]);
}

fn listed(pids: &[i32], complete: bool) -> Listed {
    Listed { pids: pids.to_vec(), complete }
}

#[test]
fn listed_process_ids_are_read() {
    assert_eq!(listed_pids(b"12\n345\n".to_vec()), listed(&[12, 345], true));
    assert_eq!(listed_pids(b"12\r\n345".to_vec()), listed(&[12, 345], true));
    assert_eq!(listed_pids(b"".to_vec()), listed(&[], true));
}

#[test]
fn a_line_that_is_no_process_id_ends_the_list() {
    assert_eq!(listed_pids(b"12\nx\n345\n".to_vec()), listed(&[12], false));
    assert_eq!(listed_pids(b"12\n\n345\n".to_vec()), listed(&[12], false));
    assert_eq!(listed_pids(b"99999999999\n".to_vec()), listed(&[], false));
    assert_eq!(listed_pids(b"12\n3\r".to_vec()), listed(&[12], false));
}

#[test]
fn output_that_is_no_text_lists_nothing() {
    assert_eq!(listed_pids(b"12\n\xff\n".to_vec()), listed(&[], false));
    assert_eq!(listed_pids("12\né\n".as_bytes().to_vec()), listed(&[12], false));
}

#[test]
fn lines_are_read_as_by_std() {
    let alphabet = ['1', '\r', '\n'];
    let mut texts = vec![String::new()];
    let mut from = 0;
    for _ in 0..6 {
        let to = texts.len();
        for i in from..to {
            for c in alphabet {
                let mut longer = texts[i].clone();
                longer.push(c);
                texts.push(longer);
            }
        }
        from = to;
    }
    for text in texts {
        let parsed: Vec<Option<i32>> = text.lines().map(|line| line.parse().ok()).collect();
        let pids: Vec<i32> = parsed.iter().map_while(|pid| *pid).collect();
        let complete = pids.len() == parsed.len();
        assert_eq!(listed_pids(text.clone().into_bytes()), Listed { pids, complete }, "{text:?}");
    }
}

/// The processes that were sent a signal, and how the sweep ended.
fn sweep(listed: &Listed, failing: Option<i32>) -> (Vec<i32>, SweepAction) {
    let mut sent = Vec::new();
    let mut worked = true;
    loop {
        match listed.next(sent.len(), worked) {
            SweepAction::Kill(pid) => {
                sent.push(pid);
                worked = failing != Some(pid);
            }
            end => return (sent, end),
        }
    }
}

#[test]
fn every_listed_process_is_killed_in_order() {
    assert_eq!(sweep(&listed(&[3, 1, 2], true), None), (vec![3, 1, 2], SweepAction::Done));
    assert_eq!(sweep(&listed(&[], true), None), (vec![], SweepAction::Done));
}

#[test]
fn a_failed_kill_ends_the_sweep() {
    assert_eq!(sweep(&listed(&[3, 1, 2], true), Some(1)), (vec![3, 1], SweepAction::GiveUp));
    assert_eq!(sweep(&listed(&[3, 1, 2], true), Some(2)), (vec![3, 1, 2], SweepAction::GiveUp));
}

#[test]
fn a_bad_line_ends_the_sweep_after_those_before_it() {
    let read = listed_pids(b"3\n1\nx\n2\n".to_vec());
    assert_eq!(sweep(&read, None), (vec![3, 1], SweepAction::GiveUp));
    assert_eq!(sweep(&read, Some(3)), (vec![3], SweepAction::GiveUp));
}
