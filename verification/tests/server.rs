use build_proxy::child::{Build, BuildState};
use build_proxy::command::ChildBuildError;
use build_proxy::proxy::{Answer, ProxyEvent, ProxyState};
use build_proxy::server::{MsgAction, PortRequest, Server};

type Built = Result<(&'static str, u16), ChildBuildError>;

/// Serves one request; every build comes out as `built`. Gives the answer and the builds made.
fn serve(server: &mut Server<&'static str, &'static str>, built: Built) -> (Option<u16>, usize) {
    let mut request = PortRequest::new();
    let mut builds = 0;
    loop {
        match server.handle_msg(&mut request) {
            MsgAction::Reply(port) => return (port, builds),
            MsgAction::Build => {
                builds += 1;
                server.child_built(built);
            }
        }
    }
}

fn args() -> Vec<String> {
    vec!["go".to_string(), "run".to_string()]
}

#[test]
fn the_first_build_is_stored() {
    let server = Server::new("/p", args(), Ok(("a", 4001)));
    assert_eq!(server.child, Ok(Some(("a", 4001))));
    assert_eq!(server.args, args());
    let server: Server<&str, &str> = Server::new("/p", args(), Err(ChildBuildError));
    assert_eq!(server.child, Err(ChildBuildError));
}

#[test]
fn a_running_child_answers_without_a_build() {
    let mut server = Server::new("/p", args(), Ok(("a", 4001)));
    for _ in 0..3 {
        assert_eq!(serve(&mut server, Ok(("b", 4002))), (Some(4001), 0));
    }
    assert_eq!(server.child, Ok(Some(("a", 4001))));
}

#[test]
fn rebuild_on_file_change() {
    let mut server = Server::new("/p", args(), Ok(("a", 4001)));
    assert_eq!(server.handle_fs_event(), Some(("a", 4001)));
    assert_eq!(server.child, Ok(None));
    assert_eq!(serve(&mut server, Ok(("b", 4002))), (Some(4002), 1));
    assert_eq!(serve(&mut server, Ok(("c", 4003))), (Some(4002), 0));
    assert_eq!(server.args, args());
    assert_eq!(server.pwd, "/p");
}

#[test]
fn every_build_runs_the_same_command_in_the_same_directory() {
    let mut server = Server::new("/path/to/project", args(), Ok(("a", 4001)));
    for port in [4002, 4003] {
        server.handle_fs_event();
        let (build, command) = server.build(port).unwrap();
        assert_eq!(build, Build { port, state: BuildState::Spawn });
        assert_eq!(command.program, "go");
        assert_eq!(command.args, vec!["run".to_string()]);
        assert_eq!(command.envs, vec![("PORT".to_string(), port.to_string())]);
        assert_eq!(*command.current_dir, "/path/to/project");
        serve(&mut server, Ok(("b", port)));
    }
    let empty: Server<&str, &str> = Server::new("/p", vec![], Err(ChildBuildError));
    assert_eq!(empty.build(4001), Err(ChildBuildError));
}

#[test]
fn file_changes_alone_build_nothing() {
    let mut server = Server::new("/p", args(), Ok(("a", 4001)));
    assert_eq!(server.handle_fs_event(), Some(("a", 4001)));
    assert_eq!(server.handle_fs_event(), None);
    assert_eq!(server.handle_fs_event(), None);
    assert_eq!(serve(&mut server, Ok(("b", 4002))), (Some(4002), 1));
}

#[test]
fn a_failed_build_is_retried_by_the_next_request() {
    let mut server = Server::new("/p", args(), Err(ChildBuildError));
    assert_eq!(serve(&mut server, Err(ChildBuildError)), (None, 1));
    assert_eq!(server.child, Err(ChildBuildError));
    assert_eq!(serve(&mut server, Err(ChildBuildError)), (None, 1));
    assert_eq!(serve(&mut server, Ok(("a", 4001))), (Some(4001), 1));
}

#[test]
fn a_file_change_clears_a_failed_build() {
    let mut server: Server<&str, &str> = Server::new("/p", args(), Err(ChildBuildError));
    assert_eq!(server.handle_fs_event(), None);
    assert_eq!(server.child, Ok(None));
    assert_eq!(serve(&mut server, Err(ChildBuildError)), (None, 1));
}

#[test]
fn started_children_run_or_were_stopped() {
    let mut server: Server<&str, &str> = Server::new("/p", args(), Err(ChildBuildError));
    let (mut started, mut stopped, mut changes) = (0, 0, 0);
    for i in 0..40u16 {
        if i % 3 == 0 {
            changes += 1;
            stopped += server.handle_fs_event().is_some() as usize;
        } else {
            let built = if i % 4 == 0 { Err(ChildBuildError) } else { Ok(("x", i)) };
            let (_, builds) = serve(&mut server, built);
            assert!(builds <= 1);
            started += (builds == 1 && built.is_ok()) as usize;
        }
        let running = matches!(server.child, Ok(Some(_))) as usize;
        assert_eq!(started, stopped + running);
        assert!(started <= changes + 1);
    }
    assert!(started > 5);
}

fn answer(port: Option<u16>, connected: bool, sent: bool) -> ProxyState {
    ProxyState::new()
        .next(ProxyEvent::Port(port))
        .next(ProxyEvent::Connected(connected))
        .next(ProxyEvent::Sent(sent))
}

#[test]
fn requests_are_forwarded() {
    let connect = ProxyState::new().next(ProxyEvent::Port(Some(4001)));
    assert_eq!(connect, ProxyState::Connect { port: 4001 });
    assert_eq!(connect.next(ProxyEvent::Connected(true)), ProxyState::Send);
    assert_eq!(answer(Some(4001), true, true), ProxyState::Respond(Answer::Forward));
}

#[test]
fn what_the_child_cannot_answer_is_refused() {
    let refused = ProxyState::Respond(Answer::Status(500));
    assert_eq!(answer(None, true, true), refused);
    assert_eq!(answer(Some(4001), false, true), refused);
    assert_eq!(answer(Some(4001), true, false), refused);
}

#[test]
fn a_failed_build_refuses_the_request() {
    let mut server: Server<&str, &str> = Server::new("/p", args(), Err(ChildBuildError));
    let (port, _) = serve(&mut server, Err(ChildBuildError));
    assert_eq!(answer(port, true, true), ProxyState::Respond(Answer::Status(500)));
}
