//! Answering a request: forwarded to the child, or refused.

use crate::command::ChildBuildError;
use crate::server::Child;
use crate::server::serve;
use vstd::prelude::*;

verus! {

/// The status of the answer where the child cannot answer.
pub const INTERNAL_SERVER_ERROR: u16 = 500;

/// An answer.
#[derive(Debug, Clone, Copy, PartialEq, Eq, Structural)]
pub enum Answer {
    /// The child's own answer, as it is.
    Forward,
    /// An empty answer with this status.
    Status(u16),
}

/// What is to be done next to answer a request.
#[derive(Debug, Clone, Copy, PartialEq, Eq, Structural)]
pub enum ProxyState {
    /// Ask for the child's network port.
    GetPort,
    /// Connect to the child.
    Connect { port: u16 },
    /// Send the request to the child.
    Send,
    /// Answer.
    Respond(Answer),
}

/// What came of it.
#[derive(Debug, Clone, Copy, PartialEq, Eq, Structural)]
pub enum ProxyEvent {
    /// The child's network port, or nothing where there is no child.
    Port(Option<u16>),
    /// Whether the child accepted the connection.
    Connected(bool),
    /// Whether the child answered.
    Sent(bool),
}

/// What follows in `state` on `event`. An event that does not belong to the state changes nothing.
pub open spec fn next_proxy(state: ProxyState, event: ProxyEvent) -> ProxyState {
    match (state, event) {
        (ProxyState::GetPort, ProxyEvent::Port(Some(port))) => ProxyState::Connect { port },
        (ProxyState::Connect { .. }, ProxyEvent::Connected(true)) => ProxyState::Send,
        (ProxyState::Send, ProxyEvent::Sent(true)) => ProxyState::Respond(Answer::Forward),
        (ProxyState::GetPort, ProxyEvent::Port(None))
        | (ProxyState::Connect { .. }, ProxyEvent::Connected(false))
        | (ProxyState::Send, ProxyEvent::Sent(false)) => ProxyState::Respond(
            Answer::Status(INTERNAL_SERVER_ERROR),
        ),
        _ => state,
    }
}

impl ProxyState {
    /// How the answering of a request begins.
    pub fn new() -> (r: ProxyState)
        ensures
            r == ProxyState::GetPort,
    {
        ProxyState::GetPort
    }

    /// What follows on `event`.
    pub fn next(self, event: ProxyEvent) -> (r: ProxyState)
        ensures
            r == next_proxy(self, event),
    {
        let refused = ProxyState::Respond(Answer::Status(INTERNAL_SERVER_ERROR));
        match (self, event) {
            (ProxyState::GetPort, ProxyEvent::Port(port)) => {
                match port {
                    Some(port) => ProxyState::Connect { port },
                    None => refused,
                }
            },
            (ProxyState::Connect { .. }, ProxyEvent::Connected(connected)) => {
                if connected {
                    ProxyState::Send
                } else {
                    refused
                }
            },
            (ProxyState::Send, ProxyEvent::Sent(sent)) => {
                if sent {
                    ProxyState::Respond(Answer::Forward)
                } else {
                    refused
                }
            },
            _ => self,
        }
    }
}

/// Where a request ends up, given what each step would bring.
pub open spec fn answered(port: Option<u16>, connected: bool, sent: bool) -> ProxyState {
    let state1 = next_proxy(ProxyState::GetPort, ProxyEvent::Port(port));
    let state2 = next_proxy(state1, ProxyEvent::Connected(connected));
    next_proxy(state2, ProxyEvent::Sent(sent))
}

/// Every request goes to the child's network port, and is answered: with the child's answer where
/// there is a child, it accepts the connection and answers, and with an internal server error
/// else.
pub proof fn every_request_is_answered(port: Option<u16>, connected: bool, sent: bool)
    ensures
        port matches Some(p) ==> next_proxy(ProxyState::GetPort, ProxyEvent::Port(port)) == (
        ProxyState::Connect { port: p }),
        answered(port, connected, sent) == ProxyState::Respond(
            if port is Some && connected && sent {
                Answer::Forward
            } else {
                Answer::Status(INTERNAL_SERVER_ERROR)
            },
        ),
{
}

/// A request whose build fails is answered with an internal server error, whatever there was
/// before, unless a child runs.
pub proof fn failed_builds_refuse_requests<C>(
    child: Child<C>,
    failed: ChildBuildError,
    connected: bool,
    sent: bool,
)
    requires
        !(child matches Ok(Some(_))),
    ensures
        answered(serve(child, Err(failed)).reply, connected, sent) == ProxyState::Respond(
            Answer::Status(INTERNAL_SERVER_ERROR),
        ),
{
}

/// Each step asks for one thing, and whatever comes of it the request moves on: from the port to
/// the connection to that very port, from an accepted connection to sending, from an answer to
/// forwarding it, and from any failure to a refusal. It never goes back and never stays.
pub proof fn requests_move_on(port: u16)
    ensures
        next_proxy(ProxyState::GetPort, ProxyEvent::Port(Some(port))) == (ProxyState::Connect {
            port,
        }),
        next_proxy(ProxyState::GetPort, ProxyEvent::Port(None)) == ProxyState::Respond(
            Answer::Status(500),
        ),
        next_proxy(ProxyState::Connect { port }, ProxyEvent::Connected(true)) == ProxyState::Send,
        next_proxy(ProxyState::Connect { port }, ProxyEvent::Connected(false))
            == ProxyState::Respond(Answer::Status(500)),
        next_proxy(ProxyState::Send, ProxyEvent::Sent(true)) == ProxyState::Respond(
            Answer::Forward,
        ),
        next_proxy(ProxyState::Send, ProxyEvent::Sent(false)) == ProxyState::Respond(
            Answer::Status(500),
        ),
{
}

/// An event that a step did not ask for leaves it as it is, and an answer is final.
pub proof fn other_events_change_nothing(
    port: u16,
    answer: Answer,
    event: ProxyEvent,
    given: Option<u16>,
    worked: bool,
)
    ensures
        next_proxy(ProxyState::Respond(answer), event) == ProxyState::Respond(answer),
        next_proxy(ProxyState::GetPort, ProxyEvent::Connected(worked)) == ProxyState::GetPort,
        next_proxy(ProxyState::GetPort, ProxyEvent::Sent(worked)) == ProxyState::GetPort,
        next_proxy(ProxyState::Connect { port }, ProxyEvent::Port(given)) == (ProxyState::Connect {
            port,
        }),
        next_proxy(ProxyState::Connect { port }, ProxyEvent::Sent(worked)) == (
        ProxyState::Connect { port }),
        next_proxy(ProxyState::Send, ProxyEvent::Port(given)) == ProxyState::Send,
        next_proxy(ProxyState::Send, ProxyEvent::Connected(worked)) == ProxyState::Send,
{
}

/// Given to each step what it asks for, a request is answered after three steps at most, by the
/// child exactly where there is one and it takes the connection and the request.
pub proof fn three_steps_answer(port: Option<u16>, connected: bool, sent: bool)
    ensures
        ({
            let asked = |state: ProxyState|
                match state {
                    ProxyState::GetPort => ProxyEvent::Port(port),
                    ProxyState::Connect { .. } => ProxyEvent::Connected(connected),
                    _ => ProxyEvent::Sent(sent),
                };
            let state1 = next_proxy(ProxyState::GetPort, asked(ProxyState::GetPort));
            let state2 = next_proxy(state1, asked(state1));
            let state3 = next_proxy(state2, asked(state2));
            &&& state3 == ProxyState::Respond(Answer::Forward) || state3 == ProxyState::Respond(
                Answer::Status(500),
            )
            &&& state3 == ProxyState::Respond(Answer::Forward) <==> port is Some && connected
                && sent
            &&& port is None ==> state1 == ProxyState::Respond(Answer::Status(500))
            &&& !connected ==> state2 == ProxyState::Respond(Answer::Status(500))
        }),
{
}

} // verus!
