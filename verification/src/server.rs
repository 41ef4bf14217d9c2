//! The child server in the course of requests and file changes.
//!
//! A child is started when a request needs one and none runs, and stopped when a file changes.

use crate::child::Build;
use crate::child::BuildState;
use crate::child::started_from;
use crate::command::ChildBuildError;
use crate::command::ChildCommand;
use crate::command::CommandText;
use crate::command::command_for;
use crate::command::uppercase_starts;
use crate::text::texts;
use vstd::prelude::*;

verus! {

/// The child server: one that runs, with its network port; none, which the next request starts;
/// or none because the last build failed.
pub type Child<C> = Result<Option<(C, u16)>, ChildBuildError>;

/// What is remembered between requests and file changes. `C` is the handle to a child process, and
/// `D` is how the caller names a directory.
pub struct Server<C, D> {
    /// The child server.
    pub child: Child<C>,
    /// The arguments that stand for the child's command.
    pub args: Vec<String>,
    /// The directory that children run in.
    pub pwd: D,
}

/// One request for the child's network port, while it is being answered.
#[derive(Debug, Clone, Copy, PartialEq, Eq, Structural)]
pub struct PortRequest {
    /// Whether a build was made for this request.
    pub rebuild_attempted: bool,
}

/// How a request for the child's network port goes on.
#[derive(Debug, Clone, Copy, PartialEq, Eq, Structural)]
pub enum MsgAction {
    /// It is answered: with the port, or with nothing where there is no child.
    Reply(Option<u16>),
    /// A child has to be built, and its outcome stored, before the request is taken up again.
    Build,
}

/// What is remembered of a build.
pub open spec fn stored<C>(built: Result<(C, u16), ChildBuildError>) -> Child<C> {
    match built {
        Ok(child) => Ok(Some(child)),
        Err(e) => Err(e),
    }
}

/// How a request goes on: what is remembered of the child, whether a build was made for it, and
/// what to do. A failed build is tried again once for each request.
pub open spec fn on_request<C>(child: Child<C>, attempted: bool) -> (Child<C>, bool, MsgAction) {
    match child {
        Ok(Some((_, port))) => (child, attempted, MsgAction::Reply(Some(port))),
        Ok(None) => (child, true, MsgAction::Build),
        Err(_) => if attempted {
            (child, attempted, MsgAction::Reply(None))
        } else {
            (Ok(None), true, MsgAction::Build)
        },
    }
}

/// What is remembered of the child after a file change.
pub open spec fn changed<C>(child: Child<C>) -> Child<C> {
    Ok(None)
}

/// The child that a file change stops.
pub open spec fn to_stop<C>(child: Child<C>) -> Option<(C, u16)> {
    match child {
        Ok(child) => child,
        Err(_) => None,
    }
}

impl PortRequest {
    /// A request that has just come in.
    pub fn new() -> (r: PortRequest)
        ensures
            !r.rebuild_attempted,
    {
        PortRequest { rebuild_attempted: false }
    }
}

impl<C, D> Server<C, D> {
    /// A server whose first build came out as `built`.
    pub fn new(pwd: D, args: Vec<String>, built: Result<(C, u16), ChildBuildError>) -> (r: Server<
        C,
        D,
    >)
        ensures
            r.child == stored(built),
            built matches Ok(child) ==> r.child == Ok::<Option<(C, u16)>, ChildBuildError>(
                Some(child),
            ),
            built matches Err(e) ==> r.child == Err::<Option<(C, u16)>, ChildBuildError>(e),
            r.args == args,
            r.pwd == pwd,
    {
        let child: Child<C> = match built {
            Ok(child) => Ok(Some(child)),
            Err(e) => Err(e),
        };
        Server { child, args, pwd }
    }

    /// Begins a build on `port`, from the arguments and in the directory of this server.
    pub fn build(&self, port: u16) -> (r: Result<(Build, ChildCommand<&D>), ChildBuildError>)
        ensures
            match r {
                Ok((build, command)) => {
                    &&& build == (Build { port, state: BuildState::Spawn })
                    &&& *command.current_dir == self.pwd
                    &&& command_for(
                        texts(self.args@),
                        uppercase_starts(texts(self.args@)),
                        port,
                        &self.pwd,
                    ) == Ok::<CommandText<&D>, ChildBuildError>(command@)
                    &&& started_from(texts(self.args@), port, &self.pwd) == Ok::<
                        CommandText<&D>,
                        ChildBuildError,
                    >(command@)
                },
                Err(e) => {
                    &&& command_for(
                        texts(self.args@),
                        uppercase_starts(texts(self.args@)),
                        port,
                        &self.pwd,
                    ) is Err
                    &&& started_from(texts(self.args@), port, &self.pwd) == Err::<
                        CommandText<&D>,
                        ChildBuildError,
                    >(e)
                },
            },
    {
        Build::start(&self.args, port, &self.pwd)
    }

    /// Goes on with a request for the child's network port.
    pub fn handle_msg(&mut self, request: &mut PortRequest) -> (action: MsgAction)
        ensures
            (final(self).child, final(request).rebuild_attempted, action) == on_request(
                old(self).child,
                old(request).rebuild_attempted,
            ),
            old(self).child matches Ok(Some((_, port))) ==> action == MsgAction::Reply(Some(port))
                && final(self).child == old(self).child,
            !(old(self).child matches Ok(Some(_))) ==> action == (if old(self).child is Err && old(
                request,
            ).rebuild_attempted {
                MsgAction::Reply(None)
            } else {
                MsgAction::Build
            }),
            final(self).args == old(self).args,
            final(self).pwd == old(self).pwd,
    {
        let port: Option<u16> = match &self.child {
            Ok(Some((_, port))) => Some(*port),
            Ok(None) => None,
            Err(_) => {
                if request.rebuild_attempted {
                    return MsgAction::Reply(None);
                }
                None
            },
        };
        match port {
            Some(port) => MsgAction::Reply(Some(port)),
            None => {
                self.child = Ok(None);
                request.rebuild_attempted = true;
                MsgAction::Build
            },
        }
    }

    /// Stores the outcome of a build.
    pub fn child_built(&mut self, built: Result<(C, u16), ChildBuildError>)
        ensures
            final(self).child == stored(built),
            built matches Ok(child) ==> final(self).child == Ok::<
                Option<(C, u16)>,
                ChildBuildError,
            >(Some(child)),
            built matches Err(e) ==> final(self).child == Err::<Option<(C, u16)>, ChildBuildError>(
                e,
            ),
            final(self).args == old(self).args,
            final(self).pwd == old(self).pwd,
    {
        self.child = match built {
            Ok(child) => Ok(Some(child)),
            Err(e) => Err(e),
        };
    }

    /// Takes in a file change: whatever there was, no child is remembered, and the next request
    /// starts one. The child that ran is handed out to be stopped. Nothing is built.
    pub fn handle_fs_event(&mut self) -> (stop: Option<(C, u16)>)
        ensures
            final(self).child == Ok::<Option<(C, u16)>, ChildBuildError>(None),
            final(self).child == changed(old(self).child),
            stop == to_stop(old(self).child),
            old(self).child matches Ok(child) ==> stop == child,
            old(self).child is Err ==> stop is None,
            final(self).args == old(self).args,
            final(self).pwd == old(self).pwd,
    {
        let mut child: Child<C> = Ok(None);
        std::mem::swap(&mut self.child, &mut child);
        match child {
            Ok(child) => child,
            Err(_) => None,
        }
    }
}

/// A request from its arrival to its answer.
#[verifier::ext_equal]
pub struct Served<C> {
    /// What is remembered of the child afterwards.
    pub child: Child<C>,
    /// The answer.
    pub reply: Option<u16>,
    /// Whether a build was made.
    pub built: bool,
}

/// How a request is served, where a build, if one is made, comes out as `built`.
pub open spec fn serve<C>(child: Child<C>, built: Result<(C, u16), ChildBuildError>) -> Served<C> {
    match child {
        Ok(Some((_, port))) => Served { child, reply: Some(port), built: false },
        _ => Served {
            child: stored(built),
            reply: match built {
                Ok((_, port)) => Some(port),
                Err(_) => None,
            },
            built: true,
        },
    }
}

/// Every request is answered after one build at most: at once where a child runs, and else as
/// soon as the outcome of the build is stored.
pub proof fn one_build_answers_a_request<C>(
    child: Child<C>,
    built: Result<(C, u16), ChildBuildError>,
)
    ensures
        ({
            let (child1, attempted1, action1) = on_request(child, false);
            let (child2, attempted2, action2) = on_request(stored(built), attempted1);
            let served = serve(child, built);
            if served.built {
                &&& action1 == MsgAction::Build
                &&& child1 == Ok::<Option<(C, u16)>, ChildBuildError>(None)
                &&& action2 == MsgAction::Reply(served.reply)
                &&& child2 == served.child
            } else {
                &&& action1 == MsgAction::Reply(served.reply)
                &&& child1 == served.child
            }
        }),
{
}

/// The answer is the network port of the child that runs afterwards. There is none exactly where
/// the build that was made has failed.
pub proof fn answers_name_the_running_child<C>(
    child: Child<C>,
    built: Result<(C, u16), ChildBuildError>,
)
    ensures
        ({
            let served = serve(child, built);
            &&& served.reply == match served.child {
                Ok(Some((_, port))) => Some(port),
                _ => None,
            }
            &&& served.reply is None <==> served.built && built is Err
        }),
{
}

/// A child that runs answers requests as it is: no build is made and the child is kept.
pub proof fn running_children_are_kept<C>(
    handle: C,
    port: u16,
    built: Result<(C, u16), ChildBuildError>,
)
    ensures
        serve(Ok(Some((handle, port))), built) == (Served {
            child: Ok(Some((handle, port))),
            reply: Some(port),
            built: false,
        }),
{
}

/// After a failed build the next request makes another: what failed may work by now, without any
/// file having changed.
pub proof fn failed_builds_are_retried<C>(
    child: Child<C>,
    failed: ChildBuildError,
    built: Result<(C, u16), ChildBuildError>,
)
    requires
        !(child matches Ok(Some(_))),
    ensures
        serve(child, Err(failed)).reply is None,
        serve(serve(child, Err(failed)).child, built).built,
        serve(serve(child, Err(failed)).child, built).child == stored(built),
{
}

/// A file change stops the child that ran. Whatever there was before, the next request makes a build, and is answered with
/// the network port of the child that came of it. Further changes before it add nothing.
pub proof fn changes_rebuild_on_demand<C>(
    child: Child<C>,
    built: Result<(C, u16), ChildBuildError>,
)
    ensures
        child matches Ok(Some(ran)) ==> to_stop(child) == Some(ran),
        running(changed(child)) == 0,
        serve(changed(child), built).built,
        serve(changed(child), built).child == stored(built),
        built matches Ok((_, port)) ==> serve(changed(child), built).reply == Some(port),
        changed(changed(child)) == changed(child),
        to_stop(changed(child)) is None,
{
}

/// Something that the server takes in.
pub enum Occurrence<C> {
    /// A request, and what a build would come out as.
    Request(Result<(C, u16), ChildBuildError>),
    /// A file change.
    FileChange,
}

/// What has happened up to some moment.
#[verifier::ext_equal]
pub struct Tally<C> {
    /// What is remembered of the child.
    pub child: Child<C>,
    /// How many requests there were.
    pub requests: nat,
    /// How many files changed.
    pub changes: nat,
    /// How many builds were made.
    pub builds: nat,
    /// How many of them started a child.
    pub started: nat,
    /// How many children were handed out to be stopped.
    pub stopped: nat,
}

/// How many children run.
pub open spec fn running<C>(child: Child<C>) -> nat {
    if child matches Ok(Some(_)) {
        1
    } else {
        0
    }
}

/// What has happened after `events`.
pub open spec fn tally<C>(child: Child<C>, events: Seq<Occurrence<C>>) -> Tally<C>
    decreases events.len(),
{
    if events.len() == 0 {
        Tally { child, requests: 0, changes: 0, builds: 0, started: 0, stopped: 0 }
    } else {
        let before = tally(child, events.drop_last());
        match events.last() {
            Occurrence::Request(built) => {
                let served = serve(before.child, built);
                Tally {
                    child: served.child,
                    requests: before.requests + 1,
                    builds: before.builds + if served.built {
                        1nat
                    } else {
                        0nat
                    },
                    started: before.started + if served.built && built is Ok {
                        1nat
                    } else {
                        0nat
                    },
                    ..before
                }
            },
            Occurrence::FileChange => Tally {
                child: changed(before.child),
                changes: before.changes + 1,
                stopped: before.stopped + if to_stop(before.child) is Some {
                    1nat
                } else {
                    0nat
                },
                ..before
            },
        }
    }
}

/// Over any course of requests and file changes: there are no more builds than requests; every
/// child that was started still runs or was handed out to be stopped; and no more children are
/// started than files changed, but for the first.
pub proof fn children_are_accounted_for<C>(child: Child<C>, events: Seq<Occurrence<C>>)
    ensures
        ({
            let t = tally(child, events);
            &&& t.started <= t.builds <= t.requests
            &&& running(child) + t.started == t.stopped + running(t.child)
            &&& t.stopped <= t.changes
            &&& t.started <= t.changes + 1
        }),
    decreases events.len(),
{
    if events.len() != 0 {
        children_are_accounted_for(child, events.drop_last());
    }
}

/// A request is answered with the network port of the child that runs, whichever it is, and the
/// child stays. Where none runs a build is asked for, and noted, but where a build was made for
/// this request and failed: then there is no port to answer with, and the failure stays.
pub proof fn requests_are_answered_or_built<C>(
    handle: C,
    port: u16,
    failed: ChildBuildError,
    attempted: bool,
)
    ensures
        on_request(Ok(Some((handle, port))), attempted) == (
            Ok::<Option<(C, u16)>, ChildBuildError>(Some((handle, port))),
            attempted,
            MsgAction::Reply(Some(port)),
        ),
        on_request::<C>(Ok(None), attempted) == (
            Ok::<Option<(C, u16)>, ChildBuildError>(None),
            true,
            MsgAction::Build,
        ),
        on_request::<C>(Err(failed), false) == (
            Ok::<Option<(C, u16)>, ChildBuildError>(None),
            true,
            MsgAction::Build,
        ),
        on_request::<C>(Err(failed), true) == (
            Err::<Option<(C, u16)>, ChildBuildError>(failed),
            true,
            MsgAction::Reply(None),
        ),
{
}

/// What came of a build is what is remembered, and a request that follows is answered with it.
pub proof fn builds_are_remembered<C>(handle: C, port: u16, failed: ChildBuildError)
    ensures
        stored(Ok((handle, port))) == Ok::<Option<(C, u16)>, ChildBuildError>(Some((handle, port))),
        stored::<C>(Err(failed)) == Err::<Option<(C, u16)>, ChildBuildError>(failed),
        serve::<C>(Ok(None), Ok((handle, port))) == (Served::<C> {
            child: Ok(Some((handle, port))),
            reply: Some(port),
            built: true,
        }),
        serve::<C>(Ok(None), Err(failed)) == (Served::<C> {
            child: Err(failed),
            reply: None,
            built: true,
        }),
        serve::<C>(Err(failed), Ok((handle, port))) == (Served::<C> {
            child: Ok(Some((handle, port))),
            reply: Some(port),
            built: true,
        }),
        serve::<C>(Err(failed), Err(failed)) == (Served::<C> {
            child: Err(failed),
            reply: None,
            built: true,
        }),
{
}

/// A file change hands out the child that ran, with its own network port, and nothing where none
/// did. Nothing is remembered of it.
pub proof fn changes_hand_out_what_ran<C>(handle: C, port: u16, failed: ChildBuildError)
    ensures
        to_stop(Ok(Some((handle, port)))) == Some((handle, port)),
        to_stop::<C>(Ok(None)) is None,
        to_stop::<C>(Err(failed)) is None,
        changed(Ok(Some((handle, port)))) == Ok::<Option<(C, u16)>, ChildBuildError>(None),
        changed::<C>(Ok(None)) == Ok::<Option<(C, u16)>, ChildBuildError>(None),
        changed::<C>(Err(failed)) == Ok::<Option<(C, u16)>, ChildBuildError>(None),
{
}

} // verus!
