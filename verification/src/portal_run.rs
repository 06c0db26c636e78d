//! One run of the portal client, from its arguments to its end.
//!
//! [`PortalRun`] says what to do next and is told how it went. Whatever
//! happens, a connection that was opened is closed before the run ends, and a
//! slot that may have been taken is given back.

use crate::portal_args::{first_step, first_step_spec, Args, FirstStep, RunError};
use vstd::prelude::*;

verus! {

/// Where a run is.
#[derive(Clone, Copy, Debug, PartialEq, Eq, Structural)]
pub enum RunStage {
    /// Signing in.
    SigningIn,
    /// Carrying out the commands about keys and Endpoints.
    Administering,
    /// Loading the Endpoint's key.
    LoadingKey,
    /// Working out what to do.
    Planning,
    /// Building the session's configuration.
    Configuring,
    /// Being let in.
    LettingIn,
    /// Working out how to reach the server.
    Reaching,
    /// Connecting.
    Connecting,
    /// Binding the ports.
    Forwarding,
    /// Serving the ports.
    Serving,
    /// Closing the connection.
    Closing,
    /// Nothing more to do.
    Over,
}

/// Why a run that serves its ports stops.
#[derive(Clone, Copy, Debug, PartialEq, Eq, Structural)]
pub enum ServingEnd {
    /// It was interrupted, or told to terminate.
    Interrupted,
    /// The proxy ended the session.
    SessionEnded,
    /// The connection closed.
    ConnectionClosed,
}

/// How the last thing went.
#[derive(Debug)]
pub enum RunEvent {
    /// It failed.
    Failed(String),
    /// It worked, and there is nothing to say of it.
    Done,
    /// The plan is made: whether there are ports to forward.
    Planned { forwards: bool },
    /// Serving has stopped.
    Stopped(ServingEnd),
}

/// What is to be done next.
#[derive(Debug)]
pub enum RunAction {
    /// Sign in.
    SignIn,
    /// Carry out the commands about keys and Endpoints.
    Administer,
    /// Load the Endpoint's key.
    LoadKey,
    /// Print the Endpoint's id, and leave.
    PrintEndpointId,
    /// Work out what to do.
    Plan,
    /// Build the session's configuration.
    Configure,
    /// Be let in.
    LetIn,
    /// Work out how to reach the server.
    Reach,
    /// Connect.
    Connect,
    /// Bind the ports.
    Forward,
    /// Say that the ports are bound, and serve them.
    Serve,
    /// Close the connection; where `hard_exit` is set, a second interrupt
    /// leaves at once.
    Close { hard_exit: bool },
    /// Leave, with an error where there was one; where `release` is set, give
    /// the enrolment's slot back first.
    Leave { error: Option<String>, release: bool },
}

/// One run.
#[derive(Debug)]
pub struct PortalRun {
    /// Where it is.
    pub stage: RunStage,
    /// Whether the id is all that was asked for.
    pub whoami: bool,
    /// Whether the Endpoint is registered with an Enrollment Key.
    pub enroll: bool,
    /// Whether there are ports to forward.
    pub forwards: bool,
    /// Whether a slot may have been taken.
    pub owes_slot: bool,
    /// Why the run failed, once it has.
    pub error: Option<String>,
}

/// The connection is open in these stages.
pub open spec fn connected(stage: RunStage) -> bool {
    stage == RunStage::Forwarding || stage == RunStage::Serving || stage == RunStage::Closing
}

/// The events that a stage can have.
pub open spec fn possible(stage: RunStage, event: RunEvent) -> bool {
    match stage {
        RunStage::Planning => event is Planned || event is Failed,
        RunStage::Serving => event is Stopped,
        RunStage::Closing => event is Done,
        RunStage::Over => false,
        _ => event is Done || event is Failed,
    }
}

/// Leave without a connection.
pub open spec fn leaving(run: PortalRun, error: Option<String>) -> (PortalRun, RunAction) {
    (PortalRun { stage: RunStage::Over, error, ..run }, RunAction::Leave { error, release: run.owes_slot })
}

/// Go on to a stage.
pub open spec fn going(run: PortalRun, stage: RunStage, action: RunAction) -> (PortalRun, RunAction) {
    (PortalRun { stage, ..run }, action)
}

/// What follows an event.
pub open spec fn run_step(run: PortalRun, event: RunEvent) -> (PortalRun, RunAction) {
    match (run.stage, event) {
        (RunStage::Forwarding, RunEvent::Failed(error)) => (
            PortalRun { stage: RunStage::Closing, error: Some(error), ..run },
            RunAction::Close { hard_exit: false },
        ),
        (_, RunEvent::Failed(error)) => leaving(run, Some(error)),
        (RunStage::SigningIn, _) | (RunStage::Administering, _) => leaving(run, None),
        (RunStage::LoadingKey, _) => if run.whoami {
            going(run, RunStage::Over, RunAction::PrintEndpointId)
        } else {
            going(run, RunStage::Planning, RunAction::Plan)
        },
        (RunStage::Planning, RunEvent::Planned { forwards }) => (
            PortalRun { stage: RunStage::Configuring, forwards, ..run },
            RunAction::Configure,
        ),
        (RunStage::Configuring, _) => (
            PortalRun { stage: RunStage::LettingIn, owes_slot: run.enroll, ..run },
            RunAction::LetIn,
        ),
        (RunStage::LettingIn, _) => if run.forwards {
            going(run, RunStage::Reaching, RunAction::Reach)
        } else {
            leaving(run, None)
        },
        (RunStage::Reaching, _) => going(run, RunStage::Connecting, RunAction::Connect),
        (RunStage::Connecting, _) => going(run, RunStage::Forwarding, RunAction::Forward),
        (RunStage::Forwarding, _) => going(run, RunStage::Serving, RunAction::Serve),
        (RunStage::Serving, RunEvent::Stopped(end)) => going(
            run,
            RunStage::Closing,
            RunAction::Close { hard_exit: end == ServingEnd::Interrupted },
        ),
        (RunStage::Closing, _) => leaving(run, run.error),
        _ => arbitrary(),
    }
}

impl PortalRun {
    /// Begin a run.
    pub fn start(args: &Args) -> (r: Result<(PortalRun, RunAction), RunError>)
        ensures
            match first_step_spec(*args) {
                Err(error) => r == Err::<(PortalRun, RunAction), RunError>(error),
                Ok(first) => r matches Ok(begun) && begun.0.whoami == args.whoami && begun.0.enroll == args.enroll
                    && !begun.0.forwards && !begun.0.owes_slot && begun.0.error is None && (match first {
                    FirstStep::Login => begun.0.stage == RunStage::SigningIn && begun.1 == RunAction::SignIn,
                    FirstStep::Admin => begun.0.stage == RunStage::Administering && begun.1 == RunAction::Administer,
                    FirstStep::Key => begun.0.stage == RunStage::LoadingKey && begun.1 == RunAction::LoadKey,
                }),
            },
    {
        let (stage, action) = match first_step(args) {
            Err(error) => {
                return Err(error);
            },
            Ok(FirstStep::Login) => (RunStage::SigningIn, RunAction::SignIn),
            Ok(FirstStep::Admin) => (RunStage::Administering, RunAction::Administer),
            Ok(FirstStep::Key) => (RunStage::LoadingKey, RunAction::LoadKey),
        };
        Ok(
            (
                PortalRun {
                    stage,
                    whoami: args.whoami,
                    enroll: args.enroll,
                    forwards: false,
                    owes_slot: false,
                    error: None,
                },
                action,
            ),
        )
    }

    fn leave(&mut self, error: Option<String>) -> (action: RunAction)
        ensures
            (*final(self), action) == leaving(*old(self), error),
    {
        self.stage = RunStage::Over;
        self.error = error.clone();
        RunAction::Leave { error, release: self.owes_slot }
    }

    /// Go on, after an event.
    pub fn step(&mut self, event: RunEvent) -> (action: RunAction)
        requires
            possible(old(self).stage, event),
        ensures
            (*final(self), action) == run_step(*old(self), event),
    {
        match (self.stage, event) {
            (RunStage::Forwarding, RunEvent::Failed(error)) => {
                self.stage = RunStage::Closing;
                self.error = Some(error);
                RunAction::Close { hard_exit: false }
            },
            (_, RunEvent::Failed(error)) => self.leave(Some(error)),
            (RunStage::SigningIn, _) => self.leave(None),
            (RunStage::Administering, _) => self.leave(None),
            (RunStage::LoadingKey, _) => {
                if self.whoami {
                    self.stage = RunStage::Over;
                    RunAction::PrintEndpointId
                } else {
                    self.stage = RunStage::Planning;
                    RunAction::Plan
                }
            },
            (RunStage::Planning, RunEvent::Planned { forwards }) => {
                self.forwards = forwards;
                self.stage = RunStage::Configuring;
                RunAction::Configure
            },
            (RunStage::Configuring, _) => {
                self.owes_slot = self.enroll;
                self.stage = RunStage::LettingIn;
                RunAction::LetIn
            },
            (RunStage::LettingIn, _) => {
                if self.forwards {
                    self.stage = RunStage::Reaching;
                    RunAction::Reach
                } else {
                    self.leave(None)
                }
            },
            (RunStage::Reaching, _) => {
                self.stage = RunStage::Connecting;
                RunAction::Connect
            },
            (RunStage::Connecting, _) => {
                self.stage = RunStage::Forwarding;
                RunAction::Forward
            },
            (RunStage::Forwarding, _) => {
                self.stage = RunStage::Serving;
                RunAction::Serve
            },
            (RunStage::Serving, RunEvent::Stopped(end)) => {
                self.stage = RunStage::Closing;
                RunAction::Close { hard_exit: end == ServingEnd::Interrupted }
            },
            (RunStage::Closing, _) => {
                let error = self.error.clone();
                self.leave(error)
            },
            _ => {
                proof {
                    assert(false);
                }
                RunAction::Plan
            },
        }
    }
}

/// A connection that is open is closed before the run ends: while it is open
/// nothing leads out of the run but closing it.
pub proof fn law_open_connection_is_closed(run: PortalRun, event: RunEvent)
    requires
        possible(run.stage, event),
        connected(run.stage),
    ensures
        ({
            let (after, action) = run_step(run, event);
            run.stage == RunStage::Closing || (action is Close || action is Serve) && connected(after.stage)
        }),
{
}

/// A slot is given back exactly where one may have been taken: once the
/// session was configured in a run that enrols.
pub proof fn law_slot_is_given_back(run: PortalRun, event: RunEvent)
    requires
        possible(run.stage, event),
    ensures
        ({
            let (after, action) = run_step(run, event);
            &&& action matches RunAction::Leave { release, .. } ==> release == run.owes_slot
            &&& after.owes_slot == (if run.stage == RunStage::Configuring && !(event is Failed) {
                run.enroll
            } else {
                run.owes_slot
            })
        }),
{
}

/// Only an interrupt makes the next one leave at once.
pub proof fn law_only_an_interrupt_arms_the_hard_exit(run: PortalRun, event: RunEvent)
    requires
        possible(run.stage, event),
        run_step(run, event).1 == (RunAction::Close { hard_exit: true }),
    ensures
        event == RunEvent::Stopped(ServingEnd::Interrupted),
{
}

/// A failure is never lost: the run leaves with the error that ended it, also
/// where a connection had to be closed first.
pub proof fn law_failure_is_reported(run: PortalRun, error: String)
    requires
        possible(run.stage, RunEvent::Failed(error)),
    ensures
        ({
            let (after, action) = run_step(run, RunEvent::Failed(error));
            if run.stage == RunStage::Forwarding {
                run_step(after, RunEvent::Done).1 == (RunAction::Leave { error: Some(error), release: run.owes_slot })
            } else {
                action == (RunAction::Leave { error: Some(error), release: run.owes_slot })
            }
        }),
{
}

/// The run after one event after another.
pub open spec fn run_through(run: PortalRun, events: Seq<RunEvent>) -> PortalRun
    decreases events.len(),
{
    if events.len() == 0 {
        run
    } else {
        run_step(run_through(run, events.drop_last()), events.last()).0
    }
}

/// Where nothing fails, a run with ports to forward plans, configures, is let
/// in, finds out how to reach the server, connects, binds its ports, serves
/// them, closes and leaves without an error, in this order and each once; one
/// without ports leaves once it was let in, and one that only asks for the id
/// once the key is loaded.
pub proof fn law_run_that_works_does_each_thing_once(run: PortalRun, forwards: bool, end: ServingEnd)
    requires
        run.stage == RunStage::LoadingKey,
        run.error is None,
    ensures
        ({
            let a = run_step(run, RunEvent::Done);
            let b = run_step(a.0, RunEvent::Planned { forwards });
            let c = run_step(b.0, RunEvent::Done);
            let d = run_step(c.0, RunEvent::Done);
            let e = run_step(d.0, RunEvent::Done);
            let f = run_step(e.0, RunEvent::Done);
            let g = run_step(f.0, RunEvent::Done);
            let h = run_step(g.0, RunEvent::Stopped(end));
            let i = run_step(h.0, RunEvent::Done);
            if run.whoami {
                a.1 == RunAction::PrintEndpointId && a.0.stage == RunStage::Over
            } else {
                &&& a.1 == RunAction::Plan
                &&& b.1 == RunAction::Configure
                &&& c.1 == RunAction::LetIn
                &&& !forwards ==> d.1 == (RunAction::Leave { error: None, release: run.enroll }) && d.0.stage == RunStage::Over
                &&& forwards ==> {
                    &&& d.1 == RunAction::Reach
                    &&& e.1 == RunAction::Connect
                    &&& f.1 == RunAction::Forward
                    &&& g.1 == RunAction::Serve
                    &&& h.1 == (RunAction::Close { hard_exit: end == ServingEnd::Interrupted })
                    &&& i.1 == (RunAction::Leave { error: None, release: run.enroll })
                    &&& i.0.stage == RunStage::Over
                }
            }
        }),
{
}

/// How far a stage is along the way.
pub open spec fn distance(stage: RunStage) -> int {
    match stage {
        RunStage::SigningIn | RunStage::Administering | RunStage::LoadingKey => 0,
        RunStage::Planning => 1,
        RunStage::Configuring => 2,
        RunStage::LettingIn => 3,
        RunStage::Reaching => 4,
        RunStage::Connecting => 5,
        RunStage::Forwarding => 6,
        RunStage::Serving => 7,
        RunStage::Closing => 8,
        RunStage::Over => 9,
    }
}

/// A run only goes forward, so it ends; nothing is done twice, and what was
/// asked for does not change on the way. It is over exactly where it leaves.
pub proof fn law_run_goes_forward(run: PortalRun, event: RunEvent)
    requires
        possible(run.stage, event),
    ensures
        ({
            let (after, action) = run_step(run, event);
            &&& distance(after.stage) > distance(run.stage)
            &&& after.whoami == run.whoami && after.enroll == run.enroll
            &&& after.forwards == (if event is Planned {
                event->forwards
            } else {
                run.forwards
            })
            &&& after.stage == RunStage::Over <==> action is Leave || action is PrintEndpointId
            &&& action is Connect ==> run.stage == RunStage::Reaching && !(event is Failed)
            &&& action is Serve ==> run.stage == RunStage::Forwarding && !(event is Failed)
            &&& action is LetIn ==> run.stage == RunStage::Configuring && !(event is Failed)
            &&& run.stage == RunStage::Serving ==> (action matches RunAction::Close { hard_exit } && (hard_exit <==> event
                == RunEvent::Stopped(ServingEnd::Interrupted)))
            &&& action matches RunAction::Leave { error, release } ==> release == run.owes_slot && (match event {
                RunEvent::Failed(why) => error == Some(why),
                _ => run.stage == RunStage::Closing && error == run.error || run.stage != RunStage::Closing && error is None,
            })
        }),
{
}

/// However many events there are, a run stays what
/// it was asked to be, and the slot is owed only by a run that enrols.
pub proof fn law_slot_is_owed_only_by_a_run_that_enrols(run: PortalRun, events: Seq<RunEvent>)
    requires
        !run.owes_slot,
        forall|i: int|
            0 <= i < events.len() ==> possible(run_through(run, events.take(i)).stage, #[trigger] events[i]),
    ensures
        run_through(run, events).owes_slot ==> run.enroll,
        run_through(run, events).enroll == run.enroll,
        run_through(run, events).whoami == run.whoami,
    decreases events.len(),
{
    if events.len() > 0 {
        let rest = events.drop_last();
        let n = events.len() - 1;
        assert forall|i: int| 0 <= i < rest.len() implies possible(
            run_through(run, rest.take(i)).stage,
            #[trigger] rest[i],
        ) by {
            assert(rest[i] == events[i]);
            assert(rest.take(i) =~= events.take(i));
        }
        law_slot_is_owed_only_by_a_run_that_enrols(run, rest);
        assert(events.take(n) =~= rest);
        assert(possible(run_through(run, events.take(n)).stage, events[n]));
        law_run_goes_forward(run_through(run, rest), events.last());
        law_slot_is_given_back(run_through(run, rest), events.last());
    }
}

} // verus!
