//! Shutting down: what is stopped in which order, and what is reported of it.

use vstd::prelude::*;

use super::error::{ServiceError, ShutdownFailure};
use crate::text::{add_text, copy_texts, texts};

verus! {

/// A part of the shutdown.
#[derive(Clone, Copy, Debug, PartialEq, Eq, Structural)]
pub enum ShutdownPhase {
    StopGateway,
    StopLifecycle,
    PersistConfig,
    StopWatcher,
    JoinLifecycle,
}

impl ShutdownPhase {
    /// The part that follows.
    pub open spec fn successor(self) -> Option<ShutdownPhase> {
        match self {
            ShutdownPhase::StopGateway => Some(ShutdownPhase::StopLifecycle),
            ShutdownPhase::StopLifecycle => Some(ShutdownPhase::PersistConfig),
            ShutdownPhase::PersistConfig => Some(ShutdownPhase::StopWatcher),
            ShutdownPhase::StopWatcher => Some(ShutdownPhase::JoinLifecycle),
            ShutdownPhase::JoinLifecycle => None,
        }
    }

    fn next(self) -> (result: Option<ShutdownPhase>)
        ensures
            result == self.successor(),
    {
        match self {
            ShutdownPhase::StopGateway => Some(ShutdownPhase::StopLifecycle),
            ShutdownPhase::StopLifecycle => Some(ShutdownPhase::PersistConfig),
            ShutdownPhase::PersistConfig => Some(ShutdownPhase::StopWatcher),
            ShutdownPhase::StopWatcher => Some(ShutdownPhase::JoinLifecycle),
            ShutdownPhase::JoinLifecycle => None,
        }
    }
}

/// What is told of a shutdown.
#[derive(Clone, Copy, Debug, PartialEq, Eq, Structural)]
pub enum ShutdownEvent {
    Started(ShutdownPhase),
    Completed(ShutdownPhase),
}

/// How a part of the shutdown came out.
#[derive(Debug)]
pub enum PhaseOutcome {
    Done,
    Failed(String),
    TimedOut,
}

/// What is reported of a part that took too long. Stopping the gateway and
/// writing the configuration have no limit.
pub open spec fn timeout_report(phase: ShutdownPhase) -> Option<Seq<char>> {
    match phase {
        ShutdownPhase::StopLifecycle => Some("lifecycle shutdown timed out"@),
        ShutdownPhase::StopWatcher => Some("catalog watcher join timed out"@),
        ShutdownPhase::JoinLifecycle => Some("lifecycle join timed out; actor aborted and joined"@),
        _ => None,
    }
}

/// What is reported of a part, if anything.
pub open spec fn phase_report(phase: ShutdownPhase, outcome: PhaseOutcome) -> Option<Seq<char>> {
    match outcome {
        PhaseOutcome::Done => None,
        PhaseOutcome::Failed(reason) => Some(reason@),
        PhaseOutcome::TimedOut => timeout_report(phase),
    }
}

/// A shutdown that goes on: the part it is at, if it is not over, and what went
/// wrong so far.
#[derive(Debug)]
pub struct ShutdownRun {
    pub phase: Option<ShutdownPhase>,
    pub errors: Vec<String>,
}

pub struct ShutdownRunView {
    pub phase: Option<ShutdownPhase>,
    pub errors: Seq<Seq<char>>,
}

impl View for ShutdownRun {
    type V = ShutdownRunView;

    open spec fn view(&self) -> ShutdownRunView {
        ShutdownRunView { phase: self.phase, errors: texts(self.errors@) }
    }
}

/// The shutdown once the part it is at is over. Whatever its outcome, the next
/// part follows.
pub open spec fn advanced(run: ShutdownRunView, outcome: PhaseOutcome) -> ShutdownRunView {
    match run.phase {
        Some(phase) => ShutdownRunView {
            phase: phase.successor(),
            errors: match phase_report(phase, outcome) {
                Some(report) => run.errors.push(report),
                None => run.errors,
            },
        },
        None => run,
    }
}

/// The events that are told when a part is over and the next one begins.
pub open spec fn passage(phase: Option<ShutdownPhase>) -> Seq<ShutdownEvent> {
    match phase {
        Some(phase) => match phase.successor() {
            Some(next) => seq![ShutdownEvent::Completed(phase), ShutdownEvent::Started(next)],
            None => seq![ShutdownEvent::Completed(phase)],
        },
        None => Seq::empty(),
    }
}

impl ShutdownRun {
    /// Begins with the gateway.
    pub fn start() -> (result: (Self, ShutdownEvent))
        ensures
            result.0@.phase == Some(ShutdownPhase::StopGateway),
            result.0@.errors.len() == 0,
            result.1 == ShutdownEvent::Started(ShutdownPhase::StopGateway),
    {
        let run = ShutdownRun { phase: Some(ShutdownPhase::StopGateway), errors: Vec::new() };
        (run, ShutdownEvent::Started(ShutdownPhase::StopGateway))
    }

    /// Takes note of how a part came out, and tells the events.
    pub fn advance(&mut self, outcome: PhaseOutcome) -> (result: Vec<ShutdownEvent>)
        ensures
            final(self)@ == advanced(old(self)@, outcome),
            result@ == passage(old(self)@.phase),
    {
        let mut events: Vec<ShutdownEvent> = Vec::new();
        let phase = match self.phase {
            Some(phase) => phase,
            None => {
                return events;
            },
        };
        match outcome {
            PhaseOutcome::Done => {},
            PhaseOutcome::Failed(reason) => {
                add_text(&mut self.errors, reason.as_str());
            },
            PhaseOutcome::TimedOut => match phase {
                ShutdownPhase::StopLifecycle => {
                    add_text(&mut self.errors, "lifecycle shutdown timed out");
                },
                ShutdownPhase::StopWatcher => {
                    add_text(&mut self.errors, "catalog watcher join timed out");
                },
                ShutdownPhase::JoinLifecycle => {
                    add_text(&mut self.errors, "lifecycle join timed out; actor aborted and joined");
                },
                _ => {},
            },
        }
        events.push(ShutdownEvent::Completed(phase));
        self.phase = phase.next();
        if let Some(next) = self.phase {
            events.push(ShutdownEvent::Started(next));
        }
        assert(events@ =~= passage(Some(phase)));
        events
    }

    /// What the shutdown comes to: success if nothing went wrong.
    pub fn result(&self) -> (result: Result<(), ShutdownFailure>)
        ensures
            match result {
                Ok(_) => self@.errors.len() == 0,
                Err(failure) => self@.errors.len() > 0 && texts(failure.errors@) == self@.errors,
            },
    {
        assert(self@.errors.len() == self.errors@.len());
        if self.errors.len() == 0 {
            Ok(())
        } else {
            Err(ShutdownFailure { errors: copy_texts(&self.errors) })
        }
    }
}

/// The shutdown after some parts came out in this way.
pub open spec fn advanced_all(run: ShutdownRunView, outcomes: Seq<PhaseOutcome>) -> ShutdownRunView
    decreases outcomes.len(),
{
    if outcomes.len() == 0 {
        run
    } else {
        advanced(advanced_all(run, outcomes.drop_last()), outcomes.last())
    }
}

/// The part that a shutdown is at after so many parts.
pub open spec fn phase_number(done: nat) -> Option<ShutdownPhase> {
    if done == 0 {
        Some(ShutdownPhase::StopGateway)
    } else if done == 1 {
        Some(ShutdownPhase::StopLifecycle)
    } else if done == 2 {
        Some(ShutdownPhase::PersistConfig)
    } else if done == 3 {
        Some(ShutdownPhase::StopWatcher)
    } else if done == 4 {
        Some(ShutdownPhase::JoinLifecycle)
    } else {
        None
    }
}

/// Every part of a shutdown is gone through, whatever went wrong before it; after
/// five parts it is over, and not before.
pub proof fn law_every_part_is_gone_through(run: ShutdownRunView, outcomes: Seq<PhaseOutcome>)
    requires
        run.phase == Some(ShutdownPhase::StopGateway),
        outcomes.len() <= 5,
    ensures
        advanced_all(run, outcomes).phase == phase_number(outcomes.len()),
    decreases outcomes.len(),
{
    if outcomes.len() > 0 {
        law_every_part_is_gone_through(run, outcomes.drop_last());
    }
}

/// Nothing that went wrong is forgotten.
pub proof fn law_errors_are_kept(run: ShutdownRunView, outcome: PhaseOutcome, index: int)
    requires
        0 <= index < run.errors.len(),
    ensures
        advanced(run, outcome).errors.len() >= run.errors.len(),
        advanced(run, outcome).errors[index] == run.errors[index],
{
}

/// Whether the service runs, is shutting down, or has shut down.
#[derive(Debug)]
pub enum ShutdownState {
    Running,
    Stopping,
    Done(Result<(), ShutdownFailure>),
}

/// What a request to shut down does.
#[derive(Debug)]
pub enum ShutdownRequest {
    /// The shutdown begins.
    Begin,
    /// It has begun; its result is waited for.
    Await,
    /// It is over.
    Over(Result<(), ServiceError>),
}

pub open spec fn failure_texts(result: Result<(), ShutdownFailure>) -> Option<Seq<Seq<char>>> {
    match result {
        Ok(_) => None,
        Err(failure) => Some(texts(failure.errors@)),
    }
}

impl ShutdownState {
    /// Changes may only be made while the service runs.
    pub fn check_running(&self) -> (result: Result<(), ServiceError>)
        ensures
            result == (if self is Running {
                Ok(())
            } else {
                Err(ServiceError::ShuttingDown)
            }),
    {
        match self {
            ShutdownState::Running => Ok(()),
            _ => Err(ServiceError::ShuttingDown),
        }
    }

    /// Asks for the shutdown. However often it is asked for, it is done once.
    pub fn request(&mut self) -> (result: ShutdownRequest)
        ensures
            match *old(self) {
                ShutdownState::Running => *final(self) is Stopping && result is Begin,
                ShutdownState::Stopping => *final(self) == *old(self) && result is Await,
                ShutdownState::Done(outcome) => *final(self) == *old(self) && (match result {
                    ShutdownRequest::Over(Ok(_)) => outcome is Ok,
                    ShutdownRequest::Over(Err(ServiceError::Shutdown(failure))) => failure_texts(outcome) == Some(
                        texts(failure.errors@),
                    ),
                    _ => false,
                }),
            },
    {
        match self {
            ShutdownState::Running => {},
            ShutdownState::Stopping => {
                return ShutdownRequest::Await;
            },
            ShutdownState::Done(outcome) => {
                return match outcome {
                    Ok(_) => ShutdownRequest::Over(Ok(())),
                    Err(failure) => ShutdownRequest::Over(
                        Err(
                            ServiceError::Shutdown(ShutdownFailure { errors: copy_texts(&failure.errors) }),
                        ),
                    ),
                };
            },
        }
        *self = ShutdownState::Stopping;
        ShutdownRequest::Begin
    }
}

} // verus!
