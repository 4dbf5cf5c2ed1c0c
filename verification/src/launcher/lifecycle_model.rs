//! What the lifecycle of an engine process is: its states, what each event makes
//! of a state, what is to be done about it, and the laws that hold throughout.

use vstd::prelude::*;

use super::error::AppError;
use super::model::{ModelId, ModelRecord};

verus! {

/// The most requests that wait for one model to start.
pub const MAX_START_WAITERS: usize = 128;

/// How long an engine that ran counts as healthy, in seconds.
pub const HEALTHY_SECONDS: u64 = 300;

/// The step that the lifecycle is at.
#[derive(Clone, Copy, Debug, PartialEq, Eq, Structural)]
pub enum Phase {
    Stopped,
    /// The launch is being checked; there is no process yet.
    Validating,
    Spawning,
    /// The process exists and is not ready yet.
    Readying,
    /// The process of a launch that failed or was cancelled is being stopped.
    Cleaning,
    Running,
    Stopping,
    /// The process ended by itself and is started again after a while.
    Backoff,
    /// Whether the process is gone is not known: nothing is started any more.
    FailedStop,
    Ended,
}

/// What has been asked for while something was going on.
#[derive(Clone, Copy, Debug, PartialEq, Eq, Structural)]
pub enum StopDirective {
    Continue,
    Cancel,
    Shutdown,
}

/// The process that is owned.
#[derive(Clone, Copy, Debug, PartialEq, Eq, Structural)]
pub struct ProcessContext {
    pub model_id: ModelId,
    pub generation: u64,
}

/// The right to use the running model.
#[derive(Clone, Copy, Debug, PartialEq, Eq, Structural)]
pub struct LeaseTicket {
    pub generation: u64,
    pub id: u64,
}

/// A request to stop.
#[derive(Clone, Copy, Debug, PartialEq, Eq, Structural)]
pub enum StopRequest {
    Eject(u64),
    Shutdown(u64),
    /// Nobody is left who could send a command.
    Orphaned,
}

impl StopRequest {
    pub open spec fn replies(self) -> Seq<u64> {
        match self {
            StopRequest::Eject(reply) => seq![reply],
            StopRequest::Shutdown(reply) => seq![reply],
            StopRequest::Orphaned => Seq::empty(),
        }
    }

    /// The directive once the request has come.
    pub open spec fn merged(self, directive: StopDirective) -> StopDirective {
        match self {
            StopRequest::Eject(_) => if directive == StopDirective::Shutdown {
                StopDirective::Shutdown
            } else {
                StopDirective::Cancel
            },
            _ => StopDirective::Shutdown,
        }
    }
}

/// What follows once the running process is stopped.
#[derive(Debug)]
pub enum FollowUp {
    /// Another model is started for the request.
    Replace(ModelRecord, u64),
    /// The requests that asked for the stop are answered.
    Stop,
}

/// An error as a caller sees it: its code, what a user is told, and the diagnostics
/// behind it, each behind the one before it.
pub struct ErrorView {
    pub code: Seq<char>,
    pub message: Seq<char>,
    pub sources: Seq<Seq<char>>,
}

pub open spec fn error_view(error: AppError) -> ErrorView {
    ErrorView { code: error.code_text(), message: error.message_text(), sources: error.source_chain() }
}

/// A failed load with these diagnostics behind it.
pub open spec fn load_failure_behind(sources: Seq<Seq<char>>) -> ErrorView {
    ErrorView { code: "model_load_failed"@, message: "model failed to load"@, sources }
}

pub open spec fn load_failure(diagnostic: Seq<char>) -> ErrorView {
    load_failure_behind(seq![diagnostic])
}

pub open spec fn stop_failure(diagnostic: Seq<char>) -> ErrorView {
    ErrorView { code: "engine_process"@, message: "engine process failed"@, sources: seq![diagnostic] }
}

/// Why a launch failed: what a user is told, and the diagnostics behind it.
pub struct FailureView {
    pub message: Seq<char>,
    pub causes: Seq<Seq<char>>,
}

impl FailureView {
    /// The error that the requests for the launch get: the failure stands behind it.
    pub open spec fn answer(self) -> ErrorView {
        load_failure_behind(seq![self.message] + self.causes)
    }
}

pub open spec fn failure_view(error: AppError) -> FailureView {
    FailureView { message: error.message_text(), causes: error.source_chain() }
}

/// Something that is to be done.
pub enum ActionView {
    Validate,
    Spawn,
    AwaitReady,
    StopGracefully,
    StopForcefully,
    /// What is being waited for is given up.
    DropPending,
    WaitBackoff(u64),
    CancelLeases,
    PublishFailedValidation,
    AnswerLoad(u64, Result<(), ErrorView>),
    AnswerAcquire(u64, Result<LeaseTicket, ErrorView>),
    AnswerStop(u64, Result<(), ErrorView>),
    End,
}

/// The state of a lifecycle. The requests that wait for an answer are known by
/// number.
#[verifier::ext_equal]
pub struct LifecycleView {
    pub phase: Phase,
    pub generation: u64,
    /// The model that is started or runs.
    pub target: Option<ModelRecord>,
    pub desired: Option<ModelId>,
    pub process: Option<ProcessContext>,
    pub endpoint: Option<Seq<char>>,
    pub diagnostic: Option<Seq<char>>,
    pub failures: u32,
    pub leases: Set<u64>,
    pub next_lease: u64,
    pub loads: Seq<u64>,
    pub acquires: Seq<u64>,
    pub stops: Seq<u64>,
    pub failure: Option<FailureView>,
    pub pending_endpoint: Option<Seq<char>>,
    pub forcing: bool,
    pub directive: StopDirective,
    pub follow_up: FollowUp,
    pub orphaned: bool,
}

/// A state and what is to be done.
#[verifier::ext_equal]
pub struct Outcome {
    pub state: LifecycleView,
    pub actions: Seq<ActionView>,
}

pub open spec fn quietly(state: LifecycleView) -> Outcome {
    Outcome { state, actions: Seq::empty() }
}

pub open spec fn initial() -> LifecycleView {
    LifecycleView {
        phase: Phase::Stopped,
        generation: 0,
        target: None,
        desired: None,
        process: None,
        endpoint: None,
        diagnostic: None,
        failures: 0,
        leases: Set::empty(),
        next_lease: 1,
        loads: Seq::empty(),
        acquires: Seq::empty(),
        stops: Seq::empty(),
        failure: None,
        pending_endpoint: None,
        forcing: false,
        directive: StopDirective::Continue,
        follow_up: FollowUp::Stop,
        orphaned: false,
    }
}

pub open spec fn launching(phase: Phase) -> bool {
    phase == Phase::Validating || phase == Phase::Spawning || phase == Phase::Readying || phase == Phase::Cleaning
}

/// A process may exist.
pub open spec fn occupied(phase: Phase) -> bool {
    ||| phase == Phase::Spawning
    ||| phase == Phase::Readying
    ||| phase == Phase::Cleaning
    ||| phase == Phase::Running
    ||| phase == Phase::Stopping
    ||| phase == Phase::FailedStop
}

pub open spec fn is_target(state: LifecycleView, model: ModelRecord) -> bool {
    state.target is Some && state.target->0.id == model.id
}

/// What every reachable state keeps: a launched, running or crashed model is
/// known; a process is owned and an endpoint known only where there can be one;
/// leases exist only while the model runs; requests wait only for what is going
/// on.
pub open spec fn sound(state: LifecycleView) -> bool {
    &&& state.target is Some <==> (launching(state.phase) || state.phase == Phase::Running || state.phase
        == Phase::Stopping || state.phase == Phase::Backoff)
    &&& state.process is Some ==> state.phase == Phase::Running || state.phase == Phase::Stopping || state.phase
        == Phase::FailedStop || (state.phase == Phase::Ended && state.orphaned)
    &&& state.phase == Phase::Running ==> state.process == Some(
        ProcessContext { model_id: state.target->0.id, generation: state.generation },
    )
    &&& state.endpoint is Some ==> state.phase == Phase::Running
    &&& state.leases.finite()
    &&& state.phase != Phase::Running ==> state.leases.len() == 0
    &&& !launching(state.phase) ==> state.loads.len() == 0 && state.acquires.len() == 0
    &&& state.loads.len() + state.acquires.len() <= MAX_START_WAITERS
    &&& state.phase != Phase::Cleaning && state.phase != Phase::Stopping ==> state.stops.len() == 0
    &&& state.phase != Phase::Stopping ==> state.follow_up is Stop
    &&& state.phase != Phase::Cleaning && state.phase != Phase::Stopping ==> state.directive
        == StopDirective::Continue && !state.forcing
    &&& state.stops.len() > 0 ==> state.directive != StopDirective::Continue
    &&& state.phase == Phase::FailedStop ==> state.diagnostic is Some
    &&& state.orphaned ==> state.phase == Phase::Cleaning || state.phase == Phase::Stopping || state.phase
        == Phase::Ended
    &&& state.orphaned && state.phase != Phase::Ended ==> state.directive == StopDirective::Shutdown
}

/// A launch of `model` begins, for the requests that wait for it.
pub open spec fn begun(
    state: LifecycleView,
    model: ModelRecord,
    loads: Seq<u64>,
    acquires: Seq<u64>,
) -> LifecycleView {
    LifecycleView {
        phase: Phase::Validating,
        generation: (state.generation + 1) as u64,
        target: Some(model),
        desired: Some(model.id),
        diagnostic: None,
        loads,
        acquires,
        stops: Seq::empty(),
        failure: None,
        pending_endpoint: None,
        forcing: false,
        directive: StopDirective::Continue,
        follow_up: FollowUp::Stop,
        ..state
    }
}

/// No model is wanted any more, and nothing runs.
pub open spec fn cleared(state: LifecycleView, ending: bool) -> LifecycleView {
    LifecycleView {
        phase: if ending {
            Phase::Ended
        } else {
            Phase::Stopped
        },
        generation: (state.generation + 1) as u64,
        target: None,
        desired: None,
        process: None,
        endpoint: None,
        diagnostic: None,
        loads: Seq::empty(),
        acquires: Seq::empty(),
        stops: Seq::empty(),
        failure: None,
        pending_endpoint: None,
        forcing: false,
        directive: StopDirective::Continue,
        follow_up: FollowUp::Stop,
        ..state
    }
}

pub open spec fn end_actions(ending: bool) -> Seq<ActionView> {
    if ending {
        seq![ActionView::End]
    } else {
        Seq::empty()
    }
}

/// Requests for a stop are answered.
pub open spec fn stop_answers(stops: Seq<u64>, result: Result<(), ErrorView>) -> Seq<ActionView> {
    stops.map_values(|reply: u64| ActionView::AnswerStop(reply, result))
}

/// The error that the request at `index` gets: the first one the error itself.
pub open spec fn nth_error(index: int, first: ErrorView, others: ErrorView) -> ErrorView {
    if index == 0 {
        first
    } else {
        others
    }
}

/// Requests that waited for a start are told that it failed.
pub open spec fn start_answers(
    loads: Seq<u64>,
    acquires: Seq<u64>,
    first: ErrorView,
    others: ErrorView,
) -> Seq<ActionView> {
    Seq::new(
        loads.len(),
        |index: int| ActionView::AnswerLoad(loads[index], Err(nth_error(index, first, others))),
    ) + Seq::new(
        acquires.len(),
        |index: int|
            ActionView::AnswerAcquire(acquires[index], Err(nth_error(loads.len() + index, first, others))),
    )
}

/// They are told that the start was cancelled.
pub open spec fn cancelled_answers(loads: Seq<u64>, acquires: Seq<u64>) -> Seq<ActionView> {
    start_answers(loads, acquires, load_failure("load cancelled"@), load_failure("model failed to load"@))
}

/// A launch failed, and no process is left of it.
pub open spec fn load_failed(state: LifecycleView, failure: FailureView) -> Outcome {
    let error = failure.answer();
    Outcome {
        state: LifecycleView {
            phase: Phase::Stopped,
            target: None,
            desired: None,
            process: None,
            diagnostic: Some(failure.message),
            loads: Seq::empty(),
            acquires: Seq::empty(),
            stops: Seq::empty(),
            failure: None,
            pending_endpoint: None,
            forcing: false,
            directive: StopDirective::Continue,
            ..state
        },
        actions: start_answers(state.loads, state.acquires, error, error),
    }
}

/// A launch was cancelled, and no process is left of it.
pub open spec fn launch_cancelled(state: LifecycleView) -> Outcome {
    let ending = state.directive == StopDirective::Shutdown;
    Outcome {
        state: cleared(state, ending),
        actions: cancelled_answers(state.loads, state.acquires) + stop_answers(state.stops, Ok(())) + end_actions(
            ending,
        ),
    }
}

/// Whether a process is gone could not be found out.
pub open spec fn stop_unconfirmed(state: LifecycleView, diagnostic: Seq<char>) -> LifecycleView {
    LifecycleView {
        phase: if state.orphaned {
            Phase::Ended
        } else {
            Phase::FailedStop
        },
        target: None,
        endpoint: None,
        diagnostic: Some(diagnostic),
        loads: Seq::empty(),
        acquires: Seq::empty(),
        stops: Seq::empty(),
        failure: None,
        pending_endpoint: None,
        forcing: false,
        directive: StopDirective::Continue,
        follow_up: FollowUp::Stop,
        ..state
    }
}

/// One more request may use the running model. It is counted once it has the
/// answer.
pub open spec fn granted(state: LifecycleView) -> LifecycleView {
    LifecycleView {
        next_lease: if state.next_lease < u64::MAX {
            (state.next_lease + 1) as u64
        } else {
            0
        },
        ..state
    }
}

pub open spec fn grant_answer(state: LifecycleView, reply: u64) -> ActionView {
    ActionView::AnswerAcquire(
        reply,
        Ok(LeaseTicket { generation: state.generation, id: state.next_lease }),
    )
}

pub open spec fn all_granted(state: LifecycleView, acquires: Seq<u64>) -> Outcome
    decreases acquires.len(),
{
    if acquires.len() == 0 {
        quietly(state)
    } else {
        let before = all_granted(state, acquires.drop_last());
        Outcome {
            state: granted(before.state),
            actions: before.actions.push(grant_answer(before.state, acquires.last())),
        }
    }
}

/// The running process is to be stopped.
pub open spec fn stopping(state: LifecycleView, follow_up: FollowUp) -> LifecycleView {
    LifecycleView { phase: Phase::Stopping, endpoint: None, forcing: false, follow_up, ..state }
}

/// A request to load `model` came.
pub open spec fn after_load(state: LifecycleView, model: ModelRecord, reply: u64) -> Outcome {
    let refused = |error: AppError|
        Outcome { state, actions: seq![ActionView::AnswerLoad(reply, Err(error_view(error)))] };
    match state.phase {
        Phase::Stopped => Outcome {
            state: begun(state, model, seq![reply], Seq::empty()),
            actions: seq![ActionView::Validate],
        },
        Phase::Running => if is_target(state, model) {
            Outcome { state, actions: seq![ActionView::AnswerLoad(reply, Ok(()))] }
        } else if state.leases.len() > 0 {
            refused(AppError::ModelBusy)
        } else {
            Outcome {
                state: stopping(state, FollowUp::Replace(model, reply)),
                actions: seq![ActionView::StopGracefully],
            }
        },
        Phase::Backoff => if is_target(state, model) {
            refused(AppError::ModelStarting)
        } else {
            Outcome {
                state: begun(LifecycleView { failures: 0, ..state }, model, seq![reply], Seq::empty()),
                actions: seq![ActionView::Validate],
            }
        },
        Phase::Stopping => refused(AppError::ModelStarting),
        Phase::FailedStop => refused(AppError::ModelStarting),
        Phase::Ended => refused(AppError::EngineUnavailable),
        _ => if !is_target(state, model) || state.directive != StopDirective::Continue {
            refused(AppError::ModelStarting)
        } else if state.loads.len() + state.acquires.len() >= MAX_START_WAITERS {
            refused(AppError::ModelBusy)
        } else {
            quietly(LifecycleView { loads: state.loads.push(reply), ..state })
        },
    }
}

/// A request to use `model` came.
pub open spec fn after_acquire(state: LifecycleView, model: ModelRecord, reply: u64) -> Outcome {
    let refused = |error: AppError|
        Outcome { state, actions: seq![ActionView::AnswerAcquire(reply, Err(error_view(error)))] };
    match state.phase {
        Phase::Stopped => Outcome {
            state: begun(state, model, Seq::empty(), seq![reply]),
            actions: seq![ActionView::Validate],
        },
        Phase::Running => if is_target(state, model) {
            Outcome { state: granted(state), actions: seq![grant_answer(state, reply)] }
        } else {
            refused(AppError::ModelBusy)
        },
        Phase::Backoff => if is_target(state, model) {
            refused(AppError::ModelStarting)
        } else {
            Outcome {
                state: begun(LifecycleView { failures: 0, ..state }, model, Seq::empty(), seq![reply]),
                actions: seq![ActionView::Validate],
            }
        },
        Phase::Stopping => refused(AppError::ModelStarting),
        Phase::FailedStop => refused(AppError::ModelStarting),
        Phase::Ended => refused(AppError::EngineUnavailable),
        _ => if !is_target(state, model) || state.directive != StopDirective::Continue {
            refused(AppError::ModelStarting)
        } else if state.loads.len() + state.acquires.len() >= MAX_START_WAITERS {
            refused(AppError::ModelBusy)
        } else {
            quietly(LifecycleView { acquires: state.acquires.push(reply), ..state })
        },
    }
}

/// The lease of an answer was taken by the request that waited for it. One of an
/// earlier generation changes nothing.
pub open spec fn after_delivery(state: LifecycleView, ticket: LeaseTicket) -> Outcome {
    if state.phase == Phase::Running && ticket.generation == state.generation {
        quietly(LifecycleView { leases: state.leases.insert(ticket.id), ..state })
    } else {
        quietly(state)
    }
}

/// A lease was given back. One of an earlier generation changes nothing.
pub open spec fn after_release(state: LifecycleView, ticket: LeaseTicket) -> Outcome {
    if state.phase == Phase::Running && ticket.generation == state.generation {
        quietly(LifecycleView { leases: state.leases.remove(ticket.id), ..state })
    } else {
        quietly(state)
    }
}

/// A request to stop came.
pub open spec fn after_stop(state: LifecycleView, request: StopRequest) -> Outcome {
    let directive = request.merged(state.directive);
    let orphaned = state.orphaned || request is Orphaned;
    let ending = directive == StopDirective::Shutdown;
    let stops = state.stops + request.replies();
    let asked = LifecycleView { directive, orphaned, stops, ..state };
    match state.phase {
        Phase::Stopped | Phase::Backoff => Outcome {
            state: cleared(asked, ending),
            actions: stop_answers(stops, Ok(())) + end_actions(ending),
        },
        Phase::Validating | Phase::Spawning => {
            let outcome = launch_cancelled(asked);
            Outcome { actions: seq![ActionView::DropPending] + outcome.actions, ..outcome }
        },
        Phase::Readying => Outcome {
            state: LifecycleView { phase: Phase::Cleaning, failure: None, forcing: false, ..asked },
            actions: seq![ActionView::DropPending, ActionView::StopGracefully],
        },
        Phase::Cleaning => quietly(asked),
        Phase::Running => Outcome {
            state: stopping(LifecycleView { leases: Set::empty(), ..asked }, FollowUp::Stop),
            actions: seq![ActionView::CancelLeases, ActionView::DropPending, ActionView::StopGracefully],
        },
        Phase::Stopping => quietly(LifecycleView { desired: None, ..asked }),
        Phase::FailedStop => if request is Orphaned {
            Outcome {
                state: LifecycleView { phase: Phase::Ended, orphaned: true, ..state },
                actions: end_actions(true),
            }
        } else {
            Outcome {
                state,
                actions: stop_answers(request.replies(), Err(stop_failure(state.diagnostic->0))),
            }
        },
        Phase::Ended => Outcome {
            state,
            actions: stop_answers(request.replies(), Err(error_view(AppError::EngineUnavailable))),
        },
    }
}

/// The launch was checked.
pub open spec fn after_validation(state: LifecycleView, refusal: Option<AppError>) -> Outcome {
    if state.phase != Phase::Validating {
        quietly(state)
    } else {
        match refusal {
            None => Outcome {
                state: LifecycleView { phase: Phase::Spawning, ..state },
                actions: seq![ActionView::Spawn],
            },
            Some(error) => Outcome {
                state: load_failed(state, failure_view(error)).state,
                actions: seq![ActionView::PublishFailedValidation] + start_answers(
                    state.loads,
                    state.acquires,
                    error_view(error),
                    load_failure(error.message_text()),
                ),
            },
        }
    }
}

/// The process was created, with the endpoint that it serves, or could not be.
pub open spec fn after_spawn(state: LifecycleView, result: Result<Option<Seq<char>>, AppError>) -> Outcome {
    if state.phase != Phase::Spawning {
        quietly(state)
    } else {
        match result {
            Ok(endpoint) => Outcome {
                state: LifecycleView { phase: Phase::Readying, pending_endpoint: endpoint, ..state },
                actions: seq![ActionView::AwaitReady],
            },
            Err(error) => load_failed(state, failure_view(error)),
        }
    }
}

/// The process became ready, or did not.
pub open spec fn after_readiness(state: LifecycleView, failure: Option<AppError>) -> Outcome {
    if state.phase != Phase::Readying {
        quietly(state)
    } else {
        match failure {
            None => {
                let running = LifecycleView {
                    phase: Phase::Running,
                    process: Some(ProcessContext { model_id: state.target->0.id, generation: state.generation }),
                    endpoint: state.pending_endpoint,
                    pending_endpoint: None,
                    loads: Seq::empty(),
                    acquires: Seq::empty(),
                    ..state
                };
                let outcome = all_granted(running, state.acquires);
                Outcome {
                    state: outcome.state,
                    actions: state.loads.map_values(|reply: u64| ActionView::AnswerLoad(reply, Ok(())))
                        + outcome.actions,
                }
            },
            Some(error) => Outcome {
                state: LifecycleView {
                    phase: Phase::Cleaning,
                    failure: Some(failure_view(error)),
                    forcing: false,
                    ..state
                },
                actions: seq![ActionView::StopGracefully],
            },
        }
    }
}

/// What a launch is told when one of its steps takes too long.
pub open spec fn timeout_text(phase: Phase) -> Seq<char> {
    match phase {
        Phase::Validating => "engine validation timed out"@,
        Phase::Spawning => "engine spawn timed out"@,
        _ => "engine readiness timed out"@,
    }
}

pub open spec fn timeout_failure(phase: Phase) -> FailureView {
    FailureView { message: "model failed to load"@, causes: seq![timeout_text(phase)] }
}

/// A step of the launch took too long.
pub open spec fn after_launch_timeout(state: LifecycleView) -> Outcome {
    match state.phase {
        Phase::Validating | Phase::Spawning => {
            let outcome = load_failed(state, timeout_failure(state.phase));
            Outcome { actions: seq![ActionView::DropPending] + outcome.actions, ..outcome }
        },
        Phase::Readying => Outcome {
            state: LifecycleView {
                phase: Phase::Cleaning,
                failure: Some(timeout_failure(state.phase)),
                forcing: false,
                ..state
            },
            actions: seq![ActionView::DropPending, ActionView::StopGracefully],
        },
        _ => quietly(state),
    }
}

/// The process that was to be stopped is gone.
pub open spec fn after_stopped(state: LifecycleView) -> Outcome {
    match state.phase {
        Phase::Cleaning => match state.failure {
            Some(failure) => if state.directive == StopDirective::Continue {
                load_failed(state, failure)
            } else {
                launch_cancelled(state)
            },
            None => launch_cancelled(state),
        },
        Phase::Stopping => {
            let ending = state.directive == StopDirective::Shutdown;
            let answers = stop_answers(state.stops, Ok(()));
            match state.follow_up {
                FollowUp::Replace(next, reply) => {
                    let free = LifecycleView { process: None, failures: 0, ..state };
                    if state.directive == StopDirective::Continue {
                        Outcome {
                            state: begun(free, next, seq![reply], Seq::empty()),
                            actions: answers + seq![ActionView::Validate],
                        }
                    } else {
                        Outcome {
                            state: cleared(free, ending),
                            actions: answers + seq![
                                ActionView::AnswerLoad(reply, Err(load_failure("replacement cancelled"@))),
                            ] + end_actions(ending),
                        }
                    }
                },
                FollowUp::Stop => Outcome {
                    state: cleared(state, ending),
                    actions: answers + end_actions(ending),
                },
            }
        },
        _ => quietly(state),
    }
}

/// The process could not be stopped.
pub open spec fn after_stop_failure(state: LifecycleView, diagnostic: Seq<char>) -> Outcome {
    let answers = stop_answers(state.stops, Err(stop_failure(diagnostic)));
    let unconfirmed = stop_unconfirmed(state, diagnostic);
    match state.phase {
        Phase::Cleaning => Outcome {
            state: unconfirmed,
            actions: cancelled_answers(state.loads, state.acquires) + answers + end_actions(state.orphaned),
        },
        Phase::Stopping => match state.follow_up {
            FollowUp::Replace(_, reply) => Outcome {
                state: LifecycleView { failures: 0, ..unconfirmed },
                actions: answers + seq![ActionView::AnswerLoad(reply, Err(stop_failure(diagnostic)))]
                    + end_actions(state.orphaned),
            },
            FollowUp::Stop => Outcome { state: unconfirmed, actions: answers + end_actions(state.orphaned) },
        },
        _ => quietly(state),
    }
}

/// How an attempt to stop the process came out. One that failed names its reason;
/// one without a reason took too long.
pub open spec fn after_stop_attempt(state: LifecycleView, failure: Option<Option<Seq<char>>>) -> Outcome {
    if state.phase != Phase::Cleaning && state.phase != Phase::Stopping {
        quietly(state)
    } else {
        match failure {
            None => after_stopped(state),
            Some(reason) => if !state.forcing {
                Outcome {
                    state: LifecycleView { forcing: true, ..state },
                    actions: seq![ActionView::DropPending, ActionView::StopForcefully],
                }
            } else {
                let diagnostic = match reason {
                    Some(text) => text,
                    None => if state.phase == Phase::Cleaning {
                        "engine process failed"@
                    } else {
                        "force shutdown timed out"@
                    },
                };
                let outcome = after_stop_failure(state, diagnostic);
                Outcome { actions: seq![ActionView::DropPending] + outcome.actions, ..outcome }
            },
        }
    }
}

/// How long to wait before a model is started again, in seconds, after so many
/// failures in a row.
pub open spec fn backoff_seconds(failures: u32) -> u64 {
    if failures <= 1 {
        1
    } else if failures == 2 {
        2
    } else if failures == 3 {
        4
    } else if failures == 4 {
        8
    } else if failures == 5 {
        16
    } else {
        30
    }
}

/// The failures in a row once a process has ended that ran for `seconds`.
pub open spec fn failures_after(failures: u32, seconds: u64) -> u32 {
    let before: u32 = if seconds >= HEALTHY_SECONDS {
        0
    } else {
        failures
    };
    if before < u32::MAX {
        (before + 1) as u32
    } else {
        u32::MAX
    }
}

/// The running process ended by itself.
pub open spec fn after_exit(state: LifecycleView, diagnostic: Seq<char>, seconds: u64) -> Outcome {
    if state.phase != Phase::Running {
        quietly(state)
    } else {
        let failures = failures_after(state.failures, seconds);
        Outcome {
            state: LifecycleView {
                phase: Phase::Backoff,
                process: None,
                endpoint: None,
                diagnostic: Some(diagnostic),
                leases: Set::empty(),
                failures,
                ..state
            },
            actions: seq![ActionView::CancelLeases, ActionView::WaitBackoff(backoff_seconds(failures))],
        }
    }
}

/// The wait of a generation is over. One of an earlier generation changes nothing.
pub open spec fn after_backoff(state: LifecycleView, generation: u64) -> Outcome {
    if state.phase == Phase::Backoff && state.generation == generation {
        Outcome {
            state: begun(state, state.target->0, Seq::empty(), Seq::empty()),
            actions: seq![ActionView::Validate],
        }
    } else {
        quietly(state)
    }
}

/// Something that can happen.
pub enum EventView {
    Load(ModelRecord, u64),
    Acquire(ModelRecord, u64),
    Delivery(LeaseTicket),
    Release(LeaseTicket),
    Stop(StopRequest),
    Validation(Option<AppError>),
    Spawn(Result<Option<Seq<char>>, AppError>),
    Readiness(Option<AppError>),
    LaunchTimeout,
    StopAttempt(Option<Option<Seq<char>>>),
    Exit(Seq<char>, u64),
    BackoffOver(u64),
}

pub open spec fn after(state: LifecycleView, event: EventView) -> Outcome {
    match event {
        EventView::Load(model, reply) => after_load(state, model, reply),
        EventView::Acquire(model, reply) => after_acquire(state, model, reply),
        EventView::Delivery(ticket) => after_delivery(state, ticket),
        EventView::Release(ticket) => after_release(state, ticket),
        EventView::Stop(request) => after_stop(state, request),
        EventView::Validation(refusal) => after_validation(state, refusal),
        EventView::Spawn(result) => after_spawn(state, result),
        EventView::Readiness(failure) => after_readiness(state, failure),
        EventView::LaunchTimeout => after_launch_timeout(state),
        EventView::StopAttempt(failure) => after_stop_attempt(state, failure),
        EventView::Exit(diagnostic, seconds) => after_exit(state, diagnostic, seconds),
        EventView::BackoffOver(generation) => after_backoff(state, generation),
    }
}

proof fn lemma_grants(state: LifecycleView, acquires: Seq<u64>)
    ensures
        all_granted(state, acquires).state == (LifecycleView {
            next_lease: all_granted(state, acquires).state.next_lease,
            ..state
        }),
        all_granted(state, acquires).actions.len() == acquires.len(),
        forall|index: int|
            0 <= index < acquires.len() ==> (#[trigger] all_granted(state, acquires).actions[index] matches
                ActionView::AnswerAcquire(reply, Ok(ticket)) && reply == acquires[index] && ticket.generation
                == state.generation),
    decreases acquires.len(),
{
    if acquires.len() > 0 {
        lemma_grants(state, acquires.drop_last());
    }
}

/// Whoever waited for a process that became ready is answered in order, loads first.
pub proof fn lemma_ready_answers(state: LifecycleView)
    requires
        state.phase == Phase::Readying,
    ensures
        ({
            let ready = after_readiness(state, None);
            &&& ready.state == (LifecycleView {
                phase: Phase::Running,
                process: Some(ProcessContext { model_id: state.target->0.id, generation: state.generation }),
                endpoint: state.pending_endpoint,
                pending_endpoint: None,
                loads: Seq::empty(),
                acquires: Seq::empty(),
                next_lease: ready.state.next_lease,
                ..state
            })
            &&& ready.actions.len() == state.loads.len() + state.acquires.len()
            &&& forall|index: int|
                0 <= index < state.loads.len() ==> #[trigger] ready.actions[index] == ActionView::AnswerLoad(
                    state.loads[index],
                    Ok(()),
                )
            &&& forall|index: int|
                0 <= index < state.acquires.len() ==> (#[trigger] ready.actions[state.loads.len() + index] matches
                    ActionView::AnswerAcquire(reply, Ok(ticket)) && reply == state.acquires[index]
                    && ticket.generation == state.generation)
        }),
{
    let running = LifecycleView {
        phase: Phase::Running,
        process: Some(ProcessContext { model_id: state.target->0.id, generation: state.generation }),
        endpoint: state.pending_endpoint,
        pending_endpoint: None,
        loads: Seq::empty(),
        acquires: Seq::empty(),
        ..state
    };
    lemma_grants(running, state.acquires);
    let grants = all_granted(running, state.acquires).actions;
    let ready = after_readiness(state, None);
    assert forall|index: int| 0 <= index < state.acquires.len() implies (
    #[trigger] ready.actions[state.loads.len() + index] matches ActionView::AnswerAcquire(reply, Ok(ticket)) && reply
        == state.acquires[index] && ticket.generation == state.generation) by {
        assert(ready.actions[state.loads.len() + index] == grants[index]);
    }
}

/// Every state that can be reached is sound.
pub proof fn law_states_stay_sound(state: LifecycleView, event: EventView)
    requires
        sound(state),
    ensures
        sound(initial()),
        sound(after(state, event).state),
{
    if event is Readiness && event->Readiness_0 is None && state.phase == Phase::Readying {
        let running = LifecycleView {
            phase: Phase::Running,
            process: Some(ProcessContext { model_id: state.target->0.id, generation: state.generation }),
            endpoint: state.pending_endpoint,
            pending_endpoint: None,
            loads: Seq::empty(),
            acquires: Seq::empty(),
            ..state
        };
        lemma_grants(running, state.acquires);
    }
}

/// A process is created only where there is none, once its launch was checked; and
/// a launch begins only where there is none, or the one there was is gone.
#[verifier::rlimit(40)]
pub proof fn law_one_process_at_a_time(state: LifecycleView, event: EventView)
    requires
        sound(state),
    ensures
        after(state, event).actions.contains(ActionView::Spawn) ==> state.phase == Phase::Validating && !occupied(
            state.phase,
        ),
        after(state, event).actions.contains(ActionView::Validate) ==> !occupied(state.phase) || (state.phase
            == Phase::Stopping && event == EventView::StopAttempt(None)),
        after(state, event).actions.contains(ActionView::Validate) ==> after(state, event).state.process is None,
{
    if event is Readiness {
        lemma_readiness_starts_nothing(state, event->Readiness_0);
    }
}

proof fn lemma_readiness_starts_nothing(state: LifecycleView, failure: Option<AppError>)
    requires
        sound(state),
    ensures
        !after_readiness(state, failure).actions.contains(ActionView::Spawn),
        !after_readiness(state, failure).actions.contains(ActionView::Validate),
{
    if state.phase == Phase::Readying && failure is None {
        let running = LifecycleView {
            phase: Phase::Running,
            process: Some(ProcessContext { model_id: state.target->0.id, generation: state.generation }),
            endpoint: state.pending_endpoint,
            pending_endpoint: None,
            loads: Seq::empty(),
            acquires: Seq::empty(),
            ..state
        };
        lemma_grants(running, state.acquires);
        let actions = after_readiness(state, failure).actions;
        assert forall|index: int| 0 <= index < actions.len() implies actions[index] != ActionView::Spawn
            && actions[index] != ActionView::Validate by {
            if index >= state.loads.len() {
                assert(actions[index] == all_granted(running, state.acquires).actions[index - state.loads.len()]);
            }
        }
    }
}

/// Once a stop could not be confirmed, nothing is started any more.
pub proof fn law_unconfirmed_stop_starts_nothing(state: LifecycleView, event: EventView)
    requires
        sound(state),
        state.phase == Phase::FailedStop,
    ensures
        after(state, event).state.phase == Phase::FailedStop || after(state, event).state.phase == Phase::Ended,
        !after(state, event).actions.contains(ActionView::Spawn),
        !after(state, event).actions.contains(ActionView::Validate),
{
}

/// Generations only go up, so what belongs to an earlier one can be told.
pub proof fn law_generations_go_up(state: LifecycleView, event: EventView)
    requires
        sound(state),
        state.generation < u64::MAX,
    ensures
        state.generation <= after(state, event).state.generation <= state.generation + 1,
        after(state, event).actions.contains(ActionView::Validate) ==> after(state, event).state.generation
            == state.generation + 1,
{
    if event is Readiness {
        lemma_readiness_starts_nothing(state, event->Readiness_0);
        if state.phase == Phase::Readying && event->Readiness_0 is None {
            let running = LifecycleView {
                phase: Phase::Running,
                process: Some(ProcessContext { model_id: state.target->0.id, generation: state.generation }),
                endpoint: state.pending_endpoint,
                pending_endpoint: None,
                loads: Seq::empty(),
                acquires: Seq::empty(),
                ..state
            };
            lemma_grants(running, state.acquires);
        }
    }
}

/// A timer that was set before a model was given up cannot start it again.
pub proof fn law_stale_timers_start_nothing(state: LifecycleView, request: StopRequest, generation: u64)
    requires
        sound(state),
        state.phase == Phase::Backoff,
        state.generation < u64::MAX,
        generation <= state.generation,
    ensures
        after_stop(state, request).state.desired is None,
        after_backoff(after_stop(state, request).state, generation).actions.len() == 0,
        after_backoff(after_stop(state, request).state, generation).state == after_stop(state, request).state,
{
}

/// Requests for the model that is being started wait for that one start.
pub proof fn law_requests_share_one_start(state: LifecycleView, model: ModelRecord, reply: u64)
    requires
        sound(state),
        launching(state.phase),
        is_target(state, model),
        state.directive == StopDirective::Continue,
        state.loads.len() + state.acquires.len() < MAX_START_WAITERS,
    ensures
        after_load(state, model, reply).actions.len() == 0,
        after_load(state, model, reply).state.loads == state.loads.push(reply),
        after_acquire(state, model, reply).actions.len() == 0,
        after_acquire(state, model, reply).state.acquires == state.acquires.push(reply),
{
}

/// A lease is counted only once its answer was taken: a request that went away is
/// never counted.
pub proof fn law_only_taken_leases_are_counted(state: LifecycleView, event: EventView, id: u64)
    requires
        sound(state),
        after(state, event).state.leases.contains(id),
    ensures
        state.leases.contains(id) || (event matches EventView::Delivery(ticket) && ticket.id == id),
{
    if event is Readiness && event->Readiness_0 is None && state.phase == Phase::Readying {
        let running = LifecycleView {
            phase: Phase::Running,
            process: Some(ProcessContext { model_id: state.target->0.id, generation: state.generation }),
            endpoint: state.pending_endpoint,
            pending_endpoint: None,
            loads: Seq::empty(),
            acquires: Seq::empty(),
            ..state
        };
        lemma_grants(running, state.acquires);
    }
}

/// A model in use is not replaced.
pub proof fn law_model_in_use_is_not_replaced(state: LifecycleView, model: ModelRecord, reply: u64)
    requires
        sound(state),
        state.leases.len() > 0,
        !is_target(state, model),
    ensures
        after_load(state, model, reply).state == state,
        after_load(state, model, reply).actions == seq![
            ActionView::AnswerLoad(reply, Err(error_view(AppError::ModelBusy))),
        ],
{
}

/// The wait before another start never shrinks with more failures, and is never
/// longer than half a minute.
pub proof fn law_backoff_is_capped(fewer: u32, more: u32)
    requires
        fewer <= more,
    ensures
        1 <= backoff_seconds(fewer) <= backoff_seconds(more) <= 30,
{
}

/// How often a request waits for an answer.
pub open spec fn waiting(state: LifecycleView, reply: u64) -> nat {
    state.loads.to_multiset().count(reply) + state.acquires.to_multiset().count(reply)
        + state.stops.to_multiset().count(reply) + (match state.follow_up {
        FollowUp::Replace(_, other) => if other == reply {
            1nat
        } else {
            0
        },
        FollowUp::Stop => 0,
    })
}

pub open spec fn answers_to(action: ActionView, reply: u64) -> bool {
    match action {
        ActionView::AnswerLoad(other, _) => other == reply,
        ActionView::AnswerAcquire(other, _) => other == reply,
        ActionView::AnswerStop(other, _) => other == reply,
        _ => false,
    }
}

/// How often a request is answered.
pub open spec fn answered(actions: Seq<ActionView>, reply: u64) -> nat
    decreases actions.len(),
{
    if actions.len() == 0 {
        0
    } else {
        answered(actions.drop_last(), reply) + (if answers_to(actions.last(), reply) {
            1nat
        } else {
            0
        })
    }
}

/// How often a request is made by an event.
pub open spec fn asked(event: EventView, reply: u64) -> nat {
    match event {
        EventView::Load(_, other) => if other == reply {
            1
        } else {
            0
        },
        EventView::Acquire(_, other) => if other == reply {
            1
        } else {
            0
        },
        EventView::Stop(request) => request.replies().to_multiset().count(reply),
        _ => 0,
    }
}

proof fn lemma_answered_together(first: Seq<ActionView>, second: Seq<ActionView>, reply: u64)
    ensures
        answered(first + second, reply) == answered(first, reply) + answered(second, reply),
    decreases second.len(),
{
    if second.len() == 0 {
        assert(first + second =~= first);
    } else {
        lemma_answered_together(first, second.drop_last(), reply);
        assert((first + second).drop_last() =~= first + second.drop_last());
        assert((first + second).last() == second.last());
    }
}

/// A list of answers, one for each request in order.
pub open spec fn answers_each(actions: Seq<ActionView>, replies: Seq<u64>) -> bool {
    &&& actions.len() == replies.len()
    &&& forall|index: int, reply: u64|
        #![trigger answers_to(actions[index], reply)]
        0 <= index < replies.len() ==> (answers_to(actions[index], reply) <==> reply == replies[index])
}

proof fn lemma_each_answered(actions: Seq<ActionView>, replies: Seq<u64>, reply: u64)
    requires
        answers_each(actions, replies),
    ensures
        answered(actions, reply) == replies.to_multiset().count(reply),
    decreases replies.len(),
{
    broadcast use vstd::seq_lib::group_to_multiset_ensures;

    if replies.len() > 0 {
        let rest = actions.drop_last();
        assert forall|index: int, other: u64|
            #![trigger answers_to(rest[index], other)]
            0 <= index < replies.len() - 1 implies (answers_to(rest[index], other) <==> other
            == replies.drop_last()[index]) by {
            assert(rest[index] == actions[index]);
        }
        lemma_each_answered(rest, replies.drop_last(), reply);
        assert(replies =~= replies.drop_last().push(replies.last()));
        assert(answers_to(actions[replies.len() - 1], reply) <==> reply == replies.last());
    } else {
        assert(replies.to_multiset() =~= Seq::<u64>::empty().to_multiset());
    }
}

proof fn lemma_start_answers(loads: Seq<u64>, acquires: Seq<u64>, first: ErrorView, others: ErrorView, reply: u64)
    ensures
        answered(start_answers(loads, acquires, first, others), reply) == loads.to_multiset().count(reply)
            + acquires.to_multiset().count(reply),
{
    let to_loads = Seq::new(
        loads.len(),
        |index: int| ActionView::AnswerLoad(loads[index], Err(nth_error(index, first, others))),
    );
    let to_acquires = Seq::new(
        acquires.len(),
        |index: int|
            ActionView::AnswerAcquire(acquires[index], Err(nth_error(loads.len() + index, first, others))),
    );
    lemma_each_answered(to_loads, loads, reply);
    lemma_each_answered(to_acquires, acquires, reply);
    lemma_answered_together(to_loads, to_acquires, reply);
}

proof fn lemma_stop_answers(stops: Seq<u64>, result: Result<(), ErrorView>, reply: u64)
    ensures
        answered(stop_answers(stops, result), reply) == stops.to_multiset().count(reply),
{
    lemma_each_answered(stop_answers(stops, result), stops, reply);
}

proof fn lemma_few_answers(one: ActionView, two: ActionView, three: ActionView, reply: u64)
    ensures
        answered(Seq::empty(), reply) == 0,
        answered(seq![one], reply) == (if answers_to(one, reply) {
            1nat
        } else {
            0
        }),
        !answers_to(one, reply) && !answers_to(two, reply) ==> answered(seq![one, two], reply) == 0,
        !answers_to(one, reply) && !answers_to(two, reply) && !answers_to(three, reply) ==> answered(
            seq![one, two, three],
            reply,
        ) == 0,
{
    reveal_with_fuel(answered, 4);
    assert(seq![one].drop_last() =~= Seq::empty());
    assert(seq![one, two].drop_last() =~= seq![one]);
    assert(seq![one, two, three].drop_last() =~= seq![one, two]);
}

proof fn lemma_counts(loads: Seq<u64>, reply: u64, other: u64)
    ensures
        loads.push(other).to_multiset().count(reply) == loads.to_multiset().count(reply) + (if other == reply {
            1nat
        } else {
            0
        }),
        Seq::<u64>::empty().to_multiset().count(reply) == 0,
        seq![other].to_multiset().count(reply) == (if other == reply {
            1nat
        } else {
            0
        }),
{
    broadcast use vstd::seq_lib::group_to_multiset_ensures;

    assert(seq![other] =~= Seq::<u64>::empty().push(other));
}

proof fn lemma_added_counts(first: Seq<u64>, second: Seq<u64>, reply: u64)
    ensures
        (first + second).to_multiset().count(reply) == first.to_multiset().count(reply)
            + second.to_multiset().count(reply),
    decreases second.len(),
{
    if second.len() == 0 {
        assert(first + second =~= first);
        lemma_counts(first, reply, reply);
        assert(second =~= Seq::empty());
    } else {
        lemma_added_counts(first, second.drop_last(), reply);
        lemma_counts(first + second.drop_last(), reply, second.last());
        lemma_counts(second.drop_last(), reply, second.last());
        assert(first + second =~= (first + second.drop_last()).push(second.last()));
        assert(second =~= second.drop_last().push(second.last()));
    }
}


/// What waits and what is answered add up to what waited and what was asked.
pub open spec fn balanced(state: LifecycleView, outcome: Outcome, new: nat, reply: u64) -> bool {
    waiting(outcome.state, reply) + answered(outcome.actions, reply) == waiting(state, reply) + new
}

proof fn lemma_no_one_waits(reply: u64)
    ensures
        Seq::<u64>::empty().to_multiset().count(reply) == 0,
        answered(Seq::empty(), reply) == 0,
        answered(end_actions(true), reply) == 0,
        answered(end_actions(false), reply) == 0,
{
    lemma_counts(Seq::empty(), reply, reply);
    lemma_few_answers(ActionView::End, ActionView::End, ActionView::End, reply);
}

proof fn lemma_load_failed_balances(state: LifecycleView, failure: FailureView, reply: u64)
    requires
        sound(state),
        state.stops.len() == 0,
        state.follow_up is Stop,
    ensures
        balanced(state, load_failed(state, failure), 0, reply),
{
    lemma_no_one_waits(reply);
    assert(state.stops =~= Seq::empty());
    let error = failure.answer();
    lemma_start_answers(state.loads, state.acquires, error, error, reply);
}

proof fn lemma_launch_cancelled_balances(state: LifecycleView, reply: u64)
    requires
        state.follow_up is Stop,
    ensures
        balanced(state, launch_cancelled(state), 0, reply),
{
    let ending = state.directive == StopDirective::Shutdown;
    let one = cancelled_answers(state.loads, state.acquires);
    let two = stop_answers(state.stops, Ok(()));
    lemma_no_one_waits(reply);
    lemma_start_answers(
        state.loads,
        state.acquires,
        load_failure("load cancelled"@),
        load_failure("model failed to load"@),
        reply,
    );
    lemma_stop_answers(state.stops, Ok(()), reply);
    lemma_answered_together(one, two, reply);
    lemma_answered_together(one + two, end_actions(ending), reply);
}

proof fn lemma_readiness_balances(state: LifecycleView, failure: Option<AppError>, reply: u64)
    requires
        sound(state),
    ensures
        balanced(state, after_readiness(state, failure), 0, reply),
{
    lemma_no_one_waits(reply);
    lemma_few_answers(ActionView::StopGracefully, ActionView::End, ActionView::End, reply);
    if state.phase == Phase::Readying && failure is None {
        let running = LifecycleView {
            phase: Phase::Running,
            process: Some(ProcessContext { model_id: state.target->0.id, generation: state.generation }),
            endpoint: state.pending_endpoint,
            pending_endpoint: None,
            loads: Seq::empty(),
            acquires: Seq::empty(),
            ..state
        };
        lemma_grants(running, state.acquires);
        let grants = all_granted(running, state.acquires).actions;
        let loaded = state.loads.map_values(|other: u64| ActionView::AnswerLoad(other, Ok(())));
        lemma_each_answered(loaded, state.loads, reply);
        assert(answers_each(grants, state.acquires)) by {
            assert forall|index: int, other: u64|
                #![trigger answers_to(grants[index], other)]
                0 <= index < state.acquires.len() implies (answers_to(grants[index], other) <==> other
                == state.acquires[index]) by {
                assert(grants[index] matches ActionView::AnswerAcquire(to, Ok(ticket)) && to
                    == state.acquires[index]);
            }
        }
        lemma_each_answered(grants, state.acquires, reply);
        lemma_answered_together(loaded, grants, reply);
    }
}

proof fn lemma_stop_balances(state: LifecycleView, request: StopRequest, reply: u64)
    requires
        sound(state),
    ensures
        balanced(state, after_stop(state, request), asked(EventView::Stop(request), reply), reply),
{
    let stops = state.stops + request.replies();
    let directive = request.merged(state.directive);
    let ending = directive == StopDirective::Shutdown;
    let asked_for = LifecycleView {
        directive,
        orphaned: state.orphaned || request is Orphaned,
        stops,
        ..state
    };
    lemma_no_one_waits(reply);
    lemma_added_counts(state.stops, request.replies(), reply);
    match state.phase {
        Phase::Stopped | Phase::Backoff => {
            assert(state.loads =~= Seq::empty() && state.acquires =~= Seq::empty());
            lemma_stop_answers(stops, Ok(()), reply);
            lemma_answered_together(stop_answers(stops, Ok(())), end_actions(ending), reply);
        },
        Phase::Validating | Phase::Spawning => {
            lemma_launch_cancelled_balances(asked_for, reply);
            lemma_few_answers(ActionView::DropPending, ActionView::End, ActionView::End, reply);
            lemma_answered_together(seq![ActionView::DropPending], launch_cancelled(asked_for).actions, reply);
        },
        Phase::Readying => {
            lemma_few_answers(ActionView::DropPending, ActionView::StopGracefully, ActionView::End, reply);
        },
        Phase::Running => {
            lemma_few_answers(
                ActionView::CancelLeases,
                ActionView::DropPending,
                ActionView::StopGracefully,
                reply,
            );
        },
        Phase::FailedStop => {
            assert(state.stops =~= Seq::empty());
            lemma_stop_answers(request.replies(), Err(stop_failure(state.diagnostic->0)), reply);
        },
        Phase::Ended => {
            assert(state.stops =~= Seq::empty());
            lemma_stop_answers(request.replies(), Err(error_view(AppError::EngineUnavailable)), reply);
        },
        _ => {},
    }
}

proof fn lemma_stopped_balances(state: LifecycleView, reply: u64)
    requires
        sound(state),
        state.phase == Phase::Cleaning || state.phase == Phase::Stopping,
    ensures
        balanced(state, after_stopped(state), 0, reply),
{
    lemma_no_one_waits(reply);
    if state.phase == Phase::Cleaning {
        if state.failure is Some && state.directive == StopDirective::Continue {
            lemma_load_failed_balances(state, state.failure->0, reply);
        } else {
            lemma_launch_cancelled_balances(state, reply);
        }
    } else {
        let ending = state.directive == StopDirective::Shutdown;
        let answers = stop_answers(state.stops, Ok(()));
        lemma_stop_answers(state.stops, Ok(()), reply);
        assert(state.loads =~= Seq::empty() && state.acquires =~= Seq::empty());
        match state.follow_up {
            FollowUp::Replace(next, other) => {
                lemma_counts(Seq::empty(), reply, other);
                let refusal = ActionView::AnswerLoad(other, Err(load_failure("replacement cancelled"@)));
                lemma_few_answers(ActionView::Validate, ActionView::End, ActionView::End, reply);
                lemma_few_answers(refusal, ActionView::End, ActionView::End, reply);
                lemma_answered_together(answers, seq![ActionView::Validate], reply);
                lemma_answered_together(answers, seq![refusal], reply);
                lemma_answered_together(answers + seq![refusal], end_actions(ending), reply);
            },
            FollowUp::Stop => {
                lemma_answered_together(answers, end_actions(ending), reply);
            },
        }
    }
}

proof fn lemma_stop_failure_balances(state: LifecycleView, diagnostic: Seq<char>, reply: u64)
    requires
        sound(state),
        state.phase == Phase::Cleaning || state.phase == Phase::Stopping,
    ensures
        balanced(state, after_stop_failure(state, diagnostic), 0, reply),
{
    let answers = stop_answers(state.stops, Err(stop_failure(diagnostic)));
    lemma_no_one_waits(reply);
    lemma_stop_answers(state.stops, Err(stop_failure(diagnostic)), reply);
    if state.phase == Phase::Cleaning {
        let one = cancelled_answers(state.loads, state.acquires);
        lemma_start_answers(
            state.loads,
            state.acquires,
            load_failure("load cancelled"@),
            load_failure("model failed to load"@),
            reply,
        );
        lemma_answered_together(one, answers, reply);
        lemma_answered_together(one + answers, end_actions(state.orphaned), reply);
    } else {
        assert(state.loads =~= Seq::empty() && state.acquires =~= Seq::empty());
        match state.follow_up {
            FollowUp::Replace(_, other) => {
                let refusal = ActionView::AnswerLoad(other, Err(stop_failure(diagnostic)));
                lemma_few_answers(refusal, ActionView::End, ActionView::End, reply);
                lemma_answered_together(answers, seq![refusal], reply);
                lemma_answered_together(answers + seq![refusal], end_actions(state.orphaned), reply);
            },
            FollowUp::Stop => {
                lemma_answered_together(answers, end_actions(state.orphaned), reply);
            },
        }
    }
}

proof fn lemma_launch_balances(state: LifecycleView, event: EventView, reply: u64)
    requires
        sound(state),
        event is Validation || event is Spawn || event is LaunchTimeout,
    ensures
        balanced(state, after(state, event), 0, reply),
{
    lemma_no_one_waits(reply);
    lemma_few_answers(ActionView::Spawn, ActionView::End, ActionView::End, reply);
    lemma_few_answers(ActionView::AwaitReady, ActionView::End, ActionView::End, reply);
    lemma_few_answers(ActionView::DropPending, ActionView::StopGracefully, ActionView::End, reply);
    lemma_few_answers(ActionView::PublishFailedValidation, ActionView::End, ActionView::End, reply);
    match event {
        EventView::Validation(Some(error)) => {
            if state.phase == Phase::Validating {
                let answers = start_answers(
                    state.loads,
                    state.acquires,
                    error_view(error),
                    load_failure(error.message_text()),
                );
                assert(state.stops =~= Seq::empty());
                lemma_start_answers(
                    state.loads,
                    state.acquires,
                    error_view(error),
                    load_failure(error.message_text()),
                    reply,
                );
                lemma_answered_together(seq![ActionView::PublishFailedValidation], answers, reply);
            }
        },
        EventView::Spawn(Err(error)) => {
            if state.phase == Phase::Spawning {
                lemma_load_failed_balances(state, failure_view(error), reply);
            }
        },
        EventView::LaunchTimeout => {
            if state.phase == Phase::Validating || state.phase == Phase::Spawning {
                let failure = timeout_failure(state.phase);
                lemma_load_failed_balances(state, failure, reply);
                lemma_answered_together(
                    seq![ActionView::DropPending],
                    load_failed(state, failure).actions,
                    reply,
                );
            }
        },
        _ => {},
    }
}

/// No request is lost and none is answered twice: what waits and what is answered
/// add up, for every request, to what waited and what was asked.
pub proof fn law_requests_are_answered_once(state: LifecycleView, event: EventView, reply: u64)
    requires
        sound(state),
    ensures
        waiting(after(state, event).state, reply) + answered(after(state, event).actions, reply) == waiting(
            state,
            reply,
        ) + asked(event, reply),
{
    lemma_no_one_waits(reply);
    match event {
        EventView::Load(model, other) => {
            lemma_counts(state.loads, reply, other);
            lemma_few_answers(ActionView::Validate, ActionView::End, ActionView::End, reply);
            lemma_few_answers(ActionView::StopGracefully, ActionView::End, ActionView::End, reply);
            lemma_few_answers(ActionView::AnswerLoad(other, Ok(())), ActionView::End, ActionView::End, reply);
            let refused = |error: AppError| ActionView::AnswerLoad(other, Err(error_view(error)));
            lemma_few_answers(refused(AppError::ModelBusy), ActionView::End, ActionView::End, reply);
            lemma_few_answers(refused(AppError::ModelStarting), ActionView::End, ActionView::End, reply);
            lemma_few_answers(refused(AppError::EngineUnavailable), ActionView::End, ActionView::End, reply);
            if !launching(state.phase) {
                assert(state.loads =~= Seq::empty() && state.acquires =~= Seq::empty());
            }
            if state.phase == Phase::Stopped || state.phase == Phase::Backoff {
                assert(state.stops =~= Seq::empty());
            }
        },
        EventView::Acquire(model, other) => {
            lemma_counts(state.acquires, reply, other);
            lemma_few_answers(ActionView::Validate, ActionView::End, ActionView::End, reply);
            lemma_few_answers(grant_answer(state, other), ActionView::End, ActionView::End, reply);
            let refused = |error: AppError| ActionView::AnswerAcquire(other, Err(error_view(error)));
            lemma_few_answers(refused(AppError::ModelBusy), ActionView::End, ActionView::End, reply);
            lemma_few_answers(refused(AppError::ModelStarting), ActionView::End, ActionView::End, reply);
            lemma_few_answers(refused(AppError::EngineUnavailable), ActionView::End, ActionView::End, reply);
            if !launching(state.phase) {
                assert(state.loads =~= Seq::empty() && state.acquires =~= Seq::empty());
            }
            if state.phase == Phase::Stopped || state.phase == Phase::Backoff {
                assert(state.stops =~= Seq::empty());
            }
        },
        EventView::Delivery(_) => {},
        EventView::Release(_) => {},
        EventView::Stop(request) => {
            lemma_stop_balances(state, request, reply);
        },
        EventView::Readiness(failure) => {
            lemma_readiness_balances(state, failure, reply);
        },
        EventView::StopAttempt(failure) => {
            lemma_few_answers(ActionView::DropPending, ActionView::StopForcefully, ActionView::End, reply);
            if state.phase == Phase::Cleaning || state.phase == Phase::Stopping {
                match failure {
                    None => {
                        lemma_stopped_balances(state, reply);
                    },
                    Some(reason) => {
                        let diagnostic = match reason {
                            Some(text) => text,
                            None => if state.phase == Phase::Cleaning {
                                "engine process failed"@
                            } else {
                                "force shutdown timed out"@
                            },
                        };
                        lemma_stop_failure_balances(state, diagnostic, reply);
                        lemma_answered_together(
                            seq![ActionView::DropPending],
                            after_stop_failure(state, diagnostic).actions,
                            reply,
                        );
                    },
                }
            }
        },
        EventView::Exit(_, seconds) => {
            let wait = ActionView::WaitBackoff(backoff_seconds(failures_after(state.failures, seconds)));
            lemma_few_answers(ActionView::CancelLeases, wait, ActionView::End, reply);
        },
        EventView::BackoffOver(_) => {
            lemma_few_answers(ActionView::Validate, ActionView::End, ActionView::End, reply);
            if state.phase == Phase::Backoff {
                assert(state.loads =~= Seq::empty() && state.acquires =~= Seq::empty());
                assert(state.stops =~= Seq::empty());
            }
        },
        _ => {
            lemma_launch_balances(state, event, reply);
        },
    }
}

} // verus!
