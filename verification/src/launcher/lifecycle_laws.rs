//! What a lifecycle owes to those who use it: which requests start, share, replace
//! or end a process, and what they are told.

use vstd::prelude::*;

use super::error::AppError;
use super::lifecycle::{shown_state, ExitReport, LifecycleState};
use super::lifecycle_model::{
    after, lemma_ready_answers, sound, ActionView, EventView, FollowUp, LeaseTicket, LifecycleView, Outcome, Phase,
    ProcessContext, StopDirective, StopRequest,
};
use super::model::ModelRecord;
use crate::text::decimal;

verus! {

/// The model of the record runs.
pub open spec fn runs(state: LifecycleView, model: ModelRecord) -> bool {
    state.phase == Phase::Running && state.target is Some && state.target->0.id == model.id
}

/// Another model than that of the record runs.
pub open spec fn another_runs(state: LifecycleView, model: ModelRecord) -> bool {
    state.phase == Phase::Running && state.target is Some && state.target->0.id != model.id
}

/// A launch goes on and was not cancelled.
pub open spec fn goes_on(state: LifecycleView) -> bool {
    &&& state.phase == Phase::Validating || state.phase == Phase::Spawning || state.phase == Phase::Readying
        || state.phase == Phase::Cleaning
    &&& state.directive == StopDirective::Continue
}

/// The model that runs is loaded already: a request to load it succeeds at once and
/// changes nothing.
pub proof fn law_running_model_is_loaded(state: LifecycleView, model: ModelRecord, reply: u64)
    requires
        sound(state),
        runs(state, model),
    ensures
        after(state, EventView::Load(model, reply)) == (Outcome {
            state,
            actions: seq![ActionView::AnswerLoad(reply, Ok(()))],
        }),
{
}

/// The model that runs may be used at once, under a number that the next request does
/// not get; nothing else changes.
pub proof fn law_running_model_is_lent(state: LifecycleView, model: ModelRecord, reply: u64)
    requires
        sound(state),
        runs(state, model),
    ensures
        after(state, EventView::Acquire(model, reply)).actions == seq![
            ActionView::AnswerAcquire(
                reply,
                Ok(LeaseTicket { generation: state.generation, id: state.next_lease }),
            ),
        ],
        ({
            let lent = after(state, EventView::Acquire(model, reply)).state;
            lent == (LifecycleView { next_lease: lent.next_lease, ..state }) && lent.next_lease != state.next_lease
        }),
{
}

/// While another model runs, nobody may use this one; it is loaded once nobody uses
/// the other, which is stopped first.
pub proof fn law_running_model_is_replaced_when_idle(state: LifecycleView, model: ModelRecord, reply: u64)
    requires
        sound(state),
        another_runs(state, model),
        state.generation < u64::MAX,
    ensures
        after(state, EventView::Acquire(model, reply)).state == state,
        after(state, EventView::Acquire(model, reply)).actions.len() == 1,
        after(state, EventView::Acquire(model, reply)).actions[0] matches ActionView::AnswerAcquire(to, Err(error))
            && to == reply && error.code == "model_busy"@,
        state.leases.len() > 0 ==> after(state, EventView::Load(model, reply)).state == state,
        state.leases.len() > 0 ==> after(state, EventView::Load(model, reply)).actions.len() == 1 && (after(
            state,
            EventView::Load(model, reply),
        ).actions[0] matches ActionView::AnswerLoad(to, Err(error)) && to == reply && error.code
            == "model_busy"@),
        state.leases.len() == 0 ==> {
            let asked = after(state, EventView::Load(model, reply));
            let stopped = after(asked.state, EventView::StopAttempt(None));
            &&& asked.actions == seq![ActionView::StopGracefully]
            &&& asked.state.phase == Phase::Stopping
            &&& asked.state.process == state.process
            &&& stopped.state.phase == Phase::Validating
            &&& stopped.state.target == Some(model)
            &&& stopped.state.desired == Some(model.id)
            &&& stopped.state.process is None
            &&& stopped.state.failures == 0
            &&& stopped.state.loads == seq![reply]
            &&& stopped.state.acquires.len() == 0
            &&& stopped.actions == seq![ActionView::Validate]
        },
{
    let asked = after(state, EventView::Load(model, reply));
    let stopped = after(asked.state, EventView::StopAttempt(None));
    if state.leases.len() == 0 {
        assert(state.stops =~= Seq::empty());
        assert(stopped.actions =~= seq![ActionView::Validate]);
    }
}

/// Where nothing runs, and where another model waits to be started again, a request
/// starts its model, waits for it, and is the only one that does.
pub proof fn law_first_request_starts_its_model(state: LifecycleView, model: ModelRecord, reply: u64)
    requires
        sound(state),
        state.generation < u64::MAX,
        state.phase == Phase::Stopped || (state.phase == Phase::Backoff && state.target->0.id != model.id),
    ensures
        ({
            let loading = after(state, EventView::Load(model, reply));
            let acquiring = after(state, EventView::Acquire(model, reply));
            &&& loading.actions == seq![ActionView::Validate]
            &&& acquiring.actions == seq![ActionView::Validate]
            &&& loading.state.phase == Phase::Validating
            &&& acquiring.state.phase == Phase::Validating
            &&& loading.state.target == Some(model)
            &&& acquiring.state.target == Some(model)
            &&& loading.state.desired == Some(model.id)
            &&& acquiring.state.desired == Some(model.id)
            &&& loading.state.generation == state.generation + 1
            &&& acquiring.state.generation == state.generation + 1
            &&& loading.state.loads == seq![reply] && loading.state.acquires.len() == 0
            &&& acquiring.state.acquires == seq![reply] && acquiring.state.loads.len() == 0
            &&& loading.state.diagnostic is None && acquiring.state.diagnostic is None
            &&& state.phase == Phase::Backoff ==> loading.state.failures == 0 && acquiring.state.failures == 0
            &&& state.phase == Phase::Stopped ==> loading.state.failures == state.failures
                && acquiring.state.failures == state.failures
        }),
{
}

/// Requests that cannot be served change nothing, and are told why: another start, a
/// restart or a stop goes on, too many wait, or the lifecycle is over.
pub proof fn law_refused_requests_change_nothing(state: LifecycleView, model: ModelRecord, reply: u64)
    requires
        sound(state),
    ensures
        ({
            let starting = {
                ||| state.phase == Phase::Stopping
                ||| state.phase == Phase::FailedStop
                ||| state.phase == Phase::Backoff && state.target->0.id == model.id
                ||| (state.phase == Phase::Validating || state.phase == Phase::Spawning || state.phase
                    == Phase::Readying || state.phase == Phase::Cleaning) && (state.target->0.id != model.id
                    || state.directive != StopDirective::Continue)
            };
            let crowded = goes_on(state) && state.target->0.id == model.id && state.loads.len() + state.acquires.len()
                >= 128;
            let code = if starting {
                "model_starting"@
            } else if crowded {
                "model_busy"@
            } else {
                "engine_unavailable"@
            };
            starting || crowded || state.phase == Phase::Ended ==> {
                &&& after(state, EventView::Load(model, reply)).state == state
                &&& after(state, EventView::Load(model, reply)).actions.len() == 1
                &&& after(state, EventView::Load(model, reply)).actions[0] matches ActionView::AnswerLoad(
                    to,
                    Err(error),
                ) && to == reply && error.code == code
                &&& after(state, EventView::Acquire(model, reply)).state == state
                &&& after(state, EventView::Acquire(model, reply)).actions.len() == 1
                &&& after(state, EventView::Acquire(model, reply)).actions[0] matches ActionView::AnswerAcquire(
                    other,
                    Err(reason),
                ) && other == reply && reason.code == code
            }
        }),
{
}

/// Up to so many requests share a start.
pub proof fn law_many_requests_share_a_start(state: LifecycleView, model: ModelRecord, reply: u64)
    requires
        sound(state),
        goes_on(state),
        state.target->0.id == model.id,
        state.loads.len() + state.acquires.len() < 128,
    ensures
        after(state, EventView::Load(model, reply)) == (Outcome {
            state: LifecycleView { loads: state.loads.push(reply), ..state },
            actions: Seq::empty(),
        }),
        after(state, EventView::Acquire(model, reply)) == (Outcome {
            state: LifecycleView { acquires: state.acquires.push(reply), ..state },
            actions: Seq::empty(),
        }),
{
}

/// A launch goes from its check to the process, and from the process to its readiness;
/// it serves at the endpoint that the process was created with.
pub proof fn law_launch_goes_step_by_step(state: LifecycleView, endpoint: Option<Seq<char>>)
    requires
        sound(state),
        state.phase == Phase::Validating,
    ensures
        ({
            let checked = after(state, EventView::Validation(None));
            let created = after(checked.state, EventView::Spawn(Ok(endpoint)));
            let ready = after(created.state, EventView::Readiness(None));
            &&& checked.actions == seq![ActionView::Spawn]
            &&& checked.state.phase == Phase::Spawning
            &&& created.actions == seq![ActionView::AwaitReady]
            &&& created.state.phase == Phase::Readying
            &&& created.state.endpoint is None
            &&& ready.state.phase == Phase::Running
            &&& ready.state.endpoint == endpoint
            &&& ready.state.target == state.target
            &&& ready.state.desired == state.desired
            &&& ready.state.failures == state.failures
            &&& ready.state.generation == state.generation
            &&& ready.state.process == Some(
                ProcessContext { model_id: state.target->0.id, generation: state.generation },
            )
            &&& ready.state.leases == state.leases
            &&& ready.actions.len() == state.loads.len() + state.acquires.len()
            &&& forall|index: int|
                0 <= index < state.loads.len() ==> #[trigger] ready.actions[index] == ActionView::AnswerLoad(
                    state.loads[index],
                    Ok(()),
                )
            &&& forall|index: int|
                0 <= index < state.acquires.len() ==> (#[trigger] ready.actions[state.loads.len() + index] matches
                    ActionView::AnswerAcquire(reply, Ok(ticket)) && reply == state.acquires[index]
                    && ticket.generation == state.generation)
        }),
{
    let checked = after(state, EventView::Validation(None));
    let created = after(checked.state, EventView::Spawn(Ok(endpoint)));
    lemma_ready_answers(created.state);
}

/// A launch that is refused or fails leaves nothing running and nothing wanted. The
/// failure is shown, and every request that waited is told so; of a refusal the first
/// request gets the reason itself.
pub proof fn law_failed_launch_is_told(state: LifecycleView, error: AppError, index: int)
    requires
        sound(state),
        state.phase == Phase::Validating || state.phase == Phase::Spawning,
        0 <= index < state.loads.len(),
    ensures
        ({
            let failed = if state.phase == Phase::Validating {
                after(state, EventView::Validation(Some(error)))
            } else {
                after(state, EventView::Spawn(Err(error)))
            };
            let at = if state.phase == Phase::Validating {
                index + 1
            } else {
                index
            };
            &&& failed.state.phase == Phase::Stopped
            &&& failed.state.desired is None
            &&& failed.state.target is None
            &&& failed.state.process is None
            &&& failed.state.diagnostic == Some(error.message_text())
            &&& failed.actions[at] matches ActionView::AnswerLoad(reply, Err(told)) && reply == state.loads[index] && (
            if state.phase == Phase::Spawning {
                &&& told.code == "model_load_failed"@
                &&& told.message == "model failed to load"@
                &&& told.sources == seq![error.message_text()] + error.source_chain()
            } else if index == 0 {
                &&& told.code == error.code_text()
                &&& told.message == error.message_text()
                &&& told.sources == error.source_chain()
            } else {
                &&& told.code == "model_load_failed"@
                &&& told.sources == seq![error.message_text()]
            })
        }),
{
}

/// A process that does not become ready is stopped before anyone is told; then every
/// request that waited is told what went wrong.
pub proof fn law_process_that_is_not_ready_is_stopped(state: LifecycleView, error: AppError, index: int)
    requires
        sound(state),
        state.phase == Phase::Readying,
        0 <= index < state.loads.len(),
    ensures
        ({
            let failed = after(state, EventView::Readiness(Some(error)));
            let late = after(state, EventView::LaunchTimeout);
            let gone = after(failed.state, EventView::StopAttempt(None));
            let given_up = after(late.state, EventView::StopAttempt(None));
            &&& failed.actions == seq![ActionView::StopGracefully]
            &&& failed.state.phase == Phase::Cleaning && failed.state.loads == state.loads
            &&& late.actions == seq![ActionView::DropPending, ActionView::StopGracefully]
            &&& late.state.phase == Phase::Cleaning && late.state.loads == state.loads
            &&& gone.state.phase == Phase::Stopped && gone.state.desired is None
            &&& gone.state.diagnostic == Some(error.message_text())
            &&& gone.actions[index] matches ActionView::AnswerLoad(reply, Err(told)) && reply == state.loads[index]
                && told.code == "model_load_failed"@ && told.sources == seq![error.message_text()]
                + error.source_chain()
            &&& given_up.actions[index] matches ActionView::AnswerLoad(other, Err(reason)) && other
                == state.loads[index] && reason.sources == seq![
                "model failed to load"@,
                "engine readiness timed out"@,
            ]
        }),
{
    let late = after(state, EventView::LaunchTimeout);
    let given_up = after(late.state, EventView::StopAttempt(None));
    assert(seq!["model failed to load"@] + seq!["engine readiness timed out"@] =~= seq![
        "model failed to load"@,
        "engine readiness timed out"@,
    ]);
}

/// A launch whose check or creation takes too long is given up.
pub proof fn law_slow_launch_is_given_up(state: LifecycleView, index: int)
    requires
        sound(state),
        state.phase == Phase::Validating || state.phase == Phase::Spawning,
        0 <= index < state.loads.len(),
    ensures
        ({
            let late = after(state, EventView::LaunchTimeout);
            &&& late.state.phase == Phase::Stopped && late.state.desired is None
            &&& late.actions[0] == ActionView::DropPending
            &&& late.actions[index + 1] matches ActionView::AnswerLoad(reply, Err(told)) && reply
                == state.loads[index] && told.code == "model_load_failed"@ && told.sources == seq![
                "model failed to load"@,
                if state.phase == Phase::Validating {
                    "engine validation timed out"@
                } else {
                    "engine spawn timed out"@
                },
            ]
        }),
{
    assert(seq!["model failed to load"@] + seq!["engine validation timed out"@] =~= seq![
        "model failed to load"@,
        "engine validation timed out"@,
    ]);
    assert(seq!["model failed to load"@] + seq!["engine spawn timed out"@] =~= seq![
        "model failed to load"@,
        "engine spawn timed out"@,
    ]);
}

/// A process that ends by itself is started again for the same model. The wait
/// doubles from one second up to half a minute with every end in a row; a process
/// that ran for five minutes starts a new row.
pub proof fn law_crashed_model_is_started_again(state: LifecycleView, diagnostic: Seq<char>, seconds: u64)
    requires
        sound(state),
        state.phase == Phase::Running,
        state.generation < u64::MAX,
        state.failures < u32::MAX,
    ensures
        ({
            let crashed = after(state, EventView::Exit(diagnostic, seconds));
            let again = after(crashed.state, EventView::BackoffOver(state.generation));
            let row = if seconds >= 300 {
                1
            } else {
                state.failures + 1
            };
            &&& crashed.state.phase == Phase::Backoff
            &&& crashed.state.target == state.target
            &&& crashed.state.desired == state.desired
            &&& crashed.state.process is None
            &&& crashed.state.endpoint is None
            &&& crashed.state.leases.len() == 0
            &&& crashed.state.diagnostic == Some(diagnostic)
            &&& crashed.state.failures == row
            &&& crashed.state.generation == state.generation
            &&& crashed.actions.len() == 2
            &&& crashed.actions[0] == ActionView::CancelLeases
            &&& crashed.actions[1] matches ActionView::WaitBackoff(wait) && (if row == 1 {
                wait == 1
            } else if row == 2 {
                wait == 2
            } else if row == 3 {
                wait == 4
            } else if row == 4 {
                wait == 8
            } else if row == 5 {
                wait == 16
            } else {
                wait == 30
            })
            &&& again.actions == seq![ActionView::Validate]
            &&& again.state.phase == Phase::Validating
            &&& again.state.target == state.target
            &&& again.state.desired == Some(state.target->0.id)
            &&& again.state.failures == row
            &&& again.state.generation == state.generation + 1
        }),
{
}

/// The end of a process that was not running any more, and a wait of another
/// generation, change nothing.
pub proof fn law_late_news_change_nothing(
    state: LifecycleView,
    diagnostic: Seq<char>,
    seconds: u64,
    generation: u64,
    error: Option<AppError>,
    result: Result<Option<Seq<char>>, AppError>,
)
    requires
        sound(state),
    ensures
        state.phase != Phase::Running ==> after(state, EventView::Exit(diagnostic, seconds)) == (Outcome {
            state,
            actions: Seq::empty(),
        }),
        state.phase != Phase::Backoff || generation != state.generation ==> after(
            state,
            EventView::BackoffOver(generation),
        ) == (Outcome { state, actions: Seq::empty() }),
        state.phase != Phase::Validating ==> after(state, EventView::Validation(error)) == (Outcome {
            state,
            actions: Seq::empty(),
        }),
        state.phase != Phase::Spawning ==> after(state, EventView::Spawn(result)) == (Outcome {
            state,
            actions: Seq::empty(),
        }),
        state.phase != Phase::Readying ==> after(state, EventView::Readiness(error)) == (Outcome {
            state,
            actions: Seq::empty(),
        }),
        state.phase != Phase::Validating && state.phase != Phase::Spawning && state.phase != Phase::Readying
            ==> after(state, EventView::LaunchTimeout) == (Outcome { state, actions: Seq::empty() }),
        state.phase != Phase::Cleaning && state.phase != Phase::Stopping ==> after(
            state,
            EventView::StopAttempt(None),
        ) == (Outcome { state, actions: Seq::empty() }),
{
}

/// A lease counts from its delivery to its return, and only while its process runs;
/// delivering and returning one undo each other.
pub proof fn law_leases_count_while_held(state: LifecycleView, ticket: LeaseTicket)
    requires
        sound(state),
    ensures
        ({
            let held = after(state, EventView::Delivery(ticket));
            let returned = after(held.state, EventView::Release(ticket));
            let live = state.phase == Phase::Running && ticket.generation == state.generation;
            &&& held.actions.len() == 0 && returned.actions.len() == 0
            &&& held.state.phase == state.phase && returned.state.phase == state.phase
            &&& !live ==> held.state == state && returned.state == state
            &&& live ==> held.state.leases.contains(ticket.id) && !returned.state.leases.contains(ticket.id)
            &&& live && !state.leases.contains(ticket.id) ==> held.state.leases.len() == state.leases.len() + 1
                && returned.state == state
        }),
{
    if !state.leases.contains(ticket.id) {
        assert(state.leases.insert(ticket.id).remove(ticket.id) =~= state.leases);
    }
}

/// A running model that is ejected loses its leases and is stopped; once it is gone,
/// nothing is wanted, and the request is told so. A shutdown ends the lifecycle too.
pub proof fn law_ejected_model_is_stopped(state: LifecycleView, reply: u64, shutdown: bool)
    requires
        sound(state),
        state.phase == Phase::Running,
        state.generation < u64::MAX,
    ensures
        ({
            let request = if shutdown {
                StopRequest::Shutdown(reply)
            } else {
                StopRequest::Eject(reply)
            };
            let asked = after(state, EventView::Stop(request));
            let gone = after(asked.state, EventView::StopAttempt(None));
            &&& asked.actions == seq![
                ActionView::CancelLeases,
                ActionView::DropPending,
                ActionView::StopGracefully,
            ]
            &&& asked.state.phase == Phase::Stopping
            &&& asked.state.leases.len() == 0
            &&& asked.state.endpoint is None
            &&& asked.state.stops == seq![reply]
            &&& asked.state.process == state.process
            &&& gone.state.process is None
            &&& gone.state.desired is None
            &&& gone.state.target is None
            &&& gone.state.diagnostic is None
            &&& gone.state.generation == state.generation + 1
            &&& gone.actions[0] == ActionView::AnswerStop(reply, Ok(()))
            &&& if shutdown {
                gone.state.phase == Phase::Ended && gone.actions == seq![
                    ActionView::AnswerStop(reply, Ok(())),
                    ActionView::End,
                ]
            } else {
                gone.state.phase == Phase::Stopped && gone.actions == seq![ActionView::AnswerStop(reply, Ok(()))]
            }
        }),
{
    let request = if shutdown {
        StopRequest::Shutdown(reply)
    } else {
        StopRequest::Eject(reply)
    };
    let asked = after(state, EventView::Stop(request));
    let gone = after(asked.state, EventView::StopAttempt(None));
    assert(asked.state.stops =~= seq![reply]);
    if shutdown {
        assert(gone.actions =~= seq![ActionView::AnswerStop(reply, Ok(())), ActionView::End]);
    } else {
        assert(gone.actions =~= seq![ActionView::AnswerStop(reply, Ok(()))]);
    }
}

/// Where nothing runs, a stop is done at once, and a model that waited to be started
/// again is given up.
pub proof fn law_nothing_is_stopped_at_once(state: LifecycleView, reply: u64)
    requires
        sound(state),
        state.phase == Phase::Stopped || state.phase == Phase::Backoff,
        state.generation < u64::MAX,
    ensures
        ({
            let ejected = after(state, EventView::Stop(StopRequest::Eject(reply)));
            let ended = after(state, EventView::Stop(StopRequest::Shutdown(reply)));
            let orphaned = after(state, EventView::Stop(StopRequest::Orphaned));
            &&& ejected.actions == seq![ActionView::AnswerStop(reply, Ok(()))]
            &&& ejected.state.phase == Phase::Stopped
            &&& ejected.state.desired is None && ejected.state.target is None
            &&& ejected.state.generation == state.generation + 1
            &&& ended.actions == seq![ActionView::AnswerStop(reply, Ok(())), ActionView::End]
            &&& ended.state.phase == Phase::Ended
            &&& orphaned.actions == seq![ActionView::End]
            &&& orphaned.state.phase == Phase::Ended
        }),
{
    let ejected = after(state, EventView::Stop(StopRequest::Eject(reply)));
    let ended = after(state, EventView::Stop(StopRequest::Shutdown(reply)));
    let orphaned = after(state, EventView::Stop(StopRequest::Orphaned));
    assert(ejected.actions =~= seq![ActionView::AnswerStop(reply, Ok(()))]);
    assert(ended.actions =~= seq![ActionView::AnswerStop(reply, Ok(())), ActionView::End]);
    assert(orphaned.actions =~= seq![ActionView::End]);
}

/// A launch that is stopped is cancelled: the requests that waited for it are told
/// so, the first with the reason; its process, if there is one, is stopped first.
pub proof fn law_stopped_launch_is_cancelled(state: LifecycleView, reply: u64, index: int)
    requires
        sound(state),
        goes_on(state),
        state.phase != Phase::Cleaning,
        state.generation < u64::MAX,
        0 <= index < state.loads.len(),
    ensures
        ({
            let asked = after(state, EventView::Stop(StopRequest::Eject(reply)));
            let gone = if state.phase == Phase::Readying {
                after(asked.state, EventView::StopAttempt(None))
            } else {
                asked
            };
            let at = if state.phase == Phase::Readying {
                index
            } else {
                index + 1
            };
            &&& asked.actions[0] == ActionView::DropPending
            &&& state.phase == Phase::Readying ==> asked.state.phase == Phase::Cleaning && asked.actions == seq![
                ActionView::DropPending,
                ActionView::StopGracefully,
            ]
            &&& gone.state.phase == Phase::Stopped
            &&& gone.state.desired is None
            &&& gone.state.process is None
            &&& gone.actions.last() == ActionView::AnswerStop(reply, Ok(()))
            &&& gone.actions[at] matches ActionView::AnswerLoad(to, Err(told)) && to == state.loads[index]
                && told.code == "model_load_failed"@ && told.sources == seq![
                if index == 0 {
                    "load cancelled"@
                } else {
                    "model failed to load"@
                },
            ]
        }),
{
    let asked = after(state, EventView::Stop(StopRequest::Eject(reply)));
    let stops = state.stops + seq![reply];
    assert(stops.last() == reply);
    if state.phase == Phase::Readying {
        let gone = after(asked.state, EventView::StopAttempt(None));
        assert(gone.actions.last() == ActionView::AnswerStop(reply, Ok(())));
    } else {
        assert(asked.actions.last() == ActionView::AnswerStop(reply, Ok(())));
    }
}

/// A process that does not go when it is asked to is forced to; where that fails too,
/// the process stays owned, every stop is told the reason, and so is a later one.
pub proof fn law_stop_is_forced_before_it_fails(state: LifecycleView, reason: Seq<char>, reply: u64)
    requires
        sound(state),
        state.phase == Phase::Stopping,
        state.follow_up is Stop,
        !state.forcing,
        !state.orphaned,
    ensures
        ({
            let forced = after(state, EventView::StopAttempt(Some(None)));
            let failed = after(forced.state, EventView::StopAttempt(Some(Some(reason))));
            let slow = after(forced.state, EventView::StopAttempt(Some(None)));
            let later = after(failed.state, EventView::Stop(StopRequest::Eject(reply)));
            &&& forced.actions == seq![ActionView::DropPending, ActionView::StopForcefully]
            &&& forced.state.phase == Phase::Stopping && forced.state.stops == state.stops
            &&& failed.state.phase == Phase::FailedStop
            &&& failed.state.process == state.process
            &&& failed.state.diagnostic == Some(reason)
            &&& slow.state.diagnostic == Some("force shutdown timed out"@)
            &&& forall|index: int|
                0 <= index < state.stops.len() ==> (#[trigger] failed.actions[index + 1] matches
                    ActionView::AnswerStop(to, Err(told)) && to == state.stops[index] && told.code
                    == "engine_process"@ && told.sources == seq![reason])
            &&& later.state == failed.state
            &&& later.actions.len() == 1
            &&& later.actions[0] matches ActionView::AnswerStop(to, Err(told)) && to == reply && told.code
                == "engine_process"@ && told.sources == seq![reason]
        }),
{
}

/// A load that is stopped while the other model goes is cancelled.
pub proof fn law_stopped_replacement_is_cancelled(state: LifecycleView, model: ModelRecord, load: u64, reply: u64)
    requires
        sound(state),
        state.phase == Phase::Stopping,
        state.follow_up == FollowUp::Replace(model, load),
        state.directive == StopDirective::Continue,
        state.generation < u64::MAX,
    ensures
        ({
            let asked = after(state, EventView::Stop(StopRequest::Eject(reply)));
            let gone = after(asked.state, EventView::StopAttempt(None));
            &&& asked.actions.len() == 0
            &&& asked.state.desired is None
            &&& gone.state.phase == Phase::Stopped && gone.state.desired is None && gone.state.target is None
            &&& gone.actions.len() == 2
            &&& gone.actions[0] == ActionView::AnswerStop(reply, Ok(()))
            &&& gone.actions[1] matches ActionView::AnswerLoad(to, Err(told)) && to == load && told.code
                == "model_load_failed"@ && told.sources == seq!["replacement cancelled"@]
        }),
{
    let asked = after(state, EventView::Stop(StopRequest::Eject(reply)));
    assert(state.stops =~= Seq::empty());
    assert(asked.state.stops =~= seq![reply]);
}

/// What is shown of the lifecycle: a launch that goes on is a start, one that is to
/// be given up is a stop already.
pub proof fn law_state_is_shown(state: LifecycleView)
    ensures
        state.phase == Phase::Stopped ==> shown_state(state) == LifecycleState::Stopped,
        state.phase == Phase::Running ==> shown_state(state) == LifecycleState::Running,
        state.phase == Phase::Stopping || state.phase == Phase::FailedStop ==> shown_state(state)
            == LifecycleState::Stopping,
        state.phase == Phase::Backoff ==> shown_state(state) == LifecycleState::Backoff,
        state.phase == Phase::Ended && state.process is None && state.diagnostic is None ==> shown_state(state)
            == LifecycleState::Stopped,
        state.phase == Phase::Ended && (state.process is Some || state.diagnostic is Some) ==> shown_state(state)
            == LifecycleState::Stopping,
        state.phase == Phase::Validating || state.phase == Phase::Spawning || state.phase == Phase::Readying || state.phase
            == Phase::Cleaning ==> shown_state(state) == (if state.directive == StopDirective::Continue {
            LifecycleState::Starting
        } else {
            LifecycleState::Stopping
        }),
{
}

/// An exit is reported with the code, with its sign where it is negative, or with
/// the error that came in its place.
pub proof fn law_exit_is_reported(code: i32, error: String)
    ensures
        code >= 0 ==> ExitReport::Code(code).text() == "engine exited with code "@ + decimal(code as nat),
        code < 0 ==> ExitReport::Code(code).text() == "engine exited with code "@ + (seq!['-'] + decimal(
            (0 - code) as nat,
        )),
        ExitReport::Error(error).text() == error@,
{
}

} // verus!
