//! The lifecycle of the engine process.

use model_launcher::launcher::catalog::{CatalogIdentity, CatalogMetadata};
use model_launcher::launcher::error::AppError;
use model_launcher::launcher::lifecycle::{
    backoff_delay, ExitReport, Lifecycle, LifecycleAction, LifecycleEvent, LifecycleState, StopResult,
};
use model_launcher::launcher::lifecycle_model::{LeaseTicket, Phase, StopRequest, MAX_START_WAITERS};
use model_launcher::launcher::model::{LaunchProfile, ModelId, ModelKey, ModelRecord, ModelState};

fn model(name: &str) -> ModelRecord {
    ModelRecord {
        id: ModelId::new(),
        key: ModelKey::parse(name.to_owned()).unwrap(),
        display_name: name.to_owned(),
        path: format!("/models/{name}.gguf"),
        file_identity: CatalogIdentity::Unavailable,
        size_bytes: 1,
        metadata: CatalogMetadata::default(),
        state: ModelState::Available,
        launch_profile: LaunchProfile::default(),
    }
}

fn load(lifecycle: &mut Lifecycle, model: &ModelRecord, reply: u64) -> Vec<LifecycleAction> {
    lifecycle.handle(LifecycleEvent::Load { model: model.clone(), reply })
}

fn acquire(lifecycle: &mut Lifecycle, model: &ModelRecord, reply: u64) -> Vec<LifecycleAction> {
    lifecycle.handle(LifecycleEvent::Acquire { model: model.clone(), reply })
}

/// Hands the answers to the requests that wait for them, and returns the leases that they took.
fn deliver(lifecycle: &mut Lifecycle, actions: &[LifecycleAction]) -> Vec<LeaseTicket> {
    let mut taken = Vec::new();
    for action in actions {
        if let LifecycleAction::AnswerAcquire { result: Ok(ticket), .. } = action {
            assert!(lifecycle.handle(LifecycleEvent::Delivered(*ticket)).is_empty());
            taken.push(*ticket);
        }
    }
    taken
}

fn acquired(lifecycle: &mut Lifecycle, model: &ModelRecord, reply: u64) -> LeaseTicket {
    let actions = acquire(lifecycle, model, reply);
    match deliver(lifecycle, &actions)[..] {
        [ticket] => ticket,
        _ => panic!("{actions:?}"),
    }
}

fn load_error(actions: &[LifecycleAction], wanted: u64) -> &AppError {
    actions
        .iter()
        .find_map(|action| match action {
            LifecycleAction::AnswerLoad { reply, result: Err(error) } if *reply == wanted => Some(error),
            _ => None,
        })
        .expect("the load is refused")
}

fn spawned() -> LifecycleEvent {
    LifecycleEvent::Spawned(Ok(Some("http://127.0.0.1:9".to_owned())))
}

/// A lifecycle in which `model` runs.
fn running(model: &ModelRecord) -> Lifecycle {
    let mut lifecycle = Lifecycle::new();
    load(&mut lifecycle, model, 1);
    lifecycle.handle(LifecycleEvent::Validated(None));
    lifecycle.handle(spawned());
    let actions = lifecycle.handle(LifecycleEvent::Ready(None));
    assert!(matches!(actions[..], [LifecycleAction::AnswerLoad { reply: 1, result: Ok(()) }]));
    lifecycle
}

fn crash(lifecycle: &mut Lifecycle, ran_seconds: u64) -> Vec<LifecycleAction> {
    lifecycle.handle(LifecycleEvent::Exited { report: ExitReport::Code(1), ran_seconds })
}

#[test]
fn load_transitions_stopped_starting_running_and_waits_for_readiness() {
    let alpha = model("alpha");
    let mut lifecycle = Lifecycle::new();
    assert_eq!(lifecycle.snapshot().state, LifecycleState::Stopped);
    assert!(matches!(load(&mut lifecycle, &alpha, 7)[..], [LifecycleAction::Validate]));
    assert_eq!(lifecycle.snapshot().state, LifecycleState::Starting);
    assert_eq!(lifecycle.target().unwrap().id, alpha.id);
    assert!(matches!(lifecycle.handle(LifecycleEvent::Validated(None))[..], [LifecycleAction::Spawn]));
    assert!(matches!(lifecycle.handle(spawned())[..], [LifecycleAction::AwaitReady]));
    assert_eq!(lifecycle.snapshot().state, LifecycleState::Starting);
    let actions = lifecycle.handle(LifecycleEvent::Ready(None));
    assert!(matches!(actions[..], [LifecycleAction::AnswerLoad { reply: 7, result: Ok(()) }]));
    let snapshot = lifecycle.snapshot();
    assert_eq!(snapshot.state, LifecycleState::Running);
    assert_eq!(snapshot.desired_model, Some(alpha.id));
    assert_eq!(snapshot.process.unwrap().model_id, alpha.id);
}

#[test]
fn endpoint_is_owned_only_while_process_is_running() {
    let alpha = model("alpha");
    let mut lifecycle = Lifecycle::new();
    load(&mut lifecycle, &alpha, 1);
    lifecycle.handle(LifecycleEvent::Validated(None));
    lifecycle.handle(spawned());
    assert_eq!(lifecycle.snapshot().endpoint, None);
    lifecycle.handle(LifecycleEvent::Ready(None));
    assert_eq!(lifecycle.snapshot().endpoint.as_deref(), Some("http://127.0.0.1:9"));
    lifecycle.handle(LifecycleEvent::Stop(StopRequest::Eject(2)));
    assert_eq!(lifecycle.snapshot().endpoint, None);
}

#[test]
fn replacement_stops_a_and_loads_b_without_restoring_a_on_failure() {
    let (alpha, beta) = (model("alpha"), model("beta"));
    let mut lifecycle = running(&alpha);
    assert!(matches!(load(&mut lifecycle, &beta, 2)[..], [LifecycleAction::StopGracefully]));
    let actions = lifecycle.handle(LifecycleEvent::StopAttempted(StopResult::Stopped));
    assert!(matches!(actions[..], [LifecycleAction::Validate]));
    assert_eq!(lifecycle.snapshot().desired_model, Some(beta.id));
    let actions = lifecycle.handle(LifecycleEvent::Validated(Some(AppError::EngineUnavailable)));
    assert!(matches!(
        actions[..],
        [LifecycleAction::PublishFailedValidation, LifecycleAction::AnswerLoad { reply: 2, result: Err(_) }]
    ));
    assert_eq!(lifecycle.phase(), Phase::Stopped);
    assert_eq!(lifecycle.snapshot().desired_model, None);
}

#[test]
fn replacement_is_busy_while_inference_lease_is_active() {
    let (alpha, beta) = (model("alpha"), model("beta"));
    let mut lifecycle = running(&alpha);
    let ticket = acquired(&mut lifecycle, &alpha, 2);
    assert_eq!(lifecycle.snapshot().in_flight, 1);
    assert!(matches!(
        load(&mut lifecycle, &beta, 3)[..],
        [LifecycleAction::AnswerLoad { reply: 3, result: Err(AppError::ModelBusy) }]
    ));
    lifecycle.handle(LifecycleEvent::Release(ticket));
    assert_eq!(lifecycle.snapshot().in_flight, 0);
    assert!(matches!(load(&mut lifecycle, &beta, 4)[..], [LifecycleAction::StopGracefully]));
}

#[test]
fn explicit_eject_cancels_leases_and_clears_desired_model() {
    let alpha = model("alpha");
    let mut lifecycle = running(&alpha);
    acquired(&mut lifecycle, &alpha, 2);
    assert_eq!(lifecycle.snapshot().in_flight, 1);
    let actions = lifecycle.handle(LifecycleEvent::Stop(StopRequest::Eject(3)));
    assert!(matches!(
        actions[..],
        [LifecycleAction::CancelLeases, LifecycleAction::DropPending, LifecycleAction::StopGracefully]
    ));
    let actions = lifecycle.handle(LifecycleEvent::StopAttempted(StopResult::Stopped));
    assert!(matches!(actions[..], [LifecycleAction::AnswerStop { reply: 3, result: Ok(()) }]));
    let snapshot = lifecycle.snapshot();
    assert_eq!((snapshot.state, snapshot.desired_model, snapshot.in_flight), (LifecycleState::Stopped, None, 0));
}

#[test]
fn unexpected_crashes_restart_with_capped_exponential_backoff() {
    let alpha = model("alpha");
    let mut lifecycle = running(&alpha);
    for expected in [1, 2, 4, 8, 16, 30, 30] {
        let actions = crash(&mut lifecycle, 10);
        let waits = actions.iter().find_map(|action| match action {
            LifecycleAction::WaitBackoff { seconds } => Some(*seconds),
            _ => None,
        });
        assert_eq!(waits, Some(expected));
        let snapshot = lifecycle.snapshot();
        assert_eq!(snapshot.state, LifecycleState::Backoff);
        assert_eq!(snapshot.diagnostic.as_deref(), Some("engine exited with code 1"));
        let generation = snapshot.generation;
        lifecycle.handle(LifecycleEvent::BackoffOver { generation });
        lifecycle.handle(LifecycleEvent::Validated(None));
        lifecycle.handle(spawned());
        lifecycle.handle(LifecycleEvent::Ready(None));
        assert_eq!(lifecycle.snapshot().state, LifecycleState::Running);
    }
    assert_eq!(backoff_delay(0), 1);
    assert_eq!(backoff_delay(u32::MAX), 30);
}

#[test]
fn five_healthy_minutes_reset_crash_backoff() {
    let alpha = model("alpha");
    let mut lifecycle = running(&alpha);
    for (ran, expected) in [(10, 1), (299, 2), (300, 1)] {
        let actions = crash(&mut lifecycle, ran);
        assert!(
            actions.iter().any(|action| matches!(action, LifecycleAction::WaitBackoff { seconds } if *seconds == expected)),
            "{ran}: {actions:?}"
        );
        let generation = lifecycle.snapshot().generation;
        lifecycle.handle(LifecycleEvent::BackoffOver { generation });
        lifecycle.handle(LifecycleEvent::Validated(None));
        lifecycle.handle(spawned());
        lifecycle.handle(LifecycleEvent::Ready(None));
    }
}

#[test]
fn stale_generation_timer_cannot_restart_after_eject() {
    let alpha = model("alpha");
    let mut lifecycle = running(&alpha);
    crash(&mut lifecycle, 10);
    let generation = lifecycle.snapshot().generation;
    lifecycle.handle(LifecycleEvent::Stop(StopRequest::Eject(2)));
    assert!(lifecycle.handle(LifecycleEvent::BackoffOver { generation }).is_empty());
    assert_eq!(lifecycle.snapshot().state, LifecycleState::Stopped);
}

#[test]
fn concurrent_same_model_jit_acquires_share_one_load() {
    let alpha = model("alpha");
    let mut lifecycle = Lifecycle::new();
    assert!(matches!(acquire(&mut lifecycle, &alpha, 1)[..], [LifecycleAction::Validate]));
    assert!(acquire(&mut lifecycle, &alpha, 2).is_empty());
    assert!(load(&mut lifecycle, &alpha, 3).is_empty());
    lifecycle.handle(LifecycleEvent::Validated(None));
    lifecycle.handle(spawned());
    let actions = lifecycle.handle(LifecycleEvent::Ready(None));
    assert_eq!(actions.len(), 3);
    assert!(matches!(actions[0], LifecycleAction::AnswerLoad { reply: 3, result: Ok(()) }));
    assert!(matches!(actions[1], LifecycleAction::AnswerAcquire { reply: 1, result: Ok(_) }));
    assert!(matches!(actions[2], LifecycleAction::AnswerAcquire { reply: 2, result: Ok(_) }));
    assert_eq!(deliver(&mut lifecycle, &actions).len(), 2);
    assert_eq!(lifecycle.snapshot().in_flight, 2);
}

#[test]
fn crash_cancels_and_clears_active_generation_leases() {
    let alpha = model("alpha");
    let mut lifecycle = running(&alpha);
    let ticket = acquired(&mut lifecycle, &alpha, 2);
    assert_eq!(lifecycle.snapshot().in_flight, 1);
    let actions = crash(&mut lifecycle, 1);
    lifecycle.handle(LifecycleEvent::Delivered(ticket));
    assert!(actions.iter().any(|action| matches!(action, LifecycleAction::CancelLeases)));
    assert_eq!(lifecycle.snapshot().in_flight, 0);
}

#[test]
fn leases_of_an_earlier_generation_are_not_given_back_twice() {
    let alpha = model("alpha");
    let mut lifecycle = running(&alpha);
    acquired(&mut lifecycle, &alpha, 2);
    let generation = lifecycle.snapshot().generation;
    lifecycle.handle(LifecycleEvent::Release(LeaseTicket { generation: generation + 1, id: 0 }));
    assert_eq!(lifecycle.snapshot().in_flight, 1);
}

#[test]
fn same_model_load_waiters_share_stable_failure() {
    let alpha = model("alpha");
    let mut lifecycle = Lifecycle::new();
    load(&mut lifecycle, &alpha, 1);
    load(&mut lifecycle, &alpha, 2);
    lifecycle.handle(LifecycleEvent::Validated(None));
    lifecycle.handle(spawned());
    let failure = AppError::EngineProcess("no memory".to_owned());
    assert!(matches!(lifecycle.handle(LifecycleEvent::Ready(Some(failure)))[..], [LifecycleAction::StopGracefully]));
    let actions = lifecycle.handle(LifecycleEvent::StopAttempted(StopResult::Stopped));
    assert_eq!(actions.len(), 2);
    let (one, two) = (load_error(&actions, 1), load_error(&actions, 2));
    assert_eq!(one.code(), "model_load_failed");
    assert_eq!(two.code(), one.code());
    assert_eq!(two.to_string(), one.to_string());
    assert_eq!(two.sources(), one.sources());
    assert_eq!(one.sources(), ["engine process failed", "no memory"]);
    assert_eq!(lifecycle.snapshot().state, LifecycleState::Stopped);
    assert!(lifecycle.snapshot().diagnostic.is_some());
}

#[test]
fn acquire_different_model_during_backoff_switches_immediately() {
    let (alpha, beta) = (model("alpha"), model("beta"));
    let mut lifecycle = running(&alpha);
    crash(&mut lifecycle, 1);
    assert!(matches!(
        acquire(&mut lifecycle, &alpha, 2)[..],
        [LifecycleAction::AnswerAcquire { reply: 2, result: Err(AppError::ModelStarting) }]
    ));
    assert!(matches!(acquire(&mut lifecycle, &beta, 3)[..], [LifecycleAction::Validate]));
    assert_eq!(lifecycle.snapshot().desired_model, Some(beta.id));
}

#[test]
fn startup_timeout_stops_owned_process_and_fails_load() {
    let alpha = model("alpha");
    let mut lifecycle = Lifecycle::new();
    load(&mut lifecycle, &alpha, 1);
    lifecycle.handle(LifecycleEvent::Validated(None));
    lifecycle.handle(spawned());
    let actions = lifecycle.handle(LifecycleEvent::LaunchTimedOut);
    assert!(matches!(actions[..], [LifecycleAction::DropPending, LifecycleAction::StopGracefully]));
    let actions = lifecycle.handle(LifecycleEvent::StopAttempted(StopResult::Stopped));
    match &actions[..] {
        [LifecycleAction::AnswerLoad { reply: 1, result: Err(error) }] => {
            assert_eq!(error.code(), "model_load_failed");
            assert_eq!(error.sources(), ["model failed to load", "engine readiness timed out"]);
        }
        other => panic!("{other:?}"),
    }
    assert_eq!(lifecycle.snapshot().diagnostic.as_deref(), Some("model failed to load"));
}

#[test]
fn eject_responds_while_validation_is_pending() {
    let alpha = model("alpha");
    let mut lifecycle = Lifecycle::new();
    load(&mut lifecycle, &alpha, 1);
    let actions = lifecycle.handle(LifecycleEvent::Stop(StopRequest::Eject(2)));
    assert!(matches!(actions[0], LifecycleAction::DropPending));
    assert!(actions.iter().any(|action| matches!(action, LifecycleAction::AnswerLoad { reply: 1, result: Err(_) })));
    assert!(actions.iter().any(|action| matches!(action, LifecycleAction::AnswerStop { reply: 2, result: Ok(()) })));
    assert_eq!(lifecycle.snapshot().state, LifecycleState::Stopped);
}

#[test]
fn graceful_stop_timeout_forces_process_and_allows_replacement() {
    let (alpha, beta) = (model("alpha"), model("beta"));
    let mut lifecycle = running(&alpha);
    load(&mut lifecycle, &beta, 2);
    let actions = lifecycle.handle(LifecycleEvent::StopAttempted(StopResult::TimedOut));
    assert!(matches!(actions[..], [LifecycleAction::DropPending, LifecycleAction::StopForcefully]));
    let actions = lifecycle.handle(LifecycleEvent::StopAttempted(StopResult::Stopped));
    assert!(matches!(actions[..], [LifecycleAction::Validate]));
}

#[test]
fn force_timeout_aggregates_stop_requests_and_blocks_replacement() {
    let (alpha, beta) = (model("alpha"), model("beta"));
    let mut lifecycle = running(&alpha);
    assert!(matches!(load(&mut lifecycle, &beta, 9)[..], [LifecycleAction::StopGracefully]));
    assert_eq!(lifecycle.snapshot().state, LifecycleState::Stopping);
    let actions = lifecycle.handle(LifecycleEvent::StopAttempted(StopResult::TimedOut));
    assert!(matches!(actions[..], [LifecycleAction::DropPending, LifecycleAction::StopForcefully]));
    assert!(lifecycle.handle(LifecycleEvent::Stop(StopRequest::Shutdown(2))).is_empty());
    assert!(lifecycle.handle(LifecycleEvent::Stop(StopRequest::Eject(3))).is_empty());
    let actions = lifecycle.handle(LifecycleEvent::StopAttempted(StopResult::TimedOut));
    for wanted in [2, 3] {
        assert!(actions.iter().any(
            |action| matches!(action, LifecycleAction::AnswerStop { reply, result: Err(_) } if *reply == wanted)
        ));
    }
    assert_eq!(load_error(&actions, 9).code(), "engine_process");
    assert!(!actions.iter().any(|action| matches!(action, LifecycleAction::Validate | LifecycleAction::Spawn)));
    assert_eq!(lifecycle.phase(), Phase::FailedStop);
    assert_eq!(lifecycle.snapshot().state, LifecycleState::Stopping);
    assert!(matches!(
        load(&mut lifecycle, &beta, 4)[..],
        [LifecycleAction::AnswerLoad { reply: 4, result: Err(AppError::ModelStarting) }]
    ));
}

#[test]
fn dropping_all_command_owners_stops_running_process_before_actor_exit() {
    let alpha = model("alpha");
    let mut lifecycle = running(&alpha);
    let actions = lifecycle.handle(LifecycleEvent::Stop(StopRequest::Orphaned));
    assert!(actions.iter().any(|action| matches!(action, LifecycleAction::StopGracefully)));
    let actions = lifecycle.handle(LifecycleEvent::StopAttempted(StopResult::Stopped));
    assert!(matches!(actions[..], [LifecycleAction::End]));
    assert_eq!(lifecycle.phase(), Phase::Ended);
}

#[test]
fn shutdown_is_accepted_while_graceful_stop_is_pending() {
    let alpha = model("alpha");
    let mut lifecycle = running(&alpha);
    lifecycle.handle(LifecycleEvent::Stop(StopRequest::Eject(2)));
    lifecycle.handle(LifecycleEvent::Stop(StopRequest::Shutdown(3)));
    let actions = lifecycle.handle(LifecycleEvent::StopAttempted(StopResult::Stopped));
    assert!(matches!(
        actions[..],
        [
            LifecycleAction::AnswerStop { reply: 2, result: Ok(()) },
            LifecycleAction::AnswerStop { reply: 3, result: Ok(()) },
            LifecycleAction::End,
        ]
    ));
}

#[test]
fn validation_and_spawn_have_actor_enforced_timeouts() {
    let alpha = model("alpha");
    for (spawning, text) in [(false, "engine validation timed out"), (true, "engine spawn timed out")] {
        let mut lifecycle = Lifecycle::new();
        load(&mut lifecycle, &alpha, 1);
        if spawning {
            lifecycle.handle(LifecycleEvent::Validated(None));
        }
        let actions = lifecycle.handle(LifecycleEvent::LaunchTimedOut);
        match &actions[..] {
            [LifecycleAction::DropPending, LifecycleAction::AnswerLoad { reply: 1, result: Err(error) }] => {
                assert_eq!(error.code(), "model_load_failed");
                assert_eq!(error.sources(), ["model failed to load", text]);
            }
            other => panic!("{other:?}"),
        }
        assert!(lifecycle.handle(spawned()).is_empty(), "a late process is not taken over");
    }
}

#[test]
fn same_model_start_waiters_are_capped_without_duplicate_spawn() {
    let alpha = model("alpha");
    let mut lifecycle = Lifecycle::new();
    assert!(matches!(load(&mut lifecycle, &alpha, 0)[..], [LifecycleAction::Validate]));
    let mut busy = 0;
    for reply in 1..160 {
        match &load(&mut lifecycle, &alpha, reply)[..] {
            [] => {}
            [LifecycleAction::AnswerLoad { reply: refused, result: Err(error) }] => {
                assert_eq!((*refused, error.code()), (reply, "model_busy"));
                busy += 1;
            }
            other => panic!("{other:?}"),
        }
    }
    assert_eq!(busy, 32);
    assert!(matches!(lifecycle.handle(LifecycleEvent::Validated(None))[..], [LifecycleAction::Spawn]));
    assert!(matches!(lifecycle.handle(spawned())[..], [LifecycleAction::AwaitReady]));
    let answers = lifecycle.handle(LifecycleEvent::Ready(None));
    assert_eq!(answers.len(), MAX_START_WAITERS);
    assert_eq!(MAX_START_WAITERS, 128);
    for (index, answer) in answers.iter().enumerate() {
        assert!(matches!(answer, LifecycleAction::AnswerLoad { reply, result: Ok(()) } if *reply == index as u64));
    }
}

#[test]
fn ends_are_reported_in_words() {
    assert_eq!(ExitReport::Code(-1).diagnostic(), "engine exited with code -1");
    assert_eq!(ExitReport::Code(137).diagnostic(), "engine exited with code 137");
    assert_eq!(ExitReport::Error("lost".to_owned()).diagnostic(), "lost");
}

/// A lifecycle that waits for `model` to become ready.
fn readying(model: &ModelRecord) -> Lifecycle {
    let mut lifecycle = Lifecycle::new();
    load(&mut lifecycle, model, 1);
    lifecycle.handle(LifecycleEvent::Validated(None));
    lifecycle.handle(spawned());
    lifecycle
}

#[test]
fn readiness_failure_stops_process_before_reporting_failure() {
    let alpha = model("alpha");
    let mut lifecycle = readying(&alpha);
    let failure = AppError::EngineProcess("readiness failed".to_owned());
    assert!(matches!(lifecycle.handle(LifecycleEvent::Ready(Some(failure)))[..], [LifecycleAction::StopGracefully]));
    let actions = lifecycle.handle(LifecycleEvent::StopAttempted(StopResult::Stopped));
    match &actions[..] {
        [LifecycleAction::AnswerLoad { reply: 1, result: Err(error) }] => {
            assert_eq!(error.code(), "model_load_failed");
            assert!(error.sources().iter().any(|source| source == "readiness failed"));
            assert_eq!(error.sources(), ["engine process failed", "readiness failed"]);
        }
        _ => panic!("{actions:?}"),
    }
    assert_eq!(lifecycle.phase(), Phase::Stopped);
}

#[test]
fn eject_responds_while_spawn_is_pending() {
    let alpha = model("alpha");
    let mut lifecycle = Lifecycle::new();
    load(&mut lifecycle, &alpha, 1);
    lifecycle.handle(LifecycleEvent::Validated(None));
    assert_eq!(lifecycle.phase(), Phase::Spawning);
    let actions = lifecycle.handle(LifecycleEvent::Stop(StopRequest::Eject(2)));
    assert!(matches!(
        actions[..],
        [
            LifecycleAction::DropPending,
            LifecycleAction::AnswerLoad { reply: 1, result: Err(_) },
            LifecycleAction::AnswerStop { reply: 2, result: Ok(()) }
        ]
    ));
    assert_eq!(lifecycle.snapshot().state, LifecycleState::Stopped);
}

#[test]
fn cancelled_spawn_future_cannot_create_a_late_process() {
    let alpha = model("alpha");
    let mut lifecycle = Lifecycle::new();
    load(&mut lifecycle, &alpha, 1);
    lifecycle.handle(LifecycleEvent::Validated(None));
    lifecycle.handle(LifecycleEvent::Stop(StopRequest::Eject(2)));
    assert!(lifecycle.handle(spawned()).is_empty());
    assert_eq!(lifecycle.phase(), Phase::Stopped);
    assert!(lifecycle.snapshot().process.is_none());
}

#[test]
fn eject_responds_while_readiness_is_pending_and_cleans_process() {
    let alpha = model("alpha");
    let mut lifecycle = readying(&alpha);
    let actions = lifecycle.handle(LifecycleEvent::Stop(StopRequest::Eject(2)));
    assert!(matches!(actions[..], [LifecycleAction::DropPending, LifecycleAction::StopGracefully]));
    let actions = lifecycle.handle(LifecycleEvent::StopAttempted(StopResult::Stopped));
    match &actions[..] {
        [
            LifecycleAction::AnswerLoad { reply: 1, result: Err(error) },
            LifecycleAction::AnswerStop { reply: 2, result: Ok(()) },
        ] => assert_eq!(error.code(), "model_load_failed"),
        _ => panic!("{actions:?}"),
    }
}

#[test]
fn readiness_cancellation_blocks_new_launch_until_cleanup_finishes() {
    let (alpha, beta) = (model("alpha"), model("beta"));
    let mut lifecycle = readying(&alpha);
    lifecycle.handle(LifecycleEvent::Stop(StopRequest::Eject(2)));
    assert!(matches!(
        load(&mut lifecycle, &beta, 3)[..],
        [LifecycleAction::AnswerLoad { reply: 3, result: Err(AppError::ModelStarting) }]
    ));
    let actions = lifecycle.handle(LifecycleEvent::StopAttempted(StopResult::Stopped));
    assert_eq!(load_error(&actions, 1).code(), "model_load_failed");
    assert!(actions.iter().any(|action| matches!(action, LifecycleAction::AnswerStop { reply: 2, result: Ok(()) })));
    assert!(!actions.iter().any(|action| matches!(action, LifecycleAction::Spawn | LifecycleAction::Validate)));
    assert!(matches!(load(&mut lifecycle, &beta, 4)[..], [LifecycleAction::Validate]));
}

#[test]
fn owner_drop_during_pending_stop_exits_after_bounded_force_timeout() {
    let alpha = model("alpha");
    let mut lifecycle = running(&alpha);
    lifecycle.handle(LifecycleEvent::Stop(StopRequest::Orphaned));
    assert_eq!(lifecycle.phase(), Phase::Stopping);
    let actions = lifecycle.handle(LifecycleEvent::StopAttempted(StopResult::TimedOut));
    assert!(matches!(actions[..], [LifecycleAction::DropPending, LifecycleAction::StopForcefully]));
    let actions = lifecycle.handle(LifecycleEvent::StopAttempted(StopResult::TimedOut));
    assert!(matches!(actions.last(), Some(LifecycleAction::End)));
    assert_eq!(lifecycle.phase(), Phase::Ended);
}

#[test]
fn burst_lease_drops_cannot_lose_release_events() {
    let alpha = model("alpha");
    let mut lifecycle = running(&alpha);
    let mut tickets = Vec::new();
    for reply in 0..100 {
        tickets.push(acquired(&mut lifecycle, &alpha, 100 + reply));
    }
    assert_eq!(lifecycle.snapshot().in_flight, 100);
    for ticket in tickets {
        lifecycle.handle(LifecycleEvent::Release(ticket));
    }
    assert_eq!(lifecycle.snapshot().in_flight, 0);
}

#[test]
fn cancelled_acquire_waiter_is_never_counted_as_in_flight() {
    let alpha = model("alpha");
    let mut lifecycle = Lifecycle::new();
    acquire(&mut lifecycle, &alpha, 1);
    lifecycle.handle(LifecycleEvent::Validated(None));
    lifecycle.handle(spawned());
    let actions = lifecycle.handle(LifecycleEvent::Ready(None));
    let ticket = match actions[..] {
        [LifecycleAction::AnswerAcquire { reply: 1, result: Ok(ticket) }] => ticket,
        _ => panic!("{actions:?}"),
    };
    assert_eq!(lifecycle.snapshot().in_flight, 0);
    lifecycle.handle(LifecycleEvent::Release(ticket));
    assert_eq!(lifecycle.snapshot().in_flight, 0);
    assert!(acquired(&mut lifecycle, &alpha, 2) != ticket);
    assert_eq!(lifecycle.snapshot().in_flight, 1);
}

#[test]
fn the_setting_that_is_refused_is_named_in_the_answer() {
    let alpha = model("alpha");
    let mut lifecycle = Lifecycle::new();
    load(&mut lifecycle, &alpha, 1);
    load(&mut lifecycle, &alpha, 2);
    let refusal = AppError::InvalidSetting("context_length");
    let actions = lifecycle.handle(LifecycleEvent::Validated(Some(refusal)));
    assert_eq!(load_error(&actions, 1).to_string(), "invalid setting: context_length");
    assert_eq!(load_error(&actions, 2).sources(), ["invalid setting: context_length"]);
}
