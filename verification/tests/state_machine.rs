//! The state machines of instances and operations.

use model_launcher::domain::error::ErrorCode;
use model_launcher::domain::model::{
    Instance, InstanceState, InstanceState as S, LoadConfig, Operation, OperationKind, OperationState,
    OperationState as O,
};
use model_launcher::domain::state_machine::{transition_instance, transition_operation};

/// Every state, for exhaustive matrix testing.
const ALL_INSTANCE: [InstanceState; 8] = [
    S::Unloaded,
    S::Queued,
    S::Loading,
    S::Ready,
    S::Draining,
    S::Unloading,
    S::Failed,
    S::Crashed,
];

const ALL_OPERATION: [OperationState; 5] =
    [O::Queued, O::Running, O::Succeeded, O::Failed, O::Cancelled];

#[test]
fn instance_happy_path_load_and_unload() {
    // unloaded -> queued -> loading -> ready
    assert_eq!(
        transition_instance(S::Unloaded, S::Queued).expect("unloaded->queued"),
        S::Queued
    );
    assert_eq!(
        transition_instance(S::Queued, S::Loading).expect("queued->loading"),
        S::Loading
    );
    assert_eq!(
        transition_instance(S::Loading, S::Ready).expect("loading->ready"),
        S::Ready
    );
    // ready -> draining -> unloading -> unloaded
    assert_eq!(
        transition_instance(S::Ready, S::Draining).expect("ready->draining"),
        S::Draining
    );
    assert_eq!(
        transition_instance(S::Draining, S::Unloading).expect("draining->unloading"),
        S::Unloading
    );
    assert_eq!(
        transition_instance(S::Unloading, S::Unloaded).expect("unloading->unloaded"),
        S::Unloaded
    );
}

#[test]
fn drain_can_fall_back_to_ready() {
    assert_eq!(
        transition_instance(S::Draining, S::Ready).expect("draining->ready"),
        S::Ready
    );
}

#[test]
fn load_failures_reach_failed_or_crashed() {
    assert_eq!(
        transition_instance(S::Queued, S::Failed).expect("queued->failed"),
        S::Failed
    );
    assert_eq!(
        transition_instance(S::Loading, S::Failed).expect("loading->failed"),
        S::Failed
    );
    assert_eq!(
        transition_instance(S::Loading, S::Crashed).expect("loading->crashed"),
        S::Crashed
    );
    assert_eq!(
        transition_instance(S::Loading, S::Unloading).expect("loading->unloading"),
        S::Unloading
    );
}

#[test]
fn ready_can_crash() {
    assert_eq!(
        transition_instance(S::Ready, S::Crashed).expect("ready->crashed"),
        S::Crashed
    );
}

/// A draining instance is still a live process that serves requests, so that an
/// unexpected exit is a crash and no clean unload.
#[test]
fn draining_can_crash() {
    assert_eq!(
        transition_instance(S::Draining, S::Crashed).expect("draining->crashed"),
        S::Crashed
    );
}

#[test]
fn failed_and_crashed_resume_via_explicit_load() {
    assert_eq!(
        transition_instance(S::Failed, S::Queued).expect("failed->queued"),
        S::Queued
    );
    assert_eq!(
        transition_instance(S::Crashed, S::Queued).expect("crashed->queued"),
        S::Queued
    );
}

#[test]
fn queued_can_be_cancelled_back_to_unloaded() {
    assert_eq!(
        transition_instance(S::Queued, S::Unloaded).expect("queued->unloaded"),
        S::Unloaded
    );
}

#[test]
fn instance_illegal_transitions_are_rejected() {
    // unloaded cannot jump straight to ready/loading.
    assert!(matches!(
        transition_instance(S::Unloaded, S::Ready),
        Err(e) if e.code == ErrorCode::InvalidStateTransition
    ));
    assert!(!S::Unloaded.can_transition_to(S::Ready));
    assert!(!S::Unloaded.can_transition_to(S::Loading));

    // ready cannot go straight to unloaded (must drain/unload first).
    assert!(!S::Ready.can_transition_to(S::Unloaded));
    // ready cannot go to loading.
    assert!(!S::Ready.can_transition_to(S::Loading));

    // unloading has only one successor (unloaded), not a crash.
    assert!(!S::Unloading.can_transition_to(S::Crashed));

    // a self-loop is not a legal step.
    assert!(!S::Ready.can_transition_to(S::Ready));
}

#[test]
fn transition_error_reports_code_and_message() {
    let err = transition_instance(S::Unloaded, S::Ready).expect_err("must fail");
    assert_eq!(err.code, ErrorCode::InvalidStateTransition);
    assert!(err.message.contains("Unloaded"), "message: {}", err.message);
    assert!(err.message.contains("Ready"), "message: {}", err.message);
}

/// Exhaustive: the transition matrix matches the documented table exactly.
/// Each entry is the set of legal targets for a given source.
#[test]
fn instance_transition_matrix_is_exact() {
    let expected: &[(&InstanceState, &[InstanceState])] = &[
        (&S::Unloaded, &[S::Queued]),
        (&S::Queued, &[S::Loading, S::Unloaded, S::Failed]),
        (
            &S::Loading,
            &[S::Ready, S::Failed, S::Unloading, S::Crashed],
        ),
        (&S::Ready, &[S::Draining, S::Crashed]),
        (&S::Draining, &[S::Unloading, S::Ready, S::Crashed]),
        (&S::Unloading, &[S::Unloaded]),
        (&S::Failed, &[S::Queued]),
        (&S::Crashed, &[S::Queued]),
    ];
    for (source, targets) in expected {
        for candidate in ALL_INSTANCE {
            let legal = targets.contains(&candidate);
            assert_eq!(
                source.can_transition_to(candidate),
                legal,
                "matrix mismatch: {source:?} -> {candidate:?} (expected {legal})"
            );
        }
    }
}

#[test]
fn operation_happy_path_and_terminals() {
    assert_eq!(
        transition_operation(O::Queued, O::Running).expect("queued->running"),
        O::Running
    );
    assert_eq!(
        transition_operation(O::Running, O::Succeeded).expect("running->succeeded"),
        O::Succeeded
    );
    assert!(O::Succeeded.is_terminal());
    assert!(O::Failed.is_terminal());
    assert!(O::Cancelled.is_terminal());
    assert!(!O::Queued.is_terminal());
    assert!(!O::Running.is_terminal());
}

#[test]
fn operation_cancel_from_queued_or_running() {
    assert_eq!(
        transition_operation(O::Queued, O::Cancelled).expect("queued->cancelled"),
        O::Cancelled
    );
    assert_eq!(
        transition_operation(O::Running, O::Cancelled).expect("running->cancelled"),
        O::Cancelled
    );
    assert_eq!(
        transition_operation(O::Running, O::Failed).expect("running->failed"),
        O::Failed
    );
}

#[test]
fn operation_illegal_transitions_are_rejected() {
    // Terminal states have no successors.
    assert!(!O::Succeeded.can_transition_to(O::Running));
    assert!(!O::Failed.can_transition_to(O::Running));
    assert!(!O::Cancelled.can_transition_to(O::Running));
    // queued cannot jump straight to succeeded/failed (must run first).
    assert!(!O::Queued.can_transition_to(O::Succeeded));
    assert!(!O::Queued.can_transition_to(O::Failed));
    // a self-loop is not a legal step.
    assert!(!O::Running.can_transition_to(O::Running));
    assert!(matches!(
        transition_operation(O::Succeeded, O::Queued),
        Err(e) if e.code == ErrorCode::InvalidStateTransition
    ));
}

#[test]
fn operation_transition_matrix_is_exact() {
    let expected: &[(&OperationState, &[OperationState])] = &[
        (&O::Queued, &[O::Running, O::Cancelled]),
        (&O::Running, &[O::Succeeded, O::Failed, O::Cancelled]),
        (&O::Succeeded, &[]),
        (&O::Failed, &[]),
        (&O::Cancelled, &[]),
    ];
    for (source, targets) in expected {
        for candidate in ALL_OPERATION {
            let legal = targets.contains(&candidate);
            assert_eq!(
                source.can_transition_to(candidate),
                legal,
                "matrix mismatch: {source:?} -> {candidate:?} (expected {legal})"
            );
        }
    }
}

fn load_config() -> LoadConfig {
    LoadConfig {
        context_length: 4096,
        max_concurrency: None,
        eval_batch_size: None,
        flash_attention: None,
        offload_kv_cache_to_gpu: None,
        n_gpu_layers: None,
        engine_config: None,
    }
}

#[test]
fn listed_transitions_are_those_that_are_allowed() {
    for from in ALL_INSTANCE {
        for to in ALL_INSTANCE {
            assert_eq!(from.transitions().contains(&to), from.can_transition_to(to));
        }
    }
    for from in ALL_OPERATION {
        for to in ALL_OPERATION {
            assert_eq!(from.transitions().contains(&to), from.can_transition_to(to));
        }
    }
    assert_eq!(O::Queued.transitions(), vec![O::Running, O::Cancelled]);
    assert!(!S::Crashed.is_terminal());
}

#[test]
fn an_instance_moves_only_along_its_transitions() {
    let instance = Instance::new("i".to_owned(), "m".to_owned(), "r".to_owned(), load_config());
    assert_eq!(instance.state(), S::Unloaded);
    let instance = instance.with_state(S::Queued).unwrap();
    assert_eq!(instance.state(), S::Queued);
    let error = instance.with_state(S::Ready).unwrap_err();
    assert_eq!(error.code, ErrorCode::InvalidStateTransition);
    assert_eq!(error.message, "instance cannot move from Queued to Ready");
}

#[test]
fn an_operation_moves_only_along_its_transitions() {
    let operation = Operation::new("o".to_owned(), OperationKind::Unload);
    assert_eq!(operation.state(), O::Queued);
    let operation = operation.with_state(O::Running).unwrap().with_state(O::Succeeded).unwrap();
    assert!(operation.is_terminal());
    let error = operation.with_state(O::Queued).unwrap_err();
    assert_eq!(error.message, "operation cannot move from Succeeded to Queued");
}
