//! The words, numbers and moves that clients of the domain rely on.

use vstd::prelude::*;

use super::error::ErrorCode;
use super::model::{
    ArtifactKind, FailureClass, InstanceState, KvCapacity, OperationKind, OperationState, RuntimeKind, ScalarView,
};
use super::state_machine::{instance_move_text, operation_move_text};

verus! {

/// The status that an error is answered with tells whose fault it is: the request's,
/// the state of the models, or the engine behind them.
pub proof fn law_statuses_of_errors(code: ErrorCode)
    ensures
        code.status_number() == 400 <==> code == ErrorCode::InvalidRequest || code == ErrorCode::InvalidModel,
        code.status_number() == 401 <==> code == ErrorCode::Unauthorized,
        code.status_number() == 403 <==> code == ErrorCode::Forbidden,
        code.status_number() == 404 <==> code == ErrorCode::ModelNotFound || code == ErrorCode::ModelNotLoaded
            || code == ErrorCode::InstanceNotFound || code == ErrorCode::EndpointNotFound,
        code.status_number() == 409 <==> code == ErrorCode::GpuMemoryInsufficient || code == ErrorCode::GpuOomLikely
            || code == ErrorCode::ResourceExhausted || code == ErrorCode::EvictionConflict
            || code == ErrorCode::PortConflict || code == ErrorCode::InvalidStateTransition,
        code.status_number() == 413 <==> code == ErrorCode::BodyTooLarge,
        code.status_number() == 422 <==> code == ErrorCode::UnsupportedField
            || code == ErrorCode::UnsupportedCapability,
        code.status_number() == 429 <==> code == ErrorCode::RateLimited,
        code.status_number() == 431 <==> code == ErrorCode::HeaderTooLarge,
        code.status_number() == 500 <==> code == ErrorCode::Internal,
        code.status_number() == 501 <==> code == ErrorCode::NotImplemented,
        code.status_number() == 502 <==> code == ErrorCode::UpstreamProtocolError || code == ErrorCode::UpstreamError,
        code.status_number() == 503 <==> code == ErrorCode::ModelNotReady || code == ErrorCode::UpstreamUnavailable
            || code == ErrorCode::ProcessCrash,
        code.status_number() == 504 <==> code == ErrorCode::StartupTimeout || code == ErrorCode::UpstreamTimeout,
{
}

/// The type that an error is answered with.
pub proof fn law_types_of_errors(code: ErrorCode)
    ensures
        code == ErrorCode::ModelNotReady || code == ErrorCode::GpuMemoryInsufficient
            || code == ErrorCode::GpuOomLikely || code == ErrorCode::ResourceExhausted
            || code == ErrorCode::PortConflict || code == ErrorCode::StartupTimeout
            || code == ErrorCode::UpstreamProtocolError || code == ErrorCode::UpstreamTimeout
            || code == ErrorCode::UpstreamError || code == ErrorCode::InvalidStateTransition
            || code == ErrorCode::EndpointNotFound || code == ErrorCode::NotImplemented
            ==> code.type_text() == "api_error"@,
        code == ErrorCode::Unauthorized ==> code.type_text() == "authentication_error"@,
        code == ErrorCode::InvalidRequest || code == ErrorCode::UnsupportedField
            || code == ErrorCode::UnsupportedCapability || code == ErrorCode::BodyTooLarge
            || code == ErrorCode::HeaderTooLarge || code == ErrorCode::RateLimited
            || code == ErrorCode::ModelNotFound || code == ErrorCode::ModelNotLoaded
            || code == ErrorCode::InvalidModel || code == ErrorCode::InstanceNotFound
            ==> code.type_text() == "invalid_request_error"@,
        code == ErrorCode::Forbidden || code == ErrorCode::EvictionConflict
            ==> code.type_text() == "permission_error"@,
        code == ErrorCode::UpstreamUnavailable || code == ErrorCode::ProcessCrash || code == ErrorCode::Internal
            ==> code.type_text() == "server_error"@,
{
}

/// The token and the title of each error.
pub proof fn law_words_of_errors(code: ErrorCode)
    ensures
        code == ErrorCode::Unauthorized ==> code.code_text() == "unauthorized"@
            && code.title_text() == "Authentication required"@,
        code == ErrorCode::Forbidden ==> code.code_text() == "forbidden"@
            && code.title_text() == "Insufficient permissions"@,
        code == ErrorCode::InvalidRequest ==> code.code_text() == "invalid_request"@
            && code.title_text() == "Request is invalid"@,
        code == ErrorCode::UnsupportedField ==> code.code_text() == "unsupported_field"@
            && code.title_text() == "Field not supported by runtime"@,
        code == ErrorCode::UnsupportedCapability ==> code.code_text() == "unsupported_capability"@
            && code.title_text() == "Capability not supported"@,
        code == ErrorCode::BodyTooLarge ==> code.code_text() == "body_too_large"@
            && code.title_text() == "Request body too large"@,
        code == ErrorCode::HeaderTooLarge ==> code.code_text() == "header_too_large"@
            && code.title_text() == "Request headers too large"@,
        code == ErrorCode::RateLimited ==> code.code_text() == "rate_limited"@
            && code.title_text() == "Too many requests"@,
        code == ErrorCode::ModelNotFound ==> code.code_text() == "model_not_found"@
            && code.title_text() == "Model not found"@,
        code == ErrorCode::ModelNotLoaded ==> code.code_text() == "model_not_loaded"@
            && code.title_text() == "Model is not loaded"@,
        code == ErrorCode::ModelNotReady ==> code.code_text() == "model_not_ready"@
            && code.title_text() == "Model is not ready"@,
        code == ErrorCode::UpstreamUnavailable ==> code.code_text() == "upstream_unavailable"@
            && code.title_text() == "Upstream is unavailable"@,
        code == ErrorCode::GpuMemoryInsufficient ==> code.code_text() == "gpu_memory_insufficient"@
            && code.title_text() == "Insufficient GPU memory"@,
        code == ErrorCode::GpuOomLikely ==> code.code_text() == "gpu_oom_likely"@
            && code.title_text() == "Out of GPU memory (likely)"@,
        code == ErrorCode::ResourceExhausted ==> code.code_text() == "resource_exhausted"@
            && code.title_text() == "Resource exhausted"@,
        code == ErrorCode::EvictionConflict ==> code.code_text() == "eviction_conflict"@
            && code.title_text() == "Eviction conflict"@,
        code == ErrorCode::PortConflict ==> code.code_text() == "port_conflict"@
            && code.title_text() == "Port conflict"@,
        code == ErrorCode::InvalidModel ==> code.code_text() == "invalid_model"@
            && code.title_text() == "Model artifact is invalid"@,
        code == ErrorCode::StartupTimeout ==> code.code_text() == "startup_timeout"@
            && code.title_text() == "Instance failed to start in time"@,
        code == ErrorCode::ProcessCrash ==> code.code_text() == "process_crash"@
            && code.title_text() == "Inference process crashed"@,
        code == ErrorCode::UpstreamProtocolError ==> code.code_text() == "upstream_protocol_error"@
            && code.title_text() == "Upstream protocol error"@,
        code == ErrorCode::UpstreamTimeout ==> code.code_text() == "upstream_timeout"@
            && code.title_text() == "Upstream timed out"@,
        code == ErrorCode::UpstreamError ==> code.code_text() == "upstream_error"@
            && code.title_text() == "Upstream returned an error"@,
        code == ErrorCode::InstanceNotFound ==> code.code_text() == "instance_not_found"@
            && code.title_text() == "Instance not found"@,
        code == ErrorCode::InvalidStateTransition ==> code.code_text() == "invalid_state_transition"@
            && code.title_text() == "Invalid state transition"@,
        code == ErrorCode::EndpointNotFound ==> code.code_text() == "endpoint_not_found"@
            && code.title_text() == "Endpoint not found"@,
        code == ErrorCode::NotImplemented ==> code.code_text() == "not_implemented"@
            && code.title_text() == "Not implemented"@,
        code == ErrorCode::Internal ==> code.code_text() == "internal"@ && code.title_text() == "Internal error"@,
        code.urn_text() == "urn:model-serving:error:"@ + code.code_text(),
{
}

/// The words for the kinds of files.
pub proof fn law_words_of_artifact_kind(kind: ArtifactKind)
    ensures
        kind == ArtifactKind::Gguf ==> kind.wire_text() == "gguf"@,
        kind == ArtifactKind::Ninfer ==> kind.wire_text() == "ninfer"@,
{
}

/// The words for the engine families.
pub proof fn law_words_of_runtime_kind(kind: RuntimeKind)
    ensures
        kind == RuntimeKind::LlamaCpp ==> kind.wire_text() == "llama_cpp"@,
        kind == RuntimeKind::Ninfer ==> kind.wire_text() == "ninfer"@,
{
}

/// The words for the reasons of a failure.
pub proof fn law_words_of_failure_class(class: FailureClass)
    ensures
        class == FailureClass::GpuOomLikely ==> class.wire_text() == "gpu_oom_likely"@,
        class == FailureClass::StartupTimeout ==> class.wire_text() == "startup_timeout"@,
        class == FailureClass::ProcessCrash ==> class.wire_text() == "process_crash"@,
        class == FailureClass::PortConflict ==> class.wire_text() == "port_conflict"@,
        class == FailureClass::InvalidModel ==> class.wire_text() == "invalid_model"@,
        class == FailureClass::ConfigError ==> class.wire_text() == "config_error"@,
        class == FailureClass::UpstreamProtocol ==> class.wire_text() == "upstream_protocol"@,
        class == FailureClass::Unknown ==> class.wire_text() == "unknown"@,
{
}

/// The words for the states of an instance.
pub proof fn law_words_of_instance_state(state: InstanceState)
    ensures
        state == InstanceState::Unloaded ==> state.wire_text() == "unloaded"@,
        state == InstanceState::Queued ==> state.wire_text() == "queued"@,
        state == InstanceState::Loading ==> state.wire_text() == "loading"@,
        state == InstanceState::Ready ==> state.wire_text() == "ready"@,
        state == InstanceState::Draining ==> state.wire_text() == "draining"@,
        state == InstanceState::Unloading ==> state.wire_text() == "unloading"@,
        state == InstanceState::Failed ==> state.wire_text() == "failed"@,
        state == InstanceState::Crashed ==> state.wire_text() == "crashed"@,
        state == InstanceState::Queued ==> state.name_text() == "Queued"@,
        state == InstanceState::Loading ==> state.name_text() == "Loading"@,
        state == InstanceState::Ready ==> state.name_text() == "Ready"@,
        state == InstanceState::Draining ==> state.name_text() == "Draining"@,
        state == InstanceState::Unloading ==> state.name_text() == "Unloading"@,
        state == InstanceState::Unloaded ==> state.name_text() == "Unloaded"@,
        state == InstanceState::Failed ==> state.name_text() == "Failed"@,
        state == InstanceState::Crashed ==> state.name_text() == "Crashed"@,
{
}

/// The words for the kinds of operations.
pub proof fn law_words_of_operation_kind(kind: OperationKind)
    ensures
        kind == OperationKind::Load ==> kind.wire_text() == "load"@,
        kind == OperationKind::Unload ==> kind.wire_text() == "unload"@,
        kind == OperationKind::Rescan ==> kind.wire_text() == "rescan"@,
{
}

/// The words for the states of an operation.
pub proof fn law_words_of_operation_state(state: OperationState)
    ensures
        state == OperationState::Queued ==> state.wire_text() == "queued"@,
        state == OperationState::Running ==> state.wire_text() == "running"@,
        state == OperationState::Succeeded ==> state.wire_text() == "succeeded"@,
        state == OperationState::Failed ==> state.wire_text() == "failed"@,
        state == OperationState::Cancelled ==> state.wire_text() == "cancelled"@,
        state == OperationState::Queued ==> state.name_text() == "Queued"@,
        state == OperationState::Running ==> state.name_text() == "Running"@,
        state == OperationState::Succeeded ==> state.name_text() == "Succeeded"@,
        state == OperationState::Failed ==> state.name_text() == "Failed"@,
        state == OperationState::Cancelled ==> state.name_text() == "Cancelled"@,
{
}

/// Which states an instance may move to from which.
pub proof fn law_moves_of_instance_state(from: InstanceState, to: InstanceState)
    ensures
        from == InstanceState::Queued ==> (from.allows(to) <==> to == InstanceState::Loading
            || to == InstanceState::Unloaded || to == InstanceState::Failed),
        from == InstanceState::Loading ==> (from.allows(to) <==> to == InstanceState::Ready
            || to == InstanceState::Failed || to == InstanceState::Unloading || to == InstanceState::Crashed),
        from == InstanceState::Ready ==> (from.allows(to) <==> to == InstanceState::Draining
            || to == InstanceState::Crashed),
        from == InstanceState::Draining ==> (from.allows(to) <==> to == InstanceState::Unloading
            || to == InstanceState::Ready || to == InstanceState::Crashed),
        from == InstanceState::Unloading ==> (from.allows(to) <==> to == InstanceState::Unloaded),
        from == InstanceState::Unloaded ==> (from.allows(to) <==> to == InstanceState::Queued),
        from == InstanceState::Failed ==> (from.allows(to) <==> to == InstanceState::Queued),
        from == InstanceState::Crashed ==> (from.allows(to) <==> to == InstanceState::Queued),
{
    let targets = from.targets();
    assert(targets.len() > 0 ==> targets.contains(targets[0]));
    assert(targets.len() > 1 ==> targets.contains(targets[1]));
    assert(targets.len() > 2 ==> targets.contains(targets[2]));
    assert(targets.len() > 3 ==> targets.contains(targets[3]));
}

/// Which states an operation may move to from which.
pub proof fn law_moves_of_operation_state(from: OperationState, to: OperationState)
    ensures
        from == OperationState::Queued ==> (from.allows(to) <==> to == OperationState::Running
            || to == OperationState::Cancelled),
        from == OperationState::Running ==> (from.allows(to) <==> to == OperationState::Succeeded
            || to == OperationState::Failed || to == OperationState::Cancelled),
        from == OperationState::Succeeded ==> !from.allows(to),
        from == OperationState::Failed ==> !from.allows(to),
        from == OperationState::Cancelled ==> !from.allows(to),
{
    let targets = from.targets();
    assert(targets.len() > 0 ==> targets.contains(targets[0]));
    assert(targets.len() > 1 ==> targets.contains(targets[1]));
    assert(targets.len() > 2 ==> targets.contains(targets[2]));
}

/// A move that is refused is described by the two states' names.
pub proof fn law_refused_moves_are_described(from: InstanceState, to: InstanceState, before: OperationState, after: OperationState)
    ensures
        instance_move_text(from, to) == "instance cannot move from "@ + from.name_text() + " to "@ + to.name_text(),
        operation_move_text(before, after) == "operation cannot move from "@ + before.name_text() + " to "@ + after.name_text(),
{
}

/// The room for keys and values is a number of tokens, or the word for leaving it to
/// the engine; no other word and no larger number is read.
pub proof fn law_capacity_is_a_number_or_auto(text: Seq<char>, number: u64)
    ensures
        KvCapacity::of_scalar(ScalarView::Text(text)) is Some <==> text == "auto"@,
        KvCapacity::of_scalar(ScalarView::Number(number)) is Some <==> number <= 4_294_967_295,
        number <= 4_294_967_295 ==> KvCapacity::of_scalar(ScalarView::Number(number)) == Some(
            KvCapacity::Value(number as u32),
        ),
        KvCapacity::of_scalar(ScalarView::Text("auto"@)) == Some(KvCapacity::Auto),
{
}

} // verus!
