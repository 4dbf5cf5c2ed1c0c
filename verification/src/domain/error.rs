//! The stable error catalog and the error type that is shared across the library.
//!
//! One table fixes what a code means on the wire: its machine token, its title,
//! its HTTP status and its type in the OpenAI vocabulary. The two error bodies are
//! built from that table alone, so they cannot drift apart.

use vstd::prelude::*;
use vstd::std_specs::convert::FromSpecImpl;

use crate::text::{push_text, same_text};

verus! {

/// Every error that crosses a boundary has one of these codes.
#[derive(Clone, Copy, Debug, PartialEq, Eq, Hash, Structural)]
pub enum ErrorCode {
    /// Management/inference bearer token missing or invalid (401).
    Unauthorized,
    /// Authenticated but not permitted (403).
    Forbidden,
    /// Malformed request body or missing required field (400).
    InvalidRequest,
    /// A request field is not supported by the selected runtime (422).
    UnsupportedField,
    /// A requested capability (e.g. embeddings) is not provided by the
    /// instance (422).
    UnsupportedCapability,
    /// Request body exceeded the configured limit (413).
    BodyTooLarge,
    /// Request headers exceeded the configured limit (431).
    HeaderTooLarge,
    /// Client is sending too many requests (429).
    RateLimited,
    /// Model key does not exist in the index (404).
    ModelNotFound,
    /// Model exists but has no loaded instance (404).
    ModelNotLoaded,
    /// Model is loaded but not `ready` (loading/draining) (503).
    ModelNotReady,
    /// The upstream runtime process is not serving (crashed) (503).
    UpstreamUnavailable,
    /// Resource precheck says GPU memory is insufficient (409).
    GpuMemoryInsufficient,
    /// The load failed with a signature consistent with a GPU OOM (409).
    GpuOomLikely,
    /// A generic resource was exhausted (409).
    ResourceExhausted,
    /// The requested eviction conflicts with an active-lease protection (409).
    EvictionConflict,
    /// The chosen loopback port could not be bound (409).
    PortConflict,
    /// The model artifact is invalid or unsupported by the runtime (400).
    InvalidModel,
    /// The instance did not become healthy before its start deadline (504).
    StartupTimeout,
    /// The inference process exited unexpectedly (503).
    ProcessCrash,
    /// The upstream returned a malformed or protocol-invalid response (502).
    UpstreamProtocolError,
    /// The upstream request timed out (504).
    UpstreamTimeout,
    /// The upstream returned an error status that is not a protocol error (502).
    UpstreamError,
    /// No such instance (including already-unloaded historical ones) (404).
    InstanceNotFound,
    /// A requested state change is not legal for the current state (409).
    InvalidStateTransition,
    /// The LM Studio-compatible endpoint is not implemented; returned as 404
    /// so clients never mistake it for a success (404).
    EndpointNotFound,
    /// An operation is not implemented for this build (501).
    NotImplemented,
    /// An unexpected internal failure (500).
    Internal,
}

impl ErrorCode {
    /// The stable machine token, such as `model_not_loaded`.
    pub open spec fn code_text(self) -> Seq<char> {
        match self {
            ErrorCode::Unauthorized => "unauthorized"@,
            ErrorCode::Forbidden => "forbidden"@,
            ErrorCode::InvalidRequest => "invalid_request"@,
            ErrorCode::UnsupportedField => "unsupported_field"@,
            ErrorCode::UnsupportedCapability => "unsupported_capability"@,
            ErrorCode::BodyTooLarge => "body_too_large"@,
            ErrorCode::HeaderTooLarge => "header_too_large"@,
            ErrorCode::RateLimited => "rate_limited"@,
            ErrorCode::ModelNotFound => "model_not_found"@,
            ErrorCode::ModelNotLoaded => "model_not_loaded"@,
            ErrorCode::ModelNotReady => "model_not_ready"@,
            ErrorCode::UpstreamUnavailable => "upstream_unavailable"@,
            ErrorCode::GpuMemoryInsufficient => "gpu_memory_insufficient"@,
            ErrorCode::GpuOomLikely => "gpu_oom_likely"@,
            ErrorCode::ResourceExhausted => "resource_exhausted"@,
            ErrorCode::EvictionConflict => "eviction_conflict"@,
            ErrorCode::PortConflict => "port_conflict"@,
            ErrorCode::InvalidModel => "invalid_model"@,
            ErrorCode::StartupTimeout => "startup_timeout"@,
            ErrorCode::ProcessCrash => "process_crash"@,
            ErrorCode::UpstreamProtocolError => "upstream_protocol_error"@,
            ErrorCode::UpstreamTimeout => "upstream_timeout"@,
            ErrorCode::UpstreamError => "upstream_error"@,
            ErrorCode::InstanceNotFound => "instance_not_found"@,
            ErrorCode::InvalidStateTransition => "invalid_state_transition"@,
            ErrorCode::EndpointNotFound => "endpoint_not_found"@,
            ErrorCode::NotImplemented => "not_implemented"@,
            ErrorCode::Internal => "internal"@,
        }
    }

    /// The value that a word stands for.
    pub open spec fn read_code_text(text: Seq<char>) -> Option<Self> {
        if text == "unauthorized"@ {
            Some(ErrorCode::Unauthorized)
        } else if text == "forbidden"@ {
            Some(ErrorCode::Forbidden)
        } else if text == "invalid_request"@ {
            Some(ErrorCode::InvalidRequest)
        } else if text == "unsupported_field"@ {
            Some(ErrorCode::UnsupportedField)
        } else if text == "unsupported_capability"@ {
            Some(ErrorCode::UnsupportedCapability)
        } else if text == "body_too_large"@ {
            Some(ErrorCode::BodyTooLarge)
        } else if text == "header_too_large"@ {
            Some(ErrorCode::HeaderTooLarge)
        } else if text == "rate_limited"@ {
            Some(ErrorCode::RateLimited)
        } else if text == "model_not_found"@ {
            Some(ErrorCode::ModelNotFound)
        } else if text == "model_not_loaded"@ {
            Some(ErrorCode::ModelNotLoaded)
        } else if text == "model_not_ready"@ {
            Some(ErrorCode::ModelNotReady)
        } else if text == "upstream_unavailable"@ {
            Some(ErrorCode::UpstreamUnavailable)
        } else if text == "gpu_memory_insufficient"@ {
            Some(ErrorCode::GpuMemoryInsufficient)
        } else if text == "gpu_oom_likely"@ {
            Some(ErrorCode::GpuOomLikely)
        } else if text == "resource_exhausted"@ {
            Some(ErrorCode::ResourceExhausted)
        } else if text == "eviction_conflict"@ {
            Some(ErrorCode::EvictionConflict)
        } else if text == "port_conflict"@ {
            Some(ErrorCode::PortConflict)
        } else if text == "invalid_model"@ {
            Some(ErrorCode::InvalidModel)
        } else if text == "startup_timeout"@ {
            Some(ErrorCode::StartupTimeout)
        } else if text == "process_crash"@ {
            Some(ErrorCode::ProcessCrash)
        } else if text == "upstream_protocol_error"@ {
            Some(ErrorCode::UpstreamProtocolError)
        } else if text == "upstream_timeout"@ {
            Some(ErrorCode::UpstreamTimeout)
        } else if text == "upstream_error"@ {
            Some(ErrorCode::UpstreamError)
        } else if text == "instance_not_found"@ {
            Some(ErrorCode::InstanceNotFound)
        } else if text == "invalid_state_transition"@ {
            Some(ErrorCode::InvalidStateTransition)
        } else if text == "endpoint_not_found"@ {
            Some(ErrorCode::EndpointNotFound)
        } else if text == "not_implemented"@ {
            Some(ErrorCode::NotImplemented)
        } else if text == "internal"@ {
            Some(ErrorCode::Internal)
        } else {
            None
        }
    }

    pub fn from_code_str(text: &str) -> (result: Option<Self>)
        ensures
            result == ErrorCode::read_code_text(text@),
    {
        if same_text(text, "unauthorized") {
            return Some(ErrorCode::Unauthorized);
        }
        if same_text(text, "forbidden") {
            return Some(ErrorCode::Forbidden);
        }
        if same_text(text, "invalid_request") {
            return Some(ErrorCode::InvalidRequest);
        }
        if same_text(text, "unsupported_field") {
            return Some(ErrorCode::UnsupportedField);
        }
        if same_text(text, "unsupported_capability") {
            return Some(ErrorCode::UnsupportedCapability);
        }
        if same_text(text, "body_too_large") {
            return Some(ErrorCode::BodyTooLarge);
        }
        if same_text(text, "header_too_large") {
            return Some(ErrorCode::HeaderTooLarge);
        }
        if same_text(text, "rate_limited") {
            return Some(ErrorCode::RateLimited);
        }
        if same_text(text, "model_not_found") {
            return Some(ErrorCode::ModelNotFound);
        }
        if same_text(text, "model_not_loaded") {
            return Some(ErrorCode::ModelNotLoaded);
        }
        if same_text(text, "model_not_ready") {
            return Some(ErrorCode::ModelNotReady);
        }
        if same_text(text, "upstream_unavailable") {
            return Some(ErrorCode::UpstreamUnavailable);
        }
        if same_text(text, "gpu_memory_insufficient") {
            return Some(ErrorCode::GpuMemoryInsufficient);
        }
        if same_text(text, "gpu_oom_likely") {
            return Some(ErrorCode::GpuOomLikely);
        }
        if same_text(text, "resource_exhausted") {
            return Some(ErrorCode::ResourceExhausted);
        }
        if same_text(text, "eviction_conflict") {
            return Some(ErrorCode::EvictionConflict);
        }
        if same_text(text, "port_conflict") {
            return Some(ErrorCode::PortConflict);
        }
        if same_text(text, "invalid_model") {
            return Some(ErrorCode::InvalidModel);
        }
        if same_text(text, "startup_timeout") {
            return Some(ErrorCode::StartupTimeout);
        }
        if same_text(text, "process_crash") {
            return Some(ErrorCode::ProcessCrash);
        }
        if same_text(text, "upstream_protocol_error") {
            return Some(ErrorCode::UpstreamProtocolError);
        }
        if same_text(text, "upstream_timeout") {
            return Some(ErrorCode::UpstreamTimeout);
        }
        if same_text(text, "upstream_error") {
            return Some(ErrorCode::UpstreamError);
        }
        if same_text(text, "instance_not_found") {
            return Some(ErrorCode::InstanceNotFound);
        }
        if same_text(text, "invalid_state_transition") {
            return Some(ErrorCode::InvalidStateTransition);
        }
        if same_text(text, "endpoint_not_found") {
            return Some(ErrorCode::EndpointNotFound);
        }
        if same_text(text, "not_implemented") {
            return Some(ErrorCode::NotImplemented);
        }
        if same_text(text, "internal") {
            return Some(ErrorCode::Internal);
        }
        None
    }
}

/// Reading the word of an `ErrorCode` gives the value back, so no two values share a
/// word.
pub proof fn law_error_code_round_trips(value: ErrorCode)
    ensures
        ErrorCode::read_code_text(value.code_text()) == Some(value),
{
    reveal_strlit("unauthorized");
    reveal_strlit("forbidden");
    reveal_strlit("invalid_request");
    reveal_strlit("unsupported_field");
    reveal_strlit("unsupported_capability");
    reveal_strlit("body_too_large");
    reveal_strlit("header_too_large");
    reveal_strlit("rate_limited");
    reveal_strlit("model_not_found");
    reveal_strlit("model_not_loaded");
    reveal_strlit("model_not_ready");
    reveal_strlit("upstream_unavailable");
    reveal_strlit("gpu_memory_insufficient");
    reveal_strlit("gpu_oom_likely");
    reveal_strlit("resource_exhausted");
    reveal_strlit("eviction_conflict");
    reveal_strlit("port_conflict");
    reveal_strlit("invalid_model");
    reveal_strlit("startup_timeout");
    reveal_strlit("process_crash");
    reveal_strlit("upstream_protocol_error");
    reveal_strlit("upstream_timeout");
    reveal_strlit("upstream_error");
    reveal_strlit("instance_not_found");
    reveal_strlit("invalid_state_transition");
    reveal_strlit("endpoint_not_found");
    reveal_strlit("not_implemented");
    reveal_strlit("internal");
    assert("unauthorized"@.len() == 12);
    assert("forbidden"@.len() == 9);
    assert("invalid_request"@.len() == 15);
    assert("unsupported_field"@.len() == 17);
    assert("unsupported_capability"@.len() == 22);
    assert("body_too_large"@.len() == 14);
    assert("header_too_large"@.len() == 16);
    assert("rate_limited"@.len() == 12);
    assert("model_not_found"@.len() == 15);
    assert("model_not_loaded"@.len() == 16);
    assert("model_not_ready"@.len() == 15);
    assert("upstream_unavailable"@.len() == 20);
    assert("gpu_memory_insufficient"@.len() == 23);
    assert("gpu_oom_likely"@.len() == 14);
    assert("resource_exhausted"@.len() == 18);
    assert("eviction_conflict"@.len() == 17);
    assert("port_conflict"@.len() == 13);
    assert("invalid_model"@.len() == 13);
    assert("startup_timeout"@.len() == 15);
    assert("process_crash"@.len() == 13);
    assert("upstream_protocol_error"@.len() == 23);
    assert("upstream_timeout"@.len() == 16);
    assert("upstream_error"@.len() == 14);
    assert("instance_not_found"@.len() == 18);
    assert("invalid_state_transition"@.len() == 24);
    assert("endpoint_not_found"@.len() == 18);
    assert("not_implemented"@.len() == 15);
    assert("internal"@.len() == 8);
    assert("unauthorized"@[0] != "rate_limited"@[0]);
    assert("invalid_request"@[0] != "model_not_found"@[0]);
    assert("invalid_request"@[0] != "model_not_ready"@[0]);
    assert("invalid_request"@[0] != "startup_timeout"@[0]);
    assert("invalid_request"@[0] != "not_implemented"@[0]);
    assert("unsupported_field"@[0] != "eviction_conflict"@[0]);
    assert("body_too_large"@[0] != "gpu_oom_likely"@[0]);
    assert("body_too_large"@[0] != "upstream_error"@[0]);
    assert("header_too_large"@[0] != "model_not_loaded"@[0]);
    assert("header_too_large"@[0] != "upstream_timeout"@[0]);
    assert("model_not_found"@[10] != "model_not_ready"@[10]);
    assert("model_not_found"@[0] != "startup_timeout"@[0]);
    assert("model_not_found"@[0] != "not_implemented"@[0]);
    assert("model_not_loaded"@[0] != "upstream_timeout"@[0]);
    assert("model_not_ready"@[0] != "startup_timeout"@[0]);
    assert("model_not_ready"@[0] != "not_implemented"@[0]);
    assert("gpu_memory_insufficient"@[0] != "upstream_protocol_error"@[0]);
    assert("gpu_oom_likely"@[0] != "upstream_error"@[0]);
    assert("resource_exhausted"@[0] != "instance_not_found"@[0]);
    assert("resource_exhausted"@[0] != "endpoint_not_found"@[0]);
    assert("port_conflict"@[0] != "invalid_model"@[0]);
    assert("port_conflict"@[1] != "process_crash"@[1]);
    assert("invalid_model"@[0] != "process_crash"@[0]);
    assert("startup_timeout"@[0] != "not_implemented"@[0]);
    assert("instance_not_found"@[0] != "endpoint_not_found"@[0]);
}

impl ErrorCode {
    /// The default title.
    pub open spec fn title_text(self) -> Seq<char> {
        match self {
            ErrorCode::Unauthorized => "Authentication required"@,
            ErrorCode::Forbidden => "Insufficient permissions"@,
            ErrorCode::InvalidRequest => "Request is invalid"@,
            ErrorCode::UnsupportedField => "Field not supported by runtime"@,
            ErrorCode::UnsupportedCapability => "Capability not supported"@,
            ErrorCode::BodyTooLarge => "Request body too large"@,
            ErrorCode::HeaderTooLarge => "Request headers too large"@,
            ErrorCode::RateLimited => "Too many requests"@,
            ErrorCode::ModelNotFound => "Model not found"@,
            ErrorCode::ModelNotLoaded => "Model is not loaded"@,
            ErrorCode::ModelNotReady => "Model is not ready"@,
            ErrorCode::UpstreamUnavailable => "Upstream is unavailable"@,
            ErrorCode::GpuMemoryInsufficient => "Insufficient GPU memory"@,
            ErrorCode::GpuOomLikely => "Out of GPU memory (likely)"@,
            ErrorCode::ResourceExhausted => "Resource exhausted"@,
            ErrorCode::EvictionConflict => "Eviction conflict"@,
            ErrorCode::PortConflict => "Port conflict"@,
            ErrorCode::InvalidModel => "Model artifact is invalid"@,
            ErrorCode::StartupTimeout => "Instance failed to start in time"@,
            ErrorCode::ProcessCrash => "Inference process crashed"@,
            ErrorCode::UpstreamProtocolError => "Upstream protocol error"@,
            ErrorCode::UpstreamTimeout => "Upstream timed out"@,
            ErrorCode::UpstreamError => "Upstream returned an error"@,
            ErrorCode::InstanceNotFound => "Instance not found"@,
            ErrorCode::InvalidStateTransition => "Invalid state transition"@,
            ErrorCode::EndpointNotFound => "Endpoint not found"@,
            ErrorCode::NotImplemented => "Not implemented"@,
            ErrorCode::Internal => "Internal error"@,
        }
    }

    /// The HTTP status of the code.
    pub open spec fn status_number(self) -> u16 {
        match self {
            ErrorCode::Unauthorized => 401,
            ErrorCode::Forbidden => 403,
            ErrorCode::InvalidRequest => 400,
            ErrorCode::UnsupportedField => 422,
            ErrorCode::UnsupportedCapability => 422,
            ErrorCode::BodyTooLarge => 413,
            ErrorCode::HeaderTooLarge => 431,
            ErrorCode::RateLimited => 429,
            ErrorCode::ModelNotFound => 404,
            ErrorCode::ModelNotLoaded => 404,
            ErrorCode::ModelNotReady => 503,
            ErrorCode::UpstreamUnavailable => 503,
            ErrorCode::GpuMemoryInsufficient => 409,
            ErrorCode::GpuOomLikely => 409,
            ErrorCode::ResourceExhausted => 409,
            ErrorCode::EvictionConflict => 409,
            ErrorCode::PortConflict => 409,
            ErrorCode::InvalidModel => 400,
            ErrorCode::StartupTimeout => 504,
            ErrorCode::ProcessCrash => 503,
            ErrorCode::UpstreamProtocolError => 502,
            ErrorCode::UpstreamTimeout => 504,
            ErrorCode::UpstreamError => 502,
            ErrorCode::InstanceNotFound => 404,
            ErrorCode::InvalidStateTransition => 409,
            ErrorCode::EndpointNotFound => 404,
            ErrorCode::NotImplemented => 501,
            ErrorCode::Internal => 500,
        }
    }

    /// The error type in the OpenAI vocabulary.
    pub open spec fn type_text(self) -> Seq<char> {
        match self {
            ErrorCode::Unauthorized => "authentication_error"@,
            ErrorCode::Forbidden => "permission_error"@,
            ErrorCode::InvalidRequest => "invalid_request_error"@,
            ErrorCode::UnsupportedField => "invalid_request_error"@,
            ErrorCode::UnsupportedCapability => "invalid_request_error"@,
            ErrorCode::BodyTooLarge => "invalid_request_error"@,
            ErrorCode::HeaderTooLarge => "invalid_request_error"@,
            ErrorCode::RateLimited => "invalid_request_error"@,
            ErrorCode::ModelNotFound => "invalid_request_error"@,
            ErrorCode::ModelNotLoaded => "invalid_request_error"@,
            ErrorCode::ModelNotReady => "api_error"@,
            ErrorCode::UpstreamUnavailable => "server_error"@,
            ErrorCode::GpuMemoryInsufficient => "api_error"@,
            ErrorCode::GpuOomLikely => "api_error"@,
            ErrorCode::ResourceExhausted => "api_error"@,
            ErrorCode::EvictionConflict => "permission_error"@,
            ErrorCode::PortConflict => "api_error"@,
            ErrorCode::InvalidModel => "invalid_request_error"@,
            ErrorCode::StartupTimeout => "api_error"@,
            ErrorCode::ProcessCrash => "server_error"@,
            ErrorCode::UpstreamProtocolError => "api_error"@,
            ErrorCode::UpstreamTimeout => "api_error"@,
            ErrorCode::UpstreamError => "api_error"@,
            ErrorCode::InstanceNotFound => "invalid_request_error"@,
            ErrorCode::InvalidStateTransition => "api_error"@,
            ErrorCode::EndpointNotFound => "api_error"@,
            ErrorCode::NotImplemented => "api_error"@,
            ErrorCode::Internal => "server_error"@,
        }
    }

    /// The type of a problem-details body.
    pub open spec fn urn_text(self) -> Seq<char> {
        "urn:model-serving:error:"@ + self.code_text()
    }

    /// The attributes of a code on the wire: token, title, status and OpenAI type.
    fn meta(self) -> (result: (&'static str, &'static str, u16, &'static str))
        ensures
            result.0@ == self.code_text(),
            result.1@ == self.title_text(),
            result.2 == self.status_number(),
            result.3@ == self.type_text(),
    {
        match self {
            ErrorCode::Unauthorized => ("unauthorized", "Authentication required", 401, "authentication_error"),
            ErrorCode::Forbidden => ("forbidden", "Insufficient permissions", 403, "permission_error"),
            ErrorCode::InvalidRequest => ("invalid_request", "Request is invalid", 400, "invalid_request_error"),
            ErrorCode::UnsupportedField => ("unsupported_field", "Field not supported by runtime", 422, "invalid_request_error"),
            ErrorCode::UnsupportedCapability => ("unsupported_capability", "Capability not supported", 422, "invalid_request_error"),
            ErrorCode::BodyTooLarge => ("body_too_large", "Request body too large", 413, "invalid_request_error"),
            ErrorCode::HeaderTooLarge => ("header_too_large", "Request headers too large", 431, "invalid_request_error"),
            ErrorCode::RateLimited => ("rate_limited", "Too many requests", 429, "invalid_request_error"),
            ErrorCode::ModelNotFound => ("model_not_found", "Model not found", 404, "invalid_request_error"),
            ErrorCode::ModelNotLoaded => ("model_not_loaded", "Model is not loaded", 404, "invalid_request_error"),
            ErrorCode::ModelNotReady => ("model_not_ready", "Model is not ready", 503, "api_error"),
            ErrorCode::UpstreamUnavailable => ("upstream_unavailable", "Upstream is unavailable", 503, "server_error"),
            ErrorCode::GpuMemoryInsufficient => ("gpu_memory_insufficient", "Insufficient GPU memory", 409, "api_error"),
            ErrorCode::GpuOomLikely => ("gpu_oom_likely", "Out of GPU memory (likely)", 409, "api_error"),
            ErrorCode::ResourceExhausted => ("resource_exhausted", "Resource exhausted", 409, "api_error"),
            ErrorCode::EvictionConflict => ("eviction_conflict", "Eviction conflict", 409, "permission_error"),
            ErrorCode::PortConflict => ("port_conflict", "Port conflict", 409, "api_error"),
            ErrorCode::InvalidModel => ("invalid_model", "Model artifact is invalid", 400, "invalid_request_error"),
            ErrorCode::StartupTimeout => ("startup_timeout", "Instance failed to start in time", 504, "api_error"),
            ErrorCode::ProcessCrash => ("process_crash", "Inference process crashed", 503, "server_error"),
            ErrorCode::UpstreamProtocolError => ("upstream_protocol_error", "Upstream protocol error", 502, "api_error"),
            ErrorCode::UpstreamTimeout => ("upstream_timeout", "Upstream timed out", 504, "api_error"),
            ErrorCode::UpstreamError => ("upstream_error", "Upstream returned an error", 502, "api_error"),
            ErrorCode::InstanceNotFound => ("instance_not_found", "Instance not found", 404, "invalid_request_error"),
            ErrorCode::InvalidStateTransition => ("invalid_state_transition", "Invalid state transition", 409, "api_error"),
            ErrorCode::EndpointNotFound => ("endpoint_not_found", "Endpoint not found", 404, "api_error"),
            ErrorCode::NotImplemented => ("not_implemented", "Not implemented", 501, "api_error"),
            ErrorCode::Internal => ("internal", "Internal error", 500, "server_error"),
        }
    }

    pub fn code_str(self) -> (result: &'static str)
        ensures
            result@ == self.code_text(),
    {
        self.meta().0
    }

    pub fn title(self) -> (result: &'static str)
        ensures
            result@ == self.title_text(),
    {
        self.meta().1
    }

    pub fn default_status(self) -> (result: u16)
        ensures
            result == self.status_number(),
    {
        self.meta().2
    }

    pub fn openai_type(self) -> (result: &'static str)
        ensures
            result@ == self.type_text(),
    {
        self.meta().3
    }

    pub fn urn(self) -> (result: String)
        ensures
            result@ == self.urn_text(),
    {
        let mut text = "urn:model-serving:error:".to_owned();
        push_text(&mut text, self.code_str());
        text
    }

    /// The error body of the OpenAI-style gateway. `param` names the offending
    /// field, where one field is to blame.
    pub fn to_openai_error(self, message: &str, param: Option<&str>) -> (result: OpenAiErrorBody)
        ensures
            result.error.message@ == message@,
            result.error.kind@ == self.type_text(),
            optional_text(result.error.param) == optional_str(param),
            optional_text(result.error.code) == Some(self.code_text()),
    {
        OpenAiErrorBody {
            error: OpenAiError {
                message: message.to_owned(),
                kind: self.openai_type().to_owned(),
                param: owned(param),
                code: Some(self.code_str().to_owned()),
            },
        }
    }

    /// The problem-details body of the management API. `request_id` correlates the
    /// response with its request, where one was established.
    pub fn to_problem_details(self, message: &str, request_id: Option<&str>) -> (result: ProblemDetails)
        ensures
            result.kind@ == self.urn_text(),
            result.title@ == self.title_text(),
            result.status == self.status_number(),
            optional_text(result.detail) == Some(message@),
            optional_text(result.request_id) == optional_str(request_id),
            optional_text(result.code) == Some(self.code_text()),
    {
        ProblemDetails {
            kind: self.urn(),
            title: self.title().to_owned(),
            status: self.default_status(),
            detail: Some(message.to_owned()),
            request_id: owned(request_id),
            code: Some(self.code_str().to_owned()),
        }
    }
}

/// The text of an optional string.
pub open spec fn optional_text(value: Option<String>) -> Option<Seq<char>> {
    match value {
        Some(text) => Some(text@),
        None => None,
    }
}

/// The text of an optional string slice.
pub open spec fn optional_str(value: Option<&str>) -> Option<Seq<char>> {
    match value {
        Some(text) => Some(text@),
        None => None,
    }
}

fn owned(value: Option<&str>) -> (result: Option<String>)
    ensures
        optional_text(result) == optional_str(value),
{
    match value {
        Some(text) => Some(text.to_owned()),
        None => None,
    }
}

/// Every error type is a word of the OpenAI vocabulary.
pub proof fn law_type_is_openai_vocabulary(code: ErrorCode)
    ensures
        seq![
            "invalid_request_error"@,
            "authentication_error"@,
            "permission_error"@,
            "api_error"@,
            "server_error"@,
        ].contains(code.type_text()),
{
    let words = seq![
        "invalid_request_error"@,
        "authentication_error"@,
        "permission_error"@,
        "api_error"@,
        "server_error"@,
    ];
    assert(words[0] == "invalid_request_error"@);
    assert(words[1] == "authentication_error"@);
    assert(words[2] == "permission_error"@);
    assert(words[3] == "api_error"@);
    assert(words[4] == "server_error"@);
}

/// Every code is answered with a client or a server error status.
pub proof fn law_status_is_an_error(code: ErrorCode)
    ensures
        400 <= code.status_number() < 600,
{
}

/// Two codes with the same token are the same code.
pub proof fn law_code_is_unique(left: ErrorCode, right: ErrorCode)
    requires
        left.code_text() == right.code_text(),
    ensures
        left == right,
{
    law_error_code_round_trips(left);
    law_error_code_round_trips(right);
}

/// The type of a problem-details body names its code: two codes with the same
/// type are the same code.
pub proof fn law_urn_is_unique(left: ErrorCode, right: ErrorCode)
    requires
        left.urn_text() == right.urn_text(),
    ensures
        left == right,
{
    let prefix = "urn:model-serving:error:"@;
    assert(left.urn_text().skip(prefix.len() as int) =~= left.code_text());
    assert(right.urn_text().skip(prefix.len() as int) =~= right.code_text());
    law_code_is_unique(left, right);
}

/// A stable code with a concrete message.
#[derive(Debug, PartialEq, Eq)]
pub struct DomainError {
    pub code: ErrorCode,
    pub message: String,
}

impl Clone for DomainError {
    fn clone(&self) -> (result: Self)
        ensures
            result == *self,
    {
        DomainError { code: self.code, message: self.message.clone() }
    }
}

impl DomainError {
    /// An error of this code with its own message.
    pub fn with_message(code: ErrorCode, message: String) -> (result: Self)
        ensures
            result.code == code,
            result.message == message,
    {
        DomainError { code, message }
    }

    /// The message of the error.
    pub fn to_string(&self) -> (result: String)
        ensures
            result == self.message,
    {
        self.message.clone()
    }

    pub fn to_openai_error(&self, param: Option<&str>) -> (result: OpenAiErrorBody)
        ensures
            result.error.message@ == self.message@,
            result.error.kind@ == self.code.type_text(),
            optional_text(result.error.param) == optional_str(param),
            optional_text(result.error.code) == Some(self.code.code_text()),
    {
        self.code.to_openai_error(self.message.as_str(), param)
    }

    pub fn to_problem_details(&self, request_id: Option<&str>) -> (result: ProblemDetails)
        ensures
            result.kind@ == self.code.urn_text(),
            result.title@ == self.code.title_text(),
            result.status == self.code.status_number(),
            optional_text(result.detail) == Some(self.message@),
            optional_text(result.request_id) == optional_str(request_id),
            optional_text(result.code) == Some(self.code.code_text()),
    {
        self.code.to_problem_details(self.message.as_str(), request_id)
    }
}

/// The error of a code whose message is the title of the code.
impl From<ErrorCode> for DomainError {
    fn from(code: ErrorCode) -> (result: Self)
        ensures
            result.code == code,
            result.message@ == code.title_text(),
    {
        DomainError { code, message: code.title().to_owned() }
    }
}

impl FromSpecImpl<ErrorCode> for DomainError {
    open spec fn obeys_from_spec() -> bool {
        false
    }

    open spec fn from_spec(code: ErrorCode) -> Self {
        arbitrary()
    }
}

/// The body of an OpenAI-style error response.
#[derive(Debug, Clone, PartialEq, Eq)]
pub struct OpenAiErrorBody {
    pub error: OpenAiError,
}

/// The error object of an OpenAI-style response; `kind` is its `type` on the wire.
#[derive(Debug, Clone, PartialEq, Eq)]
pub struct OpenAiError {
    pub message: String,
    pub kind: String,
    pub param: Option<String>,
    pub code: Option<String>,
}

/// A problem-details body; `kind` is its `type` on the wire.
#[derive(Debug, Clone, PartialEq, Eq)]
pub struct ProblemDetails {
    pub kind: String,
    pub title: String,
    pub status: u16,
    pub detail: Option<String>,
    pub request_id: Option<String>,
    pub code: Option<String>,
}

} // verus!
