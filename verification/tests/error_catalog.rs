//! The catalog of error codes.

use model_launcher::domain::error::{DomainError, ErrorCode};

fn all_codes() -> Vec<ErrorCode> {
    vec![
        ErrorCode::Unauthorized,
        ErrorCode::Forbidden,
        ErrorCode::InvalidRequest,
        ErrorCode::UnsupportedField,
        ErrorCode::UnsupportedCapability,
        ErrorCode::BodyTooLarge,
        ErrorCode::HeaderTooLarge,
        ErrorCode::RateLimited,
        ErrorCode::ModelNotFound,
        ErrorCode::ModelNotLoaded,
        ErrorCode::ModelNotReady,
        ErrorCode::UpstreamUnavailable,
        ErrorCode::GpuMemoryInsufficient,
        ErrorCode::GpuOomLikely,
        ErrorCode::ResourceExhausted,
        ErrorCode::EvictionConflict,
        ErrorCode::PortConflict,
        ErrorCode::InvalidModel,
        ErrorCode::StartupTimeout,
        ErrorCode::ProcessCrash,
        ErrorCode::UpstreamProtocolError,
        ErrorCode::UpstreamTimeout,
        ErrorCode::UpstreamError,
        ErrorCode::InstanceNotFound,
        ErrorCode::InvalidStateTransition,
        ErrorCode::EndpointNotFound,
        ErrorCode::NotImplemented,
        ErrorCode::Internal,
    ]
}

#[test]
fn code_str_is_unique_per_code() {
    let codes = all_codes();
    let mut strs: Vec<&str> = codes.iter().map(|c| c.code_str()).collect();
    let total = strs.len();
    strs.sort_unstable();
    strs.dedup();
    assert_eq!(strs.len(), total, "two codes share a code_str");
}

#[test]
fn serde_form_matches_code_str() {
    for code in all_codes() {
        assert_eq!(ErrorCode::from_code_str(code.code_str()), Some(code));
    }
    assert_eq!(ErrorCode::GpuOomLikely.code_str(), "gpu_oom_likely");
    assert_eq!(ErrorCode::from_code_str("GpuOomLikely"), None);
}

#[test]
fn default_statuses_are_http_valid_and_expected() {
    let expected: &[(ErrorCode, u16)] = &[
        (ErrorCode::Unauthorized, 401),
        (ErrorCode::Forbidden, 403),
        (ErrorCode::InvalidRequest, 400),
        (ErrorCode::UnsupportedField, 422),
        (ErrorCode::BodyTooLarge, 413),
        (ErrorCode::RateLimited, 429),
        (ErrorCode::ModelNotFound, 404),
        (ErrorCode::ModelNotLoaded, 404),
        (ErrorCode::ModelNotReady, 503),
        (ErrorCode::GpuMemoryInsufficient, 409),
        (ErrorCode::PortConflict, 409),
        (ErrorCode::StartupTimeout, 504),
        (ErrorCode::UpstreamProtocolError, 502),
        (ErrorCode::EndpointNotFound, 404),
        (ErrorCode::Internal, 500),
    ];
    for (code, status) in expected {
        assert_eq!(code.default_status(), *status, "{code:?}");
    }
}

#[test]
fn openai_type_stays_within_openai_vocabulary() {
    const VOCAB: &[&str] = &[
        "invalid_request_error",
        "authentication_error",
        "permission_error",
        "api_error",
        "server_error",
    ];
    for code in all_codes() {
        assert!(
            VOCAB.contains(&code.openai_type()),
            "{code:?} -> {} not in OpenAI vocabulary",
            code.openai_type()
        );
    }
}

#[test]
fn urn_is_namespaced_by_code_str() {
    let code = ErrorCode::GpuMemoryInsufficient;
    assert_eq!(
        code.urn(),
        "urn:model-serving:error:gpu_memory_insufficient"
    );
}

#[test]
fn from_error_code_uses_title_as_message() {
    let err: DomainError = ErrorCode::ModelNotLoaded.into();
    assert_eq!(err.code, ErrorCode::ModelNotLoaded);
    assert_eq!(err.message, ErrorCode::ModelNotLoaded.title());
}

#[test]
fn with_message_overrides_default() {
    let err =
        DomainError::with_message(ErrorCode::ModelNotFound, "model 'qwen-local' is not loaded".to_owned());
    assert_eq!(err.message, "model 'qwen-local' is not loaded");
    assert_eq!(err.code, ErrorCode::ModelNotFound);
}

#[test]
fn openai_error_body_shape_matches_api_doc() {
    let body = ErrorCode::ModelNotLoaded.to_openai_error("Model 'qwen-local' is not loaded", Some("model"));
    assert_eq!(body.error.message, "Model 'qwen-local' is not loaded");
    assert_eq!(body.error.kind, "invalid_request_error");
    assert_eq!(body.error.param.as_deref(), Some("model"));
    assert_eq!(body.error.code.as_deref(), Some("model_not_loaded"));
}

#[test]
fn openai_error_body_omits_param_when_absent() {
    let body = ErrorCode::RateLimited.to_openai_error("slow down", None);
    assert!(body.error.param.is_none(), "param must be omitted");
    assert_eq!(body.error.code.as_deref(), Some("rate_limited"));
}

#[test]
fn problem_details_shape_matches_api_doc() {
    let body = ErrorCode::GpuMemoryInsufficient
        .to_problem_details("No idle instance can be evicted safely", Some("req-1"));
    assert_eq!(body.kind, "urn:model-serving:error:gpu_memory_insufficient");
    assert_eq!(body.title, "Insufficient GPU memory");
    assert_eq!(body.status, 409);
    assert_eq!(body.detail.as_deref(), Some("No idle instance can be evicted safely"));
    assert_eq!(body.request_id.as_deref(), Some("req-1"));
    assert_eq!(body.code.as_deref(), Some("gpu_memory_insufficient"));
}

#[test]
fn problem_details_omits_optional_fields_when_absent() {
    let body = ErrorCode::Internal.to_problem_details("boom", None);
    assert!(body.request_id.is_none());
    assert_eq!(body.status, 500);
}

#[test]
fn error_implements_std_error_and_displays_message() {
    let err = DomainError::with_message(ErrorCode::ProcessCrash, "child exited 137".to_owned());
    assert_eq!(err.to_string(), "child exited 137");
}


#[test]
fn an_error_becomes_the_body_of_its_code() {
    let error = DomainError::with_message(ErrorCode::HeaderTooLarge, "too long".to_owned());
    assert_eq!(error.to_openai_error(None), ErrorCode::HeaderTooLarge.to_openai_error("too long", None));
    assert_eq!(
        error.to_problem_details(Some("req-2")),
        ErrorCode::HeaderTooLarge.to_problem_details("too long", Some("req-2"))
    );
    assert_eq!(ErrorCode::HeaderTooLarge.default_status(), 431);
}

#[test]
fn domain_crate_is_wired_into_workspace() {
    assert_eq!(ErrorCode::Internal.code_str(), "internal");
}

#[test]
fn api_types_crate_is_wired_into_workspace() {
    assert_eq!(ErrorCode::NotImplemented.code_str(), "not_implemented");
}
