//! Models, runtimes, instances and operations.

use model_launcher::domain::error::ErrorCode;
use model_launcher::domain::model::{
    ArtifactKind, Capabilities, EngineConfig, FailureClass, Instance, InstanceHealth, InstanceState, KvCapacity, Scalar,
    LoadConfig, Model, NinferEngineConfig, Operation, OperationError, OperationKind, OperationState, Runtime,
    RuntimeKind, Timestamp,
};

fn ts(text: &str) -> Timestamp {
    Timestamp::parse(text).expect("valid RFC 3339 in test fixture")
}

fn sample_model() -> Model {
    Model {
        id: "0f8fad5b-1c2e-4a3d-9b7a-2f6c4e8d1a00".into(),
        key: "qwen-local".into(),
        path: "/mnt/d/models/qwen.gguf".into(),
        artifact_kind: ArtifactKind::Gguf,
        size_bytes: 17_000_000_000,
        mtime: ts("2026-08-01T12:00:00Z"),
        display_name: Some("Qwen Local".into()),
        default_runtime_id: Some("llama-cpp-0".into()),
        default_load_config: None,
        metadata: None,
        deleted: false,
    }
}

fn load_config(context_length: u32) -> LoadConfig {
    LoadConfig {
        context_length,
        max_concurrency: None,
        eval_batch_size: None,
        flash_attention: None,
        offload_kv_cache_to_gpu: None,
        n_gpu_layers: None,
        engine_config: None,
    }
}

#[test]
fn model_round_trips_and_preserves_fields() {
    let model = sample_model();
    let back = model.clone();
    assert_eq!(back, model);
    assert_eq!(back.key(), "qwen-local");
    assert!(!back.is_deleted());
}

#[test]
fn artifact_kind_serializes_lowercase() {
    assert_eq!(ArtifactKind::Gguf.wire(), "gguf");
    assert_eq!(ArtifactKind::Ninfer.wire(), "ninfer");
}

#[test]
fn runtime_kind_serializes_snake_case() {
    assert_eq!(RuntimeKind::LlamaCpp.wire(), "llama_cpp");
    assert_eq!(RuntimeKind::Ninfer.wire(), "ninfer");
}

#[test]
fn runtime_defaults_enabled_false_and_empty_capabilities() {
    let rt = Runtime {
        id: "llama-cpp-0".into(),
        kind: RuntimeKind::LlamaCpp,
        executable_path: "/opt/llama/llama-server".into(),
        enabled: true,
        version_text: Some("b4200".into()),
        capabilities: Capabilities::default(),
        fixed_args: vec![],
    };
    assert!(rt.is_enabled());
    assert!(!rt.capabilities.supports_chat_completions);
}

#[test]
fn load_config_round_trips_the_native_example() {
    let mut cfg = load_config(262_144);
    cfg.max_concurrency = Some(1);
    cfg.engine_config = Some(EngineConfig {
        ninfer: Some(NinferEngineConfig {
            kv_capacity: Some(KvCapacity::Value(262_144)),
            prefill_chunk: Some(2048),
            kv_dtype: Some("int8".into()),
            spec_mode: Some("mtp".into()),
            draft_tokens: Some(3),
            lm_head_draft: Some(true),
            thinking: Some("disabled".into()),
            ..NinferEngineConfig::default()
        }),
    });
    assert_eq!(cfg.context_length(), 262_144);
    assert_eq!(cfg.ninfer_config().expect("ninfer").kv_capacity, Some(KvCapacity::Value(262_144)));
    assert_eq!(cfg.ninfer_config().expect("ninfer").kv_dtype.as_deref(), Some("int8"));
    assert_eq!(load_config(1).ninfer_config(), None);
}

#[test]
fn kv_capacity_auto_round_trips_as_string() {
    assert_eq!(KvCapacity::Auto.to_scalar(), Scalar::Text("auto".to_owned()));
    assert_eq!(KvCapacity::from_scalar(&Scalar::Text("auto".to_owned())), Some(KvCapacity::Auto));
}

#[test]
fn kv_capacity_value_round_trips_as_number() {
    assert_eq!(KvCapacity::Value(262_144).to_scalar(), Scalar::Number(262_144));
    assert_eq!(KvCapacity::from_scalar(&Scalar::Number(262_144)), Some(KvCapacity::Value(262_144)));
    assert_eq!(KvCapacity::from_scalar(&Scalar::Number(1 << 32)), None);
}

#[test]
fn kv_capacity_rejects_unknown_scalar() {
    let bogus = Scalar::Text("bogus".to_owned());
    assert_eq!(KvCapacity::from_scalar(&bogus), None, "a non-auto, non-number scalar must not parse");
}

#[test]
fn instance_state_serializes_snake_case() {
    assert_eq!(InstanceState::Ready.wire(), "ready");
    assert_eq!(InstanceState::Unloading.wire(), "unloading");
    assert_eq!(OperationState::Succeeded.wire(), "succeeded");
}

#[test]
fn failure_class_serializes_snake_case() {
    assert_eq!(FailureClass::GpuOomLikely.wire(), "gpu_oom_likely");
}

#[test]
fn instance_tracks_active_requests_and_confirmed_pid() {
    let mut inst = Instance::new("inst-1".into(), "model-1".into(), "rt-1".into(), load_config(4096));
    assert!(!inst.has_active_requests());
    inst.pid = Some(4242);
    inst.port = Some(8080);
    inst.device_ids = vec![0];
    inst.started_at = Some(ts("2026-08-01T12:00:05Z"));
    inst.active_requests = 2;
    inst.health = Some(InstanceHealth { ok: true, latency_ms: Some(7), checked_at: None });
    assert!(inst.has_active_requests());
    assert_eq!(inst.instance_id(), "inst-1");
    assert_eq!(inst.pid, Some(4242));
    assert_eq!(inst.port, Some(8080));
    assert_eq!(inst.active_requests, 2);
    assert_eq!(inst.device_ids, vec![0]);
    assert!(inst.last_used_at.is_none());
}

#[test]
fn operation_error_carries_code_and_message() {
    let mut op = Operation::new("op-1".into(), OperationKind::Load)
        .with_state(OperationState::Running)
        .unwrap()
        .with_state(OperationState::Failed)
        .unwrap();
    op.error = Some(OperationError {
        code: ErrorCode::StartupTimeout,
        message: "no healthy upstream after 30s".into(),
    });
    assert!(op.is_terminal());
    assert_eq!(op.operation_id(), "op-1");
    assert_eq!(op.state().wire(), "failed");
    assert_eq!(op.error.as_ref().unwrap().code.code_str(), "startup_timeout");
    assert!(op.result.is_none());
}

#[test]
fn succeeded_operation_carries_structured_result() {
    let mut op = Operation::new("op-scan-1".into(), OperationKind::Rescan)
        .with_state(OperationState::Running)
        .unwrap()
        .with_state(OperationState::Succeeded)
        .unwrap();
    op.created_at = Some(ts("2026-08-01T12:00:00Z"));
    op.finished_at = Some(ts("2026-08-01T12:00:02Z"));
    op.result = Some("{\"added\":3,\"removed\":1,\"unchanged\":42}".into());
    assert!(op.is_terminal());
    assert_eq!(op.operation_id(), "op-scan-1");
    assert_eq!(op.kind.wire(), "rescan");
    assert_eq!(op.state().wire(), "succeeded");
    assert_eq!(op.finished_at.as_ref().unwrap().to_rfc3339(), "2026-08-01T12:00:02Z");
    assert!(op.instance_id.is_none() && op.model_id.is_none() && op.error.is_none());
    let result: serde_json::Value = serde_json::from_str(op.result.as_deref().unwrap()).unwrap();
    assert_eq!(result["added"], 3);
    assert_eq!(result["removed"], 1);
}

#[test]
fn model_rejects_invalid_rfc3339_mtime() {
    assert!(Timestamp::parse("not-a-timestamp").is_none(), "a non-RFC3339 mtime must be rejected");
}

#[test]
fn model_mtime_serializes_as_rfc3339_string() {
    assert_eq!(sample_model().mtime.to_rfc3339(), "2026-08-01T12:00:00Z");
}

#[test]
fn timestamps_are_read_back_from_what_is_written() {
    let stamp = ts("2026-08-01T14:00:00.250+02:00");
    assert_eq!(stamp.to_rfc3339(), "2026-08-01T12:00:00.250Z");
    assert_eq!(Timestamp::parse(&stamp.to_rfc3339()), Some(stamp));
    assert_eq!(stamp.seconds, 1_785_585_600);
    assert_eq!(stamp.nanos, 250_000_000);
}

#[test]
fn all_enums_serialize_to_wire_token_and_round_trip() {
    for (value, wire) in [(ArtifactKind::Gguf, "gguf"), (ArtifactKind::Ninfer, "ninfer")] {
        assert_eq!(value.wire(), wire);
        assert_eq!(ArtifactKind::from_wire(wire), Some(value));
    }
    for (value, wire) in [(RuntimeKind::LlamaCpp, "llama_cpp"), (RuntimeKind::Ninfer, "ninfer")] {
        assert_eq!(value.wire(), wire);
        assert_eq!(RuntimeKind::from_wire(wire), Some(value));
    }
    for (value, wire) in [
        (InstanceState::Unloaded, "unloaded"),
        (InstanceState::Queued, "queued"),
        (InstanceState::Loading, "loading"),
        (InstanceState::Ready, "ready"),
        (InstanceState::Draining, "draining"),
        (InstanceState::Unloading, "unloading"),
        (InstanceState::Failed, "failed"),
        (InstanceState::Crashed, "crashed"),
    ] {
        assert_eq!(value.wire(), wire);
        assert_eq!(InstanceState::from_wire(wire), Some(value));
    }
    for (value, wire) in [
        (OperationKind::Load, "load"),
        (OperationKind::Unload, "unload"),
        (OperationKind::Rescan, "rescan"),
    ] {
        assert_eq!(value.wire(), wire);
        assert_eq!(OperationKind::from_wire(wire), Some(value));
    }
    for (value, wire) in [
        (OperationState::Queued, "queued"),
        (OperationState::Running, "running"),
        (OperationState::Succeeded, "succeeded"),
        (OperationState::Failed, "failed"),
        (OperationState::Cancelled, "cancelled"),
    ] {
        assert_eq!(value.wire(), wire);
        assert_eq!(OperationState::from_wire(wire), Some(value));
    }
    for (value, wire) in [
        (FailureClass::GpuOomLikely, "gpu_oom_likely"),
        (FailureClass::StartupTimeout, "startup_timeout"),
        (FailureClass::ProcessCrash, "process_crash"),
        (FailureClass::PortConflict, "port_conflict"),
        (FailureClass::InvalidModel, "invalid_model"),
        (FailureClass::ConfigError, "config_error"),
        (FailureClass::UpstreamProtocol, "upstream_protocol"),
        (FailureClass::Unknown, "unknown"),
    ] {
        assert_eq!(value.wire(), wire);
        assert_eq!(FailureClass::from_wire(wire), Some(value));
    }
    assert_eq!(ArtifactKind::from_wire("GGUF"), None);
    assert_eq!(RuntimeKind::from_wire("LlamaCpp"), None);
    assert_eq!(InstanceState::from_wire("Ready"), None);
    assert_eq!(OperationKind::from_wire("reload"), None);
    assert_eq!(OperationState::from_wire("done"), None);
    assert_eq!(FailureClass::from_wire(""), None);
}
