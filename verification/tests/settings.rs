//! Launch settings, model keys, and the application's errors.

use model_launcher::launcher::capability::{
    estimate_context, kv_row_bytes, BatchSize, ContextLength, CpuThreads, EngineCapabilities, GpuLayers,
    KvCacheType, LaunchSettings, ParallelSlots, SettingId, SpeculativeType,
};
use model_launcher::launcher::catalog::CatalogMetadata;
use model_launcher::launcher::error::{AppError, ErrorSource};
use model_launcher::launcher::model::{ModelId, ModelKey};

#[test]
fn positive_settings_validate_during_deserialization() {
    assert!(ContextLength::new(0).is_err());
    assert!(CpuThreads::new(0).is_err());
    assert!(BatchSize::new(0).is_err());
    assert!(ParallelSlots::new(0).is_err());

    assert_eq!(ContextLength::new(8192).expect("positive context length").get(), 8192);
    assert_eq!(CpuThreads::new(8).expect("positive CPU threads").get(), 8);
    assert_eq!(BatchSize::new(512).expect("positive batch size").get(), 512);
    assert_eq!(ParallelSlots::new(4).expect("positive parallel slots").get(), 4);
    assert_eq!(GpuLayers::new(0).get(), 0);
}

#[test]
fn launch_arguments_are_gated_by_engine_capabilities() {
    let settings = LaunchSettings {
        context_length: Some(ContextLength::new(8192).expect("valid context length")),
        gpu_layers: Some(GpuLayers::new(32)),
        ..LaunchSettings::default()
    };
    let caps = EngineCapabilities {
        context_length: true,
        ..EngineCapabilities::default()
    };

    assert_eq!(settings.to_args(&caps), vec!["--ctx-size", "8192"]);
}

#[test]
fn launch_render_reports_retained_unsupported_settings() {
    let gpu_layers = GpuLayers::new(32);
    let settings = LaunchSettings {
        context_length: Some(ContextLength::new(8192).expect("valid context length")),
        gpu_layers: Some(gpu_layers),
        ..LaunchSettings::default()
    };
    let caps = EngineCapabilities {
        context_length: true,
        ..EngineCapabilities::default()
    };

    let rendered = settings.render(&caps);

    assert_eq!(settings.gpu_layers, Some(gpu_layers));
    assert_eq!(rendered.args, vec!["--ctx-size", "8192"]);
    assert_eq!(rendered.unsupported, vec![SettingId::GpuLayers]);
}

#[test]
fn disabled_flash_attention_does_not_require_capability() {
    let settings = LaunchSettings {
        flash_attention: Some(false),
        ..LaunchSettings::default()
    };

    let rendered = settings.render(&EngineCapabilities::default());

    assert!(rendered.args.is_empty());
    assert!(rendered.unsupported.is_empty());
}

#[test]
fn enabled_flash_attention_uses_the_typed_llama_cpp_value() {
    let settings = LaunchSettings {
        flash_attention: Some(true),
        ..LaunchSettings::default()
    };
    let capabilities = EngineCapabilities {
        flash_attention: true,
        ..EngineCapabilities::default()
    };

    assert_eq!(settings.to_args(&capabilities), ["--flash-attn", "on"]);
}

#[test]
fn speculative_decoding_uses_supported_llama_cpp_types() {
    let settings = LaunchSettings {
        speculative_type: Some(SpeculativeType::DraftMtp),
        ..LaunchSettings::default()
    };
    let capabilities = EngineCapabilities {
        speculative_type: true,
        ..EngineCapabilities::default()
    };

    assert_eq!(
        settings.to_args(&capabilities),
        ["--spec-type", "draft-mtp"]
    );
}

#[test]
fn kv_cache_type_applies_to_keys_and_values() {
    let settings = LaunchSettings {
        kv_cache_type: Some(KvCacheType::Q8_0),
        ..LaunchSettings::default()
    };
    let capabilities = EngineCapabilities {
        kv_cache_type: true,
        ..EngineCapabilities::default()
    };

    assert_eq!(
        settings.to_args(&capabilities),
        ["--cache-type-k", "q8_0", "--cache-type-v", "q8_0"]
    );
}

#[test]
fn context_estimate_uses_gqa_dimensions_and_quant_block_overhead() {
    let metadata = CatalogMetadata {
        context_length: Some(131_072),
        block_count: Some(32),
        embedding_length: Some(4096),
        attention_head_count: Some(32),
        attention_head_count_kv: Some(8),
        ..CatalogMetadata::default()
    };
    let gib = 1024 * 1024 * 1024;

    let f16 = estimate_context(
        &metadata,
        4 * gib,
        &LaunchSettings::default(),
        16 * gib,
        12 * gib,
    );
    let q8 = estimate_context(
        &metadata,
        4 * gib,
        &LaunchSettings {
            kv_cache_type: Some(KvCacheType::Q8_0),
            ..LaunchSettings::default()
        },
        16 * gib,
        12 * gib,
    );
    let q4 = estimate_context(
        &metadata,
        4 * gib,
        &LaunchSettings {
            kv_cache_type: Some(KvCacheType::Q4_0),
            ..LaunchSettings::default()
        },
        16 * gib,
        12 * gib,
    );

    assert_eq!(f16.kv_bytes_per_token, Some(131_072));
    assert_eq!(q8.kv_bytes_per_token, Some(69_632));
    assert_eq!(q4.kv_bytes_per_token, Some(36_864));
    assert!(f16.vram_context_limit < q8.vram_context_limit);
    assert!(q8.vram_context_limit < q4.vram_context_limit);
    assert_eq!(q4.model_context_limit, 131_072);
}

#[test]
fn hybrid_attention_interval_counts_only_kv_layers() {
    let metadata = CatalogMetadata {
        context_length: Some(262_144),
        block_count: Some(64),
        embedding_length: Some(5120),
        attention_head_count: Some(40),
        attention_head_count_kv: Some(8),
        attention_key_length: Some(256),
        attention_value_length: Some(256),
        full_attention_interval: Some(4),
        ..CatalogMetadata::default()
    };
    let estimate = estimate_context(
        &metadata,
        0,
        &LaunchSettings::default(),
        32 * 1024 * 1024 * 1024,
        30 * 1024 * 1024 * 1024,
    );

    assert_eq!(estimate.kv_bytes_per_token, Some(131_072));
}

#[test]
fn every_setting_is_rendered_in_a_fixed_order() {
    let settings = LaunchSettings {
        context_length: Some(ContextLength::new(4096).unwrap()),
        gpu_layers: Some(GpuLayers::new(7)),
        cpu_threads: Some(CpuThreads::new(6).unwrap()),
        batch_size: Some(BatchSize::new(256).unwrap()),
        parallel_slots: Some(ParallelSlots::new(2).unwrap()),
        flash_attention: Some(true),
        kv_cache_type: Some(KvCacheType::Q4_0),
        speculative_type: Some(SpeculativeType::DraftDflash),
        draft_model: None,
    };
    let all = EngineCapabilities {
        context_length: true,
        gpu_layers: true,
        cpu_threads: true,
        batch_size: true,
        parallel_slots: true,
        flash_attention: true,
        kv_cache_type: true,
        speculative_type: true,
        draft_model: true,
    };
    assert_eq!(
        settings.to_args(&all),
        [
            "--ctx-size", "4096", "--gpu-layers", "7", "--threads", "6", "--batch-size", "256", "--parallel", "2",
            "--flash-attn", "on", "--cache-type-k", "q4_0", "--cache-type-v", "q4_0", "--spec-type",
            "draft-dflash",
        ]
    );
    let rendered = settings.render(&EngineCapabilities::default());
    assert!(rendered.args.is_empty());
    assert_eq!(
        rendered.unsupported,
        [
            SettingId::ContextLength,
            SettingId::GpuLayers,
            SettingId::CpuThreads,
            SettingId::BatchSize,
            SettingId::ParallelSlots,
            SettingId::FlashAttention,
            SettingId::KvCacheType,
            SettingId::SpeculativeType,
        ]
    );
}

#[test]
fn settings_refuse_zero_with_their_name() {
    assert_eq!(ContextLength::new(0).unwrap_err().to_string(), "invalid setting: context_length");
    assert_eq!(CpuThreads::new(0).unwrap_err().to_string(), "invalid setting: cpu_threads");
    assert_eq!(BatchSize::new(0).unwrap_err().to_string(), "invalid setting: batch_size");
    assert_eq!(ParallelSlots::new(0).unwrap_err().to_string(), "invalid setting: parallel_slots");
}

#[test]
fn cache_rows_round_up_to_whole_blocks_and_saturate() {
    assert_eq!(kv_row_bytes(1024, KvCacheType::F16), 2048);
    assert_eq!(kv_row_bytes(33, KvCacheType::Q8_0), 68);
    assert_eq!(kv_row_bytes(33, KvCacheType::Q4_0), 36);
    assert_eq!(kv_row_bytes(u64::MAX, KvCacheType::F16), u64::MAX);
}

#[test]
fn estimates_without_dimensions_fall_back_to_the_model() {
    let estimate = estimate_context(
        &CatalogMetadata { context_length: Some(8192), ..CatalogMetadata::default() },
        1 << 30,
        &LaunchSettings::default(),
        8 << 30,
        8 << 30,
    );
    assert_eq!(estimate.kv_bytes_per_token, None);
    assert_eq!(estimate.vram_context_limit, None);
    assert_eq!(estimate.model_context_limit, 8192);
    assert_eq!(estimate.safety_reserve_bytes, 1 << 30);
}

#[test]
fn application_errors_preserve_source_chain() {
    let cases = [
        (AppError::ModelLoadFailed(ErrorSource::root("disk diagnostic".to_owned())), "model failed to load", "disk diagnostic"),
        (AppError::EngineProcess("process diagnostic".to_owned()), "engine process failed", "process diagnostic"),
    ];
    for (error, message, diagnostic) in cases {
        assert_eq!(error.to_string(), message);
        assert_eq!(error.source().expect("owned source"), diagnostic);
    }
}

#[test]
fn every_error_behind_an_error_is_told() {
    let inner = AppError::EngineProcess("process diagnostic".to_owned());
    let middle = AppError::ModelLoadFailed(ErrorSource::of(&inner));
    let outer = AppError::ModelLoadFailed(ErrorSource::of(&middle));
    assert_eq!(middle.source().unwrap(), "engine process failed");
    assert_eq!(outer.sources(), ["model failed to load", "engine process failed", "process diagnostic"]);
    assert!(AppError::ModelBusy.sources().is_empty());
}

#[test]
fn application_errors_have_stable_codes() {
    let cases = [
        (AppError::InvalidModelKey, "invalid_model_key"),
        (AppError::ModelNotFound, "model_not_found"),
        (AppError::ModelBusy, "model_busy"),
        (AppError::ModelStarting, "model_starting"),
        (AppError::ModelLoadFailed(ErrorSource::root("load diagnostic".to_owned())), "model_load_failed"),
        (AppError::EngineUnavailable, "engine_unavailable"),
        (AppError::InvalidSetting("context_length"), "invalid_setting"),
        (AppError::InvalidLogLimit("broadcast_capacity"), "invalid_log_limit"),
        (AppError::EngineProcess("process diagnostic".to_owned()), "engine_process"),
        (AppError::ConfigIo("config diagnostic".to_owned()), "config_io"),
        (AppError::ConfigFormat("format diagnostic".to_owned()), "config_format"),
    ];
    for (error, expected) in cases {
        assert_eq!(error.code(), expected);
    }
}

fn assert_send_sync<T: Send + Sync>() {}

#[test]
fn app_error_is_send_sync() {
    assert_send_sync::<AppError>();
}

#[test]
fn model_key_accepts_catalog_keys() {
    let key = ModelKey::parse("Qwen/qwen3-8b-q4".to_owned()).expect("valid model key");
    assert_eq!(key.as_str(), "Qwen/qwen3-8b-q4");
}

#[test]
fn model_key_rejects_parent_traversal() {
    assert!(ModelKey::parse("../escape".to_owned()).is_err());
}

#[test]
fn model_key_deserialization_rejects_invalid_values() {
    for text in ["../escape", "", "/", "a//b", "a/./b", "a b", "caf\u{e9}"] {
        assert_eq!(ModelKey::parse(text.to_owned()).unwrap_err().code(), "invalid_model_key");
    }
    assert!(ModelKey::parse("k".repeat(255)).is_ok());
    assert!(ModelKey::parse("k".repeat(256)).is_err());
}

#[test]
fn model_key_serialization_round_trips_valid_values() {
    let key = ModelKey::parse("Qwen/qwen3-8b-q4".to_owned()).expect("valid model key");
    assert_eq!(ModelKey::parse(key.to_string()).expect("valid model key"), key);
    assert!(key.is("Qwen/qwen3-8b-q4"));
    assert!(!key.is("qwen/qwen3-8b-q4"));
}

#[test]
fn identifiers_are_read_back_and_random_ones_have_a_version() {
    let id = ModelId::parse("0F8FAD5B-1c2e-4a3d-9b7a-2f6c4e8d1a00").unwrap();
    assert_eq!(id.to_string(), "0f8fad5b-1c2e-4a3d-9b7a-2f6c4e8d1a00");
    assert_eq!(ModelId::parse("not-an-identifier"), None);
    let random = ModelId::new();
    assert_eq!(random.to_string().as_bytes()[14], b'4');
    assert_eq!(ModelId::parse(&random.to_string()), Some(random));
    assert_ne!(ModelId::new(), random);
}
