//! The service: its start, its settings, its models and its end.

use model_launcher::api::auth::{AuthError, TokenStore};
use model_launcher::api::gateway::HostAddress;
use model_launcher::api::models::LoadRequest;
use model_launcher::launcher::capability::{BatchSize, ContextLength, EngineCapabilities, LaunchSettings};
use model_launcher::launcher::catalog::{CatalogIdentity, CatalogMetadata, ScanResult, ScannedModel};
use model_launcher::launcher::config::{ConfigDiagnostic, ConfigDiagnosticKind, LauncherConfig};
use model_launcher::launcher::error::AppError;
use model_launcher::launcher::lifecycle::LifecycleSnapshot;
use model_launcher::launcher::model::{LaunchProfile, ModelId, ModelKey, ModelRecord, ModelState};
use model_launcher::service::error::{ServiceError, ShutdownFailure};
use model_launcher::service::models::{
    api_models, apply_profile, find_by_id, prepare_profile_load, recent_models, record_recent, replace_record,
    MAX_RECENT_MODELS,
};
use model_launcher::service::settings::{
    changed_config, check_engine_answer, check_engine_change, check_launcher_change, check_scan, check_token_request,
    commit_engine, commit_launcher, finish_token, set_server, ServerAddress, ServerChange, ServerStage,
};
use model_launcher::service::shutdown::{
    PhaseOutcome, ShutdownEvent, ShutdownPhase, ShutdownRequest, ShutdownRun, ShutdownState,
};
use model_launcher::service::startup::{
    catalog_diagnostic, catalog_root, creates_root, engine_place, starts_watcher, token_error, without_catalog,
    EngineHealth, LauncherSettings, ServiceState, StartFindings, StartStep,
};

fn model(name: &str, state: ModelState) -> ModelRecord {
    ModelRecord {
        id: ModelId::new(),
        key: ModelKey::parse(name.to_owned()).unwrap(),
        display_name: name.to_owned(),
        path: format!("/models/{name}.gguf"),
        file_identity: CatalogIdentity::Unavailable,
        size_bytes: 1,
        metadata: CatalogMetadata { architecture: Some("llama".to_owned()), ..CatalogMetadata::default() },
        state,
        launch_profile: LaunchProfile::default(),
    }
}

fn state(config: LauncherConfig) -> ServiceState {
    ServiceState::start(StartFindings {
        config,
        config_diagnostic: Some(ConfigDiagnostic {
            kind: ConfigDiagnosticKind::Corrupt,
            quarantine_path: "/config/config.json.quarantine-1".to_owned(),
        }),
        usual_root: "/usual".to_owned(),
        root_is_directory: true,
        create_error: None,
        reconciled: None,
        probe: Ok(EngineCapabilities { context_length: true, ..EngineCapabilities::default() }),
    })
}

#[test]
fn recent_models_are_successful_mru_entries_with_stable_ids() {
    let mut recent = Vec::new();
    let models: Vec<ModelRecord> = (0..10).map(|index| model(&format!("m{index}"), ModelState::Available)).collect();
    for model in &models {
        record_recent(&mut recent, model.id);
    }
    assert_eq!(recent.len(), MAX_RECENT_MODELS);
    assert_eq!(recent[0], models[9].id);
    record_recent(&mut recent, models[5].id);
    assert_eq!(recent.len(), MAX_RECENT_MODELS);
    assert_eq!(recent[0], models[5].id);
    let mut some = vec![models[5].clone(), models[9].clone()];
    some[1].state = ModelState::Missing;
    let shown = recent_models(&some, &recent);
    assert_eq!(shown.len(), 1);
    assert_eq!(shown[0].id, models[5].id);
}

#[test]
fn models_are_offered_found_and_replaced() {
    let mut config = LauncherConfig::default();
    config.models = vec![model("acme/tiny", ModelState::Available), model("gone", ModelState::Missing)];
    let offered = api_models(&config, &EngineCapabilities::default());
    assert_eq!(offered.len(), 2);
    assert_eq!(offered[0].record.key.as_str(), "acme/tiny");
    assert_eq!(offered[0].publisher, "local");
    let id = config.models[0].id;
    assert_eq!(find_by_id(&config.models, id).unwrap().id, id);
    assert_eq!(find_by_id(&config.models, ModelId::new()).unwrap_err().code(), "model_not_found");
    let mut changed = config.models[0].clone();
    changed.display_name = "Renamed".to_owned();
    replace_record(&mut config.models, &changed).unwrap();
    assert_eq!(config.models[0].display_name, "Renamed");
    assert!(replace_record(&mut config.models, &model("new", ModelState::Available)).is_err());
}

#[test]
fn profile_load_validates_persists_key_and_profile_before_lifecycle_load() {
    let models = vec![model("tiny", ModelState::Available), model("other", ModelState::Available)];
    let settings = LaunchSettings {
        context_length: Some(ContextLength::new(2048).unwrap()),
        ..LaunchSettings::default()
    };
    let prepared = prepare_profile_load(&models, models[0].id, "edited/key".to_owned(), settings.clone()).unwrap();
    assert_eq!(prepared.key.as_str(), "edited/key");
    assert_eq!(prepared.launch_profile.settings.context_length.unwrap().get(), 2048);
    let bad = prepare_profile_load(&models, models[0].id, "../escape".to_owned(), settings.clone());
    assert_eq!(bad.unwrap_err().code(), "invalid_model_key");
    let nobody = prepare_profile_load(&models, ModelId::new(), "edited/key".to_owned(), settings);
    assert_eq!(nobody.unwrap_err().code(), "model_not_found");
}

#[test]
fn requests_set_what_the_engine_understands() {
    let request = LoadRequest {
        model: "tiny".to_owned(),
        context_length: Some(1024),
        eval_batch_size: Some(64),
        flash_attention: Some(true),
        num_experts: None,
        offload_kv_cache_to_gpu: None,
        echo_load_config: false,
    };
    let all = EngineCapabilities {
        context_length: true,
        batch_size: true,
        flash_attention: true,
        ..EngineCapabilities::default()
    };
    let applied = apply_profile(model("tiny", ModelState::Available), &all, &request).unwrap();
    let settings = applied.launch_profile.settings;
    assert_eq!(settings.context_length, ContextLength::new(1024).ok());
    assert_eq!(settings.batch_size, BatchSize::new(64).ok());
    assert_eq!(settings.flash_attention, Some(true));
    let none = EngineCapabilities::default();
    assert!(apply_profile(model("tiny", ModelState::Available), &none, &request).is_err());
    let zero = LoadRequest { context_length: Some(0), ..request };
    assert_eq!(
        apply_profile(model("tiny", ModelState::Available), &all, &zero).unwrap_err().code(),
        "invalid_setting"
    );
}

#[test]
fn a_start_goes_through_its_steps() {
    let mut step = StartStep::LoadConfig;
    let mut steps = vec![step];
    while step != StartStep::Running {
        step = step.next();
        steps.push(step);
    }
    assert_eq!(
        steps,
        [
            StartStep::LoadConfig,
            StartStep::ReconcileCatalog,
            StartStep::LoadTokens,
            StartStep::StartWatcher,
            StartStep::ProbeEngine,
            StartStep::SpawnLifecycle,
            StartStep::BuildGateway,
            StartStep::StartGateway,
            StartStep::Running,
        ]
    );
    assert!(StartStep::StartGateway.cleans_up());
    assert!(!StartStep::LoadConfig.cleans_up());
    assert!(StartStep::ProbeEngine.is_optional());
}

#[test]
fn the_place_of_the_models_is_the_configured_one() {
    let mut config = LauncherConfig::default();
    assert_eq!(catalog_root(&config, "/usual"), "/usual");
    assert_eq!(engine_place(&config), None);
    config.catalog_directory = Some("/mine".to_owned());
    config.engine_distribution = Some("Ubuntu".to_owned());
    assert_eq!(catalog_root(&config, "/usual"), "/mine");
    assert_eq!(engine_place(&config), None);
    config.engine_executable = Some("/llama".to_owned());
    assert_eq!(engine_place(&config), Some(("Ubuntu".to_owned(), "/llama".to_owned())));
    assert!(creates_root(false, false));
    assert!(!creates_root(true, false));
    assert!(catalog_diagnostic(None, true).is_none());
    assert!(catalog_diagnostic(Some("denied"), false).unwrap().contains("denied"));
    assert!(starts_watcher(true, true));
    assert!(!starts_watcher(false, true));
    assert!(!starts_watcher(true, false));
}

#[test]
fn models_are_missing_where_there_is_no_catalog() {
    let mut config = LauncherConfig::default();
    config.models = vec![model("tiny", ModelState::Available)];
    assert_eq!(without_catalog(config).models[0].state, ModelState::Missing);
}

#[test]
fn initial_probe_failure_starts_disabled_and_valid_settings_recover_loading() {
    let (capabilities, health) = EngineHealth::probed(Err(AppError::EngineProcess("no wsl".to_owned())));
    assert_eq!(capabilities, EngineCapabilities::default());
    assert!(!health.valid);
    assert_eq!(health.guard().unwrap_err().code(), "engine_unavailable");
    let mut state = state(LauncherConfig::default());
    state.health = health;
    let snapshot = state.snapshot(LifecycleSnapshot::default());
    assert_eq!(snapshot.config_diagnostic.as_ref().unwrap().code(), "config_corrupt");
    assert!(!snapshot.engine_valid);
    assert!(snapshot.engine_diagnostic.is_some());
    let before = state.changes;
    let known = EngineCapabilities { gpu_layers: true, ..EngineCapabilities::default() };
    commit_engine(&mut state, "Ubuntu".to_owned(), "/llama".to_owned(), known);
    assert!(state.health.guard().is_ok());
    assert_eq!(state.capabilities, known);
    assert_eq!(state.config.engine_distribution.as_deref(), Some("Ubuntu"));
    assert_eq!(state.changes, before + 1);
}

#[test]
fn launcher_settings_persist_root_and_defaults_for_new_models() {
    let settings = LauncherSettings {
        catalog_directory: "/other".to_owned(),
        engine_distribution: "Debian".to_owned(),
        engine_executable: "/opt/llama".to_owned(),
        default_launch_settings: LaunchSettings {
            context_length: Some(ContextLength::new(4096).unwrap()),
            ..LaunchSettings::default()
        },
    };
    let scanned = ScanResult {
        models: vec![ScannedModel {
            display_name: "Fresh".to_owned(),
            path: "/other/fresh.gguf".to_owned(),
            size_bytes: 1,
            identity: CatalogIdentity::Unavailable,
            metadata: CatalogMetadata::default(),
        }],
        diagnostics: vec![],
        complete: true,
    };
    let mut state = state(LauncherConfig::default());
    let config = changed_config(&state.config, &settings, scanned, &vec![ModelId::new()], false).unwrap();
    assert_eq!(config.models[0].launch_profile.settings.context_length.unwrap().get(), 4096);
    commit_launcher(&mut state, config, "/other".to_owned(), EngineCapabilities::default());
    let shown = state.launcher_settings();
    assert_eq!(shown.catalog_directory, "/other");
    assert_eq!(shown.engine_distribution, "Debian");
    assert_eq!(shown.engine_executable, "/opt/llama");
    assert!(check_scan(true).is_ok());
    assert!(check_scan(false).is_err());
}

#[test]
fn changes_are_refused_during_a_shutdown() {
    assert!(matches!(check_engine_change(false, true), Err(ServiceError::ShuttingDown)));
    assert!(check_engine_change(true, false).is_err());
    assert!(check_engine_change(true, true).is_ok());
    assert!(matches!(check_launcher_change(false, true, true), Err(ServiceError::ShuttingDown)));
    assert!(check_launcher_change(true, false, true).is_err());
    assert!(check_launcher_change(true, true, true).is_ok());
    let known = EngineCapabilities::default();
    assert!(matches!(check_engine_answer(Ok(known), false), Err(ServiceError::ShuttingDown)));
    assert_eq!(check_engine_answer(Ok(known), true).unwrap(), known);
    assert!(check_engine_answer(Err("no wsl".to_owned()), true).is_err());
    assert!(matches!(check_token_request(false, true), Err(ServiceError::ShuttingDown)));
    assert!(check_token_request(true, true).is_ok());
}

#[test]
fn service_persists_live_tokens_and_exposes_redacted_logs() {
    let mut tokens = TokenStore::empty().unwrap();
    let created = tokens.create().unwrap();
    let plaintext = created.plaintext.clone();
    assert_eq!(finish_token(&mut tokens, created, Ok(())).ok().unwrap().plaintext, plaintext);
    assert!(tokens.verify(&plaintext));
    let second = tokens.create().unwrap();
    let lost = second.plaintext.clone();
    assert!(finish_token(&mut tokens, second, Err(ServiceError::Io("disk full".to_owned()))).is_err());
    assert!(!tokens.verify(&lost), "a token that was not saved is not accepted");
    assert!(tokens.verify(&plaintext));
    assert_eq!(
        token_error(AuthError::Malformed).to_string(),
        "authentication token: password hash string missing field"
    );
    let unreadable = TokenStore::from_phc_hashes(vec!["$argon2id$v=19$m=1,t".to_owned()]).err().unwrap();
    assert_eq!(token_error(unreadable).to_string(), "authentication token: invalid parameter value: value malformed");
}

fn address(port: u16) -> ServerAddress {
    ServerAddress { host: HostAddress::V4(0x7f00_0001), port }
}

#[test]
fn a_change_of_the_server_is_made_or_undone() {
    let mut change = ServerChange::begin(true, address(2), address(1), false).unwrap();
    let mut stages = Vec::new();
    while change.stage != ServerStage::Done {
        stages.push(change.stage);
        change.advance(Ok(()));
    }
    assert!(change.saved && change.new_live && !change.old_live && change.error.is_none());
    assert!(stages.contains(&ServerStage::Build) && stages.contains(&ServerStage::SaveNew));
    let mut change = ServerChange::begin(true, address(2), address(1), false).unwrap();
    while change.stage != ServerStage::Done {
        let outcome = if change.stage == ServerStage::SaveNew {
            Err(ServiceError::Io("disk full".to_owned()))
        } else {
            Ok(())
        };
        change.advance(outcome);
    }
    assert!(!change.saved && change.old_live && !change.new_live);
    assert_eq!(change.error.unwrap().to_string(), ServiceError::Io("disk full".to_owned()).to_string());
    assert!(matches!(
        ServerChange::begin(false, address(2), address(1), false),
        Err(ServiceError::ShuttingDown)
    ));
    let mut config = LauncherConfig::default();
    set_server(&mut config, "0.0.0.0".to_owned(), 9, true);
    assert_eq!((config.bind_address.as_str(), config.port, config.auth_enabled), ("0.0.0.0", 9, true));
}

#[test]
fn watcher_join_timeout_is_typed_and_later_phases_are_attempted() {
    let (mut run, first) = ShutdownRun::start();
    assert_eq!(first, ShutdownEvent::Started(ShutdownPhase::StopGateway));
    let mut phases = Vec::new();
    while let Some(phase) = run.phase {
        phases.push(phase);
        let outcome = if phase == ShutdownPhase::StopWatcher {
            PhaseOutcome::TimedOut
        } else {
            PhaseOutcome::Done
        };
        let events = run.advance(outcome);
        assert_eq!(events[0], ShutdownEvent::Completed(phase));
    }
    assert_eq!(
        phases,
        [
            ShutdownPhase::StopGateway,
            ShutdownPhase::StopLifecycle,
            ShutdownPhase::PersistConfig,
            ShutdownPhase::StopWatcher,
            ShutdownPhase::JoinLifecycle,
        ]
    );
    let failure = run.result().unwrap_err();
    assert_eq!(failure.errors.len(), 1);
    assert!(failure.errors[0].contains("timed out"), "{:?}", failure.errors);
}

#[test]
fn a_shutdown_begins_once() {
    let mut state = ShutdownState::Running;
    assert!(state.check_running().is_ok());
    assert!(matches!(state.request(), ShutdownRequest::Begin));
    assert!(matches!(state.check_running(), Err(ServiceError::ShuttingDown)));
    assert!(matches!(state.request(), ShutdownRequest::Await));
    state = ShutdownState::Done(Err(ShutdownFailure { errors: vec!["late".to_owned()] }));
    assert!(matches!(state.request(), ShutdownRequest::Over(Err(ServiceError::Shutdown(_)))));
    state = ShutdownState::Done(Ok(()));
    assert!(matches!(state.request(), ShutdownRequest::Over(Ok(()))));
}
