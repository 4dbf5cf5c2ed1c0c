//! What the window and the icon show.

use std::sync::atomic::{AtomicUsize, Ordering};
use std::sync::{Arc, Mutex};

use model_launcher::launcher::capability::{
    BatchSize, ContextLength, CpuThreads, EngineCapabilities, GpuLayers, KvCacheType, LaunchSettings,
    ParallelSlots, SettingId,
};
use model_launcher::launcher::catalog::{CatalogIdentity, CatalogMetadata};
use model_launcher::launcher::lifecycle::{LifecycleSnapshot, LifecycleState};
use model_launcher::launcher::log::{LogFilter, LogLevel, LogRecord, LogSource, LogStore, LogStoreLimits};
use model_launcher::launcher::model::{LaunchProfile, ModelId, ModelKey, ModelRecord, ModelState};
use model_launcher::ui::dialog::{
    default_form, kv_choice, launch_settings, load_dialog_fields_for, load_dialog_values_for, load_request,
    load_request_for, prepare_load, ClearMarks, LaunchForm,
};
use model_launcher::ui::logs::{chosen_filter, log_line, log_text, queried_filter, LogCommands};
use model_launcher::ui::notice::{
    CloseNotice, CloseNoticeStore, EngineSettings, RecentModels, SaveSettings, TokenReveal, wiped,
};
use model_launcher::ui::sizes::{format_bytes, format_short_size};
use model_launcher::ui::tray::{build_menu, map_command, recent_entry, TrayCommand, TrayController};
use model_launcher::ui::view_model::{
    active_model, display_rows, recent_labels, AppSnapshot, MetadataVisibility, ModelAction, ViewModel,
};

fn model(name: &str, size: u64) -> ModelRecord {
    ModelRecord {
        id: ModelId::new(),
        key: ModelKey::parse(name.to_ascii_lowercase().replace(' ', "-")).unwrap(),
        display_name: name.into(),
        path: format!("/models/{name}.gguf"),
        file_identity: CatalogIdentity::default(),
        size_bytes: size,
        metadata: CatalogMetadata::default(),
        state: ModelState::Available,
        launch_profile: LaunchProfile::default(),
    }
}

#[test]
fn snapshot_maps_to_compact_rows_and_prioritizes_narrow_metadata() {
    let alpha = model("Alpha", 2_147_483_648);
    let snapshot = AppSnapshot {
        models: vec![alpha.clone()],
        recent_models: vec![],
        lifecycle: LifecycleSnapshot::default(),
        capabilities: EngineCapabilities::default(),
        authentication_status: String::new(),
        server_warning: String::new(),
        engine_valid: true,
        engine_diagnostic: None,
    };
    let vm = ViewModel::from_snapshot(snapshot);
    assert_eq!(vm.rows()[0].name, "Alpha");
    assert_eq!(vm.rows()[0].size, "2.0 GB");
    assert_eq!(
        vm.metadata_visibility(900),
        MetadataVisibility {
            size: true,
            path: true
        }
    );
    assert_eq!(
        vm.metadata_visibility(560),
        MetadataVisibility {
            size: true,
            path: false
        }
    );
    assert_eq!(
        vm.metadata_visibility(420),
        MetadataVisibility {
            size: false,
            path: false
        }
    );
}

#[test]
fn model_search_matches_name_key_and_path_case_insensitively() {
    let mut alpha = model("Alpha Chat", 1);
    alpha.key = ModelKey::parse("team/assistant".to_owned()).unwrap();
    alpha.path = "/models/Research/alpha.gguf".to_owned();
    let beta = model("Beta", 1);
    let vm = ViewModel::from_snapshot(AppSnapshot {
        models: vec![alpha.clone(), beta],
        recent_models: vec![],
        lifecycle: LifecycleSnapshot::default(),
        capabilities: EngineCapabilities::default(),
        authentication_status: String::new(),
        server_warning: String::new(),
        engine_valid: true,
        engine_diagnostic: None,
    });

    assert_eq!(vm.filtered_rows("CHAT")[0].id, alpha.id);
    assert_eq!(vm.filtered_rows("assistant")[0].id, alpha.id);
    assert_eq!(vm.filtered_rows("research")[0].id, alpha.id);
    assert!(vm.filtered_rows("missing").is_empty());
}

#[test]
fn busy_disables_other_load_with_explanation_but_keeps_eject_enabled() {
    let active = model("Active", 1);
    let other = model("Other", 1);
    let lifecycle = LifecycleSnapshot {
        state: LifecycleState::Running,
        desired_model: Some(active.id),
        in_flight: 2,
        ..LifecycleSnapshot::default()
    };
    let vm = ViewModel::from_snapshot(AppSnapshot {
        models: vec![active.clone(), other.clone()],
        recent_models: vec![],
        lifecycle,
        capabilities: EngineCapabilities::default(),
        authentication_status: String::new(),
        server_warning: String::new(),
        engine_valid: true,
        engine_diagnostic: None,
    });
    assert_eq!(
        vm.action(other.id),
        ModelAction::Disabled("Finish active requests or eject the current model first.".into())
    );
    assert_eq!(vm.action(active.id), ModelAction::Eject);
}

#[test]
fn invalid_engine_disables_load_with_probe_diagnostic() {
    let alpha = model("Alpha", 1);
    let vm = ViewModel::from_snapshot(AppSnapshot {
        models: vec![alpha.clone()],
        recent_models: vec![],
        lifecycle: LifecycleSnapshot::default(),
        capabilities: EngineCapabilities::default(),
        authentication_status: String::new(),
        server_warning: String::new(),
        engine_valid: false,
        engine_diagnostic: Some("safe probe diagnostic".into()),
    });
    assert_eq!(
        vm.action(alpha.id),
        ModelAction::Disabled("safe probe diagnostic".into())
    );
}

#[test]
fn capability_visibility_retains_and_reports_unsupported_values() {
    let settings = LaunchSettings {
        gpu_layers: Some(GpuLayers::new(20)),
        ..Default::default()
    };
    let caps = EngineCapabilities {
        context_length: true,
        ..Default::default()
    };
    let fields = ViewModel::setting_fields(&settings, &caps);
    assert!(
        fields
            .iter()
            .any(|field| field.id == "context_length" && field.visible)
    );
    assert!(
        fields
            .iter()
            .any(|field| field.id == "gpu_layers" && field.visible && field.retained_unsupported)
    );
    assert_eq!(settings.gpu_layers.unwrap().get(), 20);
}

#[test]
fn close_notice_and_plaintext_token_are_each_consumed_once() {
    let mut notice = CloseNotice::default();
    assert!(notice.take().is_some());
    assert!(notice.take().is_none());
    let mut token = TokenReveal::new("secret-token".to_owned());
    assert_eq!(token.expose(), Some("secret-token"));
    token.clear();
    assert_eq!(token.expose(), None);
    assert_eq!(wiped("t\u{f6}ken".to_owned()), [0; 6]);
    let mut token = TokenReveal::new("secret-token".to_owned());
    assert_eq!(token.take().as_deref(), Some("secret-token"));
    assert!(token.take().is_none());
    assert_eq!(token.describe(), "TokenReveal(None)");
    let token = TokenReveal::new("secret-token".to_owned());
    assert_eq!(token.describe(), "TokenReveal(Some(\"[REDACTED]\"))");
}

#[test]
fn close_notice_consumption_is_persisted() {
    let store = CloseNoticeStore::new("notice".to_owned());
    let mut notice = store.load(false);
    assert_eq!(store.save(&notice), None);
    assert!(notice.take().is_some());
    let written = store.save(&notice);
    assert_eq!(written, Some("shown"));
    assert!(store.load(written.is_some()).take().is_none());
}

#[test]
fn save_engine_settings_validates_identity_then_reprobes() {
    let order = Arc::new(Mutex::new(Vec::new()));
    let save = SaveSettings::new(
        {
            let order = order.clone();
            move |_: &EngineSettings| -> Result<(), String> {
                order.lock().unwrap().push("validate");
                Ok(())
            }
        },
        {
            let order = order.clone();
            move || -> Result<EngineCapabilities, String> {
                order.lock().unwrap().push("probe");
                Ok(EngineCapabilities::default())
            }
        },
    );
    save.run(&EngineSettings::default()).unwrap();
    assert_eq!(*order.lock().unwrap(), ["validate", "probe"]);
}

#[test]
fn an_engine_that_is_refused_is_not_probed() {
    let probed = Arc::new(AtomicUsize::new(0));
    let save = SaveSettings::new(|_: &EngineSettings| -> Result<(), String> { Err("no such engine".to_owned()) }, {
        let probed = probed.clone();
        move || -> Result<EngineCapabilities, String> {
            probed.fetch_add(1, Ordering::SeqCst);
            Ok(EngineCapabilities::default())
        }
    });
    assert_eq!(save.run(&EngineSettings::default()).err().as_deref(), Some("no such engine"));
    assert_eq!(probed.load(Ordering::SeqCst), 0);
}

#[test]
fn recent_models_are_most_recent_first_and_bounded() {
    let mut recent = RecentModels::new(2);
    let a = model("A", 1);
    let b = model("B", 1);
    let c = model("C", 1);
    recent.record(a.id);
    recent.record(b.id);
    recent.record(a.id);
    recent.record(c.id);
    assert_eq!(recent.ids(), &vec![c.id, a.id]);
}

#[test]
fn log_commands_use_bounded_filtered_redacted_snapshots() {
    let mut store = LogStore::new(LogStoreLimits::new(2, 4096, 4)).unwrap();
    for (level, message) in [
        (LogLevel::Info, "old"),
        (LogLevel::Warn, "Authorization: Bearer secret"),
        (LogLevel::Error, "boom"),
    ] {
        store.append(LogRecord {
            timestamp_ms: 1,
            source: LogSource::Application,
            level,
            generation: None,
            model_id: None,
            message: message.into(),
            truncated: false,
        });
    }
    let logs = LogCommands::new(store);
    assert_eq!(
        logs.snapshot(LogFilter {
            source: None,
            minimum_level: Some(LogLevel::Warn)
        })
        .len(),
        2
    );
    let copied = logs.copy_text(LogFilter {
        source: None,
        minimum_level: Some(LogLevel::Warn),
    });
    assert!(copied.contains("boom"));
    assert!(!copied.contains("old"));
    assert!(!copied.contains("secret"));
    let text = logs.export();
    assert!(!text.contains("secret"));
    assert!(!text.contains("old"));
}

#[test]
fn tray_maps_commands_without_opening_a_real_window_and_drops_windows() {
    let opened = Arc::new(AtomicUsize::new(0));
    let mut tray = TrayController::new({
        let opened = opened.clone();
        move || {
            opened.fetch_add(1, Ordering::SeqCst);
        }
    });
    assert_eq!(tray.map_command("open"), Some(TrayCommand::Open));
    let recent_id = ModelId::new();
    assert_eq!(
        tray.map_command(&format!("recent:{}", recent_id.to_string())),
        Some(TrayCommand::LoadRecent(recent_id))
    );
    assert_eq!(opened.load(Ordering::SeqCst), 0);
    assert!(!tray.dispatch(TrayCommand::Quit));
    assert_eq!(opened.load(Ordering::SeqCst), 0);
    assert!(tray.dispatch(TrayCommand::Open));
    assert_eq!(opened.load(Ordering::SeqCst), 1);
    for _ in 0..50 {
        tray.open_for_test();
        assert!(tray.has_window());
        tray.close_for_test();
        assert!(!tray.has_window());
    }
    assert_eq!(tray.live_window_count(), 0);
}

#[test]
fn tray_recent_request_resolves_stable_id_after_catalog_reordering() {
    let alpha = model("Alpha", 1);
    let beta = model("Beta", 1);
    let snapshot = AppSnapshot {
        models: vec![beta, alpha.clone()],
        recent_models: vec![alpha.clone()],
        lifecycle: LifecycleSnapshot::default(),
        capabilities: EngineCapabilities::default(),
        authentication_status: String::new(),
        server_warning: String::new(),
        engine_valid: true,
        engine_diagnostic: None,
    };

    let request = load_request_for(&snapshot, alpha.id).unwrap();
    assert_eq!(request.id, alpha.id);
    assert_eq!(request.key, alpha.key.to_string());
}

#[test]
fn load_dialog_adapter_hydrates_every_saved_profile_value() {
    let mut alpha = model("Alpha", 1);
    alpha.launch_profile.settings = LaunchSettings {
        context_length: Some(ContextLength::new(8192).unwrap()),
        gpu_layers: Some(GpuLayers::new(31)),
        cpu_threads: Some(CpuThreads::new(9).unwrap()),
        batch_size: Some(BatchSize::new(777).unwrap()),
        parallel_slots: Some(ParallelSlots::new(3).unwrap()),
        flash_attention: Some(true),
        kv_cache_type: Some(KvCacheType::Q8_0),
        ..LaunchSettings::default()
    };
    let snapshot = AppSnapshot {
        models: vec![alpha.clone()],
        recent_models: vec![],
        lifecycle: LifecycleSnapshot::default(),
        capabilities: EngineCapabilities::default(),
        authentication_status: String::new(),
        server_warning: String::new(),
        engine_valid: true,
        engine_diagnostic: None,
    };

    let values = load_dialog_values_for(&snapshot, alpha.id).unwrap();
    assert_eq!(values.key, alpha.key.to_string());
    assert_eq!(values.settings.context_length, alpha.launch_profile.settings.context_length);
    assert_eq!(values.settings.gpu_layers, alpha.launch_profile.settings.gpu_layers);
    assert_eq!(values.settings.cpu_threads, alpha.launch_profile.settings.cpu_threads);
    assert_eq!(values.settings.batch_size, alpha.launch_profile.settings.batch_size);
    assert_eq!(values.settings.parallel_slots, alpha.launch_profile.settings.parallel_slots);
    assert_eq!(values.settings.flash_attention, alpha.launch_profile.settings.flash_attention);
    assert_eq!(values.settings.kv_cache_type, alpha.launch_profile.settings.kv_cache_type);
}

#[test]
fn load_dialog_adapter_keeps_unsupported_saved_fields_visible_and_read_only() {
    let mut alpha = model("Alpha", 1);
    alpha.launch_profile.settings.gpu_layers = Some(GpuLayers::new(23));
    let snapshot = AppSnapshot {
        models: vec![alpha.clone()],
        recent_models: vec![],
        lifecycle: LifecycleSnapshot::default(),
        capabilities: EngineCapabilities {
            context_length: true,
            ..EngineCapabilities::default()
        },
        authentication_status: String::new(),
        server_warning: String::new(),
        engine_valid: true,
        engine_diagnostic: None,
    };

    let gpu = load_dialog_fields_for(&snapshot, alpha.id)
        .unwrap()
        .into_iter()
        .find(|field| field.id == "gpu_layers")
        .unwrap();
    assert!(gpu.visible);
    assert!(gpu.retained_unsupported);
    assert_eq!(
        alpha
            .launch_profile
            .settings
            .render(&snapshot.capabilities)
            .unsupported,
        vec![SettingId::GpuLayers]
    );
}

fn snapshot_of(models: Vec<ModelRecord>) -> AppSnapshot {
    AppSnapshot {
        models,
        recent_models: vec![],
        lifecycle: LifecycleSnapshot::default(),
        capabilities: EngineCapabilities::default(),
        authentication_status: String::new(),
        server_warning: String::new(),
        engine_valid: true,
        engine_diagnostic: None,
    }
}

#[test]
fn sizes_are_rounded_like_doubles() {
    assert_eq!(format_bytes(0), "0.0 GB");
    assert_eq!(format_bytes(1_610_612_736), "1.5 GB");
    assert_eq!(format_bytes(53_687_091), "0.0 GB");
    assert_eq!(format_bytes(53_687_092), "0.1 GB");
    assert_eq!(format_bytes(268_435_456), "0.2 GB");
    assert_eq!(format_bytes(805_306_368), "0.8 GB");
    assert_eq!(format_bytes(u64::MAX), "17179869184.0 GB");
    assert_eq!(format_short_size(1_073_741_823), "1024 MB");
    assert_eq!(format_short_size(1_073_741_824), "1.0 GB");
    assert_eq!(format_short_size(524_288), "0 MB");
    assert_eq!(format_short_size(1_572_864), "2 MB");
    for bytes in [1u64, 999_999, 17_000_000_000, 1 << 53, (1 << 53) + 1, u64::MAX - 1_025, 7_777_777_777_777_777_777] {
        assert_eq!(format_bytes(bytes), format!("{:.1} GB", bytes as f64 / 1_073_741_824.0));
    }
}

#[test]
fn rows_show_the_engine_for_the_wanted_model_and_availability_else() {
    let active = model("Active", 1);
    let mut broken = model("Broken", 1);
    broken.state = ModelState::Unlaunchable { reason: "no \"tensors\"".to_owned() };
    let mut snapshot = snapshot_of(vec![active.clone(), broken]);
    snapshot.lifecycle.state = LifecycleState::Backoff;
    snapshot.lifecycle.desired_model = Some(active.id);
    assert_eq!(active_model(&snapshot).as_deref(), Some("Active"));
    let view_model = ViewModel::from_snapshot(snapshot);
    assert_eq!(view_model.rows()[0].status, "Backoff");
    assert_eq!(view_model.rows()[1].status, "Unlaunchable { reason: \"no \\\"tensors\\\"\" }");
    let drawn = display_rows(&view_model, " active ");
    assert_eq!(drawn.len(), 1);
    assert_eq!(drawn[0].action, "Eject");
    assert!(drawn[0].action_enabled);
    assert_eq!(drawn[0].id, active.id.to_string());
    assert_eq!(display_rows(&view_model, "  ").len(), 2);
}

#[test]
fn search_ignores_the_case_of_any_letter() {
    let view_model = ViewModel::from_snapshot(snapshot_of(vec![{
        let mut model = model("Stra", 1);
        model.display_name = "\u{c9}TUDE".to_owned();
        model
    }]));
    assert_eq!(view_model.filtered_rows("\u{e9}tude").len(), 1);
    assert_eq!(view_model.filtered_rows("etude").len(), 0);
}

#[test]
fn forms_show_defaults_and_raise_what_is_too_small() {
    let form = default_form(&LaunchSettings::default());
    assert_eq!(
        form,
        LaunchForm {
            context: 4096,
            gpu: 0,
            threads: 0,
            batch: 512,
            parallel: 1,
            flash: false,
            kv: KvCacheType::F16,
        }
    );
    let settings = launch_settings(LaunchForm {
        context: -5,
        gpu: -1,
        threads: 0,
        batch: 0,
        parallel: 2,
        flash: true,
        kv: kv_choice("q4_0"),
    });
    assert_eq!(settings.context_length.unwrap().get(), 1);
    assert_eq!(settings.gpu_layers.unwrap().get(), 0);
    assert!(settings.cpu_threads.is_none());
    assert_eq!(settings.batch_size.unwrap().get(), 1);
    assert_eq!(settings.parallel_slots.unwrap().get(), 2);
    assert_eq!(settings.flash_attention, Some(true));
    assert_eq!(settings.kv_cache_type, Some(KvCacheType::Q4_0));
    assert_eq!(kv_choice("other"), KvCacheType::F16);
    assert_eq!(kv_choice("q8_0"), KvCacheType::Q8_0);
}

#[test]
fn a_dialog_left_alone_gives_back_what_was_saved() {
    let mut alpha = model("Alpha", 1);
    alpha.launch_profile.settings.context_length = Some(ContextLength::new(u32::MAX).unwrap());
    alpha.launch_profile.settings.gpu_layers = Some(GpuLayers::new(31));
    let snapshot = snapshot_of(vec![alpha.clone()]);
    let raw = alpha.id.to_string();
    let dialog = prepare_load(&snapshot, &raw).unwrap();
    assert_eq!(dialog.form.context, -1);
    assert_eq!(dialog.form.threads, 1);
    assert_eq!(dialog.clears, ClearMarks::default());
    assert_eq!(dialog.fields.len(), 7);
    let request = load_request(&raw, dialog.key, dialog.form, dialog.clears).unwrap();
    assert_eq!(request.id, alpha.id);
    assert_eq!(request.settings.context_length.unwrap().get(), u32::MAX);
    assert_eq!(request.settings.gpu_layers.unwrap().get(), 31);
    let cleared = load_request(&raw, String::new(), dialog.form, ClearMarks { gpu: true, ..ClearMarks::default() });
    assert!(cleared.unwrap().settings.gpu_layers.is_none());
    assert!(prepare_load(&snapshot, "nobody").is_none());
    assert!(prepare_load(&snapshot, &ModelId::new().to_string()).is_none());
    assert!(load_request("nobody", String::new(), dialog.form, dialog.clears).is_none());
}

#[test]
fn words_choose_a_filter() {
    let filter = chosen_filter("Engine stderr", "Warn");
    assert_eq!(filter.source, Some(LogSource::EngineStderr));
    assert_eq!(filter.minimum_level, Some(LogLevel::Warn));
    assert_eq!(chosen_filter("All", "All").source, None);
    let filter = queried_filter(Some("engine_stdout"), Some("trace"));
    assert_eq!(filter.source, Some(LogSource::EngineStdout));
    assert_eq!(filter.minimum_level, Some(LogLevel::Trace));
    assert_eq!(queried_filter(None, Some("loud")).minimum_level, None);
}

#[test]
fn records_are_copied_as_lines() {
    let record = |message: &str| LogRecord {
        timestamp_ms: 12,
        source: LogSource::EngineStdout,
        level: LogLevel::Debug,
        generation: None,
        model_id: None,
        message: message.to_owned(),
        truncated: false,
    };
    assert_eq!(log_line(&record("a")), "12 EngineStdout Debug  a");
    assert_eq!(
        log_text(&vec![record("a"), record("b")]),
        "12 EngineStdout Debug  a\n12 EngineStdout Debug  b"
    );
    assert_eq!(log_text(&vec![]), "");
}

#[test]
fn entries_of_the_menu_lead_back_to_their_models() {
    let id = ModelId::new();
    assert_eq!(map_command(&recent_entry(id)), Some(TrayCommand::LoadRecent(id)));
    assert_eq!(map_command("recent:recent:nobody"), None);
    assert_eq!(map_command(&format!("recent:{}", recent_entry(id))), Some(TrayCommand::LoadRecent(id)));
    assert_eq!(map_command("quit"), Some(TrayCommand::Quit));
    assert_eq!(map_command("eject"), Some(TrayCommand::Eject));
    assert_eq!(map_command(""), None);
    let models: Vec<ModelRecord> = (0..9).map(|index| model(&format!("Model{index}"), 1)).collect();
    let menu = build_menu("Running", Some("Model0"), &recent_labels(&models));
    assert_eq!(menu.tooltip, "Model Launcher \u{2014} Running");
    assert_eq!(menu.active, "Model0");
    assert!(menu.eject_enabled && menu.recent_enabled);
    assert_eq!(menu.recent.len(), 8);
    assert_eq!(menu.recent[7].label, "Model7");
    let menu = build_menu("Stopped", None, &vec![]);
    assert_eq!(menu.active, "No model loaded");
    assert!(!menu.eject_enabled && !menu.recent_enabled);
}

#[test]
fn an_engine_that_is_not_valid_is_not_asked() {
    let save = SaveSettings::new(
        |_: &EngineSettings| -> Result<(), String> { Err("no such distribution".to_owned()) },
        || -> Result<EngineCapabilities, String> { unreachable!() },
    );
    assert_eq!(save.run(&EngineSettings::default()).unwrap_err(), "no such distribution");
}
