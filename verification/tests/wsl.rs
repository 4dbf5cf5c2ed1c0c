//! The engine inside a distribution: paths, probes, commands and their outcomes.

use model_launcher::launcher::capability::{EngineCapabilities, GpuLayers, LaunchSettings, SpeculativeType};
use model_launcher::launcher::catalog::{CatalogIdentity, CatalogMetadata};
use model_launcher::launcher::error::AppError;
use model_launcher::launcher::log::{LogLevel, LogStore, LogStoreLimits};
use model_launcher::launcher::model::{LaunchProfile, ModelId, ModelKey, ModelRecord, ModelState};
use model_launcher::launcher::path_order::PathStyle;
use model_launcher::wsl::engine::{
    after_endpoint_check, after_exit_check, after_health_check, after_health_poll, after_kill, after_kill_wait, after_owner_check,
    after_term, after_term_wait, app_error, append_bounded_tail, classify_pre_ready_exit, cleanup_failure,
    complete_probe, endpoint_owned, endpoint_owner_argv, establish_pid, handshake_line, health_ready,
    identity_from_output, internal_port, is_address_in_use, launch_args, model_launch_path, needs_kill,
    prepare_launch_settings, ready_step, retry_args, reusable_snapshot, signal_result, snapshot_temporary_name,
    ss_output_owns_pid, supported_args, uses_stdin_script, validate_launch, CleanupObserver, CommandOutput,
    LlamaCppWslEngine, PollStep, ProbeRefreshError, ReadyStep, StopStep, WslError, STDERR_TAIL_LIMIT,
};
use model_launcher::wsl::path::windows_to_wsl_path;
use model_launcher::wsl::probe::{
    capabilities_from_help, capture_version, parse_identity, probe_argv, stat_argv, ExecutableIdentity,
    ProbeSnapshot,
};
use model_launcher::wsl::process::{
    guarded_signal_argv, launch_argv, parse_ownership_handshake, parse_pid_control_line, signal_argv, OwnedPid,
    Signal, LAUNCH_SCRIPT, LAUNCH_SENTINEL, SIGNAL_SENTINEL,
};

fn strings(values: &[&str]) -> Vec<String> {
    values.iter().map(|value| (*value).to_owned()).collect()
}

fn printed(stdout: &str) -> CommandOutput {
    CommandOutput { success: true, stdout: stdout.to_owned(), stderr: String::new() }
}

fn failed(stderr: &str) -> CommandOutput {
    CommandOutput { success: false, stdout: String::new(), stderr: stderr.to_owned() }
}

fn model_with_path(path: &str) -> ModelRecord {
    ModelRecord {
        id: ModelId::new(),
        key: ModelKey::parse("target".to_owned()).unwrap(),
        display_name: "Target".to_owned(),
        path: path.to_owned(),
        file_identity: CatalogIdentity::Unavailable,
        size_bytes: 1,
        metadata: CatalogMetadata::default(),
        state: ModelState::Available,
        launch_profile: LaunchProfile::default(),
    }
}

#[test]
fn converts_drive_paths_preserving_spaces_unicode_and_normalizing_case() {
    assert_eq!(
        windows_to_wsl_path(r#"c:\Models\有 空格\m.gguf"#).unwrap(),
        "/mnt/c/Models/有 空格/m.gguf"
    );
    assert_eq!(windows_to_wsl_path(r#"Z:/Models/m.gguf"#).unwrap(), "/mnt/z/Models/m.gguf");
}

#[test]
fn rejects_relative_unc_traversal_and_invalid_roots() {
    for value in [
        "model.gguf",
        r#"\\server\share\m.gguf"#,
        r#"C:\Models\..\m.gguf"#,
        r#"1:\m.gguf"#,
        r#"C:relative"#,
    ] {
        assert!(windows_to_wsl_path(value).is_err(), "accepted {value:?}");
    }
}

#[test]
fn rejects_ads_reserved_dos_names_and_trailing_dot_or_space() {
    for value in [
        r#"C:\models\file.gguf:stream"#,
        r#"C:\CON"#,
        r#"C:\con.txt"#,
        r#"C:\aux.GGUF"#,
        r#"C:\COM9.bin"#,
        r#"C:\lpt1"#,
        r#"C:\model. "#,
        r#"C:\model."#,
    ] {
        assert!(windows_to_wsl_path(value).is_err(), "accepted {value:?}");
    }
}

#[test]
fn refused_paths_tell_why() {
    assert_eq!(
        windows_to_wsl_path(r"C:\a\..\b").unwrap_err().to_string(),
        "path traversal is not allowed"
    );
    assert_eq!(
        windows_to_wsl_path("/a/b").unwrap_err().to_string(),
        "path must be an absolute Windows drive path"
    );
}

#[test]
fn probes_use_direct_argv_and_capture_version_and_known_help_aliases() {
    assert_eq!(
        probe_argv("Ubuntu 24.04", "/opt/llama server", "--version"),
        vec!["-d", "Ubuntu 24.04", "--", "/opt/llama server", "--version"]
    );
    let caps = capabilities_from_help(
        "--ctx-size --n-gpu-layers --threads --batch-size --parallel --flash-attn --cache-type-k --cache-type-v --spec-type --spec-draft-model",
    );
    assert!(
        caps.context_length
            && caps.gpu_layers
            && caps.cpu_threads
            && caps.batch_size
            && caps.parallel_slots
            && caps.flash_attention
            && caps.kv_cache_type
            && caps.speculative_type
            && caps.draft_model
    );
    assert!(capabilities_from_help("--model-draft").draft_model);
    assert!(!capabilities_from_help("--unknown").context_length);
    assert_eq!(capture_version("llama-server version 4123\n"), "llama-server version 4123");
}

#[test]
fn stat_command_is_structured_and_snapshot_round_trips() {
    assert_eq!(
        stat_argv("Distro", "/opt/llama"),
        vec!["-d", "Distro", "--", "stat", "-Lc", "%d\t%i\t%s\t%Y", "--", "/opt/llama"]
    );
    let identity = parse_identity("12\t34\t56\t78\n").unwrap();
    assert_eq!(identity, ExecutableIdentity { device: 12, inode: 34, size: 56, modified_seconds: 78 });
    let snapshot = ProbeSnapshot::new(
        "Distro".to_owned(),
        "/opt/llama".to_owned(),
        identity,
        "v1\n".to_owned(),
        "--ctx-size\n".to_owned(),
        17,
    );
    assert_eq!(snapshot.clone(), snapshot);
    assert!(snapshot.capabilities.context_length);
    assert_eq!(snapshot.probed_at, 17);
    assert_eq!(parse_identity("12\t34\t56\t-78").unwrap().modified_seconds, -78);
    assert_eq!(parse_identity("12\t34\t56").unwrap_err().to_string(), "invalid stat output");
}

#[test]
fn cache_requires_distribution_path_and_identity_match() {
    let id = ExecutableIdentity { device: 1, inode: 2, size: 3, modified_seconds: 4 };
    let snapshot = ProbeSnapshot::new(
        "Ubuntu".to_owned(),
        "/bin/llama".to_owned(),
        id,
        "v1".to_owned(),
        "--ctx-size".to_owned(),
        0,
    );
    assert!(snapshot.is_valid_for("Ubuntu", "/bin/llama", &id));
    assert!(!snapshot.is_valid_for("ubuntu", "/bin/llama", &id));
    let mut changed = id;
    changed.size += 1;
    assert!(!snapshot.is_valid_for("Ubuntu", "/bin/llama", &changed));
    for changed in [
        ExecutableIdentity { device: 9, ..id },
        ExecutableIdentity { inode: 9, ..id },
        ExecutableIdentity { size: 9, ..id },
        ExecutableIdentity { modified_seconds: 9, ..id },
    ] {
        assert!(!snapshot.is_valid_for("Ubuntu", "/bin/llama", &changed));
    }
}

#[test]
fn launch_uses_fixed_script_and_positional_arguments() {
    let argv = launch_argv(
        "Ubuntu",
        "/opt/llama server",
        "/mnt/c/a;echo bad.gguf",
        &strings(&["--ctx-size", "4096"]),
    );
    assert_eq!(&argv[..7], &["-d", "Ubuntu", "--", "sh", "-c", LAUNCH_SCRIPT, LAUNCH_SENTINEL]);
    assert_eq!(&argv[7..], &["/opt/llama server", "/mnt/c/a;echo bad.gguf", "--ctx-size", "4096"]);
    assert_eq!(LAUNCH_SCRIPT, "printf 'MODEL_LAUNCHER_PID=%s\\n' \"$$\"; exec \"$@\"");
}

#[test]
fn parses_only_exact_control_line_and_structured_stop() {
    assert_eq!(parse_pid_control_line("MODEL_LAUNCHER_PID=42\n").unwrap(), 42);
    for bad in [
        "MODEL_LAUNCHER_PID=0\n",
        " MODEL_LAUNCHER_PID=42\n",
        "MODEL_LAUNCHER_PID=42 x\n",
        "42\n",
    ] {
        assert!(parse_pid_control_line(bad).is_err());
    }
    assert_eq!(
        signal_argv("Ubuntu", 42, Signal::Term),
        vec!["-d", "Ubuntu", "--", "kill", "-TERM", "--", "42"]
    );
    assert_eq!(
        signal_argv("Ubuntu", 42, Signal::Kill),
        vec!["-d", "Ubuntu", "--", "kill", "-KILL", "--", "42"]
    );
}

#[test]
fn the_handshake_names_the_process_and_its_start() {
    let owned = OwnedPid { pid: 42, start_time: 1234 };
    let lines = "MODEL_LAUNCHER_PID=42\nMODEL_LAUNCHER_START_TIME=1234\n";
    assert_eq!(parse_ownership_handshake(lines).unwrap(), owned);
    assert_eq!(
        parse_ownership_handshake("MODEL_LAUNCHER_PID=42\n").unwrap_err().to_string(),
        "invalid PID control line"
    );
    assert_eq!(
        guarded_signal_argv("Ubuntu", owned, Signal::Kill),
        vec!["-d", "Ubuntu", "--", "sh", "-s", SIGNAL_SENTINEL, "KILL", "42", "1234"]
    );
    assert!(uses_stdin_script(&guarded_signal_argv("Ubuntu", owned, Signal::Term), SIGNAL_SENTINEL));
    assert!(!uses_stdin_script(&signal_argv("Ubuntu", 42, Signal::Term), SIGNAL_SENTINEL));
    assert_eq!(establish_pid(Ok(lines.to_owned())).unwrap(), owned);
    assert!(establish_pid(Ok("spoof MODEL_LAUNCHER_PID=42\n".to_owned())).is_err());
    assert_eq!(
        establish_pid(Err(WslError::SpawnUnsupported)).unwrap_err().to_string(),
        "process spawning is unsupported by this runner"
    );
}

#[test]
fn ownership_probe_is_structured_and_pid_match_is_exact() {
    assert_eq!(
        endpoint_owner_argv("Ubuntu Space", 3210),
        ["-d", "Ubuntu Space", "--", "ss", "-H", "-ltnp", "sport", "=", ":3210"]
    );
    assert!(ss_output_owns_pid("users:((\"llama\",pid=42,fd=3))", 42));
    assert!(!ss_output_owns_pid("users:((\"other\",pid=142,fd=3))", 42));
    assert!(endpoint_owned(&printed("pid=42,"), 42).unwrap());
    assert!(!endpoint_owned(&printed(""), 42).unwrap());
    assert_eq!(endpoint_owned(&failed("no ss"), 42).unwrap_err().to_string(), "command failed: no ss");
}

#[test]
fn internal_retry_arguments_do_not_contain_or_mutate_a_public_gateway_port() {
    let public_gateway_port = 1234_u16;
    let argv = launch_argv("Ubuntu", "/llama", "/model", &strings(&["--port", "45001"]));
    assert_eq!(public_gateway_port, 1234);
    assert!(!argv.iter().any(|value| value == &public_gateway_port.to_string()));
    let args = launch_args(45001, &strings(&["--ctx-size", "45001"]));
    assert_eq!(args, ["--host", "127.0.0.1", "--port", "45001", "--ctx-size", "45001"]);
    let retried = retry_args(&args, 45002);
    assert_eq!(retried, ["--host", "127.0.0.1", "--port", "45002", "--ctx-size", "45001"]);
    assert_eq!(internal_port(&retried).unwrap(), 45002);
    assert_eq!(
        internal_port(&strings(&["--port"])).unwrap_err().to_string(),
        "command failed: missing internal port"
    );
}

#[test]
fn dflash_requires_a_separate_draft_model() {
    let target = model_with_path(r"C:\models\target.gguf");
    let missing = LaunchSettings {
        speculative_type: Some(SpeculativeType::DraftDflash),
        ..LaunchSettings::default()
    };
    let unrelated = LaunchSettings {
        draft_model: Some(r"C:\models\draft.gguf".to_owned()),
        ..LaunchSettings::default()
    };
    assert!(matches!(
        prepare_launch_settings(&target, &missing, true, PathStyle::Windows),
        Err(AppError::InvalidSetting("draft_model"))
    ));
    assert!(matches!(
        prepare_launch_settings(&target, &unrelated, true, PathStyle::Windows),
        Err(AppError::InvalidSetting("draft_model"))
    ));
}

#[test]
fn dflash_draft_path_is_validated_and_translated_for_wsl() {
    let settings = LaunchSettings {
        speculative_type: Some(SpeculativeType::DraftDflash),
        draft_model: Some(r"C:\models\draft.gguf".to_owned()),
        ..LaunchSettings::default()
    };
    let target = model_with_path(r"C:\models\target.gguf");
    let prepared = prepare_launch_settings(&target, &settings, true, PathStyle::Windows).unwrap();
    assert!(prepared.draft_model.unwrap().starts_with("/mnt/"));
    assert!(prepare_launch_settings(&target, &settings, false, PathStyle::Windows).is_err());
    assert_eq!(
        validate_launch(&target, &settings, true, PathStyle::Windows).unwrap().draft_model.as_deref(),
        Some("/mnt/c/models/draft.gguf")
    );
    assert_eq!(model_launch_path(&target).unwrap(), "/mnt/c/models/target.gguf");
    assert_eq!(
        validate_launch(&model_with_path("target.gguf"), &settings, true, PathStyle::Windows).unwrap_err().code(),
        "engine_process"
    );
}

#[test]
fn a_model_is_not_its_own_draft_however_its_path_is_written() {
    let target = model_with_path(r"C:\models\target.gguf");
    let with_draft = |path: &str| LaunchSettings {
        speculative_type: Some(SpeculativeType::DraftDflash),
        draft_model: Some(path.to_owned()),
        ..LaunchSettings::default()
    };
    for path in [r"C:\models\target.gguf", "C:/models/target.gguf", r"c:\models\\target.gguf"] {
        assert!(matches!(
            prepare_launch_settings(&target, &with_draft(path), true, PathStyle::Windows),
            Err(AppError::InvalidSetting("draft_model"))
        ));
    }
    assert!(prepare_launch_settings(&target, &with_draft(r"D:\models\target.gguf"), true, PathStyle::Windows).is_ok());
    let slashed = with_draft("C:/models/target.gguf");
    assert!(prepare_launch_settings(&target, &slashed, true, PathStyle::Unix).is_ok());
    let doubled = with_draft("C:/models//target.gguf");
    let target = model_with_path("C:/models/target.gguf");
    assert!(prepare_launch_settings(&target, &doubled, true, PathStyle::Unix).is_err());
}

#[test]
fn only_understood_settings_are_launched() {
    let settings = LaunchSettings { gpu_layers: Some(GpuLayers::new(5)), ..LaunchSettings::default() };
    let caps = EngineCapabilities { gpu_layers: true, ..EngineCapabilities::default() };
    assert_eq!(supported_args(&settings, &caps).unwrap(), ["--gpu-layers", "5"]);
    assert_eq!(supported_args(&settings, &EngineCapabilities::default()).unwrap_err().code(), "invalid_setting");
}

#[test]
fn prober_revalidates_identity_and_reuses_only_valid_snapshot() {
    let identity = identity_from_output(&printed("1\t2\t3\t4\n")).unwrap();
    assert!(reusable_snapshot(None, "Ubuntu", "/llama", &identity).is_none());
    let snapshot = complete_probe(
        "Ubuntu",
        "/llama",
        identity,
        printed("llama v1\n"),
        printed("--ctx-size --threads\n"),
        5,
    )
    .unwrap();
    assert!(snapshot.capabilities.cpu_threads);
    assert_eq!(
        reusable_snapshot(Some(snapshot.clone()), "Ubuntu", "/llama", &identity),
        Some(snapshot.clone())
    );
    assert!(reusable_snapshot(Some(snapshot.clone()), "Debian", "/llama", &identity).is_none());
    assert_eq!(LlamaCppWslEngine::spec_from(&snapshot).version, "llama v1");
    assert!(identity_from_output(&failed("no such file")).is_err());
}

#[test]
fn a_probe_that_fails_tells_which_command() {
    let identity = ExecutableIdentity { device: 1, inode: 2, size: 3, modified_seconds: 4 };
    let error = complete_probe("Ubuntu", "/llama", identity, printed("v1"), failed("help failed"), 5).unwrap_err();
    assert_eq!(error.to_string(), "command failed: help failed");
    let error = complete_probe("Ubuntu", "/llama", identity, failed("version failed"), failed("help failed"), 5)
        .unwrap_err();
    assert_eq!(error.to_string(), "command failed: version failed");
    assert_eq!(
        ProbeRefreshError { source: error, prior: None }.to_string(),
        "probe refresh failed: command failed: version failed"
    );
    assert_eq!(snapshot_temporary_name("probe.json", 12, 3), ".probe.json.12.3.tmp");
}

#[test]
fn classifies_only_known_address_in_use_diagnostics() {
    for diagnostic in [
        "bind: Address already in use",
        "listen failed: EADDRINUSE",
        "listener: ADDRESS ALREADY IN USE",
    ] {
        assert!(is_address_in_use(diagnostic.as_bytes()));
    }
    assert!(!is_address_in_use(b"engine exited: invalid model"));
    assert!(!is_address_in_use(b"config value = 'address already in use'"));
    assert!(!is_address_in_use(b"model metadata mentions EADDRINUSE"));
    assert!(!is_address_in_use(b"/models/socket/address already in use/x"));
    assert!(!is_address_in_use(b"config listen_path='address already in use'"));
    assert!(is_address_in_use(b"2026-01-01T00:00:00Z server: failed to bind listener: EADDRINUSE"));
}

#[test]
fn an_early_exit_is_a_stolen_port_or_an_error() {
    assert!(matches!(
        classify_pre_ready_exit("exit code: 1", b"bind: Address already in use"),
        WslError::AddressInUse
    ));
    assert_eq!(
        classify_pre_ready_exit("exit code: 1", b"bad \xff model").to_string(),
        "command failed: engine exited before readiness: exit code: 1: bad \u{fffd} model"
    );
}

#[test]
fn three_stolen_ports_exhaust_the_attempts() {
    assert_eq!(ready_step(1, &Ok(())), ReadyStep::Done);
    assert_eq!(ready_step(1, &Err(WslError::AddressInUse)), ReadyStep::Retry);
    assert_eq!(ready_step(2, &Err(WslError::NonOwnedEndpoint)), ReadyStep::Retry);
    assert_eq!(ready_step(3, &Err(WslError::AddressInUse)), ReadyStep::Fail);
    assert_eq!(ready_step(1, &Err(WslError::SpawnUnsupported)), ReadyStep::Fail);
}

#[test]
fn the_kept_end_of_a_stream_does_not_depend_on_its_chunks() {
    let bytes: Vec<u8> = (0..40_000usize).map(|index| (index % 251) as u8).collect();
    let mut whole = Vec::new();
    append_bounded_tail(&mut whole, &bytes);
    let mut chunked = Vec::new();
    for chunk in bytes.chunks(777) {
        append_bounded_tail(&mut chunked, chunk);
    }
    assert_eq!(whole.len(), STDERR_TAIL_LIMIT);
    assert_eq!(whole, chunked);
    assert_eq!(&whole[..], &bytes[bytes.len() - STDERR_TAIL_LIMIT..]);
}

#[test]
fn an_engine_is_ready_on_success_alone() {
    assert!(health_ready(b"HTTP/1.1 200 OK\r\n\r\n"));
    assert!(health_ready(b"HTTP/1.0 200 OK\r\n\r\n"));
    assert!(!health_ready(b"HTTP/1.1 503 Service Unavailable\r\n\r\n"));
    assert!(!health_ready(b"HTTP/2 200"));
    assert!(!health_ready(b""));
}

#[test]
fn a_stop_goes_from_asking_to_killing() {
    assert!(matches!(after_term(&Ok(printed(""))), StopStep::AwaitExit));
    assert!(matches!(after_term(&Ok(failed("gone"))), StopStep::SendKill));
    assert!(matches!(after_term(&Err(WslError::SpawnUnsupported)), StopStep::SendKill));
    assert!(matches!(after_term_wait(true), StopStep::CheckEndpoint));
    assert!(matches!(after_term_wait(false), StopStep::SendKill));
    assert!(matches!(after_kill(Ok(printed(""))), StopStep::AwaitKilled));
    assert!(matches!(after_kill(Ok(failed("denied"))), StopStep::Failed(WslError::Command(reason)) if reason == "denied"));
    assert!(matches!(after_kill_wait(Some(Ok(137))), StopStep::CheckEndpoint));
    assert!(matches!(
        after_kill_wait(None),
        StopStep::Failed(WslError::Command(reason)) if reason == "owned process did not exit"
    ));
    assert!(matches!(after_endpoint_check(false, true), StopStep::Stopped));
    assert!(matches!(after_endpoint_check(true, false), StopStep::CheckEndpoint));
    assert!(matches!(
        after_endpoint_check(true, true),
        StopStep::Failed(WslError::Command(reason)) if reason == "owned endpoint remained live"
    ));
    assert!(matches!(
        after_exit_check(true, true),
        StopStep::Failed(WslError::Command(reason)) if reason == "old endpoint remained live after process exit"
    ));
    assert!(signal_result(Ok(printed(""))).is_ok());
    assert_eq!(signal_result(Ok(failed("denied"))).unwrap_err().to_string(), "command failed: denied");
}

#[test]
fn drop_force_kills_only_when_the_child_may_still_run() {
    assert!(needs_kill(false, Some(true)));
    assert!(needs_kill(false, None));
    assert!(!needs_kill(false, Some(false)));
    assert!(!needs_kill(true, None));
}

#[test]
fn cleanup_thread_spawn_failure_is_observable_and_logged() {
    let mut logs = LogStore::new(LogStoreLimits::new(8, 4096, 2)).unwrap();
    let mut observer = CleanupObserver::default();
    let record = observer.finish(Some("injected spawn failure bearer secret".to_owned()), 9).unwrap();
    logs.append(record);
    assert_eq!(observer.completed(), 1);
    assert_eq!(observer.failures(), 1);
    let record = logs.snapshot().pop().unwrap();
    assert_eq!(record.level, LogLevel::Error);
    assert!(!record.message.contains("secret"), "LogStore must redact cleanup diagnostics");
    assert!(observer.finish(None, 10).is_none());
    assert_eq!(observer.completed(), 2);
    assert_eq!(observer.failures(), 1);
}

#[test]
fn a_cleanup_reports_the_last_thing_that_went_wrong() {
    assert_eq!(cleanup_failure(Ok(printed("")), None), None);
    assert_eq!(
        cleanup_failure(Ok(printed("")), Some((Ok(printed("")), false))).as_deref(),
        Some("owned child did not exit after KILL")
    );
    assert_eq!(cleanup_failure(Ok(printed("")), Some((Ok(printed("")), true))), None);
    assert!(cleanup_failure(Ok(failed("denied")), None).is_some());
}

#[test]
fn an_engine_takes_new_settings_and_errors_keep_their_reason() {
    let mut engine = LlamaCppWslEngine::new("Ubuntu".to_owned(), "/llama".to_owned());
    engine.apply_settings("Debian".to_owned(), "/opt/llama".to_owned());
    assert_eq!(engine.settings(), ("Debian".to_owned(), "/opt/llama".to_owned()));
    let error = app_error(&WslError::NonOwnedEndpoint);
    assert_eq!(error.code(), "engine_process");
    assert_eq!(error.source().unwrap(), "internal endpoint is not owned by the launched process");
}

#[test]
fn an_endpoint_counts_only_if_the_process_owns_it() {
    assert!(matches!(after_health_poll(Ok(true), true), PollStep::CheckOwner));
    assert!(matches!(after_health_poll(Ok(false), false), PollStep::Wait));
    assert!(matches!(
        after_health_poll(Ok(false), true),
        PollStep::Failed(WslError::Command(reason)) if reason == "readiness timed out"
    ));
    assert!(matches!(
        after_health_poll(Err(WslError::SpawnUnsupported), false),
        PollStep::Failed(WslError::SpawnUnsupported)
    ));
    assert!(matches!(after_health_check(Ok(true)), PollStep::CheckOwner));
    match after_health_check(Ok(false)) {
        PollStep::Failed(error) => assert_eq!(error.to_string(), "command failed: health endpoint is not ready"),
        step => panic!("{step:?}"),
    }
    assert!(after_owner_check(Ok(true)).is_ok());
    assert!(matches!(after_owner_check(Ok(false)), Err(WslError::NonOwnedEndpoint)));
    assert!(handshake_line("MODEL_LAUNCHER_PID=1\n", false).is_ok());
    assert_eq!(handshake_line("", false).unwrap_err().to_string(), "command failed: missing PID control line");
    assert_eq!(
        handshake_line("", true).unwrap_err().to_string(),
        "command failed: missing PID start-time control line"
    );
}
