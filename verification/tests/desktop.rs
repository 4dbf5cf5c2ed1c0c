//! The desktop window's side.

use model_launcher::api::gateway::HostAddress;
use model_launcher::desktop::{
    bootstrap, chat_answer, chat_reply, chat_unreachable, chat_url, configuration_diagnostic_status,
    estimate_model_context, load_finished, menu_command, parse_server_settings, server_authentication_status,
    server_base_url, server_lan_warning, AppSnapshot, ChatCompletionRequest, ChatMessage, CloseNoticeStore,
    GpuMemoryInfo, UiServerSettings, SETTINGS_SAVED,
};
use model_launcher::json::JsonText;
use model_launcher::launcher::capability::{EngineCapabilities, LaunchSettings};
use model_launcher::launcher::catalog::{CatalogIdentity, CatalogMetadata};
use model_launcher::launcher::config::{ConfigDiagnostic, ConfigDiagnosticKind};
use model_launcher::launcher::lifecycle::{LifecycleSnapshot, LifecycleState};
use model_launcher::launcher::model::{LaunchProfile, ModelId, ModelKey, ModelRecord, ModelState};
use model_launcher::ui::notice::EngineSettings;
use model_launcher::ui::tray::TrayCommand;

fn model(name: &str) -> ModelRecord {
    ModelRecord {
        id: ModelId::new(),
        key: ModelKey::parse(name.to_owned()).unwrap(),
        display_name: name.to_owned(),
        path: format!("/models/{name}.gguf"),
        file_identity: CatalogIdentity::Unavailable,
        size_bytes: 1 << 30,
        metadata: CatalogMetadata { context_length: Some(8192), ..CatalogMetadata::default() },
        state: ModelState::Available,
        launch_profile: LaunchProfile::default(),
    }
}

fn snapshot(models: Vec<ModelRecord>) -> AppSnapshot {
    AppSnapshot {
        models,
        recent_models: vec![],
        lifecycle: LifecycleSnapshot::default(),
        capabilities: EngineCapabilities::default(),
        authentication_status: "open".to_owned(),
        server_warning: String::new(),
        engine_valid: true,
        engine_diagnostic: None,
        configuration_diagnostic: None,
        gpu_memory: Some(GpuMemoryInfo { name: "GPU".to_owned(), total_bytes: 8 << 30, free_bytes: 8 << 30 }),
    }
}

fn server(bind_address: &str, auth_enabled: bool) -> UiServerSettings {
    UiServerSettings { bind_address: bind_address.to_owned(), port: 1234, auth_enabled }
}

#[test]
fn the_window_starts_with_every_model() {
    let alpha = model("alpha");
    let mut shown = snapshot(vec![alpha.clone(), model("beta")]);
    shown.models[1].state = ModelState::Missing;
    shown.lifecycle.state = LifecycleState::FailedValidation;
    shown.lifecycle.desired_model = Some(alpha.id);
    let names = vec!["alpha.gguf".to_owned(), "beta.gguf".to_owned()];
    let started = bootstrap(
        shown,
        &names,
        &vec![],
        EngineSettings::default(),
        server("127.0.0.1", true),
        "127.0.0.1:1234",
    );
    assert_eq!(started.models.len(), 2);
    assert_eq!(started.models[0].file_name, "alpha.gguf");
    assert_eq!(started.models[0].size, "1.0 GB");
    assert!(started.models[0].running);
    assert_eq!(started.models[0].state, "ready");
    assert_eq!(started.models[1].state, "missing");
    assert_eq!(started.models[0].context_estimate.unwrap().model_context_limit, 8192);
    assert_eq!(started.lifecycle.state, "failedvalidation");
    assert_eq!(started.base_url, "http://127.0.0.1:1234");
    assert_eq!(started.authentication_status, "open");
}

#[test]
fn estimates_need_a_model_and_a_graphics_processor() {
    let alpha = model("alpha");
    let mut shown = snapshot(vec![alpha.clone()]);
    let settings = LaunchSettings::default();
    assert!(estimate_model_context(&shown, alpha.id, &settings).is_some());
    assert!(estimate_model_context(&shown, ModelId::new(), &settings).is_none());
    shown.gpu_memory = None;
    assert!(estimate_model_context(&shown, alpha.id, &settings).is_none());
}

#[test]
fn questions_carry_a_token_that_is_not_empty() {
    let mut request = ChatCompletionRequest {
        model: "qwen".to_owned(),
        messages: vec![ChatMessage { role: "user".to_owned(), content: "Hello".to_owned() }],
        token: Some("secret".to_owned()),
    };
    assert_eq!(request.bearer(), Some("secret"));
    request.token = Some(String::new());
    assert_eq!(request.bearer(), None);
    request.token = None;
    assert_eq!(request.bearer(), None);
    assert_eq!(chat_url("127.0.0.1:9"), "http://127.0.0.1:9/v1/chat/completions");
    assert_eq!(
        chat_unreachable("127.0.0.1:9"),
        "Could not reach the local API at http://127.0.0.1:9. Make sure Model Launcher is running and try again."
    );
}

#[test]
fn answers_are_read_from_their_bodies() {
    let reply = chat_reply(200, br#"{"choices":[{"message":{"content":"Local reply"}}]}"#);
    assert_eq!(reply.unwrap(), "Local reply");
    let empty = "The server returned an empty assistant response.";
    assert_eq!(chat_reply(200, br#"{"choices":[{"message":{"content":"  "}}]}"#).unwrap_err(), empty);
    assert_eq!(chat_reply(200, br#"{"choices":[]}"#).unwrap_err(), empty);
    assert_eq!(chat_reply(200, b"<html>").unwrap_err(), "The local API returned an invalid response.");
    assert_eq!(chat_reply(500, br#"{"error":{"message":"boom"}}"#).unwrap_err(), "boom");
    assert_eq!(chat_reply(500, br#"{"error":"plain"}"#).unwrap_err(), "plain");
    assert_eq!(
        chat_reply(500, br#"{"error":{"message":7}}"#).unwrap_err(),
        "The local API returned HTTP 500."
    );
    assert_eq!(
        chat_reply(401, b"{}").unwrap_err(),
        "The API token was rejected. Paste a valid Bearer token and try again."
    );
    assert_eq!(
        chat_answer(503, JsonText::Absent, JsonText::Absent, JsonText::Other).unwrap_err(),
        "The local model server is unavailable. Check that the model is running and try again."
    );
}

#[test]
fn settings_of_the_server_are_checked() {
    let local = Some(HostAddress::V4(0x7f00_0001));
    let settings = parse_server_settings("127.0.0.1".to_owned(), local, 8080, true).unwrap();
    assert_eq!(settings.port, 8080);
    assert_eq!(server_base_url(&settings), "http://127.0.0.1:8080");
    assert_eq!(server_authentication_status(&settings), "Bearer Token 已启用");
    assert_eq!(
        parse_server_settings("localhost".to_owned(), None, 0, true).unwrap_err(),
        "监听地址必须是有效的 IPv4 或 IPv6 地址"
    );
    for port in [0, -1, 65536] {
        assert_eq!(
            parse_server_settings("127.0.0.1".to_owned(), local, port, true).unwrap_err(),
            "端口必须介于 1 和 65535 之间"
        );
    }
}

#[test]
fn an_open_server_is_warned_of() {
    let everyone = Some(HostAddress::V4(0));
    assert_eq!(
        server_lan_warning(&server("0.0.0.0", false), everyone),
        "当前监听地址可被其他设备访问，且未启用身份验证。"
    );
    assert_eq!(server_lan_warning(&server("0.0.0.0", true), everyone), "");
    assert_eq!(server_lan_warning(&server("::1", false), Some(HostAddress::V6(1))), "");
    assert_eq!(server_lan_warning(&server("nowhere", false), None), "");
    assert_eq!(server_authentication_status(&server("::1", false)), "认证未启用");
}

#[test]
fn reports_have_their_texts() {
    let id = ModelId::new();
    let finished = load_finished(id, Ok(()));
    assert!(finished.success && finished.model_id == id);
    assert_eq!(finished.message, "模型已加载并可以使用。");
    let finished = load_finished(id, Err("engine is unavailable".to_owned()));
    assert!(!finished.success);
    assert_eq!(finished.message, "engine is unavailable");
    assert_eq!(SETTINGS_SAVED, "设置已保存");
    assert_eq!(menu_command("open"), Some(TrayCommand::Open));
    assert_eq!(menu_command("eject"), Some(TrayCommand::Eject));
    assert_eq!(menu_command("quit"), Some(TrayCommand::Quit));
    assert_eq!(menu_command("recent:x"), None);
}

#[test]
fn configurations_set_aside_are_reported() {
    assert_eq!(configuration_diagnostic_status(None), None);
    let diagnostic = ConfigDiagnostic {
        kind: ConfigDiagnosticKind::UnsupportedVersion { version: 7 },
        quarantine_path: "config.json.bad".to_owned(),
    };
    assert_eq!(
        configuration_diagnostic_status(Some(&diagnostic)).unwrap(),
        "Configuration version 7 is unsupported and has been quarantined."
    );
}

#[test]
fn closing_is_explained_once() {
    let store = CloseNoticeStore::new("notice".to_owned());
    let mut notice = store.load(false);
    assert_eq!(store.save(&notice), None);
    assert_eq!(notice.take(), Some("Model Launcher 将继续在系统托盘中运行。"));
    assert_eq!(notice.take(), None);
    assert_eq!(store.save(&notice), Some("shown"));
    assert_eq!(store.load(true).take(), None);
}
