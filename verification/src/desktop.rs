//! The desktop window's side of the launcher: what it is shown at the start, the
//! server's settings, the chat, and the texts that it reports.

use vstd::prelude::*;

use crate::api::gateway::{is_loopback, HostAddress};
use crate::json::{json_at, read_json, JsonPlace, JsonText};
use crate::launcher::capability::{
    estimate_context, estimates, ContextEstimate, EngineCapabilities, LaunchSettings,
};
use crate::launcher::catalog::CatalogMetadata;
use crate::launcher::config::ConfigDiagnostic;
use crate::launcher::lifecycle::LifecycleSnapshot;
use crate::launcher::model::{ModelId, ModelRecord, ModelState};
use crate::service::models::{model_with_id, position_of};
use crate::text::{
    chars_of, decimal, joined, lowered, push_decimal, push_text, same_text, string_of, to_lowered, trim, trimmed,
};
use crate::ui::notice::EngineSettings;
use crate::ui::sizes::{format_short_size, short_size};
use crate::ui::tray::TrayCommand;
use crate::ui::view_model::{state_name, state_word};

verus! {

/// The memory of a graphics processor.
#[derive(Debug, PartialEq, Eq)]
pub struct GpuMemoryInfo {
    pub name: String,
    pub total_bytes: u64,
    pub free_bytes: u64,
}

/// Everything that the desktop window shows.
#[derive(Debug)]
pub struct AppSnapshot {
    pub models: Vec<ModelRecord>,
    pub recent_models: Vec<ModelRecord>,
    pub lifecycle: LifecycleSnapshot,
    pub capabilities: EngineCapabilities,
    pub authentication_status: String,
    pub server_warning: String,
    pub engine_valid: bool,
    pub engine_diagnostic: Option<String>,
    pub configuration_diagnostic: Option<String>,
    pub gpu_memory: Option<GpuMemoryInfo>,
}

/// The server's settings as a user edits them.
#[derive(Debug, PartialEq, Eq)]
pub struct UiServerSettings {
    pub bind_address: String,
    pub port: u16,
    pub auth_enabled: bool,
}

/// A model as the window gets it.
#[derive(Debug)]
pub struct ModelDto {
    pub id: ModelId,
    pub key: String,
    pub name: String,
    pub path: String,
    pub file_name: String,
    pub size_bytes: u64,
    pub size: String,
    pub state: &'static str,
    pub running: bool,
    pub settings: LaunchSettings,
    pub metadata: CatalogMetadata,
    pub context_estimate: Option<ContextEstimate>,
}

/// The lifecycle as the window gets it.
#[derive(Debug)]
pub struct LifecycleDto {
    pub state: String,
    pub desired_model: Option<ModelId>,
    pub in_flight: usize,
    pub diagnostic: Option<String>,
}

/// What the window is shown at the start.
#[derive(Debug)]
pub struct Bootstrap {
    pub models: Vec<ModelDto>,
    pub recent_models: Vec<ModelDto>,
    pub lifecycle: LifecycleDto,
    pub capabilities: EngineCapabilities,
    pub authentication_status: String,
    pub server_warning: String,
    pub engine_valid: bool,
    pub engine_diagnostic: Option<String>,
    pub configuration_diagnostic: Option<String>,
    pub engine_settings: EngineSettings,
    pub server_settings: UiServerSettings,
    pub base_url: String,
    pub gpu_memory: Option<GpuMemoryInfo>,
}

pub open spec fn readiness(state: ModelState) -> Seq<char> {
    match state {
        ModelState::Available => "ready"@,
        ModelState::Missing => "missing"@,
        ModelState::Unlaunchable { .. } => "unlaunchable"@,
    }
}

fn readiness_word(state: &ModelState) -> (result: &'static str)
    ensures
        result@ == readiness(*state),
{
    match state {
        ModelState::Available => "ready",
        ModelState::Missing => "missing",
        ModelState::Unlaunchable { .. } => "unlaunchable",
    }
}

/// The estimate is there if the graphics processor is known.
pub open spec fn estimated(
    estimate: Option<ContextEstimate>,
    model: ModelRecord,
    settings: LaunchSettings,
    gpu: Option<GpuMemoryInfo>,
) -> bool {
    match (estimate, gpu) {
        (Some(estimate), Some(gpu)) => estimates(
            estimate,
            model.metadata,
            model.size_bytes,
            settings,
            gpu.total_bytes,
            gpu.free_bytes,
        ),
        (None, None) => true,
        _ => false,
    }
}

/// The window gets this of a model, whose file has the name `file_name`.
pub open spec fn shows(
    shown: ModelDto,
    model: ModelRecord,
    file_name: Seq<char>,
    running: Option<ModelId>,
    gpu: Option<GpuMemoryInfo>,
) -> bool {
    &&& shown.id == model.id
    &&& shown.key@ == model.key@
    &&& shown.name@ == model.display_name@
    &&& shown.path@ == model.path@
    &&& shown.file_name@ == file_name
    &&& shown.size_bytes == model.size_bytes
    &&& shown.size@ == short_size(model.size_bytes)
    &&& shown.state@ == readiness(model.state)
    &&& shown.running == (running == Some(model.id))
    &&& shown.settings == model.launch_profile.settings
    &&& shown.metadata == model.metadata
    &&& estimated(shown.context_estimate, model, model.launch_profile.settings, gpu)
}

fn estimate_for(model: &ModelRecord, settings: &LaunchSettings, gpu: &Option<GpuMemoryInfo>) -> (result: Option<
    ContextEstimate,
>)
    ensures
        estimated(result, *model, *settings, *gpu),
{
    match gpu {
        Some(gpu) => Some(
            estimate_context(&model.metadata, model.size_bytes, settings, gpu.total_bytes, gpu.free_bytes),
        ),
        None => None,
    }
}

fn show_model(
    model: &ModelRecord,
    file_name: &str,
    running: Option<ModelId>,
    gpu: &Option<GpuMemoryInfo>,
) -> (result: ModelDto)
    ensures
        shows(result, *model, file_name@, running, *gpu),
{
    let wanted = match running {
        Some(id) => id == model.id,
        None => false,
    };
    ModelDto {
        id: model.id,
        key: model.key.to_string(),
        name: model.display_name.clone(),
        path: model.path.clone(),
        file_name: file_name.to_owned(),
        size_bytes: model.size_bytes,
        size: format_short_size(model.size_bytes),
        state: readiness_word(&model.state),
        running: wanted,
        settings: model.launch_profile.settings.clone(),
        metadata: model.metadata.clone(),
        context_estimate: estimate_for(model, &model.launch_profile.settings, gpu),
    }
}

/// The window gets this of some models, whose files have these names.
pub open spec fn all_shown(
    shown: Seq<ModelDto>,
    models: Seq<ModelRecord>,
    file_names: Seq<String>,
    running: Option<ModelId>,
    gpu: Option<GpuMemoryInfo>,
) -> bool {
    &&& shown.len() == models.len()
    &&& forall|index: int|
        0 <= index < shown.len() ==> shows(
            #[trigger] shown[index],
            models[index],
            file_names[index]@,
            running,
            gpu,
        )
}

fn show_models(
    models: &Vec<ModelRecord>,
    file_names: &Vec<String>,
    running: Option<ModelId>,
    gpu: &Option<GpuMemoryInfo>,
) -> (result: Vec<ModelDto>)
    requires
        file_names@.len() == models@.len(),
    ensures
        all_shown(result@, models@, file_names@, running, *gpu),
{
    let mut shown: Vec<ModelDto> = Vec::new();
    for index in 0..models.len()
        invariant
            file_names@.len() == models@.len(),
            shown@.len() == index,
            forall|earlier: int|
                0 <= earlier < index ==> shows(
                    #[trigger] shown@[earlier],
                    models@[earlier],
                    file_names@[earlier]@,
                    running,
                    *gpu,
                ),
    {
        shown.push(show_model(&models[index], file_names[index].as_str(), running, gpu));
    }
    shown
}

/// What the window is shown at the start. The names of the models' files come with
/// the models, since they depend on the system's paths.
pub fn bootstrap(
    snapshot: AppSnapshot,
    file_names: &Vec<String>,
    recent_file_names: &Vec<String>,
    engine_settings: EngineSettings,
    server_settings: UiServerSettings,
    address: &str,
) -> (result: Bootstrap)
    requires
        file_names@.len() == snapshot.models@.len(),
        recent_file_names@.len() == snapshot.recent_models@.len(),
    ensures
        all_shown(
            result.models@,
            snapshot.models@,
            file_names@,
            snapshot.lifecycle.desired_model,
            snapshot.gpu_memory,
        ),
        all_shown(
            result.recent_models@,
            snapshot.recent_models@,
            recent_file_names@,
            snapshot.lifecycle.desired_model,
            snapshot.gpu_memory,
        ),
        result.lifecycle.state@ == lowered(state_name(snapshot.lifecycle.state)),
        result.lifecycle.desired_model == snapshot.lifecycle.desired_model,
        result.lifecycle.in_flight == snapshot.lifecycle.in_flight,
        result.lifecycle.diagnostic == snapshot.lifecycle.diagnostic,
        result.capabilities == snapshot.capabilities,
        result.authentication_status == snapshot.authentication_status,
        result.server_warning == snapshot.server_warning,
        result.engine_valid == snapshot.engine_valid,
        result.engine_diagnostic == snapshot.engine_diagnostic,
        result.configuration_diagnostic == snapshot.configuration_diagnostic,
        result.engine_settings == engine_settings,
        result.server_settings == server_settings,
        result.base_url@ == "http://"@ + address@,
        result.gpu_memory == snapshot.gpu_memory,
{
    let running = snapshot.lifecycle.desired_model;
    let models = show_models(&snapshot.models, file_names, running, &snapshot.gpu_memory);
    let recent_models = show_models(&snapshot.recent_models, recent_file_names, running, &snapshot.gpu_memory);
    let state = string_of(&to_lowered(&chars_of(state_word(snapshot.lifecycle.state))));
    Bootstrap {
        models,
        recent_models,
        lifecycle: LifecycleDto {
            state,
            desired_model: running,
            in_flight: snapshot.lifecycle.in_flight,
            diagnostic: snapshot.lifecycle.diagnostic,
        },
        capabilities: snapshot.capabilities,
        authentication_status: snapshot.authentication_status,
        server_warning: snapshot.server_warning,
        engine_valid: snapshot.engine_valid,
        engine_diagnostic: snapshot.engine_diagnostic,
        configuration_diagnostic: snapshot.configuration_diagnostic,
        engine_settings,
        server_settings,
        base_url: joined("http://", address),
        gpu_memory: snapshot.gpu_memory,
    }
}

/// How much context a model could use with other settings; nothing where the model
/// or the graphics processor is unknown.
pub fn estimate_model_context(snapshot: &AppSnapshot, id: ModelId, settings: &LaunchSettings) -> (result: Option<
    ContextEstimate,
>)
    ensures
        match model_with_id(snapshot.models@, id, 0) {
            Some(at) => estimated(result, snapshot.models@[at], *settings, snapshot.gpu_memory),
            None => result is None,
        },
{
    match position_of(&snapshot.models, id) {
        Some(at) => estimate_for(&snapshot.models[at], settings, &snapshot.gpu_memory),
        None => None,
    }
}

/// One turn of a conversation.
#[derive(Debug)]
pub struct ChatMessage {
    pub role: String,
    pub content: String,
}

/// A question for the model that is loaded.
#[derive(Debug)]
pub struct ChatCompletionRequest {
    pub model: String,
    pub messages: Vec<ChatMessage>,
    pub token: Option<String>,
}

impl ChatCompletionRequest {
    /// The token to send with the question, if it is not empty.
    pub fn bearer(&self) -> (result: Option<&str>)
        ensures
            match (result, self.token) {
                (Some(sent), Some(token)) => token@.len() > 0 && sent@ == token@,
                (Some(_), None) => false,
                (None, Some(token)) => token@.len() == 0,
                (None, None) => true,
            },
    {
        match &self.token {
            Some(token) => if chars_of(token.as_str()).len() == 0 {
                None
            } else {
                Some(token.as_str())
            },
            None => None,
        }
    }
}

/// Where a question is sent.
pub fn chat_url(address: &str) -> (result: String)
    ensures
        result@ == "http://"@ + address@ + "/v1/chat/completions"@,
{
    let mut url = joined("http://", address);
    push_text(&mut url, "/v1/chat/completions");
    url
}

/// What is told where the question could not be sent.
pub fn chat_unreachable(address: &str) -> (result: String)
    ensures
        result@ == "Could not reach the local API at http://"@ + address@
            + ". Make sure Model Launcher is running and try again."@,
{
    let mut text = joined("Could not reach the local API at http://", address);
    push_text(&mut text, ". Make sure Model Launcher is running and try again.");
    text
}

/// What is told of a refusal that explains nothing.
pub open spec fn refusal(status: u16) -> Seq<char> {
    if status == 401 {
        "The API token was rejected. Paste a valid Bearer token and try again."@
    } else if status == 503 {
        "The local model server is unavailable. Check that the model is running and try again."@
    } else {
        "The local API returned HTTP "@ + decimal(status as nat) + "."@
    }
}

/// The explanation of a refusal: the error's message, or the error itself where it
/// has none.
pub open spec fn explanation(message: JsonPlace, error: JsonPlace) -> Option<Seq<char>> {
    match message {
        JsonPlace::Text(text) => Some(text),
        JsonPlace::Absent => match error {
            JsonPlace::Text(text) => Some(text),
            _ => None,
        },
        _ => None,
    }
}

/// What comes of an answer, by its status and what stands in it.
pub open spec fn chat_outcome(status: u16, content: JsonPlace, message: JsonPlace, error: JsonPlace) -> Result<
    Seq<char>,
    Seq<char>,
> {
    if content is Unreadable {
        Err("The local API returned an invalid response."@)
    } else if !(200 <= status < 300) {
        Err(
            match explanation(message, error) {
                Some(text) => text,
                None => refusal(status),
            },
        )
    } else {
        match content {
            JsonPlace::Text(text) => if trimmed(text).len() > 0 {
                Ok(text)
            } else {
                Err("The server returned an empty assistant response."@)
            },
            _ => Err("The server returned an empty assistant response."@),
        }
    }
}

/// The outcome is this one.
pub open spec fn comes_to(result: Result<String, String>, outcome: Result<Seq<char>, Seq<char>>) -> bool {
    match (result, outcome) {
        (Ok(reply), Ok(expected)) => reply@ == expected,
        (Err(reason), Err(expected)) => reason@ == expected,
        _ => false,
    }
}

fn refusal_text(status: u16) -> (result: String)
    ensures
        result@ == refusal(status),
{
    if status == 401 {
        "The API token was rejected. Paste a valid Bearer token and try again.".to_owned()
    } else if status == 503 {
        "The local model server is unavailable. Check that the model is running and try again.".to_owned()
    } else {
        let mut text = "The local API returned HTTP ".to_owned();
        push_decimal(&mut text, status as u64);
        push_text(&mut text, ".");
        text
    }
}

/// What comes of an answer, by its status and what stands in it.
pub fn chat_answer(status: u16, content: JsonText, message: JsonText, error: JsonText) -> (result: Result<
    String,
    String,
>)
    ensures
        comes_to(result, chat_outcome(status, content@, message@, error@)),
{
    if let JsonText::Unreadable = content {
        return Err("The local API returned an invalid response.".to_owned());
    }
    if status < 200 || status >= 300 {
        let explained = match message {
            JsonText::Text(text) => Some(text),
            JsonText::Absent => match error {
                JsonText::Text(text) => Some(text),
                _ => None,
            },
            _ => None,
        };
        return Err(
            match explained {
                Some(text) => text,
                None => refusal_text(status),
            },
        );
    }
    match content {
        JsonText::Text(text) => if trim(&chars_of(text.as_str())).len() > 0 {
            Ok(text)
        } else {
            Err("The server returned an empty assistant response.".to_owned())
        },
        _ => Err("The server returned an empty assistant response.".to_owned()),
    }
}

/// What comes of an answer with this body.
pub fn chat_reply(status: u16, body: &[u8]) -> (result: Result<String, String>)
    ensures
        comes_to(
            result,
            chat_outcome(
                status,
                json_at(body@, "/choices/0/message/content"@),
                json_at(body@, "/error/message"@),
                json_at(body@, "/error"@),
            ),
        ),
{
    chat_answer(
        status,
        read_json(body, "/choices/0/message/content"),
        read_json(body, "/error/message"),
        read_json(body, "/error"),
    )
}

/// How a load ended, as the window is told.
#[derive(Debug)]
pub struct LoadFinished {
    pub model_id: ModelId,
    pub success: bool,
    pub message: String,
}

/// How a load ended, as the window is told.
pub fn load_finished(model_id: ModelId, outcome: Result<(), String>) -> (result: LoadFinished)
    ensures
        result.model_id == model_id,
        result.success == (outcome is Ok),
        result.message@ == (match outcome {
            Ok(_) => "模型已加载并可以使用。"@,
            Err(reason) => reason@,
        }),
{
    match outcome {
        Ok(_) => LoadFinished { model_id, success: true, message: "模型已加载并可以使用。".to_owned() },
        Err(reason) => LoadFinished { model_id, success: false, message: reason },
    }
}

/// What is told once settings are saved.
pub const SETTINGS_SAVED: &'static str = "设置已保存";

/// The command of an entry of the desktop's menu.
pub fn menu_command(name: &str) -> (result: Option<TrayCommand>)
    ensures
        result == (if name@ == "open"@ {
            Some(TrayCommand::Open)
        } else if name@ == "eject"@ {
            Some(TrayCommand::Eject)
        } else if name@ == "quit"@ {
            Some(TrayCommand::Quit)
        } else {
            None
        }),
{
    if same_text(name, "open") {
        Some(TrayCommand::Open)
    } else if same_text(name, "eject") {
        Some(TrayCommand::Eject)
    } else if same_text(name, "quit") {
        Some(TrayCommand::Quit)
    } else {
        None
    }
}

/// What is told of a configuration file that was set aside.
pub fn configuration_diagnostic_status(diagnostic: Option<&ConfigDiagnostic>) -> (result: Option<String>)
    ensures
        match (result, diagnostic) {
            (Some(text), Some(diagnostic)) => text@ == diagnostic.message_text(),
            (None, None) => true,
            _ => false,
        },
{
    match diagnostic {
        Some(diagnostic) => Some(diagnostic.to_string()),
        None => None,
    }
}

/// Checks the server's settings as they were entered. `parsed` is what the address
/// stands for, if it is one.
pub fn parse_server_settings(
    bind_address: String,
    parsed: Option<HostAddress>,
    port: i32,
    auth_enabled: bool,
) -> (result: Result<UiServerSettings, String>)
    ensures
        match result {
            Ok(settings) => parsed is Some && 1 <= port <= 65535 && settings.bind_address == bind_address
                && settings.port == port && settings.auth_enabled == auth_enabled,
            Err(reason) => if parsed is None {
                reason@ == "监听地址必须是有效的 IPv4 或 IPv6 地址"@
            } else {
                !(1 <= port <= 65535) && reason@ == "端口必须介于 1 和 65535 之间"@
            },
        },
{
    if parsed.is_none() {
        return Err("监听地址必须是有效的 IPv4 或 IPv6 地址".to_owned());
    }
    if port < 1 || port > 65535 {
        return Err("端口必须介于 1 和 65535 之间".to_owned());
    }
    Ok(UiServerSettings { bind_address, port: port as u16, auth_enabled })
}

/// Whether the server asks for a token, in words.
pub fn server_authentication_status(settings: &UiServerSettings) -> (result: &'static str)
    ensures
        result@ == (if settings.auth_enabled {
            "Bearer Token 已启用"@
        } else {
            "认证未启用"@
        }),
{
    if settings.auth_enabled {
        "Bearer Token 已启用"
    } else {
        "认证未启用"
    }
}

/// Where the server can be reached.
pub fn server_base_url(settings: &UiServerSettings) -> (result: String)
    ensures
        result@ == "http://"@ + settings.bind_address@ + ":"@ + decimal(settings.port as nat),
{
    let mut url = joined("http://", settings.bind_address.as_str());
    push_text(&mut url, ":");
    push_decimal(&mut url, settings.port as u64);
    url
}

/// A warning where other machines can reach the server and nobody asks who they
/// are. `parsed` is what the address stands for, if it is one.
pub fn server_lan_warning(settings: &UiServerSettings, parsed: Option<HostAddress>) -> (result: &'static str)
    ensures
        result@ == (match parsed {
            Some(address) => if !address.loopback() && !settings.auth_enabled {
                "当前监听地址可被其他设备访问，且未启用身份验证。"@
            } else {
                ""@
            },
            None => ""@,
        }),
{
    match parsed {
        Some(address) => if !is_loopback(address) && !settings.auth_enabled {
            "当前监听地址可被其他设备访问，且未启用身份验证。"
        } else {
            ""
        },
        None => "",
    }
}

/// Where it is kept that the notice about closing the window was shown: by a file
/// that exists.
#[derive(Debug)]
pub struct CloseNoticeStore {
    pub path: String,
}

impl CloseNoticeStore {
    pub fn new(path: String) -> (result: Self)
        ensures
            result.path == path,
    {
        CloseNoticeStore { path }
    }

    /// The notice, given whether the file exists.
    pub fn load(&self, exists: bool) -> (result: CloseNotice)
        ensures
            result.pending == !exists,
    {
        CloseNotice { pending: !exists }
    }

    /// What is written to the file, if anything.
    pub fn save(&self, notice: &CloseNotice) -> (result: Option<&'static str>)
        ensures
            match result {
                Some(text) => !notice.pending && text@ == "shown"@,
                None => notice.pending,
            },
    {
        if notice.pending {
            None
        } else {
            Some("shown")
        }
    }
}

/// The notice that the launcher keeps running when its window is closed.
#[derive(Clone, Copy, Debug, PartialEq, Eq, Structural)]
pub struct CloseNotice {
    pub pending: bool,
}

impl CloseNotice {
    /// The notice, the first time.
    pub fn take(&mut self) -> (result: Option<&'static str>)
        ensures
            !final(self).pending,
            match result {
                Some(text) => old(self).pending && text@ == "Model Launcher 将继续在系统托盘中运行。"@,
                None => !old(self).pending,
            },
    {
        if self.pending {
            self.pending = false;
            Some("Model Launcher 将继续在系统托盘中运行。")
        } else {
            None
        }
    }
}

} // verus!
