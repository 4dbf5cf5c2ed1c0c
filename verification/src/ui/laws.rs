//! What the user can rely on: what is shown of a model, what can be done with it,
//! how sizes are rounded, what a dialog enters, and what the chat answers.

use vstd::prelude::*;

use super::dialog::{at_least, entered, entered_settings, form_for, kv_of, positive, shown_number, ClearMarks, LaunchForm};
use super::logs::{level_name, line_text, queried_level, queried_source, source_name};
use super::sizes::{as_double, gigabytes, half_even, last_digit, short_size, tenths_text};
use super::tray::{command_of, recent_prefix, unprefixed, TrayCommand, TrayCommandView};
use super::view_model::{
    action_for, availability, drawn, fields_of, found, row_of, rows_of, state_name, ActionView, AppSnapshot,
    MetadataVisibility, ModelDisplay, RowView, ViewModel,
};
use crate::api::gateway::HostAddress;
use crate::desktop::{
    chat_outcome, explanation, load_finished, menu_command, parse_server_settings, readiness, refusal, server_base_url,
    server_lan_warning, shows,    GpuMemoryInfo, LoadFinished, ModelDto, UiServerSettings,
};
use crate::json::JsonPlace;
use crate::launcher::capability::{EngineCapabilities, KvCacheType, LaunchSettings};
use crate::launcher::lifecycle::{LifecycleSnapshot, LifecycleState};
use crate::launcher::log::{LogLevel, LogRecordView, LogSource};
use crate::launcher::model::{parsed_uuid, uuid_text, ModelId, ModelRecord, ModelState};
use crate::text::{decimal, has_prefix, lowercase, occurs, trimmed};

verus! {

/// The row of a model shows its own name, key, path and size.
pub proof fn law_rows_show_their_models(models: Seq<ModelRecord>, lifecycle: LifecycleSnapshot, index: int)
    requires
        0 <= index < models.len(),
    ensures
        rows_of(models, lifecycle).len() == models.len(),
        rows_of(models, lifecycle)[index].id == models[index].id,
        rows_of(models, lifecycle)[index].name == models[index].display_name@,
        rows_of(models, lifecycle)[index].key == models[index].key@,
        rows_of(models, lifecycle)[index].path == models[index].path@,
        rows_of(models, lifecycle)[index].size == gigabytes(models[index].size_bytes),
{
}

/// The model that is wanted is shown with the state of the engine, every other one
/// with whether its file is there.
pub proof fn law_rows_show_the_state(model: ModelRecord, lifecycle: LifecycleSnapshot)
    ensures
        lifecycle.desired_model == Some(model.id) ==> row_of(model, lifecycle).status == state_name(lifecycle.state),
        lifecycle.desired_model != Some(model.id) && model.state == ModelState::Available ==> row_of(
            model,
            lifecycle,
        ).status == "Available"@,
        lifecycle.desired_model != Some(model.id) && model.state == ModelState::Missing ==> row_of(
            model,
            lifecycle,
        ).status == "Missing"@,
        lifecycle.desired_model != Some(model.id) ==> row_of(model, lifecycle).status == availability(model.state),
{
}

/// The words for the states of the engine.
pub proof fn law_states_have_their_words(state: LifecycleState)
    ensures
        state == LifecycleState::Stopped ==> state_name(state) == "Stopped"@,
        state == LifecycleState::Starting ==> state_name(state) == "Starting"@,
        state == LifecycleState::Running ==> state_name(state) == "Running"@,
        state == LifecycleState::Stopping ==> state_name(state) == "Stopping"@,
        state == LifecycleState::Backoff ==> state_name(state) == "Backoff"@,
        state == LifecycleState::FailedValidation ==> state_name(state) == "FailedValidation"@,
{
}

/// A search finds a row by its name, its key or its path, whatever the case, and
/// by nothing else.
pub proof fn law_search_looks_at_name_key_and_path(row: RowView, query: Seq<char>)
    requires
        lowercase(trimmed(query)).len() > 0,
    ensures
        occurs(lowercase(row.name), lowercase(trimmed(query))) ==> found(query)(row),
        occurs(lowercase(row.key), lowercase(trimmed(query))) ==> found(query)(row),
        occurs(lowercase(row.path), lowercase(trimmed(query))) ==> found(query)(row),
        found(query)(row) ==> occurs(lowercase(row.name), lowercase(trimmed(query))) || occurs(
            lowercase(row.key),
            lowercase(trimmed(query)),
        ) || occurs(lowercase(row.path), lowercase(trimmed(query))),
{
}

/// The wanted model can be ejected, whatever else holds; another one can be loaded
/// once no request is served and the engine is known to work.
pub proof fn law_actions_follow_the_state(snapshot: AppSnapshot, id: ModelId)
    ensures
        action_for(snapshot, id) is Eject <==> snapshot.lifecycle.desired_model == Some(id),
        action_for(snapshot, id) is Load <==> snapshot.lifecycle.desired_model != Some(id)
            && snapshot.lifecycle.in_flight == 0 && snapshot.engine_valid,
        snapshot.lifecycle.desired_model != Some(id) && snapshot.lifecycle.in_flight > 0 ==> action_for(snapshot, id)
            == ActionView::Disabled("Finish active requests or eject the current model first."@),
        snapshot.lifecycle.desired_model != Some(id) && snapshot.lifecycle.in_flight == 0 && !snapshot.engine_valid
            && snapshot.engine_diagnostic is None ==> action_for(snapshot, id) == ActionView::Disabled(
            "Engine settings must be validated before loading."@,
        ),
        snapshot.lifecycle.desired_model != Some(id) && snapshot.lifecycle.in_flight == 0 && !snapshot.engine_valid ==> (
        snapshot.engine_diagnostic matches Some(diagnostic) ==> action_for(snapshot, id) == ActionView::Disabled(
            diagnostic@,
        )),
{
}

/// A line of the list draws its row; its button says what it does.
pub proof fn law_buttons_say_what_they_do(display: ModelDisplay, row: RowView, action: ActionView)
    requires
        drawn(display, row, action),
    ensures
        display.id@ == uuid_text(row.id.number()),
        display.name@ == row.name && display.key@ == row.key && display.size@ == row.size,
        display.path@ == row.path && display.status@ == row.status,
        action is Eject ==> display.action@ == "Eject"@ && display.action_enabled,
        action is Load ==> display.action@ == "Load"@ && display.action_enabled,
        action is Disabled ==> display.action@ == "Load"@ && !display.action_enabled,
{
}

/// The fields of a dialog stand in one order, and a field that the engine offers is
/// shown.
pub proof fn law_fields_stand_in_order(settings: LaunchSettings, caps: EngineCapabilities)
    ensures
        fields_of(settings, caps).len() == 7,
        fields_of(settings, caps)[0].id == "context_length"@,
        fields_of(settings, caps)[1].id == "gpu_layers"@,
        fields_of(settings, caps)[2].id == "cpu_threads"@,
        fields_of(settings, caps)[3].id == "batch_size"@,
        fields_of(settings, caps)[4].id == "parallel_slots"@,
        fields_of(settings, caps)[5].id == "flash_attention"@,
        fields_of(settings, caps)[6].id == "kv_cache_type"@,
        caps.context_length ==> fields_of(settings, caps)[0].visible,
        caps.gpu_layers ==> fields_of(settings, caps)[1].visible,
        caps.cpu_threads ==> fields_of(settings, caps)[2].visible,
        caps.batch_size ==> fields_of(settings, caps)[3].visible,
        caps.parallel_slots ==> fields_of(settings, caps)[4].visible,
        caps.flash_attention ==> fields_of(settings, caps)[5].visible,
        caps.kv_cache_type ==> fields_of(settings, caps)[6].visible,
{
}

/// Rounding goes to the nearest whole, and from half way to the even one.
pub proof fn law_rounding_goes_to_the_nearest(value: nat, unit: nat)
    requires
        unit > 0,
    ensures
        value % unit == 0 ==> half_even(value, unit) == value / unit,
        2 * (value % unit) < unit ==> half_even(value, unit) == value / unit,
        2 * (value % unit) > unit ==> half_even(value, unit) == value / unit + 1,
        2 * (value % unit) == unit ==> half_even(value, unit) % 2 == 0,
        value / unit <= half_even(value, unit) <= value / unit + 1,
{
}

/// A number of at most 53 binary digits is kept as it is, and a larger one is
/// rounded to a multiple of its last digit.
pub proof fn law_small_sizes_are_exact(bytes: u64)
    ensures
        bytes < 9_007_199_254_740_992 ==> as_double(bytes) == bytes,
        last_digit(bytes) >= 1,
        bytes / 9_007_199_254_740_992 < last_digit(bytes),
        last_digit(bytes) > 1 ==> bytes / 4_503_599_627_370_496 >= last_digit(bytes),
{
    if bytes < 9_007_199_254_740_992 {
        assert(last_digit(bytes) == 1);
        assert(bytes as nat % 1 == 0 && bytes as nat / 1 == bytes as nat);
        assert(half_even(bytes as nat, 1) == bytes);
        assert(half_even(bytes as nat, 1) * 1 == bytes);
    }
}

/// Sizes from a gigabyte on are shown in gigabytes with one decimal place, smaller
/// ones in whole megabytes.
pub proof fn law_sizes_are_shown_in_their_unit(bytes: u64)
    requires
        bytes < 9_007_199_254_740_992,
    ensures
        gigabytes(bytes) == tenths_text(half_even(bytes as nat * 10, 1_073_741_824)) + " GB"@,
        bytes >= 1_073_741_824 ==> short_size(bytes) == gigabytes(bytes),
        bytes < 1_073_741_824 ==> short_size(bytes) == decimal(half_even(bytes as nat, 1_048_576)) + " MB"@,
{
    law_small_sizes_are_exact(bytes);
}

/// Tenths are written with a point before the last digit.
pub proof fn law_tenths_have_one_decimal_place(whole: nat, tenth: nat)
    requires
        tenth < 10,
    ensures
        tenths_text(10 * whole + tenth) == decimal(whole) + seq!['.'] + decimal(tenth),
{
    assert((10 * whole + tenth) / 10 == whole);
    assert((10 * whole + tenth) % 10 == tenth);
}

/// A dialog shows what is set, and for what is not, what the engine would take.
pub proof fn law_dialog_shows_what_is_set(settings: LaunchSettings, default_threads: u32, number: u32)
    requires
        number <= 0x7fff_ffff,
        default_threads <= 0x7fff_ffff,
    ensures
        shown_number(Some(number), default_threads) == number,
        settings.context_number() is None ==> form_for(settings, default_threads).context == 4096,
        settings.context_number() == Some(number) ==> form_for(settings, default_threads).context == number,
        settings.gpu_number() is None ==> form_for(settings, default_threads).gpu == 0,
        settings.gpu_number() == Some(number) ==> form_for(settings, default_threads).gpu == number,
        settings.thread_number() is None ==> form_for(settings, default_threads).threads == default_threads,
        settings.thread_number() == Some(number) ==> form_for(settings, default_threads).threads == number,
        settings.batch_number() is None ==> form_for(settings, default_threads).batch == 512,
        settings.batch_number() == Some(number) ==> form_for(settings, default_threads).batch == number,
        settings.slot_number() is None ==> form_for(settings, default_threads).parallel == 1,
        settings.slot_number() == Some(number) ==> form_for(settings, default_threads).parallel == number,
        settings.flash_attention is None ==> !form_for(settings, default_threads).flash,
        settings.flash_attention == Some(true) ==> form_for(settings, default_threads).flash,
        settings.kv_cache_type is None ==> form_for(settings, default_threads).kv == KvCacheType::F16,
        settings.kv_cache_type matches Some(kv) ==> form_for(settings, default_threads).kv == kv,
{
}

/// What is entered is set, and what is marked to be cleared is not; a count of zero
/// counts as not set, except for the layers on the graphics processor.
pub proof fn law_entered_values_are_set(settings: LaunchSettings, form: LaunchForm, clears: ClearMarks)
    requires
        entered_settings(settings, form, clears),
    ensures
        clears.context ==> settings.context_number() is None,
        clears.gpu ==> settings.gpu_number() is None,
        clears.threads ==> settings.thread_number() is None,
        clears.batch ==> settings.batch_number() is None,
        clears.parallel ==> settings.slot_number() is None,
        clears.flash ==> settings.flash_attention is None,
        clears.kv ==> settings.kv_cache_type is None,
        !clears.context && form.context > 0 ==> settings.context_number() == Some(form.context as u32),
        !clears.gpu && form.gpu >= 0 ==> settings.gpu_number() == Some(form.gpu as u32),
        !clears.threads && form.threads > 0 ==> settings.thread_number() == Some(form.threads as u32),
        !clears.threads && form.threads == 0 ==> settings.thread_number() is None,
        !clears.batch && form.batch > 0 ==> settings.batch_number() == Some(form.batch as u32),
        !clears.parallel && form.parallel > 0 ==> settings.slot_number() == Some(form.parallel as u32),
        !clears.flash ==> settings.flash_attention == Some(form.flash),
        !clears.kv ==> settings.kv_cache_type == Some(form.kv),
        settings.speculative_type is None && settings.draft_model is None,
{
}

/// A number below the least is taken as the least; zero is no positive number.
pub proof fn law_entered_numbers_are_bounded(value: i32, least: i32, number: u32)
    requires
        least >= 0,
    ensures
        at_least(value, least) >= least,
        value >= least ==> at_least(value, least) == value,
        value < least ==> at_least(value, least) == least,
        positive(0) is None,
        number > 0 ==> positive(number) == Some(number),
        entered(value, true) is None,
        value > 0 ==> entered(value, false) == Some(value as u32),
{
}

/// The words by which the kind of cache is chosen; any other word leaves it whole.
pub proof fn law_cache_is_chosen_by_its_word(word: Seq<char>)
    ensures
        kv_of("q8_0"@) == KvCacheType::Q8_0,
        kv_of("q4_0"@) == KvCacheType::Q4_0,
        word != "q8_0"@ && word != "q4_0"@ ==> kv_of(word) == KvCacheType::F16,
{
    reveal_strlit("q8_0");
    reveal_strlit("q4_0");
    assert("q8_0"@[1] != "q4_0"@[1]);
}

/// A line of the log gives the time, the source, the level and the message.
pub proof fn law_log_lines_tell_all(record: LogRecordView)
    ensures
        line_text(record) == decimal(record.timestamp_ms as nat) + " "@ + source_name(record.source) + " "@ + level_name(
            record.level,
        ) + "  "@ + record.message,
        record.source == LogSource::Application ==> source_name(record.source) == "Application"@,
        record.source == LogSource::EngineStdout ==> source_name(record.source) == "EngineStdout"@,
        record.source == LogSource::EngineStderr ==> source_name(record.source) == "EngineStderr"@,
        record.level == LogLevel::Trace ==> level_name(record.level) == "Trace"@,
        record.level == LogLevel::Debug ==> level_name(record.level) == "Debug"@,
        record.level == LogLevel::Info ==> level_name(record.level) == "Info"@,
        record.level == LogLevel::Warn ==> level_name(record.level) == "Warn"@,
        record.level == LogLevel::Error ==> level_name(record.level) == "Error"@,
{
}

/// A query names a source and a level by their own words; no word asks for all.
pub proof fn law_queries_name_source_and_level(source: LogSource, level: LogLevel, word: Seq<char>)
    ensures
        queried_source(None) is None,
        queried_level(None) is None,
        queried_source(Some(word)) == Some(source) ==> word == source.word_text(),
        queried_level(Some(word)) == Some(level) ==> word == level.word_text(),
        queried_source(Some(word)) is None ==> word != source.word_text(),
        queried_level(Some(word)) is None ==> word != level.word_text(),
{
}

/// The commands of the icon's menu.
pub proof fn law_menu_commands(name: Seq<char>)
    ensures
        command_of("open"@) == Some(TrayCommandView::Open),
        command_of("eject"@) == Some(TrayCommandView::Eject),
        command_of("quit"@) == Some(TrayCommandView::Quit),
        name != "open"@ && name != "eject"@ && name != "quit"@ && !has_prefix(name, recent_prefix()) ==> command_of(
            name,
        ) is None,
        has_prefix(name, recent_prefix()) && parsed_uuid(unprefixed(name)) is None && name != "open"@ && name
            != "eject"@ ==> command_of(name) is None,
{
    reveal_strlit("open");
    reveal_strlit("eject");
    reveal_strlit("quit");
    assert("open"@.len() == 4 && "eject"@.len() == 5 && "quit"@.len() == 4);
    assert("open"@[0] == 'o' && "quit"@[0] == 'q');
    assert(!has_prefix("quit"@, recent_prefix()));
}

/// A window shows of a model what its record holds, and as running the one that is
/// wanted.
pub proof fn law_window_shows_the_record(
    shown: ModelDto,
    model: ModelRecord,
    file_name: Seq<char>,
    running: Option<ModelId>,
    gpu: Option<GpuMemoryInfo>,
)
    requires
        shows(shown, model, file_name, running, gpu),
    ensures
        shown.id == model.id,
        shown.key@ == model.key@,
        shown.name@ == model.display_name@,
        shown.path@ == model.path@,
        shown.file_name@ == file_name,
        shown.size_bytes == model.size_bytes,
        shown.size@ == short_size(model.size_bytes),
        shown.running <==> running == Some(model.id),
        shown.settings == model.launch_profile.settings,
        shown.metadata == model.metadata,
        shown.context_estimate is Some <==> gpu is Some,
        model.state == ModelState::Available ==> shown.state@ == "ready"@,
        model.state == ModelState::Missing ==> shown.state@ == "missing"@,
        model.state is Unlaunchable ==> shown.state@ == "unlaunchable"@,
        shown.state@ == readiness(model.state),
{
}

/// A chat is answered with the text of a successful reply, and with nothing else.
pub proof fn law_chat_is_answered(status: u16, content: JsonPlace, message: JsonPlace, error: JsonPlace)
    ensures
        chat_outcome(status, content, message, error) is Ok <==> {
            &&& 200 <= status <= 299
            &&& content matches JsonPlace::Text(text) && trimmed(text).len() > 0
        },
        chat_outcome(status, content, message, error) matches Ok(reply) ==> content == JsonPlace::Text(reply),
        content is Unreadable ==> chat_outcome(status, content, message, error) == Err::<Seq<char>, Seq<char>>(
            "The local API returned an invalid response."@,
        ),
        content !is Unreadable && 200 <= status <= 299 && chat_outcome(status, content, message, error) is Err
            ==> chat_outcome(status, content, message, error) == Err::<Seq<char>, Seq<char>>(
            "The server returned an empty assistant response."@,
        ),
{
}

/// A reply that is a failure is explained in the server's own words where it gives
/// any.
pub proof fn law_failed_chat_is_explained(status: u16, content: JsonPlace, text: Seq<char>, other: JsonPlace)
    requires
        content !is Unreadable,
        status < 200 || status > 299,
    ensures
        chat_outcome(status, content, JsonPlace::Text(text), other) == Err::<Seq<char>, Seq<char>>(text),
        chat_outcome(status, content, JsonPlace::Absent, JsonPlace::Text(text)) == Err::<Seq<char>, Seq<char>>(text),
        chat_outcome(status, content, JsonPlace::Absent, JsonPlace::Absent) == Err::<Seq<char>, Seq<char>>(
            refusal(status),
        ),
        chat_outcome(status, content, JsonPlace::Other, JsonPlace::Text(text)) == Err::<Seq<char>, Seq<char>>(
            refusal(status),
        ),
        status == 401 ==> refusal(status)
            == "The API token was rejected. Paste a valid Bearer token and try again."@,
        status == 503 ==> refusal(status)
            == "The local model server is unavailable. Check that the model is running and try again."@,
        status != 401 && status != 503 ==> refusal(status) == "The local API returned HTTP "@ + decimal(status as nat)
            + "."@,
        explanation(JsonPlace::Absent, JsonPlace::Absent) is None,
{
}

/// Settings of the server are taken where the address can be read and the port is
/// one; otherwise the user is told which is wrong.
pub proof fn law_server_settings_are_checked(
    bind_address: String,
    parsed: Option<HostAddress>,
    port: i32,
    auth_enabled: bool,
    result: Result<UiServerSettings, String>,
)
    requires
        call_ensures(parse_server_settings, (bind_address, parsed, port, auth_enabled), result),
    ensures
        result is Ok <==> parsed is Some && 1 <= port <= 65_535,
        result matches Ok(settings) ==> settings.port == port && settings.auth_enabled == auth_enabled
            && settings.bind_address@ == bind_address@,
        parsed is None ==> (result matches Err(reason) && reason@ == "监听地址必须是有效的 IPv4 或 IPv6 地址"@),
        parsed is Some && !(1 <= port <= 65_535) ==> (result matches Err(reason) && reason@
            == "端口必须介于 1 和 65535 之间"@),
{
}

/// The window warns of an interface that others reach without a token, and of
/// nothing else.
pub proof fn law_window_warns_of_exposure(
    settings: UiServerSettings,
    address: HostAddress,
    warning: &'static str,
    unknown: &'static str,
)
    requires
        call_ensures(server_lan_warning, (&settings, Some(address)), warning),
        call_ensures(server_lan_warning, (&settings, None::<HostAddress>), unknown),
    ensures
        unknown@ == ""@,
        settings.auth_enabled || address.loopback() ==> warning@ == ""@,
        !settings.auth_enabled && !address.loopback() ==> warning@
            == "当前监听地址可被其他设备访问，且未启用身份验证。"@,
{
}

/// The end of a load is told for its model, with the reason where it failed.
pub proof fn law_end_of_a_load_is_told(id: ModelId, reason: String, done: LoadFinished, failed: LoadFinished)
    requires
        call_ensures(load_finished, (id, Ok::<(), String>(())), done),
        call_ensures(load_finished, (id, Err::<(), String>(reason)), failed),
    ensures
        done.model_id == id && failed.model_id == id,
        done.success && !failed.success,
        failed.message@ == reason@,
{
}

/// A narrow window leaves out the size, and a wider one the path.
pub proof fn law_narrow_windows_show_less(view_model: ViewModel, width: u32, shown: MetadataVisibility)
    requires
        call_ensures(ViewModel::metadata_visibility, (&view_model, width), shown),
    ensures
        shown.size <==> width >= 500,
        shown.path <==> width >= 720,
        shown.path ==> shown.size,
{
}

/// The commands of the window's menu are known by their words.
pub proof fn law_menu_words(name: &str, command: Option<TrayCommand>)
    requires
        call_ensures(menu_command, (name,), command),
    ensures
        command == Some(TrayCommand::Open) <==> name@ == "open"@,
        command == Some(TrayCommand::Eject) <==> name@ == "eject"@,
        command == Some(TrayCommand::Quit) <==> name@ == "quit"@,
        name@ != "open"@ && name@ != "eject"@ && name@ != "quit"@ ==> command is None,
{
    reveal_strlit("open");
    reveal_strlit("eject");
    reveal_strlit("quit");
    assert("open"@.len() == 4 && "eject"@.len() == 5 && "quit"@.len() == 4);
    assert("open"@[0] == 'o' && "quit"@[0] == 'q');
}

/// The server is reached at its address and its port.
pub proof fn law_server_is_reached_at_its_address(settings: UiServerSettings, url: String)
    requires
        call_ensures(server_base_url, (&settings,), url),
    ensures
        url@ == "http://"@ + settings.bind_address@ + ":"@ + decimal(settings.port as nat),
{
}

} // verus!
