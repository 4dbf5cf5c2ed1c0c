//! What the service keeps to: which models it finds, what it refuses, and how a
//! change of the server, a start and a shutdown go on.

use vstd::prelude::*;

use super::error::{listed, ServiceError};
use super::models::{
    key_taken, launchable_with_id, model_with_id, moved_to_front, offers_model, other_than, profile_applied, recent_of,
    refused_setting, used,
};
use super::settings::{
    change_after, change_error, check_engine_change, check_launcher_change, check_scan, check_token_request,
    shares_port, with_settings, ServerAddress, ServerChange, ServerStage,
};
use super::shutdown::{advanced, passage, PhaseOutcome, ShutdownEvent, ShutdownPhase, ShutdownRunView};
use super::startup::{creates_root, directory_report, missing, starts_watcher, LauncherSettings, StartStep};
use crate::api::gateway::HostAddress;
use crate::api::models::{ApiModel, LoadRequest};
use crate::launcher::capability::{EngineCapabilities, LaunchSettings};
use crate::launcher::config::LauncherConfig;
use crate::launcher::model::{ModelId, ModelRecord, ModelState};

verus! {

/// A list from which nothing is to go stays as it is.
proof fn lemma_nothing_is_dropped(ids: Seq<ModelId>, id: ModelId)
    requires
        !ids.contains(id),
    ensures
        ids.filter(other_than(id)) == ids,
    decreases ids.len(),
{
    reveal(Seq::filter);
    if ids.len() > 0 {
        let front = ids.drop_last();
        assert(ids[ids.len() - 1] != id);
        assert(!front.contains(id)) by {
            if front.contains(id) {
                let at = choose|at: int| 0 <= at < front.len() && front[at] == id;
                assert(ids[at] == id);
            }
        }
        lemma_nothing_is_dropped(front, id);
        assert(front.push(ids.last()) =~= ids);
    }
}

/// What stands once in a list goes from its place, and nothing else does.
proof fn lemma_one_is_dropped(ids: Seq<ModelId>, id: ModelId, at: int)
    requires
        0 <= at < ids.len(),
        ids[at] == id,
        forall|other: int| 0 <= other < ids.len() && other != at ==> #[trigger] ids[other] != id,
    ensures
        ids.filter(other_than(id)) == ids.remove(at),
    decreases ids.len(),
{
    reveal(Seq::filter);
    let front = ids.drop_last();
    if at == ids.len() - 1 {
        assert(!front.contains(id)) by {
            if front.contains(id) {
                let other = choose|other: int| 0 <= other < front.len() && front[other] == id;
                assert(ids[other] == id);
            }
        }
        lemma_nothing_is_dropped(front, id);
        assert(ids.remove(at) =~= front);
    } else {
        assert forall|other: int| 0 <= other < front.len() && other != at implies #[trigger] front[other] != id by {
            assert(ids[other] != id);
        }
        lemma_one_is_dropped(front, id, at);
        assert(front.remove(at).push(ids.last()) =~= ids.remove(at));
    }
}

/// A model that was not used lately is put in front of the others, of which the
/// last goes where there would be more than eight.
pub proof fn law_new_model_is_put_in_front(recent: Seq<ModelId>, id: ModelId)
    requires
        !recent.contains(id),
    ensures
        used(recent, id)[0] == id,
        recent.len() < 8 ==> used(recent, id) == seq![id] + recent,
        recent.len() >= 8 ==> used(recent, id) == seq![id] + recent.take(7),
{
    lemma_nothing_is_dropped(recent, id);
    if recent.len() >= 8 {
        assert((seq![id] + recent).take(8) =~= seq![id] + recent.take(7));
    }
}

/// A model that was used lately moves to the front; the others keep their order.
pub proof fn law_used_model_moves_to_the_front(recent: Seq<ModelId>, id: ModelId, at: int)
    requires
        0 <= at < recent.len() <= 8,
        recent[at] == id,
        recent.no_duplicates(),
    ensures
        used(recent, id) == seq![id] + recent.remove(at),
        used(recent, id).len() == recent.len(),
{
    lemma_one_is_dropped(recent, id, at);
}

/// A shorter limit keeps the first of what a longer one keeps.
pub proof fn law_limit_keeps_the_first(ids: Seq<ModelId>, id: ModelId, short: nat, long: nat)
    requires
        short <= long,
        ids.filter(other_than(id)).len() + 1 >= long,
    ensures
        moved_to_front(ids, id, short).len() == short,
        moved_to_front(ids, id, short) == moved_to_front(ids, id, long).take(short as int),
{
    let all = seq![id] + ids.filter(other_than(id));
    assert(all.take(all.len() as int) =~= all);
    assert(all.take(long as int).take(short as int) =~= all.take(short as int));
}

/// The search from `from` on passes over records with other identifiers.
proof fn lemma_search_passes(models: Seq<ModelRecord>, id: ModelId, from: int, at: int)
    requires
        0 <= from <= at <= models.len(),
        forall|index: int| from <= index < at ==> (#[trigger] models[index]).id != id,
    ensures
        model_with_id(models, id, from) == model_with_id(models, id, at),
    decreases at - from,
{
    if from < at {
        assert(models[from].id != id);
        lemma_search_passes(models, id, from + 1, at);
    }
}

/// The first record with an identifier is the one that is found, and where there
/// is none, none is.
pub proof fn law_first_record_with_an_identifier_is_found(models: Seq<ModelRecord>, id: ModelId, at: int)
    requires
        0 <= at <= models.len(),
        forall|index: int| 0 <= index < at ==> (#[trigger] models[index]).id != id,
        at < models.len() ==> models[at].id == id,
    ensures
        model_with_id(models, id, 0) == (if at < models.len() {
            Some(at)
        } else {
            None
        }),
{
    lemma_search_passes(models, id, 0, at);
}

proof fn lemma_launchable_passes(models: Seq<ModelRecord>, id: ModelId, from: int, at: int)
    requires
        0 <= from <= at <= models.len(),
        forall|index: int|
            from <= index < at ==> (#[trigger] models[index]).id != id || models[index].state != ModelState::Available,
    ensures
        launchable_with_id(models, id, from) == launchable_with_id(models, id, at),
    decreases at - from,
{
    if from < at {
        assert(models[from].id != id || models[from].state != ModelState::Available);
        lemma_launchable_passes(models, id, from + 1, at);
    }
}

/// Among the models used lately one is offered if and only if its file is there
/// and it can be launched.
pub proof fn law_available_model_is_launchable(models: Seq<ModelRecord>, id: ModelId, at: int)
    requires
        0 <= at <= models.len(),
        forall|index: int|
            0 <= index < at ==> (#[trigger] models[index]).id != id || models[index].state != ModelState::Available,
        at < models.len() ==> models[at].id == id && models[at].state == ModelState::Available,
    ensures
        recent_of(models, seq![id]) == (if at < models.len() {
            seq![models[at]]
        } else {
            Seq::empty()
        }),
{
    lemma_launchable_passes(models, id, 0, at);
    assert(seq![id].drop_last() =~= Seq::<ModelId>::empty());
    assert(seq![id].last() == id);
    reveal_with_fuel(recent_of, 2);
    if at < models.len() {
        assert(Seq::empty().push(models[at]) =~= seq![models[at]]);
    }
}

/// The models used lately are offered in the order in which they were used.
pub proof fn law_recent_models_keep_their_order(models: Seq<ModelRecord>, first: Seq<ModelId>, then: Seq<ModelId>)
    ensures
        recent_of(models, first + then) == recent_of(models, first) + recent_of(models, then),
        recent_of(models, first).len() <= first.len(),
    decreases first.len() + then.len(),
{
    if then.len() == 0 {
        assert(first + then =~= first);
        assert(recent_of(models, first) + Seq::empty() =~= recent_of(models, first));
        if first.len() > 0 {
            law_recent_models_keep_their_order(models, first.drop_last(), then);
        }
    } else {
        assert((first + then).drop_last() =~= first + then.drop_last());
        law_recent_models_keep_their_order(models, first, then.drop_last());
        match launchable_with_id(models, then.last(), 0) {
            Some(model) => {
                assert((recent_of(models, first) + recent_of(models, then.drop_last())).push(model) =~= recent_of(
                    models,
                    first,
                ) + recent_of(models, then.drop_last()).push(model));
            },
            None => {},
        }
    }
}

/// A key is taken by another model that has it, and never by the model itself.
pub proof fn law_key_is_taken_by_another_model(models: Seq<ModelRecord>, at: int, key: Seq<char>)
    requires
        0 <= at < models.len(),
        models[at].key@ == key,
    ensures
        forall|id: ModelId| models[at].id != id ==> key_taken(models, id, key),
        (forall|index: int| 0 <= index < models.len() && index != at ==> (#[trigger] models[index]).key@ != key)
            ==> !key_taken(models, models[at].id, key),
{
    assert forall|id: ModelId| models[at].id != id implies key_taken(models, id, key) by {
        assert(models[at].id != id && models[at].key@ == key);
    }
}

/// A model is offered under its own record, as a local one, with what the engine
/// can do; of what its file tells nothing is claimed.
pub proof fn law_models_are_offered_as_they_are(
    offer: ApiModel,
    record: ModelRecord,
    capabilities: EngineCapabilities,
)
    requires
        offers_model(offer, record, capabilities),
    ensures
        offer.record.id == record.id,
        offer.record.key@ == record.key@,
        offer.record == record,
        offer.publisher@ == "local"@,
        offer.capabilities == capabilities,
        offer.architecture is None && offer.quantization is None && offer.params_string is None,
{
}

/// A request to load is refused if and only if it names a setting that the engine
/// does not offer, one that no engine here offers, or a count of zero.
pub proof fn law_requests_are_refused_for_their_settings(request: LoadRequest, capabilities: EngineCapabilities)
    ensures
        refused_setting(request, capabilities) is None <==> {
            &&& request.context_length is Some ==> capabilities.context_length && request.context_length->0 > 0
            &&& request.eval_batch_size is Some ==> capabilities.batch_size && request.eval_batch_size->0 > 0
            &&& request.flash_attention is Some ==> capabilities.flash_attention
            &&& request.num_experts is None
            &&& request.offload_kv_cache_to_gpu is None
        },
{
}

/// The setting that a refusal names is one for which the request is refused.
pub proof fn law_refusal_names_the_setting(request: LoadRequest, capabilities: EngineCapabilities)
    ensures
        request.context_length is Some && !capabilities.context_length ==> refused_setting(request, capabilities)
            == Some("context_length"@),
        request.context_length is None && request.eval_batch_size is Some && !capabilities.batch_size
            ==> refused_setting(request, capabilities) == Some("eval_batch_size"@),
        request.context_length is None && request.eval_batch_size is None && request.flash_attention is Some
            && !capabilities.flash_attention ==> refused_setting(request, capabilities) == Some("flash_attention"@),
        request.context_length is None && request.eval_batch_size is None && request.flash_attention is None
            && request.num_experts is Some ==> refused_setting(request, capabilities) == Some("num_experts"@),
        request.context_length is None && request.eval_batch_size is None && request.flash_attention is None
            && request.num_experts is None && request.offload_kv_cache_to_gpu is Some ==> refused_setting(
            request,
            capabilities,
        ) == Some("offload_kv_cache_to_gpu"@),
        request.context_length == Some(0u32) && capabilities.context_length && request.eval_batch_size is None
            && request.flash_attention is None && request.num_experts is None && request.offload_kv_cache_to_gpu is None
            ==> refused_setting(request, capabilities) == Some("context_length"@),
        request.eval_batch_size == Some(0u32) && capabilities.batch_size && request.context_length is None
            && request.flash_attention is None && request.num_experts is None && request.offload_kv_cache_to_gpu is None
            ==> refused_setting(request, capabilities) == Some("batch_size"@),
{
}

/// A request's settings take the place of the model's own, and what a request
/// cannot name stays.
pub proof fn law_request_sets_the_profile(before: LaunchSettings, after: LaunchSettings, request: LoadRequest)
    requires
        profile_applied(before, after, request),
    ensures
        request.context_length is None ==> after.context_length is None,
        request.context_length is Some ==> after.context_length is Some && after.context_length->0.number()
            == request.context_length->0,
        request.eval_batch_size is None ==> after.batch_size is None,
        request.eval_batch_size is Some ==> after.batch_size is Some && after.batch_size->0.number()
            == request.eval_batch_size->0,
        after.flash_attention == request.flash_attention,
        after.gpu_layers == before.gpu_layers,
        after.cpu_threads == before.cpu_threads,
        after.parallel_slots == before.parallel_slots,
        after.kv_cache_type == before.kv_cache_type,
        after.speculative_type == before.speculative_type,
        after.draft_model == before.draft_model,
{
}

/// Two listeners are in each other's way on the same port where one of them
/// listens on every address of the machine.
pub proof fn law_listeners_share_a_port(one: ServerAddress, two: ServerAddress)
    ensures
        shares_port(one, two) == shares_port(two, one),
        !shares_port(one, one),
        one.port != two.port ==> !shares_port(one, two),
        one.port == two.port && one.host == HostAddress::V4(0) && two.host != one.host ==> shares_port(one, two),
        one.port == two.port && one.host == HostAddress::V6(0) && two.host != one.host ==> shares_port(one, two),
        (one.host matches HostAddress::V4(number) && number != 0) && (two.host matches HostAddress::V4(other) && other
            != 0) ==> !shares_port(one, two),
        (one.host matches HostAddress::V6(number) && number != 0) && (two.host matches HostAddress::V6(other) && other
            != 0) ==> !shares_port(one, two),
{
}

/// Where both listeners can be up at once, the new one is started and the change
/// saved before the old one goes.
pub proof fn law_new_listener_is_up_before_the_old_one_goes(change: ServerChange)
    requires
        !shares_port(change.requested, change.current),
        change.old_live && !change.new_live && !change.saved,
    ensures
        change.stage == ServerStage::Build ==> change_after(change, false) == (ServerStage::StartNew, true, false, false),
        change.stage == ServerStage::StartNew ==> change_after(change, false) == (
            ServerStage::SaveNew,
            true,
            true,
            false,
        ),
        change.stage == ServerStage::SaveNew ==> change_after(ServerChange { new_live: true, ..change }, false) == (
            ServerStage::RetireOld,
            true,
            true,
            true,
        ),
        change.stage == ServerStage::RetireOld ==> change_after(
            ServerChange { new_live: true, saved: true, ..change },
            false,
        ) == (ServerStage::Done, false, true, true),
{
}

/// Where the two would share the port, the old listener makes room first.
pub proof fn law_old_listener_makes_room(change: ServerChange)
    requires
        shares_port(change.requested, change.current),
        !change.new_live && !change.saved,
    ensures
        change.stage == ServerStage::Build && change.old_live ==> change_after(change, false) == (
            ServerStage::StopOld,
            true,
            false,
            false,
        ),
        change.stage == ServerStage::StopOld ==> change_after(change, false) == (
            ServerStage::StartNew,
            false,
            false,
            false,
        ),
        change.stage == ServerStage::StartNew && !change.old_live ==> change_after(change, false) == (
            ServerStage::SaveNew,
            false,
            true,
            false,
        ),
        change.stage == ServerStage::SaveNew && !change.old_live ==> change_after(
            ServerChange { new_live: true, ..change },
            false,
        ) == (ServerStage::Done, false, true, true),
{
}

/// A change that fails is undone: the new listener goes, and the old one comes
/// back where it had to make room.
pub proof fn law_failed_change_is_undone(change: ServerChange)
    requires
        !change.saved,
    ensures
        change.stage == ServerStage::Build ==> change_after(change, true) == (
            ServerStage::Done,
            change.old_live,
            change.new_live,
            false,
        ),
        change.stage == ServerStage::SaveOnly ==> change_after(change, true) == (
            ServerStage::Done,
            change.old_live,
            change.new_live,
            false,
        ),
        change.stage == ServerStage::SaveOnly ==> change_after(change, false) == (
            ServerStage::Done,
            change.old_live,
            change.new_live,
            true,
        ),
        change.stage == ServerStage::StartNew ==> change_after(change, true) == (
            if shares_port(change.requested, change.current) {
                ServerStage::RestoreOld
            } else {
                ServerStage::Done
            },
            change.old_live,
            change.new_live,
            false,
        ),
        change.stage == ServerStage::SaveNew ==> change_after(change, true) == (
            ServerStage::StopNew,
            change.old_live,
            change.new_live,
            false,
        ),
        change.stage == ServerStage::StopNew ==> forall|failed: bool| #[trigger]
            change_after(change, failed) == (
                if shares_port(change.requested, change.current) {
                    ServerStage::RestoreOld
                } else {
                    ServerStage::Done
                },
                change.old_live,
                false,
                false,
            ),
        change.stage == ServerStage::RestoreOld ==> change_after(change, false) == (
            ServerStage::Done,
            true,
            change.new_live,
            false,
        ),
        change.stage == ServerStage::RestoreOld ==> change_after(change, true) == (
            ServerStage::Done,
            false,
            change.new_live,
            false,
        ),
{
}

/// What a change reports is what went wrong last, except that a listener that did
/// not stop cleanly is not reported.
pub proof fn law_change_reports_its_error(change: ServerChange, error: ServiceError)
    ensures
        change_error(change, Ok(())) == change.error,
        change.stage == ServerStage::SaveOnly ==> change_error(change, Err(error)) == Some(error),
        change.stage == ServerStage::Build ==> change_error(change, Err(error)) == Some(error),
        change.stage == ServerStage::StartNew ==> change_error(change, Err(error)) == Some(error),
        change.stage == ServerStage::SaveNew ==> change_error(change, Err(error)) == Some(error),
        change.stage == ServerStage::RestoreOld ==> change_error(change, Err(error)) == Some(error),
        change.stage == ServerStage::StopOld ==> change_error(change, Err(error)) == change.error,
        change.stage == ServerStage::StopNew ==> change_error(change, Err(error)) == change.error,
        change.stage == ServerStage::RetireOld ==> change_error(change, Err(error)) == change.error,
{
}

/// New settings name the directory, the engine and what a launch starts from; the
/// server and its tokens stay.
pub proof fn law_settings_are_taken_over(config: LauncherConfig, changed: LauncherConfig, settings: LauncherSettings)
    requires
        with_settings(config, changed, settings),
    ensures
        changed.catalog_directory matches Some(directory) && directory@ == settings.catalog_directory@,
        changed.engine_distribution matches Some(distribution) && distribution@ == settings.engine_distribution@,
        changed.engine_executable matches Some(executable) && executable@ == settings.engine_executable@,
        changed.default_launch_settings == settings.default_launch_settings,
        changed.auth_token_hashes@ == config.auth_token_hashes@,
        changed.bind_address == config.bind_address,
        changed.port == config.port,
        changed.auth_enabled == config.auth_enabled,
{
}

/// The server goes first and the lifecycle's task last; in between the model is
/// stopped, the configuration saved and the watcher stopped.
pub proof fn law_shutdown_goes_in_order(errors: Seq<Seq<char>>, outcome: PhaseOutcome)
    ensures
        advanced(ShutdownRunView { phase: Some(ShutdownPhase::StopGateway), errors }, outcome).phase == Some(
            ShutdownPhase::StopLifecycle,
        ),
        advanced(ShutdownRunView { phase: Some(ShutdownPhase::StopLifecycle), errors }, outcome).phase == Some(
            ShutdownPhase::PersistConfig,
        ),
        advanced(ShutdownRunView { phase: Some(ShutdownPhase::PersistConfig), errors }, outcome).phase == Some(
            ShutdownPhase::StopWatcher,
        ),
        advanced(ShutdownRunView { phase: Some(ShutdownPhase::StopWatcher), errors }, outcome).phase == Some(
            ShutdownPhase::JoinLifecycle,
        ),
        advanced(ShutdownRunView { phase: Some(ShutdownPhase::JoinLifecycle), errors }, outcome).phase is None,
        advanced(ShutdownRunView { phase: None, errors }, outcome) == (ShutdownRunView { phase: None, errors }),
{
}

/// A part that succeeds reports nothing; one that fails reports its reason; one
/// that takes too long is reported where it is waited for with a limit.
pub proof fn law_shutdown_reports_what_went_wrong(run: ShutdownRunView, phase: ShutdownPhase, reason: String)
    requires
        run.phase == Some(phase),
    ensures
        advanced(run, PhaseOutcome::Done).errors == run.errors,
        advanced(run, PhaseOutcome::Failed(reason)).errors == run.errors.push(reason@),
        phase == ShutdownPhase::StopLifecycle ==> advanced(run, PhaseOutcome::TimedOut).errors == run.errors.push(
            "lifecycle shutdown timed out"@,
        ),
        phase == ShutdownPhase::StopWatcher ==> advanced(run, PhaseOutcome::TimedOut).errors == run.errors.push(
            "catalog watcher join timed out"@,
        ),
        phase == ShutdownPhase::JoinLifecycle ==> advanced(run, PhaseOutcome::TimedOut).errors == run.errors.push(
            "lifecycle join timed out; actor aborted and joined"@,
        ),
        phase == ShutdownPhase::StopGateway || phase == ShutdownPhase::PersistConfig ==> advanced(
            run,
            PhaseOutcome::TimedOut,
        ).errors == run.errors,
{
}

/// The end of each part is told, and after it the beginning of the next.
pub proof fn law_shutdown_tells_its_parts(run: ShutdownRunView, phase: ShutdownPhase, outcome: PhaseOutcome)
    requires
        run.phase == Some(phase),
    ensures
        passage(run.phase).len() >= 1,
        passage(run.phase)[0] == ShutdownEvent::Completed(phase),
        match advanced(run, outcome).phase {
            Some(next) => passage(run.phase).len() == 2 && passage(run.phase)[1] == ShutdownEvent::Started(next),
            None => passage(run.phase).len() == 1,
        },
        passage(None).len() == 0,
{
}

/// The parts of a start stand in one order: the configuration comes first, the
/// catalog and the tokens before the watcher, the engine before the lifecycle, and
/// the server last.
pub proof fn law_start_goes_in_order()
    ensures
        StartStep::LoadConfig.number() == 0,
        StartStep::ReconcileCatalog.number() == StartStep::LoadConfig.number() + 1,
        StartStep::LoadTokens.number() == StartStep::ReconcileCatalog.number() + 1,
        StartStep::StartWatcher.number() == StartStep::LoadTokens.number() + 1,
        StartStep::ProbeEngine.number() == StartStep::StartWatcher.number() + 1,
        StartStep::SpawnLifecycle.number() == StartStep::ProbeEngine.number() + 1,
        StartStep::BuildGateway.number() == StartStep::SpawnLifecycle.number() + 1,
        StartStep::StartGateway.number() == StartStep::BuildGateway.number() + 1,
        StartStep::Running.number() == StartStep::StartGateway.number() + 1,
{
}

/// There is a lifecycle to stop once it has been spawned, and not before.
pub proof fn law_lifecycle_is_there_once_spawned(step: StartStep)
    ensures
        step.has_lifecycle() <==> step == StartStep::BuildGateway || step == StartStep::StartGateway || step
            == StartStep::Running,
{
}

/// A directory that is there and was made without an error is not reported.
pub proof fn law_missing_directory_is_reported(reason: Seq<char>, is_directory: bool)
    ensures
        directory_report(None, true) is None,
        directory_report(None, false) == Some("model directory is unavailable"@),
        directory_report(Some(reason), is_directory) == Some("model directory is unavailable: "@ + reason),
{
}

/// Without its directory a model is missing, and nothing else of it changes.
pub proof fn law_model_without_a_directory_is_missing(model: ModelRecord)
    ensures
        missing(model).state == ModelState::Missing,
        missing(model).id == model.id,
        missing(model).key == model.key,
        missing(model) == (ModelRecord { state: missing(model).state, ..model }),
        missing(missing(model)) == missing(model),
{
}

/// What went wrong is listed with semicolons in between.
pub proof fn law_failures_are_listed(parts: Seq<Seq<char>>, last: Seq<char>)
    ensures
        listed(Seq::empty()) == Seq::<char>::empty(),
        listed(seq![last]) == last,
        parts.len() > 0 ==> listed(parts.push(last)) == listed(parts) + "; "@ + last,
{
    assert(parts.push(last).drop_last() =~= parts);
}

/// Each failure of the service says what it is of.
pub proof fn law_service_failures_say_what_failed(reason: String)
    ensures
        ServiceError::Io(reason).message_text() == reason@,
        ServiceError::Watcher(reason).message_text() == "catalog watcher: "@ + reason@,
        ServiceError::ShuttingDown.message_text() == "service is shutting down"@,
        ServiceError::Authentication(reason).message_text() == "authentication token: "@ + reason@,
        ServiceError::InvalidServerSettings(reason).message_text() == "invalid server settings: "@ + reason@,
{
}

/// A directory is made where none was chosen and none is there, and watched where it
/// is there and watching is wanted.
pub proof fn law_directory_is_made_or_watched(one: bool, two: bool, made: bool, watched: bool)
    requires
        call_ensures(creates_root, (one, two), made),
        call_ensures(starts_watcher, (one, two), watched),
    ensures
        made ==> !one && !two,
        !made ==> one || two,
        watched ==> one && two,
        !watched ==> !one || !two,
{
}

/// A start goes on without the engine's answer, and without nothing else.
pub proof fn law_only_the_probe_may_fail(step: StartStep, optional: bool, cleans: bool, next: StartStep)
    requires
        call_ensures(StartStep::is_optional, (step,), optional),
        call_ensures(StartStep::cleans_up, (step,), cleans),
        call_ensures(StartStep::next, (step,), next),
    ensures
        optional <==> step == StartStep::ProbeEngine,
        cleans <==> step == StartStep::BuildGateway || step == StartStep::StartGateway || step == StartStep::Running,
        step == StartStep::LoadConfig ==> next == StartStep::ReconcileCatalog,
        step == StartStep::ReconcileCatalog ==> next == StartStep::LoadTokens,
        step == StartStep::LoadTokens ==> next == StartStep::StartWatcher,
        step == StartStep::StartWatcher ==> next == StartStep::ProbeEngine,
        step == StartStep::ProbeEngine ==> next == StartStep::SpawnLifecycle,
        step == StartStep::SpawnLifecycle ==> next == StartStep::BuildGateway,
        step == StartStep::BuildGateway ==> next == StartStep::StartGateway,
        step == StartStep::StartGateway ==> next == StartStep::Running,
        step == StartStep::Running ==> next == StartStep::Running,
{
}

/// A service that shuts down changes no settings; one that runs says what stands in
/// the way.
pub proof fn law_changes_need_a_running_service(
    one: bool,
    two: bool,
    engine: Result<(), ServiceError>,
    launcher: Result<(), ServiceError>,
    token: Result<(), ServiceError>,
)
    requires
        call_ensures(check_engine_change, (false, one), engine),
        call_ensures(check_launcher_change, (false, one, two), launcher),
        call_ensures(check_token_request, (false, one), token),
    ensures
        engine == Err::<(), ServiceError>(ServiceError::ShuttingDown),
        launcher == Err::<(), ServiceError>(ServiceError::ShuttingDown),
        token == Err::<(), ServiceError>(ServiceError::ShuttingDown),
{
}

/// In a running service the engine can be changed where it is configurable, the
/// models' directory where it is one besides, and a token be made where they are
/// asked for.
pub proof fn law_changes_need_their_conditions(
    one: bool,
    two: bool,
    engine: Result<(), ServiceError>,
    launcher: Result<(), ServiceError>,
    token: Result<(), ServiceError>,
    scan: Result<(), ServiceError>,
)
    requires
        call_ensures(check_engine_change, (true, one), engine),
        call_ensures(check_launcher_change, (true, one, two), launcher),
        call_ensures(check_token_request, (true, one), token),
        call_ensures(check_scan, (one,), scan),
    ensures
        engine is Ok <==> one,
        launcher is Ok <==> one && two,
        token is Ok <==> one,
        scan is Ok <==> one,
        engine matches Err(error) ==> error.message_text() == "authentication token: "@
            + "engine settings are not configurable"@,
        !one ==> (launcher matches Err(error) && error.message_text() == "authentication token: "@
            + "model directory must be an existing directory"@),
        one && !two ==> (launcher matches Err(error) && error.message_text() == "authentication token: "@
            + "engine settings are not configurable"@),
        token matches Err(error) ==> error.message_text() == "authentication token: "@ + "authentication is disabled"@,
        scan matches Err(error) ==> error.message_text() == "authentication token: "@
            + "model directory could not be scanned completely"@,
{
}

/// A change of the server begins where the service runs and a port is named, and
/// only saves where the address stays.
pub proof fn law_server_change_begins(
    running: bool,
    requested: ServerAddress,
    current: ServerAddress,
    auth_enabled: bool,
    result: Result<ServerChange, ServiceError>,
)
    requires
        call_ensures(ServerChange::begin, (running, requested, current, auth_enabled), result),
    ensures
        result is Ok <==> running && requested.port >= 1,
        !running ==> result == Err::<ServerChange, ServiceError>(ServiceError::ShuttingDown),
        result matches Ok(change) ==> {
            &&& change.requested == requested && change.current == current && change.auth_enabled == auth_enabled
            &&& change.old_live && !change.new_live && !change.saved && change.error is None
            &&& change.stage == ServerStage::SaveOnly <==> requested == current
            &&& change.stage == ServerStage::Build <==> requested != current
        },
        running && requested.port == 0 ==> (result matches Err(error) && error.message_text()
            == "invalid server settings: "@ + "port must be between 1 and 65535"@),
{
}

} // verus!
