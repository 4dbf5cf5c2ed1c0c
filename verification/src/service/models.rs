//! The models that the service offers, how they are launched, and which were used
//! lately.

use vstd::prelude::*;

use crate::api::models::{ApiModel, LoadRequest};
use crate::launcher::capability::{BatchSize, ContextLength, EngineCapabilities, LaunchSettings};
use crate::launcher::config::LauncherConfig;
use crate::launcher::error::AppError;
use crate::launcher::model::{valid_key, ModelId, ModelKey, ModelRecord, ModelState};

verus! {

/// How many models are remembered as used lately.
pub const MAX_RECENT_MODELS: usize = 8;

/// Every model but one.
pub open spec fn other_than(id: ModelId) -> spec_fn(ModelId) -> bool {
    |other: ModelId| other != id
}

/// A list without `id` and then with it in front, cut to `limit`.
pub open spec fn moved_to_front(ids: Seq<ModelId>, id: ModelId, limit: nat) -> Seq<ModelId> {
    let all = seq![id] + ids.filter(other_than(id));
    if all.len() > limit {
        all.take(limit as int)
    } else {
        all
    }
}

/// Moves `id` to the front of a list that holds at most `limit`.
pub fn move_to_front(ids: &mut Vec<ModelId>, id: ModelId, limit: usize)
    ensures
        final(ids)@ == moved_to_front(old(ids)@, id, limit as nat),
{
    let mut all: Vec<ModelId> = Vec::new();
    all.push(id);
    proof {
        reveal(Seq::filter);
        assert(ids@.take(0).filter(other_than(id)) =~= Seq::empty());
    }
    for index in 0..ids.len()
        invariant
            all@ == seq![id] + ids@.take(index as int).filter(other_than(id)),
    {
        proof {
            reveal(Seq::filter);
            assert(ids@.take(index + 1).drop_last() =~= ids@.take(index as int));
            assert(ids@.take(index + 1).last() == ids@[index as int]);
        }
        if ids[index] != id {
            all.push(ids[index]);
        }
        assert(all@ =~= seq![id] + ids@.take(index + 1).filter(other_than(id)));
    }
    assert(ids@.take(ids@.len() as int) =~= ids@);
    if all.len() > limit {
        let ghost before = all@;
        all.truncate(limit);
        assert(all@ =~= before.take(limit as int));
    }
    *ids = all;
}

/// The models used lately once `id` was used: `id` first, then the others in their
/// order.
pub open spec fn used(recent: Seq<ModelId>, id: ModelId) -> Seq<ModelId> {
    moved_to_front(recent, id, MAX_RECENT_MODELS as nat)
}

/// Remembers that a model was used.
pub fn record_recent(recent: &mut Vec<ModelId>, id: ModelId)
    ensures
        final(recent)@ == used(old(recent)@, id),
{
    move_to_front(recent, id, MAX_RECENT_MODELS);
}

/// No model is remembered twice, and never more than the limit.
pub proof fn law_recent_models_are_few_and_distinct(recent: Seq<ModelId>, id: ModelId)
    requires
        recent.no_duplicates(),
    ensures
        used(recent, id).len() <= MAX_RECENT_MODELS,
        used(recent, id).no_duplicates(),
        used(recent, id)[0] == id,
{
    let wanted = other_than(id);
    let kept = recent.filter(wanted);
    lemma_filtered(recent, wanted);
    let all = seq![id] + kept;
    assert forall|one: int, two: int| 0 <= one < all.len() && 0 <= two < all.len() && one != two implies all[one]
        != all[two] by {
        if one > 0 && two > 0 {
            assert(all[one] == kept[one - 1] && all[two] == kept[two - 1]);
        } else if one == 0 {
            assert(all[two] == kept[two - 1]);
            assert(wanted(kept[two - 1]));
        } else {
            assert(all[one] == kept[one - 1]);
            assert(wanted(kept[one - 1]));
        }
    }
    let few = used(recent, id);
    assert forall|one: int, two: int| 0 <= one < few.len() && 0 <= two < few.len() && one != two implies few[one]
        != few[two] by {
        assert(few[one] == all[one] && few[two] == all[two]);
    }
}

proof fn lemma_filtered(recent: Seq<ModelId>, wanted: spec_fn(ModelId) -> bool)
    requires
        recent.no_duplicates(),
    ensures
        recent.filter(wanted).no_duplicates(),
        forall|index: int|
            0 <= index < recent.filter(wanted).len() ==> wanted(#[trigger] recent.filter(wanted)[index])
                && recent.contains(recent.filter(wanted)[index]),
    decreases recent.len(),
{
    reveal(Seq::filter);
    if recent.len() > 0 {
        let front = recent.drop_last();
        let kept = front.filter(wanted);
        lemma_filtered(front, wanted);
        assert forall|index: int| 0 <= index < recent.filter(wanted).len() implies wanted(
            #[trigger] recent.filter(wanted)[index],
        ) && recent.contains(recent.filter(wanted)[index]) by {
            if index < kept.len() {
                assert(recent.filter(wanted)[index] == kept[index]);
                let at = choose|at: int| 0 <= at < front.len() && front[at] == kept[index];
                assert(recent[at] == kept[index]);
            } else {
                assert(recent[recent.len() - 1] == recent.last());
            }
        }
        assert forall|index: int| 0 <= index < kept.len() implies #[trigger] kept[index] != recent.last() by {
            let at = choose|at: int| 0 <= at < front.len() && front[at] == kept[index];
            assert(recent[at] == kept[index]);
        }
    }
}

/// The first model with this identifier, from `from` on.
pub open spec fn model_with_id(models: Seq<ModelRecord>, id: ModelId, from: int) -> Option<int>
    decreases models.len() - from,
{
    if from < 0 || from >= models.len() {
        None
    } else if models[from].id == id {
        Some(from)
    } else {
        model_with_id(models, id, from + 1)
    }
}

/// Where the first model with this identifier is.
pub fn position_of(models: &Vec<ModelRecord>, id: ModelId) -> (result: Option<usize>)
    ensures
        match result {
            Some(at) => model_with_id(models@, id, 0) == Some(at as int) && at < models@.len() && models@[at as int].id
                == id,
            None => model_with_id(models@, id, 0) is None,
        },
{
    for index in 0..models.len()
        invariant
            model_with_id(models@, id, 0) == model_with_id(models@, id, index as int),
    {
        if models[index].id == id {
            return Some(index);
        }
    }
    None
}

/// The model with this identifier.
pub fn find_by_id(models: &Vec<ModelRecord>, id: ModelId) -> (result: Result<ModelRecord, AppError>)
    ensures
        match result {
            Ok(model) => model_with_id(models@, id, 0) is Some && model == models@[model_with_id(
                models@,
                id,
                0,
            )->0],
            Err(error) => model_with_id(models@, id, 0) is None && error == AppError::ModelNotFound,
        },
{
    match position_of(models, id) {
        Some(at) => Ok(models[at].clone()),
        None => Err(AppError::ModelNotFound),
    }
}

/// The first model with this identifier that can be launched, from `from` on.
pub open spec fn launchable_with_id(models: Seq<ModelRecord>, id: ModelId, from: int) -> Option<ModelRecord>
    decreases models.len() - from,
{
    if from < 0 || from >= models.len() {
        None
    } else if models[from].id == id && models[from].state is Available {
        Some(models[from])
    } else {
        launchable_with_id(models, id, from + 1)
    }
}

/// The models used lately that can be launched.
pub open spec fn recent_of(models: Seq<ModelRecord>, recent: Seq<ModelId>) -> Seq<ModelRecord>
    decreases recent.len(),
{
    if recent.len() == 0 {
        Seq::empty()
    } else {
        let earlier = recent_of(models, recent.drop_last());
        match launchable_with_id(models, recent.last(), 0) {
            Some(model) => earlier.push(model),
            None => earlier,
        }
    }
}

fn find_launchable(models: &Vec<ModelRecord>, id: ModelId) -> (result: Option<ModelRecord>)
    ensures
        result == launchable_with_id(models@, id, 0),
{
    for index in 0..models.len()
        invariant
            launchable_with_id(models@, id, 0) == launchable_with_id(models@, id, index as int),
    {
        let available = match models[index].state {
            ModelState::Available => true,
            _ => false,
        };
        if models[index].id == id && available {
            return Some(models[index].clone());
        }
    }
    None
}

/// The models used lately that can be launched, the latest first.
pub fn recent_models(models: &Vec<ModelRecord>, recent: &Vec<ModelId>) -> (result: Vec<ModelRecord>)
    ensures
        result@ == recent_of(models@, recent@),
{
    let mut found: Vec<ModelRecord> = Vec::new();
    assert(recent@.take(0) =~= Seq::empty());
    for index in 0..recent.len()
        invariant
            found@ == recent_of(models@, recent@.take(index as int)),
    {
        assert(recent@.take(index + 1).drop_last() =~= recent@.take(index as int));
        if let Some(model) = find_launchable(models, recent[index]) {
            found.push(model);
        }
    }
    assert(recent@.take(recent@.len() as int) =~= recent@);
    found
}

/// The model is offered as it is, by nobody in particular.
pub open spec fn offers_model(offer: ApiModel, record: ModelRecord, capabilities: EngineCapabilities) -> bool {
    &&& offer.record == record
    &&& offer.publisher@ == "local"@
    &&& offer.architecture is None
    &&& offer.quantization is None
    &&& offer.params_string is None
    &&& offer.capabilities == capabilities
}

/// The models that the interface offers, in their order.
pub fn api_models(config: &LauncherConfig, capabilities: &EngineCapabilities) -> (result: Vec<ApiModel>)
    ensures
        result@.len() == config.models@.len(),
        forall|index: int|
            0 <= index < config.models@.len() ==> offers_model(
                #[trigger] result@[index],
                config.models@[index],
                *capabilities,
            ),
{
    let mut offers: Vec<ApiModel> = Vec::new();
    for index in 0..config.models.len()
        invariant
            offers@.len() == index,
            forall|earlier: int|
                0 <= earlier < index ==> offers_model(
                    #[trigger] offers@[earlier],
                    config.models@[earlier],
                    *capabilities,
                ),
    {
        offers.push(
            ApiModel {
                record: config.models[index].clone(),
                publisher: "local".to_owned(),
                architecture: None,
                quantization: None,
                params_string: None,
                capabilities: *capabilities,
            },
        );
    }
    offers
}

/// The first setting that a request asks for and that cannot be had.
pub open spec fn refused_setting(request: LoadRequest, capabilities: EngineCapabilities) -> Option<Seq<char>> {
    if request.context_length is Some && !capabilities.context_length {
        Some("context_length"@)
    } else if request.eval_batch_size is Some && !capabilities.batch_size {
        Some("eval_batch_size"@)
    } else if request.flash_attention is Some && !capabilities.flash_attention {
        Some("flash_attention"@)
    } else if request.num_experts is Some {
        Some("num_experts"@)
    } else if request.offload_kv_cache_to_gpu is Some {
        Some("offload_kv_cache_to_gpu"@)
    } else if request.context_length == Some(0u32) {
        Some("context_length"@)
    } else if request.eval_batch_size == Some(0u32) {
        Some("batch_size"@)
    } else {
        None
    }
}

/// The settings are those that the request asks for; the rest stays as it was.
pub open spec fn profile_applied(before: LaunchSettings, after: LaunchSettings, request: LoadRequest) -> bool {
    &&& after == (LaunchSettings {
        context_length: after.context_length,
        batch_size: after.batch_size,
        flash_attention: request.flash_attention,
        ..before
    })
    &&& match request.context_length {
        Some(length) => after.context_length is Some && after.context_length->0.number() == length,
        None => after.context_length is None,
    }
    &&& match request.eval_batch_size {
        Some(size) => after.batch_size is Some && after.batch_size->0.number() == size,
        None => after.batch_size is None,
    }
}

/// The model with the settings that a request asks for.
pub fn apply_profile(model: ModelRecord, capabilities: &EngineCapabilities, request: &LoadRequest) -> (result: Result<
    ModelRecord,
    AppError,
>)
    ensures
        match result {
            Ok(changed) => {
                &&& refused_setting(*request, *capabilities) is None
                &&& changed == (ModelRecord { launch_profile: changed.launch_profile, ..model })
                &&& profile_applied(model.launch_profile.settings, changed.launch_profile.settings, *request)
            },
            Err(AppError::InvalidSetting(setting)) => refused_setting(*request, *capabilities) == Some(setting@),
            Err(_) => false,
        },
{
    if request.context_length.is_some() && !capabilities.context_length {
        return Err(AppError::InvalidSetting("context_length"));
    }
    if request.eval_batch_size.is_some() && !capabilities.batch_size {
        return Err(AppError::InvalidSetting("eval_batch_size"));
    }
    if request.flash_attention.is_some() && !capabilities.flash_attention {
        return Err(AppError::InvalidSetting("flash_attention"));
    }
    if request.num_experts.is_some() {
        return Err(AppError::InvalidSetting("num_experts"));
    }
    if request.offload_kv_cache_to_gpu.is_some() {
        return Err(AppError::InvalidSetting("offload_kv_cache_to_gpu"));
    }
    let mut changed = model;
    let context_length = match request.context_length {
        Some(length) => match ContextLength::new(length) {
            Ok(length) => Some(length),
            Err(error) => {
                return Err(error);
            },
        },
        None => None,
    };
    let batch_size = match request.eval_batch_size {
        Some(size) => match BatchSize::new(size) {
            Ok(size) => Some(size),
            Err(error) => {
                return Err(error);
            },
        },
        None => None,
    };
    changed.launch_profile.settings.context_length = context_length;
    changed.launch_profile.settings.batch_size = batch_size;
    changed.launch_profile.settings.flash_attention = request.flash_attention;
    Ok(changed)
}

/// Another model has the key.
pub open spec fn key_taken(models: Seq<ModelRecord>, id: ModelId, key: Seq<char>) -> bool {
    exists|index: int| 0 <= index < models.len() && #[trigger] models[index].id != id && models[index].key@ == key
}

/// The model to be loaded under a key of the user's choice and with these
/// settings.
pub fn prepare_profile_load(models: &Vec<ModelRecord>, id: ModelId, key: String, settings: LaunchSettings) -> (result:
    Result<ModelRecord, AppError>)
    ensures
        match result {
            Ok(model) => {
                &&& valid_key(key@) && model_with_id(models@, id, 0) is Some && !key_taken(models@, id, key@)
                &&& model.key@ == key@
                &&& model == (ModelRecord {
                    key: model.key,
                    launch_profile: model.launch_profile,
                    ..models@[model_with_id(models@, id, 0)->0]
                })
                &&& model.launch_profile.settings == settings
            },
            Err(error) => error == (if !valid_key(key@) {
                AppError::InvalidModelKey
            } else if model_with_id(models@, id, 0) is None {
                AppError::ModelNotFound
            } else {
                AppError::InvalidModelKey
            }) && !(valid_key(key@) && model_with_id(models@, id, 0) is Some && !key_taken(models@, id, key@)),
        },
{
    let ghost wanted = key@;
    let parsed = match ModelKey::parse(key) {
        Ok(parsed) => parsed,
        Err(error) => {
            return Err(error);
        },
    };
    let mut model = match find_by_id(models, id) {
        Ok(model) => model,
        Err(error) => {
            return Err(error);
        },
    };
    for index in 0..models.len()
        invariant
            wanted == key@,
            parsed@ == wanted,
            valid_key(wanted),
            model_with_id(models@, id, 0) is Some,
            forall|earlier: int|
                0 <= earlier < index ==> !(#[trigger] models@[earlier].id != id && models@[earlier].key@ == wanted),
    {
        if models[index].id != id && models[index].key.is(parsed.as_str()) {
            assert(models@[index as int].id != id);
            assert(key_taken(models@, id, wanted));
            return Err(AppError::InvalidModelKey);
        }
    }
    model.key = parsed;
    model.launch_profile.settings = settings;
    Ok(model)
}

/// Puts a changed model in the place of the one with its identifier.
pub fn replace_record(models: &mut Vec<ModelRecord>, model: &ModelRecord) -> (result: Result<(), AppError>)
    ensures
        match result {
            Ok(_) => model_with_id(old(models)@, model.id, 0) is Some && final(models)@ == old(models)@.update(
                model_with_id(old(models)@, model.id, 0)->0,
                *model,
            ),
            Err(error) => model_with_id(old(models)@, model.id, 0) is None && final(models)@ == old(models)@
                && error == AppError::ModelNotFound,
        },
{
    match position_of(models, model.id) {
        Some(at) => {
            let copy = model.clone();
            models.set(at, copy);
            Ok(())
        },
        None => Err(AppError::ModelNotFound),
    }
}

} // verus!
