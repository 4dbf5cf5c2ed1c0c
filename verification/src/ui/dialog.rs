//! The dialog for a load, and the form for the default settings.

use vstd::prelude::*;

use crate::launcher::capability::{
    BatchSize, ContextLength, CpuThreads, GpuLayers, KvCacheType, LaunchSettings, ParallelSlots,
};
use crate::launcher::model::{parsed_uuid, ModelId};
use crate::service::models::{model_with_id, position_of};
use crate::text::same_text;
use crate::ui::view_model::{field_views, fields_of, AppSnapshot, SettingField, ViewModel};

verus! {

/// A load that a user asked for.
#[derive(Debug)]
pub struct UiLoadRequest {
    pub id: ModelId,
    pub key: String,
    pub settings: LaunchSettings,
}

/// The load of a model with the settings that were saved for it.
pub fn load_request_for(snapshot: &AppSnapshot, id: ModelId) -> (result: Option<UiLoadRequest>)
    ensures
        match result {
            Some(request) => {
                let at = model_with_id(snapshot.models@, id, 0);
                at is Some && request.id == id && request.key@ == snapshot.models@[at->0].key@ && request.settings
                    == snapshot.models@[at->0].launch_profile.settings
            },
            None => model_with_id(snapshot.models@, id, 0) is None,
        },
{
    match position_of(&snapshot.models, id) {
        Some(at) => {
            let model = &snapshot.models[at];
            Some(UiLoadRequest { id: model.id, key: model.key.to_string(), settings: model.launch_profile.settings.clone() })
        },
        None => None,
    }
}

/// The values that the dialog for a load starts with.
pub fn load_dialog_values_for(snapshot: &AppSnapshot, id: ModelId) -> (result: Option<UiLoadRequest>)
    ensures
        match result {
            Some(request) => {
                let at = model_with_id(snapshot.models@, id, 0);
                at is Some && request.id == id && request.key@ == snapshot.models@[at->0].key@ && request.settings
                    == snapshot.models@[at->0].launch_profile.settings
            },
            None => model_with_id(snapshot.models@, id, 0) is None,
        },
{
    load_request_for(snapshot, id)
}

/// The settings that the dialog for a load shows.
pub fn load_dialog_fields_for(snapshot: &AppSnapshot, id: ModelId) -> (result: Option<Vec<SettingField>>)
    ensures
        match result {
            Some(fields) => {
                let at = model_with_id(snapshot.models@, id, 0);
                at is Some && field_views(fields@) == fields_of(
                    snapshot.models@[at->0].launch_profile.settings,
                    snapshot.capabilities,
                )
            },
            None => model_with_id(snapshot.models@, id, 0) is None,
        },
{
    match position_of(&snapshot.models, id) {
        Some(at) => Some(
            ViewModel::setting_fields(&snapshot.models[at].launch_profile.settings, &snapshot.capabilities),
        ),
        None => None,
    }
}

/// The numbers and choices of a form, as the window holds them.
#[derive(Clone, Copy, Debug, PartialEq, Eq)]
pub struct LaunchForm {
    pub context: i32,
    pub gpu: i32,
    pub threads: i32,
    pub batch: i32,
    pub parallel: i32,
    pub flash: bool,
    pub kv: KvCacheType,
}

/// A setting as a form shows it: as a signed number of 32 bits.
pub open spec fn shown_number(value: Option<u32>, default: u32) -> i32 {
    match value {
        Some(number) => number as i32,
        None => default as i32,
    }
}

/// The form for settings, with defaults for what is not set.
pub open spec fn form_for(settings: LaunchSettings, default_threads: u32) -> LaunchForm {
    LaunchForm {
        context: shown_number(settings.context_number(), 4096),
        gpu: shown_number(settings.gpu_number(), 0),
        threads: shown_number(settings.thread_number(), default_threads),
        batch: shown_number(settings.batch_number(), 512),
        parallel: shown_number(settings.slot_number(), 1),
        flash: match settings.flash_attention {
            Some(flash) => flash,
            None => false,
        },
        kv: match settings.kv_cache_type {
            Some(kv) => kv,
            None => KvCacheType::F16,
        },
    }
}

fn form_of(settings: &LaunchSettings, default_threads: u32) -> (result: LaunchForm)
    ensures
        result == form_for(*settings, default_threads),
{
    let context: u32 = match settings.context_length {
        Some(value) => value.get(),
        None => 4096,
    };
    let gpu: u32 = match settings.gpu_layers {
        Some(value) => value.get(),
        None => 0,
    };
    let threads: u32 = match settings.cpu_threads {
        Some(value) => value.get(),
        None => default_threads,
    };
    let batch: u32 = match settings.batch_size {
        Some(value) => value.get(),
        None => 512,
    };
    let parallel: u32 = match settings.parallel_slots {
        Some(value) => value.get(),
        None => 1,
    };
    LaunchForm {
        context: context as i32,
        gpu: gpu as i32,
        threads: threads as i32,
        batch: batch as i32,
        parallel: parallel as i32,
        flash: match settings.flash_attention {
            Some(flash) => flash,
            None => false,
        },
        kv: match settings.kv_cache_type {
            Some(kv) => kv,
            None => KvCacheType::F16,
        },
    }
}

/// The form for the default settings; no threads stand for the engine's own choice.
pub fn default_form(settings: &LaunchSettings) -> (result: LaunchForm)
    ensures
        result == form_for(*settings, 0),
{
    form_of(settings, 0)
}

/// The dialog for the load of a model.
#[derive(Debug)]
pub struct LoadDialog {
    pub id: String,
    pub key: String,
    pub form: LaunchForm,
    pub fields: Vec<SettingField>,
    pub clears: ClearMarks,
}

/// Which settings a load is to forget.
#[derive(Clone, Copy, Debug, PartialEq, Eq, Structural)]
pub struct ClearMarks {
    pub context: bool,
    pub gpu: bool,
    pub threads: bool,
    pub batch: bool,
    pub parallel: bool,
    pub flash: bool,
    pub kv: bool,
}

impl ClearMarks {
    pub open spec fn unmarked() -> Self {
        ClearMarks {
            context: false,
            gpu: false,
            threads: false,
            batch: false,
            parallel: false,
            flash: false,
            kv: false,
        }
    }
}

impl Default for ClearMarks {
    fn default() -> (result: Self)
        ensures
            result == ClearMarks::unmarked(),
    {
        ClearMarks {
            context: false,
            gpu: false,
            threads: false,
            batch: false,
            parallel: false,
            flash: false,
            kv: false,
        }
    }
}

/// The place of the model that `raw` names.
pub open spec fn named_model(snapshot: AppSnapshot, raw: Seq<char>, id: ModelId) -> bool {
    parsed_uuid(raw) == Some(id.number()) && model_with_id(snapshot.models@, id, 0) is Some
}

/// Opens the dialog for the load of a model, if there is such a model.
pub fn prepare_load(snapshot: &AppSnapshot, raw: &str) -> (result: Option<LoadDialog>)
    ensures
        match result {
            Some(dialog) => exists|id: ModelId| #[trigger]
                named_model(*snapshot, raw@, id) && {
                    let model = snapshot.models@[model_with_id(snapshot.models@, id, 0)->0];
                    &&& dialog.id@ == raw@
                    &&& dialog.key@ == model.key@
                    &&& dialog.form == form_for(model.launch_profile.settings, 1)
                    &&& field_views(dialog.fields@) == fields_of(
                        model.launch_profile.settings,
                        snapshot.capabilities,
                    )
                    &&& dialog.clears == ClearMarks::unmarked()
                },
            None => forall|id: ModelId| !named_model(*snapshot, raw@, id),
        },
{
    match ModelId::parse(raw) {
        Some(id) => {
            assert forall|other: ModelId| named_model(*snapshot, raw@, other) implies other == id by {
                crate::launcher::model::lemma_id_is_its_number(other, id);
            }
            match (load_dialog_values_for(snapshot, id), load_dialog_fields_for(snapshot, id)) {
                (Some(values), Some(fields)) => {
                    assert(named_model(*snapshot, raw@, id));
                    Some(
                        LoadDialog {
                            id: raw.to_owned(),
                            key: values.key,
                            form: form_of(&values.settings, 1),
                            fields,
                            clears: ClearMarks::default(),
                        },
                    )
                },
                _ => None,
            }
        },
        None => None,
    }
}

/// A number that may not be zero.
pub open spec fn positive(value: u32) -> Option<u32> {
    if value == 0 {
        None
    } else {
        Some(value)
    }
}

/// The settings hold these values, and nothing of speculative decoding.
pub open spec fn holds(
    settings: LaunchSettings,
    context: Option<u32>,
    gpu: Option<u32>,
    threads: Option<u32>,
    batch: Option<u32>,
    slots: Option<u32>,
    flash: Option<bool>,
    kv: Option<KvCacheType>,
) -> bool {
    &&& settings.context_number() == context
    &&& settings.gpu_number() == gpu
    &&& settings.thread_number() == threads
    &&& settings.batch_number() == batch
    &&& settings.slot_number() == slots
    &&& settings.flash_attention == flash
    &&& settings.kv_cache_type == kv
    &&& settings.speculative_type is None
    &&& settings.draft_model is None
}

pub open spec fn at_least(value: i32, least: i32) -> u32 {
    if value < least {
        least as u32
    } else {
        value as u32
    }
}

pub open spec fn kv_of(word: Seq<char>) -> KvCacheType {
    if word == "q8_0"@ {
        KvCacheType::Q8_0
    } else if word == "q4_0"@ {
        KvCacheType::Q4_0
    } else {
        KvCacheType::F16
    }
}

/// The cache type that a word of the list chooses.
pub fn kv_choice(word: &str) -> (result: KvCacheType)
    ensures
        result == kv_of(word@),
{
    if same_text(word, "q8_0") {
        KvCacheType::Q8_0
    } else if same_text(word, "q4_0") {
        KvCacheType::Q4_0
    } else {
        KvCacheType::F16
    }
}

fn raised(value: i32, least: i32) -> (result: u32)
    requires
        0 <= least,
    ensures
        result == at_least(value, least),
        value >= least ==> result == value,
{
    if value < least {
        least as u32
    } else {
        value as u32
    }
}

/// The default settings that a form gives. What is too small is raised; no threads
/// leave the choice to the engine.
pub fn launch_settings(form: LaunchForm) -> (result: LaunchSettings)
    ensures
        holds(
            result,
            Some(at_least(form.context, 1)),
            Some(at_least(form.gpu, 0)),
            positive(at_least(form.threads, 0)),
            Some(at_least(form.batch, 1)),
            Some(at_least(form.parallel, 1)),
            Some(form.flash),
            Some(form.kv),
        ),
{
    LaunchSettings {
        context_length: ContextLength::new(raised(form.context, 1)).ok(),
        gpu_layers: Some(GpuLayers::new(raised(form.gpu, 0))),
        cpu_threads: CpuThreads::new(raised(form.threads, 0)).ok(),
        batch_size: BatchSize::new(raised(form.batch, 1)).ok(),
        parallel_slots: ParallelSlots::new(raised(form.parallel, 1)).ok(),
        flash_attention: Some(form.flash),
        kv_cache_type: Some(form.kv),
        speculative_type: None,
        draft_model: None,
    }
}

/// The value of a form's number that is not to be forgotten.
pub open spec fn entered(value: i32, clear: bool) -> Option<u32> {
    if clear {
        None
    } else {
        positive(value as u32)
    }
}

/// The settings are those that were entered in the dialog for a load, without those
/// to be forgotten. A negative number stands for the unsigned one with the same
/// bits.
pub open spec fn entered_settings(settings: LaunchSettings, form: LaunchForm, clears: ClearMarks) -> bool {
    holds(
        settings,
        entered(form.context, clears.context),
        if clears.gpu {
            None
        } else {
            Some(form.gpu as u32)
        },
        entered(form.threads, clears.threads),
        entered(form.batch, clears.batch),
        entered(form.parallel, clears.parallel),
        if clears.flash {
            None
        } else {
            Some(form.flash)
        },
        if clears.kv {
            None
        } else {
            Some(form.kv)
        },
    )
}

/// The load that the dialog asks for, if its model's identifier can be read.
pub fn load_request(raw: &str, key: String, form: LaunchForm, clears: ClearMarks) -> (result: Option<UiLoadRequest>)
    ensures
        match result {
            Some(request) => parsed_uuid(raw@) == Some(request.id.number()) && request.key == key
                && entered_settings(request.settings, form, clears),
            None => parsed_uuid(raw@) is None,
        },
{
    let id = match ModelId::parse(raw) {
        Some(id) => id,
        None => {
            return None;
        },
    };
    let settings = LaunchSettings {
        context_length: if clears.context {
            None
        } else {
            ContextLength::new(form.context as u32).ok()
        },
        gpu_layers: if clears.gpu {
            None
        } else {
            Some(GpuLayers::new(form.gpu as u32))
        },
        cpu_threads: if clears.threads {
            None
        } else {
            CpuThreads::new(form.threads as u32).ok()
        },
        batch_size: if clears.batch {
            None
        } else {
            BatchSize::new(form.batch as u32).ok()
        },
        parallel_slots: if clears.parallel {
            None
        } else {
            ParallelSlots::new(form.parallel as u32).ok()
        },
        flash_attention: if clears.flash {
            None
        } else {
            Some(form.flash)
        },
        kv_cache_type: if clears.kv {
            None
        } else {
            Some(form.kv)
        },
        speculative_type: None,
        draft_model: None,
    };
    Some(UiLoadRequest { id, key, settings })
}

/// What is set for a model comes back from the dialog for its load unchanged, where
/// the user changes nothing.
pub proof fn law_dialog_keeps_what_is_set(saved: LaunchSettings, entered: LaunchSettings, default_threads: u32)
    requires
        entered_settings(entered, form_for(saved, default_threads), ClearMarks::unmarked()),
    ensures
        saved.context_number() matches Some(number) && number > 0 ==> entered.context_number()
            == saved.context_number(),
        saved.gpu_number() is Some ==> entered.gpu_number() == saved.gpu_number(),
        saved.thread_number() matches Some(number) && number > 0 ==> entered.thread_number()
            == saved.thread_number(),
        saved.batch_number() matches Some(number) && number > 0 ==> entered.batch_number()
            == saved.batch_number(),
        saved.slot_number() matches Some(number) && number > 0 ==> entered.slot_number() == saved.slot_number(),
        saved.flash_attention is Some ==> entered.flash_attention == saved.flash_attention,
        saved.kv_cache_type is Some ==> entered.kv_cache_type == saved.kv_cache_type,
{
    assert forall|number: u32| #[trigger] (number as i32) as u32 == number by {
        assert((number as i32) as u32 == number) by (bit_vector);
    }
}

} // verus!
