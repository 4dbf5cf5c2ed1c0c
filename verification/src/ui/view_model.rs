//! The list of models: what is shown of each, what a search finds, and what can be
//! done with a model.

use vstd::prelude::*;
use vstd::seq_lib::lemma_seq_concat_contains_all_elements;

use crate::launcher::capability::{missing, EngineCapabilities, LaunchSettings, SettingId};
use crate::launcher::lifecycle::{LifecycleSnapshot, LifecycleState};
use crate::launcher::model::{uuid_text, ModelId, ModelRecord, ModelState};
use crate::service::models::{model_with_id, position_of};
use crate::text::{
    chars_of, contains, debug_quoted, debug_text, lowercase, occurs, push_text, string_of, to_lowercase, trim,
    trimmed,
};
use crate::ui::sizes::{format_bytes, gigabytes};

verus! {

/// Everything that the window shows.
#[derive(Debug)]
pub struct AppSnapshot {
    pub models: Vec<ModelRecord>,
    pub recent_models: Vec<ModelRecord>,
    pub lifecycle: LifecycleSnapshot,
    pub capabilities: EngineCapabilities,
    pub authentication_status: String,
    pub server_warning: String,
    pub engine_valid: bool,
    pub engine_diagnostic: Option<String>,
}

pub open spec fn state_name(state: LifecycleState) -> Seq<char> {
    match state {
        LifecycleState::Stopped => "Stopped"@,
        LifecycleState::Starting => "Starting"@,
        LifecycleState::Running => "Running"@,
        LifecycleState::Stopping => "Stopping"@,
        LifecycleState::Backoff => "Backoff"@,
        LifecycleState::FailedValidation => "FailedValidation"@,
    }
}

/// The name of a state, as the window and the icon show it.
pub fn state_word(state: LifecycleState) -> (result: &'static str)
    ensures
        result@ == state_name(state),
{
    match state {
        LifecycleState::Stopped => "Stopped",
        LifecycleState::Starting => "Starting",
        LifecycleState::Running => "Running",
        LifecycleState::Stopping => "Stopping",
        LifecycleState::Backoff => "Backoff",
        LifecycleState::FailedValidation => "FailedValidation",
    }
}

pub open spec fn availability(state: ModelState) -> Seq<char> {
    match state {
        ModelState::Available => "Available"@,
        ModelState::Missing => "Missing"@,
        ModelState::Unlaunchable { reason } => "Unlaunchable { reason: "@ + debug_quoted(reason@) + " }"@,
    }
}

fn availability_text(state: &ModelState) -> (result: String)
    ensures
        result@ == availability(*state),
{
    match state {
        ModelState::Available => "Available".to_owned(),
        ModelState::Missing => "Missing".to_owned(),
        ModelState::Unlaunchable { reason } => {
            let mut text = "Unlaunchable { reason: ".to_owned();
            push_text(&mut text, debug_text(reason.as_str()).as_str());
            push_text(&mut text, " }");
            text
        },
    }
}

/// A model in the list.
#[derive(Debug, PartialEq, Eq)]
pub struct ModelRow {
    pub id: ModelId,
    pub name: String,
    pub key: String,
    pub path: String,
    pub size: String,
    pub status: String,
}

#[verifier::ext_equal]
pub struct RowView {
    pub id: ModelId,
    pub name: Seq<char>,
    pub key: Seq<char>,
    pub path: Seq<char>,
    pub size: Seq<char>,
    pub status: Seq<char>,
}

impl View for ModelRow {
    type V = RowView;

    open spec fn view(&self) -> RowView {
        RowView {
            id: self.id,
            name: self.name@,
            key: self.key@,
            path: self.path@,
            size: self.size@,
            status: self.status@,
        }
    }
}

pub open spec fn row_views(rows: Seq<ModelRow>) -> Seq<RowView> {
    rows.map_values(|row: ModelRow| row@)
}

pub open spec fn listed(rows: Seq<&ModelRow>) -> Seq<RowView> {
    rows.map_values(|row: &ModelRow| row@)
}

/// What is shown of a model: the state of the engine where the model is the one
/// that is wanted, else whether it can be launched.
pub open spec fn row_of(model: ModelRecord, lifecycle: LifecycleSnapshot) -> RowView {
    RowView {
        id: model.id,
        name: model.display_name@,
        key: model.key@,
        path: model.path@,
        size: gigabytes(model.size_bytes),
        status: if lifecycle.desired_model == Some(model.id) {
            state_name(lifecycle.state)
        } else {
            availability(model.state)
        },
    }
}

/// A row for every model, in their order.
pub open spec fn rows_of(models: Seq<ModelRecord>, lifecycle: LifecycleSnapshot) -> Seq<RowView> {
    models.map_values(|model: ModelRecord| row_of(model, lifecycle))
}

/// Whether a search finds a row: by name, key or path, whatever the case.
pub open spec fn found(query: Seq<char>) -> spec_fn(RowView) -> bool {
    let wanted = lowercase(trimmed(query));
    |row: RowView|
        wanted.len() == 0 || occurs(lowercase(row.name), wanted) || occurs(lowercase(row.key), wanted) || occurs(
            lowercase(row.path),
            wanted,
        )
}

/// Which columns there is room for.
#[derive(Clone, Copy, Debug, PartialEq, Eq, Structural)]
pub struct MetadataVisibility {
    pub size: bool,
    pub path: bool,
}

/// What can be done with a model.
#[derive(Debug, PartialEq, Eq)]
pub enum ModelAction {
    Load,
    Eject,
    Disabled(String),
}

pub enum ActionView {
    Load,
    Eject,
    Disabled(Seq<char>),
}

impl View for ModelAction {
    type V = ActionView;

    open spec fn view(&self) -> ActionView {
        match self {
            ModelAction::Load => ActionView::Load,
            ModelAction::Eject => ActionView::Eject,
            ModelAction::Disabled(reason) => ActionView::Disabled(reason@),
        }
    }
}

/// What can be done with a model: the wanted one can be ejected; another one can be
/// loaded while no request is served and the engine is valid.
pub open spec fn action_for(snapshot: AppSnapshot, id: ModelId) -> ActionView {
    if snapshot.lifecycle.desired_model == Some(id) {
        ActionView::Eject
    } else if snapshot.lifecycle.in_flight > 0 {
        ActionView::Disabled("Finish active requests or eject the current model first."@)
    } else if !snapshot.engine_valid {
        ActionView::Disabled(
            match snapshot.engine_diagnostic {
                Some(diagnostic) => diagnostic@,
                None => "Engine settings must be validated before loading."@,
            },
        )
    } else {
        ActionView::Load
    }
}

/// A setting in the dialog.
#[derive(Debug, PartialEq, Eq)]
pub struct SettingField {
    pub id: &'static str,
    pub visible: bool,
    pub retained_unsupported: bool,
}

#[verifier::ext_equal]
pub struct FieldView {
    pub id: Seq<char>,
    pub visible: bool,
    pub retained_unsupported: bool,
}

impl View for SettingField {
    type V = FieldView;

    open spec fn view(&self) -> FieldView {
        FieldView { id: self.id@, visible: self.visible, retained_unsupported: self.retained_unsupported }
    }
}

pub open spec fn field_views(fields: Seq<SettingField>) -> Seq<FieldView> {
    fields.map_values(|field: SettingField| field@)
}

/// A setting is shown if the engine understands it, or if a value was kept that it
/// does not understand.
pub open spec fn field_view(id: Seq<char>, supported: bool, unsupported: bool) -> FieldView {
    FieldView { id, visible: supported || unsupported, retained_unsupported: unsupported }
}

pub open spec fn fields_of(settings: LaunchSettings, caps: EngineCapabilities) -> Seq<FieldView> {
    fields_with(settings.rendered_unsupported(caps), caps)
}

/// The settings of the dialog, in their fixed order, where these are not understood.
pub open spec fn fields_with(unsupported: Seq<SettingId>, caps: EngineCapabilities) -> Seq<FieldView> {
    seq![
        field_view("context_length"@, caps.context_length, unsupported.contains(SettingId::ContextLength)),
        field_view("gpu_layers"@, caps.gpu_layers, unsupported.contains(SettingId::GpuLayers)),
        field_view("cpu_threads"@, caps.cpu_threads, unsupported.contains(SettingId::CpuThreads)),
        field_view("batch_size"@, caps.batch_size, unsupported.contains(SettingId::BatchSize)),
        field_view("parallel_slots"@, caps.parallel_slots, unsupported.contains(SettingId::ParallelSlots)),
        field_view("flash_attention"@, caps.flash_attention, unsupported.contains(SettingId::FlashAttention)),
        field_view("kv_cache_type"@, caps.kv_cache_type, unsupported.contains(SettingId::KvCacheType)),
    ]
}

/// A list of at most one setting holds it if it is set and not understood.
proof fn lemma_missing(set: bool, supported: bool, id: SettingId, other: SettingId)
    ensures
        missing(set, supported, id).contains(other) == (set && !supported && id == other),
{
    if set && !supported {
        assert(missing(set, supported, id)[0] == id);
    }
}

/// What is set and not understood, one setting at a time.
spec fn retained(settings: LaunchSettings, caps: EngineCapabilities, id: SettingId) -> bool {
    match id {
        SettingId::ContextLength => settings.context_length is Some && !caps.context_length,
        SettingId::GpuLayers => settings.gpu_layers is Some && !caps.gpu_layers,
        SettingId::CpuThreads => settings.cpu_threads is Some && !caps.cpu_threads,
        SettingId::BatchSize => settings.batch_size is Some && !caps.batch_size,
        SettingId::ParallelSlots => settings.parallel_slots is Some && !caps.parallel_slots,
        SettingId::FlashAttention => settings.flash_attention == Some(true) && !caps.flash_attention,
        SettingId::KvCacheType => settings.kv_cache_type is Some && !caps.kv_cache_type,
        SettingId::SpeculativeType => settings.speculative_type is Some && !caps.speculative_type,
    }
}

/// Lists one after another hold what one of them holds.
proof fn lemma_held_by_one(
    first: Seq<SettingId>,
    second: Seq<SettingId>,
    third: Seq<SettingId>,
    fourth: Seq<SettingId>,
    fifth: Seq<SettingId>,
    sixth: Seq<SettingId>,
    seventh: Seq<SettingId>,
    eighth: Seq<SettingId>,
    id: SettingId,
)
    ensures
        (first + second + third + fourth + fifth + sixth + seventh + eighth).contains(id) == (first.contains(id)
            || second.contains(id) || third.contains(id) || fourth.contains(id) || fifth.contains(id)
            || sixth.contains(id) || seventh.contains(id) || eighth.contains(id)),
{
    lemma_seq_concat_contains_all_elements(first, second, id);
    let two = first + second;
    lemma_seq_concat_contains_all_elements(two, third, id);
    let three = two + third;
    lemma_seq_concat_contains_all_elements(three, fourth, id);
    let four = three + fourth;
    lemma_seq_concat_contains_all_elements(four, fifth, id);
    let five = four + fifth;
    lemma_seq_concat_contains_all_elements(five, sixth, id);
    let six = five + sixth;
    lemma_seq_concat_contains_all_elements(six, seventh, id);
    lemma_seq_concat_contains_all_elements(six + seventh, eighth, id);
}

proof fn lemma_retained(settings: LaunchSettings, caps: EngineCapabilities, id: SettingId)
    ensures
        settings.rendered_unsupported(caps).contains(id) == retained(settings, caps, id),
{
    lemma_missing(settings.context_length is Some, caps.context_length, SettingId::ContextLength, id);
    lemma_missing(settings.gpu_layers is Some, caps.gpu_layers, SettingId::GpuLayers, id);
    lemma_missing(settings.cpu_threads is Some, caps.cpu_threads, SettingId::CpuThreads, id);
    lemma_missing(settings.batch_size is Some, caps.batch_size, SettingId::BatchSize, id);
    lemma_missing(settings.parallel_slots is Some, caps.parallel_slots, SettingId::ParallelSlots, id);
    lemma_missing(settings.flash_attention == Some(true), caps.flash_attention, SettingId::FlashAttention, id);
    lemma_missing(settings.kv_cache_type is Some, caps.kv_cache_type, SettingId::KvCacheType, id);
    lemma_missing(settings.speculative_type is Some, caps.speculative_type, SettingId::SpeculativeType, id);
    lemma_held_by_one(
        missing(settings.context_length is Some, caps.context_length, SettingId::ContextLength),
        missing(settings.gpu_layers is Some, caps.gpu_layers, SettingId::GpuLayers),
        missing(settings.cpu_threads is Some, caps.cpu_threads, SettingId::CpuThreads),
        missing(settings.batch_size is Some, caps.batch_size, SettingId::BatchSize),
        missing(settings.parallel_slots is Some, caps.parallel_slots, SettingId::ParallelSlots),
        missing(settings.flash_attention == Some(true), caps.flash_attention, SettingId::FlashAttention),
        missing(settings.kv_cache_type is Some, caps.kv_cache_type, SettingId::KvCacheType),
        missing(settings.speculative_type is Some, caps.speculative_type, SettingId::SpeculativeType),
        id,
    );
}

/// A value is never hidden: every setting that has one is shown, and one that the
/// engine does not understand is marked.
pub proof fn law_set_values_are_shown(settings: LaunchSettings, caps: EngineCapabilities)
    ensures
        settings.context_length is Some ==> fields_of(settings, caps)[0].visible,
        settings.gpu_layers is Some ==> fields_of(settings, caps)[1].visible,
        settings.cpu_threads is Some ==> fields_of(settings, caps)[2].visible,
        settings.batch_size is Some ==> fields_of(settings, caps)[3].visible,
        settings.parallel_slots is Some ==> fields_of(settings, caps)[4].visible,
        settings.flash_attention == Some(true) ==> fields_of(settings, caps)[5].visible,
        settings.kv_cache_type is Some ==> fields_of(settings, caps)[6].visible,
        fields_of(settings, caps)[0].retained_unsupported == (settings.context_length is Some
            && !caps.context_length),
        fields_of(settings, caps)[1].retained_unsupported == (settings.gpu_layers is Some && !caps.gpu_layers),
        fields_of(settings, caps)[2].retained_unsupported == (settings.cpu_threads is Some
            && !caps.cpu_threads),
        fields_of(settings, caps)[3].retained_unsupported == (settings.batch_size is Some && !caps.batch_size),
        fields_of(settings, caps)[4].retained_unsupported == (settings.parallel_slots is Some
            && !caps.parallel_slots),
        fields_of(settings, caps)[5].retained_unsupported == (settings.flash_attention == Some(true)
            && !caps.flash_attention),
        fields_of(settings, caps)[6].retained_unsupported == (settings.kv_cache_type is Some
            && !caps.kv_cache_type),
{
    lemma_retained(settings, caps, SettingId::ContextLength);
    lemma_retained(settings, caps, SettingId::GpuLayers);
    lemma_retained(settings, caps, SettingId::CpuThreads);
    lemma_retained(settings, caps, SettingId::BatchSize);
    lemma_retained(settings, caps, SettingId::ParallelSlots);
    lemma_retained(settings, caps, SettingId::FlashAttention);
    lemma_retained(settings, caps, SettingId::KvCacheType);
}

fn field(id: &'static str, supported: bool, retained_unsupported: bool) -> (result: SettingField)
    ensures
        result@ == field_view(id@, supported, retained_unsupported),
{
    SettingField { id, visible: supported || retained_unsupported, retained_unsupported }
}

fn has_setting(settings: &Vec<SettingId>, id: SettingId) -> (result: bool)
    ensures
        result == settings@.contains(id),
{
    for index in 0..settings.len()
        invariant
            forall|earlier: int| 0 <= earlier < index ==> settings@[earlier] != id,
    {
        if settings[index] == id {
            return true;
        }
    }
    false
}

/// The list of models, ready to be shown.
#[derive(Debug)]
pub struct ViewModel {
    rows: Vec<ModelRow>,
    snapshot: AppSnapshot,
}

impl ViewModel {
    /// What it was made from.
    pub closed spec fn source(self) -> AppSnapshot {
        self.snapshot
    }

    /// The rows that it shows.
    pub closed spec fn shown(self) -> Seq<RowView> {
        row_views(self.rows@)
    }

    pub fn from_snapshot(snapshot: AppSnapshot) -> (result: Self)
        ensures
            result.source() == snapshot,
            result.shown() == rows_of(snapshot.models@, snapshot.lifecycle),
    {
        let mut rows: Vec<ModelRow> = Vec::new();
        for index in 0..snapshot.models.len()
            invariant
                rows@.len() == index,
                forall|earlier: int|
                    0 <= earlier < index ==> (#[trigger] rows@[earlier])@ == row_of(
                        snapshot.models@[earlier],
                        snapshot.lifecycle,
                    ),
        {
            let model = &snapshot.models[index];
            let wanted = match snapshot.lifecycle.desired_model {
                Some(id) => id == model.id,
                None => false,
            };
            rows.push(
                ModelRow {
                    id: model.id,
                    name: model.display_name.clone(),
                    key: model.key.to_string(),
                    path: model.path.clone(),
                    size: format_bytes(model.size_bytes),
                    status: if wanted {
                        state_word(snapshot.lifecycle.state).to_owned()
                    } else {
                        availability_text(&model.state)
                    },
                },
            );
        }
        assert(row_views(rows@) =~= rows_of(snapshot.models@, snapshot.lifecycle));
        ViewModel { rows, snapshot }
    }

    pub fn snapshot(&self) -> (result: &AppSnapshot)
        ensures
            *result == self.source(),
    {
        &self.snapshot
    }

    pub fn rows(&self) -> (result: &Vec<ModelRow>)
        ensures
            row_views(result@) == self.shown(),
    {
        &self.rows
    }

    /// The rows that a search finds, in their order.
    pub fn filtered_rows(&self, query: &str) -> (result: Vec<&ModelRow>)
        ensures
            listed(result@) == self.shown().filter(found(query@)),
    {
        let wanted = chars_of(
            to_lowercase(string_of(&trim(&chars_of(query))).as_str()).as_str(),
        );
        let ghost all = self.shown();
        let mut rows: Vec<&ModelRow> = Vec::new();
        proof {
            reveal(Seq::filter);
            assert(all.take(0).filter(found(query@)) =~= Seq::empty());
            assert(listed(rows@) =~= Seq::empty());
        }
        for index in 0..self.rows.len()
            invariant
                all == row_views(self.rows@),
                wanted@ == lowercase(trimmed(query@)),
                listed(rows@) == all.take(index as int).filter(found(query@)),
        {
            let row = &self.rows[index];
            proof {
                reveal(Seq::filter);
                assert(all.take(index + 1).drop_last() =~= all.take(index as int));
                assert(all.take(index + 1).last() == row@);
            }
            if wanted.len() == 0 || contains(&chars_of(to_lowercase(row.name.as_str()).as_str()), &wanted)
                || contains(&chars_of(to_lowercase(row.key.as_str()).as_str()), &wanted) || contains(
                &chars_of(to_lowercase(row.path.as_str()).as_str()),
                &wanted,
            ) {
                let ghost before = rows@;
                rows.push(row);
                assert(listed(rows@) =~= listed(before).push(row@));
            }
        }
        assert(all.take(all.len() as int) =~= all);
        rows
    }

    /// Which columns there is room for in a window of this width.
    pub fn metadata_visibility(&self, width: u32) -> (result: MetadataVisibility)
        ensures
            result.size == (width >= 500),
            result.path == (width >= 720),
    {
        MetadataVisibility { size: width >= 500, path: width >= 720 }
    }

    pub fn action(&self, id: ModelId) -> (result: ModelAction)
        ensures
            result@ == action_for(self.source(), id),
    {
        let wanted = match self.snapshot.lifecycle.desired_model {
            Some(desired) => desired == id,
            None => false,
        };
        if wanted {
            return ModelAction::Eject;
        }
        if self.snapshot.lifecycle.in_flight > 0 {
            return ModelAction::Disabled(
                "Finish active requests or eject the current model first.".to_owned(),
            );
        }
        if !self.snapshot.engine_valid {
            return ModelAction::Disabled(
                match &self.snapshot.engine_diagnostic {
                    Some(diagnostic) => diagnostic.clone(),
                    None => "Engine settings must be validated before loading.".to_owned(),
                },
            );
        }
        ModelAction::Load
    }

    /// The settings of the dialog, in their fixed order.
    pub fn setting_fields(settings: &LaunchSettings, caps: &EngineCapabilities) -> (result: Vec<SettingField>)
        ensures
            field_views(result@) == fields_of(*settings, *caps),
    {
        let unsupported = settings.render(caps).unsupported;
        fields_for(&unsupported, caps)
    }
}

fn fields_for(unsupported: &Vec<SettingId>, caps: &EngineCapabilities) -> (result: Vec<SettingField>)
    ensures
        field_views(result@) == fields_with(unsupported@, *caps),
{
    let mut fields: Vec<SettingField> = Vec::new();
    fields.push(
        field("context_length", caps.context_length, has_setting(unsupported, SettingId::ContextLength)),
    );
    fields.push(field("gpu_layers", caps.gpu_layers, has_setting(unsupported, SettingId::GpuLayers)));
    fields.push(field("cpu_threads", caps.cpu_threads, has_setting(unsupported, SettingId::CpuThreads)));
    fields.push(field("batch_size", caps.batch_size, has_setting(unsupported, SettingId::BatchSize)));
    fields.push(
        field("parallel_slots", caps.parallel_slots, has_setting(unsupported, SettingId::ParallelSlots)),
    );
    fields.push(
        field(
            "flash_attention",
            caps.flash_attention,
            has_setting(unsupported, SettingId::FlashAttention),
        ),
    );
    fields.push(
        field("kv_cache_type", caps.kv_cache_type, has_setting(unsupported, SettingId::KvCacheType)),
    );
    assert(field_views(fields@) =~= fields_with(unsupported@, *caps));
    fields
}

/// A row as the window draws it.
#[derive(Debug, PartialEq, Eq)]
pub struct ModelDisplay {
    pub id: String,
    pub name: String,
    pub key: String,
    pub size: String,
    pub path: String,
    pub status: String,
    pub action: String,
    pub action_enabled: bool,
}

/// The row is drawn with the label of its action: what cannot be done now is shown
/// as a load that is disabled.
pub open spec fn drawn(display: ModelDisplay, row: RowView, action: ActionView) -> bool {
    &&& display.id@ == uuid_text(row.id.number())
    &&& display.name@ == row.name
    &&& display.key@ == row.key
    &&& display.size@ == row.size
    &&& display.path@ == row.path
    &&& display.status@ == row.status
    &&& display.action@ == (match action {
        ActionView::Eject => "Eject"@,
        _ => "Load"@,
    })
    &&& display.action_enabled == !(action is Disabled)
}

/// The rows that a search finds, as the window draws them.
pub fn display_rows(view_model: &ViewModel, query: &str) -> (result: Vec<ModelDisplay>)
    ensures
        result@.len() == view_model.shown().filter(found(query@)).len(),
        forall|index: int|
            0 <= index < result@.len() ==> drawn(
                #[trigger] result@[index],
                view_model.shown().filter(found(query@))[index],
                action_for(view_model.source(), view_model.shown().filter(found(query@))[index].id),
            ),
{
    let rows = view_model.filtered_rows(query);
    let ghost wanted = view_model.shown().filter(found(query@));
    assert(rows@.len() == wanted.len()) by {
        assert(listed(rows@).len() == rows@.len());
    }
    let mut displays: Vec<ModelDisplay> = Vec::new();
    for index in 0..rows.len()
        invariant
            listed(rows@) == wanted,
            rows@.len() == wanted.len(),
            displays@.len() == index,
            forall|earlier: int|
                0 <= earlier < index ==> drawn(
                    #[trigger] displays@[earlier],
                    wanted[earlier],
                    action_for(view_model.source(), wanted[earlier].id),
                ),
    {
        let row: &ModelRow = rows[index];
        assert(wanted[index as int] == row@);
        let (label, action_enabled) = match view_model.action(row.id) {
            ModelAction::Load => ("Load", true),
            ModelAction::Eject => ("Eject", true),
            ModelAction::Disabled(_) => ("Load", false),
        };
        displays.push(
            ModelDisplay {
                id: row.id.to_string(),
                name: row.name.clone(),
                key: row.key.clone(),
                size: row.size.clone(),
                path: row.path.clone(),
                status: row.status.clone(),
                action: label.to_owned(),
                action_enabled,
            },
        );
    }
    displays
}

/// A search for nothing, or for blanks alone, finds every model.
pub proof fn law_empty_search_finds_all(rows: Seq<RowView>, query: Seq<char>)
    requires
        lowercase(trimmed(query)).len() == 0,
    ensures
        rows.filter(found(query)) == rows,
    decreases rows.len(),
{
    reveal(Seq::filter);
    if rows.len() > 0 {
        law_empty_search_finds_all(rows.drop_last(), query);
        assert(rows.drop_last().push(rows.last()) =~= rows);
    }
}

/// The name of the model that is wanted.
pub fn active_model(snapshot: &AppSnapshot) -> (result: Option<String>)
    ensures
        match result {
            Some(name) => snapshot.lifecycle.desired_model is Some && model_with_id(
                snapshot.models@,
                snapshot.lifecycle.desired_model->0,
                0,
            ) is Some && name@ == snapshot.models@[model_with_id(
                snapshot.models@,
                snapshot.lifecycle.desired_model->0,
                0,
            )->0].display_name@,
            None => snapshot.lifecycle.desired_model is None || model_with_id(
                snapshot.models@,
                snapshot.lifecycle.desired_model->0,
                0,
            ) is None,
        },
{
    match snapshot.lifecycle.desired_model {
        Some(id) => match position_of(&snapshot.models, id) {
            Some(at) => Some(snapshot.models[at].display_name.clone()),
            None => None,
        },
        None => None,
    }
}

/// The models used lately, as the icon's menu names them.
pub fn recent_labels(models: &Vec<ModelRecord>) -> (result: Vec<(ModelId, String)>)
    ensures
        result@.len() == models@.len(),
        forall|index: int|
            0 <= index < result@.len() ==> (#[trigger] result@[index]).0 == models@[index].id && result@[index].1@
                == models@[index].display_name@,
{
    let mut labels: Vec<(ModelId, String)> = Vec::new();
    for index in 0..models.len()
        invariant
            labels@.len() == index,
            forall|earlier: int|
                0 <= earlier < index ==> (#[trigger] labels@[earlier]).0 == models@[earlier].id
                    && labels@[earlier].1@ == models@[earlier].display_name@,
    {
        labels.push((models[index].id, models[index].display_name.clone()));
    }
    labels
}

} // verus!
