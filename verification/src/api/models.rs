//! The models as the interface lists them, and the requests to load and unload
//! them.

use vstd::prelude::*;

use super::error::ApiError;
use crate::domain::error::optional_text;
use crate::launcher::capability::EngineCapabilities;
use crate::launcher::lifecycle_model::ProcessContext;
use crate::launcher::model::{uuid_text, ModelRecord};
use crate::text::same_text;

verus! {

/// A model that the interface offers.
#[derive(Debug)]
pub struct ApiModel {
    pub record: ModelRecord,
    pub publisher: String,
    pub architecture: Option<String>,
    pub quantization: Option<String>,
    pub params_string: Option<String>,
    pub capabilities: EngineCapabilities,
}

/// A model as it is listed.
#[derive(Debug, PartialEq, Eq)]
pub struct LmModel {
    pub kind: &'static str,
    pub publisher: String,
    pub key: String,
    pub display_name: String,
    pub architecture: Option<String>,
    pub quantization: Option<String>,
    pub size_bytes: u64,
    pub params_string: Option<String>,
}

fn copy_optional(text: &Option<String>) -> (result: Option<String>)
    ensures
        optional_text(result) == optional_text(*text),
{
    match text {
        Some(text) => Some(text.clone()),
        None => None,
    }
}

impl LmModel {
    /// The listing is of this model.
    pub open spec fn lists(self, model: ApiModel) -> bool {
        &&& self.kind@ == "llm"@
        &&& self.publisher@ == model.publisher@
        &&& self.key@ == model.record.key@
        &&& self.display_name@ == model.record.display_name@
        &&& optional_text(self.architecture) == optional_text(model.architecture)
        &&& optional_text(self.quantization) == optional_text(model.quantization)
        &&& self.size_bytes == model.record.size_bytes
        &&& optional_text(self.params_string) == optional_text(model.params_string)
    }

    pub fn from_model(model: &ApiModel) -> (result: Self)
        ensures
            result.lists(*model),
    {
        LmModel {
            kind: "llm",
            publisher: model.publisher.clone(),
            key: model.record.key.to_string(),
            display_name: model.record.display_name.clone(),
            architecture: copy_optional(&model.architecture),
            quantization: copy_optional(&model.quantization),
            size_bytes: model.record.size_bytes,
            params_string: copy_optional(&model.params_string),
        }
    }
}

/// The models, in their order.
pub fn list_models(models: &Vec<ApiModel>) -> (result: Vec<LmModel>)
    ensures
        result@.len() == models@.len(),
        forall|index: int| 0 <= index < models@.len() ==> (#[trigger] result@[index]).lists(models@[index]),
{
    let mut listed: Vec<LmModel> = Vec::new();
    for index in 0..models.len()
        invariant
            listed@.len() == index,
            forall|earlier: int| 0 <= earlier < index ==> (#[trigger] listed@[earlier]).lists(models@[earlier]),
    {
        listed.push(LmModel::from_model(&models[index]));
    }
    listed
}

/// A model as clients of OpenAI's interface expect it.
#[derive(Debug, PartialEq, Eq)]
pub struct OpenAiModel {
    pub id: String,
    pub object: &'static str,
    pub owned_by: String,
}

impl OpenAiModel {
    pub open spec fn lists(self, model: ApiModel) -> bool {
        self.id@ == model.record.key@ && self.object@ == "model"@ && self.owned_by@ == model.publisher@
    }
}

/// The models for clients of OpenAI's interface, in their order.
pub fn openai_models(models: &Vec<ApiModel>) -> (result: Vec<OpenAiModel>)
    ensures
        result@.len() == models@.len(),
        forall|index: int| 0 <= index < models@.len() ==> (#[trigger] result@[index]).lists(models@[index]),
{
    let mut listed: Vec<OpenAiModel> = Vec::new();
    for index in 0..models.len()
        invariant
            listed@.len() == index,
            forall|earlier: int| 0 <= earlier < index ==> (#[trigger] listed@[earlier]).lists(models@[earlier]),
    {
        let model = &models[index];
        listed.push(
            OpenAiModel {
                id: model.record.key.to_string(),
                object: "model",
                owned_by: model.publisher.clone(),
            },
        );
    }
    listed
}

/// The first model with `key`, from `from` on.
pub open spec fn model_with_key(models: Seq<ApiModel>, key: Seq<char>, from: int) -> Option<int>
    decreases models.len() - from,
{
    if from < 0 || from >= models.len() {
        None
    } else if models[from].record.key@ == key {
        Some(from)
    } else {
        model_with_key(models, key, from + 1)
    }
}

/// The first model with `key`.
pub fn find_model<'a>(models: &'a Vec<ApiModel>, key: &str) -> (result: Result<&'a ApiModel, ApiError>)
    ensures
        match result {
            Ok(model) => model_with_key(models@, key@, 0) is Some && *model == models@[model_with_key(
                models@,
                key@,
                0,
            )->0],
            Err(error) => model_with_key(models@, key@, 0) is None && error.is(
                404,
                "model_not_found"@,
                "model was not found"@,
                false,
            ),
        },
{
    for index in 0..models.len()
        invariant
            model_with_key(models@, key@, 0) == model_with_key(models@, key@, index as int),
    {
        if same_text(models[index].record.key.as_str(), key) {
            return Ok(&models[index]);
        }
    }
    Err(ApiError::not_found("model_not_found", "model was not found"))
}

/// A request to load a model.
#[derive(Debug, PartialEq, Eq)]
pub struct LoadRequest {
    pub model: String,
    pub context_length: Option<u32>,
    pub eval_batch_size: Option<u32>,
    pub flash_attention: Option<bool>,
    pub num_experts: Option<u32>,
    pub offload_kv_cache_to_gpu: Option<bool>,
    pub echo_load_config: bool,
}

/// A request to unload a model.
#[derive(Debug)]
pub struct UnloadRequest {
    pub instance_id: String,
}

/// The settings that a request asked for.
#[derive(Clone, Copy, Debug, PartialEq, Eq, Structural)]
pub struct LoadConfig {
    pub context_length: Option<u32>,
    pub eval_batch_size: Option<u32>,
    pub flash_attention: Option<bool>,
    pub num_experts: Option<u32>,
    pub offload_kv_cache_to_gpu: Option<bool>,
}

impl LoadConfig {
    pub open spec fn asked(request: LoadRequest) -> Self {
        LoadConfig {
            context_length: request.context_length,
            eval_batch_size: request.eval_batch_size,
            flash_attention: request.flash_attention,
            num_experts: request.num_experts,
            offload_kv_cache_to_gpu: request.offload_kv_cache_to_gpu,
        }
    }

    pub fn from_request(request: &LoadRequest) -> (result: Self)
        ensures
            result == LoadConfig::asked(*request),
    {
        LoadConfig {
            context_length: request.context_length,
            eval_batch_size: request.eval_batch_size,
            flash_attention: request.flash_attention,
            num_experts: request.num_experts,
            offload_kv_cache_to_gpu: request.offload_kv_cache_to_gpu,
        }
    }
}

/// The answer to a request that loaded a model, but for the time it took.
#[derive(Debug)]
pub struct LoadResponse {
    pub kind: &'static str,
    pub model_instance_id: String,
    pub status: &'static str,
    pub load_config: Option<LoadConfig>,
}

impl LoadResponse {
    /// The answer once `model` is loaded; the settings are told back where the
    /// request asks for it.
    pub fn loaded(model: &ModelRecord, request: &LoadRequest) -> (result: Self)
        ensures
            result.kind@ == "llm_instance"@,
            result.model_instance_id@ == uuid_text(model.id.number()),
            result.status@ == "loaded"@,
            result.load_config == (if request.echo_load_config {
                Some(LoadConfig::asked(*request))
            } else {
                None
            }),
    {
        LoadResponse {
            kind: "llm_instance",
            model_instance_id: model.id.to_string(),
            status: "loaded",
            load_config: if request.echo_load_config {
                Some(LoadConfig::from_request(request))
            } else {
                None
            },
        }
    }
}

/// The model that runs has this identifier.
pub open spec fn is_instance(process: Option<ProcessContext>, instance: Seq<char>) -> bool {
    process is Some && uuid_text(process->0.model_id.number()) == instance
}

/// Whether the model that runs is the one to unload.
pub fn check_unload(process: Option<ProcessContext>, request: &UnloadRequest) -> (result: Result<(), ApiError>)
    ensures
        match result {
            Ok(_) => is_instance(process, request.instance_id@),
            Err(error) => !is_instance(process, request.instance_id@) && error.is(
                404,
                "model_instance_not_found"@,
                "model instance was not found"@,
                false,
            ),
        },
{
    if let Some(process) = process {
        if same_text(process.model_id.to_string().as_str(), request.instance_id.as_str()) {
            return Ok(());
        }
    }
    Err(ApiError::not_found("model_instance_not_found", "model instance was not found"))
}

} // verus!
