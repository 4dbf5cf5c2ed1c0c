//! Launch settings, what an engine can honour of them, and how much context
//! fits into video memory.

use vstd::prelude::*;

use super::catalog::CatalogMetadata;
use super::error::AppError;
use crate::text::{decimal, decimal_of, texts};

verus! {

/// A context window, in tokens; never zero.
#[derive(Clone, Copy, Debug, PartialEq, Eq, Structural)]
pub struct ContextLength {
    value: u32,
}

impl ContextLength {
    /// The number that was set.
    pub closed spec fn number(self) -> u32 {
        self.value
    }

    #[verifier::type_invariant]
    spec fn positive(self) -> bool {
        self.value > 0
    }

    pub fn new(value: u32) -> (result: Result<Self, AppError>)
        ensures
            match result {
                Ok(setting) => value > 0 && setting.number() == value,
                Err(error) => value == 0 && error == AppError::InvalidSetting("context_length"),
            },
    {
        if value == 0 {
            Err(AppError::InvalidSetting("context_length"))
        } else {
            Ok(Self { value })
        }
    }

    pub fn get(self) -> (result: u32)
        ensures
            result == self.number(),
            result > 0,
    {
        proof {
            use_type_invariant(&self);
        }
        self.value
    }
}

/// A number of processor threads; never zero.
#[derive(Clone, Copy, Debug, PartialEq, Eq, Structural)]
pub struct CpuThreads {
    value: u32,
}

impl CpuThreads {
    /// The number that was set.
    pub closed spec fn number(self) -> u32 {
        self.value
    }

    #[verifier::type_invariant]
    spec fn positive(self) -> bool {
        self.value > 0
    }

    pub fn new(value: u32) -> (result: Result<Self, AppError>)
        ensures
            match result {
                Ok(setting) => value > 0 && setting.number() == value,
                Err(error) => value == 0 && error == AppError::InvalidSetting("cpu_threads"),
            },
    {
        if value == 0 {
            Err(AppError::InvalidSetting("cpu_threads"))
        } else {
            Ok(Self { value })
        }
    }

    pub fn get(self) -> (result: u32)
        ensures
            result == self.number(),
            result > 0,
    {
        proof {
            use_type_invariant(&self);
        }
        self.value
    }
}

/// An evaluation batch size; never zero.
#[derive(Clone, Copy, Debug, PartialEq, Eq, Structural)]
pub struct BatchSize {
    value: u32,
}

impl BatchSize {
    /// The number that was set.
    pub closed spec fn number(self) -> u32 {
        self.value
    }

    #[verifier::type_invariant]
    spec fn positive(self) -> bool {
        self.value > 0
    }

    pub fn new(value: u32) -> (result: Result<Self, AppError>)
        ensures
            match result {
                Ok(setting) => value > 0 && setting.number() == value,
                Err(error) => value == 0 && error == AppError::InvalidSetting("batch_size"),
            },
    {
        if value == 0 {
            Err(AppError::InvalidSetting("batch_size"))
        } else {
            Ok(Self { value })
        }
    }

    pub fn get(self) -> (result: u32)
        ensures
            result == self.number(),
            result > 0,
    {
        proof {
            use_type_invariant(&self);
        }
        self.value
    }
}

/// A number of parallel request slots; never zero.
#[derive(Clone, Copy, Debug, PartialEq, Eq, Structural)]
pub struct ParallelSlots {
    value: u32,
}

impl ParallelSlots {
    /// The number that was set.
    pub closed spec fn number(self) -> u32 {
        self.value
    }

    #[verifier::type_invariant]
    spec fn positive(self) -> bool {
        self.value > 0
    }

    pub fn new(value: u32) -> (result: Result<Self, AppError>)
        ensures
            match result {
                Ok(setting) => value > 0 && setting.number() == value,
                Err(error) => value == 0 && error == AppError::InvalidSetting("parallel_slots"),
            },
    {
        if value == 0 {
            Err(AppError::InvalidSetting("parallel_slots"))
        } else {
            Ok(Self { value })
        }
    }

    pub fn get(self) -> (result: u32)
        ensures
            result == self.number(),
            result > 0,
    {
        proof {
            use_type_invariant(&self);
        }
        self.value
    }
}

/// How many layers run on the graphics processor.
#[derive(Clone, Copy, Debug, PartialEq, Eq, Structural)]
pub struct GpuLayers {
    value: u32,
}

impl GpuLayers {
    /// The number that was set.
    pub closed spec fn number(self) -> u32 {
        self.value
    }

    pub fn new(value: u32) -> (result: Self)
        ensures
            result.number() == value,
    {
        Self { value }
    }

    pub fn get(self) -> (result: u32)
        ensures
            result == self.number(),
    {
        self.value
    }
}

/// The element type of the key/value cache.
#[derive(Clone, Copy, Debug, PartialEq, Eq, Structural)]
pub enum KvCacheType {
    F16,
    Q8_0,
    Q4_0,
}

/// How draft tokens are produced for speculative decoding.
#[derive(Clone, Copy, Debug, PartialEq, Eq, Structural)]
pub enum SpeculativeType {
    DraftMtp,
    DraftDflash,
}

impl SpeculativeType {
    /// The value of the engine's command-line option.
    pub open spec fn argument(self) -> Seq<char> {
        match self {
            SpeculativeType::DraftMtp => "draft-mtp"@,
            SpeculativeType::DraftDflash => "draft-dflash"@,
        }
    }

    pub fn as_arg(self) -> (result: &'static str)
        ensures
            result@ == self.argument(),
    {
        match self {
            SpeculativeType::DraftMtp => "draft-mtp",
            SpeculativeType::DraftDflash => "draft-dflash",
        }
    }
}

impl KvCacheType {
    /// The value of the engine's command-line option.
    pub open spec fn argument(self) -> Seq<char> {
        match self {
            KvCacheType::F16 => "f16"@,
            KvCacheType::Q8_0 => "q8_0"@,
            KvCacheType::Q4_0 => "q4_0"@,
        }
    }

    pub fn as_arg(self) -> (result: &'static str)
        ensures
            result@ == self.argument(),
    {
        match self {
            KvCacheType::F16 => "f16",
            KvCacheType::Q8_0 => "q8_0",
            KvCacheType::Q4_0 => "q4_0",
        }
    }
}

/// What a user may set for the launch of a model.
#[derive(Debug)]
pub struct LaunchSettings {
    pub context_length: Option<ContextLength>,
    pub gpu_layers: Option<GpuLayers>,
    pub cpu_threads: Option<CpuThreads>,
    pub batch_size: Option<BatchSize>,
    pub parallel_slots: Option<ParallelSlots>,
    pub flash_attention: Option<bool>,
    pub kv_cache_type: Option<KvCacheType>,
    pub speculative_type: Option<SpeculativeType>,
    pub draft_model: Option<String>,
}

impl Clone for LaunchSettings {
    fn clone(&self) -> (result: Self)
        ensures
            result == *self,
    {
        LaunchSettings {
            context_length: self.context_length,
            gpu_layers: self.gpu_layers,
            cpu_threads: self.cpu_threads,
            batch_size: self.batch_size,
            parallel_slots: self.parallel_slots,
            flash_attention: self.flash_attention,
            kv_cache_type: self.kv_cache_type,
            speculative_type: self.speculative_type,
            draft_model: match &self.draft_model {
                Some(path) => Some(path.clone()),
                None => None,
            },
        }
    }
}

impl LaunchSettings {
    /// Settings in which nothing is set.
    pub open spec fn unset() -> Self {
        LaunchSettings {
            context_length: None,
            gpu_layers: None,
            cpu_threads: None,
            batch_size: None,
            parallel_slots: None,
            flash_attention: None,
            kv_cache_type: None,
            speculative_type: None,
            draft_model: None,
        }
    }
}

impl Default for LaunchSettings {
    fn default() -> (result: Self)
        ensures
            result == LaunchSettings::unset(),
    {
        LaunchSettings {
            context_length: None,
            gpu_layers: None,
            cpu_threads: None,
            batch_size: None,
            parallel_slots: None,
            flash_attention: None,
            kv_cache_type: None,
            speculative_type: None,
            draft_model: None,
        }
    }
}

/// Names a setting that an engine may lack.
#[derive(Clone, Copy, Debug, PartialEq, Eq, Structural)]
pub enum SettingId {
    ContextLength,
    GpuLayers,
    CpuThreads,
    BatchSize,
    ParallelSlots,
    FlashAttention,
    KvCacheType,
    SpeculativeType,
}

/// Which settings an engine understands.
#[derive(Clone, Copy, Debug, PartialEq, Eq, Structural)]
pub struct EngineCapabilities {
    pub context_length: bool,
    pub gpu_layers: bool,
    pub cpu_threads: bool,
    pub batch_size: bool,
    pub parallel_slots: bool,
    pub flash_attention: bool,
    pub kv_cache_type: bool,
    pub speculative_type: bool,
    pub draft_model: bool,
}

impl EngineCapabilities {
    /// An engine that understands nothing.
    pub open spec fn none() -> Self {
        EngineCapabilities {
            context_length: false,
            gpu_layers: false,
            cpu_threads: false,
            batch_size: false,
            parallel_slots: false,
            flash_attention: false,
            kv_cache_type: false,
            speculative_type: false,
            draft_model: false,
        }
    }
}

impl Default for EngineCapabilities {
    fn default() -> (result: Self)
        ensures
            result == EngineCapabilities::none(),
    {
        EngineCapabilities {
            context_length: false,
            gpu_layers: false,
            cpu_threads: false,
            batch_size: false,
            parallel_slots: false,
            flash_attention: false,
            kv_cache_type: false,
            speculative_type: false,
            draft_model: false,
        }
    }
}

/// The command-line arguments for a launch, and the settings that were left out
/// because the engine does not understand them.
#[derive(Debug)]
pub struct RenderedLaunchSettings {
    pub args: Vec<String>,
    pub unsupported: Vec<SettingId>,
}

/// The arguments of a numeric setting: its flag and its value.
pub open spec fn numeric_args(supported: bool, flag: Seq<char>, value: Option<u32>) -> Seq<Seq<char>> {
    match value {
        Some(number) => if supported {
            seq![flag, decimal(number as nat)]
        } else {
            seq![]
        },
        None => seq![],
    }
}

/// The arguments of a setting that is written as fixed words.
pub open spec fn word_args(supported: bool, words: Option<Seq<Seq<char>>>) -> Seq<Seq<char>> {
    match words {
        Some(words) => if supported {
            words
        } else {
            seq![]
        },
        None => seq![],
    }
}

/// A setting is reported where it is set and the engine does not understand it.
pub open spec fn missing(set: bool, supported: bool, id: SettingId) -> Seq<SettingId> {
    if set && !supported {
        seq![id]
    } else {
        seq![]
    }
}

impl LaunchSettings {
    pub open spec fn context_number(self) -> Option<u32> {
        match self.context_length {
            Some(setting) => Some(setting.number()),
            None => None,
        }
    }

    pub open spec fn gpu_number(self) -> Option<u32> {
        match self.gpu_layers {
            Some(setting) => Some(setting.number()),
            None => None,
        }
    }

    pub open spec fn thread_number(self) -> Option<u32> {
        match self.cpu_threads {
            Some(setting) => Some(setting.number()),
            None => None,
        }
    }

    pub open spec fn batch_number(self) -> Option<u32> {
        match self.batch_size {
            Some(setting) => Some(setting.number()),
            None => None,
        }
    }

    pub open spec fn slot_number(self) -> Option<u32> {
        match self.parallel_slots {
            Some(setting) => Some(setting.number()),
            None => None,
        }
    }

    pub open spec fn flash_words(self) -> Option<Seq<Seq<char>>> {
        if self.flash_attention == Some(true) {
            Some(seq!["--flash-attn"@, "on"@])
        } else {
            None
        }
    }

    pub open spec fn cache_words(self) -> Option<Seq<Seq<char>>> {
        match self.kv_cache_type {
            Some(cache) => Some(
                seq!["--cache-type-k"@, cache.argument(), "--cache-type-v"@, cache.argument()],
            ),
            None => None,
        }
    }

    pub open spec fn draft_words(self) -> Option<Seq<Seq<char>>> {
        match self.speculative_type {
            Some(kind) => Some(seq!["--spec-type"@, kind.argument()]),
            None => None,
        }
    }

    /// The arguments of the numeric settings.
    pub open spec fn number_args(self, capabilities: EngineCapabilities) -> Seq<Seq<char>> {
        numeric_args(capabilities.context_length, "--ctx-size"@, self.context_number())
            + numeric_args(capabilities.gpu_layers, "--gpu-layers"@, self.gpu_number())
            + numeric_args(capabilities.cpu_threads, "--threads"@, self.thread_number())
            + numeric_args(capabilities.batch_size, "--batch-size"@, self.batch_number())
            + numeric_args(capabilities.parallel_slots, "--parallel"@, self.slot_number())
    }

    /// The arguments for an engine with these capabilities, in their fixed order.
    pub open spec fn rendered_args(self, capabilities: EngineCapabilities) -> Seq<Seq<char>> {
        self.number_args(capabilities)
            + word_args(capabilities.flash_attention, self.flash_words())
            + word_args(capabilities.kv_cache_type, self.cache_words())
            + word_args(capabilities.speculative_type, self.draft_words())
    }

    /// The numeric settings that an engine with these capabilities cannot honour.
    pub open spec fn unsupported_numbers(self, capabilities: EngineCapabilities) -> Seq<SettingId> {
        missing(self.context_length is Some, capabilities.context_length, SettingId::ContextLength)
            + missing(self.gpu_layers is Some, capabilities.gpu_layers, SettingId::GpuLayers)
            + missing(self.cpu_threads is Some, capabilities.cpu_threads, SettingId::CpuThreads)
            + missing(self.batch_size is Some, capabilities.batch_size, SettingId::BatchSize)
            + missing(self.parallel_slots is Some, capabilities.parallel_slots, SettingId::ParallelSlots)
    }

    /// The settings that an engine with these capabilities cannot honour.
    pub open spec fn rendered_unsupported(self, capabilities: EngineCapabilities) -> Seq<SettingId> {
        self.unsupported_numbers(capabilities)
            + missing(
            self.flash_attention == Some(true),
            capabilities.flash_attention,
            SettingId::FlashAttention,
        ) + missing(self.kv_cache_type is Some, capabilities.kv_cache_type, SettingId::KvCacheType)
            + missing(
            self.speculative_type is Some,
            capabilities.speculative_type,
            SettingId::SpeculativeType,
        )
    }

    pub fn to_args(&self, capabilities: &EngineCapabilities) -> (result: Vec<String>)
        ensures
            texts(result@) == self.rendered_args(*capabilities),
    {
        self.render(capabilities).args
    }

    fn render_numbers(&self, capabilities: &EngineCapabilities) -> (result: (Vec<String>, Vec<SettingId>))
        ensures
            texts(result.0@) == self.number_args(*capabilities),
            result.1@ == self.unsupported_numbers(*capabilities),
    {
        let mut args: Vec<String> = Vec::new();
        let mut unsupported: Vec<SettingId> = Vec::new();
        proof {
            let first = numeric_args(capabilities.context_length, "--ctx-size"@, self.context_number());
            assert(texts(args@) + first =~= first);
            let first = missing(self.context_length is Some, capabilities.context_length, SettingId::ContextLength);
            assert(unsupported@ + first =~= first);
        }
        let context = match self.context_length {
            Some(setting) => Some(setting.get()),
            None => None,
        };
        render_numeric(
            &mut args,
            &mut unsupported,
            capabilities.context_length,
            SettingId::ContextLength,
            "--ctx-size",
            context,
        );
        let layers = match self.gpu_layers {
            Some(setting) => Some(setting.get()),
            None => None,
        };
        render_numeric(
            &mut args,
            &mut unsupported,
            capabilities.gpu_layers,
            SettingId::GpuLayers,
            "--gpu-layers",
            layers,
        );
        let threads = match self.cpu_threads {
            Some(setting) => Some(setting.get()),
            None => None,
        };
        render_numeric(
            &mut args,
            &mut unsupported,
            capabilities.cpu_threads,
            SettingId::CpuThreads,
            "--threads",
            threads,
        );
        let batch = match self.batch_size {
            Some(setting) => Some(setting.get()),
            None => None,
        };
        render_numeric(
            &mut args,
            &mut unsupported,
            capabilities.batch_size,
            SettingId::BatchSize,
            "--batch-size",
            batch,
        );
        let slots = match self.parallel_slots {
            Some(setting) => Some(setting.get()),
            None => None,
        };
        render_numeric(
            &mut args,
            &mut unsupported,
            capabilities.parallel_slots,
            SettingId::ParallelSlots,
            "--parallel",
            slots,
        );
        (args, unsupported)
    }

    /// Turns the settings into arguments. A setting that the engine does not
    /// understand is reported and keeps its value.
    pub fn render(&self, capabilities: &EngineCapabilities) -> (result: RenderedLaunchSettings)
        ensures
            texts(result.args@) == self.rendered_args(*capabilities),
            result.unsupported@ == self.rendered_unsupported(*capabilities),
    {
        let (mut args, mut unsupported) = self.render_numbers(capabilities);
        let flash = match self.flash_attention {
            Some(true) => Some(two_words("--flash-attn", "on")),
            _ => None,
        };
        render_words(
            &mut args,
            &mut unsupported,
            capabilities.flash_attention,
            SettingId::FlashAttention,
            flash,
        );
        let cache = match self.kv_cache_type {
            Some(cache) => {
                let mut words = two_words("--cache-type-k", cache.as_arg());
                let mut values = two_words("--cache-type-v", cache.as_arg());
                let ghost keys = texts(words@);
                let ghost rest = texts(values@);
                words.append(&mut values);
                assert(texts(words@) =~= keys + rest);
                assert(keys + rest =~= seq![
                    "--cache-type-k"@,
                    cache.argument(),
                    "--cache-type-v"@,
                    cache.argument(),
                ]);
                Some(words)
            },
            None => None,
        };
        render_words(
            &mut args,
            &mut unsupported,
            capabilities.kv_cache_type,
            SettingId::KvCacheType,
            cache,
        );
        let draft = match self.speculative_type {
            Some(kind) => Some(two_words("--spec-type", kind.as_arg())),
            None => None,
        };
        render_words(
            &mut args,
            &mut unsupported,
            capabilities.speculative_type,
            SettingId::SpeculativeType,
            draft,
        );
        RenderedLaunchSettings { args, unsupported }
    }
}

fn render_numeric(
    args: &mut Vec<String>,
    unsupported: &mut Vec<SettingId>,
    supported: bool,
    id: SettingId,
    flag: &str,
    value: Option<u32>,
)
    ensures
        texts(final(args)@) == texts(old(args)@) + numeric_args(supported, flag@, value),
        final(unsupported)@ == old(unsupported)@ + missing(value is Some, supported, id),
{
    if let Some(number) = value {
        if supported {
            args.push(flag.to_owned());
            args.push(decimal_of(number as u64));
        } else {
            unsupported.push(id);
        }
    }
    assert(texts(args@) =~= texts(old(args)@) + numeric_args(supported, flag@, value));
    assert(unsupported@ =~= old(unsupported)@ + missing(value is Some, supported, id));
}

fn two_words(first: &str, second: &str) -> (result: Vec<String>)
    ensures
        texts(result@) == seq![first@, second@],
{
    let mut result: Vec<String> = Vec::new();
    result.push(first.to_owned());
    result.push(second.to_owned());
    assert(texts(result@) =~= seq![first@, second@]);
    result
}

spec fn optional_texts(words: Option<Vec<String>>) -> Option<Seq<Seq<char>>> {
    match words {
        Some(words) => Some(texts(words@)),
        None => None,
    }
}

fn render_words(
    args: &mut Vec<String>,
    unsupported: &mut Vec<SettingId>,
    supported: bool,
    id: SettingId,
    words: Option<Vec<String>>,
)
    ensures
        texts(final(args)@) == texts(old(args)@) + word_args(supported, optional_texts(words)),
        final(unsupported)@ == old(unsupported)@ + missing(words is Some, supported, id),
{
    let ghost asked = optional_texts(words);
    let ghost set = words is Some;
    if let Some(words) = words {
        let mut words = words;
        if supported {
            args.append(&mut words);
        } else {
            unsupported.push(id);
        }
    }
    assert(texts(args@) =~= texts(old(args)@) + word_args(supported, asked));
    assert(unsupported@ =~= old(unsupported)@ + missing(set, supported, id));
}

/// A setting is either rendered or reported, never both: with every set value
/// understood nothing is reported.
pub proof fn law_supported_settings_are_all_rendered(settings: LaunchSettings, capabilities: EngineCapabilities)
    ensures
        settings.rendered_unsupported(capabilities).len() == 0 <==> {
            &&& settings.context_length is Some ==> capabilities.context_length
            &&& settings.gpu_layers is Some ==> capabilities.gpu_layers
            &&& settings.cpu_threads is Some ==> capabilities.cpu_threads
            &&& settings.batch_size is Some ==> capabilities.batch_size
            &&& settings.parallel_slots is Some ==> capabilities.parallel_slots
            &&& settings.flash_attention == Some(true) ==> capabilities.flash_attention
            &&& settings.kv_cache_type is Some ==> capabilities.kv_cache_type
            &&& settings.speculative_type is Some ==> capabilities.speculative_type
        },
{
}

/// Context windows are recommended in multiples of this many tokens.
pub const CONTEXT_STEP: u64 = 512;

/// The context window of a model that does not state its own.
pub const DEFAULT_CONTEXT: u64 = 32_768;

/// The largest context window that is ever recommended.
pub const MAX_CONTEXT: u64 = 1_048_576;

/// The least amount of video memory that is left unused.
pub const MIN_RESERVE: u64 = 1_073_741_824;

/// How much context a model can use on a graphics processor.
#[derive(Clone, Copy, Debug, PartialEq, Eq, Structural)]
pub struct ContextEstimate {
    pub model_context_limit: u32,
    pub vram_context_limit: Option<u32>,
    pub recommended_context: u32,
    pub kv_bytes_per_token: Option<u64>,
    pub estimated_weight_bytes: u64,
    pub safety_reserve_bytes: u64,
}

pub open spec fn at_most(value: nat, limit: nat) -> nat {
    if value <= limit {
        value
    } else {
        limit
    }
}

pub open spec fn between(value: nat, least: nat, most: nat) -> nat {
    if value < least {
        least
    } else if value > most {
        most
    } else {
        value
    }
}

/// A stated quantity counts only where it is not zero.
pub open spec fn positive(value: Option<u64>) -> Option<nat> {
    match value {
        Some(number) => if number > 0 {
            Some(number as nat)
        } else {
            None
        },
        None => None,
    }
}

/// The bytes of one cache row: two per element for 16-bit floats; 34 or 18 per
/// block of 32 elements for the quantised types. The result saturates.
pub open spec fn row_bytes(elements: nat, cache: KvCacheType) -> nat {
    let exact = match cache {
        KvCacheType::F16 => elements * 2,
        KvCacheType::Q8_0 => ((elements + 31) / 32) * 34,
        KvCacheType::Q4_0 => ((elements + 31) / 32) * 18,
    };
    at_most(exact, u64::MAX as nat)
}

impl CatalogMetadata {
    /// The context window of the model itself.
    pub open spec fn context_limit(self) -> nat {
        let stated = match self.context_length {
            Some(tokens) => tokens as nat,
            None => DEFAULT_CONTEXT as nat,
        };
        between(stated, CONTEXT_STEP as nat, MAX_CONTEXT as nat)
    }

    /// How many layers keep a cache: all of them, or one in every interval of a
    /// hybrid model.
    pub open spec fn attention_layers(self) -> Option<nat> {
        match (positive(self.block_count), positive(self.full_attention_interval)) {
            (Some(blocks), Some(interval)) => if blocks + interval - 1 <= u64::MAX {
                Some(((blocks + interval - 1) / interval as int) as nat)
            } else {
                None
            },
            (Some(blocks), None) => Some(blocks),
            (None, _) => None,
        }
    }

    /// The number of key/value heads.
    pub open spec fn kv_heads(self) -> Option<nat> {
        match positive(self.attention_head_count_kv) {
            Some(heads) => Some(heads),
            None => positive(self.attention_head_count),
        }
    }

    /// The head length that follows from the embedding, where it is not stated.
    pub open spec fn default_head_length(self) -> Option<nat> {
        match (self.embedding_length, positive(self.attention_head_count)) {
            (Some(embedding), Some(heads)) => if embedding as nat / heads > 0 {
                Some(embedding as nat / heads)
            } else {
                None
            },
            _ => None,
        }
    }

    /// The elements of one cache row, over all key/value heads.
    pub open spec fn row_width(self, stated: Option<u64>) -> Option<nat> {
        let length = match stated {
            Some(length) => Some(length as nat),
            None => self.default_head_length(),
        };
        match (length, self.kv_heads()) {
            (Some(length), Some(heads)) => if length * heads <= u64::MAX {
                Some(length * heads)
            } else {
                None
            },
            _ => None,
        }
    }

    /// The cache bytes of one token: a key row and a value row in every layer.
    pub open spec fn bytes_per_token(self, cache: KvCacheType) -> Option<nat> {
        match (
            self.attention_layers(),
            self.row_width(self.attention_key_length),
            self.row_width(self.attention_value_length),
        ) {
            (Some(layers), Some(key), Some(value)) => {
                let pair = row_bytes(key, cache) + row_bytes(value, cache);
                if pair <= u64::MAX && pair * layers <= u64::MAX {
                    Some(pair * layers)
                } else {
                    None
                }
            },
            _ => None,
        }
    }
}

impl LaunchSettings {
    /// The cache type of a launch.
    pub open spec fn cache_type(self) -> KvCacheType {
        match self.kv_cache_type {
            Some(cache) => cache,
            None => KvCacheType::F16,
        }
    }

    /// The share of the model's bytes that lies in video memory.
    pub open spec fn weight_bytes(self, metadata: CatalogMetadata, model_size: nat) -> nat {
        match (self.gpu_number(), positive(metadata.block_count)) {
            (Some(layers), Some(blocks)) => (model_size * at_most(layers as nat, blocks)) / blocks,
            (Some(layers), None) => if layers == 0 {
                0
            } else {
                model_size
            },
            (None, _) => model_size,
        }
    }
}

/// The video memory that is left unused: a tenth of it, at least a gibibyte.
pub open spec fn reserve_bytes(total_vram: nat) -> nat {
    if total_vram / 10 > MIN_RESERVE {
        total_vram / 10
    } else {
        MIN_RESERVE as nat
    }
}

pub open spec fn less(value: nat, taken: nat) -> nat {
    if taken <= value {
        (value - taken) as nat
    } else {
        0
    }
}

/// The context that fits into the memory left for the cache, in whole steps, at
/// least one step and at most what the model allows.
pub open spec fn fitting_context(available: nat, per_token: nat, limit: nat) -> nat {
    let tokens = available / (if per_token > 0 {
        per_token
    } else {
        1
    });
    between(tokens / 512 * 512, CONTEXT_STEP as nat, limit)
}

/// Four fifths of the usable context, in whole steps, at least one step.
pub open spec fn recommended(usable: nat) -> nat {
    let stepped = usable * 4 / 5 / 512 * 512;
    if stepped > CONTEXT_STEP {
        stepped
    } else {
        CONTEXT_STEP as nat
    }
}

pub open spec fn as_nat(value: Option<u64>) -> Option<nat> {
    match value {
        Some(number) => Some(number as nat),
        None => None,
    }
}

/// The bytes of one cache row.
pub fn kv_row_bytes(elements: u64, cache_type: KvCacheType) -> (result: u64)
    ensures
        result == row_bytes(elements as nat, cache_type),
{
    let blocks: u64 = if elements % 32 == 0 {
        elements / 32
    } else {
        elements / 32 + 1
    };
    assert(blocks == (elements as nat + 31) / 32);
    let exact = match cache_type {
        KvCacheType::F16 => elements.checked_mul(2),
        KvCacheType::Q8_0 => blocks.checked_mul(34),
        KvCacheType::Q4_0 => blocks.checked_mul(18),
    };
    match exact {
        Some(bytes) => bytes,
        None => u64::MAX,
    }
}

fn nonzero(value: Option<u64>) -> (result: Option<u64>)
    ensures
        as_nat(result) == positive(value),
        result matches Some(number) ==> number > 0,
{
    match value {
        Some(number) => if number > 0 {
            Some(number)
        } else {
            None
        },
        None => None,
    }
}

impl CatalogMetadata {
    fn cache_layers(&self) -> (result: Option<u64>)
        ensures
            as_nat(result) == self.attention_layers(),
    {
        match nonzero(self.block_count) {
            Some(blocks) => match nonzero(self.full_attention_interval) {
                Some(interval) => match blocks.checked_add(interval - 1) {
                    Some(rounded) => {
                        assert(rounded as int == blocks as nat + interval as nat - 1);
                        Some(rounded / interval)
                    },
                    None => None,
                },
                None => Some(blocks),
            },
            None => None,
        }
    }

    fn row_elements(&self, stated: Option<u64>) -> (result: Option<u64>)
        ensures
            as_nat(result) == self.row_width(stated),
    {
        let head_count = nonzero(self.attention_head_count);
        let kv_head_count = match nonzero(self.attention_head_count_kv) {
            Some(heads) => Some(heads),
            None => head_count,
        };
        let default_length = match (self.embedding_length, head_count) {
            (Some(embedding), Some(heads)) => nonzero(Some(embedding / heads)),
            _ => None,
        };
        assert(as_nat(default_length) == self.default_head_length());
        let length = match stated {
            Some(length) => Some(length),
            None => default_length,
        };
        match (length, kv_head_count) {
            (Some(length), Some(heads)) => length.checked_mul(heads),
            _ => None,
        }
    }

    fn cache_bytes_per_token(&self, cache_type: KvCacheType) -> (result: Option<u64>)
        ensures
            as_nat(result) == self.bytes_per_token(cache_type),
    {
        let layers = self.cache_layers();
        let key = self.row_elements(self.attention_key_length);
        let value = self.row_elements(self.attention_value_length);
        match (layers, key, value) {
            (Some(layers), Some(key), Some(value)) => {
                match kv_row_bytes(key, cache_type).checked_add(kv_row_bytes(value, cache_type)) {
                    Some(pair) => pair.checked_mul(layers),
                    None => None,
                }
            },
            _ => None,
        }
    }
}

/// The share of a whole is at most the whole.
proof fn lemma_share(whole: nat, part: nat, parts: nat)
    requires
        part <= parts,
        parts > 0,
    ensures
        (whole * part) / parts <= whole,
{
    assert(whole * part <= whole * parts) by (nonlinear_arith)
        requires
            part <= parts,
    ;
    assert((whole * part) / parts <= whole) by (nonlinear_arith)
        requires
            whole * part <= whole * parts,
            parts > 0,
    ;
}

fn offloaded_weight_bytes(settings: &LaunchSettings, block_count: Option<u64>, model_size_bytes: u64) -> (result: u64)
    ensures
        result == (match (settings.gpu_number(), positive(block_count)) {
            (Some(layers), Some(blocks)) => (model_size_bytes as nat * at_most(layers as nat, blocks)) / blocks,
            (Some(layers), None) => if layers == 0 {
                0
            } else {
                model_size_bytes as nat
            },
            (None, _) => model_size_bytes as nat,
        }),
{
    match (settings.gpu_layers, nonzero(block_count)) {
        (Some(layers), Some(blocks)) => {
            let layers: u64 = layers.get() as u64;
            let offloaded: u64 = if layers < blocks {
                layers
            } else {
                blocks
            };
            proof {
                lemma_share(model_size_bytes as nat, offloaded as nat, blocks as nat);
                assert(model_size_bytes as u128 * offloaded as u128 <= u128::MAX) by (nonlinear_arith)
                    requires
                        model_size_bytes <= u64::MAX,
                        offloaded <= u64::MAX,
                ;
            }
            ((model_size_bytes as u128 * offloaded as u128) / blocks as u128) as u64
        },
        (Some(layers), None) => if layers.get() == 0 {
            0
        } else {
            model_size_bytes
        },
        (None, _) => model_size_bytes,
    }
}

/// The estimate for a model of this size with these settings, on a graphics
/// processor with this much memory.
pub open spec fn estimates(
    estimate: ContextEstimate,
    metadata: CatalogMetadata,
    model_size_bytes: u64,
    settings: LaunchSettings,
    total_vram_bytes: u64,
    free_vram_bytes: u64,
) -> bool {
    &&& estimate.model_context_limit == metadata.context_limit()
    &&& as_nat(estimate.kv_bytes_per_token) == metadata.bytes_per_token(settings.cache_type())
    &&& estimate.estimated_weight_bytes == settings.weight_bytes(metadata, model_size_bytes as nat)
    &&& estimate.safety_reserve_bytes == reserve_bytes(total_vram_bytes as nat)
    &&& match (estimate.vram_context_limit, estimate.kv_bytes_per_token) {
        (Some(limit), Some(per_token)) => limit == fitting_context(
            less(
                less(free_vram_bytes as nat, estimate.safety_reserve_bytes as nat),
                estimate.estimated_weight_bytes as nat,
            ),
            per_token as nat,
            metadata.context_limit(),
        ),
        (None, None) => true,
        _ => false,
    }
    &&& estimate.recommended_context == recommended(
        match estimate.vram_context_limit {
            Some(limit) => limit as nat,
            None => metadata.context_limit(),
        },
    )
}

/// Estimates the cache that a launch allocates: one key row and one value row per
/// cached token in every attention layer.
pub fn estimate_context(
    metadata: &CatalogMetadata,
    model_size_bytes: u64,
    settings: &LaunchSettings,
    total_vram_bytes: u64,
    free_vram_bytes: u64,
) -> (result: ContextEstimate)
    ensures
        estimates(result, *metadata, model_size_bytes, *settings, total_vram_bytes, free_vram_bytes),
        result.recommended_context <= result.model_context_limit,
        result.vram_context_limit matches Some(limit) ==> result.recommended_context <= limit
            <= result.model_context_limit,
        result.recommended_context % 512 == 0,
{
    let stated: u64 = match metadata.context_length {
        Some(tokens) => tokens,
        None => DEFAULT_CONTEXT,
    };
    let model_context_limit: u64 = if stated < CONTEXT_STEP {
        CONTEXT_STEP
    } else if stated > MAX_CONTEXT {
        MAX_CONTEXT
    } else {
        stated
    };
    let cache_type = match settings.kv_cache_type {
        Some(cache) => cache,
        None => KvCacheType::F16,
    };
    let kv_bytes_per_token = metadata.cache_bytes_per_token(cache_type);
    let estimated_weight_bytes: u64 = offloaded_weight_bytes(
        settings,
        metadata.block_count,
        model_size_bytes,
    );
    let safety_reserve_bytes: u64 = if total_vram_bytes / 10 > MIN_RESERVE {
        total_vram_bytes / 10
    } else {
        MIN_RESERVE
    };
    let available_for_kv: u64 = free_vram_bytes.saturating_sub(safety_reserve_bytes).saturating_sub(
        estimated_weight_bytes,
    );
    let vram_context_limit = match kv_bytes_per_token {
        Some(bytes) => {
            let divisor: u64 = if bytes > 0 {
                bytes
            } else {
                1
            };
            let tokens: u64 = available_for_kv / divisor;
            let stepped: u64 = tokens / CONTEXT_STEP * CONTEXT_STEP;
            let limit: u64 = if stepped < CONTEXT_STEP {
                CONTEXT_STEP
            } else if stepped > model_context_limit {
                model_context_limit
            } else {
                stepped
            };
            Some(limit as u32)
        },
        None => None,
    };
    let effective_limit: u64 = match vram_context_limit {
        Some(limit) => limit as u64,
        None => model_context_limit,
    };
    let stepped: u64 = effective_limit * 4 / 5 / CONTEXT_STEP * CONTEXT_STEP;
    let recommended_context: u64 = if stepped > CONTEXT_STEP {
        stepped
    } else {
        CONTEXT_STEP
    };
    ContextEstimate {
        model_context_limit: model_context_limit as u32,
        vram_context_limit,
        recommended_context: recommended_context as u32,
        kv_bytes_per_token,
        estimated_weight_bytes,
        safety_reserve_bytes,
    }
}

/// A recommendation is a whole number of steps, at least one step, and never
/// more than the context it was derived from.
pub proof fn law_recommendation_is_bounded(usable: nat)
    requires
        CONTEXT_STEP <= usable,
    ensures
        recommended(usable) % 512 == 0,
        CONTEXT_STEP <= recommended(usable) <= usable,
{
}

/// More memory for the cache never lowers the context that fits.
pub proof fn law_more_memory_fits_more_context(less_memory: nat, more_memory: nat, per_token: nat, limit: nat)
    requires
        less_memory <= more_memory,
        CONTEXT_STEP <= limit,
    ensures
        fitting_context(less_memory, per_token, limit) <= fitting_context(more_memory, per_token, limit),
{
    let divisor = if per_token > 0 {
        per_token
    } else {
        1
    };
    assert(less_memory / divisor <= more_memory / divisor) by (nonlinear_arith)
        requires
            less_memory <= more_memory,
            divisor > 0,
    ;
}

/// What a token needs in the cache decides how much fits: needing more never
/// fits more.
pub proof fn law_larger_rows_fit_less_context(available: nat, smaller: nat, larger: nat, limit: nat)
    requires
        0 < smaller <= larger,
        CONTEXT_STEP <= limit,
    ensures
        fitting_context(available, larger, limit) <= fitting_context(available, smaller, limit),
{
    assert(available / larger <= available / smaller) by (nonlinear_arith)
        requires
            0 < smaller <= larger,
    ;
}

/// On rows of whole blocks the quantised cache types need less than 16-bit
/// floats, and the four-bit type less than the eight-bit one.
pub proof fn law_quantised_rows_are_smaller(blocks: nat)
    requires
        blocks * 64 <= u64::MAX,
    ensures
        row_bytes(blocks * 32, KvCacheType::Q4_0) <= row_bytes(blocks * 32, KvCacheType::Q8_0),
        row_bytes(blocks * 32, KvCacheType::Q8_0) <= row_bytes(blocks * 32, KvCacheType::F16),
{
    assert((blocks * 32 + 31) / 32 == blocks);
}

/// The estimated limits of a model: its own window, within fixed bounds; what fits into
/// video memory beside the weights and the reserve, in whole steps and no step less;
/// and four fifths of that, in whole steps.
pub proof fn law_estimate_fits(
    estimate: ContextEstimate,
    metadata: CatalogMetadata,
    model_size_bytes: u64,
    settings: LaunchSettings,
    total_vram_bytes: u64,
    free_vram_bytes: u64,
)
    requires
        estimates(estimate, metadata, model_size_bytes, settings, total_vram_bytes, free_vram_bytes),
    ensures
        metadata.context_length is None ==> estimate.model_context_limit == 32_768,
        metadata.context_length matches Some(tokens) ==> estimate.model_context_limit == (if tokens < 512 {
            512
        } else if tokens > 1_048_576 {
            1_048_576
        } else {
            tokens as int
        }),
        estimate.vram_context_limit is Some <==> estimate.kv_bytes_per_token is Some,
        estimate.safety_reserve_bytes >= 1_073_741_824,
        estimate.safety_reserve_bytes * 10 + 9 >= total_vram_bytes,
        estimate.safety_reserve_bytes == 1_073_741_824 || estimate.safety_reserve_bytes * 10 <= total_vram_bytes,
        estimate.vram_context_limit matches Some(limit) ==> {
            let free = free_vram_bytes - estimate.safety_reserve_bytes - estimate.estimated_weight_bytes;
            let per_token = if estimate.kv_bytes_per_token->0 == 0 {
                1
            } else {
                estimate.kv_bytes_per_token->0
            };
            &&& 512 <= limit <= estimate.model_context_limit
            &&& limit % 512 == 0 || limit == estimate.model_context_limit
            &&& limit == 512 || limit * per_token <= free
            &&& limit == estimate.model_context_limit || (limit + 512) * per_token > free
        },
        estimate.recommended_context % 512 == 0,
        512 <= estimate.recommended_context <= estimate.model_context_limit,
        ({
            let usable = match estimate.vram_context_limit {
                Some(limit) => limit,
                None => estimate.model_context_limit,
            };
            &&& estimate.recommended_context <= usable
            &&& estimate.recommended_context == 512 || estimate.recommended_context * 5 <= usable * 4
            &&& (estimate.recommended_context + 512) * 5 > usable * 4
        }),
{
    let free = free_vram_bytes - estimate.safety_reserve_bytes - estimate.estimated_weight_bytes;
    if let Some(limit) = estimate.vram_context_limit {
        let per_token: nat = if estimate.kv_bytes_per_token->0 == 0 {
            1
        } else {
            estimate.kv_bytes_per_token->0 as nat
        };
        let available = less(
            less(free_vram_bytes as nat, estimate.safety_reserve_bytes as nat),
            estimate.estimated_weight_bytes as nat,
        );
        let tokens = available / per_token;
        assert(tokens * per_token <= available < (tokens + 1) * per_token) by (nonlinear_arith)
            requires
                per_token > 0,
                tokens == available / per_token,
        ;
        let stepped = tokens / 512 * 512;
        assert(stepped <= tokens < stepped + 512);
        if limit != 512 {
            assert(limit <= stepped);
            assert(limit * per_token <= tokens * per_token) by (nonlinear_arith)
                requires
                    limit <= tokens,
            ;
        }
        if limit != estimate.model_context_limit {
            assert(limit >= stepped);
            assert((tokens + 1) * per_token <= (limit + 512) * per_token) by (nonlinear_arith)
                requires
                    tokens + 1 <= limit + 512,
            ;
        }
    }
}

/// The weights in video memory: all of them unless fewer layers are asked for, none
/// for no layer, and for some layers their share, rounded down.
pub proof fn law_weights_follow_the_layers(
    estimate: ContextEstimate,
    metadata: CatalogMetadata,
    model_size_bytes: u64,
    settings: LaunchSettings,
    total_vram_bytes: u64,
    free_vram_bytes: u64,
)
    requires
        estimates(estimate, metadata, model_size_bytes, settings, total_vram_bytes, free_vram_bytes),
    ensures
        settings.gpu_layers is None ==> estimate.estimated_weight_bytes == model_size_bytes,
        settings.gpu_layers matches Some(layers) ==> {
            let known = metadata.block_count is Some && metadata.block_count->0 > 0;
            let blocks = metadata.block_count->0;
            &&& layers.number() == 0 ==> estimate.estimated_weight_bytes == 0
            &&& layers.number() > 0 && !known ==> estimate.estimated_weight_bytes == model_size_bytes
            &&& known && layers.number() >= blocks ==> estimate.estimated_weight_bytes == model_size_bytes
            &&& known && layers.number() < blocks ==> estimate.estimated_weight_bytes * blocks <= model_size_bytes
                * layers.number() < (estimate.estimated_weight_bytes + 1) * blocks
        },
{
    if settings.gpu_layers is Some && metadata.block_count is Some && metadata.block_count->0 > 0 {
        let layers = settings.gpu_layers->0.number() as nat;
        let blocks = metadata.block_count->0 as nat;
        let taken = at_most(layers, blocks);
        let size = model_size_bytes as nat;
        let share = (size * taken) / blocks;
        assert(share * blocks <= size * taken < (share + 1) * blocks) by (nonlinear_arith)
            requires
                blocks > 0,
                share == (size * taken) / blocks,
        ;
        if taken == blocks {
            assert(share == size) by (nonlinear_arith)
                requires
                    blocks > 0,
                    share == (size * blocks) / blocks,
            ;
        }
        if layers == 0 {
            assert(size * taken == 0) by (nonlinear_arith)
                requires
                    taken == 0,
            ;
            assert(share == 0) by (nonlinear_arith)
                requires
                    blocks > 0,
                    share * blocks <= 0,
            ;
        }
    }
}

/// The cache of one token holds a key and a value for every key/value head in every
/// layer that keeps a cache. Heads that are shared count once; a head that does not
/// state its length has its share of the embedding.
pub proof fn law_cache_holds_keys_and_values(
    metadata: CatalogMetadata,
    layers: nat,
    heads: nat,
    key: nat,
    value: nat,
    bytes: nat,
)
    requires
        metadata.block_count matches Some(blocks) && blocks > 0 && (match metadata.full_attention_interval {
            Some(interval) => if interval > 0 {
                blocks + interval - 1 <= u64::MAX && (layers - 1) * interval < blocks <= layers * interval
            } else {
                layers == blocks
            },
            None => layers == blocks,
        }),
        match metadata.attention_head_count_kv {
            Some(shared) => if shared > 0 {
                heads == shared
            } else {
                metadata.attention_head_count == Some(heads as u64) && 0 < heads <= u64::MAX
            },
            None => metadata.attention_head_count == Some(heads as u64) && 0 < heads <= u64::MAX,
        },
        match metadata.attention_key_length {
            Some(length) => key == length,
            None => head_share(metadata, key),
        },
        match metadata.attention_value_length {
            Some(length) => value == length,
            None => head_share(metadata, value),
        },
        bytes == (key * heads + value * heads) * 2 * layers,
        key * heads * 2 <= u64::MAX,
        value * heads * 2 <= u64::MAX,
        (key * heads + value * heads) * 2 <= u64::MAX,
        bytes <= u64::MAX,
    ensures
        metadata.bytes_per_token(KvCacheType::F16) == Some(bytes),
        metadata.bytes_per_token(KvCacheType::Q8_0) is Some && metadata.bytes_per_token(KvCacheType::Q4_0) is Some
            && (key * heads) % 32 == 0 && (value * heads) % 32 == 0 ==> {
            &&& metadata.bytes_per_token(KvCacheType::Q8_0)->0 * 64 == bytes * 34
            &&& metadata.bytes_per_token(KvCacheType::Q4_0)->0 * 64 == bytes * 18
        },
{
    let blocks = metadata.block_count->0 as int;
    if let Some(interval) = metadata.full_attention_interval {
        if interval > 0 {
            let step = interval as int;
            assert((blocks + step - 1) / step == layers) by (nonlinear_arith)
                requires
                    step > 0,
                    (layers - 1) * step < blocks <= layers * step,
            ;
        }
    }
    assert(metadata.attention_layers() == Some(layers));
    assert(metadata.kv_heads() == Some(heads));
    assert(metadata.attention_key_length is None ==> metadata.default_head_length() == Some(key)) by {
        if metadata.attention_key_length is None {
            lemma_head_share(metadata, key);
        }
    }
    assert(metadata.attention_value_length is None ==> metadata.default_head_length() == Some(value)) by {
        if metadata.attention_value_length is None {
            lemma_head_share(metadata, value);
        }
    }
    let one = key * heads;
    let two = value * heads;
    assert(metadata.row_width(metadata.attention_key_length) == Some(one));
    assert(metadata.row_width(metadata.attention_value_length) == Some(two));
    assert((one * 2 + two * 2) == (one + two) * 2);
    if one % 32 == 0 && two % 32 == 0 {
        let eight = (one / 32) * 34 + (two / 32) * 34;
        let four = (one / 32) * 18 + (two / 32) * 18;
        assert((one + 31) / 32 == one / 32 && (two + 31) / 32 == two / 32);
        assert(eight * 64 == (one + two) * 2 * 34);
        assert(four * 64 == (one + two) * 2 * 18);
        assert((eight * layers) * 64 == ((one + two) * 2 * layers) * 34) by (nonlinear_arith)
            requires
                eight * 64 == (one + two) * 2 * 34,
        ;
        assert((four * layers) * 64 == ((one + two) * 2 * layers) * 18) by (nonlinear_arith)
            requires
                four * 64 == (one + two) * 2 * 18,
        ;
    }
}

/// The whole share of one head in the embedding.
pub open spec fn head_share(metadata: CatalogMetadata, length: nat) -> bool {
    &&& metadata.embedding_length is Some
    &&& metadata.attention_head_count is Some
    &&& metadata.attention_head_count->0 > 0
    &&& length > 0
    &&& length * metadata.attention_head_count->0 <= metadata.embedding_length->0 < (length + 1)
        * metadata.attention_head_count->0
}

proof fn lemma_head_share(metadata: CatalogMetadata, length: nat)
    requires
        head_share(metadata, length),
    ensures
        metadata.default_head_length() == Some(length),
{
    let heads = metadata.attention_head_count->0 as nat;
    let embedding = metadata.embedding_length->0 as nat;
    assert(embedding / heads == length) by (nonlinear_arith)
        requires
            heads > 0,
            length * heads <= embedding < (length + 1) * heads,
    ;
}

/// Without the number of layers, of heads, or a length of their keys and values,
/// nothing is said of the cache.
pub proof fn law_unknown_cache_is_not_guessed(metadata: CatalogMetadata, cache: KvCacheType)
    requires
        metadata.block_count is None || metadata.block_count == Some(0u64) || (metadata.attention_head_count is None
            && metadata.attention_head_count_kv is None) || (metadata.attention_key_length is None && (
        metadata.embedding_length is None || metadata.attention_head_count is None)),
    ensures
        metadata.bytes_per_token(cache) is None,
{
}

/// A quantised cache holds 32 elements in 34 or 18 bytes, in whole blocks.
pub proof fn law_rows_take_whole_blocks(elements: nat)
    requires
        elements * 2 <= u64::MAX,
    ensures
        row_bytes(elements, KvCacheType::F16) == elements * 2,
        row_bytes(elements, KvCacheType::Q8_0) % 34 == 0,
        row_bytes(elements, KvCacheType::Q8_0) * 32 >= elements * 34,
        row_bytes(elements, KvCacheType::Q8_0) * 32 < (elements + 32) * 34,
        row_bytes(elements, KvCacheType::Q4_0) % 18 == 0,
        row_bytes(elements, KvCacheType::Q4_0) * 32 >= elements * 18,
        row_bytes(elements, KvCacheType::Q4_0) * 32 < (elements + 32) * 18,
{
    let blocks = (elements + 31) / 32;
    assert(blocks * 32 >= elements && blocks * 32 < elements + 32);
    assert(blocks * 34 <= u64::MAX);
}

/// A launch without a cache type uses 16-bit floats, and one with a cache type that.
pub proof fn law_cache_type_is_what_is_set(settings: LaunchSettings)
    ensures
        settings.kv_cache_type is None ==> settings.cache_type() == KvCacheType::F16,
        settings.kv_cache_type is Some ==> settings.cache_type() == settings.kv_cache_type->0,
{
}

/// The words of the arguments hold this flag, and behind it this value.
#[verifier::opaque]
pub open spec fn passes(args: Seq<Seq<char>>, flag: Seq<char>, value: Seq<char>) -> bool {
    exists|index: int| 0 <= index < args.len() - 1 && #[trigger] args[index] == flag && args[index + 1] == value
}

/// Every setting that is set and that the engine understands is passed with its own
/// flag and its value, and nothing else is passed.
#[verifier::rlimit(80)]
#[verifier::spinoff_prover]
pub proof fn law_settings_are_passed_by_their_flags(settings: LaunchSettings, capabilities: EngineCapabilities)
    ensures
        ({
            let args = settings.rendered_args(capabilities);
            let context = capabilities.context_length && settings.context_length is Some;
            let layers = capabilities.gpu_layers && settings.gpu_layers is Some;
            let threads = capabilities.cpu_threads && settings.cpu_threads is Some;
            let batch = capabilities.batch_size && settings.batch_size is Some;
            let slots = capabilities.parallel_slots && settings.parallel_slots is Some;
            let flash = capabilities.flash_attention && settings.flash_attention == Some(true);
            let cache = capabilities.kv_cache_type && settings.kv_cache_type is Some;
            let draft = capabilities.speculative_type && settings.speculative_type is Some;
            &&& context ==> passes(args, "--ctx-size"@, decimal(settings.context_length->0.number() as nat))
            &&& layers ==> passes(args, "--gpu-layers"@, decimal(settings.gpu_layers->0.number() as nat))
            &&& threads ==> passes(args, "--threads"@, decimal(settings.cpu_threads->0.number() as nat))
            &&& batch ==> passes(args, "--batch-size"@, decimal(settings.batch_size->0.number() as nat))
            &&& slots ==> passes(args, "--parallel"@, decimal(settings.parallel_slots->0.number() as nat))
            &&& flash ==> passes(args, "--flash-attn"@, "on"@)
            &&& cache ==> passes(args, "--cache-type-k"@, cache_word(settings.kv_cache_type->0)) && passes(
                args,
                "--cache-type-v"@,
                cache_word(settings.kv_cache_type->0),
            )
            &&& draft ==> passes(
                args,
                "--spec-type"@,
                match settings.speculative_type->0 {
                    SpeculativeType::DraftMtp => "draft-mtp"@,
                    SpeculativeType::DraftDflash => "draft-dflash"@,
                },
            )
            &&& args.len() == counted(context) + counted(layers) + counted(threads) + counted(batch) + counted(slots)
                + counted(flash) + counted(cache) + counted(cache) + counted(draft)
        }),
{
    let one = numeric_args(capabilities.context_length, "--ctx-size"@, settings.context_number());
    let two = numeric_args(capabilities.gpu_layers, "--gpu-layers"@, settings.gpu_number());
    let three = numeric_args(capabilities.cpu_threads, "--threads"@, settings.thread_number());
    let four = numeric_args(capabilities.batch_size, "--batch-size"@, settings.batch_number());
    let five = numeric_args(capabilities.parallel_slots, "--parallel"@, settings.slot_number());
    let six = word_args(capabilities.flash_attention, settings.flash_words());
    let seven = word_args(capabilities.kv_cache_type, settings.cache_words());
    let eight = word_args(capabilities.speculative_type, settings.draft_words());
    lemma_passed_in_parts(one, two, three, four, five, six, seven, eight);
    lemma_numeric_part(capabilities.context_length, "--ctx-size"@, settings.context_number());
    lemma_numeric_part(capabilities.gpu_layers, "--gpu-layers"@, settings.gpu_number());
    lemma_numeric_part(capabilities.cpu_threads, "--threads"@, settings.thread_number());
    lemma_numeric_part(capabilities.batch_size, "--batch-size"@, settings.batch_number());
    lemma_numeric_part(capabilities.parallel_slots, "--parallel"@, settings.slot_number());
    assert(six.len() == counted(capabilities.flash_attention && settings.flash_attention == Some(true)) && (
    six.len() > 0 ==> passes(six, "--flash-attn"@, "on"@))) by {
        reveal(passes);
        if six.len() > 0 {
            assert(six[0] == "--flash-attn"@);
        }
    }
    let word = cache_word(settings.kv_cache_type->0);
    assert(seven.len() == 2 * counted(capabilities.kv_cache_type && settings.kv_cache_type is Some) && (seven.len()
        > 0 ==> passes(seven, "--cache-type-k"@, word) && passes(seven, "--cache-type-v"@, word))) by {
        reveal(passes);
        if seven.len() > 0 {
            assert(seven[0] == "--cache-type-k"@);
            assert(seven[2] == "--cache-type-v"@);
        }
    }
    let kind = match settings.speculative_type->0 {
        SpeculativeType::DraftMtp => "draft-mtp"@,
        SpeculativeType::DraftDflash => "draft-dflash"@,
    };
    assert(eight.len() == counted(capabilities.speculative_type && settings.speculative_type is Some) && (eight.len()
        > 0 ==> passes(eight, "--spec-type"@, kind))) by {
        reveal(passes);
        if eight.len() > 0 {
            assert(eight[0] == "--spec-type"@);
        }
    }
}

proof fn lemma_numeric_part(supported: bool, flag: Seq<char>, value: Option<u32>)
    ensures
        numeric_args(supported, flag, value).len() == counted(supported && value is Some),
        supported && value is Some ==> passes(
            numeric_args(supported, flag, value),
            flag,
            decimal(value->0 as nat),
        ),
{
    reveal(passes);
    if supported && value is Some {
        assert(numeric_args(supported, flag, value)[0] == flag);
    }
}

proof fn lemma_passed_in_parts(
    one: Seq<Seq<char>>,
    two: Seq<Seq<char>>,
    three: Seq<Seq<char>>,
    four: Seq<Seq<char>>,
    five: Seq<Seq<char>>,
    six: Seq<Seq<char>>,
    seven: Seq<Seq<char>>,
    eight: Seq<Seq<char>>,
)
    ensures
        ({
            let all = one + two + three + four + five + six + seven + eight;
            &&& all.len() == one.len() + two.len() + three.len() + four.len() + five.len() + six.len() + seven.len()
                + eight.len()
            &&& forall|flag: Seq<char>, value: Seq<char>|
                passes(one, flag, value) || passes(two, flag, value) || passes(three, flag, value) || passes(
                    four,
                    flag,
                    value,
                ) || passes(five, flag, value) || passes(six, flag, value) || passes(seven, flag, value) || passes(
                    eight,
                    flag,
                    value,
                ) ==> #[trigger] passes(all, flag, value)
        }),
{
    lemma_passed_together(one, two);
    lemma_passed_together(one + two, three);
    lemma_passed_together(one + two + three, four);
    lemma_passed_together(one + two + three + four, five);
    lemma_passed_together(one + two + three + four + five, six);
    lemma_passed_together(one + two + three + four + five + six, seven);
    lemma_passed_together(one + two + three + four + five + six + seven, eight);
}

proof fn lemma_passed_together(front: Seq<Seq<char>>, back: Seq<Seq<char>>)
    ensures
        forall|flag: Seq<char>, value: Seq<char>|
            passes(front, flag, value) || passes(back, flag, value) ==> #[trigger] passes(front + back, flag, value),
        (front + back).len() == front.len() + back.len(),
{
    reveal(passes);
    assert forall|flag: Seq<char>, value: Seq<char>|
        passes(front, flag, value) || passes(back, flag, value) implies #[trigger] passes(
        front + back,
        flag,
        value,
    ) by {
        if passes(front, flag, value) {
            let index = choose|index: int|
                0 <= index < front.len() - 1 && #[trigger] front[index] == flag && front[index + 1] == value;
            assert((front + back)[index] == flag);
        } else {
            let index = choose|index: int|
                0 <= index < back.len() - 1 && #[trigger] back[index] == flag && back[index + 1] == value;
            assert((front + back)[front.len() + index] == flag);
            assert((front + back)[front.len() + index + 1] == value);
        }
    }
}

/// Two words for a setting that is passed.
pub open spec fn counted(passed: bool) -> int {
    if passed {
        2
    } else {
        0
    }
}

/// How a cache type is written.
pub open spec fn cache_word(cache: KvCacheType) -> Seq<char> {
    match cache {
        KvCacheType::F16 => "f16"@,
        KvCacheType::Q8_0 => "q8_0"@,
        KvCacheType::Q4_0 => "q4_0"@,
    }
}

/// A setting is among those that are reported.
#[verifier::opaque]
pub open spec fn reports(reported: Seq<SettingId>, id: SettingId) -> bool {
    reported.contains(id)
}

/// A setting is reported as not understood where it is set and the engine does not
/// understand it, and only there.
#[verifier::rlimit(80)]
#[verifier::spinoff_prover]
pub proof fn law_settings_not_understood_are_reported(settings: LaunchSettings, capabilities: EngineCapabilities)
    ensures
        ({
            let reported = settings.rendered_unsupported(capabilities);
            &&& reports(reported, SettingId::ContextLength) <==> settings.context_length is Some
                && !capabilities.context_length
            &&& reports(reported, SettingId::GpuLayers) <==> settings.gpu_layers is Some && !capabilities.gpu_layers
            &&& reports(reported, SettingId::CpuThreads) <==> settings.cpu_threads is Some
                && !capabilities.cpu_threads
            &&& reports(reported, SettingId::BatchSize) <==> settings.batch_size is Some && !capabilities.batch_size
            &&& reports(reported, SettingId::ParallelSlots) <==> settings.parallel_slots is Some
                && !capabilities.parallel_slots
            &&& reports(reported, SettingId::FlashAttention) <==> settings.flash_attention == Some(true)
                && !capabilities.flash_attention
            &&& reports(reported, SettingId::KvCacheType) <==> settings.kv_cache_type is Some
                && !capabilities.kv_cache_type
            &&& reports(reported, SettingId::SpeculativeType) <==> settings.speculative_type is Some
                && !capabilities.speculative_type
        }),
{
    let one = missing(settings.context_length is Some, capabilities.context_length, SettingId::ContextLength);
    let two = missing(settings.gpu_layers is Some, capabilities.gpu_layers, SettingId::GpuLayers);
    let three = missing(settings.cpu_threads is Some, capabilities.cpu_threads, SettingId::CpuThreads);
    let four = missing(settings.batch_size is Some, capabilities.batch_size, SettingId::BatchSize);
    let five = missing(settings.parallel_slots is Some, capabilities.parallel_slots, SettingId::ParallelSlots);
    let six = missing(
        settings.flash_attention == Some(true),
        capabilities.flash_attention,
        SettingId::FlashAttention,
    );
    let seven = missing(settings.kv_cache_type is Some, capabilities.kv_cache_type, SettingId::KvCacheType);
    let eight = missing(
        settings.speculative_type is Some,
        capabilities.speculative_type,
        SettingId::SpeculativeType,
    );
    lemma_reported_in_parts(one, two, three, four, five, six, seven, eight);
    lemma_reported_alone(settings.context_length is Some, capabilities.context_length, SettingId::ContextLength);
    lemma_reported_alone(settings.gpu_layers is Some, capabilities.gpu_layers, SettingId::GpuLayers);
    lemma_reported_alone(settings.cpu_threads is Some, capabilities.cpu_threads, SettingId::CpuThreads);
    lemma_reported_alone(settings.batch_size is Some, capabilities.batch_size, SettingId::BatchSize);
    lemma_reported_alone(settings.parallel_slots is Some, capabilities.parallel_slots, SettingId::ParallelSlots);
    lemma_reported_alone(
        settings.flash_attention == Some(true),
        capabilities.flash_attention,
        SettingId::FlashAttention,
    );
    lemma_reported_alone(settings.kv_cache_type is Some, capabilities.kv_cache_type, SettingId::KvCacheType);
    lemma_reported_alone(
        settings.speculative_type is Some,
        capabilities.speculative_type,
        SettingId::SpeculativeType,
    );
}

proof fn lemma_reported_in_parts(
    one: Seq<SettingId>,
    two: Seq<SettingId>,
    three: Seq<SettingId>,
    four: Seq<SettingId>,
    five: Seq<SettingId>,
    six: Seq<SettingId>,
    seven: Seq<SettingId>,
    eight: Seq<SettingId>,
)
    ensures
        forall|id: SettingId| #[trigger]
            reports(one + two + three + four + five + six + seven + eight, id) <==> reports(one, id)
                || reports(two, id) || reports(three, id) || reports(four, id) || reports(five, id) || reports(six, id)
                || reports(seven, id) || reports(eight, id),
{
    lemma_reported_together(one, two);
    lemma_reported_together(one + two, three);
    lemma_reported_together(one + two + three, four);
    lemma_reported_together(one + two + three + four, five);
    lemma_reported_together(one + two + three + four + five, six);
    lemma_reported_together(one + two + three + four + five + six, seven);
    lemma_reported_together(one + two + three + four + five + six + seven, eight);
}

proof fn lemma_reported_together(front: Seq<SettingId>, back: Seq<SettingId>)
    ensures
        forall|id: SettingId| #[trigger] reports(front + back, id) <==> reports(front, id) || reports(back, id),
{
    reveal(reports);
    assert forall|id: SettingId| #[trigger] reports(front + back, id) <==> reports(front, id) || reports(back, id) by {
        if front.contains(id) {
            let index = choose|index: int| 0 <= index < front.len() && front[index] == id;
            assert((front + back)[index] == id);
        }
        if back.contains(id) {
            let index = choose|index: int| 0 <= index < back.len() && back[index] == id;
            assert((front + back)[front.len() + index] == id);
        }
    }
}

proof fn lemma_reported_alone(set: bool, supported: bool, id: SettingId)
    ensures
        forall|other: SettingId| #[trigger]
            reports(missing(set, supported, id), other) <==> set && !supported && other == id,
{
    reveal(reports);
    if set && !supported {
        assert(missing(set, supported, id)[0] == id);
    }
}

} // verus!
