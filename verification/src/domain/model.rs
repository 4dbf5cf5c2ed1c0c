//! The objects of the control plane: models, runtimes, instances and operations.
//!
//! The state of an instance and of an operation is private. It is read with
//! `state` and changed only with `with_state`, which runs the target through the
//! state machine, so that an illegal move is refused and never stored.

use vstd::prelude::*;

use super::error::{DomainError, ErrorCode};
use super::state_machine::{transition_instance, transition_operation, invalid_instance_move, invalid_operation_move};
use crate::text::same_text;

verus! {

/// The format of an artifact on disk.
#[derive(Clone, Copy, Debug, PartialEq, Eq, Hash, Structural)]
pub enum ArtifactKind {
    /// A llama.cpp GGUF file (`*.gguf`).
    Gguf,
    /// An `NInfer` artifact (`*.ninfer`).
    Ninfer,
}

impl ArtifactKind {
    /// The word that stands for the value on the wire.
    pub open spec fn wire_text(self) -> Seq<char> {
        match self {
            ArtifactKind::Gguf => "gguf"@,
            ArtifactKind::Ninfer => "ninfer"@,
        }
    }

    /// The value that a word stands for.
    pub open spec fn read_wire_text(text: Seq<char>) -> Option<Self> {
        if text == "gguf"@ {
            Some(ArtifactKind::Gguf)
        } else if text == "ninfer"@ {
            Some(ArtifactKind::Ninfer)
        } else {
            None
        }
    }

    pub fn wire(self) -> (result: &'static str)
        ensures
            result@ == self.wire_text(),
    {
        match self {
            ArtifactKind::Gguf => "gguf",
            ArtifactKind::Ninfer => "ninfer",
        }
    }

    pub fn from_wire(text: &str) -> (result: Option<Self>)
        ensures
            result == ArtifactKind::read_wire_text(text@),
    {
        if same_text(text, "gguf") {
            return Some(ArtifactKind::Gguf);
        }
        if same_text(text, "ninfer") {
            return Some(ArtifactKind::Ninfer);
        }
        None
    }
}

/// Reading the word of an `ArtifactKind` gives the value back, so no two values share a
/// word.
pub proof fn law_artifact_kind_round_trips(value: ArtifactKind)
    ensures
        ArtifactKind::read_wire_text(value.wire_text()) == Some(value),
{
    reveal_strlit("gguf");
    reveal_strlit("ninfer");
    assert("gguf"@.len() == 4);
    assert("ninfer"@.len() == 6);
}

/// The engine family that an executable belongs to.
#[derive(Clone, Copy, Debug, PartialEq, Eq, Hash, Structural)]
pub enum RuntimeKind {
    /// A `llama-server` (llama.cpp) executable.
    LlamaCpp,
    /// A `ninfer-serve` executable.
    Ninfer,
}

impl RuntimeKind {
    /// The word that stands for the value on the wire.
    pub open spec fn wire_text(self) -> Seq<char> {
        match self {
            RuntimeKind::LlamaCpp => "llama_cpp"@,
            RuntimeKind::Ninfer => "ninfer"@,
        }
    }

    /// The value that a word stands for.
    pub open spec fn read_wire_text(text: Seq<char>) -> Option<Self> {
        if text == "llama_cpp"@ {
            Some(RuntimeKind::LlamaCpp)
        } else if text == "ninfer"@ {
            Some(RuntimeKind::Ninfer)
        } else {
            None
        }
    }

    pub fn wire(self) -> (result: &'static str)
        ensures
            result@ == self.wire_text(),
    {
        match self {
            RuntimeKind::LlamaCpp => "llama_cpp",
            RuntimeKind::Ninfer => "ninfer",
        }
    }

    pub fn from_wire(text: &str) -> (result: Option<Self>)
        ensures
            result == RuntimeKind::read_wire_text(text@),
    {
        if same_text(text, "llama_cpp") {
            return Some(RuntimeKind::LlamaCpp);
        }
        if same_text(text, "ninfer") {
            return Some(RuntimeKind::Ninfer);
        }
        None
    }
}

/// Reading the word of a `RuntimeKind` gives the value back, so no two values share a
/// word.
pub proof fn law_runtime_kind_round_trips(value: RuntimeKind)
    ensures
        RuntimeKind::read_wire_text(value.wire_text()) == Some(value),
{
    reveal_strlit("llama_cpp");
    reveal_strlit("ninfer");
    assert("llama_cpp"@.len() == 9);
    assert("ninfer"@.len() == 6);
}

/// Why an instance failed. Only a likely lack of GPU memory is retried after an
/// eviction; every other class fails the load.
#[derive(Clone, Copy, Debug, PartialEq, Eq, Hash, Structural)]
pub enum FailureClass {
    /// A signature consistent with running out of GPU memory.
    GpuOomLikely,
    /// The instance did not become healthy before its start deadline.
    StartupTimeout,
    /// The inference process exited unexpectedly.
    ProcessCrash,
    /// The chosen port could not be bound.
    PortConflict,
    /// The model artifact was rejected by the runtime.
    InvalidModel,
    /// A launch/config error unrelated to resources.
    ConfigError,
    /// The upstream produced a malformed or protocol-invalid response.
    UpstreamProtocol,
    /// No known signature matched.
    Unknown,
}

impl FailureClass {
    /// The word that stands for the value on the wire.
    pub open spec fn wire_text(self) -> Seq<char> {
        match self {
            FailureClass::GpuOomLikely => "gpu_oom_likely"@,
            FailureClass::StartupTimeout => "startup_timeout"@,
            FailureClass::ProcessCrash => "process_crash"@,
            FailureClass::PortConflict => "port_conflict"@,
            FailureClass::InvalidModel => "invalid_model"@,
            FailureClass::ConfigError => "config_error"@,
            FailureClass::UpstreamProtocol => "upstream_protocol"@,
            FailureClass::Unknown => "unknown"@,
        }
    }

    /// The value that a word stands for.
    pub open spec fn read_wire_text(text: Seq<char>) -> Option<Self> {
        if text == "gpu_oom_likely"@ {
            Some(FailureClass::GpuOomLikely)
        } else if text == "startup_timeout"@ {
            Some(FailureClass::StartupTimeout)
        } else if text == "process_crash"@ {
            Some(FailureClass::ProcessCrash)
        } else if text == "port_conflict"@ {
            Some(FailureClass::PortConflict)
        } else if text == "invalid_model"@ {
            Some(FailureClass::InvalidModel)
        } else if text == "config_error"@ {
            Some(FailureClass::ConfigError)
        } else if text == "upstream_protocol"@ {
            Some(FailureClass::UpstreamProtocol)
        } else if text == "unknown"@ {
            Some(FailureClass::Unknown)
        } else {
            None
        }
    }

    pub fn wire(self) -> (result: &'static str)
        ensures
            result@ == self.wire_text(),
    {
        match self {
            FailureClass::GpuOomLikely => "gpu_oom_likely",
            FailureClass::StartupTimeout => "startup_timeout",
            FailureClass::ProcessCrash => "process_crash",
            FailureClass::PortConflict => "port_conflict",
            FailureClass::InvalidModel => "invalid_model",
            FailureClass::ConfigError => "config_error",
            FailureClass::UpstreamProtocol => "upstream_protocol",
            FailureClass::Unknown => "unknown",
        }
    }

    pub fn from_wire(text: &str) -> (result: Option<Self>)
        ensures
            result == FailureClass::read_wire_text(text@),
    {
        if same_text(text, "gpu_oom_likely") {
            return Some(FailureClass::GpuOomLikely);
        }
        if same_text(text, "startup_timeout") {
            return Some(FailureClass::StartupTimeout);
        }
        if same_text(text, "process_crash") {
            return Some(FailureClass::ProcessCrash);
        }
        if same_text(text, "port_conflict") {
            return Some(FailureClass::PortConflict);
        }
        if same_text(text, "invalid_model") {
            return Some(FailureClass::InvalidModel);
        }
        if same_text(text, "config_error") {
            return Some(FailureClass::ConfigError);
        }
        if same_text(text, "upstream_protocol") {
            return Some(FailureClass::UpstreamProtocol);
        }
        if same_text(text, "unknown") {
            return Some(FailureClass::Unknown);
        }
        None
    }
}

/// Reading the word of a `FailureClass` gives the value back, so no two values share a
/// word.
pub proof fn law_failure_class_round_trips(value: FailureClass)
    ensures
        FailureClass::read_wire_text(value.wire_text()) == Some(value),
{
    reveal_strlit("gpu_oom_likely");
    reveal_strlit("startup_timeout");
    reveal_strlit("process_crash");
    reveal_strlit("port_conflict");
    reveal_strlit("invalid_model");
    reveal_strlit("config_error");
    reveal_strlit("upstream_protocol");
    reveal_strlit("unknown");
    assert("gpu_oom_likely"@.len() == 14);
    assert("startup_timeout"@.len() == 15);
    assert("process_crash"@.len() == 13);
    assert("port_conflict"@.len() == 13);
    assert("invalid_model"@.len() == 13);
    assert("config_error"@.len() == 12);
    assert("upstream_protocol"@.len() == 17);
    assert("unknown"@.len() == 7);
    assert("process_crash"@[1] != "port_conflict"@[1]);
    assert("process_crash"@[0] != "invalid_model"@[0]);
    assert("port_conflict"@[0] != "invalid_model"@[0]);
}

/// The life cycle of an instance.
#[derive(Clone, Copy, Debug, PartialEq, Eq, Hash, Structural)]
pub enum InstanceState {
    /// No process is running for this model.
    Unloaded,
    /// A load has been accepted and is waiting to start.
    Queued,
    /// The child process is starting and being health-checked.
    Loading,
    /// The instance is serving requests.
    Ready,
    /// Requests are being drained before unload.
    Draining,
    /// The child process is being terminated.
    Unloading,
    /// The load/unload attempt failed and was cleaned up.
    Failed,
    /// The process exited unexpectedly while running.
    Crashed,
}

impl InstanceState {
    /// The word that stands for the value on the wire.
    pub open spec fn wire_text(self) -> Seq<char> {
        match self {
            InstanceState::Unloaded => "unloaded"@,
            InstanceState::Queued => "queued"@,
            InstanceState::Loading => "loading"@,
            InstanceState::Ready => "ready"@,
            InstanceState::Draining => "draining"@,
            InstanceState::Unloading => "unloading"@,
            InstanceState::Failed => "failed"@,
            InstanceState::Crashed => "crashed"@,
        }
    }

    /// The value that a word stands for.
    pub open spec fn read_wire_text(text: Seq<char>) -> Option<Self> {
        if text == "unloaded"@ {
            Some(InstanceState::Unloaded)
        } else if text == "queued"@ {
            Some(InstanceState::Queued)
        } else if text == "loading"@ {
            Some(InstanceState::Loading)
        } else if text == "ready"@ {
            Some(InstanceState::Ready)
        } else if text == "draining"@ {
            Some(InstanceState::Draining)
        } else if text == "unloading"@ {
            Some(InstanceState::Unloading)
        } else if text == "failed"@ {
            Some(InstanceState::Failed)
        } else if text == "crashed"@ {
            Some(InstanceState::Crashed)
        } else {
            None
        }
    }

    pub fn wire(self) -> (result: &'static str)
        ensures
            result@ == self.wire_text(),
    {
        match self {
            InstanceState::Unloaded => "unloaded",
            InstanceState::Queued => "queued",
            InstanceState::Loading => "loading",
            InstanceState::Ready => "ready",
            InstanceState::Draining => "draining",
            InstanceState::Unloading => "unloading",
            InstanceState::Failed => "failed",
            InstanceState::Crashed => "crashed",
        }
    }

    pub fn from_wire(text: &str) -> (result: Option<Self>)
        ensures
            result == InstanceState::read_wire_text(text@),
    {
        if same_text(text, "unloaded") {
            return Some(InstanceState::Unloaded);
        }
        if same_text(text, "queued") {
            return Some(InstanceState::Queued);
        }
        if same_text(text, "loading") {
            return Some(InstanceState::Loading);
        }
        if same_text(text, "ready") {
            return Some(InstanceState::Ready);
        }
        if same_text(text, "draining") {
            return Some(InstanceState::Draining);
        }
        if same_text(text, "unloading") {
            return Some(InstanceState::Unloading);
        }
        if same_text(text, "failed") {
            return Some(InstanceState::Failed);
        }
        if same_text(text, "crashed") {
            return Some(InstanceState::Crashed);
        }
        None
    }
}

/// Reading the word of an `InstanceState` gives the value back, so no two values share a
/// word.
pub proof fn law_instance_state_round_trips(value: InstanceState)
    ensures
        InstanceState::read_wire_text(value.wire_text()) == Some(value),
{
    reveal_strlit("unloaded");
    reveal_strlit("queued");
    reveal_strlit("loading");
    reveal_strlit("ready");
    reveal_strlit("draining");
    reveal_strlit("unloading");
    reveal_strlit("failed");
    reveal_strlit("crashed");
    assert("unloaded"@.len() == 8);
    assert("queued"@.len() == 6);
    assert("loading"@.len() == 7);
    assert("ready"@.len() == 5);
    assert("draining"@.len() == 8);
    assert("unloading"@.len() == 9);
    assert("failed"@.len() == 6);
    assert("crashed"@.len() == 7);
    assert("unloaded"@[0] != "draining"@[0]);
    assert("queued"@[0] != "failed"@[0]);
    assert("loading"@[0] != "crashed"@[0]);
}

/// What an operation does.
#[derive(Clone, Copy, Debug, PartialEq, Eq, Hash, Structural)]
pub enum OperationKind {
    /// Load a model into a new instance.
    Load,
    /// Drain and unload an instance.
    Unload,
    /// Rescan a model root for models.
    Rescan,
}

impl OperationKind {
    /// The word that stands for the value on the wire.
    pub open spec fn wire_text(self) -> Seq<char> {
        match self {
            OperationKind::Load => "load"@,
            OperationKind::Unload => "unload"@,
            OperationKind::Rescan => "rescan"@,
        }
    }

    /// The value that a word stands for.
    pub open spec fn read_wire_text(text: Seq<char>) -> Option<Self> {
        if text == "load"@ {
            Some(OperationKind::Load)
        } else if text == "unload"@ {
            Some(OperationKind::Unload)
        } else if text == "rescan"@ {
            Some(OperationKind::Rescan)
        } else {
            None
        }
    }

    pub fn wire(self) -> (result: &'static str)
        ensures
            result@ == self.wire_text(),
    {
        match self {
            OperationKind::Load => "load",
            OperationKind::Unload => "unload",
            OperationKind::Rescan => "rescan",
        }
    }

    pub fn from_wire(text: &str) -> (result: Option<Self>)
        ensures
            result == OperationKind::read_wire_text(text@),
    {
        if same_text(text, "load") {
            return Some(OperationKind::Load);
        }
        if same_text(text, "unload") {
            return Some(OperationKind::Unload);
        }
        if same_text(text, "rescan") {
            return Some(OperationKind::Rescan);
        }
        None
    }
}

/// Reading the word of an `OperationKind` gives the value back, so no two values share a
/// word.
pub proof fn law_operation_kind_round_trips(value: OperationKind)
    ensures
        OperationKind::read_wire_text(value.wire_text()) == Some(value),
{
    reveal_strlit("load");
    reveal_strlit("unload");
    reveal_strlit("rescan");
    assert("load"@.len() == 4);
    assert("unload"@.len() == 6);
    assert("rescan"@.len() == 6);
    assert("unload"@[0] != "rescan"@[0]);
}

/// The progress of an operation.
#[derive(Clone, Copy, Debug, PartialEq, Eq, Hash, Structural)]
pub enum OperationState {
    /// Accepted, not started.
    Queued,
    /// In progress.
    Running,
    /// Finished successfully (terminal).
    Succeeded,
    /// Finished with an error (terminal).
    Failed,
    /// Cancelled before or during work (terminal).
    Cancelled,
}

impl OperationState {
    /// The word that stands for the value on the wire.
    pub open spec fn wire_text(self) -> Seq<char> {
        match self {
            OperationState::Queued => "queued"@,
            OperationState::Running => "running"@,
            OperationState::Succeeded => "succeeded"@,
            OperationState::Failed => "failed"@,
            OperationState::Cancelled => "cancelled"@,
        }
    }

    /// The value that a word stands for.
    pub open spec fn read_wire_text(text: Seq<char>) -> Option<Self> {
        if text == "queued"@ {
            Some(OperationState::Queued)
        } else if text == "running"@ {
            Some(OperationState::Running)
        } else if text == "succeeded"@ {
            Some(OperationState::Succeeded)
        } else if text == "failed"@ {
            Some(OperationState::Failed)
        } else if text == "cancelled"@ {
            Some(OperationState::Cancelled)
        } else {
            None
        }
    }

    pub fn wire(self) -> (result: &'static str)
        ensures
            result@ == self.wire_text(),
    {
        match self {
            OperationState::Queued => "queued",
            OperationState::Running => "running",
            OperationState::Succeeded => "succeeded",
            OperationState::Failed => "failed",
            OperationState::Cancelled => "cancelled",
        }
    }

    pub fn from_wire(text: &str) -> (result: Option<Self>)
        ensures
            result == OperationState::read_wire_text(text@),
    {
        if same_text(text, "queued") {
            return Some(OperationState::Queued);
        }
        if same_text(text, "running") {
            return Some(OperationState::Running);
        }
        if same_text(text, "succeeded") {
            return Some(OperationState::Succeeded);
        }
        if same_text(text, "failed") {
            return Some(OperationState::Failed);
        }
        if same_text(text, "cancelled") {
            return Some(OperationState::Cancelled);
        }
        None
    }
}

/// Reading the word of an `OperationState` gives the value back, so no two values share a
/// word.
pub proof fn law_operation_state_round_trips(value: OperationState)
    ensures
        OperationState::read_wire_text(value.wire_text()) == Some(value),
{
    reveal_strlit("queued");
    reveal_strlit("running");
    reveal_strlit("succeeded");
    reveal_strlit("failed");
    reveal_strlit("cancelled");
    assert("queued"@.len() == 6);
    assert("running"@.len() == 7);
    assert("succeeded"@.len() == 9);
    assert("failed"@.len() == 6);
    assert("cancelled"@.len() == 9);
    assert("queued"@[0] != "failed"@[0]);
    assert("succeeded"@[0] != "cancelled"@[0]);
}

/// A moment, as whole seconds since 1970 and nanoseconds; a leap second has more
/// than a thousand million of them.
#[derive(Clone, Copy, Debug, PartialEq, Eq, Structural)]
pub struct Timestamp {
    pub seconds: i64,
    pub nanos: u32,
}

/// What `chrono::DateTime::parse_from_rfc3339` reads from a text: whole seconds
/// and nanoseconds.
pub uninterp spec fn parsed_moment(text: Seq<char>) -> Option<(i64, u32)>;

/// What `chrono::DateTime::to_rfc3339_opts` writes for a moment in UTC.
pub uninterp spec fn moment_text(seconds: i64, nanos: u32) -> Seq<char>;

/// The moments between the years 0000 and 9999, but for leap seconds.
pub open spec fn four_digit_year(seconds: i64, nanos: u32) -> bool {
    -62_167_219_200 <= seconds <= 253_402_300_799 && nanos < 1_000_000_000
}

/// Calls `chrono::DateTime::parse_from_rfc3339`.
#[verifier::external_body]
fn parse_moment(text: &str) -> (result: Option<(i64, u32)>)
    ensures
        result == parsed_moment(text@),
{
    match chrono::DateTime::parse_from_rfc3339(text) {
        Ok(moment) => Some((moment.timestamp(), moment.timestamp_subsec_nanos())),
        Err(_) => None,
    }
}

/// Calls `chrono::DateTime::to_rfc3339_opts`, in UTC with the fewest fractional
/// digits that lose nothing. `parse_from_rfc3339` reads the same moment back, where
/// the year has four digits.
#[verifier::external_body]
fn format_moment(seconds: i64, nanos: u32) -> (result: String)
    ensures
        result@ == moment_text(seconds, nanos),
        four_digit_year(seconds, nanos) ==> parsed_moment(result@) == Some((seconds, nanos)),
{
    chrono::DateTime::from_timestamp(seconds, nanos).unwrap_or_default().to_rfc3339_opts(
        chrono::SecondsFormat::AutoSi,
        true,
    )
}

impl Timestamp {
    /// The moment that was read from a text, where one was read.
    pub fn from_parsed(parsed: Option<(i64, u32)>) -> (result: Option<Self>)
        ensures
            match result {
                Some(stamp) => parsed == Some((stamp.seconds, stamp.nanos)),
                None => parsed is None,
            },
    {
        match parsed {
            Some((seconds, nanos)) => Some(Timestamp { seconds, nanos }),
            None => None,
        }
    }

    /// Reads a moment in the form of RFC 3339. Any other text is refused.
    pub fn parse(text: &str) -> (result: Option<Self>)
        ensures
            match result {
                Some(stamp) => parsed_moment(text@) == Some((stamp.seconds, stamp.nanos)),
                None => parsed_moment(text@) is None,
            },
    {
        Timestamp::from_parsed(parse_moment(text))
    }

    /// Writes the moment in the form of RFC 3339, in UTC; `parse` reads it back
    /// where the year has four digits.
    pub fn to_rfc3339(self) -> (result: String)
        ensures
            result@ == moment_text(self.seconds, self.nanos),
            four_digit_year(self.seconds, self.nanos) ==> parsed_moment(result@) == Some(
                (self.seconds, self.nanos),
            ),
    {
        format_moment(self.seconds, self.nanos)
    }
}

/// An indexed model. It is identified by its `id` and its `key`, never by its file
/// name alone. A deleted model is kept, so that a file that comes back is matched
/// with it. `metadata` is JSON text that nothing here reads.
#[derive(Debug, Clone, PartialEq, Eq)]
pub struct Model {
    pub id: String,
    pub key: String,
    pub path: String,
    pub artifact_kind: ArtifactKind,
    pub size_bytes: u64,
    pub mtime: Timestamp,
    pub display_name: Option<String>,
    pub default_runtime_id: Option<String>,
    pub default_load_config: Option<LoadConfig>,
    pub metadata: Option<String>,
    pub deleted: bool,
}

impl Model {
    /// Whether the model is no longer on disk.
    pub fn is_deleted(&self) -> (result: bool)
        ensures
            result == self.deleted,
    {
        self.deleted
    }

    /// The readable identifier of the model.
    pub fn key(&self) -> (result: &str)
        ensures
            result@ == self.key@,
    {
        self.key.as_str()
    }
}

/// What a probe found of a runtime executable.
#[derive(Debug, Clone, PartialEq, Eq)]
pub struct Capabilities {
    pub supports_chat_completions: bool,
    pub supports_completions: bool,
    pub supports_embeddings: bool,
    pub version: Option<String>,
    pub health_endpoint: Option<String>,
}

impl Default for Capabilities {
    fn default() -> (result: Self)
        ensures
            !result.supports_chat_completions,
            !result.supports_completions,
            !result.supports_embeddings,
            result.version is None,
            result.health_endpoint is None,
    {
        Capabilities {
            supports_chat_completions: false,
            supports_completions: false,
            supports_embeddings: false,
            version: None,
            health_endpoint: None,
        }
    }
}

/// A registered runtime: an executable of a known kind. `fixed_args` is a list of
/// arguments, never a shell command.
#[derive(Debug, Clone, PartialEq, Eq)]
pub struct Runtime {
    pub id: String,
    pub kind: RuntimeKind,
    pub executable_path: String,
    pub enabled: bool,
    pub version_text: Option<String>,
    pub capabilities: Capabilities,
    pub fixed_args: Vec<String>,
}

impl Runtime {
    /// Whether the runtime may be used for loads.
    pub fn is_enabled(&self) -> (result: bool)
        ensures
            result == self.enabled,
    {
        self.enabled
    }
}

/// The capacity of the key/value cache: a number of tokens, or left to the engine.
#[derive(Clone, Copy, Debug, PartialEq, Eq, Structural)]
pub enum KvCapacity {
    Auto,
    Value(u32),
}

/// A bare value of a document: a text or a number.
#[derive(Debug, PartialEq, Eq)]
pub enum Scalar {
    Text(String),
    Number(u64),
}

pub enum ScalarView {
    Text(Seq<char>),
    Number(u64),
}

impl View for Scalar {
    type V = ScalarView;

    open spec fn view(&self) -> ScalarView {
        match self {
            Scalar::Text(text) => ScalarView::Text(text@),
            Scalar::Number(number) => ScalarView::Number(*number),
        }
    }
}

impl KvCapacity {
    /// The value that stands for the capacity.
    pub open spec fn scalar_view(self) -> ScalarView {
        match self {
            KvCapacity::Auto => ScalarView::Text("auto"@),
            KvCapacity::Value(tokens) => ScalarView::Number(tokens as u64),
        }
    }

    /// The capacity that a value stands for: the word `auto`, or a number of tokens.
    pub open spec fn of_scalar(scalar: ScalarView) -> Option<KvCapacity> {
        match scalar {
            ScalarView::Text(text) => if text == "auto"@ {
                Some(KvCapacity::Auto)
            } else {
                None
            },
            ScalarView::Number(number) => if number <= u32::MAX {
                Some(KvCapacity::Value(number as u32))
            } else {
                None
            },
        }
    }

    pub fn from_scalar(scalar: &Scalar) -> (result: Option<Self>)
        ensures
            result == KvCapacity::of_scalar(scalar@),
    {
        match scalar {
            Scalar::Text(text) => if same_text(text.as_str(), "auto") {
                Some(KvCapacity::Auto)
            } else {
                None
            },
            Scalar::Number(number) => if *number <= u32::MAX as u64 {
                Some(KvCapacity::Value(*number as u32))
            } else {
                None
            },
        }
    }

    pub fn to_scalar(self) -> (result: Scalar)
        ensures
            result@ == self.scalar_view(),
    {
        match self {
            KvCapacity::Auto => Scalar::Text("auto".to_owned()),
            KvCapacity::Value(tokens) => Scalar::Number(tokens as u64),
        }
    }
}

/// A capacity is read back from the value that stands for it.
pub proof fn law_kv_capacity_round_trips(value: KvCapacity)
    ensures
        KvCapacity::of_scalar(value.scalar_view()) == Some(value),
{
}

/// Parameters that only the NInfer engine has; unset where `None`.
#[derive(Debug, Clone, PartialEq, Eq)]
pub struct NinferEngineConfig {
    pub kv_capacity: Option<KvCapacity>,
    pub prefill_chunk: Option<u32>,
    pub kv_dtype: Option<String>,
    pub spec_mode: Option<String>,
    pub draft_tokens: Option<u32>,
    pub lm_head_draft: Option<bool>,
    pub thinking: Option<String>,
    pub vision: Option<bool>,
}

impl Default for NinferEngineConfig {
    fn default() -> (result: Self)
        ensures
            result == (NinferEngineConfig {
                kv_capacity: None,
                prefill_chunk: None,
                kv_dtype: None,
                spec_mode: None,
                draft_tokens: None,
                lm_head_draft: None,
                thinking: None,
                vision: None,
            }),
    {
        NinferEngineConfig {
            kv_capacity: None,
            prefill_chunk: None,
            kv_dtype: None,
            spec_mode: None,
            draft_tokens: None,
            lm_head_draft: None,
            thinking: None,
            vision: None,
        }
    }
}

/// Parameters that belong to one engine.
#[derive(Debug, Clone, PartialEq, Eq)]
pub struct EngineConfig {
    pub ninfer: Option<NinferEngineConfig>,
}

impl Default for EngineConfig {
    fn default() -> (result: Self)
        ensures
            result.ninfer is None,
    {
        EngineConfig { ninfer: None }
    }
}

/// The parameters of a load.
#[derive(Debug, Clone, PartialEq, Eq)]
pub struct LoadConfig {
    pub context_length: u32,
    pub max_concurrency: Option<u32>,
    pub eval_batch_size: Option<u32>,
    pub flash_attention: Option<bool>,
    pub offload_kv_cache_to_gpu: Option<bool>,
    pub n_gpu_layers: Option<u32>,
    pub engine_config: Option<EngineConfig>,
}

impl LoadConfig {
    pub fn context_length(&self) -> (result: u32)
        ensures
            result == self.context_length,
    {
        self.context_length
    }

    /// The NInfer parameters, where there are any.
    pub fn ninfer_config(&self) -> (result: Option<&NinferEngineConfig>)
        ensures
            match result {
                Some(config) => self.engine_config matches Some(engine) && engine.ninfer == Some(*config),
                None => self.engine_config matches Some(engine) ==> engine.ninfer is None,
            },
    {
        match &self.engine_config {
            Some(engine) => engine.ninfer.as_ref(),
            None => None,
        }
    }
}

/// The last health probe of an instance.
#[derive(Clone, Copy, Debug, PartialEq, Eq)]
pub struct InstanceHealth {
    pub ok: bool,
    pub latency_ms: Option<u64>,
    pub checked_at: Option<Timestamp>,
}

impl Default for InstanceHealth {
    fn default() -> (result: Self)
        ensures
            !result.ok,
            result.latency_ms is None,
            result.checked_at is None,
    {
        InstanceHealth { ok: false, latency_ms: None, checked_at: None }
    }
}

/// Why an instance ended as failed or crashed.
#[derive(Debug, Clone, PartialEq, Eq)]
pub struct InstanceFailure {
    pub class: FailureClass,
    pub exit_code: Option<i32>,
    pub stderr_tail: Option<String>,
    pub message: Option<String>,
}

/// The error of a failed operation.
#[derive(Debug, Clone, PartialEq, Eq)]
pub struct OperationError {
    pub code: ErrorCode,
    pub message: String,
}

/// A load, unload or rescan. `result` is JSON text that nothing here reads.
#[derive(Debug, Clone, PartialEq, Eq)]
pub struct Operation {
    pub operation_id: String,
    pub kind: OperationKind,
    state: OperationState,
    pub instance_id: Option<String>,
    pub model_id: Option<String>,
    pub created_at: Option<Timestamp>,
    pub finished_at: Option<Timestamp>,
    pub error: Option<OperationError>,
    pub result: Option<String>,
}

/// What an operation holds.
pub struct OperationView {
    pub operation_id: Seq<char>,
    pub kind: OperationKind,
    pub state: OperationState,
    pub instance_id: Option<String>,
    pub model_id: Option<String>,
    pub created_at: Option<Timestamp>,
    pub finished_at: Option<Timestamp>,
    pub error: Option<OperationError>,
    pub result: Option<String>,
}

impl View for Operation {
    type V = OperationView;

    closed spec fn view(&self) -> OperationView {
        OperationView {
            operation_id: self.operation_id@,
            kind: self.kind,
            state: self.state,
            instance_id: self.instance_id,
            model_id: self.model_id,
            created_at: self.created_at,
            finished_at: self.finished_at,
            error: self.error,
            result: self.result,
        }
    }
}

impl Operation {

    /// A new operation, waiting to start, with nothing else known of it.
    pub fn new(operation_id: String, kind: OperationKind) -> (result: Self)
        ensures
            result@ == (OperationView {
                operation_id: operation_id@,
                kind,
                state: OperationState::Queued,
                instance_id: None,
                model_id: None,
                created_at: None,
                finished_at: None,
                error: None,
                result: None,
            }),
    {
        Operation {
            operation_id,
            kind,
            state: OperationState::Queued,
            instance_id: None,
            model_id: None,
            created_at: None,
            finished_at: None,
            error: None,
            result: None,
        }
    }

    pub fn state(&self) -> (result: OperationState)
        ensures
            result == self@.state,
    {
        self.state
    }

    /// Whether the operation has ended.
    pub fn is_terminal(&self) -> (result: bool)
        ensures
            result == (self@.state.targets().len() == 0),
    {
        self.state.is_terminal()
    }

    pub fn operation_id(&self) -> (result: &str)
        ensures
            result@ == self@.operation_id,
    {
        self.operation_id.as_str()
    }

    /// The operation in the state `to`, where the state machine allows that move.
    pub fn with_state(self, to: OperationState) -> (result: Result<Self, DomainError>)
        ensures
            match result {
                Ok(moved) => {
                    &&& self@.state.allows(to)
                    &&& moved@ == (OperationView { state: to, ..self@ })
                },
                Err(error) => {
                    &&& !self@.state.allows(to)
                    &&& invalid_operation_move(error, self@.state, to)
                },
            },
    {
        match transition_operation(self.state, to) {
            Ok(state) => {
                let mut moved = self;
                moved.state = state;
                Ok(moved)
            },
            Err(error) => Err(error),
        }
    }
}

/// An instance of a loaded model. `pid` and `port` are set once they were
/// confirmed.
#[derive(Debug, Clone, PartialEq, Eq)]
pub struct Instance {
    pub instance_id: String,
    pub model_id: String,
    pub runtime_id: String,
    pub load_config: LoadConfig,
    state: InstanceState,
    pub pid: Option<u32>,
    pub port: Option<u16>,
    pub device_ids: Vec<u32>,
    pub started_at: Option<Timestamp>,
    pub last_used_at: Option<Timestamp>,
    pub active_requests: u32,
    pub health: Option<InstanceHealth>,
    pub failure: Option<InstanceFailure>,
}

/// What an instance holds.
pub struct InstanceView {
    pub instance_id: Seq<char>,
    pub model_id: Seq<char>,
    pub runtime_id: Seq<char>,
    pub load_config: LoadConfig,
    pub state: InstanceState,
    pub pid: Option<u32>,
    pub port: Option<u16>,
    pub device_ids: Seq<u32>,
    pub started_at: Option<Timestamp>,
    pub last_used_at: Option<Timestamp>,
    pub active_requests: u32,
    pub health: Option<InstanceHealth>,
    pub failure: Option<InstanceFailure>,
}

impl View for Instance {
    type V = InstanceView;

    closed spec fn view(&self) -> InstanceView {
        InstanceView {
            instance_id: self.instance_id@,
            model_id: self.model_id@,
            runtime_id: self.runtime_id@,
            load_config: self.load_config,
            state: self.state,
            pid: self.pid,
            port: self.port,
            device_ids: self.device_ids@,
            started_at: self.started_at,
            last_used_at: self.last_used_at,
            active_requests: self.active_requests,
            health: self.health,
            failure: self.failure,
        }
    }
}

impl Instance {

    /// A new instance without a process.
    pub fn new(
        instance_id: String,
        model_id: String,
        runtime_id: String,
        load_config: LoadConfig,
    ) -> (result: Self)
        ensures
            result@ == (InstanceView {
                instance_id: instance_id@,
                model_id: model_id@,
                runtime_id: runtime_id@,
                load_config,
                state: InstanceState::Unloaded,
                pid: None,
                port: None,
                device_ids: Seq::<u32>::empty(),
                started_at: None,
                last_used_at: None,
                active_requests: 0,
                health: None,
                failure: None,
            }),
    {
        Instance {
            instance_id,
            model_id,
            runtime_id,
            load_config,
            state: InstanceState::Unloaded,
            pid: None,
            port: None,
            device_ids: Vec::new(),
            started_at: None,
            last_used_at: None,
            active_requests: 0,
            health: None,
            failure: None,
        }
    }

    pub fn state(&self) -> (result: InstanceState)
        ensures
            result == self@.state,
    {
        self.state
    }

    /// Whether requests are in flight; such an instance is never evicted.
    pub fn has_active_requests(&self) -> (result: bool)
        ensures
            result == (self@.active_requests > 0),
    {
        self.active_requests > 0
    }

    pub fn instance_id(&self) -> (result: &str)
        ensures
            result@ == self@.instance_id,
    {
        self.instance_id.as_str()
    }

    /// The instance in the state `to`, where the state machine allows that move.
    pub fn with_state(self, to: InstanceState) -> (result: Result<Self, DomainError>)
        ensures
            match result {
                Ok(moved) => {
                    &&& self@.state.allows(to)
                    &&& moved@ == (InstanceView { state: to, ..self@ })
                },
                Err(error) => {
                    &&& !self@.state.allows(to)
                    &&& invalid_instance_move(error, self@.state, to)
                },
            },
    {
        match transition_instance(self.state, to) {
            Ok(state) => {
                let mut moved = self;
                moved.state = state;
                Ok(moved)
            },
            Err(error) => Err(error),
        }
    }
}

} // verus!
