//! The application's errors.

use vstd::prelude::*;

use crate::text::{copy_texts, texts};

verus! {

/// What stands behind an error: a diagnostic, and what stands behind that in turn,
/// the root last.
#[derive(Debug)]
pub struct ErrorSource {
    pub message: String,
    pub causes: Vec<String>,
}

impl ErrorSource {
    /// The diagnostic and everything behind it.
    pub open spec fn chain(self) -> Seq<Seq<char>> {
        seq![self.message@] + texts(self.causes@)
    }

    /// A diagnostic with nothing behind it.
    pub fn root(message: String) -> (result: Self)
        ensures
            result.chain() == seq![message@],
    {
        let result = ErrorSource { message, causes: Vec::new() };
        assert(result.chain() =~= seq![message@]);
        result
    }

    /// An error, with what stands behind it, that another error is put in front of.
    pub fn of(error: &AppError) -> (result: Self)
        ensures
            result.message@ == error.message_text(),
            texts(result.causes@) == error.source_chain(),
    {
        ErrorSource { message: error.to_string(), causes: error.sources() }
    }

    /// The same once more.
    pub fn copy(&self) -> (result: Self)
        ensures
            result.message@ == self.message@,
            texts(result.causes@) == texts(self.causes@),
    {
        ErrorSource { message: self.message.clone(), causes: copy_texts(&self.causes) }
    }

    /// The diagnostic and everything behind it, the root last.
    pub fn listed(&self) -> (result: Vec<String>)
        ensures
            texts(result@) == self.chain(),
    {
        let mut all: Vec<String> = Vec::new();
        all.push(self.message.clone());
        let mut causes = copy_texts(&self.causes);
        all.append(&mut causes);
        assert(texts(all@) =~= self.chain());
        all
    }
}

/// Why an operation of the launcher failed. A variant with an owned text or a
/// source keeps the diagnostic that caused it.
#[derive(Debug)]
pub enum AppError {
    InvalidModelKey,
    ModelNotFound,
    ModelBusy,
    ModelStarting,
    ModelLoadFailed(ErrorSource),
    EngineUnavailable,
    InvalidSetting(&'static str),
    InvalidLogLimit(&'static str),
    EngineProcess(String),
    ConfigIo(String),
    ConfigFormat(String),
}

impl AppError {
    /// The stable code of an error.
    pub open spec fn code_text(self) -> Seq<char> {
        match self {
            AppError::InvalidModelKey => "invalid_model_key"@,
            AppError::ModelNotFound => "model_not_found"@,
            AppError::ModelBusy => "model_busy"@,
            AppError::ModelStarting => "model_starting"@,
            AppError::ModelLoadFailed(_) => "model_load_failed"@,
            AppError::EngineUnavailable => "engine_unavailable"@,
            AppError::InvalidSetting(_) => "invalid_setting"@,
            AppError::InvalidLogLimit(_) => "invalid_log_limit"@,
            AppError::EngineProcess(_) => "engine_process"@,
            AppError::ConfigIo(_) => "config_io"@,
            AppError::ConfigFormat(_) => "config_format"@,
        }
    }

    /// What a user is told of an error.
    pub open spec fn message_text(self) -> Seq<char> {
        match self {
            AppError::InvalidModelKey => "model key is invalid"@,
            AppError::ModelNotFound => "model was not found"@,
            AppError::ModelBusy => "another model is busy"@,
            AppError::ModelStarting => "model is starting"@,
            AppError::ModelLoadFailed(_) => "model failed to load"@,
            AppError::EngineUnavailable => "engine is unavailable"@,
            AppError::InvalidSetting(setting) => "invalid setting: "@ + setting@,
            AppError::InvalidLogLimit(limit) => "invalid log limit: "@ + limit@,
            AppError::EngineProcess(_) => "engine process failed"@,
            AppError::ConfigIo(_) => "configuration I/O failed"@,
            AppError::ConfigFormat(_) => "configuration format is invalid"@,
        }
    }

    /// The diagnostic behind an error, where there is one.
    pub open spec fn source_text(self) -> Option<Seq<char>> {
        match self {
            AppError::ModelLoadFailed(source) => Some(source.message@),
            AppError::EngineProcess(source) => Some(source@),
            AppError::ConfigIo(source) => Some(source@),
            AppError::ConfigFormat(source) => Some(source@),
            _ => None,
        }
    }

    /// The diagnostics behind an error, each behind the one before it.
    pub open spec fn source_chain(self) -> Seq<Seq<char>> {
        match self {
            AppError::ModelLoadFailed(source) => source.chain(),
            AppError::EngineProcess(source) => seq![source@],
            AppError::ConfigIo(source) => seq![source@],
            AppError::ConfigFormat(source) => seq![source@],
            _ => Seq::empty(),
        }
    }

    pub fn code(&self) -> (result: &'static str)
        ensures
            result@ == self.code_text(),
    {
        match self {
            AppError::InvalidModelKey => "invalid_model_key",
            AppError::ModelNotFound => "model_not_found",
            AppError::ModelBusy => "model_busy",
            AppError::ModelStarting => "model_starting",
            AppError::ModelLoadFailed(_) => "model_load_failed",
            AppError::EngineUnavailable => "engine_unavailable",
            AppError::InvalidSetting(_) => "invalid_setting",
            AppError::InvalidLogLimit(_) => "invalid_log_limit",
            AppError::EngineProcess(_) => "engine_process",
            AppError::ConfigIo(_) => "config_io",
            AppError::ConfigFormat(_) => "config_format",
        }
    }

    pub fn to_string(&self) -> (result: String)
        ensures
            result@ == self.message_text(),
    {
        match self {
            AppError::InvalidModelKey => "model key is invalid".to_owned(),
            AppError::ModelNotFound => "model was not found".to_owned(),
            AppError::ModelBusy => "another model is busy".to_owned(),
            AppError::ModelStarting => "model is starting".to_owned(),
            AppError::ModelLoadFailed(_) => "model failed to load".to_owned(),
            AppError::EngineUnavailable => "engine is unavailable".to_owned(),
            AppError::InvalidSetting(setting) => {
                let mut text = "invalid setting: ".to_owned();
                text.append(setting);
                text
            },
            AppError::InvalidLogLimit(limit) => {
                let mut text = "invalid log limit: ".to_owned();
                text.append(limit);
                text
            },
            AppError::EngineProcess(_) => "engine process failed".to_owned(),
            AppError::ConfigIo(_) => "configuration I/O failed".to_owned(),
            AppError::ConfigFormat(_) => "configuration format is invalid".to_owned(),
        }
    }

    pub fn source(&self) -> (result: Option<&String>)
        ensures
            match result {
                Some(source) => self.source_text() == Some(source@),
                None => self.source_text() is None,
            },
    {
        match self {
            AppError::ModelLoadFailed(source) => Some(&source.message),
            AppError::EngineProcess(source) => Some(source),
            AppError::ConfigIo(source) => Some(source),
            AppError::ConfigFormat(source) => Some(source),
            _ => None,
        }
    }

    /// Everything behind the error, the root last.
    pub fn sources(&self) -> (result: Vec<String>)
        ensures
            texts(result@) == self.source_chain(),
    {
        let mut all: Vec<String> = Vec::new();
        match self {
            AppError::ModelLoadFailed(source) => {
                all = source.listed();
            },
            _ => {
                if let Some(source) = self.source() {
                    all.push(source.clone());
                }
            },
        }
        assert(texts(all@) =~= self.source_chain());
        all
    }
}

/// What stands directly behind an error is the first of all that stands behind it.
pub proof fn law_source_heads_the_chain(error: AppError)
    ensures
        error.source_text() == (if error.source_chain().len() > 0 {
            Some(error.source_chain()[0])
        } else {
            None
        }),
{
}

} // verus!
