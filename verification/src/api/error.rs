//! The errors that the interface answers with.

use vstd::prelude::*;

use crate::launcher::error::AppError;

verus! {

/// An error as a client gets it.
#[derive(Clone, Copy, Debug)]
pub struct ApiError {
    pub status: u16,
    pub code: &'static str,
    pub message: &'static str,
    /// The client is asked to try again a second later.
    pub retry_after: bool,
}

impl ApiError {
    pub open spec fn is(self, status: u16, code: Seq<char>, message: Seq<char>, retry_after: bool) -> bool {
        self.status == status && self.code@ == code && self.message@ == message && self.retry_after == retry_after
    }

    pub fn new(status: u16, code: &'static str, message: &'static str) -> (result: Self)
        ensures
            result.is(status, code@, message@, false),
    {
        ApiError { status, code, message, retry_after: false }
    }

    pub fn bad_request(code: &'static str, message: &'static str) -> (result: Self)
        ensures
            result.is(400, code@, message@, false),
    {
        ApiError::new(400, code, message)
    }

    pub fn payload(code: &'static str, message: &'static str) -> (result: Self)
        ensures
            result.is(413, code@, message@, false),
    {
        ApiError::new(413, code, message)
    }

    pub fn headers(code: &'static str, message: &'static str) -> (result: Self)
        ensures
            result.is(431, code@, message@, false),
    {
        ApiError::new(431, code, message)
    }

    pub fn not_found(code: &'static str, message: &'static str) -> (result: Self)
        ensures
            result.is(404, code@, message@, false),
    {
        ApiError::new(404, code, message)
    }

    pub fn unavailable(code: &'static str, message: &'static str) -> (result: Self)
        ensures
            result.is(503, code@, message@, true),
    {
        ApiError { status: 503, code, message, retry_after: true }
    }

    pub fn unauthorized() -> (result: Self)
        ensures
            result.is(401, "unauthorized"@, "authentication failed"@, false),
    {
        ApiError::new(401, "unauthorized", "authentication failed")
    }

    /// What a client is told of an error of the launcher.
    pub fn from_core(error: &AppError) -> (result: Self)
        ensures
            match *error {
                AppError::ModelNotFound => result.is(404, "model_not_found"@, "model was not found"@, false),
                AppError::ModelBusy => result.is(409, "model_busy"@, "another model is busy"@, false),
                AppError::ModelStarting => result.is(503, "model_starting"@, "model is starting"@, true),
                AppError::InvalidSetting(_) | AppError::InvalidModelKey => result.is(
                    400,
                    error.code_text(),
                    "invalid model configuration"@,
                    false,
                ),
                _ => result.is(503, error.code_text(), "model engine is unavailable"@, true),
            },
    {
        match error {
            AppError::ModelNotFound => ApiError::not_found("model_not_found", "model was not found"),
            AppError::ModelBusy => ApiError::new(409, "model_busy", "another model is busy"),
            AppError::ModelStarting => ApiError::unavailable("model_starting", "model is starting"),
            AppError::InvalidSetting(_) | AppError::InvalidModelKey => ApiError::bad_request(
                error.code(),
                "invalid model configuration",
            ),
            _ => ApiError::unavailable(error.code(), "model engine is unavailable"),
        }
    }
}

} // verus!
