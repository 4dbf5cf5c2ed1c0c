//! The errors of the service.

use vstd::prelude::*;

use crate::api::auth::AuthError;
use crate::api::gateway::GatewayConfigError;
use crate::launcher::error::AppError;
use crate::text::{joined, push_text, texts};

verus! {

/// Everything that went wrong during a shutdown.
#[derive(Debug, PartialEq, Eq)]
pub struct ShutdownFailure {
    pub errors: Vec<String>,
}

/// Texts with a separator between them.
pub open spec fn listed(parts: Seq<Seq<char>>) -> Seq<char>
    decreases parts.len(),
{
    if parts.len() == 0 {
        Seq::empty()
    } else if parts.len() == 1 {
        parts[0]
    } else {
        listed(parts.drop_last()) + "; "@ + parts.last()
    }
}

impl ShutdownFailure {
    pub open spec fn message_text(self) -> Seq<char> {
        listed(texts(self.errors@))
    }

    pub fn to_string(&self) -> (result: String)
        ensures
            result@ == self.message_text(),
    {
        let mut text = String::new();
        let ghost all = texts(self.errors@);
        assert(all.take(0) =~= Seq::empty());
        assert(text@ =~= listed(all.take(0)));
        for index in 0..self.errors.len()
            invariant
                all == texts(self.errors@),
                text@ == listed(all.take(index as int)),
        {
            proof {
                let taken = all.take(index + 1);
                assert(taken.drop_last() =~= all.take(index as int));
                assert(taken.last() == self.errors@[index as int]@);
            }
            let ghost before = text@;
            if index > 0 {
                push_text(&mut text, "; ");
            }
            push_text(&mut text, self.errors[index].as_str());
            if index == 0 {
                assert(text@ =~= all.take(1)[0]);
            }
        }
        assert(all.take(all.len() as int) =~= all);
        text
    }
}

impl AuthError {
    pub open spec fn message_text(self) -> Seq<char> {
        match self {
            AuthError::LimitExceeded => "maximum number of parameters reached"@,
            AuthError::Unreadable(reason) => reason@,
            AuthError::Malformed => "password hash string missing field"@,
            AuthError::Algorithm => "unsupported algorithm"@,
            AuthError::Version => "invalid algorithm version"@,
            AuthError::MissingParameter => "invalid parameter name"@,
            AuthError::Unavailable => "cryptographic error"@,
        }
    }

    pub fn to_string(&self) -> (result: String)
        ensures
            result@ == self.message_text(),
    {
        match self {
            AuthError::LimitExceeded => "maximum number of parameters reached".to_owned(),
            AuthError::Unreadable(reason) => reason.clone(),
            AuthError::Malformed => "password hash string missing field".to_owned(),
            AuthError::Algorithm => "unsupported algorithm".to_owned(),
            AuthError::Version => "invalid algorithm version".to_owned(),
            AuthError::MissingParameter => "invalid parameter name".to_owned(),
            AuthError::Unavailable => "cryptographic error".to_owned(),
        }
    }
}

/// Why the service could not do something.
#[derive(Debug)]
pub enum ServiceError {
    Core(AppError),
    Io(String),
    Gateway(GatewayConfigError),
    Watcher(String),
    ShuttingDown,
    Shutdown(ShutdownFailure),
    Authentication(String),
    InvalidServerSettings(String),
}

impl ServiceError {
    pub open spec fn message_text(self) -> Seq<char> {
        match self {
            ServiceError::Core(error) => error.message_text(),
            ServiceError::Io(reason) => reason@,
            ServiceError::Gateway(_) =>
                "non-loopback API binding without authentication requires explicit allow_insecure_lan"@,
            ServiceError::Watcher(reason) => "catalog watcher: "@ + reason@,
            ServiceError::ShuttingDown => "service is shutting down"@,
            ServiceError::Shutdown(failure) => "service shutdown: "@ + failure.message_text(),
            ServiceError::Authentication(reason) => "authentication token: "@ + reason@,
            ServiceError::InvalidServerSettings(reason) => "invalid server settings: "@ + reason@,
        }
    }

    pub fn to_string(&self) -> (result: String)
        ensures
            result@ == self.message_text(),
    {
        match self {
            ServiceError::Core(error) => error.to_string(),
            ServiceError::Io(reason) => reason.clone(),
            ServiceError::Gateway(error) => error.to_string(),
            ServiceError::Watcher(reason) => joined("catalog watcher: ", reason.as_str()),
            ServiceError::ShuttingDown => "service is shutting down".to_owned(),
            ServiceError::Shutdown(failure) => joined("service shutdown: ", failure.to_string().as_str()),
            ServiceError::Authentication(reason) => joined("authentication token: ", reason.as_str()),
            ServiceError::InvalidServerSettings(reason) => joined("invalid server settings: ", reason.as_str()),
        }
    }
}

} // verus!
