//! The failure taxonomy the core surfaces to the UI layer: every command
//! either fully succeeds or fails with one of these, carrying a
//! human-readable message.
use vstd::prelude::*;
use vstd::string::*;
use crate::digits::{dec_str, u64_to_string};

verus! {

/// A typed failure of a core operation.
#[derive(Debug, Clone, PartialEq, Eq)]
pub enum CoreError {
    /// Filesystem read/write/create-directory failure, message as reported.
    Io(String),
    /// Malformed JSON in the config file, a mind-map file, or an upstream reply.
    Parse(String),
    /// A config invariant would be violated (no providers left; no path given).
    Validation(String),
    /// A referenced provider id does not exist.
    NotFound(String),
    /// Non-success HTTP status from the provider API, with the raw body text.
    Upstream { status: u16, body: String },
    /// Upstream returned success but the expected text field was missing.
    EmptyResponse,
}

/// The message text for an error, as the UI displays it.
pub open spec fn spec_message(e: CoreError) -> Seq<char> {
    match e {
        CoreError::Io(m) => m@,
        CoreError::Parse(m) => m@,
        CoreError::Validation(m) => m@,
        CoreError::NotFound(m) => m@,
        CoreError::Upstream { status, body } => "API error ("@ + dec_str(status as nat) + "): "@
            + body@,
        CoreError::EmptyResponse => "Empty response"@,
    }
}

impl CoreError {
    /// Renders the error as the human-readable message the UI shows; an
    /// upstream failure names the HTTP status and carries the raw body.
    pub fn message(&self) -> (r: String)
        ensures
            r@ == spec_message(*self),
    {
        match self {
            CoreError::Io(m) => m.clone(),
            CoreError::Parse(m) => m.clone(),
            CoreError::Validation(m) => m.clone(),
            CoreError::NotFound(m) => m.clone(),
            CoreError::Upstream { status, body } => {
                let mut r = String::from_str("API error (");
                r.append(u64_to_string(*status as u64).as_str());
                r.append("): ");
                r.append(body.as_str());
                r
            },
            CoreError::EmptyResponse => String::from_str("Empty response"),
        }
    }
}

} // verus!
