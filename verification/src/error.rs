//! The error taxonomy of the client: worker-reported failures, transport
//! failures, I/O and JSON wrapping failures, and timeouts.

use vstd::prelude::*;
use vstd::string::StringExecFns;
use crate::json::{dec_string, dec_text, json_get, JsonModel, JsonValue};

verus! {

/// Error type for client operations.  Timeouts carry the configured limit in
/// milliseconds; wrapped I/O and JSON failures carry their message text.
#[derive(Debug)]
pub enum Error {
    Mlld { message: String, code: Option<String> },
    Transport(String),
    Io(String),
    Json(String),
    Timeout(u64),
}

/// Ghost mirror of `Error`.
pub enum ErrorModel {
    Mlld { message: Seq<char>, code: Option<Seq<char>> },
    Transport(Seq<char>),
    Io(Seq<char>),
    Json(Seq<char>),
    Timeout(u64),
}

impl Error {
    pub open spec fn view(&self) -> ErrorModel {
        match self {
            Error::Mlld { message, code } => ErrorModel::Mlld {
                message: message@,
                code: match code {
                    Some(c) => Some(c@),
                    None => None,
                },
            },
            Error::Transport(t) => ErrorModel::Transport(t@),
            Error::Io(t) => ErrorModel::Io(t@),
            Error::Json(t) => ErrorModel::Json(t@),
            Error::Timeout(ms) => ErrorModel::Timeout(*ms),
        }
    }

    /// A human-readable description, one line.
    pub fn message_text(&self) -> (r: String)
        ensures
            r@ == spec_message_text(self@),
    {
        match self {
            Error::Mlld { message, code: _ } => {
                let mut out = String::from_str("mlld error: ");
                out.append(message.as_str());
                out
            },
            Error::Transport(t) => {
                let mut out = String::from_str("transport error: ");
                out.append(t.as_str());
                out
            },
            Error::Io(t) => {
                let mut out = String::from_str("IO error: ");
                out.append(t.as_str());
                out
            },
            Error::Json(t) => {
                let mut out = String::from_str("JSON error: ");
                out.append(t.as_str());
                out
            },
            Error::Timeout(ms) => {
                let mut out = String::from_str("timeout after ");
                let d = dec_string(*ms);
                out.append(d.as_str());
                out.append("ms");
                out
            },
        }
    }
}

/// The one-line description of an error.
pub open spec fn spec_message_text(e: ErrorModel) -> Seq<char> {
    match e {
        ErrorModel::Mlld { message, code } => "mlld error: "@ + message,
        ErrorModel::Transport(t) => "transport error: "@ + t,
        ErrorModel::Io(t) => "IO error: "@ + t,
        ErrorModel::Json(t) => "JSON error: "@ + t,
        ErrorModel::Timeout(ms) => "timeout after "@ + dec_text(ms as nat) + "ms"@,
    }
}

/// The worker error a result's `error` member denotes: its `message` string,
/// or a fixed fallback, with its `code` string if one is present.
pub open spec fn spec_error_from_payload(payload: JsonModel) -> ErrorModel {
    ErrorModel::Mlld {
        message: match json_get(payload, "message"@) {
            Some(JsonModel::Str(s)) => s,
            _ => "mlld request failed"@,
        },
        code: match json_get(payload, "code"@) {
            Some(JsonModel::Str(s)) => Some(s),
            _ => None,
        },
    }
}

/// Translates a result's embedded `error` payload into a structured error.
pub fn error_from_payload(payload: &JsonValue) -> (r: Error)
    ensures
        r@ == spec_error_from_payload(payload@),
{
    let message: String = match payload.get("message") {
        Some(JsonValue::Str(s)) => s.clone(),
        _ => String::from_str("mlld request failed"),
    };
    let code: Option<String> = match payload.get("code") {
        Some(JsonValue::Str(s)) => Some(s.clone()),
        _ => None,
    };
    Error::Mlld { message, code }
}

} // verus!
