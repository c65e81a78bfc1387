//! Protocol error mapping: four error kinds, each with its HTTP status and
//! a JSON body of the shape `{"error": "<message>"}`. An internal fault is
//! never echoed to the caller; its detail is replaced by a generic message.

use vstd::prelude::*;

#[allow(unused_imports)]
use vstd::string::StringExecFns;

use crate::jsontext::{append_json_str, json_str};

verus! {

/// A protocol failure, carrying the message shown to the caller (except
/// for `Internal`, whose detail stays server-side).
#[derive(Debug)]
pub enum AppError {
    /// Realm or resource absence.
    NotFound(String),
    /// Malformed or policy-violating client input.
    BadRequest(String),
    /// Missing or invalid bearer credential.
    Unauthorized(String),
    /// Unexpected fault; detail is logged server-side, never sent.
    Internal(String),
}

/// The HTTP status of each error kind.
pub open spec fn status_of(e: AppError) -> int {
    match e {
        AppError::NotFound(_) => 404,
        AppError::BadRequest(_) => 400,
        AppError::Unauthorized(_) => 401,
        AppError::Internal(_) => 500,
    }
}

/// The message a caller sees: the carried message, except that an internal
/// fault is replaced by a generic one.
pub open spec fn message_of(e: AppError) -> Seq<char> {
    match e {
        AppError::NotFound(m) => m@,
        AppError::BadRequest(m) => m@,
        AppError::Unauthorized(m) => m@,
        AppError::Internal(_) => "internal server error"@,
    }
}

/// The JSON body sent for an error.
pub open spec fn error_body_of(e: AppError) -> Seq<char> {
    "{\"error\":"@ + json_str(message_of(e)) + "}"@
}

/// Is this a bad-request error with exactly this message?
pub open spec fn app_bad_request(e: AppError, msg: Seq<char>) -> bool {
    e matches AppError::BadRequest(m) && m@ == msg
}

/// Is this a not-found error with exactly this message?
pub open spec fn app_not_found(e: AppError, msg: Seq<char>) -> bool {
    e matches AppError::NotFound(m) && m@ == msg
}

/// Is this an unauthorized error with exactly this message?
pub open spec fn app_unauthorized(e: AppError, msg: Seq<char>) -> bool {
    e matches AppError::Unauthorized(m) && m@ == msg
}

impl AppError {
    /// The HTTP status code of this error.
    pub fn status_code(&self) -> (r: u16)
        ensures
            r == status_of(*self),
    {
        match self {
            AppError::NotFound(_) => 404,
            AppError::BadRequest(_) => 400,
            AppError::Unauthorized(_) => 401,
            AppError::Internal(_) => 500,
        }
    }

    /// The message shown to the caller; an internal fault's detail is
    /// replaced by a generic message.
    pub fn response_message(&self) -> (r: String)
        ensures
            r@ == message_of(*self),
    {
        match self {
            AppError::NotFound(m) => m.clone(),
            AppError::BadRequest(m) => m.clone(),
            AppError::Unauthorized(m) => m.clone(),
            AppError::Internal(_) => String::from_str("internal server error"),
        }
    }

    /// The JSON error body, `{"error": "<message>"}`.
    pub fn body_json(&self) -> (r: String)
        ensures
            r@ == error_body_of(*self),
    {
        let msg = self.response_message();
        let mut out = String::from_str("{\"error\":");
        append_json_str(&mut out, msg.as_str());
        out.append("}");
        proof {
            assert(out@ =~= error_body_of(*self));
        }
        out
    }
}

} // verus!
