//! Errors that a request can end in, with the HTTP status and body fields
//! that describe them.

use vstd::prelude::*;

verus! {

/// An error answered to the client instead of an extraction response.
#[derive(Debug)]
pub enum UserError {
    /// Something failed on the server side (temporary files, multipart stream).
    InternalError(String),
    /// The request itself is not acceptable.
    BadRequest(String),
    /// A bearer token is configured and the request did not present it.
    Unauthorized(String),
}

impl UserError {
    /// The detail text carried by the error.
    pub open spec fn detail(&self) -> Seq<char> {
        match self {
            UserError::InternalError(d) => d@,
            UserError::BadRequest(d) => d@,
            UserError::Unauthorized(d) => d@,
        }
    }

    /// The HTTP status that answers the error.
    pub open spec fn spec_status(&self) -> u16 {
        match self {
            UserError::InternalError(_) => 500,
            UserError::BadRequest(_) => 400,
            UserError::Unauthorized(_) => 401,
        }
    }

    /// The human-readable prefix of the error message.
    pub open spec fn spec_prefix(&self) -> Seq<char> {
        match self {
            UserError::InternalError(_) => "Internal server error: "@,
            UserError::BadRequest(_) => "Bad request: "@,
            UserError::Unauthorized(_) => "Unauthorized: "@,
        }
    }

    /// The machine-readable kind reported in the `error_type` field.
    pub open spec fn spec_error_type(&self) -> Seq<char> {
        match self {
            UserError::InternalError(_) => "internal_error"@,
            UserError::BadRequest(_) => "bad_request"@,
            UserError::Unauthorized(_) => "unauthorized"@,
        }
    }

    /// The HTTP status code of the error: 500, 400 or 401.
    pub fn status_code(&self) -> (code: u16)
        ensures
            code == self.spec_status(),
    {
        match self {
            UserError::InternalError(_) => 500,
            UserError::BadRequest(_) => 400,
            UserError::Unauthorized(_) => 401,
        }
    }

    /// The value of the `error_type` field of the error body.
    pub fn error_type(&self) -> (kind: String)
        ensures
            kind@ == self.spec_error_type(),
    {
        match self {
            UserError::InternalError(_) => String::from_str("internal_error"),
            UserError::BadRequest(_) => String::from_str("bad_request"),
            UserError::Unauthorized(_) => String::from_str("unauthorized"),
        }
    }

    /// The error message: the kind's prefix followed by the detail, such as
    /// `Bad request: No URLs provided`.
    pub fn to_string(&self) -> (msg: String)
        ensures
            msg@ == self.spec_prefix() + self.detail(),
    {
        match self {
            UserError::InternalError(d) => {
                String::from_str("Internal server error: ").concat(d.as_str())
            },
            UserError::BadRequest(d) => String::from_str("Bad request: ").concat(d.as_str()),
            UserError::Unauthorized(d) => String::from_str("Unauthorized: ").concat(d.as_str()),
        }
    }

    /// The internal error that reports a failed file-system operation,
    /// given the operation error's own text.
    pub fn io_error(detail: &str) -> (err: UserError)
        ensures
            err matches UserError::InternalError(d) && d@ == "IO error: "@ + detail@,
    {
        UserError::InternalError(String::from_str("IO error: ").concat(detail))
    }
}

} // verus!
