//! Errors that the board's handlers answer with.
use vstd::prelude::*;

verus! {

/// An error answered to a client.
#[derive(Clone, Debug)]
pub enum ApiError {
    BadRequest(String),
    Unauthorized,
    Forbidden,
    NotFound(String),
    Conflict(String),
    InternalError(String),
}

/// The HTTP status of an error.
pub open spec fn status_of(e: ApiError) -> u16 {
    match e {
        ApiError::BadRequest(_) => 400,
        ApiError::Unauthorized => 401,
        ApiError::Forbidden => 403,
        ApiError::NotFound(_) => 404,
        ApiError::Conflict(_) => 409,
        ApiError::InternalError(_) => 500,
    }
}

/// The `error` field of an error's JSON body.
pub open spec fn error_text_of(e: ApiError) -> Seq<char> {
    match e {
        ApiError::BadRequest(m) => m@,
        ApiError::Unauthorized => "Unauthorized"@,
        ApiError::Forbidden => "Forbidden"@,
        ApiError::NotFound(m) => m@,
        ApiError::Conflict(m) => m@,
        ApiError::InternalError(m) => m@,
    }
}

/// The one-line description of an error.
pub open spec fn message_of(e: ApiError) -> Seq<char> {
    match e {
        ApiError::BadRequest(m) => "Bad Request: "@ + m@,
        ApiError::Unauthorized => "Unauthorized"@,
        ApiError::Forbidden => "Forbidden"@,
        ApiError::NotFound(m) => "Not Found: "@ + m@,
        ApiError::Conflict(m) => "Conflict: "@ + m@,
        ApiError::InternalError(m) => "Internal Error: "@ + m@,
    }
}

impl ApiError {
    /// The HTTP status to answer with.
    pub fn status_code(&self) -> (r: u16)
        ensures
            r == status_of(*self),
    {
        match self {
            ApiError::BadRequest(_) => 400,
            ApiError::Unauthorized => 401,
            ApiError::Forbidden => 403,
            ApiError::NotFound(_) => 404,
            ApiError::Conflict(_) => 409,
            ApiError::InternalError(_) => 500,
        }
    }

    /// The `error` field of the JSON body to answer with.
    pub fn error_text(&self) -> (r: String)
        ensures
            r@ == error_text_of(*self),
    {
        match self {
            ApiError::BadRequest(m) => m.clone(),
            ApiError::Unauthorized => String::from_str("Unauthorized"),
            ApiError::Forbidden => String::from_str("Forbidden"),
            ApiError::NotFound(m) => m.clone(),
            ApiError::Conflict(m) => m.clone(),
            ApiError::InternalError(m) => m.clone(),
        }
    }

    /// A one-line description: the kind of error, then its detail.
    pub fn message(&self) -> (r: String)
        ensures
            r@ == message_of(*self),
    {
        match self {
            ApiError::BadRequest(m) => String::from_str("Bad Request: ").concat(m.as_str()),
            ApiError::Unauthorized => String::from_str("Unauthorized"),
            ApiError::Forbidden => String::from_str("Forbidden"),
            ApiError::NotFound(m) => String::from_str("Not Found: ").concat(m.as_str()),
            ApiError::Conflict(m) => String::from_str("Conflict: ").concat(m.as_str()),
            ApiError::InternalError(m) => String::from_str("Internal Error: ").concat(m.as_str()),
        }
    }
}

} // verus!
