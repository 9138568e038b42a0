//! The closed failure taxonomy and the outcome mapper.
//!
//! Every failure in the authentication pipeline is one member of [`Error`].
//! A request that leaves the pipeline with a failure is wrapped in a
//! [`Rejection`], together with the two transport-level failures and a
//! catch-all for anything unrecognized, and [`handle_rejection`] maps each
//! rejection to a stable status code and a user-facing message.

use vstd::prelude::*;

verus! {

/// The closed set of failures the authentication pipeline can produce.
#[derive(Clone, Copy, Debug, PartialEq, Eq, Structural)]
pub enum Error {
    /// Login was attempted with an email/password pair that matches no
    /// directory record.
    WrongCredentialsError,
    /// A presented token was malformed, carried a bad signature, or had
    /// expired; the three are deliberately indistinguishable.
    JWTTokenError,
    /// Token issuance failed on an internal encoding error.
    JWTTokenCreationError,
    /// The request carried no `Authorization` header.
    NoAuthHeaderError,
    /// The `Authorization` header did not use the `Bearer` scheme.
    InvalidAuthHeaderError,
    /// The token was valid but its role does not satisfy the required role.
    NoPermissionError,
}

/// Everything the outcome mapper can be asked to translate: a pipeline
/// failure, the two transport-level failures, or an unrecognized fault.
#[derive(Clone, Copy, Debug, PartialEq, Eq, Structural)]
pub enum Rejection {
    /// No route matched the request.
    NotFound,
    /// A typed failure from login or from the authorization filter.
    App(Error),
    /// A route matched but not with this method.
    MethodNotAllowed,
    /// An unrecognized internal fault; its cause is never surfaced.
    Unknown,
}

/// The uniform response payload: the status line in string form and a
/// user-facing message.
pub struct ErrorResponse {
    pub status: String,
    pub message: String,
}

/// The status code owed to each rejection.
pub open spec fn status_code_spec(r: Rejection) -> u16 {
    match r {
        Rejection::NotFound => 404,
        Rejection::App(e) => match e {
            Error::WrongCredentialsError => 403,
            Error::NoPermissionError => 401,
            Error::JWTTokenError => 401,
            Error::JWTTokenCreationError => 500,
            Error::NoAuthHeaderError => 400,
            Error::InvalidAuthHeaderError => 400,
        },
        Rejection::MethodNotAllowed => 405,
        Rejection::Unknown => 500,
    }
}

/// The status line in string form for each rejection.
pub open spec fn status_text_spec(r: Rejection) -> Seq<char> {
    match status_code_spec(r) {
        400 => "400 Bad Request"@,
        401 => "401 Unauthorized"@,
        403 => "403 Forbidden"@,
        404 => "404 Not Found"@,
        405 => "405 Method Not Allowed"@,
        _ => "500 Internal Server Error"@,
    }
}

/// The message owed to each rejection. Server-fault rejections get a
/// generic opaque message; the others expose their fixed error text.
pub open spec fn message_spec(r: Rejection) -> Seq<char> {
    match r {
        Rejection::NotFound => "Not found"@,
        Rejection::App(e) => match e {
            Error::WrongCredentialsError => "Wrong credentials"@,
            Error::NoPermissionError => "No permission error"@,
            Error::JWTTokenError => "JWT token is not valid"@,
            Error::JWTTokenCreationError => "Internal Server Error"@,
            Error::NoAuthHeaderError => "No auth header has found"@,
            Error::InvalidAuthHeaderError => "Invalid auth error"@,
        },
        Rejection::MethodNotAllowed => "Method is not allowed"@,
        Rejection::Unknown => "Internal server error"@,
    }
}

/// Translate a rejection into its status code and its uniform payload.
pub fn handle_rejection(err: &Rejection) -> (r: (u16, ErrorResponse))
    ensures
        r.0 == status_code_spec(*err),
        r.1.status@ == status_text_spec(*err),
        r.1.message@ == message_spec(*err),
{
    let code: u16 = match err {
        Rejection::NotFound => 404,
        Rejection::App(e) => match e {
            Error::WrongCredentialsError => 403,
            Error::NoPermissionError => 401,
            Error::JWTTokenError => 401,
            Error::JWTTokenCreationError => 500,
            Error::NoAuthHeaderError => 400,
            Error::InvalidAuthHeaderError => 400,
        },
        Rejection::MethodNotAllowed => 405,
        Rejection::Unknown => 500,
    };
    let status: String = match code {
        400 => String::from_str("400 Bad Request"),
        401 => String::from_str("401 Unauthorized"),
        403 => String::from_str("403 Forbidden"),
        404 => String::from_str("404 Not Found"),
        405 => String::from_str("405 Method Not Allowed"),
        _ => String::from_str("500 Internal Server Error"),
    };
    let message: String = match err {
        Rejection::NotFound => String::from_str("Not found"),
        Rejection::App(e) => match e {
            Error::WrongCredentialsError => String::from_str("Wrong credentials"),
            Error::NoPermissionError => String::from_str("No permission error"),
            Error::JWTTokenError => String::from_str("JWT token is not valid"),
            Error::JWTTokenCreationError => String::from_str("Internal Server Error"),
            Error::NoAuthHeaderError => String::from_str("No auth header has found"),
            Error::InvalidAuthHeaderError => String::from_str("Invalid auth error"),
        },
        Rejection::MethodNotAllowed => String::from_str("Method is not allowed"),
        Rejection::Unknown => String::from_str("Internal server error"),
    };
    (code, ErrorResponse { status, message })
}

} // verus!
