//! Application errors: their kinds, stable codes, texts and HTTP statuses.

use vstd::prelude::*;
use crate::ip::{push_signed_decimal, signed_decimal};
use crate::text::{chars_of, push_chars, push_str, str_eq, string_of};

verus! {

broadcast use vstd::string::group_string_axioms;

/// Application errors, each with its message.
#[derive(Debug)]
pub enum AppError {
    Validation(String),
    NotFound(String),
    Config(String),
    Database(String),
    Dns(String),
    Auth(String),
    Io(String),
    Internal(String),
}

/// The stable code of an error kind.
pub open spec fn app_error_code(e: AppError) -> Seq<char> {
    match e {
        AppError::Validation(_) => "BAD_REQUEST"@,
        AppError::NotFound(_) => "NOT_FOUND"@,
        AppError::Auth(_) => "UNAUTHORIZED"@,
        AppError::Config(_) => "CONFIG_ERROR"@,
        AppError::Database(_) => "DATABASE_ERROR"@,
        AppError::Dns(_) => "DNS_ERROR"@,
        AppError::Io(_) => "IO_ERROR"@,
        AppError::Internal(_) => "INTERNAL_ERROR"@,
    }
}

/// The text of an error: the message, after a prefix naming the kind for
/// every kind but validation and not-found errors.
pub open spec fn app_error_text(e: AppError) -> Seq<char> {
    match e {
        AppError::Validation(m) => m@,
        AppError::NotFound(m) => m@,
        AppError::Config(m) => "Configuration error: "@ + m@,
        AppError::Database(m) => "Database error: "@ + m@,
        AppError::Dns(m) => "DNS error: "@ + m@,
        AppError::Auth(m) => "Authentication error: "@ + m@,
        AppError::Io(m) => "IO error: "@ + m@,
        AppError::Internal(m) => "Internal error: "@ + m@,
    }
}

fn prefixed(prefix: &str, m: &String) -> (s: String)
    ensures
        s@ == prefix@ + m@,
{
    let mut v: Vec<char> = Vec::new();
    push_str(&mut v, prefix);
    push_chars(&mut v, &chars_of(m.as_str()));
    string_of(&v)
}

impl AppError {
    /// The stable code used by the HTTP layer and API clients.
    pub fn code(&self) -> (s: &'static str)
        ensures
            s@ == app_error_code(*self),
    {
        proof {
            reveal_strlit("BAD_REQUEST");
            reveal_strlit("NOT_FOUND");
            reveal_strlit("UNAUTHORIZED");
            reveal_strlit("CONFIG_ERROR");
            reveal_strlit("DATABASE_ERROR");
            reveal_strlit("DNS_ERROR");
            reveal_strlit("IO_ERROR");
            reveal_strlit("INTERNAL_ERROR");
        }
        match self {
            AppError::Validation(_) => "BAD_REQUEST",
            AppError::NotFound(_) => "NOT_FOUND",
            AppError::Auth(_) => "UNAUTHORIZED",
            AppError::Config(_) => "CONFIG_ERROR",
            AppError::Database(_) => "DATABASE_ERROR",
            AppError::Dns(_) => "DNS_ERROR",
            AppError::Io(_) => "IO_ERROR",
            AppError::Internal(_) => "INTERNAL_ERROR",
        }
    }

    /// The error's text.
    pub fn to_string(&self) -> (s: String)
        ensures
            s@ == app_error_text(*self),
    {
        match self {
            AppError::Validation(m) => m.clone(),
            AppError::NotFound(m) => m.clone(),
            AppError::Config(m) => prefixed("Configuration error: ", m),
            AppError::Database(m) => prefixed("Database error: ", m),
            AppError::Dns(m) => prefixed("DNS error: ", m),
            AppError::Auth(m) => prefixed("Authentication error: ", m),
            AppError::Io(m) => prefixed("IO error: ", m),
            AppError::Internal(m) => prefixed("Internal error: ", m),
        }
    }
}

/// The HTTP status of an error code.
pub open spec fn status_of_code(code: Seq<char>) -> u16 {
    if code == "UNAUTHORIZED"@ {
        401
    } else if code == "FORBIDDEN"@ {
        403
    } else if code == "BAD_REQUEST"@ {
        400
    } else if code == "NOT_FOUND"@ {
        404
    } else {
        500
    }
}

/// The HTTP status an API error with this code is sent with.
pub fn http_status_for_code(code: &str) -> (s: u16)
    ensures
        s == status_of_code(code@),
{
    if str_eq(code, "UNAUTHORIZED") {
        401
    } else if str_eq(code, "FORBIDDEN") {
        403
    } else if str_eq(code, "BAD_REQUEST") {
        400
    } else if str_eq(code, "NOT_FOUND") {
        404
    } else {
        500
    }
}

fn id_message(prefix: &str, id: i64, suffix: &str) -> (m: String)
    ensures
        m@ == prefix@ + signed_decimal(id as int) + suffix@,
{
    let mut v: Vec<char> = Vec::new();
    push_str(&mut v, prefix);
    push_signed_decimal(&mut v, id);
    push_str(&mut v, suffix);
    string_of(&v)
}

/// The error for an upstream server ID that names none.
pub fn upstream_not_found(id: i64) -> (e: AppError)
    ensures
        e matches AppError::NotFound(m) && m@ == "Upstream server with id "@ + signed_decimal(id as int)
            + " not found"@,
{
    AppError::NotFound(id_message("Upstream server with id ", id, " not found"))
}

/// The error for a DNS record ID that names none.
pub fn record_not_found(id: i64) -> (e: AppError)
    ensures
        e matches AppError::NotFound(m) && m@ == "DNS record with id "@ + signed_decimal(id as int)
            + " not found"@,
{
    AppError::NotFound(id_message("DNS record with id ", id, " not found"))
}

} // verus!
