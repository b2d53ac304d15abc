//! Error values returned by procedures.

use crate::text::{push_str, IntoText};
use vstd::prelude::*;

verus! {

/// Standard error with a code, a message and an optional HTTP status hint.
#[derive(Debug, Clone)]
pub struct OrpcError {
    /// Error code (e.g., "NOT_FOUND", "BAD_REQUEST")
    pub code: String,
    /// Human-readable error message
    pub message: String,
    /// Optional HTTP status code hint for framework integrations
    pub status: Option<u16>,
}

impl OrpcError {
    /// Creates a NOT_FOUND error (404).
    pub fn not_found<M: IntoText>(message: M) -> (e: Self)
        ensures
            e.code@ == "NOT_FOUND"@,
            e.message@ == message.text_view(),
            e.status == Some(404u16),
    {
        OrpcError { code: "NOT_FOUND".into_text(), message: message.into_text(), status: Some(404) }
    }

    /// Creates a BAD_REQUEST error (400).
    pub fn bad_request<M: IntoText>(message: M) -> (e: Self)
        ensures
            e.code@ == "BAD_REQUEST"@,
            e.message@ == message.text_view(),
            e.status == Some(400u16),
    {
        OrpcError {
            code: "BAD_REQUEST".into_text(),
            message: message.into_text(),
            status: Some(400),
        }
    }

    /// Creates an UNAUTHORIZED error (401).
    pub fn unauthorized<M: IntoText>(message: M) -> (e: Self)
        ensures
            e.code@ == "UNAUTHORIZED"@,
            e.message@ == message.text_view(),
            e.status == Some(401u16),
    {
        OrpcError {
            code: "UNAUTHORIZED".into_text(),
            message: message.into_text(),
            status: Some(401),
        }
    }

    /// Creates an INTERNAL_ERROR (500).
    pub fn internal<M: IntoText>(message: M) -> (e: Self)
        ensures
            e.code@ == "INTERNAL_ERROR"@,
            e.message@ == message.text_view(),
            e.status == Some(500u16),
    {
        OrpcError {
            code: "INTERNAL_ERROR".into_text(),
            message: message.into_text(),
            status: Some(500),
        }
    }

    /// Creates a custom error with a user-defined code and no status hint.
    pub fn custom<C: IntoText, M: IntoText>(code: C, message: M) -> (e: Self)
        ensures
            e.code@ == code.text_view(),
            e.message@ == message.text_view(),
            e.status is None,
    {
        OrpcError { code: code.into_text(), message: message.into_text(), status: None }
    }

    /// The display form `"{code}: {message}"`.
    pub fn to_string(&self) -> (r: String)
        ensures
            r@ == self.code@ + ": "@ + self.message@,
    {
        let mut r = String::new();
        push_str(&mut r, self.code.as_str());
        push_str(&mut r, ": ");
        push_str(&mut r, self.message.as_str());
        r
    }

    /// The HTTP status a transport answers this error with: the status hint
    /// when it is a valid status code (100..=999), else 500.
    pub fn http_status(&self) -> (s: u16)
        ensures
            s == match self.status {
                Some(h) => if 100 <= h <= 999 { h } else { 500u16 },
                None => 500u16,
            },
    {
        match self.status {
            Some(h) => if 100 <= h && h <= 999 { h } else { 500 },
            None => 500,
        }
    }
}

/// Conversion of custom error types into `OrpcError`.
pub trait IntoOrpcError: Sized {
    fn into_orpc_error(self) -> OrpcError;
}

impl IntoOrpcError for OrpcError {
    fn into_orpc_error(self) -> (e: OrpcError)
        ensures
            e == self,
    {
        self
    }
}

} // verus!
