//! Route metadata: the HTTP method and absolute path carried by a procedure.

use crate::text::{chars_of, eq_str, extend_str, string_of, IntoText};
use vstd::prelude::*;

verus! {

/// HTTP method for a procedure's route.
#[derive(Debug, Clone, Copy, PartialEq, Eq, Hash, Structural)]
pub enum HttpMethod {
    Get,
    Post,
    Put,
    Patch,
    Delete,
}

/// The canonical uppercase name of a method.
pub open spec fn method_name(m: HttpMethod) -> Seq<char> {
    match m {
        HttpMethod::Get => "GET"@,
        HttpMethod::Post => "POST"@,
        HttpMethod::Put => "PUT"@,
        HttpMethod::Patch => "PATCH"@,
        HttpMethod::Delete => "DELETE"@,
    }
}

impl HttpMethod {
    /// Returns the canonical uppercase string for this method.
    pub fn as_str(&self) -> (r: &'static str)
        ensures
            r@ == method_name(*self),
    {
        match self {
            HttpMethod::Get => "GET",
            HttpMethod::Post => "POST",
            HttpMethod::Put => "PUT",
            HttpMethod::Patch => "PATCH",
            HttpMethod::Delete => "DELETE",
        }
    }

    /// The method's name as an owned string (its display form).
    pub fn to_string(&self) -> (r: String)
        ensures
            r@ == method_name(*self),
    {
        let v = chars_of(self.as_str());
        string_of(v.as_slice())
    }
}

/// Route metadata attached to every procedure.
#[derive(Debug, Clone, PartialEq, Eq)]
pub struct RouteMetadata {
    /// HTTP method to bind this procedure to
    pub method: HttpMethod,
    /// Absolute path (e.g. `/ping`, `/planet/{id}`)
    pub path: String,
}

impl RouteMetadata {
    /// Creates new route metadata.
    pub fn new<P: IntoText>(method: HttpMethod, path: P) -> (r: Self)
        ensures
            r.method == method,
            r.path@ == path.text_view(),
    {
        RouteMetadata { method, path: path.into_text() }
    }
}

/// The method whose canonical name is `s`, if any (names are case-sensitive).
pub open spec fn method_named(s: Seq<char>) -> Option<HttpMethod> {
    if s == "GET"@ {
        Some(HttpMethod::Get)
    } else if s == "POST"@ {
        Some(HttpMethod::Post)
    } else if s == "PUT"@ {
        Some(HttpMethod::Put)
    } else if s == "PATCH"@ {
        Some(HttpMethod::Patch)
    } else if s == "DELETE"@ {
        Some(HttpMethod::Delete)
    } else {
        None
    }
}

/// The message for a string that names no method.
pub open spec fn invalid_method_message(s: Seq<char>) -> Seq<char> {
    "Invalid HTTP method '"@ + s + "'. Expected one of: GET, POST, PUT, PATCH, DELETE"@
}

/// Reads an HTTP method from its canonical uppercase name, as the
/// `openapi!` macro does for its `method` field.
pub fn parse_http_method(method_str: &str) -> (r: Result<HttpMethod, String>)
    ensures
        match method_named(method_str@) {
            Some(m) => r == Ok::<HttpMethod, String>(m),
            None => r is Err && r->Err_0@ == invalid_method_message(method_str@),
        },
{
    let v = chars_of(method_str);
    let s = v.as_slice();
    if eq_str(s, "GET") {
        Ok(HttpMethod::Get)
    } else if eq_str(s, "POST") {
        Ok(HttpMethod::Post)
    } else if eq_str(s, "PUT") {
        Ok(HttpMethod::Put)
    } else if eq_str(s, "PATCH") {
        Ok(HttpMethod::Patch)
    } else if eq_str(s, "DELETE") {
        Ok(HttpMethod::Delete)
    } else {
        let mut msg: Vec<char> = Vec::new();
        extend_str(&mut msg, "Invalid HTTP method '");
        extend_str(&mut msg, method_str);
        extend_str(&mut msg, "'. Expected one of: GET, POST, PUT, PATCH, DELETE");
        Err(string_of(msg.as_slice()))
    }
}

/// Reading back the canonical name of a method gives the method.
pub proof fn law_method_name_round_trip(m: HttpMethod)
    ensures
        method_named(method_name(m)) == Some(m),
{
    reveal_strlit("GET");
    reveal_strlit("POST");
    reveal_strlit("PUT");
    reveal_strlit("PATCH");
    reveal_strlit("DELETE");
    assert("GET"@[0] != "POST"@[0] && "GET"@[0] != "PUT"@[0] && "GET"@[0] != "PATCH"@[0]);
    assert("GET"@.len() != "DELETE"@.len() && "POST"@.len() != "PUT"@.len());
    assert("POST"@[1] != "PATCH"@[1] && "PUT"@[1] != "PATCH"@[1]);
    assert("POST"@.len() != "DELETE"@.len() && "PUT"@.len() != "DELETE"@.len());
    assert("PATCH"@[0] != "DELETE"@[0]);
}

} // verus!
