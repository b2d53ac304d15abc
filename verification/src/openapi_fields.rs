//! The fields of `openapi! { method: "GET", path: .., prefix: .. }`: the
//! builder calls they stand for, in field order.

use crate::route::{invalid_method_message, method_named, parse_http_method, HttpMethod};
use crate::text::{chars_of, eq_str, extend_str, string_of};
use vstd::prelude::*;

verus! {

/// The value of one field.
pub enum OpenApiValue {
    /// A string literal, by its value.
    StrLit(String),
    /// Any other expression.
    Expr,
}

/// One builder call of the expansion.
#[derive(Debug, PartialEq, Eq, Structural)]
pub enum OpenApiCall {
    /// `.method(m)`.
    Method(HttpMethod),
    /// `.path(..)` with the value of the field at this position.
    Path(usize),
    /// `.prefix(..)` with the value of the field at this position.
    Prefix(usize),
}

/// Why the fields were refused.
#[derive(Debug, PartialEq, Eq, Structural)]
pub enum OpenApiFault {
    /// The field at this position is neither `method`, `path` nor `prefix`.
    UnknownField(usize),
    /// The `method` field at this position is not a string literal.
    MethodNotLiteral(usize),
    /// The `method` field at this position names no HTTP method.
    InvalidMethod(usize),
}

/// The outcome of reading the fields in order: one call per field, or the
/// first refused field.
pub open spec fn read_openapi_fields(fields: Seq<(String, OpenApiValue)>) -> Result<Seq<OpenApiCall>, OpenApiFault>
    decreases fields.len(),
{
    if fields.len() == 0 {
        Ok(Seq::empty())
    } else {
        match read_openapi_fields(fields.drop_last()) {
            Err(e) => Err(e),
            Ok(calls) => {
                let i = (fields.len() - 1) as usize;
                let (name, value) = fields.last();
                if name@ == "method"@ {
                    match value {
                        OpenApiValue::StrLit(s) => match method_named(s@) {
                            Some(m) => Ok(calls.push(OpenApiCall::Method(m))),
                            None => Err(OpenApiFault::InvalidMethod(i)),
                        },
                        OpenApiValue::Expr => Err(OpenApiFault::MethodNotLiteral(i)),
                    }
                } else if name@ == "path"@ {
                    Ok(calls.push(OpenApiCall::Path(i)))
                } else if name@ == "prefix"@ {
                    Ok(calls.push(OpenApiCall::Prefix(i)))
                } else {
                    Err(OpenApiFault::UnknownField(i))
                }
            },
        }
    }
}

/// Once refused, the reading stays refused with the same fault.
proof fn lemma_read_openapi_err(fields: Seq<(String, OpenApiValue)>, n: int)
    requires
        0 <= n <= fields.len(),
        read_openapi_fields(fields.take(n)) is Err,
    ensures
        read_openapi_fields(fields) == read_openapi_fields(fields.take(n)),
    decreases fields.len() - n,
{
    if n < fields.len() {
        assert(fields.take(n + 1).drop_last() =~= fields.take(n));
        lemma_read_openapi_err(fields, n + 1);
    } else {
        assert(fields.take(n) =~= fields);
    }
}

/// The builder calls of `openapi! { .. }`, one per field in order: a
/// string-literal `method` naming an HTTP method, and `path` and `prefix`
/// with any value; any other field is refused.
pub fn openapi_calls(fields: &[(String, OpenApiValue)]) -> (r: Result<Vec<OpenApiCall>, OpenApiFault>)
    ensures
        match read_openapi_fields(fields@) {
            Ok(calls) => r matches Ok(v) && v@ == calls,
            Err(e) => r == Err::<Vec<OpenApiCall>, OpenApiFault>(e),
        },
{
    let mut calls: Vec<OpenApiCall> = Vec::new();
    let mut i: usize = 0;
    assert(fields@.take(0) =~= Seq::<(String, OpenApiValue)>::empty());
    while i < fields.len()
        invariant
            i <= fields@.len(),
            read_openapi_fields(fields@.take(i as int)) == Ok::<Seq<OpenApiCall>, OpenApiFault>(calls@),
        decreases fields@.len() - i,
    {
        assert(fields@.take(i + 1).drop_last() =~= fields@.take(i as int));
        assert(fields@.take(i + 1).last() == fields@[i as int]);
        let (name, value) = &fields[i];
        let nv = chars_of(name.as_str());
        let n = nv.as_slice();
        if eq_str(n, "method") {
            match value {
                OpenApiValue::StrLit(s) => match parse_http_method(s.as_str()) {
                    Ok(m) => {
                        calls.push(OpenApiCall::Method(m));
                    },
                    Err(_) => {
                        proof {
                            lemma_read_openapi_err(fields@, i + 1);
                        }
                        return Err(OpenApiFault::InvalidMethod(i));
                    },
                },
                OpenApiValue::Expr => {
                    proof {
                        lemma_read_openapi_err(fields@, i + 1);
                    }
                    return Err(OpenApiFault::MethodNotLiteral(i));
                },
            }
        } else if eq_str(n, "path") {
            calls.push(OpenApiCall::Path(i));
        } else if eq_str(n, "prefix") {
            calls.push(OpenApiCall::Prefix(i));
        } else {
            proof {
                lemma_read_openapi_err(fields@, i + 1);
            }
            return Err(OpenApiFault::UnknownField(i));
        }
        i = i + 1;
    }
    assert(fields@.take(fields@.len() as int) =~= fields@);
    Ok(calls)
}

impl OpenApiFault {
    /// The message reported for the fault of reading `fields`.
    pub fn message(&self, fields: &[(String, OpenApiValue)]) -> (r: String)
        requires
            match *self {
                OpenApiFault::UnknownField(i) => i < fields@.len(),
                OpenApiFault::MethodNotLiteral(i) => i < fields@.len(),
                OpenApiFault::InvalidMethod(i) => i < fields@.len(),
            },
        ensures
            r@ == match *self {
                OpenApiFault::UnknownField(i) => "Unknown field '"@ + fields@[i as int].0@
                    + "'. Valid fields are: method, path, prefix"@,
                OpenApiFault::MethodNotLiteral(_) => "method value must be a string literal (e.g., \"GET\", \"POST\")"@,
                OpenApiFault::InvalidMethod(i) => match fields@[i as int].1 {
                    OpenApiValue::StrLit(s) => invalid_method_message(s@),
                    OpenApiValue::Expr => invalid_method_message(Seq::empty()),
                },
            },
    {
        let mut out: Vec<char> = Vec::new();
        match self {
            OpenApiFault::UnknownField(i) => {
                extend_str(&mut out, "Unknown field '");
                extend_str(&mut out, fields[*i].0.as_str());
                extend_str(&mut out, "'. Valid fields are: method, path, prefix");
            },
            OpenApiFault::MethodNotLiteral(_) => {
                extend_str(&mut out, "method value must be a string literal (e.g., \"GET\", \"POST\")");
            },
            OpenApiFault::InvalidMethod(i) => {
                extend_str(&mut out, "Invalid HTTP method '");
                match &fields[*i].1 {
                    OpenApiValue::StrLit(s) => extend_str(&mut out, s.as_str()),
                    OpenApiValue::Expr => {},
                }
                extend_str(&mut out, "'. Expected one of: GET, POST, PUT, PATCH, DELETE");
            },
        }
        string_of(out.as_slice())
    }
}

} // verus!
