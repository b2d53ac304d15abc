//! Structured errors for handler-signature and attribute analysis.
//!
//! Every error carries the source span it points at, and a kind that
//! produces the message and an actionable `help:` line.

use crate::text::{chars_of, extend_str, join, join_chars, string_of};
use crate::order::views;
use proc_macro2::Span;
use vstd::prelude::*;

verus! {

/// A source location (`proc_macro2::Span`), carried through unchanged.
#[verifier::external_type_specification]
#[verifier::external_body]
pub struct ExSpan(proc_macro2::Span);

/// What went wrong.
pub enum ErrorKind {
    /// A type was found where a specific wrapper was expected.
    MissingWrapper { expected: &'static str, found: String, suggestion: String },
    /// A wrapper type has no generic arguments (e.g. bare `Json` instead of `Json<T>`).
    EmptyGenericArgs { wrapper: &'static str },
    /// A type that cannot be handled appears in a handler signature.
    UnsupportedType { name: String, reason: &'static str, suggestion: &'static str },
    /// An attribute key has a value of the wrong kind (e.g. non-string literal).
    InvalidAttrValue { attr: String, expected: &'static str, found: String },
    /// A required attribute key is absent.
    MissingRequiredAttr { attr: &'static str, context: &'static str },
    /// Two attribute keys that cannot coexist were both provided.
    ConflictingAttrs { first: String, second: String, suggestion: String },
    /// A handler function has no return type annotation.
    MissingReturnType { fn_name: String },
    /// A handler function's signature does not match the expected shape.
    InvalidHandlerSig { fn_name: String, reason: &'static str },
    /// An unrecognised key was provided in a macro attribute.
    UnknownKey { key: String, valid_keys: &'static [&'static str] },
    /// A parser error, forwarded with its message.
    SynError { message: String },
}

/// A parse or validation error with its span and a user-facing suggestion.
pub struct Error {
    span: Span,
    kind: ErrorKind,
}

/// The message of an error kind: the diagnostic line, then `= note:` /
/// `= help:` lines.
pub open spec fn kind_message(k: ErrorKind) -> Seq<char> {
    match k {
        ErrorKind::MissingWrapper { expected, found, suggestion } => "expected `"@ + expected@
            + "` wrapper, found `"@ + found@ + "`\n  = help: "@ + suggestion@,
        ErrorKind::EmptyGenericArgs { wrapper } => "`"@ + wrapper@
            + "` requires at least one type argument"@,
        ErrorKind::UnsupportedType { name, reason, suggestion } => "unsupported type `"@ + name@
            + "`\n  = note: "@ + reason@ + "\n  = help: "@ + suggestion@,
        ErrorKind::InvalidAttrValue { attr, expected, found } => "invalid value for `"@ + attr@
            + "`\n  = expected: "@ + expected@ + "\n  = found: "@ + found@,
        ErrorKind::MissingRequiredAttr { attr, context } => "missing required attribute `"@
            + attr@ + "`\n  = help: "@ + context@,
        ErrorKind::ConflictingAttrs { first, second, suggestion } => "conflicting attributes `"@
            + first@ + "` and `"@ + second@ + "`\n  = help: "@ + suggestion@,
        ErrorKind::MissingReturnType { fn_name } => "`"@ + fn_name@
            + "` has no return type\n  = help: add `-> Json<T>` or `-> Result<Json<T>, E>`"@,
        ErrorKind::InvalidHandlerSig { fn_name, reason } => "invalid handler signature for `"@
            + fn_name@ + "`\n  = note: "@ + reason@
            + "\n  = help: return `Json<T>` or `Result<Json<T>, E>`"@,
        ErrorKind::UnknownKey { key, valid_keys } => "unknown key `"@ + key@
            + "`\n  = valid keys: "@ + join(valid_keys@.map_values(|s: &str| s@), ", "@),
        ErrorKind::SynError { message } => message@,
    }
}

impl Error {
    /// The span the error points at.
    pub closed spec fn span_spec(&self) -> Span {
        self.span
    }

    /// The kind of the error.
    pub closed spec fn kind_spec(&self) -> ErrorKind {
        self.kind
    }

    /// The message shown after `error:`.
    pub open spec fn message(&self) -> Seq<char> {
        kind_message(self.kind_spec())
    }

    pub fn missing_wrapper(span: Span, expected: &'static str, found: &str) -> (e: Self)
        ensures
            e.span_spec() == span,
            e.kind_spec() matches ErrorKind::MissingWrapper { expected: x, found: f, suggestion: s }
                && x == expected && f@ == found@ && s@ == "wrap the type: `"@ + expected@ + "<"@
                + found@ + ">`"@,
    {
        let mut s: Vec<char> = Vec::new();
        extend_str(&mut s, "wrap the type: `");
        extend_str(&mut s, expected);
        extend_str(&mut s, "<");
        extend_str(&mut s, found);
        extend_str(&mut s, ">`");
        let fv = chars_of(found);
        Error {
            span,
            kind: ErrorKind::MissingWrapper {
                expected,
                found: string_of(fv.as_slice()),
                suggestion: string_of(s.as_slice()),
            },
        }
    }

    pub fn empty_generic_args(span: Span, wrapper: &'static str) -> (e: Self)
        ensures
            e.span_spec() == span,
            e.kind_spec() == (ErrorKind::EmptyGenericArgs { wrapper }),
    {
        Error { span, kind: ErrorKind::EmptyGenericArgs { wrapper } }
    }

    pub fn unsupported_type(
        span: Span,
        name: &str,
        reason: &'static str,
        suggestion: &'static str,
    ) -> (e: Self)
        ensures
            e.span_spec() == span,
            e.kind_spec() matches ErrorKind::UnsupportedType { name: n, reason: r, suggestion: s }
                && n@ == name@ && r == reason && s == suggestion,
    {
        let nv = chars_of(name);
        Error {
            span,
            kind: ErrorKind::UnsupportedType { name: string_of(nv.as_slice()), reason, suggestion },
        }
    }

    pub fn invalid_attr_value(span: Span, attr: &str, expected: &'static str, found: &str) -> (e:
        Self)
        ensures
            e.span_spec() == span,
            e.kind_spec() matches ErrorKind::InvalidAttrValue { attr: a, expected: x, found: f }
                && a@ == attr@ && x == expected && f@ == found@,
    {
        let av = chars_of(attr);
        let fv = chars_of(found);
        Error {
            span,
            kind: ErrorKind::InvalidAttrValue {
                attr: string_of(av.as_slice()),
                expected,
                found: string_of(fv.as_slice()),
            },
        }
    }

    pub fn missing_required_attr(span: Span, attr: &'static str, context: &'static str) -> (e:
        Self)
        ensures
            e.span_spec() == span,
            e.kind_spec() == (ErrorKind::MissingRequiredAttr { attr, context }),
    {
        Error { span, kind: ErrorKind::MissingRequiredAttr { attr, context } }
    }

    pub fn conflicting_attrs(span: Span, first: &str, second: &str) -> (e: Self)
        ensures
            e.span_spec() == span,
            e.kind_spec() matches ErrorKind::ConflictingAttrs { first: a, second: b, suggestion: s }
                && a@ == first@ && b@ == second@ && s@ == "remove either `"@ + first@
                + "` or `"@ + second@ + "`"@,
    {
        let mut s: Vec<char> = Vec::new();
        extend_str(&mut s, "remove either `");
        extend_str(&mut s, first);
        extend_str(&mut s, "` or `");
        extend_str(&mut s, second);
        extend_str(&mut s, "`");
        let a = chars_of(first);
        let b = chars_of(second);
        Error {
            span,
            kind: ErrorKind::ConflictingAttrs {
                first: string_of(a.as_slice()),
                second: string_of(b.as_slice()),
                suggestion: string_of(s.as_slice()),
            },
        }
    }

    pub fn missing_return_type(span: Span, fn_name: &str) -> (e: Self)
        ensures
            e.span_spec() == span,
            e.kind_spec() matches ErrorKind::MissingReturnType { fn_name: f } && f@ == fn_name@,
    {
        let v = chars_of(fn_name);
        Error { span, kind: ErrorKind::MissingReturnType { fn_name: string_of(v.as_slice()) } }
    }

    pub fn invalid_handler_sig(span: Span, fn_name: &str, reason: &'static str) -> (e: Self)
        ensures
            e.span_spec() == span,
            e.kind_spec() matches ErrorKind::InvalidHandlerSig { fn_name: f, reason: r } && f@
                == fn_name@ && r == reason,
    {
        let v = chars_of(fn_name);
        Error {
            span,
            kind: ErrorKind::InvalidHandlerSig { fn_name: string_of(v.as_slice()), reason },
        }
    }

    pub fn unknown_key(span: Span, key: &str, valid_keys: &'static [&'static str]) -> (e: Self)
        ensures
            e.span_spec() == span,
            e.kind_spec() matches ErrorKind::UnknownKey { key: k, valid_keys: v } && k@ == key@
                && v == valid_keys,
    {
        let v = chars_of(key);
        Error { span, kind: ErrorKind::UnknownKey { key: string_of(v.as_slice()), valid_keys } }
    }

    /// An error forwarded from the parser, with its span and message.
    pub fn forwarded(span: Span, message: String) -> (e: Self)
        ensures
            e.span_spec() == span,
            e.kind_spec() matches ErrorKind::SynError { message: m } && m@ == message@,
    {
        Error { span, kind: ErrorKind::SynError { message } }
    }

    /// The span the error points at.
    pub fn span(&self) -> (s: Span)
        ensures
            s == self.span_spec(),
    {
        self.span
    }

    /// The message shown after `error:`.
    pub fn to_string(&self) -> (r: String)
        ensures
            r@ == self.message(),
    {
        let mut out: Vec<char> = Vec::new();
        match &self.kind {
            ErrorKind::MissingWrapper { expected, found, suggestion } => {
                extend_str(&mut out, "expected `");
                extend_str(&mut out, expected);
                extend_str(&mut out, "` wrapper, found `");
                extend_str(&mut out, found.as_str());
                extend_str(&mut out, "`\n  = help: ");
                extend_str(&mut out, suggestion.as_str());
            },
            ErrorKind::EmptyGenericArgs { wrapper } => {
                extend_str(&mut out, "`");
                extend_str(&mut out, wrapper);
                extend_str(&mut out, "` requires at least one type argument");
            },
            ErrorKind::UnsupportedType { name, reason, suggestion } => {
                extend_str(&mut out, "unsupported type `");
                extend_str(&mut out, name.as_str());
                extend_str(&mut out, "`\n  = note: ");
                extend_str(&mut out, reason);
                extend_str(&mut out, "\n  = help: ");
                extend_str(&mut out, suggestion);
            },
            ErrorKind::InvalidAttrValue { attr, expected, found } => {
                extend_str(&mut out, "invalid value for `");
                extend_str(&mut out, attr.as_str());
                extend_str(&mut out, "`\n  = expected: ");
                extend_str(&mut out, expected);
                extend_str(&mut out, "\n  = found: ");
                extend_str(&mut out, found.as_str());
            },
            ErrorKind::MissingRequiredAttr { attr, context } => {
                extend_str(&mut out, "missing required attribute `");
                extend_str(&mut out, attr);
                extend_str(&mut out, "`\n  = help: ");
                extend_str(&mut out, context);
            },
            ErrorKind::ConflictingAttrs { first, second, suggestion } => {
                extend_str(&mut out, "conflicting attributes `");
                extend_str(&mut out, first.as_str());
                extend_str(&mut out, "` and `");
                extend_str(&mut out, second.as_str());
                extend_str(&mut out, "`\n  = help: ");
                extend_str(&mut out, suggestion.as_str());
            },
            ErrorKind::MissingReturnType { fn_name } => {
                extend_str(&mut out, "`");
                extend_str(&mut out, fn_name.as_str());
                extend_str(
                    &mut out,
                    "` has no return type\n  = help: add `-> Json<T>` or `-> Result<Json<T>, E>`",
                );
            },
            ErrorKind::InvalidHandlerSig { fn_name, reason } => {
                extend_str(&mut out, "invalid handler signature for `");
                extend_str(&mut out, fn_name.as_str());
                extend_str(&mut out, "`\n  = note: ");
                extend_str(&mut out, reason);
                extend_str(&mut out, "\n  = help: return `Json<T>` or `Result<Json<T>, E>`");
            },
            ErrorKind::UnknownKey { key, valid_keys } => {
                extend_str(&mut out, "unknown key `");
                extend_str(&mut out, key.as_str());
                extend_str(&mut out, "`\n  = valid keys: ");
                let mut parts: Vec<Vec<char>> = Vec::new();
                let mut i: usize = 0;
                while i < valid_keys.len()
                    invariant
                        i <= valid_keys@.len(),
                        views(parts@) == valid_keys@.map_values(|s: &str| s@).take(i as int),
                    decreases valid_keys@.len() - i,
                {
                    parts.push(chars_of(valid_keys[i]));
                    assert(valid_keys@.map_values(|s: &str| s@).take(i + 1) =~= valid_keys@.map_values(
                        |s: &str| s@,
                    ).take(i as int).push(valid_keys@[i as int]@));
                    i = i + 1;
                }
                assert(valid_keys@.map_values(|s: &str| s@).take(valid_keys@.len() as int)
                    =~= valid_keys@.map_values(|s: &str| s@));
                let j = join_chars(&parts, ", ");
                crate::text::extend_chars(&mut out, j.as_slice());
            },
            ErrorKind::SynError { message } => {
                extend_str(&mut out, message.as_str());
            },
        }
        string_of(out.as_slice())
    }
}

} // verus!
