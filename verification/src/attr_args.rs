//! The arguments of `#[orpc(method = "...", path = "...")]`.

use crate::diagnostics::{Error, ErrorKind};
use crate::signature::call_site;
use crate::text::{chars_of, eq_str, extend_str, string_of, upper_all};
use crate::type_expr::TypeExpr;
use proc_macro2::Span;
use vstd::prelude::*;

verus! {

/// One `key = value` pair of the attribute.
pub struct AttrPair {
    /// The key, or empty when it is not a plain identifier.
    pub key: String,
    /// The value when it is a string literal.
    pub value: Option<String>,
}

/// Parsed arguments from `#[orpc(method = "...", path = "...")]`.
#[derive(Debug)]
pub struct OrpcArgs {
    pub method: String,
    pub path: String,
}

/// Why the attribute arguments were refused.
#[derive(Debug, PartialEq, Eq)]
pub enum OrpcArgsError {
    /// The value of the pair at this position is not a string literal.
    NotStringLiteral(usize),
    /// The key of the pair at this position is neither `method` nor `path`.
    UnknownKey(usize),
    /// No `method` was given.
    MissingMethod,
    /// No `path` was given.
    MissingPath,
}

/// What `str::to_uppercase` returns for `s` (Unicode upper-casing).
pub uninterp spec fn unicode_upper(s: Seq<char>) -> Seq<char>;

/// Every character of `s` is ASCII.
pub open spec fn all_ascii(s: Seq<char>) -> bool {
    forall|i: int| 0 <= i < s.len() ==> (s[i] as int) < 128
}

/// The upper-case form of a method name: ASCII upper-casing for ASCII
/// text, else what `str::to_uppercase` gives.
pub open spec fn upper_text(s: Seq<char>) -> Seq<char> {
    if all_ascii(s) {
        upper_all(s)
    } else {
        unicode_upper(s)
    }
}

/// `str::to_uppercase`: the Unicode upper-case form of `s`. The contract
/// names the result; of ASCII text it states what the documentation shows,
/// that each letter `a`..`z` becomes `A`..`Z` and nothing else changes.
#[verifier::external_body]
fn to_uppercase(s: &str) -> (r: String)
    ensures
        r@ == unicode_upper(s@),
        all_ascii(s@) ==> r@ == upper_all(s@),
{
    s.to_uppercase()
}

/// The outcome of reading the pairs in order: the first refused pair, or
/// the last `method` (upper-cased) and `path` given.
pub open spec fn read_pairs(ps: Seq<(Seq<char>, Option<Seq<char>>)>) -> Result<
    (Option<Seq<char>>, Option<Seq<char>>),
    OrpcArgsError,
>
    decreases ps.len(),
{
    if ps.len() == 0 {
        Ok((None, None))
    } else {
        match read_pairs(ps.drop_last()) {
            Err(e) => Err(e),
            Ok((m, p)) => {
                let (key, value) = ps.last();
                let i = (ps.len() - 1) as usize;
                match value {
                    None => Err(OrpcArgsError::NotStringLiteral(i)),
                    Some(v) => if key == "method"@ {
                        Ok((Some(upper_text(v)), p))
                    } else if key == "path"@ {
                        Ok((m, Some(v)))
                    } else {
                        Err(OrpcArgsError::UnknownKey(i))
                    },
                }
            },
        }
    }
}

/// Once refused, the reading stays refused with the same error.
proof fn lemma_read_pairs_err(ps: Seq<(Seq<char>, Option<Seq<char>>)>, n: int)
    requires
        0 <= n <= ps.len(),
        read_pairs(ps.take(n)) is Err,
    ensures
        read_pairs(ps) == read_pairs(ps.take(n)),
    decreases ps.len() - n,
{
    if n < ps.len() {
        assert(ps.take(n + 1).drop_last() =~= ps.take(n));
        lemma_read_pairs_err(ps, n + 1);
    } else {
        assert(ps.take(n) =~= ps);
    }
}

/// The pairs as plain values.
pub open spec fn pair_views(pairs: Seq<AttrPair>) -> Seq<(Seq<char>, Option<Seq<char>>)> {
    pairs.map_values(
        |p: AttrPair|
            (
                p.key@,
                match p.value {
                    Some(v) => Some(v@),
                    None => None,
                },
            ),
    )
}

/// Read the arguments of `#[orpc(..)]` from its `key = value` pairs.
///
/// Values must be string literals; keys must be `method` or `path`; both
/// are required. The method is upper-cased; a repeated key keeps its last
/// value.
pub fn orpc_args_from_pairs(pairs: &[AttrPair]) -> (r: Result<OrpcArgs, OrpcArgsError>)
    ensures
        match read_pairs(pair_views(pairs@)) {
            Err(e) => r == Err::<OrpcArgs, OrpcArgsError>(e),
            Ok((None, _)) => r == Err::<OrpcArgs, OrpcArgsError>(OrpcArgsError::MissingMethod),
            Ok((Some(_), None)) => r == Err::<OrpcArgs, OrpcArgsError>(OrpcArgsError::MissingPath),
            Ok((Some(m), Some(p))) => r matches Ok(a) && a.method@ == m && a.path@ == p,
        },
{
    let ghost pv = pair_views(pairs@);
    let mut method: Option<String> = None;
    let mut path: Option<String> = None;
    let mut i: usize = 0;
    assert(pv.take(0) =~= Seq::<(Seq<char>, Option<Seq<char>>)>::empty());
    while i < pairs.len()
        invariant
            i <= pairs@.len(),
            pv == pair_views(pairs@),
            read_pairs(pv.take(i as int)) matches Ok((m, p)) && (match method {
                Some(x) => m == Some(x@),
                None => m is None,
            }) && (match path {
                Some(x) => p == Some(x@),
                None => p is None,
            }),
        decreases pairs@.len() - i,
    {
        assert(pv.take(i + 1).drop_last() =~= pv.take(i as int));
        assert(pv.take(i + 1).last() == pv[i as int]);
        let pair = &pairs[i];
        let value = match &pair.value {
            None => {
                proof {
                    assert(read_pairs(pv.take(i + 1)) == Err::<(Option<Seq<char>>, Option<Seq<char>>), OrpcArgsError>(OrpcArgsError::NotStringLiteral(i)));
                    lemma_read_pairs_err(pv, i + 1);
                }
                return Err(OrpcArgsError::NotStringLiteral(i));
            },
            Some(v) => v,
        };
        let kv = chars_of(pair.key.as_str());
        if crate::text::eq_str(kv.as_slice(), "method") {
            method = Some(to_uppercase(value.as_str()));
        } else if crate::text::eq_str(kv.as_slice(), "path") {
            path = Some(value.clone());
        } else {
            proof {
                assert(read_pairs(pv.take(i + 1)) == Err::<(Option<Seq<char>>, Option<Seq<char>>), OrpcArgsError>(OrpcArgsError::UnknownKey(i)));
                lemma_read_pairs_err(pv, i + 1);
            }
            return Err(OrpcArgsError::UnknownKey(i));
        }
        i = i + 1;
    }
    assert(pv.take(pairs@.len() as int) =~= pv);
    match method {
        None => Err(OrpcArgsError::MissingMethod),
        Some(m) => match path {
            None => Err(OrpcArgsError::MissingPath),
            Some(p) => Ok(OrpcArgs { method: m, path: p }),
        },
    }
}

impl OrpcArgsError {
    /// The message reported for the error; `key` is the offending pair's
    /// key for `UnknownKey`.
    pub fn message(&self, key: &str) -> (r: String)
        ensures
            r@ == match *self {
                OrpcArgsError::NotStringLiteral(_) => "#[orpc] attribute values must be string literals"@,
                OrpcArgsError::UnknownKey(_) => "unknown #[orpc] key `"@ + key@
                    + "` \u{2014} expected `method` or `path`"@,
                OrpcArgsError::MissingMethod => "#[orpc] requires `method`"@,
                OrpcArgsError::MissingPath => "#[orpc] requires `path`"@,
            },
    {
        let mut out: Vec<char> = Vec::new();
        match self {
            OrpcArgsError::NotStringLiteral(_) => {
                extend_str(&mut out, "#[orpc] attribute values must be string literals");
            },
            OrpcArgsError::UnknownKey(_) => {
                extend_str(&mut out, "unknown #[orpc] key `");
                extend_str(&mut out, key);
                extend_str(&mut out, "` \u{2014} expected `method` or `path`");
            },
            OrpcArgsError::MissingMethod => {
                extend_str(&mut out, "#[orpc] requires `method`");
            },
            OrpcArgsError::MissingPath => {
                extend_str(&mut out, "#[orpc] requires `path`");
            },
        }
        string_of(out.as_slice())
    }
}

// ---------------------------------------------------------------------------
// #[rorpc(method = "...", path = "...", stream_event = Type, data = "Type")]
// ---------------------------------------------------------------------------

/// The value of one `key = value` pair of `#[rorpc(..)]`.
pub enum MetaValue {
    /// A string literal, by its value.
    Str(String),
    /// A path expression (`StreamEvent`, `module::StreamEvent`), read as a type.
    Path(TypeExpr),
    /// Any other expression.
    Other,
}

/// One `key = value` pair of `#[rorpc(..)]`.
pub struct MetaPair {
    /// The key, or empty when it is not a plain identifier.
    pub key: String,
    /// Where the key is written (the call site when it is not an identifier).
    pub span: Span,
    pub value: MetaValue,
}

/// The arguments of `#[rorpc(..)]`: the upper-cased method, the path and
/// the optional event type of a streaming handler, by its display text
/// (from `stream_event = Type` or `data = "Type"`).
pub struct HandlerArgs {
    pub method: String,
    pub path: String,
    pub stream_event: Option<String>,
}

/// Why the arguments of `#[rorpc(..)]` were refused.
#[derive(Debug, PartialEq, Eq)]
pub enum HandlerArgsFault {
    /// The `method`, `path` or `data` value of the pair at this position is
    /// not a string literal.
    NotString(usize),
    /// The `stream_event` value of the pair at this position is not a path.
    NotTypePath(usize),
    /// The key of the pair at this position is not a known key.
    UnknownKey(usize),
    /// No `method` was given.
    MissingMethod,
    /// No `path` was given.
    MissingPath,
}

/// The keys `#[rorpc(..)]` accepts.
pub open spec fn handler_keys_spec() -> Seq<Seq<char>> {
    seq!["method"@, "path"@, "stream_event"@, "data"@]
}

/// The keys `#[rorpc(..)]` accepts, as reported in an unknown-key error.
pub fn handler_keys() -> (r: &'static [&'static str])
    ensures
        r@.map_values(|k: &str| k@) == handler_keys_spec(),
{
    let r: &'static [&'static str] = &["method", "path", "stream_event", "data"];
    assert(r@.map_values(|k: &str| k@) =~= handler_keys_spec());
    r
}

/// The outcome of reading the pairs in order: the first refused pair, or
/// the last `method` (upper-cased), `path` and stream event type given
/// (`stream_event` as a type path, or `data` as a string).
pub open spec fn read_meta(ps: Seq<MetaPair>) -> Result<
    (Option<Seq<char>>, Option<Seq<char>>, Option<Seq<char>>),
    HandlerArgsFault,
>
    decreases ps.len(),
{
    if ps.len() == 0 {
        Ok((None, None, None))
    } else {
        match read_meta(ps.drop_last()) {
            Err(e) => Err(e),
            Ok((m, p, ev)) => {
                let pair = ps.last();
                let i = (ps.len() - 1) as usize;
                if pair.key@ == "method"@ {
                    match pair.value {
                        MetaValue::Str(v) => Ok((Some(upper_text(v@)), p, ev)),
                        _ => Err(HandlerArgsFault::NotString(i)),
                    }
                } else if pair.key@ == "path"@ {
                    match pair.value {
                        MetaValue::Str(v) => Ok((m, Some(v@), ev)),
                        _ => Err(HandlerArgsFault::NotString(i)),
                    }
                } else if pair.key@ == "stream_event"@ {
                    match pair.value {
                        MetaValue::Path(t) => Ok((m, p, Some(t.text@))),
                        _ => Err(HandlerArgsFault::NotTypePath(i)),
                    }
                } else if pair.key@ == "data"@ {
                    match pair.value {
                        MetaValue::Str(v) => Ok((m, p, Some(v@))),
                        _ => Err(HandlerArgsFault::NotString(i)),
                    }
                } else {
                    Err(HandlerArgsFault::UnknownKey(i))
                }
            },
        }
    }
}

/// Once refused, the reading stays refused with the same fault.
proof fn lemma_read_meta_err(ps: Seq<MetaPair>, n: int)
    requires
        0 <= n <= ps.len(),
        read_meta(ps.take(n)) is Err,
    ensures
        read_meta(ps) == read_meta(ps.take(n)),
    decreases ps.len() - n,
{
    if n < ps.len() {
        assert(ps.take(n + 1).drop_last() =~= ps.take(n));
        lemma_read_meta_err(ps, n + 1);
    } else {
        assert(ps.take(n) =~= ps);
    }
}

/// Read the arguments of `#[rorpc(..)]` from its `key = value` pairs.
///
/// `method` and `path` take string literals and are both required;
/// `stream_event` takes a type path and `data` a string literal, both
/// naming the stream event type. The method is upper-cased; a repeated
/// key keeps its last value. The first refused pair decides the fault.
pub fn handler_args_from_pairs(pairs: &[MetaPair]) -> (r: Result<HandlerArgs, HandlerArgsFault>)
    ensures
        match read_meta(pairs@) {
            Err(e) => r == Err::<HandlerArgs, HandlerArgsFault>(e),
            Ok((None, _, _)) => r == Err::<HandlerArgs, HandlerArgsFault>(HandlerArgsFault::MissingMethod),
            Ok((Some(_), None, _)) => r == Err::<HandlerArgs, HandlerArgsFault>(HandlerArgsFault::MissingPath),
            Ok((Some(m), Some(p), ev)) => r matches Ok(a) && a.method@ == m && a.path@ == p && (match a.stream_event {
                Some(t) => ev == Some(t@),
                None => ev is None,
            }),
        },
{
    let mut method: Option<String> = None;
    let mut path: Option<String> = None;
    let mut stream_event: Option<String> = None;
    let mut i: usize = 0;
    assert(pairs@.take(0) =~= Seq::<MetaPair>::empty());
    while i < pairs.len()
        invariant
            i <= pairs@.len(),
            read_meta(pairs@.take(i as int)) matches Ok((m, p, ev)) && (match method {
                Some(x) => m == Some(x@),
                None => m is None,
            }) && (match path {
                Some(x) => p == Some(x@),
                None => p is None,
            }) && (match stream_event {
                Some(t) => ev == Some(t@),
                None => ev is None,
            }),
        decreases pairs@.len() - i,
    {
        assert(pairs@.take(i + 1).drop_last() =~= pairs@.take(i as int));
        assert(pairs@.take(i + 1).last() == pairs@[i as int]);
        let pair = &pairs[i];
        let kv = chars_of(pair.key.as_str());
        let k = kv.as_slice();
        if eq_str(k, "method") {
            match &pair.value {
                MetaValue::Str(v) => {
                    method = Some(to_uppercase(v.as_str()));
                },
                _ => {
                    proof {
                        lemma_read_meta_err(pairs@, i + 1);
                    }
                    return Err(HandlerArgsFault::NotString(i));
                },
            }
        } else if eq_str(k, "path") {
            match &pair.value {
                MetaValue::Str(v) => {
                    path = Some(v.clone());
                },
                _ => {
                    proof {
                        lemma_read_meta_err(pairs@, i + 1);
                    }
                    return Err(HandlerArgsFault::NotString(i));
                },
            }
        } else if eq_str(k, "stream_event") {
            match &pair.value {
                MetaValue::Path(t) => {
                    stream_event = Some(string_of(chars_of(t.text.as_str()).as_slice()));
                },
                _ => {
                    proof {
                        lemma_read_meta_err(pairs@, i + 1);
                    }
                    return Err(HandlerArgsFault::NotTypePath(i));
                },
            }
        } else if eq_str(k, "data") {
            match &pair.value {
                MetaValue::Str(v) => {
                    stream_event = Some(v.clone());
                },
                _ => {
                    proof {
                        lemma_read_meta_err(pairs@, i + 1);
                    }
                    return Err(HandlerArgsFault::NotString(i));
                },
            }
        } else {
            proof {
                lemma_read_meta_err(pairs@, i + 1);
            }
            return Err(HandlerArgsFault::UnknownKey(i));
        }
        i = i + 1;
    }
    assert(pairs@.take(pairs@.len() as int) =~= pairs@);
    match method {
        None => Err(HandlerArgsFault::MissingMethod),
        Some(m) => match path {
            None => Err(HandlerArgsFault::MissingPath),
            Some(p) => Ok(HandlerArgs { method: m, path: p, stream_event }),
        },
    }
}

/// The message for a `stream_event` value that is not a type path.
pub open spec fn not_type_path_message() -> Seq<char> {
    "stream_event must be a type path (e.g., StreamEvent or module::StreamEvent)"@
}

/// The diagnostic reported for a fault.
///
/// A fault at a pair points at that pair's key; a missing key points at
/// the macro call site, whose span nothing here states.
pub open spec fn fault_reported(pairs: Seq<MetaPair>, f: HandlerArgsFault, e: Error) -> bool {
    match f {
        HandlerArgsFault::NotString(i) => {
            &&& i < pairs.len()
            &&& e.span_spec() == pairs[i as int].span
            &&& e.kind_spec() matches ErrorKind::InvalidAttrValue { attr, expected, found }
            &&& attr@ == pairs[i as int].key@
            &&& expected@ == "a string literal"@
            &&& found@ == "non-string expression"@
        },
        HandlerArgsFault::NotTypePath(i) => {
            &&& i < pairs.len()
            &&& e.span_spec() == pairs[i as int].span
            &&& e.kind_spec() matches ErrorKind::SynError { message }
            &&& message@ == not_type_path_message()
        },
        HandlerArgsFault::UnknownKey(i) => {
            &&& i < pairs.len()
            &&& e.span_spec() == pairs[i as int].span
            &&& e.kind_spec() matches ErrorKind::UnknownKey { key, valid_keys }
            &&& key@ == pairs[i as int].key@
            &&& valid_keys@.map_values(|k: &str| k@) == handler_keys_spec()
        },
        HandlerArgsFault::MissingMethod => e.kind_spec() matches ErrorKind::MissingRequiredAttr {
            attr,
            context,
        } && attr@ == "method"@ && context@ == "add `method = \"GET\"` to #[rorpc]"@,
        HandlerArgsFault::MissingPath => e.kind_spec() matches ErrorKind::MissingRequiredAttr {
            attr,
            context,
        } && attr@ == "path"@ && context@ == "add `path = \"/your/route\"` to #[rorpc]"@,
    }
}

impl HandlerArgsFault {
    /// The diagnostic for this fault of reading `pairs`.
    pub fn to_error(&self, pairs: &[MetaPair]) -> (e: Error)
        requires
            match *self {
                HandlerArgsFault::NotString(i) => i < pairs@.len(),
                HandlerArgsFault::NotTypePath(i) => i < pairs@.len(),
                HandlerArgsFault::UnknownKey(i) => i < pairs@.len(),
                _ => true,
            },
        ensures
            fault_reported(pairs@, *self, e),
    {
        match self {
            HandlerArgsFault::NotString(i) => {
                let p = &pairs[*i];
                Error::invalid_attr_value(p.span, p.key.as_str(), "a string literal", "non-string expression")
            },
            HandlerArgsFault::NotTypePath(i) => {
                let p = &pairs[*i];
                let v = chars_of("stream_event must be a type path (e.g., StreamEvent or module::StreamEvent)");
                Error::forwarded(p.span, string_of(v.as_slice()))
            },
            HandlerArgsFault::UnknownKey(i) => {
                let p = &pairs[*i];
                Error::unknown_key(p.span, p.key.as_str(), handler_keys())
            },
            HandlerArgsFault::MissingMethod => {
                Error::missing_required_attr(call_site(), "method", "add `method = \"GET\"` to #[rorpc]")
            },
            HandlerArgsFault::MissingPath => {
                Error::missing_required_attr(call_site(), "path", "add `path = \"/your/route\"` to #[rorpc]")
            },
        }
    }
}

/// Read the arguments of `#[rorpc(..)]`, reporting a refusal as a
/// diagnostic.
pub fn parse_handler_args(pairs: &[MetaPair]) -> (r: Result<HandlerArgs, Error>)
    ensures
        match read_meta(pairs@) {
            Err(f) => r matches Err(e) && fault_reported(pairs@, f, e),
            Ok((None, _, _)) => r matches Err(e) && fault_reported(pairs@, HandlerArgsFault::MissingMethod, e),
            Ok((Some(_), None, _)) => r matches Err(e) && fault_reported(pairs@, HandlerArgsFault::MissingPath, e),
            Ok((Some(m), Some(p), ev)) => r matches Ok(a) && a.method@ == m && a.path@ == p && (match a.stream_event {
                Some(t) => ev == Some(t@),
                None => ev is None,
            }),
        },
{
    match handler_args_from_pairs(pairs) {
        Ok(a) => Ok(a),
        Err(f) => {
            proof {
                lemma_read_meta_fault_in_range(pairs@);
            }
            Err(f.to_error(pairs))
        },
    }
}

/// A fault at a pair names a pair that exists.
proof fn lemma_read_meta_fault_in_range(ps: Seq<MetaPair>)
    ensures
        match read_meta(ps) {
            Err(HandlerArgsFault::NotString(i)) => i < ps.len(),
            Err(HandlerArgsFault::NotTypePath(i)) => i < ps.len(),
            Err(HandlerArgsFault::UnknownKey(i)) => i < ps.len(),
            _ => true,
        },
    decreases ps.len(),
{
    if ps.len() > 0 {
        lemma_read_meta_fault_in_range(ps.drop_last());
    }
}

} // verus!
