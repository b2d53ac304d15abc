//! Analysis of a handler function's signature: its state, body and query
//! parameters, and its output and error types.
//!
//! A handler returns `Json<T>`, `Result<Json<T>, E>`, or `Sse<..>` (a
//! streaming handler); any other return type is an error.

use crate::diagnostics::{Error, ErrorKind};
use crate::text::chars_of;
use crate::type_expr::{
    try_extract_wrapper, type_args, wrapper_args, TypeExpr, WrapperMatch, JSON, QUERY, RESULT, SSE,
    STATE,
};
use proc_macro2::Span;
use vstd::prelude::*;

verus! {

/// A handler function as the analysis reads it.
pub struct FnSig {
    /// The function's name.
    pub name: String,
    /// Where the function's name is written.
    pub span: Span,
    /// Whether the function is `async`.
    pub is_async: bool,
    /// The types of its typed parameters, in order.
    pub inputs: Vec<TypeExpr>,
    /// Its return type; none when it has no return type.
    pub output: Option<TypeExpr>,
}

/// Fully analysed handler function signature.
pub struct HandlerSignature<'a> {
    /// The function's identifier, e.g. `"list_planets"`.
    pub fn_name: String,
    /// Span of the function identifier for error reporting.
    pub fn_span: Span,
    /// The `S` in a `State<S>` parameter, if present.
    pub state_type: Option<&'a TypeExpr>,
    /// The `T` in a `Json<T>` parameter, if present.
    pub input_type: Option<&'a TypeExpr>,
    /// The `T` in a `Query<T>` parameter, if present.
    pub query_type: Option<&'a TypeExpr>,
    /// The output type: `T` for `Json<T>` and `Result<Json<T>, E>`; none
    /// for a streaming handler, whose output is the unit type.
    pub output_type: Option<&'a TypeExpr>,
    /// The `E` in `Result<_, E>`, if present.
    pub error_type: Option<&'a TypeExpr>,
    /// Whether the handler returns `Sse<...>`.
    pub is_streaming: bool,
    /// Whether the function is declared `async`.
    pub is_async: bool,
}

/// The first type argument of `ty` as the wrapper `name`.
pub open spec fn wrapped_type(ty: TypeExpr, name: Seq<char>) -> Option<TypeExpr> {
    match wrapper_args(ty, name) {
        Some(args) => if type_args(args).len() > 0 {
            Some(type_args(args)[0])
        } else {
            None
        },
        None => None,
    }
}

/// The position of the first parameter that is the wrapper `name`.
pub open spec fn first_param(ts: Seq<TypeExpr>, name: Seq<char>) -> Option<int>
    decreases ts.len(),
{
    if ts.len() == 0 {
        None
    } else {
        match first_param(ts.drop_last(), name) {
            Some(k) => Some(k),
            None => if wrapper_args(ts.last(), name) is Some {
                Some(ts.len() - 1)
            } else {
                None
            },
        }
    }
}

/// The inner type of the first parameter that is the wrapper `name`.
pub open spec fn param_type(ts: Seq<TypeExpr>, name: Seq<char>) -> Option<TypeExpr> {
    match first_param(ts, name) {
        Some(k) => wrapped_type(ts[k], name),
        None => None,
    }
}

/// The type behind an optional reference.
pub open spec fn deref(o: Option<&TypeExpr>) -> Option<TypeExpr> {
    match o {
        Some(t) => Some(*t),
        None => None,
    }
}

/// How a return type is read.
pub enum ReturnShape {
    /// No return type.
    Missing,
    /// `Sse<..>`.
    Streaming,
    /// `Json<T>`.
    JsonOf(TypeExpr),
    /// `Json<..>` without a type argument.
    JsonEmpty,
    /// `Result<Json<T>, E>` (with `E` when given).
    ResultOf(TypeExpr, Option<TypeExpr>),
    /// `Result<..>` without a type argument.
    ResultEmpty,
    /// `Result<F, ..>` where `F` is not `Json<..>`.
    ResultNotJson(TypeExpr),
    /// `Result<Json<..>, ..>` where the `Json` has no type argument.
    ResultJsonEmpty(TypeExpr),
    /// Any other return type.
    Unsupported(TypeExpr),
}

/// How the return type `out` is read.
pub open spec fn return_shape(out: Option<TypeExpr>) -> ReturnShape {
    match out {
        None => ReturnShape::Missing,
        Some(ty) => if wrapper_args(ty, "Sse"@) is Some {
            ReturnShape::Streaming
        } else if wrapper_args(ty, "Json"@) is Some {
            match wrapped_type(ty, "Json"@) {
                Some(t) => ReturnShape::JsonOf(t),
                None => ReturnShape::JsonEmpty,
            }
        } else if wrapper_args(ty, "Result"@) is Some {
            match wrapped_type(ty, "Result"@) {
                None => ReturnShape::ResultEmpty,
                Some(first) => if wrapper_args(first, "Json"@) is None {
                    ReturnShape::ResultNotJson(first)
                } else {
                    match wrapped_type(first, "Json"@) {
                        None => ReturnShape::ResultJsonEmpty(first),
                        Some(t) => {
                            let args = wrapper_args(ty, "Result"@)->0;
                            let e = if type_args(args).len() > 1 {
                                Some(type_args(args)[1])
                            } else {
                                None
                            };
                            ReturnShape::ResultOf(t, e)
                        },
                    }
                },
            }
        } else {
            ReturnShape::Unsupported(ty)
        },
    }
}

/// `Span::call_site()`: the span of the macro invocation. Nothing is
/// claimed of the value.
#[verifier::external_body]
pub(crate) fn call_site() -> Span {
    Span::call_site()
}

/// The inner type of the first parameter that is the wrapper `name`.
pub(crate) fn find_param<'a>(inputs: &'a Vec<TypeExpr>, name: &str) -> (r: Option<&'a TypeExpr>)
    ensures
        match r {
            Some(t) => param_type(inputs@, name@) == Some(*t),
            None => param_type(inputs@, name@) is None,
        },
{
    let mut i: usize = 0;
    assert(inputs@.take(0) =~= Seq::<TypeExpr>::empty());
    while i < inputs.len()
        invariant
            i <= inputs@.len(),
            first_param(inputs@.take(i as int), name@) is None,
        decreases inputs@.len() - i,
    {
        assert(inputs@.take(i + 1).drop_last() =~= inputs@.take(i as int));
        assert(inputs@.take(i + 1).last() == inputs@[i as int]);
        match try_extract_wrapper(&inputs[i], name) {
            Some(m) => {
                proof {
                    assert(first_param(inputs@.take(i + 1), name@) == Some(i as int));
                    lemma_first_param_prefix(inputs@, i as int + 1, name@);
                }
                return m.first_type();
            },
            None => {},
        }
        i = i + 1;
    }
    assert(inputs@.take(inputs@.len() as int) =~= inputs@);
    None
}

proof fn lemma_first_param_prefix(ts: Seq<TypeExpr>, n: int, name: Seq<char>)
    requires
        0 <= n <= ts.len(),
        first_param(ts.take(n), name) is Some,
    ensures
        first_param(ts, name) == first_param(ts.take(n), name),
    decreases ts.len() - n,
{
    if n < ts.len() {
        assert(ts.take(n + 1).drop_last() =~= ts.take(n));
        lemma_first_param_prefix(ts, n + 1, name);
    } else {
        assert(ts.take(n) =~= ts);
    }
}

/// Extract the signature of a handler function.
///
/// The return type must be `Json<T>`, `Result<Json<T>, E>` or `Sse<..>`;
/// `State<S>`, `Json<T>` and `Query<T>` parameters are collected when
/// present.
pub fn extract_handler_signature<'a>(func: &'a FnSig) -> (r: Result<HandlerSignature<'a>, Error>)
    ensures
        match r {
            Ok(s) => {
                &&& s.fn_name@ == func.name@
                &&& s.fn_span == func.span
                &&& s.is_async == func.is_async
                &&& deref(s.state_type) == param_type(func.inputs@, "State"@)
                &&& deref(s.input_type) == param_type(func.inputs@, "Json"@)
                &&& deref(s.query_type) == param_type(func.inputs@, "Query"@)
                &&& match return_shape(func.output) {
                    ReturnShape::Streaming => s.is_streaming && s.output_type is None
                        && s.error_type is None,
                    ReturnShape::JsonOf(t) => !s.is_streaming && s.output_type == Some(&t)
                        && s.error_type is None,
                    ReturnShape::ResultOf(t, e) => !s.is_streaming && s.output_type == Some(&t)
                        && deref(s.error_type) == e,
                    _ => false,
                }
            },
            Err(e) => match return_shape(func.output) {
                ReturnShape::Missing => e.kind_spec() matches ErrorKind::MissingReturnType {
                    fn_name,
                } && fn_name@ == func.name@,
                ReturnShape::JsonEmpty => e.kind_spec() == (ErrorKind::EmptyGenericArgs {
                    wrapper: JSON,
                }) && e.span_spec() == func.output->0.span,
                ReturnShape::ResultEmpty => e.kind_spec() == (ErrorKind::EmptyGenericArgs {
                    wrapper: RESULT,
                }) && e.span_spec() == func.output->0.span,
                ReturnShape::ResultNotJson(first) => e.kind_spec() matches ErrorKind::InvalidHandlerSig {
                    fn_name,
                    reason,
                } && fn_name@ == func.name@ && reason@ == "Result's first type argument must be Json<T>"@
                    && e.span_spec() == first.span,
                ReturnShape::ResultJsonEmpty(first) => e.kind_spec() == (ErrorKind::EmptyGenericArgs {
                    wrapper: JSON,
                }) && e.span_spec() == first.span,
                ReturnShape::Unsupported(ty) => e.kind_spec() matches ErrorKind::InvalidHandlerSig {
                    fn_name,
                    reason,
                } && fn_name@ == func.name@ && reason@
                    == "return type must be Json<T>, Result<Json<T>, E>, or Sse<impl Stream<...>>"@
                    && e.span_spec() == ty.span,
                _ => false,
            },
        },
{
    let fn_name = func.name.as_str();
    let ty = match &func.output {
        None => {
            return Err(Error::missing_return_type(call_site(), fn_name));
        },
        Some(t) => t,
    };
    let mut output_type: Option<&TypeExpr> = None;
    let mut error_type: Option<&TypeExpr> = None;
    let mut is_streaming = false;
    if try_extract_wrapper(ty, SSE).is_some() {
        is_streaming = true;
    } else {
        match try_extract_wrapper(ty, JSON) {
            Some(m) => {
                match m.first_type() {
                    Some(t) => {
                        output_type = Some(t);
                    },
                    None => {
                        return Err(Error::empty_generic_args(ty.span, JSON));
                    },
                }
            },
            None => {
                match try_extract_wrapper(ty, RESULT) {
                    Some(result_match) => {
                        let first = match result_match.first_type() {
                            Some(f) => f,
                            None => {
                                return Err(Error::empty_generic_args(ty.span, RESULT));
                            },
                        };
                        let json_match = match try_extract_wrapper(first, JSON) {
                            Some(j) => j,
                            None => {
                                proof {
                                    reveal_strlit("Result's first type argument must be Json<T>");
                                }
                                return Err(
                                    Error::invalid_handler_sig(
                                        first.span,
                                        fn_name,
                                        "Result's first type argument must be Json<T>",
                                    ),
                                );
                            },
                        };
                        match json_match.first_type() {
                            Some(t) => {
                                output_type = Some(t);
                            },
                            None => {
                                return Err(Error::empty_generic_args(first.span, JSON));
                            },
                        }
                        error_type = result_match.second_type();
                    },
                    None => {
                        proof {
                            reveal_strlit(
                                "return type must be Json<T>, Result<Json<T>, E>, or Sse<impl Stream<...>>",
                            );
                        }
                        return Err(
                            Error::invalid_handler_sig(
                                ty.span,
                                fn_name,
                                "return type must be Json<T>, Result<Json<T>, E>, or Sse<impl Stream<...>>",
                            ),
                        );
                    },
                }
            },
        }
    }
    let state_type = find_param(&func.inputs, STATE);
    let input_type = find_param(&func.inputs, JSON);
    let query_type = find_param(&func.inputs, QUERY);
    let nv = chars_of(fn_name);
    Ok(
        HandlerSignature {
            fn_name: crate::text::string_of(nv.as_slice()),
            fn_span: func.span,
            state_type,
            input_type,
            query_type,
            output_type,
            error_type,
            is_streaming,
            is_async: func.is_async,
        },
    )
}

} // verus!
