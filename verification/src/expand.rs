//! What `#[rorpc(..)]` registers for a handler: its metadata record and a
//! fallback schema for each custom type it exchanges.

use crate::attr_args::HandlerArgs;
use crate::signature::{deref, wrapped_type, FnSig, HandlerSignature};
use crate::text::{chars_of, extend_str, join, string_of};
use crate::type_expr::{
    innermost, innermost_custom_type, is_primitive, primitive_type, try_extract_wrapper,
    wrapper_args, TypeExpr, TypeShape, WrapperMatch, JSON, QUERY, RESULT,
};
use vstd::prelude::*;

verus! {

/// The metadata `#[rorpc]` records for a handler, each field as the text
/// the macro writes into the registration.
pub struct HandlerRecord {
    pub name: String,
    pub method: String,
    pub path: String,
    pub input_type_name: String,
    pub query_type_name: Option<String>,
    pub output_type_name: String,
    pub error_type_name: Option<String>,
    pub stream_event_type_name: Option<String>,
    pub path_param_types: String,
}

/// How a type is written in the registration; a missing type reads as the
/// unit type `()`.
pub open spec fn display_or_unit(t: Option<TypeExpr>) -> Seq<char> {
    match t {
        Some(t) => t.text@,
        None => "()"@,
    }
}

/// The text of an optional type.
pub open spec fn display_opt(t: Option<TypeExpr>) -> Option<Seq<char>> {
    match t {
        Some(t) => Some(t.text@),
        None => None,
    }
}

/// The view of an optional owned text.
pub open spec fn text_opt(t: Option<String>) -> Option<Seq<char>> {
    match t {
        Some(s) => Some(s@),
        None => None,
    }
}

fn text_of(t: &TypeExpr) -> (r: String)
    ensures
        r@ == t.text@,
{
    let v = chars_of(t.text.as_str());
    string_of(v.as_slice())
}

fn opt_text(t: Option<&TypeExpr>) -> (r: Option<String>)
    ensures
        text_opt(r) == display_opt(deref(t)),
{
    match t {
        Some(t) => Some(text_of(t)),
        None => None,
    }
}

/// The types of the path parameters, comma-separated: the elements of the
/// tuple `T` of the first `Path<T>` parameter, or `T` itself; empty
/// without such a parameter.
pub open spec fn path_param_text(inputs: Seq<TypeExpr>) -> Seq<char> {
    match crate::signature::param_type(inputs, "Path"@) {
        Some(t) => match t.shape {
            TypeShape::Tuple(es) => join(es@.map_values(|e: TypeExpr| e.text@), ","@),
            _ => t.text@,
        },
        None => Seq::empty(),
    }
}

/// The comma-separated types of the path parameters.
fn path_param_types(inputs: &Vec<TypeExpr>) -> (r: String)
    ensures
        r@ == path_param_text(inputs@),
{
    match crate::signature::find_param(inputs, "Path") {
        Some(t) => match &t.shape {
            TypeShape::Tuple(es) => {
                let mut parts: Vec<Vec<char>> = Vec::new();
                let mut i: usize = 0;
                while i < es.len()
                    invariant
                        i <= es@.len(),
                        parts@.map_values(|x: Vec<char>| x@) == es@.take(i as int).map_values(
                            |e: TypeExpr| e.text@,
                        ),
                    decreases es@.len() - i,
                {
                    let ghost prev = parts@;
                    let item = chars_of(es[i].text.as_str());
                    parts.push(item);
                    assert(parts@ == prev.push(item));
                    assert(item@ == es@[i as int].text@);
                    assert(prev.push(item).map_values(|x: Vec<char>| x@) =~= prev.map_values(|x: Vec<char>| x@).push(item@));
                    assert(es@.take(i + 1) =~= es@.take(i as int).push(es@[i as int]));
                    assert(es@.take(i as int).push(es@[i as int]).map_values(|e: TypeExpr| e.text@) =~= es@.take(i as int).map_values(|e: TypeExpr| e.text@).push(es@[i as int].text@));
                    assert(parts@.map_values(|x: Vec<char>| x@) =~= es@.take(i + 1).map_values(
                        |e: TypeExpr| e.text@,
                    ));
                    i = i + 1;
                }
                assert(es@.take(es@.len() as int) =~= es@);
                let v = crate::text::join_chars(&parts, ",");
                string_of(v.as_slice())
            },
            _ => text_of(t),
        },
        None => String::new(),
    }
}

/// The record of a handler: its name, the upper-cased method and path of
/// the attribute, and the display text of its input (`()` when it takes no
/// JSON body), query, output (`()` for a streaming handler), error and
/// stream event types, and the path parameter types of `func`.
pub fn handler_record(args: &HandlerArgs, sig: &HandlerSignature, func: &FnSig) -> (r: HandlerRecord)
    ensures
        r.name@ == sig.fn_name@,
        r.method@ == args.method@,
        r.path@ == args.path@,
        r.input_type_name@ == display_or_unit(deref(sig.input_type)),
        text_opt(r.query_type_name) == display_opt(deref(sig.query_type)),
        r.output_type_name@ == display_or_unit(deref(sig.output_type)),
        text_opt(r.error_type_name) == display_opt(deref(sig.error_type)),
        text_opt(r.stream_event_type_name) == text_opt(args.stream_event),
        r.path_param_types@ == path_param_text(func.inputs@),
{
    let name = string_of(chars_of(sig.fn_name.as_str()).as_slice());
    let method = string_of(chars_of(args.method.as_str()).as_slice());
    let path = string_of(chars_of(args.path.as_str()).as_slice());
    let input_type_name = match sig.input_type {
        Some(t) => text_of(t),
        None => string_of(chars_of("()").as_slice()),
    };
    let output_type_name = match sig.output_type {
        Some(t) => text_of(t),
        None => string_of(chars_of("()").as_slice()),
    };
    HandlerRecord {
        name,
        method,
        path,
        input_type_name,
        query_type_name: opt_text(sig.query_type),
        output_type_name,
        error_type_name: opt_text(sig.error_type),
        stream_event_type_name: match &args.stream_event {
            Some(t) => Some(t.clone()),
            None => None,
        },
        path_param_types: path_param_types(&func.inputs),
    }
}

// ---------------------------------------------------------------------------
// Fallback schemas
// ---------------------------------------------------------------------------

/// The sequence holding the value of an option, if any.
pub open spec fn opt_seq(o: Option<TypeExpr>) -> Seq<TypeExpr> {
    match o {
        Some(t) => seq![t],
        None => Seq::empty(),
    }
}

/// The candidate types of the parameters: for each parameter, the `T` of
/// `Json<T>`, then the `T` of `Query<T>`.
pub open spec fn param_candidates(inputs: Seq<TypeExpr>) -> Seq<TypeExpr>
    decreases inputs.len(),
{
    if inputs.len() == 0 {
        Seq::empty()
    } else {
        param_candidates(inputs.drop_last()) + opt_seq(wrapped_type(inputs.last(), "Json"@))
            + opt_seq(wrapped_type(inputs.last(), "Query"@))
    }
}

/// The candidate type of the return type: the `T` of `Json<T>`, else of
/// `Result<Json<T>, _>`.
pub open spec fn output_candidate(output: Option<TypeExpr>) -> Option<TypeExpr> {
    match output {
        None => None,
        Some(ty) => if wrapper_args(ty, "Json"@) is Some {
            wrapped_type(ty, "Json"@)
        } else {
            match wrapped_type(ty, "Result"@) {
                Some(first) => wrapped_type(first, "Json"@),
                None => None,
            }
        },
    }
}

/// Every candidate type of a handler, in order.
pub open spec fn candidates(f: FnSig) -> Seq<TypeExpr> {
    param_candidates(f.inputs@) + opt_seq(output_candidate(f.output))
}

/// The names of the custom types below the candidates, in order.
pub open spec fn custom_names(c: Seq<TypeExpr>) -> Seq<Seq<char>>
    decreases c.len(),
{
    if c.len() == 0 {
        Seq::empty()
    } else {
        let r = custom_names(c.drop_last());
        match innermost(c.last()) {
            Some(u) => if primitive_type(u) {
                r
            } else {
                r.push(u.text@)
            },
            None => r,
        }
    }
}

/// The names in order with each kept at its first occurrence only.
pub open spec fn first_occurrences(s: Seq<Seq<char>>) -> Seq<Seq<char>>
    decreases s.len(),
{
    if s.len() == 0 {
        Seq::empty()
    } else {
        let r = first_occurrences(s.drop_last());
        if r.contains(s.last()) {
            r
        } else {
            r.push(s.last())
        }
    }
}

/// The fallback schema text registered for a type without a real schema.
pub open spec fn fallback_text(name: Seq<char>) -> Seq<char> {
    "z.unknown() /* add #[derive(ZodTs)] to "@ + name + " for a real schema */"@
}

/// A fallback schema registration: the type's name and its schema text.
pub struct FallbackSchema {
    pub rust_type: String,
    pub zod_ts: String,
}

/// The `T` of `ty` as the wrapper `name`, if any.
fn wrapped<'a>(ty: &'a TypeExpr, name: &str) -> (r: Option<&'a TypeExpr>)
    ensures
        deref(r) == wrapped_type(*ty, name@),
{
    match try_extract_wrapper(ty, name) {
        Some(m) => m.first_type(),
        None => None,
    }
}

/// The candidate of the return type.
fn output_candidate_of(output: &Option<TypeExpr>) -> (r: Option<&TypeExpr>)
    ensures
        deref(r) == output_candidate(*output),
{
    match output {
        None => None,
        Some(ty) => {
            let json: Option<WrapperMatch> = try_extract_wrapper(ty, JSON);
            match json {
                Some(m) => m.first_type(),
                None => match wrapped(ty, RESULT) {
                    Some(first) => wrapped(first, JSON),
                    None => None,
                },
            }
        },
    }
}

/// Whether `name` is among `names`.
pub(crate) fn seen_before(names: &Vec<Vec<char>>, name: &Vec<char>) -> (r: bool)
    ensures
        r == names@.map_values(|v: Vec<char>| v@).contains(name@),
{
    let ghost nv = names@.map_values(|v: Vec<char>| v@);
    let mut i: usize = 0;
    while i < names.len()
        invariant
            i <= names@.len(),
            nv == names@.map_values(|v: Vec<char>| v@),
            forall|k: int| 0 <= k < i ==> nv[k] != name@,
        decreases names@.len() - i,
    {
        if crate::text::chars_eq(names[i].as_slice(), name.as_slice()) {
            assert(nv[i as int] == name@);
            return true;
        }
        i = i + 1;
    }
    false
}

/// Adds the custom type below `ty` to `names` unless it is already there.
fn note_candidate(names: &mut Vec<Vec<char>>, ty: &TypeExpr, ghost_done: Ghost<Seq<TypeExpr>>)
    requires
        old(names)@.map_values(|v: Vec<char>| v@) == first_occurrences(custom_names(ghost_done@)),
    ensures
        final(names)@.map_values(|v: Vec<char>| v@) == first_occurrences(
            custom_names(ghost_done@.push(*ty)),
        ),
{
    let ghost c = ghost_done@.push(*ty);
    assert(c.drop_last() =~= ghost_done@);
    match innermost_custom_type(ty) {
        Some(u) => {
            if !is_primitive(u) {
                let name = chars_of(u.text.as_str());
                let ghost before = names@.map_values(|v: Vec<char>| v@);
                if !seen_before(names, &name) {
                    names.push(name);
                    assert(names@.map_values(|v: Vec<char>| v@) =~= before.push(u.text@));
                }
                assert(custom_names(c) == custom_names(ghost_done@).push(u.text@));
                assert(custom_names(c).drop_last() =~= custom_names(ghost_done@));
            }
        },
        None => {},
    }
}

/// The fallback schemas `#[rorpc]` registers for a handler: one for each
/// distinct custom type found below the `Json<T>` and `Query<T>`
/// parameters and the `Json<T>` / `Result<Json<T>, E>` return type, in the
/// order they are met.
pub fn fallback_schemas(func: &FnSig) -> (r: Vec<FallbackSchema>)
    ensures
        r@.len() == first_occurrences(custom_names(candidates(*func))).len(),
        forall|k: int|
            0 <= k < r@.len() ==> {
                let n = first_occurrences(custom_names(candidates(*func)))[k];
                &&& (#[trigger] r@[k]).rust_type@ == n
                &&& r@[k].zod_ts@ == fallback_text(n)
            },
{
    let mut names: Vec<Vec<char>> = Vec::new();
    let ghost mut done: Seq<TypeExpr> = Seq::empty();
    assert(names@.map_values(|v: Vec<char>| v@) =~= first_occurrences(custom_names(done)));
    let mut i: usize = 0;
    while i < func.inputs.len()
        invariant
            i <= func.inputs@.len(),
            done == param_candidates(func.inputs@.take(i as int)),
            names@.map_values(|v: Vec<char>| v@) == first_occurrences(custom_names(done)),
        decreases func.inputs@.len() - i,
    {
        let ty = &func.inputs[i];
        assert(func.inputs@.take(i + 1).drop_last() =~= func.inputs@.take(i as int));
        assert(func.inputs@.take(i + 1).last() == func.inputs@[i as int]);
        let ghost before = done;
        match wrapped(ty, JSON) {
            Some(inner) => {
                note_candidate(&mut names, inner, Ghost(done));
                proof {
                    done = done.push(*inner);
                }
            },
            None => {},
        }
        assert(done == before + opt_seq(wrapped_type(*ty, "Json"@)));
        let ghost mid = done;
        match wrapped(ty, QUERY) {
            Some(inner) => {
                note_candidate(&mut names, inner, Ghost(done));
                proof {
                    done = done.push(*inner);
                }
            },
            None => {},
        }
        assert(done == mid + opt_seq(wrapped_type(*ty, "Query"@)));
        assert(done =~= param_candidates(func.inputs@.take(i + 1)));
        i = i + 1;
    }
    assert(func.inputs@.take(func.inputs@.len() as int) =~= func.inputs@);
    let ghost params = done;
    match output_candidate_of(&func.output) {
        Some(inner) => {
            note_candidate(&mut names, inner, Ghost(done));
            proof {
                done = done.push(*inner);
            }
        },
        None => {},
    }
    assert(done =~= candidates(*func));
    let ghost nv = names@.map_values(|v: Vec<char>| v@);
    let mut out: Vec<FallbackSchema> = Vec::new();
    let mut k: usize = 0;
    while k < names.len()
        invariant
            k <= names@.len(),
            nv == names@.map_values(|v: Vec<char>| v@),
            out@.len() == k,
            forall|j: int|
                0 <= j < k ==> (#[trigger] out@[j]).rust_type@ == nv[j] && out@[j].zod_ts@
                    == fallback_text(nv[j]),
        decreases names@.len() - k,
    {
        let mut text: Vec<char> = Vec::new();
        extend_str(&mut text, "z.unknown() /* add #[derive(ZodTs)] to ");
        crate::text::extend_chars(&mut text, names[k].as_slice());
        extend_str(&mut text, " for a real schema */");
        out.push(FallbackSchema { rust_type: string_of(names[k].as_slice()), zod_ts: string_of(text.as_slice()) });
        k = k + 1;
    }
    out
}

/// The fallback schemas of a handler name each type once.
pub proof fn law_fallback_names_distinct(s: Seq<Seq<char>>)
    ensures
        first_occurrences(s).no_duplicates(),
        forall|n: Seq<char>| #[trigger] first_occurrences(s).contains(n) <==> s.contains(n),
    decreases s.len(),
{
    if s.len() > 0 {
        let init = s.drop_last();
        law_fallback_names_distinct(init);
        let r = first_occurrences(init);
        assert forall|n: Seq<char>| #[trigger] first_occurrences(s).contains(n) <==> s.contains(n) by {
            if s.contains(n) && n != s.last() {
                let k = choose|k: int| 0 <= k < s.len() && s[k] == n;
                assert(init[k] == n);
            }
            if init.contains(n) {
                let k = choose|k: int| 0 <= k < init.len() && init[k] == n;
                assert(s[k] == n);
            }
            if r.contains(s.last()) {
                assert(init.contains(s.last()));
            } else {
                assert(r.push(s.last()).last() == s.last());
                if r.push(s.last()).contains(n) && n != s.last() {
                    let k = choose|k: int| 0 <= k < r.push(s.last()).len() && r.push(s.last())[k] == n;
                    assert(r[k] == n);
                }
                if r.contains(n) {
                    let k = choose|k: int| 0 <= k < r.len() && r[k] == n;
                    assert(r.push(s.last())[k] == n);
                }
            }
        }
    }
}

} // verus!
