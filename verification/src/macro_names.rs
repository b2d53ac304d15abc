//! The type names that `#[orpc(..)]` records for a handler, read from the
//! display text of its parameter and return types, and the types it
//! registers schemas for.

use crate::attr_args::OrpcArgs;
use crate::signature::{deref, FnSig};
use crate::text::{
    chars_of, eq_str, has_prefix, str_starts_with, strip_char_end,
    strip_char_end_chars, strip_prefix_all, strip_prefix_all_chars, string_of,
};
use crate::type_expr::{GenericArg, PathArgs, TypeExpr, TypeShape};
use vstd::prelude::*;

verus! {

/// The names the attribute treats as primitive (no schema registered).
pub open spec fn primitive_names() -> Seq<Seq<char>> {
    seq![
        "()"@,
        "String"@,
        "str"@,
        "i8"@,
        "i16"@,
        "i32"@,
        "i64"@,
        "u8"@,
        "u16"@,
        "u32"@,
        "u64"@,
        "f32"@,
        "f64"@,
        "bool"@,
        "usize"@,
        "isize"@,
    ]
}

/// Returns true for Rust primitive type names and `()`.
pub fn is_primitive_str(name: &str) -> (r: bool)
    ensures
        r == primitive_names().contains(name@),
{
    let names: [&str; 16] = [
        "()",
        "String",
        "str",
        "i8",
        "i16",
        "i32",
        "i64",
        "u8",
        "u16",
        "u32",
        "u64",
        "f32",
        "f64",
        "bool",
        "usize",
        "isize",
    ];
    let v = chars_of(name);
    let r = crate::types::is_one_of(v.as_slice(), names.as_slice());
    assert(names@.map_values(|s: &str| s@) =~= primitive_names());
    r
}

/// The `T` of a `Json<T>`, `axum::Json<T>` or `axum::extract::Json<T>`
/// type text: the text after the prefixes and `Json<`, without the
/// wrapper's closing `>`.
pub open spec fn json_inner(s: Seq<char>) -> Option<Seq<char>> {
    let suffix = strip_prefix_all(strip_prefix_all(s, "axum::extract::"@), "axum::"@);
    if has_prefix(suffix, "Json<"@) {
        let rest = suffix.skip(5);
        Some(
            if rest.len() > 0 && rest.last() == '>' {
                rest.drop_last()
            } else {
                rest
            },
        )
    } else {
        None
    }
}

/// Extracts `T` from the type text `Json<T>`, `axum::Json<T>` or
/// `axum::extract::Json<T>`.
pub fn extract_json_inner(type_str: &str) -> (r: Option<String>)
    ensures
        match r {
            Some(t) => json_inner(type_str@) == Some(t@),
            None => json_inner(type_str@) is None,
        },
{
    let v = chars_of(type_str);
    let p1 = chars_of("axum::extract::");
    let p2 = chars_of("axum::");
    let a = strip_prefix_all_chars(v.as_slice(), p1.as_slice());
    let suffix = strip_prefix_all_chars(a.as_slice(), p2.as_slice());
    proof {
        reveal_strlit("Json<");
    }
    if str_starts_with(suffix.as_slice(), "Json<") {
        let rest = crate::text::slice_chars(suffix.as_slice(), 5, suffix.len());
        assert(rest@ =~= suffix@.skip(5));
        let n = rest.len();
        if n > 0 && rest[n - 1] == '>' {
            let inner = crate::text::slice_chars(rest.as_slice(), 0, n - 1);
            assert(inner@ =~= rest@.drop_last());
            Some(string_of(inner.as_slice()))
        } else {
            Some(string_of(rest.as_slice()))
        }
    } else {
        None
    }
}

/// The `T` of the first parameter whose type text is `Json<T>`.
pub open spec fn first_json_inner(ts: Seq<TypeExpr>) -> Option<Seq<char>>
    decreases ts.len(),
{
    if ts.len() == 0 {
        None
    } else {
        match first_json_inner(ts.drop_last()) {
            Some(t) => Some(t),
            None => json_inner(ts.last().text@),
        }
    }
}

/// The recorded input type name: the `T` of the first `Json<T>`
/// parameter, else `()`.
pub fn extract_input_type_name(inputs: &Vec<TypeExpr>) -> (r: String)
    ensures
        r@ == match first_json_inner(inputs@) {
            Some(t) => t,
            None => "()"@,
        },
{
    let mut i: usize = 0;
    assert(inputs@.take(0) =~= Seq::<TypeExpr>::empty());
    while i < inputs.len()
        invariant
            i <= inputs@.len(),
            first_json_inner(inputs@.take(i as int)) is None,
        decreases inputs@.len() - i,
    {
        assert(inputs@.take(i + 1).drop_last() =~= inputs@.take(i as int));
        assert(inputs@.take(i + 1).last() == inputs@[i as int]);
        match extract_json_inner(inputs[i].text.as_str()) {
            Some(inner) => {
                proof {
                    lemma_first_json_inner_prefix(inputs@, i + 1);
                }
                return inner;
            },
            None => {},
        }
        i = i + 1;
    }
    assert(inputs@.take(inputs@.len() as int) =~= inputs@);
    string_of(chars_of("()").as_slice())
}

/// A match in a prefix is the match of the whole sequence.
proof fn lemma_first_json_inner_prefix(ts: Seq<TypeExpr>, n: int)
    requires
        0 <= n <= ts.len(),
        first_json_inner(ts.take(n)) is Some,
    ensures
        first_json_inner(ts) == first_json_inner(ts.take(n)),
    decreases ts.len() - n,
{
    if n < ts.len() {
        assert(ts.take(n + 1).drop_last() =~= ts.take(n));
        lemma_first_json_inner_prefix(ts, n + 1);
    } else {
        assert(ts.take(n) =~= ts);
    }
}

/// The recorded output type name: the return type's text, or `()`.
pub fn extract_output_type_name(output: &Option<TypeExpr>) -> (r: String)
    ensures
        r@ == match *output {
            Some(t) => t.text@,
            None => "()"@,
        },
{
    match output {
        Some(t) => string_of(chars_of(t.text.as_str()).as_slice()),
        None => string_of(chars_of("()").as_slice()),
    }
}

/// The `n`th generic argument of `ty` when it is `name<..>`, if that
/// argument is a type.
pub open spec fn nth_arg_type(ty: TypeExpr, name: Seq<char>, n: int) -> Option<TypeExpr> {
    match ty.shape {
        TypeShape::Path { ident, args } => if ident@ == name {
            match args {
                PathArgs::Angle(v) => if 0 <= n < v@.len() {
                    match v@[n] {
                        GenericArg::Type(t) => Some(t),
                        GenericArg::Other => None,
                    }
                } else {
                    None
                },
                _ => None,
            }
        } else {
            None
        },
        _ => None,
    }
}

/// The `n`th generic argument of `ty` as the wrapper `name`, when it is a
/// type.
fn nth_arg<'a>(ty: &'a TypeExpr, name: &str, n: usize) -> (r: Option<&'a TypeExpr>)
    ensures
        deref(r) == nth_arg_type(*ty, name@, n as int),
{
    match &ty.shape {
        TypeShape::Path { ident, args } => {
            if !eq_str(chars_of(ident.as_str()).as_slice(), name) {
                return None;
            }
            match args {
                PathArgs::Angle(v) => {
                    if n < v.len() {
                        match &v[n] {
                            GenericArg::Type(t) => Some(t),
                            GenericArg::Other => None,
                        }
                    } else {
                        None
                    }
                },
                _ => None,
            }
        },
        _ => None,
    }
}

/// The recorded error type name: the text of `E` in a `Result<T, E>`
/// return type, when the second generic argument is a type.
pub fn extract_error_type_name(output: &Option<TypeExpr>) -> (r: Option<String>)
    ensures
        match r {
            Some(s) => *output matches Some(t) && nth_arg_type(t, "Result"@, 1) matches Some(e)
                && s@ == e.text@,
            None => output is None || nth_arg_type(output->0, "Result"@, 1) is None,
        },
{
    match output {
        Some(t) => match nth_arg(t, "Result", 1) {
            Some(e) => Some(string_of(chars_of(e.text.as_str()).as_slice())),
            None => None,
        },
        None => None,
    }
}

/// Extract `T` from `wrapper<T, ..>` when the first generic argument is a
/// type.
pub fn extract_inner_type<'a>(ty: &'a TypeExpr, wrapper: &str) -> (r: Option<&'a TypeExpr>)
    ensures
        deref(r) == nth_arg_type(*ty, wrapper@, 0),
{
    nth_arg(ty, wrapper, 0)
}

/// The `S` of the first `State<S>` parameter.
pub open spec fn first_state(ts: Seq<TypeExpr>) -> Option<TypeExpr>
    decreases ts.len(),
{
    if ts.len() == 0 {
        None
    } else {
        match first_state(ts.drop_last()) {
            Some(t) => Some(t),
            None => nth_arg_type(ts.last(), "State"@, 0),
        }
    }
}

/// The state type `S` of the first `State<S>` parameter, if any.
pub fn extract_state_type(inputs: &Vec<TypeExpr>) -> (r: Option<&TypeExpr>)
    ensures
        deref(r) == first_state(inputs@),
{
    let mut i: usize = 0;
    assert(inputs@.take(0) =~= Seq::<TypeExpr>::empty());
    while i < inputs.len()
        invariant
            i <= inputs@.len(),
            first_state(inputs@.take(i as int)) is None,
        decreases inputs@.len() - i,
    {
        assert(inputs@.take(i + 1).drop_last() =~= inputs@.take(i as int));
        assert(inputs@.take(i + 1).last() == inputs@[i as int]);
        match extract_inner_type(&inputs[i], "State") {
            Some(s) => {
                proof {
                    lemma_first_state_prefix(inputs@, i + 1);
                }
                return Some(s);
            },
            None => {},
        }
        i = i + 1;
    }
    assert(inputs@.take(inputs@.len() as int) =~= inputs@);
    None
}

/// A match in a prefix is the match of the whole sequence.
proof fn lemma_first_state_prefix(ts: Seq<TypeExpr>, n: int)
    requires
        0 <= n <= ts.len(),
        first_state(ts.take(n)) is Some,
    ensures
        first_state(ts) == first_state(ts.take(n)),
    decreases ts.len() - n,
{
    if n < ts.len() {
        assert(ts.take(n + 1).drop_last() =~= ts.take(n));
        lemma_first_state_prefix(ts, n + 1);
    } else {
        assert(ts.take(n) =~= ts);
    }
}

/// The `T` of a `Json<T>` or `Result<Json<T>, E>` return type.
pub open spec fn json_of_return(ty: TypeExpr) -> Option<TypeExpr> {
    match nth_arg_type(ty, "Json"@, 0) {
        Some(t) => Some(t),
        None => match nth_arg_type(ty, "Result"@, 0) {
            Some(first) => nth_arg_type(first, "Json"@, 0),
            None => None,
        },
    }
}

/// Extract the output type from `Json<T>` or `Result<Json<T>, E>`.
pub fn extract_json_from_return(ty: &TypeExpr) -> (r: Option<&TypeExpr>)
    ensures
        deref(r) == json_of_return(*ty),
{
    match extract_inner_type(ty, "Json") {
        Some(inner) => Some(inner),
        None => match extract_inner_type(ty, "Result") {
            Some(first) => extract_inner_type(first, "Json"),
            None => None,
        },
    }
}

// ---------------------------------------------------------------------------
// Schema registrations
// ---------------------------------------------------------------------------

/// Whether `syn` parses the text as a type.
pub uninterp spec fn parses_as_type(s: Seq<char>) -> bool;

/// `syn::parse_str::<syn::Type>`: whether the text parses as a type. The
/// contract names the outcome and claims nothing else of it.
#[verifier::external_body]
fn parses_as_type_exec(s: &str) -> (r: bool)
    ensures
        r == parses_as_type(s@),
{
    syn::parse_str::<syn::Type>(s).is_ok()
}

/// The `T` of each `Json<T>` parameter, in order.
pub open spec fn json_params(inputs: Seq<TypeExpr>) -> Seq<TypeExpr>
    decreases inputs.len(),
{
    if inputs.len() == 0 {
        Seq::empty()
    } else {
        let r = json_params(inputs.drop_last());
        match nth_arg_type(inputs.last(), "Json"@, 0) {
            Some(t) => r.push(t),
            None => r,
        }
    }
}

/// The candidate types: the `T` of each `Json<T>` parameter, then the
/// `T` of the `Json<T>` / `Result<Json<T>, E>` return type.
pub open spec fn json_candidates(inputs: Seq<TypeExpr>, output: Option<TypeExpr>) -> Seq<TypeExpr> {
    json_params(inputs) + match output {
        Some(ty) => match json_of_return(ty) {
            Some(t) => seq![t],
            None => Seq::empty(),
        },
        None => Seq::empty(),
    }
}

/// The name a candidate type is registered under: none for a primitive;
/// for `Vec<..>` the text inside (when it parses as a type); else the
/// type's text.
pub open spec fn registered_name(type_str: Seq<char>) -> Option<Seq<char>> {
    if primitive_names().contains(type_str) {
        None
    } else if has_prefix(type_str, "Vec<"@) {
        let inner = strip_char_end(strip_prefix_all(type_str, "Vec<"@), '>');
        if parses_as_type(inner) {
            Some(inner)
        } else {
            None
        }
    } else {
        Some(type_str)
    }
}

/// The registered names of the candidates, in order, each kept once.
pub open spec fn registration_names(c: Seq<TypeExpr>) -> Seq<Seq<char>>
    decreases c.len(),
{
    if c.len() == 0 {
        Seq::empty()
    } else {
        let r = registration_names(c.drop_last());
        match registered_name(c.last().text@) {
            Some(n) => if r.contains(n) {
                r
            } else {
                r.push(n)
            },
            None => r,
        }
    }
}

/// The registered name of one candidate's text.
fn registered_name_exec(type_str: &str) -> (r: Option<Vec<char>>)
    ensures
        match r {
            Some(n) => registered_name(type_str@) == Some(n@),
            None => registered_name(type_str@) is None,
        },
{
    if is_primitive_str(type_str) {
        return None;
    }
    let v = chars_of(type_str);
    if str_starts_with(v.as_slice(), "Vec<") {
        let p = chars_of("Vec<");
        let stripped = strip_prefix_all_chars(v.as_slice(), p.as_slice());
        let inner = strip_char_end_chars(stripped.as_slice(), '>');
        let inner_str = string_of(inner.as_slice());
        if parses_as_type_exec(inner_str.as_str()) {
            Some(inner)
        } else {
            None
        }
    } else {
        Some(v)
    }
}

/// Adds the registered name of `ty` to `names` unless it is already there.
fn note_registration(names: &mut Vec<Vec<char>>, ty: &TypeExpr, done: Ghost<Seq<TypeExpr>>)
    requires
        old(names)@.map_values(|v: Vec<char>| v@) == registration_names(done@),
    ensures
        final(names)@.map_values(|v: Vec<char>| v@) == registration_names(done@.push(*ty)),
{
    let ghost c = done@.push(*ty);
    assert(c.drop_last() =~= done@);
    match registered_name_exec(ty.text.as_str()) {
        Some(n) => {
            let ghost before = names@.map_values(|v: Vec<char>| v@);
            let seen = crate::expand::seen_before(names, &n);
            if !seen {
                names.push(n);
                assert(names@.map_values(|v: Vec<char>| v@) =~= before.push(n@));
            }
        },
        None => {},
    }
}

/// The names of the types `#[orpc]` registers schemas for: the candidates
/// of [`json_candidates`], primitives skipped, `Vec<T>` registered as `T`,
/// each name once.
pub fn schema_registration_names(inputs: &Vec<TypeExpr>, output: &Option<TypeExpr>) -> (r: Vec<
    String,
>)
    ensures
        r@.map_values(|s: String| s@) == registration_names(json_candidates(inputs@, *output)),
{
    let mut names: Vec<Vec<char>> = Vec::new();
    let ghost mut done: Seq<TypeExpr> = Seq::empty();
    assert(names@.map_values(|v: Vec<char>| v@) =~= registration_names(done));
    let mut i: usize = 0;
    assert(inputs@.take(0) =~= Seq::<TypeExpr>::empty());
    while i < inputs.len()
        invariant
            i <= inputs@.len(),
            done == json_params(inputs@.take(i as int)),
            names@.map_values(|v: Vec<char>| v@) == registration_names(done),
        decreases inputs@.len() - i,
    {
        assert(inputs@.take(i + 1).drop_last() =~= inputs@.take(i as int));
        assert(inputs@.take(i + 1).last() == inputs@[i as int]);
        let ghost before = done;
        match extract_inner_type(&inputs[i], "Json") {
            Some(inner) => {
                note_registration(&mut names, inner, Ghost(done));
                proof {
                    done = done.push(*inner);
                }
            },
            None => {},
        }
        assert(done =~= json_params(inputs@.take(i + 1)));
        i = i + 1;
    }
    assert(inputs@.take(inputs@.len() as int) =~= inputs@);
    match output {
        Some(ty) => match extract_json_from_return(ty) {
            Some(inner) => {
                note_registration(&mut names, inner, Ghost(done));
                proof {
                    done = done.push(*inner);
                }
            },
            None => {},
        },
        None => {},
    }
    assert(done =~= json_candidates(inputs@, *output));
    let ghost nv = names@.map_values(|v: Vec<char>| v@);
    let mut out: Vec<String> = Vec::new();
    let mut k: usize = 0;
    while k < names.len()
        invariant
            k <= names@.len(),
            nv == names@.map_values(|v: Vec<char>| v@),
            out@.map_values(|s: String| s@) == nv.take(k as int),
        decreases names@.len() - k,
    {
        let item = string_of(names[k].as_slice());
        let ghost prev = out@;
        out.push(item);
        assert(out@ == prev.push(item));
        assert(out@.map_values(|s: String| s@) =~= prev.map_values(|s: String| s@).push(item@));
        assert(out@.map_values(|s: String| s@) =~= nv.take(k + 1));
        k = k + 1;
    }
    assert(nv.take(names@.len() as int) =~= nv);
    out
}

/// The metadata `#[orpc]` records for a handler.
pub struct OrpcRecord {
    pub name: String,
    pub method: String,
    pub path: String,
    pub input_type_name: String,
    pub output_type_name: String,
    pub error_type_name: Option<String>,
}

/// The record of a handler: its name, the method and path of the
/// attribute, and the input, output and error type names read from its
/// signature.
pub fn orpc_record(args: &OrpcArgs, func: &FnSig) -> (r: OrpcRecord)
    ensures
        r.name@ == func.name@,
        r.method@ == args.method@,
        r.path@ == args.path@,
        r.input_type_name@ == match first_json_inner(func.inputs@) {
            Some(t) => t,
            None => "()"@,
        },
        r.output_type_name@ == match func.output {
            Some(t) => t.text@,
            None => "()"@,
        },
        match r.error_type_name {
            Some(s) => func.output matches Some(t) && nth_arg_type(t, "Result"@, 1) matches Some(e)
                && s@ == e.text@,
            None => func.output is None || nth_arg_type(func.output->0, "Result"@, 1) is None,
        },
{
    OrpcRecord {
        name: string_of(chars_of(func.name.as_str()).as_slice()),
        method: string_of(chars_of(args.method.as_str()).as_slice()),
        path: string_of(chars_of(args.path.as_str()).as_slice()),
        input_type_name: extract_input_type_name(&func.inputs),
        output_type_name: extract_output_type_name(&func.output),
        error_type_name: extract_error_type_name(&func.output),
    }
}

} // verus!
