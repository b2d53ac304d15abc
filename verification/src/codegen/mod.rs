//! TypeScript contract and Zod schema generation.
//!
//! The generated file holds the Zod schema constants of the registered
//! types, placeholder schemas for referenced types without one, and the
//! oRPC `contract` object grouping the handlers by path namespace.

pub mod contract;
pub mod typescript;

use crate::order::{insert_sorted, lemma_sorted_list_is, sorted_list, sorted_strict, views};
use crate::text::{
    chars_eq, chars_of, extend_chars, extend_str, has_prefix, join, remove_char, remove_char_exec,
    slice_chars, split_chars, split_on, str_starts_with, string_of,
};
use crate::types::{first_type_arg, first_type_arg_chars};
use contract::{contract_text, generate_contract};
use typescript::{
    basic_primitive_names, generate_imports, generate_real_schemas, import_lines, is_fallback, is_wrapped,
    lemma_remove_char_len,
    placeholder_text, placeholder_text_chars, real_schema_parts, wrapped_inner,
};
use vstd::prelude::*;

verus! {

/// Metadata for a single handler.
#[derive(Debug, Clone)]
pub struct HandlerInfo {
    pub name: &'static str,
    pub method: &'static str,
    pub path: &'static str,
    pub input_type_name: &'static str,
    pub query_type_name: Option<&'static str>,
    pub output_type_name: &'static str,
    pub rust_module: &'static str,
    pub error_type_name: Option<&'static str>,
    pub stream_event_type_name: Option<&'static str>,
    /// Comma-separated Rust types of the path parameters (e.g. `"i32,String"`).
    pub path_param_types: &'static str,
}

/// A collected Zod schema text for a single Rust type.
#[derive(Debug, Clone)]
pub struct SchemaEntry {
    /// Rust type name, for deduplication and matching against handler types.
    pub rust_type: &'static str,
    /// Full TypeScript schema text.
    pub zod_ts: String,
}

/// One variant of a registered error type.
#[derive(Debug, Clone)]
pub struct ErrorVariantInfo {
    /// Variant name in SCREAMING_SNAKE_CASE (e.g. "NOT_FOUND")
    pub name: &'static str,
    /// Optional Zod schema for variant data (None for unit variants)
    pub data_schema: Option<&'static str>,
}

/// A registered error type and its variants.
#[derive(Debug, Clone)]
pub struct ErrorInfo {
    /// Error type name (e.g. "AppError")
    pub rust_type: &'static str,
    /// All variants of this error enum
    pub variants: Vec<ErrorVariantInfo>,
}

// ---------------------------------------------------------------------------
// Base types of handler type names
// ---------------------------------------------------------------------------

/// The type that a handler type name needs a schema for, if any: spaces
/// dropped, `Sse<..>` skipped, `Result<T, E>` and `Json<T>` unwrapped, the
/// element of `Vec<T>` / `Option<T>` taken; primitives need none.
pub open spec fn base_type_of(s: Seq<char>) -> Option<Seq<char>> {
    let cleaned = remove_char(s, ' ');
    if has_prefix(cleaned, "Sse<"@) {
        None
    } else {
        let a = if has_prefix(cleaned, "Result<"@) {
            match first_type_arg(cleaned) {
                Some(x) => x,
                None => cleaned,
            }
        } else {
            cleaned
        };
        let b = if is_wrapped(a, "Json<"@) {
            wrapped_inner(a, "Json<"@)
        } else {
            a
        };
        if is_wrapped(b, "Vec<"@) {
            let e = wrapped_inner(b, "Vec<"@);
            if basic_primitive_names().contains(e) {
                None
            } else {
                Some(e)
            }
        } else if is_wrapped(b, "Option<"@) {
            let e = wrapped_inner(b, "Option<"@);
            if basic_primitive_names().contains(e) {
                None
            } else {
                Some(e)
            }
        } else if !basic_primitive_names().contains(b) && b.len() > 0 && b != "()"@ {
            Some(b)
        } else {
            None
        }
    }
}

/// Extract the first type argument from "Wrapper<T, ...>".
fn extract_first_type_arg(type_str: &[char]) -> (r: Option<Vec<char>>)
    ensures
        match r {
            Some(a) => first_type_arg(type_str@) == Some(a@),
            None => first_type_arg(type_str@) is None,
        },
{
    first_type_arg_chars(type_str)
}

fn is_wrapped_chars(t: &[char], open: &str) -> (r: bool)
    ensures
        r == is_wrapped(t@, open@),
{
    let o = chars_of(open);
    str_starts_with(t, open) && crate::text::str_ends_with(t, ">") && t.len() > o.len()
}

fn wrapped_inner_chars(t: &[char], open: &str) -> (r: Vec<char>)
    requires
        is_wrapped(t@, open@),
    ensures
        r@ == wrapped_inner(t@, open@),
{
    let o = chars_of(open);
    slice_chars(t, o.len(), t.len() - 1)
}

/// The base type of a possibly wrapped type signature.
///
/// `"Result<Json<Vec<Planet>>, E>"` gives `"Planet"`; streaming types
/// (`Sse<..>`) give none.
fn extract_base_types(type_str: &str) -> (r: Option<Vec<char>>)
    ensures
        match r {
            Some(t) => base_type_of(type_str@) == Some(t@),
            None => base_type_of(type_str@) is None,
        },
{
    let raw = chars_of(type_str);
    let cleaned = remove_char_exec(raw.as_slice(), ' ');
    if str_starts_with(cleaned.as_slice(), "Sse<") {
        return None;
    }
    let a = if str_starts_with(cleaned.as_slice(), "Result<") {
        match extract_first_type_arg(cleaned.as_slice()) {
            Some(x) => x,
            None => cleaned,
        }
    } else {
        cleaned
    };
    let b = if is_wrapped_chars(a.as_slice(), "Json<") {
        wrapped_inner_chars(a.as_slice(), "Json<")
    } else {
        a
    };
    if is_wrapped_chars(b.as_slice(), "Vec<") {
        let e = wrapped_inner_chars(b.as_slice(), "Vec<");
        let es = string_of(e.as_slice());
        if typescript::is_primitive(es.as_str()) {
            None
        } else {
            Some(e)
        }
    } else if is_wrapped_chars(b.as_slice(), "Option<") {
        let e = wrapped_inner_chars(b.as_slice(), "Option<");
        let es = string_of(e.as_slice());
        if typescript::is_primitive(es.as_str()) {
            None
        } else {
            Some(e)
        }
    } else {
        let bs = string_of(b.as_slice());
        if !typescript::is_primitive(bs.as_str()) && b.len() > 0 && !crate::text::eq_str(
            b.as_slice(),
            "()",
        ) {
            Some(b)
        } else {
            None
        }
    }
}

// ---------------------------------------------------------------------------
// Placeholders for types without a registered schema
// ---------------------------------------------------------------------------

/// The type names with a real (non-fallback) registered schema.
pub open spec fn real_types(ss: Seq<SchemaEntry>) -> Set<Seq<char>> {
    Set::new(
        |t: Seq<char>|
            exists|i: int|
                0 <= i < ss.len() && !is_fallback(ss[i].zod_ts@) && #[trigger] ss[i].rust_type@
                    == t,
    )
}

/// `t` is the base type of the handler type name `ty`, which is not itself
/// primitive.
pub open spec fn needs_schema(ty: Seq<char>, t: Seq<char>) -> bool {
    !basic_primitive_names().contains(ty) && base_type_of(ty) == Some(t)
}

/// The base types of the handlers' inputs and outputs that have no real
/// schema in `known`.
pub open spec fn missing_types(hs: Seq<HandlerInfo>, known: Set<Seq<char>>) -> Set<Seq<char>> {
    Set::new(
        |t: Seq<char>|
            !known.contains(t) && exists|i: int|
                0 <= i < hs.len() && (needs_schema(#[trigger] hs[i].input_type_name@, t)
                    || needs_schema(hs[i].output_type_name@, t)),
    )
}

/// Whether the list `l` holds the text `x`.
pub(crate) fn holds_text(l: &Vec<Vec<char>>, x: &[char]) -> (r: bool)
    ensures
        r == views(l@).contains(x@),
{
    let mut i: usize = 0;
    while i < l.len()
        invariant
            i <= l@.len(),
            forall|k: int| 0 <= k < i ==> views(l@)[k] != x@,
        decreases l@.len() - i,
    {
        if chars_eq(l[i].as_slice(), x) {
            assert(views(l@)[i as int] == x@);
            return true;
        }
        i = i + 1;
    }
    false
}

/// The base type of `ty` when it needs a placeholder: `ty` is not primitive,
/// has a base type, and that type is not in `known`.
fn missing_base(ty: &str, known: &Vec<Vec<char>>) -> (r: Option<Vec<char>>)
    ensures
        match r {
            Some(t) => needs_schema(ty@, t@) && !views(known@).contains(t@),
            None => forall|t: Seq<char>|
                needs_schema(ty@, t) ==> views(known@).contains(t),
        },
{
    if typescript::is_primitive(ty) {
        return None;
    }
    match extract_base_types(ty) {
        None => None,
        Some(t) => {
            if holds_text(known, t.as_slice()) {
                None
            } else {
                Some(t)
            }
        },
    }
}

/// Generate placeholder schemas only for types that don't have real schemas.
fn generate_missing_placeholders(handlers: &[HandlerInfo], known: &Vec<Vec<char>>) -> (r: Vec<char>)
    ensures
        r@ == placeholder_text(sorted_list(missing_types(handlers@, views(known@).to_set()))),
{
    let ghost rs = views(known@).to_set();
    let mut sorted: Vec<Vec<char>> = Vec::new();
    let mut i: usize = 0;
    assert(missing_types(handlers@.take(0), rs) =~= Set::<Seq<char>>::empty());
    while i < handlers.len()
        invariant
            i <= handlers@.len(),
            rs == views(known@).to_set(),
            sorted_strict(views(sorted@)),
            views(sorted@).to_set() == missing_types(handlers@.take(i as int), rs),
        decreases handlers@.len() - i,
    {
        let h = &handlers[i];
        let ghost hs0 = handlers@.take(i as int);
        let ghost hs1 = handlers@.take(i + 1);
        let ghost old_set = views(sorted@).to_set();
        let ma = missing_base(h.input_type_name, known);
        let mb = missing_base(h.output_type_name, known);
        let ghost ga = ma;
        let ghost gb = mb;
        match ma {
            Some(t) => {
                insert_sorted(&mut sorted, t);
            },
            None => {},
        }
        match mb {
            Some(t) => {
                insert_sorted(&mut sorted, t);
            },
            None => {},
        }
        proof {
            let s1 = match ga {
                Some(t) => old_set.insert(t@),
                None => old_set,
            };
            let grown = match gb {
                Some(t) => s1.insert(t@),
                None => s1,
            };
            assert(views(sorted@).to_set() == grown);
            assert(hs1[i as int] == handlers@[i as int]);
            assert forall|x: Seq<char>| missing_types(hs1, rs).contains(x) implies grown.contains(
                x,
            ) by {
                let k = choose|k: int|
                    0 <= k < hs1.len() && (needs_schema(#[trigger] hs1[k].input_type_name@, x)
                        || needs_schema(hs1[k].output_type_name@, x));
                if k < i {
                    assert(hs0[k] == hs1[k]);
                }
            }
            assert forall|x: Seq<char>| grown.contains(x) implies missing_types(
                hs1,
                rs,
            ).contains(x) by {
                if old_set.contains(x) {
                    let k = choose|k: int|
                        0 <= k < hs0.len() && (needs_schema(#[trigger] hs0[k].input_type_name@, x)
                            || needs_schema(hs0[k].output_type_name@, x));
                    assert(hs1[k] == hs0[k]);
                } else {
                    assert(hs1[i as int].input_type_name@ == h.input_type_name@);
                    assert(hs1[i as int].output_type_name@ == h.output_type_name@);
                }
            }
            assert(missing_types(hs1, rs) =~= grown);
        }
        i = i + 1;
    }
    assert(handlers@.take(handlers@.len() as int) =~= handlers@);
    proof {
        lemma_sorted_list_is(views(sorted@), missing_types(handlers@, rs));
    }
    placeholder_text_chars(&sorted)
}

// ---------------------------------------------------------------------------
// The generated file
// ---------------------------------------------------------------------------

/// The schema block: real schemas, then placeholders, separated by a blank
/// line when both are present.
pub open spec fn schema_block(known: Seq<char>, placeholders: Seq<char>) -> Seq<char> {
    if known.len() == 0 && placeholders.len() == 0 {
        Seq::empty()
    } else if known.len() == 0 {
        placeholders
    } else if placeholders.len() == 0 {
        known
    } else {
        known + "\n\n"@ + placeholders
    }
}

/// The banner at the top of the generated file.
pub open spec fn file_banner() -> Seq<char> {
    "// AUTO-GENERATED by orpc \u{2014} do not edit manually.\n// Re-generate: orpc::generate_contract().output(path)\n\n"@
}

/// The whole generated TypeScript file.
pub open spec fn contract_file(
    hs: Seq<HandlerInfo>,
    ss: Seq<SchemaEntry>,
    es: Seq<ErrorInfo>,
) -> Seq<char> {
    file_banner() + join(import_lines(), "\n"@) + "\n\n"@ + schema_block(
        join(real_schema_parts(ss), "\n\n"@),
        placeholder_text(sorted_list(missing_types(hs, real_types(ss)))),
    ) + "\n\n"@ + contract_text(hs, es)
}

/// Builder for TypeScript contract generation.
pub struct ContractBuilder {
    handlers: Vec<HandlerInfo>,
    /// Registered Zod schema texts; empty if no types registered.
    schemas: Vec<SchemaEntry>,
    /// Error registrations for `.errors({...})` generation.
    errors: Vec<ErrorInfo>,
}

impl ContractBuilder {
    /// The handlers to generate for.
    pub closed spec fn handlers_spec(&self) -> Seq<HandlerInfo> {
        self.handlers@
    }

    /// The registered schemas.
    pub closed spec fn schemas_spec(&self) -> Seq<SchemaEntry> {
        self.schemas@
    }

    /// The registered error types.
    pub closed spec fn errors_spec(&self) -> Seq<ErrorInfo> {
        self.errors@
    }

    pub fn new(handlers: Vec<HandlerInfo>, schemas: Vec<SchemaEntry>) -> (r: Self)
        ensures
            r.handlers_spec() == handlers@,
            r.schemas_spec() == schemas@,
            r.errors_spec() == Seq::<ErrorInfo>::empty(),
    {
        ContractBuilder { handlers, schemas, errors: Vec::new() }
    }

    /// Add error registrations to the builder, replacing earlier ones.
    pub fn with_errors(self, errors: Vec<ErrorInfo>) -> (r: Self)
        ensures
            r.handlers_spec() == self.handlers_spec(),
            r.schemas_spec() == self.schemas_spec(),
            r.errors_spec() == errors@,
    {
        ContractBuilder { handlers: self.handlers, schemas: self.schemas, errors }
    }

    /// Generate the full TypeScript content as a string.
    pub fn generate(self) -> (r: String)
        ensures
            r@ == contract_file(self.handlers_spec(), self.schemas_spec(), self.errors_spec()),
            forall|i: int|
                0 <= i < self.handlers_spec().len() ==> contract::contract_lines(
                    self.handlers_spec(),
                    self.errors_spec(),
                ).contains(#[trigger] contract::entry_line(self.handlers_spec()[i], self.errors_spec())),
    {
        let imports = generate_imports();
        let mut known: Vec<Vec<char>> = Vec::new();
        let mut i: usize = 0;
        while i < self.schemas.len()
            invariant
                i <= self.schemas@.len(),
                forall|t: Seq<char>|
                    views(known@).contains(t) <==> exists|k: int|
                        0 <= k < i && !is_fallback(self.schemas@[k].zod_ts@)
                            && #[trigger] self.schemas@[k].rust_type@ == t,
            decreases self.schemas@.len() - i,
        {
            let e = &self.schemas[i];
            if !crate::text::str_contains(e.zod_ts.as_str(), "z.unknown()") {
                let ghost before = views(known@);
                assert(forall|t: Seq<char>|
                    before.contains(t) <==> exists|k: int|
                        0 <= k < i && !is_fallback(self.schemas@[k].zod_ts@)
                            && #[trigger] self.schemas@[k].rust_type@ == t);
                known.push(chars_of(e.rust_type));
                assert(views(known@) =~= before.push(e.rust_type@));
                assert forall|t: Seq<char>|
                    views(known@).contains(t) <==> exists|k: int|
                        0 <= k < i + 1 && !is_fallback(self.schemas@[k].zod_ts@)
                            && #[trigger] self.schemas@[k].rust_type@ == t by {
                    if views(known@).contains(t) {
                        let j = choose|j: int| 0 <= j < views(known@).len() && views(known@)[j] == t;
                        if j == before.len() {
                            assert(self.schemas@[i as int].rust_type@ == t);
                        } else {
                            assert(before[j] == t);
                            assert(before.contains(t));
                        }
                    }
                    if exists|k: int|
                        0 <= k < i + 1 && !is_fallback(self.schemas@[k].zod_ts@)
                            && #[trigger] self.schemas@[k].rust_type@ == t {
                        let k = choose|k: int|
                            0 <= k < i + 1 && !is_fallback(self.schemas@[k].zod_ts@)
                                && #[trigger] self.schemas@[k].rust_type@ == t;
                        if k == i {
                            assert(views(known@)[before.len() as int] == t);
                        } else {
                            assert(before.contains(t));
                            let j = choose|j: int| 0 <= j < before.len() && before[j] == t;
                            assert(views(known@)[j] == t);
                        }
                    }
                }
            }
            i = i + 1;
        }
        assert(views(known@).to_set() =~= real_types(self.schemas@));
        let real_schemas = generate_real_schemas(self.schemas.as_slice());
        let placeholders = generate_missing_placeholders(self.handlers.as_slice(), &known);
        let contract = generate_contract(
            self.handlers.as_slice(),
            self.errors.as_slice(),
            self.schemas.as_slice(),
        );
        let rv = chars_of(real_schemas.as_str());
        let mut block: Vec<char> = Vec::new();
        if rv.len() == 0 && placeholders.len() == 0 {
        } else if rv.len() == 0 {
            extend_chars(&mut block, placeholders.as_slice());
        } else if placeholders.len() == 0 {
            extend_chars(&mut block, rv.as_slice());
        } else {
            extend_chars(&mut block, rv.as_slice());
            extend_str(&mut block, "\n\n");
            extend_chars(&mut block, placeholders.as_slice());
        }
        let mut out: Vec<char> = Vec::new();
        extend_str(
            &mut out,
            "// AUTO-GENERATED by orpc \u{2014} do not edit manually.\n// Re-generate: orpc::generate_contract().output(path)\n\n",
        );
        extend_str(&mut out, imports.as_str());
        extend_str(&mut out, "\n\n");
        extend_chars(&mut out, block.as_slice());
        extend_str(&mut out, "\n\n");
        extend_str(&mut out, contract.as_str());
        string_of(out.as_slice())
    }
}

// ---------------------------------------------------------------------------
// Output paths
// ---------------------------------------------------------------------------

/// Whether a `/`-separated path has a `..` component.
pub open spec fn has_parent_component(path: Seq<char>) -> bool {
    split_on(path, '/').contains(".."@)
}

/// Whether the output path climbs out of its directory through a `..`
/// component; such paths are refused when writing the contract.
pub fn has_parent_dir(path: &str) -> (r: bool)
    ensures
        r == has_parent_component(path@),
{
    let v = chars_of(path);
    let parts = split_chars(v.as_slice(), '/');
    let ghost pv = views(parts@);
    let mut i: usize = 0;
    while i < parts.len()
        invariant
            i <= parts@.len(),
            pv == views(parts@),
            pv == split_on(path@, '/'),
            forall|k: int| 0 <= k < i ==> pv[k] != ".."@,
        decreases parts@.len() - i,
    {
        if crate::text::eq_str(parts[i].as_slice(), "..") {
            assert(pv[i as int] == ".."@);
            return true;
        }
        i = i + 1;
    }
    false
}

} // verus!
