//! The TypeScript text of `#[derive(ZodTs)]`: Zod schemas for structs with
//! named fields and for enums, with `#[zod(..)]` validation rules and
//! `#[serde(..)]` renames.

use crate::naming::{apply_rename_rule, escape_str, escaped, object_key, renamed, ts_object_key};
use crate::order::views;
use crate::text::{chars_of, eq_str, extend_chars, extend_str, join, join_chars, string_of};
use crate::type_expr::{
    first_type_pos, lemma_first_type_pos, primitive_type, is_primitive, try_extract_wrapper,
    wrapper_args, GenericArg, PathArgs, TypeExpr, TypeShape,
};
use vstd::prelude::*;

verus! {

// ---------------------------------------------------------------------------
// Decimal numbers
// ---------------------------------------------------------------------------

/// The decimal digit `d`.
pub open spec fn digit(d: nat) -> char {
    if d == 0 {
        '0'
    } else if d == 1 {
        '1'
    } else if d == 2 {
        '2'
    } else if d == 3 {
        '3'
    } else if d == 4 {
        '4'
    } else if d == 5 {
        '5'
    } else if d == 6 {
        '6'
    } else if d == 7 {
        '7'
    } else if d == 8 {
        '8'
    } else {
        '9'
    }
}

/// The decimal text of `n`, without leading zeros.
pub open spec fn decimal(n: nat) -> Seq<char>
    decreases n,
{
    if n < 10 {
        seq![digit(n)]
    } else {
        decimal(n / 10) + seq![digit(n % 10)]
    }
}

fn digit_char(d: usize) -> (c: char)
    requires
        d < 10,
    ensures
        c == digit(d as nat),
{
    if d == 0 {
        '0'
    } else if d == 1 {
        '1'
    } else if d == 2 {
        '2'
    } else if d == 3 {
        '3'
    } else if d == 4 {
        '4'
    } else if d == 5 {
        '5'
    } else if d == 6 {
        '6'
    } else if d == 7 {
        '7'
    } else if d == 8 {
        '8'
    } else {
        '9'
    }
}

/// Appends the decimal text of `n`.
fn push_decimal(out: &mut Vec<char>, n: usize)
    ensures
        final(out)@ == old(out)@ + decimal(n as nat),
    decreases n,
{
    if n >= 10 {
        push_decimal(out, n / 10);
    }
    out.push(digit_char(n % 10));
}

// ---------------------------------------------------------------------------
// Attributes
// ---------------------------------------------------------------------------

/// `#[serde(...)]` attributes relevant to schema generation.
#[derive(Debug, Default, PartialEq)]
pub struct SerdeAttrs {
    /// `#[serde(rename = "name")]` or `#[serde(rename(deserialize = "name"))]`
    pub rename: Option<String>,
    /// `#[serde(rename_all = "camelCase")]` on containers
    pub rename_all: Option<String>,
    /// `#[serde(skip)]` or `#[serde(skip_serializing)]`
    pub skip: bool,
    /// `#[serde(default)]`
    pub default: bool,
}

/// `#[zod(...)]` validation rules of a field; the numeric bounds are kept
/// as the text they are written with in the schema.
#[derive(Debug)]
pub struct ZodRules {
    pub min: Option<String>,
    pub max: Option<String>,
    pub int: bool,
    pub positive: bool,
    pub negative: bool,
    pub nonnegative: bool,
    pub nonpositive: bool,
    pub finite: bool,
    pub length: Option<usize>,
    pub min_length: Option<usize>,
    pub max_length: Option<usize>,
    pub starts_with: Option<String>,
    pub ends_with: Option<String>,
    pub includes: Option<String>,
    pub email: bool,
    pub url: bool,
    pub regex: Option<String>,
}

/// The view of an optional text.
pub open spec fn opt_view(t: Option<String>) -> Option<Seq<char>> {
    match t {
        Some(s) => Some(s@),
        None => None,
    }
}

/// No rules at all.
pub open spec fn empty_rules() -> ZodRules {
    ZodRules {
        min: None,
        max: None,
        int: false,
        positive: false,
        negative: false,
        nonnegative: false,
        nonpositive: false,
        finite: false,
        length: None,
        min_length: None,
        max_length: None,
        starts_with: None,
        ends_with: None,
        includes: None,
        email: false,
        url: false,
        regex: None,
    }
}

impl ZodRules {
    /// No rules.
    pub fn none() -> (r: Self)
        ensures
            r == empty_rules(),
    {
        ZodRules {
            min: None,
            max: None,
            int: false,
            positive: false,
            negative: false,
            nonnegative: false,
            nonpositive: false,
            finite: false,
            length: None,
            min_length: None,
            max_length: None,
            starts_with: None,
            ends_with: None,
            includes: None,
            email: false,
            url: false,
            regex: None,
        }
    }
}

// ---------------------------------------------------------------------------
// Validation chains
// ---------------------------------------------------------------------------

/// `text` when the condition holds, else nothing.
pub open spec fn when(c: bool, text: Seq<char>) -> Seq<char> {
    if c {
        text
    } else {
        Seq::empty()
    }
}

/// `.{name}({n})` for a given count.
pub open spec fn count_rule(name: Seq<char>, n: Option<usize>) -> Seq<char> {
    match n {
        Some(k) => "."@ + name + "("@ + decimal(k as nat) + ")"@,
        None => Seq::empty(),
    }
}

/// `{open}{text}{close}` for a given text.
pub open spec fn text_rule(open: Seq<char>, t: Option<Seq<char>>, close: Seq<char>) -> Seq<char> {
    match t {
        Some(s) => open + s + close,
        None => Seq::empty(),
    }
}

/// The length rules shared by strings and arrays.
pub open spec fn length_rules(r: ZodRules) -> Seq<char> {
    count_rule("length"@, r.length) + count_rule("min"@, r.min_length) + count_rule(
        "max"@,
        r.max_length,
    )
}

/// The string schema with its rules.
pub open spec fn string_chain(r: ZodRules) -> Seq<char> {
    "z.string()"@ + length_rules(r) + when(r.email, ".email()"@) + when(r.url, ".url()"@)
        + text_rule(".regex(/"@, opt_view(r.regex), "/)"@) + text_rule(".startsWith(\""@, opt_view(r.starts_with), "\")"@)
        + text_rule(".endsWith(\""@, opt_view(r.ends_with), "\")"@) + text_rule(
        ".includes(\""@,
        opt_view(r.includes),
        "\")"@,
    )
}

/// The rules shared by integers and floats.
pub open spec fn number_rules(r: ZodRules) -> Seq<char> {
    text_rule(".min("@, opt_view(r.min), ")"@) + text_rule(".max("@, opt_view(r.max), ")"@) + when(
        r.positive,
        ".positive()"@,
    ) + when(r.negative, ".negative()"@) + when(r.nonnegative, ".nonnegative()"@) + when(
        r.nonpositive,
        ".nonpositive()"@,
    ) + when(r.finite, ".finite()"@)
}

fn push_count_rule(out: &mut Vec<char>, name: &str, n: Option<usize>)
    ensures
        final(out)@ == old(out)@ + count_rule(name@, n),
{
    match n {
        Some(k) => {
            extend_str(out, ".");
            extend_str(out, name);
            extend_str(out, "(");
            push_decimal(out, k);
            extend_str(out, ")");
        },
        None => {},
    }
}

fn push_text_rule(out: &mut Vec<char>, open: &str, t: &Option<String>, close: &str)
    ensures
        final(out)@ == old(out)@ + text_rule(open@, opt_view(*t), close@),
{
    match t {
        Some(s) => {
            extend_str(out, open);
            extend_str(out, s.as_str());
            extend_str(out, close);
        },
        None => {},
    }
}

fn push_when(out: &mut Vec<char>, c: bool, text: &str)
    ensures
        final(out)@ == old(out)@ + when(c, text@),
{
    if c {
        extend_str(out, text);
    }
}

fn push_length_rules(out: &mut Vec<char>, r: &ZodRules)
    ensures
        final(out)@ == old(out)@ + length_rules(*r),
{
    let ghost o = out@;
    push_count_rule(out, "length", r.length);
    push_count_rule(out, "min", r.min_length);
    push_count_rule(out, "max", r.max_length);
    assert(out@ =~= o + length_rules(*r));
}

fn build_string_schema(r: &ZodRules) -> (s: Vec<char>)
    ensures
        s@ == string_chain(*r),
{
    let mut out: Vec<char> = Vec::new();
    extend_str(&mut out, "z.string()");
    push_length_rules(&mut out, r);
    push_when(&mut out, r.email, ".email()");
    push_when(&mut out, r.url, ".url()");
    push_text_rule(&mut out, ".regex(/", &r.regex, "/)");
    push_text_rule(&mut out, ".startsWith(\"", &r.starts_with, "\")");
    push_text_rule(&mut out, ".endsWith(\"", &r.ends_with, "\")");
    push_text_rule(&mut out, ".includes(\"", &r.includes, "\")");
    assert(out@ =~= string_chain(*r));
    out
}

fn number_validators(r: &ZodRules) -> (s: Vec<char>)
    ensures
        s@ == number_rules(*r),
{
    let mut out: Vec<char> = Vec::new();
    push_text_rule(&mut out, ".min(", &r.min, ")");
    push_text_rule(&mut out, ".max(", &r.max, ")");
    push_when(&mut out, r.positive, ".positive()");
    push_when(&mut out, r.negative, ".negative()");
    push_when(&mut out, r.nonnegative, ".nonnegative()");
    push_when(&mut out, r.nonpositive, ".nonpositive()");
    push_when(&mut out, r.finite, ".finite()");
    assert(out@ =~= number_rules(*r));
    out
}

fn append_number_validators(chain: &mut Vec<char>, r: &ZodRules)
    ensures
        final(chain)@ == old(chain)@ + number_rules(*r),
{
    let v = number_validators(r);
    extend_chars(chain, v.as_slice());
}

// ---------------------------------------------------------------------------
// Type → Zod expression
// ---------------------------------------------------------------------------

/// Integer type names.
pub open spec fn integer_idents() -> Seq<Seq<char>> {
    crate::error_schema::integer_idents()
}

/// The first type argument of `ty` as the wrapper `name`.
pub open spec fn wrapped_first(ty: TypeExpr, name: Seq<char>) -> Option<TypeExpr> {
    crate::signature::wrapped_type(ty, name)
}

/// The Zod expression of a type with its rules: `Option<T>` as the inner
/// type's expression (without rules) and `.optional()`; `Vec<T>` as
/// `z.array(..)` with the length rules; strings, integers and floats with
/// their rules; other named types as `{Name}Schema`.
pub open spec fn zod_expr(ty: TypeExpr, r: ZodRules) -> Seq<char>
    decreases ty,
{
    match ty.shape {
        TypeShape::Path { ident, args } => {
            let inner = match args {
                PathArgs::Angle(v) => match first_type_pos(v@) {
                    Some(k) => if 0 <= k < v@.len() {
                        match v@[k] {
                            GenericArg::Type(t) => {
                                proof {
                                    assert(decreases_to!(v => v@));
                                }
                                Some(zod_expr(t, empty_rules()))
                            },
                            GenericArg::Other => None,
                        }
                    } else {
                        None
                    },
                    None => None,
                },
                _ => None,
            };
            if ident@ == "Option"@ && inner is Some {
                inner->0 + ".optional()"@
            } else if ident@ == "Vec"@ && inner is Some {
                "z.array("@ + inner->0 + ")"@ + length_rules(r)
            } else if ident@ == "String"@ || ident@ == "str"@ {
                string_chain(r)
            } else if integer_idents().contains(ident@) {
                "z.number().int()"@ + number_rules(r)
            } else if ident@ == "f32"@ || ident@ == "f64"@ {
                "z.number()"@ + when(r.int, ".int()"@) + number_rules(r)
            } else if ident@ == "bool"@ {
                "z.boolean()"@
            } else if ident@ == "Value"@ {
                "z.any()"@
            } else {
                ident@ + "Schema"@
            }
        },
        TypeShape::Tuple(elems) => if elems@.len() == 0 {
            "z.void()"@
        } else {
            "z.unknown()"@
        },
        TypeShape::Other => "z.unknown()"@,
    }
}

/// Map a type to a Zod schema expression with the field's rules.
pub fn rust_type_to_zod(ty: &TypeExpr, rules: &ZodRules) -> (s: String)
    ensures
        s@ == zod_expr(*ty, *rules),
    decreases ty,
{
    let mut out: Vec<char> = Vec::new();
    match &ty.shape {
        TypeShape::Path { ident, args } => {
            let iv = chars_of(ident.as_str());
            let is_opt = eq_str(iv.as_slice(), "Option");
            let is_vec = eq_str(iv.as_slice(), "Vec");
            let mut inner: Option<String> = None;
            if is_opt || is_vec {
                match args {
                    PathArgs::Angle(v) => {
                        let m = crate::type_expr::WrapperMatch { generic_args: v };
                        proof {
                            lemma_first_type_pos(v@);
                        }
                        match m.first_type() {
                            Some(t) => {
                                proof {
                                    let k = first_type_pos(v@)->0;
                                    assert(v@[k] == GenericArg::Type(*t));
                                    assert(decreases_to!(v => v@));
                                }
                                let none = ZodRules::none();
                                inner = Some(rust_type_to_zod(t, &none));
                            },
                            None => {},
                        }
                    },
                    _ => {},
                }
            }
            let ints: [&str; 12] = [
                "i8",
                "i16",
                "i32",
                "i64",
                "i128",
                "isize",
                "u8",
                "u16",
                "u32",
                "u64",
                "u128",
                "usize",
            ];
            assert(ints@.map_values(|x: &str| x@) =~= integer_idents());
            if is_opt && inner.is_some() {
                let z = inner.unwrap();
                extend_str(&mut out, z.as_str());
                extend_str(&mut out, ".optional()");
            } else if is_vec && inner.is_some() {
                let z = inner.unwrap();
                extend_str(&mut out, "z.array(");
                extend_str(&mut out, z.as_str());
                extend_str(&mut out, ")");
                push_length_rules(&mut out, rules);
            } else if eq_str(iv.as_slice(), "String") || eq_str(iv.as_slice(), "str") {
                out = build_string_schema(rules);
            } else if crate::types::is_one_of(iv.as_slice(), ints.as_slice()) {
                extend_str(&mut out, "z.number().int()");
                append_number_validators(&mut out, rules);
            } else if eq_str(iv.as_slice(), "f32") || eq_str(iv.as_slice(), "f64") {
                extend_str(&mut out, "z.number()");
                push_when(&mut out, rules.int, ".int()");
                append_number_validators(&mut out, rules);
            } else if eq_str(iv.as_slice(), "bool") {
                extend_str(&mut out, "z.boolean()");
            } else if eq_str(iv.as_slice(), "Value") {
                extend_str(&mut out, "z.any()");
            } else {
                extend_chars(&mut out, iv.as_slice());
                extend_str(&mut out, "Schema");
            }
        },
        TypeShape::Tuple(elems) => {
            if elems.len() == 0 {
                extend_str(&mut out, "z.void()");
            } else {
                extend_str(&mut out, "z.unknown()");
            }
        },
        TypeShape::Other => {
            extend_str(&mut out, "z.unknown()");
        },
    }
    string_of(out.as_slice())
}

// ---------------------------------------------------------------------------
// Dependencies
// ---------------------------------------------------------------------------

/// The simple name of the innermost non-primitive type below `Vec<..>`,
/// for dependency tracking (none for `serde_json::Value`).
pub open spec fn custom_name(ty: TypeExpr) -> Option<Seq<char>>
    decreases ty,
{
    if wrapper_args(ty, "Vec"@) is Some {
        match ty.shape {
            TypeShape::Path { args, .. } => match args {
                PathArgs::Angle(v) => match first_type_pos(v@) {
                    Some(k) => if 0 <= k < v@.len() {
                        match v@[k] {
                            GenericArg::Type(t) => {
                                proof {
                                    assert(decreases_to!(v => v@));
                                }
                                custom_name(t)
                            },
                            GenericArg::Other => None,
                        }
                    } else {
                        None
                    },
                    None => None,
                },
                _ => None,
            },
            _ => None,
        }
    } else if primitive_type(ty) {
        None
    } else {
        match ty.shape {
            TypeShape::Path { ident, .. } => if ident@ == "Value"@ {
                None
            } else {
                Some(ident@)
            },
            _ => None,
        }
    }
}

/// Return the simple name of the innermost non-primitive, non-wrapper type,
/// for dependency tracking.
pub fn innermost_custom_name(ty: &TypeExpr) -> (r: Option<String>)
    ensures
        match r {
            Some(n) => custom_name(*ty) == Some(n@),
            None => custom_name(*ty) is None,
        },
    decreases ty,
{
    match try_extract_wrapper(ty, "Vec") {
        Some(m) => {
            proof {
                lemma_first_type_pos(m.generic_args@);
            }
            match m.first_type() {
                Some(t) => {
                    proof {
                        let v = m.generic_args;
                        let k = first_type_pos(v@)->0;
                        assert(v@[k] == GenericArg::Type(*t));
                        let tv = *ty;
                        match tv.shape {
                            TypeShape::Path { args, .. } => match args {
                                PathArgs::Angle(av) => {
                                    assert(av@ == v@);
                                    assert(decreases_to!(av => av@));
                                },
                                _ => {},
                            },
                            _ => {},
                        }
                    }
                    return innermost_custom_name(t);
                },
                None => {
                    return None;
                },
            }
        },
        None => {},
    }
    if is_primitive(ty) {
        return None;
    }
    match &ty.shape {
        TypeShape::Path { ident, .. } => {
            let iv = chars_of(ident.as_str());
            if eq_str(iv.as_slice(), "Value") {
                None
            } else {
                Some(string_of(iv.as_slice()))
            }
        },
        _ => None,
    }
}

// ---------------------------------------------------------------------------
// Structs and enums
// ---------------------------------------------------------------------------

/// A field as the derive reads it: its name (empty for unnamed fields),
/// type, serde attributes and validation rules.
pub struct ZodField {
    pub name: String,
    pub ty: TypeExpr,
    pub serde: SerdeAttrs,
    pub rules: ZodRules,
}

/// The fields of an enum variant.
pub enum ZodVariantFields {
    Unit,
    Unnamed(Vec<ZodField>),
    Named(Vec<ZodField>),
}

/// An enum variant as the derive reads it.
pub struct ZodVariant {
    pub ident: String,
    pub serde: SerdeAttrs,
    pub fields: ZodVariantFields,
}

/// The schema text of a struct and the custom types it depends on.
pub struct StructSchema {
    pub ts_code: String,
    pub dependent_types: Vec<String>,
}

/// The import line of a schema text.
pub open spec fn zod_import() -> Seq<char> {
    "import * as z from \"zod\";"@
}

/// The key of a field: its serde rename, else its name.
pub open spec fn field_key(f: ZodField) -> Seq<char> {
    match f.serde.rename {
        Some(r) => r@,
        None => f.name@,
    }
}

/// The type a field's schema is built from: the inner type of an
/// `Option<T>`, else the field's type.
pub open spec fn field_base(f: ZodField) -> TypeExpr {
    if wrapper_args(f.ty, "Option"@) is Some {
        match wrapped_first(f.ty, "Option"@) {
            Some(t) => t,
            None => f.ty,
        }
    } else {
        f.ty
    }
}

/// The schema of a field: its base type's expression with the rules, and
/// `.optional()` for `Option<T>`.
pub open spec fn field_expr(f: ZodField) -> Seq<char> {
    if wrapper_args(f.ty, "Option"@) is Some {
        zod_expr(field_base(f), f.rules) + ".optional()"@
    } else {
        zod_expr(f.ty, f.rules)
    }
}

/// `{indent}{key}: {schema}` for each field not skipped, in order.
pub open spec fn field_lines(fs: Seq<ZodField>, indent: Seq<char>) -> Seq<Seq<char>>
    decreases fs.len(),
{
    if fs.len() == 0 {
        Seq::empty()
    } else {
        let r = field_lines(fs.drop_last(), indent);
        if fs.last().serde.skip {
            r
        } else {
            r.push(indent + field_key(fs.last()) + ": "@ + field_expr(fs.last()))
        }
    }
}

/// The custom types the fields not skipped depend on, in order.
pub open spec fn field_deps(fs: Seq<ZodField>) -> Seq<Seq<char>>
    decreases fs.len(),
{
    if fs.len() == 0 {
        Seq::empty()
    } else {
        let r = field_deps(fs.drop_last());
        if fs.last().serde.skip {
            r
        } else {
            match custom_name(field_base(fs.last())) {
                Some(n) => r.push(n),
                None => r,
            }
        }
    }
}

/// The schema text of a struct named `name` with the given fields.
pub open spec fn struct_text(name: Seq<char>, fs: Seq<ZodField>) -> Seq<char> {
    zod_import() + "\n\nexport const "@ + name + "Schema = z.object({\n"@ + join(
        field_lines(fs, "  "@),
        ",\n"@,
    ) + "\n});\n\nexport type "@ + name + " = z.infer<typeof "@ + name + "Schema>;"@
}

/// The type of the field behind `Option<..>`, or the field's type.
fn field_base_exec(f: &ZodField) -> (r: (&TypeExpr, bool))
    ensures
        *r.0 == field_base(*f),
        r.1 == (wrapper_args(f.ty, "Option"@) is Some),
{
    match try_extract_wrapper(&f.ty, "Option") {
        Some(m) => {
            proof {
                lemma_first_type_pos(m.generic_args@);
            }
            match m.first_type() {
                Some(t) => (t, true),
                None => (&f.ty, true),
            }
        },
        None => (&f.ty, false),
    }
}

/// `{key}: {schema}` of a field.
fn field_entry(f: &ZodField) -> (r: Vec<char>)
    ensures
        r@ == field_key(*f) + ": "@ + field_expr(*f),
{
    let mut out: Vec<char> = match &f.serde.rename {
        Some(r) => chars_of(r.as_str()),
        None => chars_of(f.name.as_str()),
    };
    extend_str(&mut out, ": ");
    let (base, is_opt) = field_base_exec(f);
    let z = rust_type_to_zod(base, &f.rules);
    extend_str(&mut out, z.as_str());
    if is_opt {
        extend_str(&mut out, ".optional()");
    }
    out
}

/// The entries of the fields not skipped, each after `indent`.
fn field_lines_exec(fs: &Vec<ZodField>, indent: &str) -> (r: Vec<Vec<char>>)
    ensures
        views(r@) == field_lines(fs@, indent@),
{
    let mut out: Vec<Vec<char>> = Vec::new();
    let mut i: usize = 0;
    assert(fs@.take(0) =~= Seq::<ZodField>::empty());
    while i < fs.len()
        invariant
            i <= fs@.len(),
            views(out@) == field_lines(fs@.take(i as int), indent@),
        decreases fs@.len() - i,
    {
        assert(fs@.take(i + 1).drop_last() =~= fs@.take(i as int));
        assert(fs@.take(i + 1).last() == fs@[i as int]);
        if !fs[i].serde.skip {
            let ghost before = views(out@);
            let mut line = chars_of(indent);
            let e = field_entry(&fs[i]);
            extend_chars(&mut line, e.as_slice());
            assert(line@ =~= indent@ + field_key(fs@[i as int]) + ": "@ + field_expr(fs@[i as int]));
            out.push(line);
            assert(views(out@) =~= before.push(
                indent@ + field_key(fs@[i as int]) + ": "@ + field_expr(fs@[i as int]),
            ));
        }
        i = i + 1;
    }
    assert(fs@.take(fs@.len() as int) =~= fs@);
    out
}

/// The schema text and dependencies of a struct with named fields.
pub fn struct_schema(name: &str, fields: &Vec<ZodField>) -> (r: StructSchema)
    ensures
        r.ts_code@ == struct_text(name@, fields@),
        r.dependent_types@.map_values(|d: String| d@) == field_deps(fields@),
{
    let lines = field_lines_exec(fields, "  ");
    let mut deps: Vec<String> = Vec::new();
    let mut i: usize = 0;
    assert(fields@.take(0) =~= Seq::<ZodField>::empty());
    while i < fields.len()
        invariant
            i <= fields@.len(),
            deps@.map_values(|d: String| d@) == field_deps(fields@.take(i as int)),
        decreases fields@.len() - i,
    {
        assert(fields@.take(i + 1).drop_last() =~= fields@.take(i as int));
        assert(fields@.take(i + 1).last() == fields@[i as int]);
        if !fields[i].serde.skip {
            let (base, _) = field_base_exec(&fields[i]);
            match innermost_custom_name(base) {
                Some(n) => {
                    let ghost before = deps@.map_values(|d: String| d@);
                    let ghost nv = n@;
                    deps.push(n);
                    assert(deps@.map_values(|d: String| d@) =~= before.push(nv));
                },
                None => {},
            }
        }
        i = i + 1;
    }
    assert(fields@.take(fields@.len() as int) =~= fields@);
    let mut out: Vec<char> = Vec::new();
    extend_str(&mut out, "import * as z from \"zod\";");
    extend_str(&mut out, "\n\nexport const ");
    extend_str(&mut out, name);
    extend_str(&mut out, "Schema = z.object({\n");
    let j = join_chars(&lines, ",\n");
    extend_chars(&mut out, j.as_slice());
    extend_str(&mut out, "\n});\n\nexport type ");
    extend_str(&mut out, name);
    extend_str(&mut out, " = z.infer<typeof ");
    extend_str(&mut out, name);
    extend_str(&mut out, "Schema>;");
    StructSchema { ts_code: string_of(out.as_slice()), dependent_types: deps }
}

/// The schema of one enum variant named `name`: a literal for a unit
/// variant, an object keyed by the name otherwise.
pub open spec fn variant_text(name: Seq<char>, fields: ZodVariantFields) -> Seq<char> {
    match fields {
        ZodVariantFields::Unit => "z.literal(\""@ + escaped(name) + "\")"@,
        ZodVariantFields::Unnamed(fs) => if fs@.len() == 1 {
            "z.object({ "@ + object_key(name) + ": "@ + zod_expr(fs@[0].ty, fs@[0].rules)
                + " })"@
        } else {
            "z.object({ "@ + object_key(name) + ": z.tuple(["@ + join(
                fs@.map_values(|f: ZodField| zod_expr(f.ty, f.rules)),
                ", "@,
            ) + "]) })"@
        },
        ZodVariantFields::Named(fs) => "z.object({ "@ + object_key(name) + ": z.object({ "@
            + join(field_lines(fs@, Seq::empty()), ", "@) + " }) })"@,
    }
}

/// Generate the schema of one enum variant.
pub fn generate_variant_ts(variant_name: &str, fields: &ZodVariantFields) -> (r: String)
    ensures
        r@ == variant_text(variant_name@, *fields),
{
    let mut out: Vec<char> = Vec::new();
    match fields {
        ZodVariantFields::Unit => {
            extend_str(&mut out, "z.literal(\"");
            let e = escape_str(variant_name);
            extend_str(&mut out, e.as_str());
            extend_str(&mut out, "\")");
            assert(out@ =~= variant_text(variant_name@, *fields));
        },
        ZodVariantFields::Unnamed(fs) => {
            extend_str(&mut out, "z.object({ ");
            let k = ts_object_key(variant_name);
            extend_str(&mut out, k.as_str());
            if fs.len() == 1 {
                extend_str(&mut out, ": ");
                let z = rust_type_to_zod(&fs[0].ty, &fs[0].rules);
                extend_str(&mut out, z.as_str());
                extend_str(&mut out, " })");
                assert(out@ =~= variant_text(variant_name@, *fields));
            } else {
                let ghost want = fs@.map_values(|f: ZodField| zod_expr(f.ty, f.rules));
                let mut parts: Vec<Vec<char>> = Vec::new();
                let mut i: usize = 0;
                while i < fs.len()
                    invariant
                        i <= fs@.len(),
                        want == fs@.map_values(|f: ZodField| zod_expr(f.ty, f.rules)),
                        views(parts@) == want.take(i as int),
                    decreases fs@.len() - i,
                {
                    let z = rust_type_to_zod(&fs[i].ty, &fs[i].rules);
                    parts.push(chars_of(z.as_str()));
                    assert(want.take(i + 1) =~= want.take(i as int).push(want[i as int]));
                    i = i + 1;
                }
                assert(want.take(fs@.len() as int) =~= want);
                extend_str(&mut out, ": z.tuple([");
                let j = join_chars(&parts, ", ");
                extend_chars(&mut out, j.as_slice());
                extend_str(&mut out, "]) })");
                assert(out@ =~= variant_text(variant_name@, *fields));
            }
        },
        ZodVariantFields::Named(fs) => {
            extend_str(&mut out, "z.object({ ");
            let k = ts_object_key(variant_name);
            extend_str(&mut out, k.as_str());
            extend_str(&mut out, ": z.object({ ");
            let lines = field_lines_exec(fs, "");
            proof {
                reveal_strlit("");
                assert(""@ =~= Seq::<char>::empty());
            }
            let j = join_chars(&lines, ", ");
            extend_chars(&mut out, j.as_slice());
            extend_str(&mut out, " }) })");
            assert(out@ =~= variant_text(variant_name@, *fields));
        },
    }
    string_of(out.as_slice())
}

/// The name a variant is written with: its serde rename, else the
/// container's `rename_all` rule applied to it, else its own name.
pub open spec fn variant_name(v: ZodVariant, rename_all: Option<String>) -> Seq<char> {
    match v.serde.rename {
        Some(r) => r@,
        None => match rename_all {
            Some(rule) => renamed(rule@, v.ident@),
            None => v.ident@,
        },
    }
}

/// The schemas of the variants not skipped, in order.
pub open spec fn variant_texts(vs: Seq<ZodVariant>, rename_all: Option<String>) -> Seq<Seq<char>>
    decreases vs.len(),
{
    if vs.len() == 0 {
        Seq::empty()
    } else {
        let r = variant_texts(vs.drop_last(), rename_all);
        if vs.last().serde.skip {
            r
        } else {
            r.push(variant_text(variant_name(vs.last(), rename_all), vs.last().fields))
        }
    }
}

/// The schema text of an enum named `name`: the union of its variants.
pub open spec fn enum_text(name: Seq<char>, container: SerdeAttrs, vs: Seq<ZodVariant>) -> Seq<char> {
    zod_import() + "\n\nexport const "@ + name + "Schema = z.union([\n  "@ + join(
        variant_texts(vs, container.rename_all),
        ",\n  "@,
    ) + "\n]);\n\nexport type "@ + name + " = z.infer<typeof "@ + name + "Schema>;"@
}

/// The schema text of an enum.
pub fn enum_schema(name: &str, container: &SerdeAttrs, variants: &Vec<ZodVariant>) -> (r: String)
    ensures
        r@ == enum_text(name@, *container, variants@),
{
    let mut parts: Vec<Vec<char>> = Vec::new();
    let mut i: usize = 0;
    assert(variants@.take(0) =~= Seq::<ZodVariant>::empty());
    while i < variants.len()
        invariant
            i <= variants@.len(),
            views(parts@) == variant_texts(variants@.take(i as int), container.rename_all),
        decreases variants@.len() - i,
    {
        assert(variants@.take(i + 1).drop_last() =~= variants@.take(i as int));
        assert(variants@.take(i + 1).last() == variants@[i as int]);
        let v = &variants[i];
        if !v.serde.skip {
            let vname = match &v.serde.rename {
                Some(r) => r.clone(),
                None => match &container.rename_all {
                    Some(rule) => apply_rename_rule(rule.as_str(), v.ident.as_str()),
                    None => v.ident.clone(),
                },
            };
            let t = generate_variant_ts(vname.as_str(), &v.fields);
            let ghost before = views(parts@);
            parts.push(chars_of(t.as_str()));
            assert(views(parts@) =~= before.push(
                variant_text(variant_name(variants@[i as int], container.rename_all), v.fields),
            ));
        }
        i = i + 1;
    }
    assert(variants@.take(variants@.len() as int) =~= variants@);
    let mut out: Vec<char> = Vec::new();
    extend_str(&mut out, "import * as z from \"zod\";");
    extend_str(&mut out, "\n\nexport const ");
    extend_str(&mut out, name);
    extend_str(&mut out, "Schema = z.union([\n  ");
    let j = join_chars(&parts, ",\n  ");
    extend_chars(&mut out, j.as_slice());
    extend_str(&mut out, "\n]);\n\nexport type ");
    extend_str(&mut out, name);
    extend_str(&mut out, " = z.infer<typeof ");
    extend_str(&mut out, name);
    extend_str(&mut out, "Schema>;");
    string_of(out.as_slice())
}

} // verus!
