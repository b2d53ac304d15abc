//! TypeScript import and Zod schema generation from Rust type names.

use super::{HandlerInfo, SchemaEntry};
use crate::order::{insert_sorted, lemma_sorted_list_is, sorted_list, sorted_strict, views};
use crate::text::{
    contains_seq, join, join_chars, lines_chars, lines_of, str_contains, trim_start,
    trim_start_chars,
    chars_of, eq_str, extend_chars, extend_str, has_prefix, has_suffix, last_occurrence,
    last_occurrence_exec, lemma_remove_char_add, remove_char, remove_char_exec, slice_chars,
    str_ends_with, str_starts_with, string_of, strip_char_end, strip_char_end_chars,
    strip_prefix_all, strip_prefix_all_chars, trim, trim_chars,
};
use crate::types::{
    first_type_arg, first_type_arg_chars, is_one_of, is_primitive_type_name,
    lemma_first_type_arg_shorter, primitive_type_names,
};
use vstd::prelude::*;

verus! {

// ---------------------------------------------------------------------------
// Primitive names
// ---------------------------------------------------------------------------

/// Names that need no schema declaration in placeholder generation.
pub open spec fn basic_primitive_names() -> Seq<Seq<char>> {
    seq![
        "()"@,
        "String"@,
        "str"@,
        "i8"@,
        "i16"@,
        "i32"@,
        "i64"@,
        "u8"@,
        "u16"@,
        "u32"@,
        "u64"@,
        "f32"@,
        "f64"@,
        "bool"@,
        "usize"@,
        "isize"@,
    ]
}

/// Whether the text `t` is a primitive/std type name.
pub fn is_primitive_chars(t: &[char]) -> (r: bool)
    ensures
        r == basic_primitive_names().contains(t@),
{
    let names: [&str; 16] = [
        "()",
        "String",
        "str",
        "i8",
        "i16",
        "i32",
        "i64",
        "u8",
        "u16",
        "u32",
        "u64",
        "f32",
        "f64",
        "bool",
        "usize",
        "isize",
    ];
    let r = is_one_of(t, names.as_slice());
    assert(names@.map_values(|s: &str| s@) =~= basic_primitive_names());
    r
}

/// Returns true for Rust primitive/std types that don't need a Zod schema declaration.
pub fn is_primitive(name: &str) -> (r: bool)
    ensures
        r == basic_primitive_names().contains(name@),
{
    let v = chars_of(name);
    is_primitive_chars(v.as_slice())
}

// ---------------------------------------------------------------------------
// Schema names
// ---------------------------------------------------------------------------

/// The type with `Vec<`/`Option<` wrappers and closing brackets stripped.
pub open spec fn unwrapped_name(t: Seq<char>) -> Seq<char> {
    trim(
        strip_char_end(
            strip_prefix_all(strip_char_end(strip_prefix_all(t, "Vec<"@), '>'), "Option<"@),
            '>',
        ),
    )
}

/// The last `::`-separated segment of `s`.
pub open spec fn last_path_segment(s: Seq<char>) -> Seq<char> {
    match last_occurrence(s, "::"@) {
        Some(i) => s.skip(i + "::"@.len()),
        None => s,
    }
}

/// The bare type name: `"Vec<models::Planet>"` → `"Planet"`.
pub open spec fn base_name(t: Seq<char>) -> Seq<char> {
    last_path_segment(unwrapped_name(t))
}

/// The Zod schema constant name: `"Vec<models::Planet>"` → `"PlanetSchema"`.
pub open spec fn schema_name(t: Seq<char>) -> Seq<char> {
    base_name(t) + "Schema"@
}

/// The bare type name of the text `t`.
pub fn base_name_chars(t: &[char]) -> (r: Vec<char>)
    ensures
        r@ == base_name(t@),
{
    let vec_open = chars_of("Vec<");
    let opt_open = chars_of("Option<");
    let a = strip_prefix_all_chars(t, vec_open.as_slice());
    let b = strip_char_end_chars(a.as_slice(), '>');
    let c = strip_prefix_all_chars(b.as_slice(), opt_open.as_slice());
    let d = strip_char_end_chars(c.as_slice(), '>');
    let e = trim_chars(d.as_slice());
    let sep = chars_of("::");
    let es = e.as_slice();
    match last_occurrence_exec(es, sep.as_slice()) {
        Some(i) => {
            proof {
                crate::text::lemma_last_occurrence_below(es@, sep@, es@.len() + 1int);
            }
            let n = e.len();
            assert(i + sep@.len() <= n);
            slice_chars(e.as_slice(), i + sep.len(), n)
        },
        None => e,
    }
}

/// Convert a Rust type name to its bare name (`"Vec<Planet>"` → `"Planet"`).
pub fn base_type_name(rust_type: &str) -> (r: String)
    ensures
        r@ == base_name(rust_type@),
{
    let v = chars_of(rust_type);
    let b = base_name_chars(v.as_slice());
    string_of(b.as_slice())
}

/// Convert a Rust type name to a TypeScript Zod schema constant name.
///
/// `"Planet"`, `"Vec<Planet>"` and `"models::Planet"` all give `"PlanetSchema"`.
pub fn to_schema_name(rust_type: &str) -> (r: String)
    ensures
        r@ == schema_name(rust_type@),
{
    let v = chars_of(rust_type);
    let mut b = base_name_chars(v.as_slice());
    extend_str(&mut b, "Schema");
    string_of(b.as_slice())
}

// ---------------------------------------------------------------------------
// Type name → Zod expression
// ---------------------------------------------------------------------------

/// Integer type names, rendered as `z.number().int()`.
pub open spec fn integer_names() -> Seq<Seq<char>> {
    seq![
        "i8"@,
        "i16"@,
        "i32"@,
        "i64"@,
        "i128"@,
        "isize"@,
        "u8"@,
        "u16"@,
        "u32"@,
        "u64"@,
        "u128"@,
        "usize"@,
    ]
}

/// `t` has the form `{open}...>` with room for the inner type.
pub open spec fn is_wrapped(t: Seq<char>, open: Seq<char>) -> bool {
    has_prefix(t, open) && has_suffix(t, ">"@) && t.len() > open.len()
}

/// The inner text of `{open}...>`.
pub open spec fn wrapped_inner(t: Seq<char>, open: Seq<char>) -> Seq<char> {
    t.subrange(open.len() as int, t.len() - 1)
}

/// An element schema, or `z.unknown()` when it is empty.
pub open spec fn or_unknown(s: Seq<char>) -> Seq<char> {
    if s.len() == 0 {
        "z.unknown()"@
    } else {
        s
    }
}

pub proof fn lemma_remove_char_len(s: Seq<char>, c: char)
    ensures
        remove_char(s, c).len() <= s.len(),
    decreases s.len(),
{
    if s.len() > 0 {
        lemma_remove_char_len(s.drop_last(), c);
    }
}

/// The Zod schema for a Rust type name; empty for the unit type.
///
/// Spaces are ignored; `Result<T, E>` and `Json<T>` are unwrapped to `T`;
/// `Vec<T>` becomes `z.array(..)`; `Option<T>` becomes `.optional()`;
/// primitives map to their Zod types; other names refer to `{Name}Schema`.
pub open spec fn ts_schema(raw: Seq<char>) -> Seq<char>
    decreases raw.len(),
{
    let t = remove_char(raw, ' ');
    if t.len() == 0 || t == "()"@ {
        Seq::empty()
    } else if has_prefix(t, "Result<"@) && has_suffix(t, ">"@) && first_type_arg(t) is Some {
        proof {
            lemma_remove_char_len(raw, ' ');
            lemma_first_type_arg_shorter(t);
        }
        ts_schema(first_type_arg(t)->0)
    } else if is_wrapped(t, "Json<"@) {
        proof {
            lemma_remove_char_len(raw, ' ');
        }
        ts_schema(wrapped_inner(t, "Json<"@))
    } else if is_wrapped(t, "Vec<"@) {
        proof {
            lemma_remove_char_len(raw, ' ');
        }
        "z.array("@ + or_unknown(ts_schema(wrapped_inner(t, "Vec<"@))) + ")"@
    } else if is_wrapped(t, "Option<"@) {
        proof {
            lemma_remove_char_len(raw, ' ');
        }
        or_unknown(ts_schema(wrapped_inner(t, "Option<"@))) + ".optional()"@
    } else if t == "String"@ || t == "str"@ {
        "z.string()"@
    } else if integer_names().contains(t) {
        "z.number().int()"@
    } else if t == "f32"@ || t == "f64"@ {
        "z.number()"@
    } else if t == "bool"@ {
        "z.boolean()"@
    } else if t == "serde_json::Value"@ || t == "Value"@ {
        "z.any()"@
    } else {
        schema_name(t)
    }
}

/// Whether `t` has the form `{open}...>` with room for the inner type.
fn is_wrapped_exec(t: &[char], open: &str) -> (r: bool)
    ensures
        r == is_wrapped(t@, open@),
{
    let o = chars_of(open);
    str_starts_with(t, open) && str_ends_with(t, ">") && t.len() > o.len()
}

/// The Zod schema for the type name `raw`.
fn ts_schema_chars(raw: &[char]) -> (r: Vec<char>)
    ensures
        r@ == ts_schema(raw@),
    decreases raw@.len(),
{
    let t = remove_char_exec(raw, ' ');
    proof {
        lemma_remove_char_len(raw@, ' ');
    }
    let mut out: Vec<char> = Vec::new();
    if t.len() == 0 || eq_str(t.as_slice(), "()") {
        return out;
    }
    if str_starts_with(t.as_slice(), "Result<") && str_ends_with(t.as_slice(), ">") {
        proof {
            lemma_first_type_arg_shorter(t@);
        }
        match first_type_arg_chars(t.as_slice()) {
            Some(a) => {
                return ts_schema_chars(a.as_slice());
            },
            None => {},
        }
    }
    if is_wrapped_exec(t.as_slice(), "Json<") {
        let o = chars_of("Json<");
        let inner = slice_chars(t.as_slice(), o.len(), t.len() - 1);
        return ts_schema_chars(inner.as_slice());
    }
    if is_wrapped_exec(t.as_slice(), "Vec<") {
        let o = chars_of("Vec<");
        let inner = slice_chars(t.as_slice(), o.len(), t.len() - 1);
        let e = ts_schema_chars(inner.as_slice());
        extend_str(&mut out, "z.array(");
        if e.len() == 0 {
            extend_str(&mut out, "z.unknown()");
        } else {
            extend_chars(&mut out, e.as_slice());
        }
        extend_str(&mut out, ")");
        return out;
    }
    if is_wrapped_exec(t.as_slice(), "Option<") {
        let o = chars_of("Option<");
        let inner = slice_chars(t.as_slice(), o.len(), t.len() - 1);
        let e = ts_schema_chars(inner.as_slice());
        if e.len() == 0 {
            extend_str(&mut out, "z.unknown()");
        } else {
            extend_chars(&mut out, e.as_slice());
        }
        extend_str(&mut out, ".optional()");
        return out;
    }
    if eq_str(t.as_slice(), "String") || eq_str(t.as_slice(), "str") {
        extend_str(&mut out, "z.string()");
        return out;
    }
    let ints: [&str; 12] = [
        "i8",
        "i16",
        "i32",
        "i64",
        "i128",
        "isize",
        "u8",
        "u16",
        "u32",
        "u64",
        "u128",
        "usize",
    ];
    assert(ints@.map_values(|s: &str| s@) =~= integer_names());
    if is_one_of(t.as_slice(), ints.as_slice()) {
        extend_str(&mut out, "z.number().int()");
        return out;
    }
    if eq_str(t.as_slice(), "f32") || eq_str(t.as_slice(), "f64") {
        extend_str(&mut out, "z.number()");
        return out;
    }
    if eq_str(t.as_slice(), "bool") {
        extend_str(&mut out, "z.boolean()");
        return out;
    }
    if eq_str(t.as_slice(), "serde_json::Value") || eq_str(t.as_slice(), "Value") {
        extend_str(&mut out, "z.any()");
        return out;
    }
    let mut n = base_name_chars(t.as_slice());
    extend_str(&mut n, "Schema");
    n
}

/// Convert a Rust type name to a Zod schema expression.
///
/// `"Json<Vec<Planet>>"` gives `"z.array(PlanetSchema)"`; `"()"` gives `""`.
pub fn rust_type_to_ts_schema(rust_type: &str) -> (r: String)
    ensures
        r@ == ts_schema(rust_type@),
{
    let v = chars_of(rust_type);
    let s = ts_schema_chars(v.as_slice());
    string_of(s.as_slice())
}

// ---------------------------------------------------------------------------
// Imports and registered schemas
// ---------------------------------------------------------------------------

/// The import lines of a generated file.
pub open spec fn import_lines() -> Seq<Seq<char>> {
    seq![
        "import { z } from \"zod\";"@,
        "import { oc } from \"@orpc/contract\";"@,
        "import { openapi } from \"@orpc/openapi\";"@,
        "import { asyncIteratorObject } from \"@orpc/contract\";"@,
    ]
}

fn import_lines_exec() -> (r: Vec<Vec<char>>)
    ensures
        views(r@) == import_lines(),
{
    let mut r: Vec<Vec<char>> = Vec::new();
    r.push(chars_of("import { z } from \"zod\";"));
    r.push(chars_of("import { oc } from \"@orpc/contract\";"));
    r.push(chars_of("import { openapi } from \"@orpc/openapi\";"));
    r.push(chars_of("import { asyncIteratorObject } from \"@orpc/contract\";"));
    assert(views(r@) =~= import_lines());
    r
}

/// Generate standard TypeScript import block.
pub fn generate_imports() -> (r: String)
    ensures
        r@ == join(import_lines(), "\n"@),
{
    let lines = import_lines_exec();
    let j = join_chars(&lines, "\n");
    string_of(j.as_slice())
}

/// A line that imports something (its trimmed start is `import `).
pub open spec fn is_import_line(l: Seq<char>) -> bool {
    has_prefix(trim_start(l), "import "@)
}

/// The lines of `ls` that are not imports, in order.
pub open spec fn non_import_lines(ls: Seq<Seq<char>>) -> Seq<Seq<char>>
    decreases ls.len(),
{
    if ls.len() == 0 {
        Seq::empty()
    } else {
        let r = non_import_lines(ls.drop_last());
        if is_import_line(ls.last()) {
            r
        } else {
            r.push(ls.last())
        }
    }
}

/// A schema text without its import lines, trimmed.
pub open spec fn schema_body(z: Seq<char>) -> Seq<char> {
    trim(join(non_import_lines(lines_of(z)), "\n"@))
}

/// A fallback schema (one that mentions `z.unknown()`).
pub open spec fn is_fallback(z: Seq<char>) -> bool {
    contains_seq(z, "z.unknown()"@)
}

/// The bodies of the non-fallback schemas, empty ones left out, in order.
pub open spec fn real_schema_parts(ss: Seq<SchemaEntry>) -> Seq<Seq<char>>
    decreases ss.len(),
{
    if ss.len() == 0 {
        Seq::empty()
    } else {
        let r = real_schema_parts(ss.drop_last());
        let z = ss.last().zod_ts@;
        if !is_fallback(z) && schema_body(z).len() > 0 {
            r.push(schema_body(z))
        } else {
            r
        }
    }
}

/// The body of the schema text `z`.
fn schema_body_chars(z: &str) -> (r: Vec<char>)
    ensures
        r@ == schema_body(z@),
{
    let zv = chars_of(z);
    let ls = lines_chars(zv.as_slice());
    let ghost lv = lines_of(z@);
    let mut kept: Vec<Vec<char>> = Vec::new();
    let mut i: usize = 0;
    while i < ls.len()
        invariant
            i <= ls@.len(),
            views(ls@) == lv,
            views(kept@) == non_import_lines(lv.take(i as int)),
        decreases ls@.len() - i,
    {
        assert(lv.take(i + 1).drop_last() =~= lv.take(i as int));
        assert(lv.take(i + 1).last() == ls@[i as int]@);
        let t = trim_start_chars(ls[i].as_slice());
        if !str_starts_with(t.as_slice(), "import ") {
            let ghost before = views(kept@);
            let l = slice_chars(ls[i].as_slice(), 0, ls[i].len());
            assert(l@ =~= ls@[i as int]@);
            kept.push(l);
            assert(views(kept@) =~= before.push(ls@[i as int]@));
        }
        i = i + 1;
    }
    assert(lv.take(ls@.len() as int) =~= lv);
    let j = join_chars(&kept, "\n");
    trim_chars(j.as_slice())
}

/// Generate TypeScript from the registered schemas, skipping fallbacks
/// (schemas that mention `z.unknown()`) and their import lines.
pub fn generate_real_schemas(schemas: &[SchemaEntry]) -> (r: String)
    ensures
        r@ == join(real_schema_parts(schemas@), "\n\n"@),
{
    let mut parts: Vec<Vec<char>> = Vec::new();
    let mut i: usize = 0;
    while i < schemas.len()
        invariant
            i <= schemas@.len(),
            views(parts@) == real_schema_parts(schemas@.take(i as int)),
        decreases schemas@.len() - i,
    {
        assert(schemas@.take(i + 1).drop_last() =~= schemas@.take(i as int));
        assert(schemas@.take(i + 1).last() == schemas@[i as int]);
        let z = schemas[i].zod_ts.as_str();
        if !str_contains(z, "z.unknown()") {
            let b = schema_body_chars(z);
            if b.len() > 0 {
                let ghost before = views(parts@);
                parts.push(b);
                assert(views(parts@) =~= before.push(schema_body(schemas@[i as int].zod_ts@)));
            }
        }
        i = i + 1;
    }
    assert(schemas@.take(schemas@.len() as int) =~= schemas@);
    let j = join_chars(&parts, "\n\n");
    string_of(j.as_slice())
}

// ---------------------------------------------------------------------------
// Fields of a `z.object({..})` schema
// ---------------------------------------------------------------------------

/// The state of the field scanner over the body of `z.object({..})`.
pub struct FieldScan {
    /// Bracket nesting depth (`{`/`(` open, `}`/`)` close).
    pub depth: int,
    /// The text read since the last `:` or `,` at depth zero.
    pub field: Seq<char>,
    /// The name of the field being read.
    pub name: Seq<char>,
    /// Whether the scanner is reading a field name.
    pub in_name: bool,
    /// The completed `(name, definition)` pairs, in order.
    pub entries: Seq<(Seq<char>, Seq<char>)>,
}

/// The scanner before the first character.
pub open spec fn scan_start() -> FieldScan {
    FieldScan { depth: 0, field: Seq::empty(), name: Seq::empty(), in_name: true, entries: Seq::empty() }
}

/// One scanner step: a `:` at depth zero ends a name, a `,` at depth zero
/// ends a field (kept when it has a name); other characters are text.
pub open spec fn scan_step(st: FieldScan, ch: char) -> FieldScan {
    if ch == '{' || ch == '(' {
        FieldScan { depth: st.depth + 1, field: st.field.push(ch), ..st }
    } else if ch == '}' || ch == ')' {
        FieldScan { depth: st.depth - 1, field: st.field.push(ch), ..st }
    } else if ch == ':' && st.depth == 0 && st.in_name {
        FieldScan { name: trim(st.field), field: Seq::empty(), in_name: false, ..st }
    } else if ch == ',' && st.depth == 0 {
        FieldScan {
            entries: if st.name.len() > 0 {
                st.entries.push((st.name, trim(st.field)))
            } else {
                st.entries
            },
            field: Seq::empty(),
            name: Seq::empty(),
            in_name: true,
            ..st
        }
    } else {
        FieldScan { field: st.field.push(ch), ..st }
    }
}

/// The scanner after reading `s`.
pub open spec fn scan_fields(s: Seq<char>) -> FieldScan
    decreases s.len(),
{
    if s.len() == 0 {
        scan_start()
    } else {
        scan_step(scan_fields(s.drop_last()), s.last())
    }
}

/// The `(name, definition)` pairs of the object body `s`, in order.
pub open spec fn field_entries(s: Seq<char>) -> Seq<(Seq<char>, Seq<char>)> {
    let st = scan_fields(s);
    if st.name.len() > 0 {
        st.entries.push((st.name, trim(st.field)))
    } else {
        st.entries
    }
}

/// The map of a list of pairs, later pairs overriding earlier ones.
pub open spec fn map_of(es: Seq<(Seq<char>, Seq<char>)>) -> Map<Seq<char>, Seq<char>>
    decreases es.len(),
{
    if es.len() == 0 {
        Map::empty()
    } else {
        map_of(es.drop_last()).insert(es.last().0, es.last().1)
    }
}

/// The body between `z.object({` and `})` of a trimmed schema, if it has
/// that form.
pub open spec fn zod_object_body(t: Seq<char>) -> Option<Seq<char>> {
    if has_prefix(t, "z.object({"@) && has_suffix(t, "})"@) {
        Some(t.subrange(10, t.len() - 2))
    } else {
        None
    }
}

/// The fields of a `z.object({..})` schema: field names and their Zod
/// type definitions.
#[derive(Debug)]
pub struct ZodObjectFields {
    entries: Vec<(String, String)>,
}

impl ZodObjectFields {
    /// The stored pairs, in order.
    pub closed spec fn pairs(&self) -> Seq<(Seq<char>, Seq<char>)> {
        self.entries@.map_values(|e: (String, String)| (e.0@, e.1@))
    }

    /// The definition of the field `name`.
    pub fn get(&self, name: &str) -> (r: Option<&String>)
        ensures
            match r {
                Some(d) => self@.contains_key(name@) && self@[name@] == d@,
                None => !self@.contains_key(name@),
            },
    {
        let nv = chars_of(name);
        let ghost ps = self.pairs();
        let mut k: usize = self.entries.len();
        assert(ps.take(k as int) =~= ps);
        while k > 0
            invariant
                k <= self.entries@.len(),
                ps == self.pairs(),
                nv@ == name@,
                map_of(ps).contains_key(name@) == map_of(ps.take(k as int)).contains_key(name@),
                map_of(ps).contains_key(name@) ==> map_of(ps)[name@] == map_of(ps.take(
                    k as int,
                ))[name@],
            decreases k,
        {
            let e = &self.entries[k - 1];
            let ev = chars_of(e.0.as_str());
            assert(ps.take(k as int).drop_last() =~= ps.take(k - 1));
            assert(ps.take(k as int).last() == ps[k - 1]);
            assert(ps[k - 1] == (e.0@, e.1@));
            if crate::text::chars_eq(ev.as_slice(), nv.as_slice()) {
                return Some(&e.1);
            }
            k = k - 1;
        }
        None
    }
}

impl View for ZodObjectFields {
    type V = Map<Seq<char>, Seq<char>>;

    closed spec fn view(&self) -> Map<Seq<char>, Seq<char>> {
        map_of(self.pairs())
    }
}

/// Parse a Zod object schema string and extract field definitions.
///
/// Returns the field names with their Zod type definitions, or `None` if
/// the input is not a `z.object({..})` schema.
pub fn parse_zod_object_fields(schema: &str) -> (r: Option<ZodObjectFields>)
    ensures
        match zod_object_body(trim(schema@)) {
            None => r is None,
            Some(body) => r matches Some(f) && f@ == map_of(field_entries(body)),
        },
{
    let sv = chars_of(schema);
    let t = trim_chars(sv.as_slice());
    if !str_starts_with(t.as_slice(), "z.object({") || !str_ends_with(t.as_slice(), "})") {
        return None;
    }
    let n = t.len();
    proof {
        reveal_strlit("z.object({");
        reveal_strlit("})");
        let pre = "z.object({"@;
        let suf = "})"@;
        assert(pre.len() == 10 && suf.len() == 2);
        assert(t@.subrange(0, 10) == pre);
        assert(t@.subrange(n - 2, n as int) == suf);
        assert(t@[8] == pre[8] && t@[9] == pre[9]);
        assert(t@[n - 2] == suf[0]);
        assert(n >= 12);
    }
    let inner = slice_chars(t.as_slice(), 10, n - 2);
    let ghost body = inner@;
    let mut depth: i128 = 0;
    let mut field: Vec<char> = Vec::new();
    let mut name: Vec<char> = Vec::new();
    let mut in_name = true;
    let mut entries: Vec<(String, String)> = Vec::new();
    let mut i: usize = 0;
    assert(body.take(0) =~= Seq::<char>::empty());
    while i < inner.len()
        invariant
            i <= body.len(),
            body == inner@,
            -(i as int) <= depth <= i,
            ({
                let st = scan_fields(body.take(i as int));
                &&& depth == st.depth
                &&& field@ == st.field
                &&& name@ == st.name
                &&& in_name == st.in_name
                &&& entries@.map_values(|e: (String, String)| (e.0@, e.1@)) == st.entries
            }),
        decreases body.len() - i,
    {
        let ch = inner[i];
        let ghost st = scan_fields(body.take(i as int));
        assert(body.take(i + 1).drop_last() =~= body.take(i as int));
        assert(body.take(i + 1).last() == ch);
        if ch == '{' || ch == '(' {
            depth = depth + 1;
            field.push(ch);
        } else if ch == '}' || ch == ')' {
            depth = depth - 1;
            field.push(ch);
        } else if ch == ':' && depth == 0 && in_name {
            name = trim_chars(field.as_slice());
            field = Vec::new();
            in_name = false;
        } else if ch == ',' && depth == 0 {
            if name.len() > 0 {
                let ghost before = entries@.map_values(|e: (String, String)| (e.0@, e.1@));
                let d = trim_chars(field.as_slice());
                let pair = (string_of(name.as_slice()), string_of(d.as_slice()));
                entries.push(pair);
                assert(entries@.map_values(|e: (String, String)| (e.0@, e.1@)) =~= before.push(
                    (st.name, trim(st.field)),
                ));
            }
            field = Vec::new();
            name = Vec::new();
            in_name = true;
        } else {
            field.push(ch);
        }
        i = i + 1;
    }
    assert(body.take(body.len() as int) =~= body);
    if name.len() > 0 {
        let ghost before = entries@.map_values(|e: (String, String)| (e.0@, e.1@));
        let d = trim_chars(field.as_slice());
        let pair = (string_of(name.as_slice()), string_of(d.as_slice()));
        entries.push(pair);
        let ghost st = scan_fields(body);
        assert(entries@.map_values(|e: (String, String)| (e.0@, e.1@)) =~= before.push(
            (st.name, trim(st.field)),
        ));
    }
    let f = ZodObjectFields { entries };
    assert(f.pairs() == field_entries(body));
    Some(f)
}

// ---------------------------------------------------------------------------
// Placeholder schemas for handler types
// ---------------------------------------------------------------------------

/// Whether `t` needs no schema: with `full`, by `is_primitive_type_name`;
/// otherwise by `is_primitive`.
pub open spec fn primitive_in(t: Seq<char>, full: bool) -> bool {
    if full {
        primitive_type_names().contains(t)
    } else {
        basic_primitive_names().contains(t)
    }
}

/// The non-primitive input and output type names of the handlers.
pub open spec fn handler_types(hs: Seq<HandlerInfo>, full: bool) -> Set<Seq<char>> {
    Set::new(
        |t: Seq<char>|
            !primitive_in(t, full) && exists|i: int|
                0 <= i < hs.len() && (#[trigger] hs[i].input_type_name@ == t
                    || hs[i].output_type_name@ == t),
    )
}

/// The sorted non-primitive input and output type names of the handlers.
fn handler_types_sorted(handlers: &[HandlerInfo], full: bool) -> (r: Vec<Vec<char>>)
    ensures
        sorted_strict(views(r@)),
        views(r@) == sorted_list(handler_types(handlers@, full)),
{
    let mut sorted: Vec<Vec<char>> = Vec::new();
    let mut i: usize = 0;
    assert(handler_types(handlers@.take(0), full) =~= Set::<Seq<char>>::empty());
    while i < handlers.len()
        invariant
            i <= handlers@.len(),
            sorted_strict(views(sorted@)),
            views(sorted@).to_set() == handler_types(handlers@.take(i as int), full),
        decreases handlers@.len() - i,
    {
        let h = &handlers[i];
        let ghost hs0 = handlers@.take(i as int);
        let ghost hs1 = handlers@.take(i + 1);
        let ghost a = h.input_type_name@;
        let ghost b = h.output_type_name@;
        let pa = if full {
            is_primitive_type_name(h.input_type_name)
        } else {
            is_primitive(h.input_type_name)
        };
        let pb = if full {
            is_primitive_type_name(h.output_type_name)
        } else {
            is_primitive(h.output_type_name)
        };
        if !pa {
            insert_sorted(&mut sorted, chars_of(h.input_type_name));
        }
        if !pb {
            insert_sorted(&mut sorted, chars_of(h.output_type_name));
        }
        proof {
            let old_set = handler_types(hs0, full);
            let grown = if !pa && !pb {
                old_set.insert(a).insert(b)
            } else if !pa {
                old_set.insert(a)
            } else if !pb {
                old_set.insert(b)
            } else {
                old_set
            };
            assert(hs1[i as int] == handlers@[i as int]);
            assert forall|x: Seq<char>| handler_types(hs1, full).contains(x) implies grown.contains(
                x,
            ) by {
                let k = choose|k: int|
                    0 <= k < hs1.len() && (#[trigger] hs1[k].input_type_name@ == x
                        || hs1[k].output_type_name@ == x);
                if k < i {
                    assert(hs0[k] == hs1[k]);
                }
            }
            assert forall|x: Seq<char>| grown.contains(x) implies handler_types(
                hs1,
                full,
            ).contains(x) by {
                if old_set.contains(x) {
                    let k = choose|k: int|
                        0 <= k < hs0.len() && (#[trigger] hs0[k].input_type_name@ == x
                            || hs0[k].output_type_name@ == x);
                    assert(hs1[k] == hs0[k]);
                } else {
                    assert(hs1[i as int].input_type_name@ == a);
                    assert(hs1[i as int].output_type_name@ == b);
                }
            }
            assert(handler_types(hs1, full) =~= grown);
        }
        i = i + 1;
    }
    assert(handlers@.take(handlers@.len() as int) =~= handlers@);
    proof {
        lemma_sorted_list_is(views(sorted@), handler_types(handlers@, full));
    }
    sorted
}

/// The header of the placeholder block.
pub open spec fn placeholder_header() -> Seq<Seq<char>> {
    seq![
        "// \u{26a0}\u{fe0f}  Placeholder schemas \u{2014} add #[derive(ZodTs)] to your types for real schemas"@,
        Seq::empty(),
    ]
}

/// The placeholder lines of one type name.
pub open spec fn placeholder_entry(t: Seq<char>) -> Seq<Seq<char>> {
    seq![
        "// TODO: add #[derive(ZodTs)] to "@ + base_name(t) + " in Rust"@,
        "export const "@ + schema_name(t) + " = z.unknown(); // "@ + t,
        "export type "@ + base_name(t) + " = z.infer<typeof "@ + schema_name(t) + ">;"@,
        Seq::empty(),
    ]
}

/// The placeholder lines of the type names `ts`, in order.
pub open spec fn placeholder_entries(ts: Seq<Seq<char>>) -> Seq<Seq<char>>
    decreases ts.len(),
{
    if ts.len() == 0 {
        Seq::empty()
    } else {
        placeholder_entries(ts.drop_last()) + placeholder_entry(ts.last())
    }
}

/// The placeholder block for the type names `ts`; empty when there are none.
pub open spec fn placeholder_text(ts: Seq<Seq<char>>) -> Seq<char> {
    if ts.len() == 0 {
        Seq::empty()
    } else {
        join(placeholder_header() + placeholder_entries(ts), "\n"@)
    }
}

/// The placeholder block for the type names in `ts`.
pub fn placeholder_text_chars(ts: &Vec<Vec<char>>) -> (r: Vec<char>)
    ensures
        r@ == placeholder_text(views(ts@)),
{
    if ts.len() == 0 {
        return Vec::new();
    }
    let ghost tv = views(ts@);
    let mut lines: Vec<Vec<char>> = Vec::new();
    lines.push(
        chars_of(
            "// \u{26a0}\u{fe0f}  Placeholder schemas \u{2014} add #[derive(ZodTs)] to your types for real schemas",
        ),
    );
    lines.push(Vec::new());
    let mut k: usize = 0;
    assert(tv.take(0) =~= Seq::<Seq<char>>::empty());
    assert(views(lines@) =~= placeholder_header() + placeholder_entries(tv.take(0)));
    while k < ts.len()
        invariant
            k <= ts@.len(),
            tv == views(ts@),
            views(lines@) == placeholder_header() + placeholder_entries(tv.take(k as int)),
        decreases ts@.len() - k,
    {
        let ghost before = views(lines@);
        let ghost t = tv[k as int];
        assert(tv.take(k + 1).drop_last() =~= tv.take(k as int));
        assert(tv.take(k + 1).last() == t);
        let name = string_of(ts[k].as_slice());
        let schema = to_schema_name(name.as_str());
        let base = base_type_name(name.as_str());
        let mut l1: Vec<char> = Vec::new();
        extend_str(&mut l1, "// TODO: add #[derive(ZodTs)] to ");
        extend_str(&mut l1, base.as_str());
        extend_str(&mut l1, " in Rust");
        let mut l2: Vec<char> = Vec::new();
        extend_str(&mut l2, "export const ");
        extend_str(&mut l2, schema.as_str());
        extend_str(&mut l2, " = z.unknown(); // ");
        extend_str(&mut l2, name.as_str());
        let mut l3: Vec<char> = Vec::new();
        extend_str(&mut l3, "export type ");
        extend_str(&mut l3, base.as_str());
        extend_str(&mut l3, " = z.infer<typeof ");
        extend_str(&mut l3, schema.as_str());
        extend_str(&mut l3, ">;");
        lines.push(l1);
        lines.push(l2);
        lines.push(l3);
        lines.push(Vec::new());
        assert(views(lines@) =~= before + placeholder_entry(t));
        k = k + 1;
    }
    assert(tv.take(ts@.len() as int) =~= tv);
    join_chars(&lines, "\n")
}

/// Fallback: generate placeholder schemas from handler type names.
pub fn generate_placeholder_schemas(handlers: &[HandlerInfo]) -> (r: String)
    ensures
        r@ == placeholder_text(sorted_list(handler_types(handlers@, true))),
{
    let ts = handler_types_sorted(handlers, true);
    let t = placeholder_text_chars(&ts);
    string_of(t.as_slice())
}

/// The declaration lines of one type name in `generate_schemas`.
pub open spec fn declaration_entry(t: Seq<char>) -> Seq<Seq<char>> {
    seq![
        "// TODO: replace with #[derive(ZodTs)] output for "@ + t,
        "export const "@ + schema_name(t) + " = z.unknown(); // "@ + t,
        "export type "@ + t + " = z.infer<typeof "@ + schema_name(t) + ">;"@,
        Seq::empty(),
    ]
}

/// The declaration lines of the type names `ts`, in order.
pub open spec fn declaration_entries(ts: Seq<Seq<char>>) -> Seq<Seq<char>>
    decreases ts.len(),
{
    if ts.len() == 0 {
        Seq::empty()
    } else {
        declaration_entries(ts.drop_last()) + declaration_entry(ts.last())
    }
}

/// Generate Zod schema imports and declarations for all types seen across handlers.
pub fn generate_schemas(handlers: &[HandlerInfo]) -> (r: String)
    ensures
        r@ == join(
            import_lines() + seq![Seq::empty()] + declaration_entries(
                sorted_list(handler_types(handlers@, false)),
            ),
            "\n"@,
        ),
{
    let ts = handler_types_sorted(handlers, false);
    let ghost tv = views(ts@);
    let mut lines = import_lines_exec();
    lines.push(Vec::new());
    let ghost head = import_lines() + seq![Seq::<char>::empty()];
    let mut k: usize = 0;
    assert(tv.take(0) =~= Seq::<Seq<char>>::empty());
    assert(views(lines@) =~= head + declaration_entries(tv.take(0)));
    while k < ts.len()
        invariant
            k <= ts@.len(),
            tv == views(ts@),
            head == import_lines() + seq![Seq::<char>::empty()],
            views(lines@) == head + declaration_entries(tv.take(k as int)),
        decreases ts@.len() - k,
    {
        let ghost before = views(lines@);
        let ghost t = tv[k as int];
        assert(tv.take(k + 1).drop_last() =~= tv.take(k as int));
        assert(tv.take(k + 1).last() == t);
        let name = string_of(ts[k].as_slice());
        let schema = to_schema_name(name.as_str());
        let mut l1: Vec<char> = Vec::new();
        extend_str(&mut l1, "// TODO: replace with #[derive(ZodTs)] output for ");
        extend_str(&mut l1, name.as_str());
        let mut l2: Vec<char> = Vec::new();
        extend_str(&mut l2, "export const ");
        extend_str(&mut l2, schema.as_str());
        extend_str(&mut l2, " = z.unknown(); // ");
        extend_str(&mut l2, name.as_str());
        let mut l3: Vec<char> = Vec::new();
        extend_str(&mut l3, "export type ");
        extend_str(&mut l3, name.as_str());
        extend_str(&mut l3, " = z.infer<typeof ");
        extend_str(&mut l3, schema.as_str());
        extend_str(&mut l3, ">;");
        lines.push(l1);
        lines.push(l2);
        lines.push(l3);
        lines.push(Vec::new());
        assert(views(lines@) =~= before + declaration_entry(t));
        k = k + 1;
    }
    assert(tv.take(ts@.len() as int) =~= tv);
    let j = join_chars(&lines, "\n");
    string_of(j.as_slice())
}

} // verus!
