//! The `export const contract = { ... } as const` TypeScript object, with
//! handlers grouped by the first segment of their path.

use super::typescript::{ts_schema, rust_type_to_ts_schema};
use super::{ErrorInfo, ErrorVariantInfo, HandlerInfo, SchemaEntry};
use crate::openapi::texts;
use crate::order::{insert_sorted, lemma_sorted_list_is, sorted_list, sorted_strict, views};
use crate::text::{
    ascii_upper, ascii_upper_exec, chars_of, extend_chars, extend_str, find_char, first_index_of,
    join, join_chars, lemma_first_index_of, lemma_split_on_nonempty, slice_chars, split_chars,
    split_on, string_of, strip_char_start, strip_char_start_chars,
};
use vstd::prelude::*;

verus! {

// ---------------------------------------------------------------------------
// Handler keys and namespaces
// ---------------------------------------------------------------------------

/// camelCase conversion of the rest `s` of a snake_case name; `cap` says
/// whether the next kept character is upper-cased.
pub open spec fn camel_from(s: Seq<char>, cap: bool) -> Seq<char>
    decreases s.len(),
{
    if s.len() == 0 {
        Seq::empty()
    } else if s[0] == '_' {
        camel_from(s.drop_first(), true)
    } else if cap {
        seq![ascii_upper(s[0])] + camel_from(s.drop_first(), false)
    } else {
        seq![s[0]] + camel_from(s.drop_first(), false)
    }
}

/// The TypeScript key of a handler: `"list_planets"` → `"listPlanets"`.
pub open spec fn camel_key(name: Seq<char>) -> Seq<char> {
    camel_from(name, false)
}

/// The namespace of a path: its first segment when the path (without
/// leading slashes) has more than one segment, else empty.
pub open spec fn namespace_of(path: Seq<char>) -> Seq<char> {
    let s = strip_char_start(path, '/');
    match first_index_of(s, '/') {
        Some(k) => s.take(k),
        None => Seq::empty(),
    }
}

/// `"list_planets"` → `"listPlanets"`
pub fn handler_key(name: &str) -> (r: String)
    ensures
        r@ == camel_key(name@),
{
    let v = chars_of(name);
    let mut out: Vec<char> = Vec::new();
    let mut cap = false;
    let mut i: usize = 0;
    assert(v@.skip(0) =~= v@);
    while i < v.len()
        invariant
            i <= v@.len(),
            camel_key(v@) == out@ + camel_from(v@.skip(i as int), cap),
        decreases v@.len() - i,
    {
        let c = v[i];
        assert(v@.skip(i as int)[0] == c);
        assert(v@.skip(i as int).drop_first() =~= v@.skip(i + 1));
        if c == '_' {
            cap = true;
        } else if cap {
            out.push(ascii_upper_exec(c));
            cap = false;
        } else {
            out.push(c);
        }
        i = i + 1;
    }
    assert(v@.skip(i as int) =~= Seq::<char>::empty());
    assert(out@ + Seq::<char>::empty() =~= out@);
    string_of(out.as_slice())
}

/// The namespace of the path `v`.
fn namespace_chars(v: &[char]) -> (r: Vec<char>)
    ensures
        r@ == namespace_of(v@),
{
    let s = strip_char_start_chars(v, '/');
    match find_char(s.as_slice(), '/') {
        Some(k) => {
            proof {
                lemma_first_index_of(s@, '/');
            }
            slice_chars(s.as_slice(), 0, k)
        },
        None => Vec::new(),
    }
}

/// `"/planet/list"` → `"planet"`, `"/ping"` → `""`
pub fn extract_namespace(path: &str) -> (r: String)
    ensures
        r@ == namespace_of(path@),
{
    let v = chars_of(path);
    let n = namespace_chars(v.as_slice());
    string_of(n.as_slice())
}

// ---------------------------------------------------------------------------
// Path parameters
// ---------------------------------------------------------------------------

/// The parameter named by the text between braces, if it is not empty;
/// a catch-all `+` prefix is dropped.
pub open spec fn param_item(n: Seq<char>) -> Seq<Seq<char>> {
    if n.len() > 0 {
        seq![strip_char_start(n, '+')]
    } else {
        Seq::empty()
    }
}

/// The parameter names in a path template, in order.
pub open spec fn path_params_of(s: Seq<char>) -> Seq<Seq<char>>
    decreases s.len(),
{
    match first_index_of(s, '{') {
        None => Seq::empty(),
        Some(k) => {
            let rest = s.skip(k + 1);
            match first_index_of(rest, '}') {
                Some(e) => {
                    proof {
                        lemma_first_index_of(s, '{');
                        lemma_first_index_of(rest, '}');
                    }
                    param_item(rest.take(e)) + path_params_of(rest.skip(e + 1))
                },
                None => param_item(rest),
            }
        },
    }
}

/// The parameter names of the path template `v`.
fn path_params_chars(v: &[char]) -> (r: Vec<Vec<char>>)
    ensures
        views(r@) == path_params_of(v@),
{
    let mut out: Vec<Vec<char>> = Vec::new();
    let mut rest = slice_chars(v, 0, v.len());
    assert(rest@ =~= v@);
    loop
        invariant
            path_params_of(v@) == views(out@) + path_params_of(rest@),
        decreases rest@.len(),
    {
        proof {
            lemma_first_index_of(rest@, '{');
        }
        match find_char(rest.as_slice(), '{') {
            None => {
                assert(views(out@) + Seq::<Seq<char>>::empty() =~= views(out@));
                return out;
            },
            Some(k) => {
                let n = rest.len();
                assert(k < n);
                let after = slice_chars(rest.as_slice(), k + 1, n);
                assert(after@ =~= rest@.skip(k + 1));
                proof {
                    lemma_first_index_of(after@, '}');
                }
                match find_char(after.as_slice(), '}') {
                    None => {
                        let ghost before = views(out@);
                        if after.len() > 0 {
                            let p = strip_char_start_chars(after.as_slice(), '+');
                            out.push(p);
                            assert(views(out@) =~= before + param_item(after@));
                        } else {
                            assert(views(out@) =~= before + param_item(after@));
                        }
                        return out;
                    },
                    Some(e) => {
                        let name = slice_chars(after.as_slice(), 0, e);
                        let ghost before = views(out@);
                        assert(name@ =~= after@.take(e as int));
                        if name.len() > 0 {
                            let p = strip_char_start_chars(name.as_slice(), '+');
                            out.push(p);
                            assert(views(out@) =~= before + param_item(name@));
                        } else {
                            assert(views(out@) =~= before + param_item(name@));
                        }
                        let an = after.len();
                        assert(e < an);
                        let next = slice_chars(after.as_slice(), e + 1, an);
                        assert(next@ =~= after@.skip(e + 1));
                        assert(path_params_of(rest@) == param_item(name@) + path_params_of(
                            next@,
                        ));
                        assert(views(out@) + path_params_of(next@) =~= before + (param_item(
                            name@,
                        ) + path_params_of(next@)));
                        rest = next;
                    },
                }
            },
        }
    }
}

/// Extract path parameter names from a path template.
///
/// `"/workspace/{wsId}/project/{projId}"` gives `["wsId", "projId"]`;
/// `"/files/{+path}"` gives `["path"]`.
pub fn extract_path_params(path: &str) -> (r: Vec<String>)
    ensures
        texts(r@) == path_params_of(path@),
{
    let v = chars_of(path);
    let ps = path_params_chars(v.as_slice());
    let mut out: Vec<String> = Vec::new();
    let mut i: usize = 0;
    while i < ps.len()
        invariant
            i <= ps@.len(),
            texts(out@) == views(ps@).take(i as int),
        decreases ps@.len() - i,
    {
        let s = string_of(ps[i].as_slice());
        let ghost o = out@;
        out.push(s);
        proof {
            assert(texts(o).len() == i);
            assert(o.len() == i);
            assert(out@ == o.push(s));
            assert(s@ == views(ps@)[i as int]);
            assert(texts(out@)[i as int] == s@);
            assert forall|j: int| 0 <= j < i + 1 implies #[trigger] texts(out@)[j] == views(
                ps@,
            ).take(i + 1)[j] by {
                if j < i {
                    assert(texts(o)[j] == views(ps@).take(i as int)[j]);
                }
            }
            assert(texts(out@) =~= views(ps@).take(i + 1));
        }
        i = i + 1;
    }
    assert(views(ps@).take(ps@.len() as int) =~= views(ps@));
    out
}

// ---------------------------------------------------------------------------
// Path parameters merged into the input schema
// ---------------------------------------------------------------------------

/// A Zod expression, or `z.string()` when it is empty.
pub open spec fn or_string(s: Seq<char>) -> Seq<char> {
    if s.len() == 0 {
        "z.string()"@
    } else {
        s
    }
}

/// The Rust types of the path parameters, from their comma-separated list.
pub open spec fn param_types_of(pts: Seq<char>) -> Seq<Seq<char>> {
    if pts.len() == 0 {
        Seq::empty()
    } else {
        split_on(pts, ',')
    }
}

/// The Rust type of the `i`-th path parameter; `String` when not given.
pub open spec fn param_type_at(types: Seq<Seq<char>>, i: int) -> Seq<char> {
    if i < types.len() {
        types[i]
    } else {
        "String"@
    }
}

/// `name: <zod type>` for each path parameter.
pub open spec fn param_fields(params: Seq<Seq<char>>, types: Seq<Seq<char>>) -> Seq<Seq<char>> {
    Seq::new(
        params.len(),
        |i: int| params[i] + ": "@ + or_string(ts_schema(param_type_at(types, i))),
    )
}

/// The input schema with the path parameters merged in via `.extend(..)`.
pub open spec fn merged_input_schema(path: Seq<char>, query: Seq<char>, pts: Seq<char>) -> Seq<
    char,
> {
    let ps = path_params_of(path);
    if ps.len() == 0 {
        query
    } else {
        "z.object({ "@ + join(param_fields(ps, param_types_of(pts)), ", "@) + " }).extend("@
            + query + ".shape)"@
    }
}

/// The merged input schema for the path `path`.
fn merge_chars(path: &str, query: &[char], pts: &str) -> (r: Vec<char>)
    ensures
        r@ == merged_input_schema(path@, query@, pts@),
{
    let pv = chars_of(path);
    let params = path_params_chars(pv.as_slice());
    if params.len() == 0 {
        return slice_chars(query, 0, query.len());
    }
    let ptv = chars_of(pts);
    let types: Vec<Vec<char>> = if ptv.len() == 0 {
        Vec::new()
    } else {
        split_chars(ptv.as_slice(), ',')
    };
    assert(views(types@) =~= param_types_of(pts@));
    let ghost pf = param_fields(views(params@), views(types@));
    let mut fields: Vec<Vec<char>> = Vec::new();
    let mut i: usize = 0;
    while i < params.len()
        invariant
            i <= params@.len(),
            pf == param_fields(views(params@), views(types@)),
            views(fields@) == pf.take(i as int),
        decreases params@.len() - i,
    {
        let mut f: Vec<char> = Vec::new();
        extend_chars(&mut f, params[i].as_slice());
        extend_str(&mut f, ": ");
        let z = if i < types.len() {
            ts_schema_text(types[i].as_slice())
        } else {
            let st = chars_of("String");
            ts_schema_text(st.as_slice())
        };
        if z.len() == 0 {
            extend_str(&mut f, "z.string()");
        } else {
            extend_chars(&mut f, z.as_slice());
        }
        let ghost o = views(fields@);
        fields.push(f);
        assert(views(fields@) =~= o.push(pf[i as int]));
        assert(pf.take(i + 1) =~= pf.take(i as int).push(pf[i as int]));
        i = i + 1;
    }
    assert(pf.take(params@.len() as int) =~= pf);
    let mut out: Vec<char> = Vec::new();
    extend_str(&mut out, "z.object({ ");
    let joined = join_chars(&fields, ", ");
    extend_chars(&mut out, joined.as_slice());
    extend_str(&mut out, " }).extend(");
    extend_chars(&mut out, query);
    extend_str(&mut out, ".shape)");
    out
}

/// The Zod schema of the type name `t`.
fn ts_schema_text(t: &[char]) -> (r: Vec<char>)
    ensures
        r@ == ts_schema(t@),
{
    let s = string_of(t);
    let z = rust_type_to_ts_schema(s.as_str());
    chars_of(z.as_str())
}

/// Merge path parameters into the query schema using Zod's `.extend()`.
///
/// Without path parameters the query schema is returned unchanged.
pub fn merge_path_and_query_schema(
    path: &str,
    query_schema: &str,
    path_param_types: &str,
    _schemas: &[SchemaEntry],
) -> (r: String)
    ensures
        r@ == merged_input_schema(path@, query_schema@, path_param_types@),
{
    let q = chars_of(query_schema);
    let m = merge_chars(path, q.as_slice(), path_param_types);
    string_of(m.as_slice())
}

// ---------------------------------------------------------------------------
// Procedure entries
// ---------------------------------------------------------------------------

/// The last registered error type named `name` (later registrations win).
pub open spec fn error_named(errors: Seq<ErrorInfo>, name: Seq<char>) -> Option<ErrorInfo>
    decreases errors.len(),
{
    if errors.len() == 0 {
        None
    } else if errors.last().rust_type@ == name {
        Some(errors.last())
    } else {
        error_named(errors.drop_last(), name)
    }
}

/// The `.errors({...})` entry of one variant.
pub open spec fn variant_entry(v: ErrorVariantInfo) -> Seq<char> {
    match v.data_schema {
        Some(schema) => "        "@ + v.name@ + ": {\n          data: "@ + schema@
            + "\n        }"@,
        None => "        "@ + v.name@ + ": {}"@,
    }
}

/// The entries of all variants of an error type.
pub open spec fn variant_entries(vs: Seq<ErrorVariantInfo>) -> Seq<Seq<char>> {
    Seq::new(vs.len(), |i: int| variant_entry(vs[i]))
}

/// The `.input(..)` part of a procedure entry.
pub open spec fn input_part(h: HandlerInfo) -> Seq<char> {
    let ty_name = match h.query_type_name {
        Some(q) => q@,
        None => h.input_type_name@,
    };
    let schema = ts_schema(ty_name);
    if schema.len() == 0 {
        Seq::empty()
    } else {
        "\n      .input("@ + merged_input_schema(h.path@, schema, h.path_param_types@) + ")"@
    }
}

/// The `.output(..)` part of a procedure entry.
pub open spec fn output_part(h: HandlerInfo) -> Seq<char> {
    let schema = match h.stream_event_type_name {
        Some(e) => "asyncIteratorObject("@ + e@ + "Schema)"@,
        None => ts_schema(h.output_type_name@),
    };
    if schema.len() == 0 {
        Seq::empty()
    } else {
        "\n      .output("@ + schema + ")"@
    }
}

/// The `.errors({..})` part of a procedure entry.
pub open spec fn errors_part(h: HandlerInfo, errors: Seq<ErrorInfo>) -> Seq<char> {
    match h.error_type_name {
        None => Seq::empty(),
        Some(name) => match error_named(errors, name@) {
            None => Seq::empty(),
            Some(info) => {
                let entries = variant_entries(info.variants@);
                if entries.len() == 0 {
                    Seq::empty()
                } else {
                    "\n      .errors({\n"@ + join(entries, ",\n"@) + "\n      })"@
                }
            },
        },
    }
}

/// The contract entry of one handler.
pub open spec fn procedure_entry(h: HandlerInfo, errors: Seq<ErrorInfo>) -> Seq<char> {
    camel_key(h.name@) + ": oc\n      .meta(openapi({ method: \""@ + h.method@ + "\", path: \""@
        + h.path@ + "\" }))"@ + input_part(h) + output_part(h) + errors_part(h, errors)
}

/// The index of the last error type named `name`.
fn find_error(errors: &[ErrorInfo], name: &str) -> (r: Option<usize>)
    ensures
        match r {
            Some(i) => i < errors@.len() && error_named(errors@, name@) == Some(errors@[i as int]),
            None => error_named(errors@, name@) is None,
        },
{
    let nv = chars_of(name);
    let mut k: usize = errors.len();
    assert(errors@.take(k as int) =~= errors@);
    while k > 0
        invariant
            k <= errors@.len(),
            nv@ == name@,
            error_named(errors@, name@) == error_named(errors@.take(k as int), name@),
        decreases k,
    {
        let t = chars_of(errors[k - 1].rust_type);
        assert(errors@.take(k as int).last() == errors@[k - 1]);
        if crate::text::chars_eq(t.as_slice(), nv.as_slice()) {
            return Some(k - 1);
        }
        assert(errors@.take(k as int).drop_last() =~= errors@.take(k - 1));
        k = k - 1;
    }
    None
}

/// The `.errors({..})` part for `h`.
fn errors_part_chars(h: &HandlerInfo, errors: &[ErrorInfo]) -> (r: Vec<char>)
    ensures
        r@ == errors_part(*h, errors@),
{
    let mut out: Vec<char> = Vec::new();
    let name = match h.error_type_name {
        None => {
            return out;
        },
        Some(n) => n,
    };
    let idx = match find_error(errors, name) {
        None => {
            return out;
        },
        Some(i) => i,
    };
    let info = &errors[idx];
    let ghost ents = variant_entries(info.variants@);
    let mut entries: Vec<Vec<char>> = Vec::new();
    let mut i: usize = 0;
    while i < info.variants.len()
        invariant
            i <= info.variants@.len(),
            ents == variant_entries(info.variants@),
            views(entries@) == ents.take(i as int),
        decreases info.variants@.len() - i,
    {
        let v = &info.variants[i];
        let mut e: Vec<char> = Vec::new();
        extend_str(&mut e, "        ");
        extend_str(&mut e, v.name);
        match v.data_schema {
            Some(schema) => {
                extend_str(&mut e, ": {\n          data: ");
                extend_str(&mut e, schema);
                extend_str(&mut e, "\n        }");
            },
            None => {
                extend_str(&mut e, ": {}");
            },
        }
        let ghost o = views(entries@);
        entries.push(e);
        assert(views(entries@) =~= o.push(ents[i as int]));
        assert(ents.take(i + 1) =~= ents.take(i as int).push(ents[i as int]));
        i = i + 1;
    }
    assert(ents.take(info.variants@.len() as int) =~= ents);
    if entries.len() == 0 {
        return out;
    }
    extend_str(&mut out, "\n      .errors({\n");
    let joined = join_chars(&entries, ",\n");
    extend_chars(&mut out, joined.as_slice());
    extend_str(&mut out, "\n      })");
    out
}

/// The contract entry of `h`.
fn procedure_entry_chars(h: &HandlerInfo, errors: &[ErrorInfo]) -> (r: Vec<char>)
    ensures
        r@ == procedure_entry(*h, errors@),
{
    let key = handler_key(h.name);
    let mut out = chars_of(key.as_str());
    extend_str(&mut out, ": oc\n      .meta(openapi({ method: \"");
    extend_str(&mut out, h.method);
    extend_str(&mut out, "\", path: \"");
    extend_str(&mut out, h.path);
    extend_str(&mut out, "\" }))");
    let ty_name = match h.query_type_name {
        Some(q) => q,
        None => h.input_type_name,
    };
    let schema = rust_type_to_ts_schema(ty_name);
    let sv = chars_of(schema.as_str());
    if sv.len() > 0 {
        let merged = merge_chars(h.path, sv.as_slice(), h.path_param_types);
        extend_str(&mut out, "\n      .input(");
        extend_chars(&mut out, merged.as_slice());
        extend_str(&mut out, ")");
    }
    let mut osch: Vec<char> = Vec::new();
    match h.stream_event_type_name {
        Some(e) => {
            extend_str(&mut osch, "asyncIteratorObject(");
            extend_str(&mut osch, e);
            extend_str(&mut osch, "Schema)");
        },
        None => {
            let z = rust_type_to_ts_schema(h.output_type_name);
            osch = chars_of(z.as_str());
        },
    }
    if osch.len() > 0 {
        extend_str(&mut out, "\n      .output(");
        extend_chars(&mut out, osch.as_slice());
        extend_str(&mut out, ")");
    }
    let ep = errors_part_chars(h, errors);
    extend_chars(&mut out, ep.as_slice());
    out
}

// ---------------------------------------------------------------------------
// The contract object
// ---------------------------------------------------------------------------

/// The set of namespaces of the handlers.
pub open spec fn namespaces(hs: Seq<HandlerInfo>) -> Set<Seq<char>> {
    Set::new(|n: Seq<char>| exists|i: int| 0 <= i < hs.len() && namespace_of(hs[i].path@) == n)
}

/// The lines of the handlers in namespace `ns`, in order, each with `indent`.
pub open spec fn member_lines(
    hs: Seq<HandlerInfo>,
    ns: Seq<char>,
    errors: Seq<ErrorInfo>,
    indent: Seq<char>,
) -> Seq<Seq<char>>
    decreases hs.len(),
{
    if hs.len() == 0 {
        Seq::empty()
    } else {
        let r = member_lines(hs.drop_last(), ns, errors, indent);
        if namespace_of(hs.last().path@) == ns {
            r.push(indent + procedure_entry(hs.last(), errors) + ","@)
        } else {
            r
        }
    }
}

/// The lines of one namespace: root-level entries for the empty namespace,
/// a nested object otherwise.
pub open spec fn namespace_block(hs: Seq<HandlerInfo>, ns: Seq<char>, errors: Seq<ErrorInfo>) -> Seq<
    Seq<char>,
> {
    if ns.len() == 0 {
        member_lines(hs, ns, errors, "  "@)
    } else {
        seq!["  "@ + ns + ": {"@] + member_lines(hs, ns, errors, "    "@) + seq!["  },"@]
    }
}

/// The blocks of the namespaces `nss`, in order.
pub open spec fn namespace_blocks(
    hs: Seq<HandlerInfo>,
    nss: Seq<Seq<char>>,
    errors: Seq<ErrorInfo>,
) -> Seq<Seq<char>>
    decreases nss.len(),
{
    if nss.len() == 0 {
        Seq::empty()
    } else {
        namespace_blocks(hs, nss.drop_last(), errors) + namespace_block(hs, nss.last(), errors)
    }
}

/// The lines of the contract object: namespaces in sorted order.
pub open spec fn contract_lines(hs: Seq<HandlerInfo>, errors: Seq<ErrorInfo>) -> Seq<Seq<char>> {
    seq!["export const contract = {"@] + namespace_blocks(hs, sorted_list(namespaces(hs)), errors)
        + seq!["} as const;"@, Seq::empty(), "export type Contract = typeof contract;"@]
}

/// The full contract text.
pub open spec fn contract_text(hs: Seq<HandlerInfo>, errors: Seq<ErrorInfo>) -> Seq<char> {
    join(contract_lines(hs, errors), "\n"@)
}

/// Appends the entry lines of the handlers in namespace `ns`.
fn push_member_lines(
    lines: &mut Vec<Vec<char>>,
    handlers: &[HandlerInfo],
    spaces: &[Vec<char>],
    ns: &[char],
    errors: &[ErrorInfo],
    indent: &str,
)
    requires
        spaces@.len() == handlers@.len(),
        forall|k: int| 0 <= k < handlers@.len() ==> spaces@[k]@ == namespace_of(handlers@[k].path@),
    ensures
        views(final(lines)@) == views(old(lines)@) + member_lines(handlers@, ns@, errors@, indent@),
{
    let ghost start = views(lines@);
    let mut j: usize = 0;
    assert(handlers@.take(0) =~= Seq::<HandlerInfo>::empty());
    assert(views(lines@) =~= start + member_lines(handlers@.take(0), ns@, errors@, indent@));
    while j < handlers.len()
        invariant
            j <= handlers@.len(),
            spaces@.len() == handlers@.len(),
            forall|k: int|
                0 <= k < handlers@.len() ==> spaces@[k]@ == namespace_of(handlers@[k].path@),
            views(lines@) == start + member_lines(handlers@.take(j as int), ns@, errors@, indent@),
        decreases handlers@.len() - j,
    {
        assert(handlers@.take(j + 1).drop_last() =~= handlers@.take(j as int));
        assert(handlers@.take(j + 1).last() == handlers@[j as int]);
        let ghost before = views(lines@);
        if crate::text::chars_eq(spaces[j].as_slice(), ns) {
            let mut line: Vec<char> = Vec::new();
            extend_str(&mut line, indent);
            let e = procedure_entry_chars(&handlers[j], errors);
            extend_chars(&mut line, e.as_slice());
            extend_str(&mut line, ",");
            lines.push(line);
            assert(views(lines@) =~= before.push(
                indent@ + procedure_entry(handlers@[j as int], errors@) + ","@,
            ));
        }
        j = j + 1;
    }
    assert(handlers@.take(handlers@.len() as int) =~= handlers@);
}

/// The line a handler's entry takes in the contract: indented by its
/// nesting, with a trailing comma.
pub open spec fn entry_line(h: HandlerInfo, errors: Seq<ErrorInfo>) -> Seq<char> {
    (if namespace_of(h.path@).len() == 0 {
        "  "@
    } else {
        "    "@
    }) + procedure_entry(h, errors) + ","@
}

/// Each handler of namespace `ns` has its line among the member lines.
proof fn lemma_member_lines_contain(
    hs: Seq<HandlerInfo>,
    ns: Seq<char>,
    errors: Seq<ErrorInfo>,
    indent: Seq<char>,
    i: int,
)
    requires
        0 <= i < hs.len(),
        namespace_of(hs[i].path@) == ns,
    ensures
        member_lines(hs, ns, errors, indent).contains(indent + procedure_entry(hs[i], errors) + ","@),
    decreases hs.len(),
{
    let r = member_lines(hs.drop_last(), ns, errors, indent);
    if i < hs.len() - 1 {
        assert(hs.drop_last()[i] == hs[i]);
        lemma_member_lines_contain(hs.drop_last(), ns, errors, indent, i);
        let line = indent + procedure_entry(hs[i], errors) + ","@;
        let k = choose|k: int| 0 <= k < r.len() && r[k] == line;
        assert(r.push(indent + procedure_entry(hs.last(), errors) + ","@)[k] == line);
    } else {
        let line = indent + procedure_entry(hs[i], errors) + ","@;
        assert(r.push(line)[r.len() as int] == line);
    }
}

/// Each namespace listed in `nss` has its block among the blocks.
proof fn lemma_blocks_contain(
    hs: Seq<HandlerInfo>,
    nss: Seq<Seq<char>>,
    errors: Seq<ErrorInfo>,
    j: int,
    line: Seq<char>,
)
    requires
        0 <= j < nss.len(),
        namespace_block(hs, nss[j], errors).contains(line),
    ensures
        namespace_blocks(hs, nss, errors).contains(line),
    decreases nss.len(),
{
    let a = namespace_blocks(hs, nss.drop_last(), errors);
    let b = namespace_block(hs, nss.last(), errors);
    if j < nss.len() - 1 {
        assert(nss.drop_last()[j] == nss[j]);
        lemma_blocks_contain(hs, nss.drop_last(), errors, j, line);
        let k = choose|k: int| 0 <= k < a.len() && a[k] == line;
        assert((a + b)[k] == line);
    } else {
        let k = choose|k: int| 0 <= k < b.len() && b[k] == line;
        assert((a + b)[a.len() + k] == line);
    }
}

/// Each handler has its entry line in the contract, when the namespaces
/// are listed by `nss`.
proof fn lemma_contract_lists_handler(
    hs: Seq<HandlerInfo>,
    nss: Seq<Seq<char>>,
    errors: Seq<ErrorInfo>,
    i: int,
)
    requires
        0 <= i < hs.len(),
        nss.to_set() == namespaces(hs),
    ensures
        namespace_blocks(hs, nss, errors).contains(entry_line(hs[i], errors)),
{
    let ns = namespace_of(hs[i].path@);
    assert(namespaces(hs).contains(ns));
    assert(nss.to_set().contains(ns));
    let j = choose|j: int| 0 <= j < nss.len() && nss[j] == ns;
    let line = entry_line(hs[i], errors);
    if ns.len() == 0 {
        lemma_member_lines_contain(hs, ns, errors, "  "@, i);
    } else {
        lemma_member_lines_contain(hs, ns, errors, "    "@, i);
        let m = member_lines(hs, ns, errors, "    "@);
        let k = choose|k: int| 0 <= k < m.len() && m[k] == line;
        let blk = seq!["  "@ + ns + ": {"@] + m + seq!["  },"@];
        assert(blk[k + 1] == line);
        assert(namespace_block(hs, ns, errors) == blk);
    }
    lemma_blocks_contain(hs, nss, errors, j, line);
}

/// Generate the `export const contract = { ... } as const` TypeScript block.
pub fn generate_contract(
    handlers: &[HandlerInfo],
    errors: &[ErrorInfo],
    schemas: &[SchemaEntry],
) -> (r: String)
    ensures
        r@ == contract_text(handlers@, errors@),
        forall|i: int|
            0 <= i < handlers@.len() ==> contract_lines(handlers@, errors@).contains(
                #[trigger] entry_line(handlers@[i], errors@),
            ),
{
    // The namespace of each handler, and their sorted set.
    let mut spaces: Vec<Vec<char>> = Vec::new();
    let mut sorted: Vec<Vec<char>> = Vec::new();
    let mut i: usize = 0;
    while i < handlers.len()
        invariant
            i <= handlers@.len(),
            spaces@.len() == i,
            forall|k: int| 0 <= k < i ==> spaces@[k]@ == namespace_of(handlers@[k].path@),
            sorted_strict(views(sorted@)),
            views(sorted@).to_set() == namespaces(handlers@.take(i as int)),
        decreases handlers@.len() - i,
    {
        let pv = chars_of(handlers[i].path);
        let n = namespace_chars(pv.as_slice());
        let n2 = slice_chars(n.as_slice(), 0, n.len());
        assert(n2@ =~= n@);
        spaces.push(n);
        let ghost old_set = views(sorted@).to_set();
        insert_sorted(&mut sorted, n2);
        proof {
            let hs1 = handlers@.take(i + 1);
            assert(namespaces(hs1) =~= namespaces(handlers@.take(i as int)).insert(
                namespace_of(handlers@[i as int].path@),
            )) by {
                assert forall|x: Seq<char>| namespaces(hs1).contains(x) implies namespaces(
                    handlers@.take(i as int),
                ).insert(namespace_of(handlers@[i as int].path@)).contains(x) by {
                    let k = choose|k: int|
                        0 <= k < hs1.len() && namespace_of(hs1[k].path@) == x;
                    if k < i {
                        assert(handlers@.take(i as int)[k] == hs1[k]);
                    }
                }
                assert forall|x: Seq<char>| namespaces(handlers@.take(i as int)).insert(
                    namespace_of(handlers@[i as int].path@),
                ).contains(x) implies namespaces(hs1).contains(x) by {
                    if x == namespace_of(handlers@[i as int].path@) {
                        assert(hs1[i as int] == handlers@[i as int]);
                    } else {
                        let k = choose|k: int|
                            0 <= k < i && namespace_of(handlers@.take(i as int)[k].path@) == x;
                        assert(hs1[k] == handlers@.take(i as int)[k]);
                    }
                }
            }
        }
        i = i + 1;
    }
    assert(handlers@.take(handlers@.len() as int) =~= handlers@);
    proof {
        lemma_sorted_list_is(views(sorted@), namespaces(handlers@));
        let nss0 = views(sorted@);
        assert forall|i: int| 0 <= i < handlers@.len() implies contract_lines(handlers@, errors@).contains(
            #[trigger] entry_line(handlers@[i], errors@),
        ) by {
            lemma_contract_lists_handler(handlers@, nss0, errors@, i);
            let blocks = namespace_blocks(handlers@, nss0, errors@);
            let k = choose|k: int| 0 <= k < blocks.len() && blocks[k] == entry_line(handlers@[i], errors@);
            let tail = seq!["} as const;"@, Seq::<char>::empty(), "export type Contract = typeof contract;"@];
            assert((seq!["export const contract = {"@] + blocks + tail)[k + 1] == entry_line(handlers@[i], errors@));
        }
    }
    let ghost nss = views(sorted@);
    let mut lines: Vec<Vec<char>> = Vec::new();
    lines.push(chars_of("export const contract = {"));
    let mut k: usize = 0;
    assert(nss.take(0) =~= Seq::<Seq<char>>::empty());
    assert(views(lines@) =~= seq!["export const contract = {"@] + namespace_blocks(
        handlers@,
        nss.take(0),
        errors@,
    ));
    while k < sorted.len()
        invariant
            k <= sorted@.len(),
            nss == views(sorted@),
            spaces@.len() == handlers@.len(),
            forall|m: int| 0 <= m < handlers@.len() ==> spaces@[m]@ == namespace_of(handlers@[m].path@),
            views(lines@) == seq!["export const contract = {"@] + namespace_blocks(
                handlers@,
                nss.take(k as int),
                errors@,
            ),
        decreases sorted@.len() - k,
    {
        let ns = &sorted[k];
        let ghost before = views(lines@);
        assert(nss.take(k + 1).drop_last() =~= nss.take(k as int));
        assert(nss.take(k + 1).last() == ns@);
        if ns.len() == 0 {
            push_member_lines(&mut lines, handlers, spaces.as_slice(), ns.as_slice(), errors, "  ");
            assert(views(lines@) =~= seq!["export const contract = {"@] + namespace_blocks(
                handlers@,
                nss.take(k + 1),
                errors@,
            ));
        } else {
            let mut head: Vec<char> = Vec::new();
            extend_str(&mut head, "  ");
            extend_chars(&mut head, ns.as_slice());
            extend_str(&mut head, ": {");
            let ghost hv = head@;
            assert(hv =~= "  "@ + ns@ + ": {"@);
            lines.push(head);
            let ghost mid = views(lines@);
            assert(mid =~= before.push(hv));
            push_member_lines(
                &mut lines,
                handlers,
                spaces.as_slice(),
                ns.as_slice(),
                errors,
                "    ",
            );
            let ghost members = member_lines(handlers@, ns@, errors@, "    "@);
            let ghost after = views(lines@);
            assert(after == mid + members);
            lines.push(chars_of("  },"));
            assert(views(lines@) =~= after.push("  },"@));
            assert(namespace_block(handlers@, ns@, errors@) =~= seq![hv] + members + seq!["  },"@]);
            assert(views(lines@) =~= before + namespace_block(handlers@, ns@, errors@));
            assert(views(lines@) =~= seq!["export const contract = {"@] + namespace_blocks(
                handlers@,
                nss.take(k + 1),
                errors@,
            ));
        }
        k = k + 1;
    }
    assert(nss.take(sorted@.len() as int) =~= nss);
    lines.push(chars_of("} as const;"));
    lines.push(Vec::new());
    lines.push(chars_of("export type Contract = typeof contract;"));
    assert(views(lines@) =~= contract_lines(handlers@, errors@));
    let out = join_chars(&lines, "\n");
    string_of(out.as_slice())
}

} // verus!
