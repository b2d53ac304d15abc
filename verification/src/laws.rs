//! Properties that hold of the library across calls and for all inputs.

use crate::builder::RouteView;
use crate::codegen::contract::{camel_from, camel_key};
use crate::codegen::typescript::{base_name, schema_name};
use crate::naming::{is_ascii_lower, screaming_snake, snake, renamed};
use crate::registry::{chosen_index, first_named, is_real, SchemaRegistration};
use crate::router::{expanded, normalised};
use crate::text::{
    ascii_upper, contains_seq, first_index_of, has_prefix, has_suffix, join, lemma_first_index_of,
    lower_all, occurs_at, remove_char, replace_char, split_on, strip_char_start, upper_all,
};
use crate::codegen::contract::namespace_of;
use crate::codegen::typescript::{integer_names, ts_schema};
use crate::zod_derive::{number_rules, opt_view, text_rule, ZodRules};
use crate::router::{expanded_all, filter_patterns, module_selected, Pattern};
use crate::error_schema::{variant_data, zod_of};
use crate::error_derive::{derive_variant_data, derive_zod_of};
use crate::type_expr::{NamedField, VariantFields};
use crate::type_expr::{innermost, primitive_type, first_type_pos, GenericArg, PathArgs, TypeExpr, TypeShape};
use vstd::prelude::*;

verus! {

// ---------------------------------------------------------------------------
// Procedure registry
// ---------------------------------------------------------------------------

/// Reading a path after registering it gives what was registered; other
/// paths are unaffected.
pub proof fn law_registry_read_after_insert<H>(
    m: Map<Seq<char>, (H, RouteView)>,
    p: Seq<char>,
    q: Seq<char>,
    v: (H, RouteView),
)
    ensures
        m.insert(p, v).contains_key(p),
        m.insert(p, v)[p] == v,
        q != p ==> m.insert(p, v).contains_key(q) == m.contains_key(q),
        q != p && m.contains_key(q) ==> m.insert(p, v)[q] == m[q],
{
}

/// Registering a new path adds one to the count; registering a present
/// path again keeps the count.
pub proof fn law_registry_count_after_insert<H>(
    m: Map<Seq<char>, (H, RouteView)>,
    p: Seq<char>,
    v: (H, RouteView),
)
    requires
        m.dom().finite(),
    ensures
        !m.contains_key(p) ==> m.insert(p, v).dom().len() == m.dom().len() + 1,
        m.contains_key(p) ==> m.insert(p, v).dom().len() == m.dom().len(),
{
    if m.contains_key(p) {
        assert(m.insert(p, v).dom() =~= m.dom());
    } else {
        assert(m.insert(p, v).dom() =~= m.dom().insert(p));
    }
}

// ---------------------------------------------------------------------------
// Schema registrations
// ---------------------------------------------------------------------------

proof fn lemma_first_named_facts(regs: Seq<SchemaRegistration>, n: Seq<char>, real_only: bool)
    ensures
        first_named(regs, n, real_only) matches Some(k) ==> 0 <= k < regs.len() && regs[k].rust_type@
            == n && (real_only ==> is_real(regs[k])),
        first_named(regs, n, real_only) is None ==> forall|k: int|
            0 <= k < regs.len() ==> !(#[trigger] regs[k].rust_type@ == n && (!real_only || is_real(
                regs[k],
            ))),
    decreases regs.len(),
{
    if regs.len() > 0 {
        lemma_first_named_facts(regs.drop_last(), n, real_only);
        assert forall|k: int| 0 <= k < regs.len() - 1 implies regs.drop_last()[k] == regs[k] by {}
    }
}

/// The registration chosen for a registered type has that type's name, and
/// it is a real schema whenever some registration of the type is.
pub proof fn law_chosen_schema_prefers_real(regs: Seq<SchemaRegistration>, n: Seq<char>, k: int)
    requires
        0 <= k < regs.len(),
        regs[k].rust_type@ == n,
    ensures
        0 <= chosen_index(regs, n) < regs.len(),
        regs[chosen_index(regs, n)].rust_type@ == n,
        is_real(regs[k]) ==> is_real(regs[chosen_index(regs, n)]),
{
    lemma_first_named_facts(regs, n, true);
    lemma_first_named_facts(regs, n, false);
}

// ---------------------------------------------------------------------------
// Names
// ---------------------------------------------------------------------------

proof fn lemma_ascii_upper_not_lower(c: char)
    ensures
        !is_ascii_lower(ascii_upper(c)),
{
    if 'a' <= c && c <= 'z' {
        assert((c as int) - 32 < 'a' as int);
    }
}

/// Error codes hold no ASCII lowercase letters.
pub proof fn law_error_codes_have_no_lowercase(s: Seq<char>)
    ensures
        forall|i: int| 0 <= i < screaming_snake(s).len() ==> !is_ascii_lower(#[trigger] screaming_snake(s)[i]),
    decreases s.len(),
{
    if s.len() > 0 {
        law_error_codes_have_no_lowercase(s.drop_last());
        lemma_ascii_upper_not_lower(s.last());
        let a = screaming_snake(s.drop_last());
        assert forall|i: int| 0 <= i < screaming_snake(s).len() implies !is_ascii_lower(
            #[trigger] screaming_snake(s)[i],
        ) by {
            if i < a.len() {
                assert(screaming_snake(s)[i] == a[i]);
            }
        }
    }
}

/// The rename rules derive from snake_case: `SCREAMING_SNAKE_CASE` is its
/// upper-casing, `kebab-case` has `-` for `_`, and `SCREAMING-KEBAB-CASE`
/// both.
pub proof fn law_rename_rules_from_snake_case(name: Seq<char>)
    ensures
        renamed("SCREAMING_SNAKE_CASE"@, name) == upper_all(renamed("snake_case"@, name)),
        renamed("kebab-case"@, name) == replace_char(renamed("snake_case"@, name), '_', '-'),
        renamed("SCREAMING-KEBAB-CASE"@, name) == replace_char(
            renamed("SCREAMING_SNAKE_CASE"@, name),
            '_',
            '-',
        ),
{
    reveal_strlit("lowercase");
    reveal_strlit("UPPERCASE");
    reveal_strlit("camelCase");
    reveal_strlit("snake_case");
    reveal_strlit("SCREAMING_SNAKE_CASE");
    reveal_strlit("kebab-case");
    reveal_strlit("SCREAMING-KEBAB-CASE");
    let sc = "SCREAMING_SNAKE_CASE"@;
    let kc = "kebab-case"@;
    let skc = "SCREAMING-KEBAB-CASE"@;
    assert(sc.len() == 20 && kc.len() == 10 && skc.len() == 20);
    assert("lowercase"@.len() == 9 && "UPPERCASE"@.len() == 9 && "camelCase"@.len() == 9
        && "snake_case"@.len() == 10);
    assert(kc[0] != "snake_case"@[0]);
    assert(sc != "lowercase"@ && sc != "UPPERCASE"@ && sc != "camelCase"@ && sc != "snake_case"@);
    assert(kc != "lowercase"@ && kc != "UPPERCASE"@ && kc != "camelCase"@ && kc != "snake_case"@
        && kc != sc);
    assert(skc[9] != sc[9]);
    assert(skc != "lowercase"@ && skc != "UPPERCASE"@ && skc != "camelCase"@ && skc
        != "snake_case"@ && skc != sc && skc != kc);
    assert("snake_case"@ != "lowercase"@ && "snake_case"@ != "UPPERCASE"@ && "snake_case"@
        != "camelCase"@);
}

/// Handler keys hold no underscore.
pub proof fn law_handler_keys_have_no_underscore(name: Seq<char>)
    ensures
        !camel_key(name).contains('_'),
{
    lemma_camel_from_no_underscore(name, false);
}

proof fn lemma_camel_from_no_underscore(s: Seq<char>, cap: bool)
    ensures
        !camel_from(s, cap).contains('_'),
    decreases s.len(),
{
    if s.len() > 0 {
        lemma_camel_from_no_underscore(s.drop_first(), true);
        lemma_camel_from_no_underscore(s.drop_first(), false);
        let c = s[0];
        if c != '_' {
            let head = if cap {
                ascii_upper(c)
            } else {
                c
            };
            assert(head != '_');
            let rest = camel_from(s.drop_first(), false);
            assert(camel_from(s, cap) == seq![head] + rest);
            if camel_from(s, cap).contains('_') {
                let k = choose|k: int| 0 <= k < camel_from(s, cap).len() && camel_from(s, cap)[k] == '_';
                if k > 0 {
                    assert(rest[k - 1] == '_');
                }
            }
        }
    }
}

/// A schema name is the bare type name followed by `Schema`.
pub proof fn law_schema_name_is_base_name(t: Seq<char>)
    ensures
        schema_name(t) == base_name(t) + "Schema"@,
        has_suffix(schema_name(t), "Schema"@),
{
    assert(schema_name(t).subrange(
        schema_name(t).len() - "Schema"@.len(),
        schema_name(t).len() as int,
    ) =~= "Schema"@);
}

// ---------------------------------------------------------------------------
// Router patterns
// ---------------------------------------------------------------------------

/// No expanded pattern ends with a `::*` wildcard.
pub proof fn law_expanded_patterns_have_no_wildcard(p: Seq<char>)
    ensures
        forall|i: int| 0 <= i < expanded(p).len() ==> !has_suffix(#[trigger] expanded(p)[i], "::*"@),
{
    reveal_strlit("::*");
    assert forall|q: Seq<char>| !has_suffix(#[trigger] normalised(q), "::*"@) by {
        if has_suffix(q, "::*"@) {
            let r = q.drop_last();
            assert(r[r.len() - 1] == q[q.len() - 2]);
            assert(q.subrange(q.len() - 3, q.len() as int) == "::*"@);
            assert(q.subrange(q.len() - 3, q.len() as int)[1] == q[q.len() - 2]);
            assert(q[q.len() - 2] == ':');
            if has_suffix(r, "::*"@) {
                assert(r.subrange(r.len() - 3, r.len() as int)[2] == r[r.len() - 1]);
            }
        }
    }
}

// ---------------------------------------------------------------------------
// Types
// ---------------------------------------------------------------------------

/// The innermost custom type of a type is never primitive.
pub proof fn law_innermost_type_is_not_primitive(ty: TypeExpr)
    ensures
        innermost(ty) matches Some(t) ==> !primitive_type(t),
    decreases ty,
{
    match ty.shape {
        TypeShape::Path { ident, args } => match args {
            PathArgs::Angle(v) => {
                if crate::type_expr::is_wrapper_ident(ident@) && first_type_pos(v@) is Some {
                    let k = first_type_pos(v@)->0;
                    if 0 <= k < v@.len() {
                        match v@[k] {
                            GenericArg::Type(t) => {
                                assert(decreases_to!(v => v@));
                                law_innermost_type_is_not_primitive(t);
                            },
                            GenericArg::Other => {},
                        }
                    }
                }
            },
            _ => {},
        },
        _ => {},
    }
}

// ---------------------------------------------------------------------------
// Texts built by concatenation and joining
// ---------------------------------------------------------------------------

/// A text occurs in any text that has it between two others.
pub proof fn lemma_contains_middle(a: Seq<char>, p: Seq<char>, b: Seq<char>)
    ensures
        contains_seq(a + p + b, p),
{
    assert((a + p + b).subrange(a.len() as int, a.len() + p.len() as int) =~= p);
    assert(occurs_at(a + p + b, p, a.len() as int));
}

/// An occurrence stays an occurrence when text is appended.
proof fn lemma_occurs_extend(s: Seq<char>, p: Seq<char>, i: int, t: Seq<char>)
    requires
        occurs_at(s, p, i),
    ensures
        occurs_at(s + t, p, i),
{
    assert((s + t).subrange(i, i + p.len()) =~= s.subrange(i, i + p.len()));
}

/// Every part of a joined text occurs in it.
pub proof fn lemma_join_contains_part(parts: Seq<Seq<char>>, sep: Seq<char>, k: int)
    requires
        0 <= k < parts.len(),
    ensures
        contains_seq(join(parts, sep), parts[k]),
    decreases parts.len(),
{
    if parts.len() == 1 {
        lemma_contains_middle(Seq::empty(), parts[0], Seq::empty());
        assert(Seq::<char>::empty() + parts[0] + Seq::<char>::empty() =~= parts[0]);
    } else {
        let init = parts.drop_last();
        if k < parts.len() - 1 {
            lemma_join_contains_part(init, sep, k);
            assert(init[k] == parts[k]);
            let i = choose|i: int| occurs_at(join(init, sep), parts[k], i);
            lemma_occurs_extend(join(init, sep), parts[k], i, sep + parts.last());
            assert(join(init, sep) + sep + parts.last() =~= join(init, sep) + (sep + parts.last()));
        } else {
            lemma_contains_middle(join(init, sep) + sep, parts.last(), Seq::empty());
            assert(join(init, sep) + sep + parts.last() + Seq::<char>::empty() =~= join(init, sep)
                + sep + parts.last());
        }
    }
}

// ---------------------------------------------------------------------------
// Namespaces of handler paths
// ---------------------------------------------------------------------------

/// The namespace of a path is its first segment: with the leading `/`s
/// removed, a path that has a further `/` starts with its namespace and
/// that `/`, and the namespace holds no `/`; a path without a further `/`
/// has the empty namespace.
pub proof fn law_namespace_is_first_segment(path: Seq<char>)
    ensures
        !namespace_of(path).contains('/'),
        ({
            let s = strip_char_start(path, '/');
            if s.contains('/') {
                has_prefix(s, namespace_of(path).push('/'))
            } else {
                namespace_of(path).len() == 0
            }
        }),
{
    let s = strip_char_start(path, '/');
    lemma_first_index_of(s, '/');
    match first_index_of(s, '/') {
        Some(k) => {
            assert(s.take(k).push('/') =~= s.subrange(0, k + 1));
            assert forall|j: int| 0 <= j < s.take(k).len() implies s.take(k)[j] != '/' by {
                assert(s.take(k)[j] == s[j]);
            }
        },
        None => {
            if s.contains('/') {
                let j = choose|j: int| 0 <= j < s.len() && s[j] == '/';
                assert(s[j] == '/');
            }
        },
    }
}

// ---------------------------------------------------------------------------
// Zod schemas of type names
// ---------------------------------------------------------------------------

/// Floating-point type names have the plain number schema, never an
/// integer one: any type name that reads `f32` or `f64` once spaces are
/// removed maps to `z.number()`.
pub proof fn law_float_names_are_plain_numbers(raw: Seq<char>)
    requires
        remove_char(raw, ' ') == "f32"@ || remove_char(raw, ' ') == "f64"@,
    ensures
        ts_schema(raw) == "z.number()"@,
{
    reveal_strlit("f32");
    reveal_strlit("f64");
    reveal_strlit("()");
    reveal_strlit("Result<");
    reveal_strlit("Json<");
    reveal_strlit("Vec<");
    reveal_strlit("Option<");
    reveal_strlit("String");
    reveal_strlit("str");
    let t = remove_char(raw, ' ');
    assert(t.len() == 3);
    assert(!has_prefix(t, "Result<"@));
    assert(!has_prefix(t, "Json<"@));
    assert(!has_prefix(t, "Option<"@));
    assert(!has_prefix(t, "Vec<"@)) by {
        if has_prefix(t, "Vec<"@) {
            assert(t.subrange(0, 4) == "Vec<"@);
        }
    }
    assert(t != "String"@);
    assert(t != "str"@) by {
        assert(t[0] == 'f');
        assert("str"@[0] == 's');
    }
    assert(!integer_names().contains(t)) by {
        reveal_strlit("i8");
        reveal_strlit("i16");
        reveal_strlit("i32");
        reveal_strlit("i64");
        reveal_strlit("i128");
        reveal_strlit("isize");
        reveal_strlit("u8");
        reveal_strlit("u16");
        reveal_strlit("u32");
        reveal_strlit("u64");
        reveal_strlit("u128");
        reveal_strlit("usize");
        if integer_names().contains(t) {
            let j = choose|j: int| 0 <= j < integer_names().len() && integer_names()[j] == t;
            assert(integer_names()[j][0] == t[0]);
        }
    }
}

// ---------------------------------------------------------------------------
// Numeric validation rules
// ---------------------------------------------------------------------------

/// Each numeric flag renders its own Zod method: when a flag is set, the
/// rule text of a number schema holds that flag's method.
pub proof fn law_number_flags_render_their_methods(r: ZodRules)
    ensures
        r.positive ==> contains_seq(number_rules(r), ".positive()"@),
        r.negative ==> contains_seq(number_rules(r), ".negative()"@),
        r.nonnegative ==> contains_seq(number_rules(r), ".nonnegative()"@),
        r.nonpositive ==> contains_seq(number_rules(r), ".nonpositive()"@),
        r.finite ==> contains_seq(number_rules(r), ".finite()"@),
        r.min is None && r.max is None ==> number_rules(r).len() == (if r.positive { 11int } else { 0 })
            + (if r.negative { 11int } else { 0 }) + (if r.nonnegative { 14int } else { 0 }) + (
        if r.nonpositive { 14int } else { 0 }) + (if r.finite { 9int } else { 0 }),
{
    reveal_strlit(".positive()");
    reveal_strlit(".negative()");
    reveal_strlit(".nonnegative()");
    reveal_strlit(".nonpositive()");
    reveal_strlit(".finite()");
    let a = text_rule(".min("@, opt_view(r.min), ")"@) + text_rule(".max("@, opt_view(r.max), ")"@);
    let p = crate::zod_derive::when(r.positive, ".positive()"@);
    let n = crate::zod_derive::when(r.negative, ".negative()"@);
    let nn = crate::zod_derive::when(r.nonnegative, ".nonnegative()"@);
    let np = crate::zod_derive::when(r.nonpositive, ".nonpositive()"@);
    let f = crate::zod_derive::when(r.finite, ".finite()"@);
    assert(number_rules(r) == a + p + n + nn + np + f);
    if r.positive {
        lemma_contains_middle(a, p, n + nn + np + f);
        assert(a + p + (n + nn + np + f) =~= a + p + n + nn + np + f);
    }
    if r.negative {
        lemma_contains_middle(a + p, n, nn + np + f);
        assert(a + p + n + (nn + np + f) =~= a + p + n + nn + np + f);
    }
    if r.nonnegative {
        lemma_contains_middle(a + p + n, nn, np + f);
        assert(a + p + n + nn + (np + f) =~= a + p + n + nn + np + f);
    }
    if r.nonpositive {
        lemma_contains_middle(a + p + n + nn, np, f);
    }
    if r.finite {
        lemma_contains_middle(a + p + n + nn + np, f, Seq::empty());
        assert(a + p + n + nn + np + f + Seq::<char>::empty() =~= a + p + n + nn + np + f);
    }
}

// ---------------------------------------------------------------------------
// Router filters of several patterns
// ---------------------------------------------------------------------------

/// The patterns of a list are exactly the expansions of each pattern:
/// every expansion of every listed pattern is among them, and each of them
/// comes from the expansion of some listed pattern.
pub proof fn lemma_expanded_all_members(ps: Seq<Seq<char>>)
    ensures
        forall|i: int, j: int|
            0 <= i < ps.len() && 0 <= j < expanded(ps[i]).len() ==> #[trigger] expanded_all(ps).contains(
                #[trigger] expanded(ps[i])[j],
            ),
        forall|x: Seq<char>|
            #[trigger] expanded_all(ps).contains(x) ==> exists|i: int|
                0 <= i < ps.len() && expanded(ps[i]).contains(x),
    decreases ps.len(),
{
    if ps.len() > 0 {
        let init = ps.drop_last();
        lemma_expanded_all_members(init);
        let a = expanded_all(init);
        let b = expanded(ps.last());
        assert(expanded_all(ps) == a + b);
        assert forall|i: int, j: int|
            0 <= i < ps.len() && 0 <= j < expanded(ps[i]).len() implies #[trigger] expanded_all(
            ps,
        ).contains(#[trigger] expanded(ps[i])[j]) by {
            if i < ps.len() - 1 {
                assert(init[i] == ps[i]);
                assert(a.contains(expanded(init[i])[j]));
                let k = choose|k: int| 0 <= k < a.len() && a[k] == expanded(init[i])[j];
                assert((a + b)[k] == a[k]);
            } else {
                assert((a + b)[a.len() + j] == b[j]);
            }
        }
        assert forall|x: Seq<char>| #[trigger] expanded_all(ps).contains(x) implies exists|i: int|
            0 <= i < ps.len() && expanded(ps[i]).contains(x) by {
            let k = choose|k: int| 0 <= k < (a + b).len() && (a + b)[k] == x;
            if k < a.len() {
                assert(a[k] == x);
                assert(a.contains(x));
                let i = choose|i: int| 0 <= i < init.len() && expanded(init[i]).contains(x);
                assert(ps[i] == init[i]);
            } else {
                assert(b[k - a.len()] == x);
                assert(expanded(ps[ps.len() - 1]).contains(x));
            }
        }
    }
}

/// A filter of several patterns selects what each of its patterns
/// selects: every expansion of every listed pattern is one of the filter's
/// patterns, each of the filter's patterns comes from a listed pattern,
/// and a module named by any expansion of any listed pattern is selected.
pub proof fn law_multiple_filter_keeps_every_pattern(v: Vec<String>)
    ensures
        forall|i: int, j: int|
            0 <= i < v@.len() && 0 <= j < expanded(v@[i]@).len() ==> #[trigger] filter_patterns(
                Pattern::Multiple(v),
            ).contains(#[trigger] expanded(v@[i]@)[j]),
        forall|i: int, j: int|
            0 <= i < v@.len() && 0 <= j < expanded(v@[i]@).len() ==> module_selected(
                filter_patterns(Pattern::Multiple(v)),
                #[trigger] expanded(v@[i]@)[j],
            ),
        forall|x: Seq<char>|
            #[trigger] filter_patterns(Pattern::Multiple(v)).contains(x) ==> exists|i: int|
                0 <= i < v@.len() && expanded(v@[i]@).contains(x),
{
    let ps = v@.map_values(|s: String| s@);
    lemma_expanded_all_members(ps);
    assert forall|i: int, j: int|
        0 <= i < v@.len() && 0 <= j < expanded(v@[i]@).len() implies #[trigger] filter_patterns(
        Pattern::Multiple(v),
    ).contains(#[trigger] expanded(v@[i]@)[j]) by {
        assert(ps[i] == v@[i]@);
        assert(expanded_all(ps).contains(expanded(ps[i])[j]));
    }
    assert forall|i: int, j: int|
        0 <= i < v@.len() && 0 <= j < expanded(v@[i]@).len() implies module_selected(
        filter_patterns(Pattern::Multiple(v)),
        #[trigger] expanded(v@[i]@)[j],
    ) by {
        assert(ps[i] == v@[i]@);
        assert(expanded_all(ps).contains(expanded(ps[i])[j]));
        let pats = filter_patterns(Pattern::Multiple(v));
        let k = choose|k: int| 0 <= k < pats.len() && pats[k] == expanded(v@[i]@)[j];
        assert(expanded(v@[i]@)[j] == pats[k]);
    }
    assert forall|x: Seq<char>| #[trigger] filter_patterns(Pattern::Multiple(v)).contains(x) implies exists|i: int|
        0 <= i < v@.len() && expanded(v@[i]@).contains(x) by {
        let i = choose|i: int| 0 <= i < ps.len() && expanded(ps[i]).contains(x);
        assert(ps[i] == v@[i]@);
    }
}

// ---------------------------------------------------------------------------
// Error data schemas
// ---------------------------------------------------------------------------

/// The data schema of a variant with named fields lists every field, each
/// as its name and its schema.
pub proof fn law_named_error_data_lists_every_field(fs: Vec<NamedField>)
    ensures
        forall|i: int|
            0 <= i < fs@.len() ==> contains_seq(
                variant_data(VariantFields::Named(fs))->0,
                #[trigger] fs@[i].name@ + ": "@ + zod_of(fs@[i].ty),
            ),
        forall|i: int|
            0 <= i < fs@.len() ==> contains_seq(
                derive_variant_data(VariantFields::Named(fs))->0,
                #[trigger] fs@[i].name@ + ": "@ + derive_zod_of(fs@[i].ty),
            ),
{
    let parts = fs@.map_values(|f: NamedField| f.name@ + ": "@ + zod_of(f.ty));
    let dparts = fs@.map_values(|f: NamedField| f.name@ + ": "@ + derive_zod_of(f.ty));
    assert forall|i: int| 0 <= i < fs@.len() implies contains_seq(
        variant_data(VariantFields::Named(fs))->0,
        #[trigger] fs@[i].name@ + ": "@ + zod_of(fs@[i].ty),
    ) by {
        lemma_join_contains_part(parts, ", "@, i);
        let j = join(parts, ", "@);
        let k = choose|k: int| occurs_at(j, parts[i], k);
        let whole = "z.object({ "@ + j + " })"@;
        assert(whole.subrange("z.object({ "@.len() + k, "z.object({ "@.len() + k + parts[i].len() as int)
            =~= j.subrange(k, k + parts[i].len()));
        assert(occurs_at(whole, parts[i], "z.object({ "@.len() + k));
    }
    assert forall|i: int| 0 <= i < fs@.len() implies contains_seq(
        derive_variant_data(VariantFields::Named(fs))->0,
        #[trigger] fs@[i].name@ + ": "@ + derive_zod_of(fs@[i].ty),
    ) by {
        lemma_join_contains_part(dparts, ", "@, i);
        let j = join(dparts, ", "@);
        let k = choose|k: int| occurs_at(j, dparts[i], k);
        let whole = "z.object({ "@ + j + " })"@;
        assert(whole.subrange("z.object({ "@.len() + k, "z.object({ "@.len() + k + dparts[i].len() as int)
            =~= j.subrange(k, k + dparts[i].len()));
        assert(occurs_at(whole, dparts[i], "z.object({ "@.len() + k));
    }
}

} // verus!
