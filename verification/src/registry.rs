//! Registered handler, schema and error metadata, and the assembly of a
//! contract builder from them.
//!
//! Schemas may be registered several times for one type (once per handler
//! that mentions it); a real schema is preferred over a `z.unknown()`
//! fallback. Schemas are emitted with the types they depend on first.

use crate::codegen::typescript::is_fallback;
use crate::codegen::{ContractBuilder, ErrorInfo, ErrorVariantInfo, HandlerInfo, SchemaEntry};
use crate::order::views;
use crate::text::{chars_eq, chars_of, str_contains};
use vstd::prelude::*;

verus! {

/// Metadata registered for one handler.
#[derive(Debug, Clone, Copy)]
pub struct HandlerMetadata {
    /// Handler function name (e.g. `"list_planets"`)
    pub name: &'static str,
    /// HTTP method in uppercase (e.g. `"GET"`, `"POST"`)
    pub method: &'static str,
    /// HTTP path (e.g. `"/planet/list"`)
    pub path: &'static str,
    /// Rust type name of the input type
    pub input_type_name: &'static str,
    /// Rust type name of the query parameters, for `Query<T>` inputs
    pub query_type_name: Option<&'static str>,
    /// Rust type name of the output type
    pub output_type_name: &'static str,
    /// Rust module of the handler (e.g. `"app::handlers::planet"`)
    pub rust_module: &'static str,
    /// Error type of a `Result<T, E>` output
    pub error_type_name: Option<&'static str>,
    /// Event type of a streaming handler
    pub stream_event_type_name: Option<&'static str>,
    /// Comma-separated Rust types of the path parameters
    pub path_param_types: &'static str,
}

/// The codegen view of a handler's metadata: the same fields.
pub open spec fn info_of(m: HandlerMetadata) -> HandlerInfo {
    HandlerInfo {
        name: m.name,
        method: m.method,
        path: m.path,
        input_type_name: m.input_type_name,
        query_type_name: m.query_type_name,
        output_type_name: m.output_type_name,
        rust_module: m.rust_module,
        error_type_name: m.error_type_name,
        stream_event_type_name: m.stream_event_type_name,
        path_param_types: m.path_param_types,
    }
}

impl HandlerMetadata {
    /// The codegen view of this handler.
    pub fn handler_info(&self) -> (r: HandlerInfo)
        ensures
            r == info_of(*self),
    {
        HandlerInfo {
            name: self.name,
            method: self.method,
            path: self.path,
            input_type_name: self.input_type_name,
            query_type_name: self.query_type_name,
            output_type_name: self.output_type_name,
            rust_module: self.rust_module,
            error_type_name: self.error_type_name,
            stream_event_type_name: self.stream_event_type_name,
            path_param_types: self.path_param_types,
        }
    }
}

/// Error variant definition for contract generation.
#[derive(Debug, Clone, Copy)]
pub struct ErrorVariant {
    /// Variant name in SCREAMING_SNAKE_CASE (e.g. "NOT_FOUND")
    pub name: &'static str,
    /// Optional Zod schema for variant data (None for unit variants)
    pub data_schema: Option<&'static str>,
}

/// Registration entry for an error enum type.
#[derive(Debug, Clone, Copy)]
pub struct ErrorRegistration {
    /// Type name (e.g. "AppError")
    pub rust_type: &'static str,
    /// All variants of this error enum
    pub variants: &'static [ErrorVariant],
}

impl ErrorRegistration {
    /// The codegen view of this error type.
    pub fn error_info(&self) -> (r: ErrorInfo)
        ensures
            r.rust_type == self.rust_type,
            r.variants@.len() == self.variants@.len(),
            forall|i: int|
                0 <= i < r.variants@.len() ==> (#[trigger] r.variants@[i]).name
                    == self.variants@[i].name && r.variants@[i].data_schema
                    == self.variants@[i].data_schema,
    {
        let mut vs: Vec<ErrorVariantInfo> = Vec::new();
        let mut i: usize = 0;
        while i < self.variants.len()
            invariant
                i <= self.variants@.len(),
                vs@.len() == i,
                forall|k: int|
                    0 <= k < i ==> (#[trigger] vs@[k]).name == self.variants@[k].name
                        && vs@[k].data_schema == self.variants@[k].data_schema,
            decreases self.variants@.len() - i,
        {
            let v = &self.variants[i];
            vs.push(ErrorVariantInfo { name: v.name, data_schema: v.data_schema });
            i = i + 1;
        }
        ErrorInfo { rust_type: self.rust_type, variants: vs }
    }
}

/// A registered Zod schema for a single Rust type, with the names of the
/// custom types it refers to.
#[derive(Debug)]
pub struct SchemaRegistration {
    /// Rust type name, for deduplication (e.g. `"Planet"`)
    pub rust_type: &'static str,
    /// The full TypeScript schema text for this type
    pub zod_ts: String,
    /// Names of nested custom types this type depends on
    pub dependent_types: Vec<&'static str>,
}

// ---------------------------------------------------------------------------
// Choosing one registration per type
// ---------------------------------------------------------------------------

/// A registration with a real schema (not a `z.unknown()` fallback).
pub open spec fn is_real(r: SchemaRegistration) -> bool {
    !is_fallback(r.zod_ts@)
}

/// The index of the first registration named `n` (real ones only, when
/// `real_only`).
pub open spec fn first_named(regs: Seq<SchemaRegistration>, n: Seq<char>, real_only: bool) -> Option<
    int,
>
    decreases regs.len(),
{
    if regs.len() == 0 {
        None
    } else {
        match first_named(regs.drop_last(), n, real_only) {
            Some(k) => Some(k),
            None => if regs.last().rust_type@ == n && (!real_only || is_real(regs.last())) {
                Some(regs.len() - 1)
            } else {
                None
            },
        }
    }
}

/// The registration chosen for `n`: the first real one, else the first one.
pub open spec fn chosen_index(regs: Seq<SchemaRegistration>, n: Seq<char>) -> int {
    match first_named(regs, n, true) {
        Some(k) => k,
        None => first_named(regs, n, false)->0,
    }
}

/// The registered type names, in order of first registration.
pub open spec fn type_names(regs: Seq<SchemaRegistration>) -> Seq<Seq<char>>
    decreases regs.len(),
{
    if regs.len() == 0 {
        Seq::empty()
    } else {
        let r = type_names(regs.drop_last());
        if r.contains(regs.last().rust_type@) {
            r
        } else {
            r.push(regs.last().rust_type@)
        }
    }
}

/// The chosen registration of each type, in order of first registration.
pub open spec fn chosen_indices(regs: Seq<SchemaRegistration>) -> Seq<int> {
    type_names(regs).map_values(|n: Seq<char>| chosen_index(regs, n))
}

proof fn lemma_first_named_range(regs: Seq<SchemaRegistration>, n: Seq<char>, real_only: bool)
    ensures
        first_named(regs, n, real_only) matches Some(k) ==> 0 <= k < regs.len() && regs[k].rust_type@
            == n && (real_only ==> is_real(regs[k])),
        first_named(regs, n, real_only) is None ==> forall|k: int|
            0 <= k < regs.len() ==> !(#[trigger] regs[k].rust_type@ == n && (!real_only || is_real(
                regs[k],
            ))),
    decreases regs.len(),
{
    if regs.len() > 0 {
        lemma_first_named_range(regs.drop_last(), n, real_only);
        assert forall|k: int| 0 <= k < regs.len() - 1 implies regs.drop_last()[k] == regs[k] by {}
    }
}

proof fn lemma_type_names(regs: Seq<SchemaRegistration>)
    ensures
        forall|n: Seq<char>| type_names(regs).contains(n) <==> first_named(regs, n, false) is Some,
        forall|i: int, j: int|
            0 <= i < j < type_names(regs).len() ==> type_names(regs)[i] != type_names(regs)[j],
    decreases regs.len(),
{
    if regs.len() > 0 {
        lemma_type_names(regs.drop_last());
        let r = type_names(regs.drop_last());
        let last = regs.last().rust_type@;
        assert forall|n: Seq<char>| type_names(regs).contains(n) <==> first_named(
            regs,
            n,
            false,
        ) is Some by {
            if type_names(regs).contains(n) {
                if !r.contains(n) {
                    let k = choose|k: int| 0 <= k < type_names(regs).len() && type_names(regs)[k] == n;
                    assert(k == r.len());
                    assert(n == last);
                }
            }
            if first_named(regs, n, false) is Some {
                if first_named(regs.drop_last(), n, false) is Some {
                    assert(r.contains(n));
                    let k = choose|k: int| 0 <= k < r.len() && r[k] == n;
                    if !r.contains(last) {
                        assert(type_names(regs)[k] == n);
                    }
                } else {
                    assert(n == last);
                    if !r.contains(last) {
                        assert(type_names(regs)[r.len() as int] == n);
                    }
                }
            }
        }
    }
}

/// Choose one registration per type name: the first real schema if there
/// is one, else the first registration. The result gives the indices of
/// the chosen registrations, in order of first registration.
pub fn choose_registrations(regs: &[SchemaRegistration]) -> (r: Vec<usize>)
    ensures
        r@.len() == type_names(regs@).len(),
        forall|i: int| 0 <= i < r@.len() ==> r@[i] == chosen_index(regs@, #[trigger] type_names(regs@)[i]),
        forall|i: int| 0 <= i < r@.len() ==> r@[i] < regs@.len(),
        forall|i: int|
            0 <= i < r@.len() ==> #[trigger] reg_at(regs@, r@, i).rust_type@ == type_names(regs@)[i],
        unique_names(regs@, r@),
{
    let mut names: Vec<Vec<char>> = Vec::new();
    let mut chosen: Vec<usize> = Vec::new();
    let mut i: usize = 0;
    while i < regs.len()
        invariant
            i <= regs@.len(),
            views(names@) == type_names(regs@.take(i as int)),
            chosen@.len() == names@.len(),
            forall|p: int|
                0 <= p < chosen@.len() ==> #[trigger] chosen@[p] == chosen_index(
                    regs@.take(i as int),
                    views(names@)[p],
                ),
            forall|p: int| 0 <= p < chosen@.len() ==> chosen@[p] < i,
        decreases regs@.len() - i,
    {
        let ghost t0 = regs@.take(i as int);
        let ghost t1 = regs@.take(i + 1);
        assert(t1.drop_last() =~= t0);
        assert(t1.last() == regs@[i as int]);
        let r = &regs[i];
        let nv = chars_of(r.rust_type);
        let is_new_real = !str_contains(r.zod_ts.as_str(), "z.unknown()");
        let mut p: usize = 0;
        while p < names.len() && !chars_eq(names[p].as_slice(), nv.as_slice())
            invariant
                p <= names@.len(),
                forall|q: int| 0 <= q < p ==> views(names@)[q] != nv@,
            decreases names@.len() - p,
        {
            p = p + 1;
        }
        let found = p < names.len();
        if found {
            assert(views(names@)[p as int] == nv@);
        }
        proof {
            lemma_type_names(t0);
            lemma_first_named_range(t0, nv@, true);
            lemma_first_named_range(t0, nv@, false);
        }
        if !found {
            let ghost old_names = views(names@);
            assert(!old_names.contains(nv@));
            names.push(nv);
            chosen.push(i);
            assert(views(names@) =~= type_names(t1));
            assert forall|q: int| 0 <= q < chosen@.len() implies #[trigger] chosen@[q] == chosen_index(
                t1,
                views(names@)[q],
            ) by {
                if q < old_names.len() {
                    assert(old_names[q] != nv@);
                }
            }
        } else {
            let ghost old_names = views(names@);
            assert(old_names[p as int] == nv@);
            assert(views(names@) =~= type_names(t1));
            let existing = chosen[p];
            let ex_real = !str_contains(regs[existing].zod_ts.as_str(), "z.unknown()");
            if !ex_real && is_new_real {
                proof {
                    if first_named(t0, nv@, true) is Some {
                        let k = first_named(t0, nv@, true)->0;
                        assert(chosen_index(t0, nv@) == k);
                        assert(t0[k] == regs@[k]);
                    }
                }
                chosen.set(p, i);
            } else {
                proof {
                    if !ex_real {
                        assert(first_named(t0, nv@, true) is None) by {
                            if first_named(t0, nv@, true) is Some {
                                let k = first_named(t0, nv@, true)->0;
                                assert(t0[k] == regs@[k]);
                            }
                        }
                    }
                }
            }
            assert forall|q: int| 0 <= q < chosen@.len() implies #[trigger] chosen@[q] == chosen_index(
                t1,
                views(names@)[q],
            ) by {
                if q != p {
                    lemma_type_names(t0);
                    assert(old_names[q] != old_names[p as int]);
                }
            }
        }
        i = i + 1;
    }
    assert(regs@.take(regs@.len() as int) =~= regs@);
    proof {
        lemma_type_names(regs@);
        assert forall|q: int| 0 <= q < chosen@.len() implies chosen@[q] < regs@.len()
            && #[trigger] reg_at(regs@, chosen@, q).rust_type@ == type_names(regs@)[q] by {
            let n = type_names(regs@)[q];
            assert(type_names(regs@).contains(n));
            lemma_first_named_range(regs@, n, true);
            lemma_first_named_range(regs@, n, false);
        }
    }
    chosen
}

// ---------------------------------------------------------------------------
// Dependency order
// ---------------------------------------------------------------------------

/// The names of the custom types that `r` refers to.
pub open spec fn deps_of(r: SchemaRegistration) -> Seq<Seq<char>> {
    r.dependent_types@.map_values(|d: &'static str| d@)
}

/// The chosen registration at position `p` of `idx`.
pub open spec fn reg_at(regs: Seq<SchemaRegistration>, idx: Seq<usize>, p: int) -> SchemaRegistration {
    regs[idx[p] as int]
}

/// Some chosen registration is named `n`.
pub open spec fn registered(regs: Seq<SchemaRegistration>, idx: Seq<usize>, n: Seq<char>) -> bool {
    exists|p: int| 0 <= p < idx.len() && #[trigger] reg_at(regs, idx, p).rust_type@ == n
}

/// `e` is the name and schema of a chosen registration.
pub open spec fn from_registry(regs: Seq<SchemaRegistration>, idx: Seq<usize>, e: SchemaEntry) -> bool {
    exists|p: int|
        0 <= p < idx.len() && #[trigger] reg_at(regs, idx, p).rust_type@ == e.rust_type@ && reg_at(
            regs,
            idx,
            p,
        ).zod_ts@ == e.zod_ts@
}

/// Some entry of `o` in positions `lo..hi` is named `n`.
pub open spec fn emitted_between(o: Seq<SchemaEntry>, lo: int, hi: int, n: Seq<char>) -> bool {
    exists|j: int| lo <= j < hi && #[trigger] o[j].rust_type@ == n
}

/// The entries of `o` in positions `lo..hi` have distinct names.
pub open spec fn distinct_between(o: Seq<SchemaEntry>, lo: int, hi: int) -> bool {
    forall|i: int, j: int| lo <= i < j < hi ==> #[trigger] o[i].rust_type@ != #[trigger] o[j].rust_type@
}

/// The names that the walk may visit: the chosen names and their
/// dependencies.
pub open spec fn walk_names(regs: Seq<SchemaRegistration>, idx: Seq<usize>) -> Seq<Seq<char>>
    decreases idx.len(),
{
    if idx.len() == 0 {
        Seq::empty()
    } else {
        walk_names(regs, idx.drop_last()) + seq![regs[idx.last() as int].rust_type@] + deps_of(
            regs[idx.last() as int],
        )
    }
}

proof fn lemma_walk_names(regs: Seq<SchemaRegistration>, idx: Seq<usize>)
    ensures
        forall|p: int|
            0 <= p < idx.len() ==> walk_names(regs, idx).contains(
                #[trigger] reg_at(regs, idx, p).rust_type@,
            ),
        forall|p: int, j: int|
            0 <= p < idx.len() && 0 <= j < deps_of(reg_at(regs, idx, p)).len()
                ==> walk_names(regs, idx).contains(#[trigger] deps_of(reg_at(regs, idx, p))[j]),
    decreases idx.len(),
{
    if idx.len() > 0 {
        let w0 = walk_names(regs, idx.drop_last());
        let last = regs[idx.last() as int];
        let w = walk_names(regs, idx);
        lemma_walk_names(regs, idx.drop_last());
        assert(w == w0 + seq![last.rust_type@] + deps_of(last));
        assert forall|p: int| 0 <= p < idx.len() implies w.contains(
            #[trigger] reg_at(regs, idx, p).rust_type@,
        ) by {
            if p < idx.len() - 1 {
                assert(reg_at(regs, idx.drop_last(), p) == reg_at(regs, idx, p));
                let k = choose|k: int| 0 <= k < w0.len() && w0[k] == reg_at(regs, idx, p).rust_type@;
                assert(w[k] == w0[k]);
            } else {
                assert(w[w0.len() as int] == last.rust_type@);
            }
        }
        assert forall|p: int, j: int|
            0 <= p < idx.len() && 0 <= j < deps_of(reg_at(regs, idx, p)).len() implies w.contains(
            #[trigger] deps_of(reg_at(regs, idx, p))[j],
        ) by {
            if p < idx.len() - 1 {
                assert(reg_at(regs, idx.drop_last(), p) == reg_at(regs, idx, p));
                let x = deps_of(reg_at(regs, idx, p))[j];
                assert(deps_of(reg_at(regs, idx.drop_last(), p))[j] == x);
                let k = choose|k: int| 0 <= k < w0.len() && w0[k] == x;
                assert(w[k] == w0[k]);
            } else {
                assert(w[w0.len() + 1 + j] == deps_of(last)[j]);
            }
        }
    }
}

/// Distinct chosen registrations have distinct names.
pub open spec fn unique_names(regs: Seq<SchemaRegistration>, idx: Seq<usize>) -> bool {
    forall|p: int, q: int|
        0 <= p < q < idx.len() ==> #[trigger] reg_at(regs, idx, p).rust_type@ != #[trigger] reg_at(
            regs,
            idx,
            q,
        ).rust_type@
}

/// `rank` strictly decreases from each chosen registration to each of its
/// registered dependencies (so the dependencies have no cycle).
pub open spec fn ranked(
    regs: Seq<SchemaRegistration>,
    idx: Seq<usize>,
    rank: spec_fn(Seq<char>) -> int,
) -> bool {
    forall|p: int, j: int|
        0 <= p < idx.len() && 0 <= j < deps_of(reg_at(regs, idx, p)).len() && registered(
            regs,
            idx,
            #[trigger] deps_of(reg_at(regs, idx, p))[j],
        ) ==> rank(deps_of(reg_at(regs, idx, p))[j]) < rank(reg_at(regs, idx, p).rust_type@)
}

/// The registered dependencies have no cycle.
pub open spec fn acyclic(regs: Seq<SchemaRegistration>, idx: Seq<usize>) -> bool {
    exists|rank: spec_fn(Seq<char>) -> int| ranked(regs, idx, rank)
}

/// Every entry of `o` comes after the registered types its registration
/// depends on.
pub open spec fn deps_first(o: Seq<SchemaEntry>, regs: Seq<SchemaRegistration>, idx: Seq<usize>) -> bool {
    forall|j: int, p: int, i: int|
        0 <= j < o.len() && 0 <= p < idx.len() && reg_at(regs, idx, p).rust_type@ == o[j].rust_type@
            && 0 <= i < deps_of(reg_at(regs, idx, p)).len() && registered(
            regs,
            idx,
            #[trigger] deps_of(reg_at(regs, idx, p))[i],
        ) ==> #[trigger] emitted_between(o, 0, j, deps_of(reg_at(regs, idx, p))[i])
}

/// `a` has been visited, is registered, and has not been emitted yet: the
/// walk is inside `a`.
pub open spec fn active(
    regs: Seq<SchemaRegistration>,
    idx: Seq<usize>,
    vis: Set<Seq<char>>,
    o: Seq<SchemaEntry>,
    a: Seq<char>,
) -> bool {
    vis.contains(a) && registered(regs, idx, a) && !emitted_between(o, 0, o.len() as int, a)
}

proof fn lemma_prefix_emitted(o: Seq<SchemaEntry>, o2: Seq<SchemaEntry>)
    requires
        o.len() <= o2.len(),
        o2.take(o.len() as int) == o,
    ensures
        forall|lo: int, hi: int, n: Seq<char>|
            0 <= lo <= hi <= o.len() ==> #[trigger] emitted_between(o, lo, hi, n) == #[trigger] emitted_between(
                o2,
                lo,
                hi,
                n,
            ),
{
    assert forall|lo: int, hi: int, n: Seq<char>|
        0 <= lo <= hi <= o.len() implies #[trigger] emitted_between(o, lo, hi, n) == #[trigger] emitted_between(
            o2,
            lo,
            hi,
            n,
        ) by {
        if emitted_between(o, lo, hi, n) {
            let j = choose|j: int| lo <= j < hi && o[j].rust_type@ == n;
            assert(o2.take(o.len() as int)[j] == o[j]);
            assert(o2[j].rust_type@ == n);
        }
        if emitted_between(o2, lo, hi, n) {
            let j = choose|j: int| lo <= j < hi && o2[j].rust_type@ == n;
            assert(o2.take(o.len() as int)[j] == o[j]);
            assert(o[j].rust_type@ == n);
        }
    }
}

/// A prefix-preserving extension keeps `deps_first` for the old entries.
proof fn lemma_deps_first_prefix(
    o: Seq<SchemaEntry>,
    o2: Seq<SchemaEntry>,
    regs: Seq<SchemaRegistration>,
    idx: Seq<usize>,
)
    requires
        o.len() <= o2.len(),
        o2.take(o.len() as int) == o,
        deps_first(o, regs, idx),
    ensures
        forall|j: int, p: int, i: int|
            0 <= j < o.len() && 0 <= p < idx.len() && reg_at(regs, idx, p).rust_type@ == o2[j].rust_type@
                && 0 <= i < deps_of(reg_at(regs, idx, p)).len() && registered(
                regs,
                idx,
                #[trigger] deps_of(reg_at(regs, idx, p))[i],
            ) ==> #[trigger] emitted_between(o2, 0, j, deps_of(reg_at(regs, idx, p))[i]),
{
    lemma_prefix_emitted(o, o2);
    assert forall|j: int, p: int, i: int|
        0 <= j < o.len() && 0 <= p < idx.len() && reg_at(regs, idx, p).rust_type@ == o2[j].rust_type@
            && 0 <= i < deps_of(reg_at(regs, idx, p)).len() && registered(
            regs,
            idx,
            #[trigger] deps_of(reg_at(regs, idx, p))[i],
        ) implies #[trigger] emitted_between(o2, 0, j, deps_of(reg_at(regs, idx, p))[i]) by {
        assert(o2.take(o.len() as int)[j] == o[j]);
        assert(emitted_between(o, 0, j, deps_of(reg_at(regs, idx, p))[i]));
    }
}

/// The position in `idx` of the chosen registration named `name`.
fn find_registration(regs: &[SchemaRegistration], idx: &Vec<usize>, name: &[char]) -> (r: Option<
    usize,
>)
    requires
        forall|p: int| 0 <= p < idx@.len() ==> idx@[p] < regs@.len(),
    ensures
        match r {
            Some(p) => p < idx@.len() && reg_at(regs@, idx@, p as int).rust_type@ == name@,
            None => !registered(regs@, idx@, name@),
        },
{
    let mut p: usize = 0;
    while p < idx.len()
        invariant
            p <= idx@.len(),
            forall|q: int| 0 <= q < idx@.len() ==> idx@[q] < regs@.len(),
            forall|q: int| 0 <= q < p ==> reg_at(regs@, idx@, q).rust_type@ != name@,
        decreases idx@.len() - p,
    {
        let t = chars_of(regs[idx[p]].rust_type);
        if chars_eq(t.as_slice(), name) {
            return Some(p);
        }
        p = p + 1;
    }
    None
}

/// Walk from `name`: mark it visited, walk its dependencies, then emit
/// its schema when it is registered.
fn visit(
    name: &str,
    regs: &[SchemaRegistration],
    idx: &Vec<usize>,
    visited: &mut Vec<Vec<char>>,
    ordered: &mut Vec<SchemaEntry>,
    Ghost(u): Ghost<Set<Seq<char>>>,
    Ghost(rank): Ghost<spec_fn(Seq<char>) -> int>,
)
    requires
        u.finite(),
        u.contains(name@),
        forall|n: Seq<char>|
            #[trigger] emitted_between(old(ordered)@, 0, old(ordered)@.len() as int, n) ==> views(
                old(visited)@,
            ).to_set().contains(n),
        ranked(regs@, idx@, rank) && unique_names(regs@, idx@) ==> deps_first(
            old(ordered)@,
            regs@,
            idx@,
        ),
        ranked(regs@, idx@, rank) && unique_names(regs@, idx@) && registered(regs@, idx@, name@)
            ==> forall|a: Seq<char>|
            #[trigger] active(regs@, idx@, views(old(visited)@).to_set(), old(ordered)@, a) ==> rank(
                a,
            ) > rank(name@),
        forall|p: int| 0 <= p < idx@.len() ==> idx@[p] < regs@.len(),
        forall|p: int, j: int|
            0 <= p < idx@.len() && 0 <= j < deps_of(reg_at(regs@, idx@, p)).len() ==> u.contains(
                #[trigger] deps_of(reg_at(regs@, idx@, p))[j],
            ),
        views(old(visited)@).to_set().subset_of(u),
    ensures
        views(old(visited)@).to_set().subset_of(views(final(visited)@).to_set()),
        views(final(visited)@).to_set().subset_of(u),
        views(final(visited)@).to_set().contains(name@),
        final(ordered)@.len() >= old(ordered)@.len(),
        final(ordered)@.take(old(ordered)@.len() as int) == old(ordered)@,
        forall|j: int|
            old(ordered)@.len() <= j < final(ordered)@.len() ==> from_registry(
                regs@,
                idx@,
                #[trigger] final(ordered)@[j],
            ),
        distinct_between(final(ordered)@, old(ordered)@.len() as int, final(ordered)@.len() as int),
        forall|n: Seq<char>|
            #[trigger] emitted_between(
                final(ordered)@,
                old(ordered)@.len() as int,
                final(ordered)@.len() as int,
                n,
            ) <==> (views(final(visited)@).to_set().contains(n) && !views(
                old(visited)@,
            ).to_set().contains(n) && registered(regs@, idx@, n)),
        forall|n: Seq<char>|
            #[trigger] emitted_between(final(ordered)@, 0, final(ordered)@.len() as int, n) ==> views(
                final(visited)@,
            ).to_set().contains(n),
        ranked(regs@, idx@, rank) && unique_names(regs@, idx@) ==> deps_first(
            final(ordered)@,
            regs@,
            idx@,
        ),
        ranked(regs@, idx@, rank) && unique_names(regs@, idx@) && registered(regs@, idx@, name@)
            ==> emitted_between(final(ordered)@, 0, final(ordered)@.len() as int, name@),
    decreases u.len() - views(old(visited)@).to_set().len(),
{
    let nv = chars_of(name);
    let ghost vis0 = views(visited@).to_set();
    let ghost o0 = ordered@;
    if crate::codegen::holds_text(visited, nv.as_slice()) {
        assert(ordered@.take(o0.len() as int) =~= o0);
        proof {
            if ranked(regs@, idx@, rank) && unique_names(regs@, idx@) && registered(regs@, idx@, name@) {
                if !emitted_between(o0, 0, o0.len() as int, name@) {
                    assert(active(regs@, idx@, vis0, o0, name@));
                }
            }
        }
        return;
    }
    let ghost old_v = views(visited@);
    visited.push(nv);
    proof {
        assert(views(visited@) =~= old_v.push(name@));
        old_v.lemma_push_to_set_commute(name@);
    }
    let ghost vis1 = views(visited@).to_set();
    assert(vis1 == vis0.insert(name@));
    let nv2 = chars_of(name);
    match find_registration(regs, idx, nv2.as_slice()) {
        None => {
            assert(ordered@.take(o0.len() as int) =~= o0);
            assert forall|n: Seq<char>|
                #[trigger] emitted_between(ordered@, o0.len() as int, ordered@.len() as int, n)
                    <==> (views(visited@).to_set().contains(n) && !vis0.contains(n) && registered(
                    regs@,
                    idx@,
                    n,
                )) by {
                if views(visited@).to_set().contains(n) && !vis0.contains(n) {
                    assert(n == name@);
                }
            }
        },
        Some(p) => {
            let k = idx[p];
            let r = &regs[k];
            let mut j: usize = 0;
            while j < r.dependent_types.len()
                invariant
                    j <= r.dependent_types@.len(),
                    u.finite(),
                    u.contains(name@),
                    p < idx@.len(),
                    k == idx@[p as int],
                    *r == regs@[k as int],
                    reg_at(regs@, idx@, p as int).rust_type@ == name@,
                    forall|q: int| 0 <= q < idx@.len() ==> idx@[q] < regs@.len(),
                    forall|q: int, i: int|
                        0 <= q < idx@.len() && 0 <= i < deps_of(reg_at(regs@, idx@, q)).len()
                            ==> u.contains(#[trigger] deps_of(reg_at(regs@, idx@, q))[i]),
                    vis0.subset_of(u),
                    vis0 == views(old(visited)@).to_set(),
                    vis1 == vis0.insert(name@),
                    vis1.subset_of(views(visited@).to_set()),
                    views(visited@).to_set().subset_of(u),
                    ordered@.len() >= o0.len(),
                    ordered@.take(o0.len() as int) == o0,
                    forall|i: int|
                        o0.len() <= i < ordered@.len() ==> from_registry(
                            regs@,
                            idx@,
                            #[trigger] ordered@[i],
                        ),
                    distinct_between(ordered@, o0.len() as int, ordered@.len() as int),
                    forall|n: Seq<char>|
                        #[trigger] emitted_between(ordered@, o0.len() as int, ordered@.len() as int, n)
                            <==> (views(visited@).to_set().contains(n) && !vis0.contains(n)
                            && registered(regs@, idx@, n) && n != name@),
                    !vis0.contains(name@),
                    forall|n: Seq<char>|
                        #[trigger] emitted_between(ordered@, 0, ordered@.len() as int, n) ==> views(
                            visited@,
                        ).to_set().contains(n),
                    forall|n: Seq<char>|
                        #[trigger] emitted_between(o0, 0, o0.len() as int, n) ==> vis0.contains(n),
                    ranked(regs@, idx@, rank) && unique_names(regs@, idx@) ==> deps_first(
                        ordered@,
                        regs@,
                        idx@,
                    ),
                    ranked(regs@, idx@, rank) && unique_names(regs@, idx@) ==> forall|a: Seq<char>|
                        #[trigger] active(regs@, idx@, vis0, o0, a) ==> rank(a) > rank(name@),
                    ranked(regs@, idx@, rank) && unique_names(regs@, idx@) ==> forall|i: int|
                        0 <= i < j && registered(regs@, idx@, #[trigger] deps_of(reg_at(regs@, idx@, p as int))[i])
                            ==> emitted_between(
                            ordered@,
                            0,
                            ordered@.len() as int,
                            deps_of(reg_at(regs@, idx@, p as int))[i],
                        ),
                decreases r.dependent_types@.len() - j,
            {
                let ghost vis_j = views(visited@).to_set();
                let ghost oj = ordered@;
                proof {
                    assert(deps_of(reg_at(regs@, idx@, p as int))[j as int] == r.dependent_types@[j as int]@);
                    vstd::set_lib::lemma_len_subset(vis1, u);
                    vstd::set_lib::lemma_len_subset(vis_j, u);
                    vstd::set_lib::lemma_len_subset(vis1, vis_j);
                    vstd::set_lib::lemma_len_subset(vis0, u);
                    assert(vis1.len() == vis0.len() + 1);
                    assert(0 <= u.len() - vis_j.len() < u.len() - vis0.len());
                    let d = deps_of(reg_at(regs@, idx@, p as int))[j as int];
                    if ranked(regs@, idx@, rank) && unique_names(regs@, idx@) && registered(regs@, idx@, d) {
                        assert(rank(d) < rank(name@));
                        assert forall|a: Seq<char>| #[trigger] active(regs@, idx@, vis_j, oj, a) implies rank(
                            a,
                        ) > rank(d) by {
                            lemma_prefix_emitted(o0, oj);
                            if vis0.contains(a) {
                                if emitted_between(o0, 0, o0.len() as int, a) {
                                    assert(emitted_between(oj, 0, o0.len() as int, a));
                                    let w = choose|w: int| 0 <= w < o0.len() && oj[w].rust_type@ == a;
                                    assert(oj[w].rust_type@ == a);
                                }
                                assert(active(regs@, idx@, vis0, o0, a));
                            } else if a != name@ {
                                assert(emitted_between(oj, o0.len() as int, oj.len() as int, a));
                                let w = choose|w: int| o0.len() <= w < oj.len() && oj[w].rust_type@ == a;
                                assert(oj[w].rust_type@ == a);
                            }
                        }
                    }
                }
                visit(r.dependent_types[j], regs, idx, visited, ordered, Ghost(u), Ghost(rank));
                proof {
                    let o2 = ordered@;
                    let vis2 = views(visited@).to_set();
                    assert(o2.take(o0.len() as int) =~= o0) by {
                        assert(o2.take(oj.len() as int) == oj);
                        assert forall|i: int| 0 <= i < o0.len() implies o2[i] == o0[i] by {
                            assert(o2.take(oj.len() as int)[i] == oj[i]);
                            assert(oj.take(o0.len() as int)[i] == o0[i]);
                        }
                    }
                    assert forall|i: int| o0.len() <= i < o2.len() implies from_registry(
                        regs@,
                        idx@,
                        #[trigger] o2[i],
                    ) by {
                        if i < oj.len() {
                            assert(o2.take(oj.len() as int)[i] == oj[i]);
                        }
                    }
                    assert forall|n: Seq<char>|
                        #[trigger] emitted_between(o2, o0.len() as int, o2.len() as int, n) <==> (
                        vis2.contains(n) && !vis0.contains(n) && registered(regs@, idx@, n) && n
                            != name@) by {
                        if emitted_between(o2, o0.len() as int, o2.len() as int, n) {
                            let i = choose|i: int| o0.len() <= i < o2.len() && o2[i].rust_type@ == n;
                            if i < oj.len() {
                                assert(o2.take(oj.len() as int)[i] == oj[i]);
                                assert(emitted_between(oj, o0.len() as int, oj.len() as int, n));
                            } else {
                                assert(emitted_between(o2, oj.len() as int, o2.len() as int, n));
                            }
                        }
                        if vis2.contains(n) && !vis0.contains(n) && registered(regs@, idx@, n) && n
                            != name@ {
                            if vis_j.contains(n) {
                                assert(emitted_between(oj, o0.len() as int, oj.len() as int, n));
                                let i = choose|i: int| o0.len() <= i < oj.len() && oj[i].rust_type@ == n;
                                assert(o2.take(oj.len() as int)[i] == oj[i]);
                                assert(o2[i].rust_type@ == n);
                            } else {
                                assert(emitted_between(o2, oj.len() as int, o2.len() as int, n));
                                let i = choose|i: int| oj.len() <= i < o2.len() && o2[i].rust_type@ == n;
                                assert(o2[i].rust_type@ == n);
                            }
                        }
                    }
                    lemma_prefix_emitted(oj, o2);
                    if ranked(regs@, idx@, rank) && unique_names(regs@, idx@) {
                        assert forall|i: int|
                            0 <= i < j + 1 && registered(regs@, idx@, #[trigger] deps_of(reg_at(regs@, idx@, p as int))[i])
                                implies emitted_between(
                                o2,
                                0,
                                o2.len() as int,
                                deps_of(reg_at(regs@, idx@, p as int))[i],
                            ) by {
                            let x = deps_of(reg_at(regs@, idx@, p as int))[i];
                            if i < j {
                                assert(emitted_between(oj, 0, oj.len() as int, x));
                                let w = choose|w: int| 0 <= w < oj.len() && oj[w].rust_type@ == x;
                                assert(o2.take(oj.len() as int)[w] == oj[w]);
                                assert(o2[w].rust_type@ == x);
                            }
                        }
                    }
                    assert forall|a: int, b: int|
                        o0.len() <= a < b < o2.len() implies #[trigger] o2[a].rust_type@
                        != #[trigger] o2[b].rust_type@ by {
                        if b < oj.len() {
                            assert(o2.take(oj.len() as int)[a] == oj[a]);
                            assert(o2.take(oj.len() as int)[b] == oj[b]);
                        } else if a < oj.len() {
                            assert(o2.take(oj.len() as int)[a] == oj[a]);
                            let n = o2[a].rust_type@;
                            assert(emitted_between(oj, o0.len() as int, oj.len() as int, n));
                            assert(vis_j.contains(n));
                            if o2[b].rust_type@ == n {
                                assert(emitted_between(o2, oj.len() as int, o2.len() as int, n));
                            }
                        }
                    }
                }
                j = j + 1;
            }
            let ghost vis_f = views(visited@).to_set();
            let ghost of = ordered@;
            let e = SchemaEntry { rust_type: r.rust_type, zod_ts: r.zod_ts.clone() };
            ordered.push(e);
            proof {
                let o2 = ordered@;
                assert(o2.take(o0.len() as int) =~= o0) by {
                    assert forall|i: int| 0 <= i < o0.len() implies o2[i] == o0[i] by {
                        assert(of.take(o0.len() as int)[i] == o0[i]);
                    }
                }
                assert(from_registry(regs@, idx@, o2[of.len() as int])) by {
                    assert(reg_at(regs@, idx@, p as int).rust_type@ == o2[of.len() as int].rust_type@);
                }
                assert forall|i: int| o0.len() <= i < o2.len() implies from_registry(
                    regs@,
                    idx@,
                    #[trigger] o2[i],
                ) by {
                    if i < of.len() {
                        assert(o2[i] == of[i]);
                    }
                }
                assert forall|n: Seq<char>|
                    #[trigger] emitted_between(o2, o0.len() as int, o2.len() as int, n) <==> (
                    vis_f.contains(n) && !vis0.contains(n) && registered(regs@, idx@, n)) by {
                    if emitted_between(o2, o0.len() as int, o2.len() as int, n) {
                        let i = choose|i: int| o0.len() <= i < o2.len() && o2[i].rust_type@ == n;
                        if i < of.len() {
                            assert(o2[i] == of[i]);
                            assert(emitted_between(of, o0.len() as int, of.len() as int, n));
                        } else {
                            assert(n == name@);
                            assert(registered(regs@, idx@, n));
                        }
                    }
                    if vis_f.contains(n) && !vis0.contains(n) && registered(regs@, idx@, n) {
                        if n == name@ {
                            assert(o2[of.len() as int].rust_type@ == n);
                        } else {
                            assert(emitted_between(of, o0.len() as int, of.len() as int, n));
                            let i = choose|i: int| o0.len() <= i < of.len() && of[i].rust_type@ == n;
                            assert(o2[i] == of[i]);
                        }
                    }
                }
                assert forall|a: int, b: int|
                    o0.len() <= a < b < o2.len() implies #[trigger] o2[a].rust_type@
                    != #[trigger] o2[b].rust_type@ by {
                    if b < of.len() {
                        assert(o2[a] == of[a] && o2[b] == of[b]);
                    } else {
                        assert(o2[a] == of[a]);
                        assert(emitted_between(of, o0.len() as int, of.len() as int, of[a].rust_type@));
                    }
                }
                assert(o2.take(of.len() as int) =~= of);
                lemma_prefix_emitted(of, o2);
                assert forall|n: Seq<char>|
                    #[trigger] emitted_between(o2, 0, o2.len() as int, n) implies vis_f.contains(n) by {
                    let i = choose|i: int| 0 <= i < o2.len() && o2[i].rust_type@ == n;
                    if i < of.len() {
                        assert(o2[i] == of[i]);
                        assert(emitted_between(of, 0, of.len() as int, n));
                    }
                }
                if ranked(regs@, idx@, rank) && unique_names(regs@, idx@) {
                    assert(o2[of.len() as int].rust_type@ == name@);
                    assert(emitted_between(o2, 0, o2.len() as int, name@));
                    lemma_deps_first_prefix(of, o2, regs@, idx@);
                    assert forall|jj: int, pp: int, i: int|
                        0 <= jj < o2.len() && 0 <= pp < idx@.len() && reg_at(regs@, idx@, pp).rust_type@
                            == o2[jj].rust_type@ && 0 <= i < deps_of(reg_at(regs@, idx@, pp)).len()
                            && registered(regs@, idx@, #[trigger] deps_of(reg_at(regs@, idx@, pp))[i])
                            implies #[trigger] emitted_between(
                            o2,
                            0,
                            jj,
                            deps_of(reg_at(regs@, idx@, pp))[i],
                        ) by {
                        if jj == of.len() {
                            if pp != p {
                                assert(reg_at(regs@, idx@, pp).rust_type@ != reg_at(regs@, idx@, p as int).rust_type@);
                            }
                            let x = deps_of(reg_at(regs@, idx@, pp))[i];
                            assert(emitted_between(of, 0, of.len() as int, x));
                        }
                    }
                }
            }
        },
    }
}

/// The schemas of the chosen registrations, each type after the types it
/// depends on (when those are registered and not part of a cycle).
pub fn order_schemas(regs: &[SchemaRegistration], idx: &Vec<usize>) -> (r: Vec<SchemaEntry>)
    requires
        forall|p: int| 0 <= p < idx@.len() ==> idx@[p] < regs@.len(),
    ensures
        forall|j: int| 0 <= j < r@.len() ==> from_registry(regs@, idx@, #[trigger] r@[j]),
        distinct_between(r@, 0, r@.len() as int),
        forall|n: Seq<char>|
            #[trigger] emitted_between(r@, 0, r@.len() as int, n) <==> registered(regs@, idx@, n),
        acyclic(regs@, idx@) && unique_names(regs@, idx@) ==> deps_first(r@, regs@, idx@),
{
    let ghost u = walk_names(regs@, idx@).to_set();
    let ghost rank = choose|rank: spec_fn(Seq<char>) -> int| ranked(regs@, idx@, rank);
    proof {
        lemma_walk_names(regs@, idx@);
    }
    let mut visited: Vec<Vec<char>> = Vec::new();
    let mut ordered: Vec<SchemaEntry> = Vec::new();
    let mut p: usize = 0;
    assert(views(visited@).to_set() =~= Set::<Seq<char>>::empty());
    while p < idx.len()
        invariant
            p <= idx@.len(),
            u == walk_names(regs@, idx@).to_set(),
            u.finite(),
            forall|q: int| 0 <= q < idx@.len() ==> idx@[q] < regs@.len(),
            forall|q: int| 0 <= q < idx@.len() ==> u.contains(#[trigger] reg_at(regs@, idx@, q).rust_type@),
            forall|q: int, i: int|
                0 <= q < idx@.len() && 0 <= i < deps_of(reg_at(regs@, idx@, q)).len() ==> u.contains(
                    #[trigger] deps_of(reg_at(regs@, idx@, q))[i],
                ),
            views(visited@).to_set().subset_of(u),
            forall|q: int| 0 <= q < p ==> views(visited@).to_set().contains(#[trigger] reg_at(regs@, idx@, q).rust_type@),
            forall|j: int| 0 <= j < ordered@.len() ==> from_registry(regs@, idx@, #[trigger] ordered@[j]),
            distinct_between(ordered@, 0, ordered@.len() as int),
            forall|n: Seq<char>|
                #[trigger] emitted_between(ordered@, 0, ordered@.len() as int, n) <==> (views(
                    visited@,
                ).to_set().contains(n) && registered(regs@, idx@, n)),
            forall|n: Seq<char>|
                #[trigger] emitted_between(ordered@, 0, ordered@.len() as int, n) ==> views(
                    visited@,
                ).to_set().contains(n),
            acyclic(regs@, idx@) ==> ranked(regs@, idx@, rank),
            ranked(regs@, idx@, rank) && unique_names(regs@, idx@) ==> deps_first(ordered@, regs@, idx@),
        decreases idx@.len() - p,
    {
        let ghost vis0 = views(visited@).to_set();
        let ghost o0 = ordered@;
        proof {
            assert(u.contains(reg_at(regs@, idx@, p as int).rust_type@));
            assert forall|a: Seq<char>| #[trigger] active(regs@, idx@, vis0, o0, a) implies rank(a) > rank(
                reg_at(regs@, idx@, p as int).rust_type@,
            ) by {}
        }
        visit(regs[idx[p]].rust_type, regs, idx, &mut visited, &mut ordered, Ghost(u), Ghost(rank));
        proof {
            let o2 = ordered@;
            let vis2 = views(visited@).to_set();
            assert forall|j: int| 0 <= j < o2.len() implies from_registry(regs@, idx@, #[trigger] o2[j]) by {
                if j < o0.len() {
                    assert(o2.take(o0.len() as int)[j] == o0[j]);
                }
            }
            assert forall|n: Seq<char>|
                #[trigger] emitted_between(o2, 0, o2.len() as int, n) <==> (vis2.contains(n) && registered(
                    regs@,
                    idx@,
                    n,
                )) by {
                if emitted_between(o2, 0, o2.len() as int, n) {
                    let i = choose|i: int| 0 <= i < o2.len() && o2[i].rust_type@ == n;
                    if i < o0.len() {
                        assert(o2.take(o0.len() as int)[i] == o0[i]);
                        assert(emitted_between(o0, 0, o0.len() as int, n));
                    } else {
                        assert(emitted_between(o2, o0.len() as int, o2.len() as int, n));
                    }
                }
                if vis2.contains(n) && registered(regs@, idx@, n) {
                    if vis0.contains(n) {
                        assert(emitted_between(o0, 0, o0.len() as int, n));
                        let i = choose|i: int| 0 <= i < o0.len() && o0[i].rust_type@ == n;
                        assert(o2.take(o0.len() as int)[i] == o0[i]);
                        assert(o2[i].rust_type@ == n);
                    } else {
                        assert(emitted_between(o2, o0.len() as int, o2.len() as int, n));
                        let i = choose|i: int| o0.len() <= i < o2.len() && o2[i].rust_type@ == n;
                        assert(o2[i].rust_type@ == n);
                    }
                }
            }
            assert forall|a: int, b: int|
                0 <= a < b < o2.len() implies #[trigger] o2[a].rust_type@ != #[trigger] o2[b].rust_type@ by {
                if b < o0.len() {
                    assert(o2.take(o0.len() as int)[a] == o0[a]);
                    assert(o2.take(o0.len() as int)[b] == o0[b]);
                } else if a < o0.len() {
                    assert(o2.take(o0.len() as int)[a] == o0[a]);
                    let n = o2[a].rust_type@;
                    assert(emitted_between(o0, 0, o0.len() as int, n));
                    if o2[b].rust_type@ == n {
                        assert(emitted_between(o2, o0.len() as int, o2.len() as int, n));
                    }
                }
            }
        }
        p = p + 1;
    }
    assert forall|n: Seq<char>| registered(regs@, idx@, n) implies views(visited@).to_set().contains(n) by {
        let q = choose|q: int| 0 <= q < idx@.len() && #[trigger] reg_at(regs@, idx@, q).rust_type@ == n;
    }
    assert(ordered@.take(0) =~= Seq::<SchemaEntry>::empty());
    ordered
}

// ---------------------------------------------------------------------------
// Assembling the contract builder
// ---------------------------------------------------------------------------

/// Build the contract builder from the registered handlers, schemas and
/// error types: one schema per type (real schemas preferred over
/// fallbacks), dependencies first.
pub fn contract_from_registrations(
    handlers: &[HandlerMetadata],
    schemas: &[SchemaRegistration],
    errors: &[ErrorRegistration],
) -> (r: ContractBuilder)
    ensures
        r.handlers_spec() == handlers@.map_values(|m: HandlerMetadata| info_of(m)),
        r.errors_spec().len() == errors@.len(),
        forall|i: int|
            0 <= i < errors@.len() ==> (#[trigger] r.errors_spec()[i]).rust_type == errors@[i].rust_type
                && r.errors_spec()[i].variants@.len() == errors@[i].variants@.len() && forall|k: int|
                0 <= k < errors@[i].variants@.len() ==> (#[trigger] r.errors_spec()[i].variants@[k]).name
                    == errors@[i].variants@[k].name && r.errors_spec()[i].variants@[k].data_schema
                    == errors@[i].variants@[k].data_schema,
        ({
            let idx = choose_registrations_spec(schemas@);
            let o = r.schemas_spec();
            &&& forall|j: int| 0 <= j < o.len() ==> from_registry(schemas@, idx, #[trigger] o[j])
            &&& distinct_between(o, 0, o.len() as int)
            &&& forall|n: Seq<char>|
                #[trigger] emitted_between(o, 0, o.len() as int, n) <==> type_names(schemas@).contains(n)
            &&& acyclic(schemas@, idx) ==> deps_first(o, schemas@, idx)
        }),
{
    let mut hs: Vec<HandlerInfo> = Vec::new();
    let mut i: usize = 0;
    while i < handlers.len()
        invariant
            i <= handlers@.len(),
            hs@ == handlers@.take(i as int).map_values(|m: HandlerMetadata| info_of(m)),
        decreases handlers@.len() - i,
    {
        hs.push(handlers[i].handler_info());
        assert(handlers@.take(i + 1).map_values(|m: HandlerMetadata| info_of(m)) =~= handlers@.take(
            i as int,
        ).map_values(|m: HandlerMetadata| info_of(m)).push(info_of(handlers@[i as int])));
        i = i + 1;
    }
    assert(handlers@.take(handlers@.len() as int) =~= handlers@);
    let idx = choose_registrations(schemas);
    let ordered = order_schemas(schemas, &idx);
    proof {
        assert(idx@ == choose_registrations_spec(schemas@)) by {
            assert(idx@ =~= choose_registrations_spec(schemas@));
        }
        assert forall|n: Seq<char>| registered(schemas@, idx@, n) <==> type_names(schemas@).contains(n) by {
            if type_names(schemas@).contains(n) {
                let q = choose|q: int| 0 <= q < type_names(schemas@).len() && type_names(schemas@)[q] == n;
                assert(reg_at(schemas@, idx@, q).rust_type@ == n);
            }
        }
    }
    let mut es: Vec<ErrorInfo> = Vec::new();
    let mut k: usize = 0;
    while k < errors.len()
        invariant
            k <= errors@.len(),
            es@.len() == k,
            forall|q: int|
                0 <= q < k ==> (#[trigger] es@[q]).rust_type == errors@[q].rust_type
                    && es@[q].variants@.len() == errors@[q].variants@.len() && forall|m: int|
                    0 <= m < errors@[q].variants@.len() ==> (#[trigger] es@[q].variants@[m]).name
                        == errors@[q].variants@[m].name && es@[q].variants@[m].data_schema
                        == errors@[q].variants@[m].data_schema,
        decreases errors@.len() - k,
    {
        es.push(errors[k].error_info());
        k = k + 1;
    }
    ContractBuilder::new(hs, ordered).with_errors(es)
}

/// The chosen registration indices as `usize`s.
pub open spec fn choose_registrations_spec(regs: Seq<SchemaRegistration>) -> Seq<usize> {
    chosen_indices(regs).map_values(|k: int| k as usize)
}

} // verus!
