//! Module-path filters for building a router from the registered handlers.
//!
//! A filter is one pattern or a list of patterns. A pattern names a module
//! (`"handlers::planet"`), a module with a wildcard (`"handlers::*"`), or a
//! brace group (`"handlers::{planet,user}"`). A handler is included when
//! its module is one of the expanded patterns or lies below one of them.

use crate::registry::HandlerMetadata;
use crate::text::{
    chars_of, extend_chars, first_index_of, has_prefix, has_suffix, join, lemma_first_index_of,
    slice_chars, split_chars, split_on, str_ends_with, string_of, trim, trim_chars, find_char,
};
use vstd::prelude::*;

verus! {

/// Module path filter pattern.
#[derive(Clone, Debug)]
pub enum Pattern {
    /// `"handlers::planet"`: a single pattern
    Single(String),
    /// `["handlers::planet", "handlers::user"]`: several patterns
    Multiple(Vec<String>),
}

/// A wildcard pattern `..::*` without its `*`.
pub open spec fn normalised(p: Seq<char>) -> Seq<char> {
    if has_suffix(p, "::*"@) {
        p.drop_last()
    } else {
        p
    }
}

/// The first `}` of `p` does not come before its first `{` (when both
/// occur); other patterns would make the brace group ill-formed.
pub open spec fn braces_ordered(p: Seq<char>) -> bool {
    match (first_index_of(p, '{'), first_index_of(p, '}')) {
        (Some(s), Some(e)) => s < e,
        _ => true,
    }
}

/// The patterns that `p` expands to: one per comma-separated member of its
/// first brace group (trimmed, between the text before and after the
/// group), or `p` itself; each without a trailing wildcard.
pub open spec fn expanded(p: Seq<char>) -> Seq<Seq<char>> {
    match (first_index_of(p, '{'), first_index_of(p, '}')) {
        (Some(s), Some(e)) => {
            let prefix = p.take(s);
            let suffix = p.skip(e + 1);
            split_on(p.subrange(s + 1, e), ',').map_values(
                |seg: Seq<char>| normalised(prefix + trim(seg) + suffix),
            )
        },
        _ => seq![normalised(p)],
    }
}

/// Strip a trailing `*` after `::`.
pub fn normalise(pattern: String) -> (r: String)
    ensures
        r@ == normalised(pattern@),
{
    let v = chars_of(pattern.as_str());
    if str_ends_with(v.as_slice(), "::*") {
        proof {
            reveal_strlit("::*");
        }
        let n = v.len();
        let w = slice_chars(v.as_slice(), 0, n - 1);
        assert(w@ =~= pattern@.drop_last());
        string_of(w.as_slice())
    } else {
        pattern
    }
}

/// Expand a single pattern without braces: trimmed, and a wildcard
/// `handlers::*` turned into the prefix form `handlers::`.
pub fn expand_single_pattern(pattern: &str) -> (r: String)
    ensures
        r@ == normalised(trim(pattern@)),
{
    let v = chars_of(pattern);
    let t = trim_chars(v.as_slice());
    normalise(string_of(t.as_slice()))
}

/// Expand a pattern string, handling brace groups and wildcards.
///
/// `"handlers::{planet,user}"` gives `["handlers::planet", "handlers::user"]`;
/// `"handlers::*"` gives `["handlers::"]` (a prefix match).
pub fn expand_pattern(pattern: &str) -> (r: Vec<String>)
    requires
        braces_ordered(pattern@),
    ensures
        r@.map_values(|s: String| s@) == expanded(pattern@),
{
    let v = chars_of(pattern);
    let mut out: Vec<String> = Vec::new();
    proof {
        lemma_first_index_of(v@, '{');
        lemma_first_index_of(v@, '}');
    }
    match (find_char(v.as_slice(), '{'), find_char(v.as_slice(), '}')) {
        (Some(start), Some(end)) => {
            let n = v.len();
            let prefix = slice_chars(v.as_slice(), 0, start);
            let group = slice_chars(v.as_slice(), start + 1, end);
            let suffix = slice_chars(v.as_slice(), end + 1, n);
            let segs = split_chars(group.as_slice(), ',');
            let ghost sv = split_on(group@, ',');
            let ghost ex = expanded(pattern@);
            assert(prefix@ =~= pattern@.take(start as int));
            assert(suffix@ =~= pattern@.skip(end + 1));
            let mut i: usize = 0;
            while i < segs.len()
                invariant
                    i <= segs@.len(),
                    segs@.map_values(|x: Vec<char>| x@) == sv,
                    ex == sv.map_values(
                        |seg: Seq<char>| normalised(prefix@ + trim(seg) + suffix@),
                    ),
                    out@.map_values(|s: String| s@) == ex.take(i as int),
                decreases segs@.len() - i,
            {
                let mut e: Vec<char> = Vec::new();
                extend_chars(&mut e, prefix.as_slice());
                let t = trim_chars(segs[i].as_slice());
                extend_chars(&mut e, t.as_slice());
                extend_chars(&mut e, suffix.as_slice());
                let ghost before = out@.map_values(|s: String| s@);
                assert(segs@[i as int]@ == sv[i as int]);
                out.push(normalise(string_of(e.as_slice())));
                assert(out@.map_values(|s: String| s@) =~= before.push(ex[i as int]));
                assert(ex.take(i + 1) =~= ex.take(i as int).push(ex[i as int]));
                i = i + 1;
            }
            assert(ex.take(segs@.len() as int) =~= ex);
            out
        },
        _ => {
            out.push(normalise(string_of(v.as_slice())));
            assert(out@.map_values(|s: String| s@) =~= expanded(pattern@));
            out
        },
    }
}

/// The expansions of several patterns, in order.
pub open spec fn expanded_all(ps: Seq<Seq<char>>) -> Seq<Seq<char>>
    decreases ps.len(),
{
    if ps.len() == 0 {
        Seq::empty()
    } else {
        expanded_all(ps.drop_last()) + expanded(ps.last())
    }
}

/// Every pattern of a filter has its braces in order.
pub open spec fn filter_well_formed(p: Pattern) -> bool {
    match p {
        Pattern::Single(s) => braces_ordered(s@),
        Pattern::Multiple(v) => forall|i: int| 0 <= i < v@.len() ==> braces_ordered(#[trigger] v@[i]@),
    }
}

/// The expanded patterns of a filter.
pub open spec fn filter_patterns(p: Pattern) -> Seq<Seq<char>> {
    match p {
        Pattern::Single(s) => expanded(s@),
        Pattern::Multiple(v) => expanded_all(v@.map_values(|s: String| s@)),
    }
}

/// The expanded patterns of a filter.
pub fn expand_filter(p: &Pattern) -> (r: Vec<String>)
    requires
        filter_well_formed(*p),
    ensures
        r@.map_values(|s: String| s@) == filter_patterns(*p),
{
    match p {
        Pattern::Single(s) => expand_pattern(s.as_str()),
        Pattern::Multiple(v) => {
            let ghost vs = v@.map_values(|s: String| s@);
            let mut out: Vec<String> = Vec::new();
            let mut i: usize = 0;
            while i < v.len()
                invariant
                    i <= v@.len(),
                    vs == v@.map_values(|s: String| s@),
                    forall|k: int| 0 <= k < v@.len() ==> braces_ordered(#[trigger] v@[k]@),
                    out@.map_values(|s: String| s@) == expanded_all(vs.take(i as int)),
                decreases v@.len() - i,
            {
                assert(vs.take(i + 1).drop_last() =~= vs.take(i as int));
                assert(vs.take(i + 1).last() == v@[i as int]@);
                let e = expand_pattern(v[i].as_str());
                let ghost before = out@.map_values(|s: String| s@);
                let mut j: usize = 0;
                while j < e.len()
                    invariant
                        j <= e@.len(),
                        out@.map_values(|s: String| s@) == before + e@.map_values(
                            |s: String| s@,
                        ).take(j as int),
                    decreases e@.len() - j,
                {
                    let ghost b2 = out@.map_values(|s: String| s@);
                    out.push(e[j].clone());
                    assert(out@.map_values(|s: String| s@) =~= b2.push(e@[j as int]@));
                    assert(e@.map_values(|s: String| s@).take(j + 1) =~= e@.map_values(
                        |s: String| s@,
                    ).take(j as int).push(e@[j as int]@));
                    j = j + 1;
                }
                assert(e@.map_values(|s: String| s@).take(e@.len() as int) =~= e@.map_values(
                    |s: String| s@,
                ));
                i = i + 1;
            }
            assert(vs.take(v@.len() as int) =~= vs);
            out
        },
    }
}

/// The module `m` is one of the patterns or lies below one of them.
pub open spec fn module_selected(pats: Seq<Seq<char>>, m: Seq<char>) -> bool {
    exists|i: int| 0 <= i < pats.len() && (m == #[trigger] pats[i] || has_prefix(m, pats[i] + "::"@))
}

/// Whether the module `module` is selected by the expanded patterns.
pub fn module_matches(patterns: &Vec<String>, module: &str) -> (r: bool)
    ensures
        r == module_selected(patterns@.map_values(|s: String| s@), module@),
{
    let ghost pv = patterns@.map_values(|s: String| s@);
    let mv = chars_of(module);
    let mut i: usize = 0;
    while i < patterns.len()
        invariant
            i <= patterns@.len(),
            pv == patterns@.map_values(|s: String| s@),
            mv@ == module@,
            forall|k: int| 0 <= k < i ==> !(mv@ == #[trigger] pv[k] || has_prefix(mv@, pv[k] + "::"@)),
        decreases patterns@.len() - i,
    {
        let mut pat = chars_of(patterns[i].as_str());
        let exact = crate::text::chars_eq(mv.as_slice(), pat.as_slice());
        crate::text::extend_str(&mut pat, "::");
        let below = crate::text::starts_with(mv.as_slice(), pat.as_slice());
        assert(pv[i as int] == patterns@[i as int]@);
        if exact || below {
            return true;
        }
        i = i + 1;
    }
    false
}

/// The first handler registered for `path` and `method`.
pub open spec fn first_route(hs: Seq<HandlerMetadata>, path: Seq<char>, method: Seq<char>) -> Option<
    int,
>
    decreases hs.len(),
{
    if hs.len() == 0 {
        None
    } else {
        match first_route(hs.drop_last(), path, method) {
            Some(k) => Some(k),
            None => if hs.last().path@ == path && hs.last().method@ == method {
                Some(hs.len() - 1)
            } else {
                None
            },
        }
    }
}

/// Whether the route `method path` is included by the filter: always
/// without a filter or with no expanded patterns; otherwise when the first
/// handler registered for the route lies in a selected module.
pub open spec fn route_included(
    filter: Option<Pattern>,
    hs: Seq<HandlerMetadata>,
    path: Seq<char>,
    method: Seq<char>,
) -> bool {
    match filter {
        None => true,
        Some(p) => {
            let pats = filter_patterns(p);
            if pats.len() == 0 {
                true
            } else {
                match first_route(hs, path, method) {
                    Some(k) => module_selected(pats, hs[k].rust_module@),
                    None => false,
                }
            }
        },
    }
}

/// Whether the registered route `method path` belongs in a router built
/// with the module filter `filter`.
pub fn includes_route(
    filter: &Option<Pattern>,
    handlers: &[HandlerMetadata],
    path: &str,
    method: &str,
) -> (r: bool)
    requires
        *filter matches Some(p) ==> filter_well_formed(p),
    ensures
        r == route_included(*filter, handlers@, path@, method@),
{
    let p = match filter {
        None => {
            return true;
        },
        Some(p) => p,
    };
    let pats = expand_filter(p);
    if pats.len() == 0 {
        return true;
    }
    let pv = chars_of(path);
    let mv = chars_of(method);
    let mut i: usize = 0;
    assert(handlers@.take(0) =~= Seq::<HandlerMetadata>::empty());
    while i < handlers.len()
        invariant
            i <= handlers@.len(),
            pv@ == path@,
            mv@ == method@,
            *filter == Some(*p),
            pats@.map_values(|s: String| s@) == filter_patterns(*p),
            pats@.len() > 0,
            first_route(handlers@.take(i as int), path@, method@) is None,
        decreases handlers@.len() - i,
    {
        let h = &handlers[i];
        let hp = chars_of(h.path);
        let hm = chars_of(h.method);
        assert(handlers@.take(i + 1).drop_last() =~= handlers@.take(i as int));
        assert(handlers@.take(i + 1).last() == handlers@[i as int]);
        if crate::text::chars_eq(hp.as_slice(), pv.as_slice()) && crate::text::chars_eq(
            hm.as_slice(),
            mv.as_slice(),
        ) {
            proof {
                assert(first_route(handlers@.take(i + 1), path@, method@) == Some(i as int));
                lemma_first_route_prefix(handlers@, i as int + 1, path@, method@);
                assert(route_included(*filter, handlers@, path@, method@) == module_selected(
                    pats@.map_values(|s: String| s@),
                    handlers@[i as int].rust_module@,
                ));
            }
            let res = module_matches(&pats, h.rust_module);
            return res;
        }
        i = i + 1;
    }
    assert(handlers@.take(handlers@.len() as int) =~= handlers@);
    false
}

/// Once found in a prefix, the first route stays the first route.
proof fn lemma_first_route_prefix(hs: Seq<HandlerMetadata>, n: int, path: Seq<char>, method: Seq<char>)
    requires
        0 <= n <= hs.len(),
        first_route(hs.take(n), path, method) is Some,
    ensures
        first_route(hs, path, method) == first_route(hs.take(n), path, method),
    decreases hs.len() - n,
{
    if n < hs.len() {
        assert(hs.take(n + 1).drop_last() =~= hs.take(n));
        lemma_first_route_prefix(hs, n + 1, path, method);
    } else {
        assert(hs.take(n) =~= hs);
    }
}

/// Whether the first `}` of `p` does not come before its first `{`.
fn braces_ordered_exec(p: &str) -> (r: bool)
    ensures
        r == braces_ordered(p@),
{
    let v = chars_of(p);
    match (find_char(v.as_slice(), '{'), find_char(v.as_slice(), '}')) {
        (Some(s), Some(e)) => s < e,
        _ => true,
    }
}

/// Whether every pattern of the filter has its braces in order (the
/// precondition of expanding it).
pub fn pattern_well_formed(p: &Pattern) -> (r: bool)
    ensures
        r == filter_well_formed(*p),
{
    match p {
        Pattern::Single(s) => braces_ordered_exec(s.as_str()),
        Pattern::Multiple(v) => {
            let mut i: usize = 0;
            while i < v.len()
                invariant
                    i <= v@.len(),
                    filter_well_formed(*p) == (forall|k: int|
                        0 <= k < v@.len() ==> braces_ordered(#[trigger] v@[k]@)),
                    forall|k: int| 0 <= k < i ==> braces_ordered(#[trigger] v@[k]@),
                decreases v@.len() - i,
            {
                if !braces_ordered_exec(v[i].as_str()) {
                    assert(!braces_ordered(v@[i as int]@));
                    return false;
                }
                i = i + 1;
            }
            true
        },
    }
}

// ---------------------------------------------------------------------------
// router!(state?, pattern?)
// ---------------------------------------------------------------------------

/// The kind of one argument of `router!(..)`: a pattern (a string literal
/// or an array of them) or a state expression.
#[derive(Clone, Copy, Debug, PartialEq, Eq, Structural)]
pub enum RouterArgKind {
    Pattern,
    State,
}

/// Why the arguments of `router!(..)` were refused.
#[derive(Clone, Copy, Debug, PartialEq, Eq, Structural)]
pub enum RouterArgsError {
    PatternTwice,
    StateTwice,
}

/// The positions of the state and the pattern among the arguments, or the
/// first kind given twice.
pub open spec fn router_args(kinds: Seq<RouterArgKind>) -> Result<(Option<int>, Option<int>), RouterArgsError>
    decreases kinds.len(),
{
    if kinds.len() == 0 {
        Ok((None, None))
    } else {
        match router_args(kinds.drop_last()) {
            Err(e) => Err(e),
            Ok((st, pat)) => {
                let i = kinds.len() - 1;
                match kinds.last() {
                    RouterArgKind::Pattern => if pat is Some {
                        Err(RouterArgsError::PatternTwice)
                    } else {
                        Ok((st, Some(i)))
                    },
                    RouterArgKind::State => if st is Some {
                        Err(RouterArgsError::StateTwice)
                    } else {
                        Ok((Some(i), pat))
                    },
                }
            },
        }
    }
}

/// The view of an optional position.
pub open spec fn pos_view(o: Option<usize>) -> Option<int> {
    match o {
        Some(i) => Some(i as int),
        None => None,
    }
}

/// Assigns the arguments of `router!(..)`, in any order, to the state and
/// the pattern: each may be given at most once.
pub fn assign_router_args(kinds: &[RouterArgKind]) -> (r: Result<(Option<usize>, Option<usize>), RouterArgsError>)
    ensures
        match router_args(kinds@) {
            Ok((st, pat)) => r matches Ok((a, b)) && pos_view(a) == st && pos_view(b) == pat,
            Err(e) => r == Err::<(Option<usize>, Option<usize>), RouterArgsError>(e),
        },
{
    let mut state: Option<usize> = None;
    let mut pattern: Option<usize> = None;
    let mut i: usize = 0;
    assert(kinds@.take(0) =~= Seq::<RouterArgKind>::empty());
    while i < kinds.len()
        invariant
            i <= kinds@.len(),
            router_args(kinds@.take(i as int)) matches Ok((st, pat)) && pos_view(state) == st
                && pos_view(pattern) == pat,
        decreases kinds@.len() - i,
    {
        assert(kinds@.take(i + 1).drop_last() =~= kinds@.take(i as int));
        assert(kinds@.take(i + 1).last() == kinds@[i as int]);
        match kinds[i] {
            RouterArgKind::Pattern => {
                if pattern.is_some() {
                    proof {
                        lemma_router_args_err(kinds@, i + 1);
                    }
                    return Err(RouterArgsError::PatternTwice);
                }
                pattern = Some(i);
            },
            RouterArgKind::State => {
                if state.is_some() {
                    proof {
                        lemma_router_args_err(kinds@, i + 1);
                    }
                    return Err(RouterArgsError::StateTwice);
                }
                state = Some(i);
            },
        }
        i = i + 1;
    }
    assert(kinds@.take(kinds@.len() as int) =~= kinds@);
    Ok((state, pattern))
}

/// Once refused, the assignment stays refused with the same error.
proof fn lemma_router_args_err(kinds: Seq<RouterArgKind>, n: int)
    requires
        0 <= n <= kinds.len(),
        router_args(kinds.take(n)) is Err,
    ensures
        router_args(kinds) == router_args(kinds.take(n)),
    decreases kinds.len() - n,
{
    if n < kinds.len() {
        assert(kinds.take(n + 1).drop_last() =~= kinds.take(n));
        lemma_router_args_err(kinds, n + 1);
    } else {
        assert(kinds.take(n) =~= kinds);
    }
}

impl RouterArgsError {
    /// The message reported for the error.
    pub fn message(&self) -> (r: &'static str)
        ensures
            r@ == match *self {
                RouterArgsError::PatternTwice => "router!(): pattern specified twice"@,
                RouterArgsError::StateTwice => "router!(): state specified twice"@,
            },
    {
        match self {
            RouterArgsError::PatternTwice => "router!(): pattern specified twice",
            RouterArgsError::StateTwice => "router!(): state specified twice",
        }
    }
}

} // verus!
