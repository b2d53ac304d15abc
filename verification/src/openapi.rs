//! OpenAPI-style routing metadata with accumulation semantics.
//!
//! Merging two metadata values concatenates their prefixes in order, and
//! lets the second value's method and path override the first's when set.

use crate::route::HttpMethod;
use crate::text::{join, push_str, IntoText};
use vstd::prelude::*;

verus! {

/// Mathematical model of routing metadata.
pub struct MetaView {
    pub method: Option<HttpMethod>,
    pub path: Option<Seq<char>>,
    pub prefixes: Seq<Seq<char>>,
}

/// The metadata with nothing set.
pub open spec fn empty_meta() -> MetaView {
    MetaView { method: None, path: None, prefixes: Seq::empty() }
}

/// `base` merged with `other`: prefixes accumulate, method and path of
/// `other` win when present.
pub open spec fn merged(base: MetaView, other: MetaView) -> MetaView {
    MetaView {
        method: if other.method is Some { other.method } else { base.method },
        path: if other.path is Some { other.path } else { base.path },
        prefixes: base.prefixes + other.prefixes,
    }
}

/// The concatenation of all prefixes followed by the path, when a path is set.
pub open spec fn full_path_of(m: MetaView) -> Option<Seq<char>> {
    match m.path {
        Some(p) => Some(join(m.prefixes, Seq::empty()) + p),
        None => None,
    }
}

/// Views of a list of strings.
pub open spec fn texts(v: Seq<String>) -> Seq<Seq<char>> {
    v.map_values(|s: String| s@)
}

/// OpenAPI metadata for procedure routing.
#[derive(Debug, Clone, PartialEq)]
pub struct OpenApiMeta {
    /// HTTP method. Last value wins when merging.
    pub method: Option<HttpMethod>,
    /// Path template (e.g., `/planets/{id}`). Last value wins when merging.
    pub path: Option<String>,
    /// Path prefixes, concatenated when merging.
    pub prefixes: Vec<String>,
}

impl OpenApiMeta {
    /// The mathematical model of this metadata.
    pub open spec fn view(&self) -> MetaView {
        MetaView {
            method: self.method,
            path: match self.path {
                Some(p) => Some(p@),
                None => None,
            },
            prefixes: texts(self.prefixes@),
        }
    }

    /// Creates an empty OpenApiMeta.
    pub fn new() -> (m: Self)
        ensures
            m.view() == empty_meta(),
    {
        let m = OpenApiMeta { method: None, path: None, prefixes: Vec::new() };
        assert(m.view().prefixes =~= Seq::<Seq<char>>::empty());
        m
    }

    /// Merges another OpenApiMeta into this one.
    pub fn merge(&mut self, other: OpenApiMeta)
        ensures
            final(self).view() == merged(old(self).view(), other.view()),
    {
        let ghost a = self.view();
        let ghost b = other.view();
        let mut other_prefixes = other.prefixes;
        self.prefixes.append(&mut other_prefixes);
        if other.method.is_some() {
            self.method = other.method;
        }
        if other.path.is_some() {
            self.path = other.path;
        }
        assert(self.view().prefixes =~= a.prefixes + b.prefixes);
    }

    /// Whether both a method and a path are set.
    pub fn has_complete_route(&self) -> (r: bool)
        ensures
            r == (self.method is Some && self.path is Some),
    {
        self.method.is_some() && self.path.is_some()
    }

    /// The full path: all prefixes concatenated, then the path.
    pub fn full_path(&self) -> (r: Option<String>)
        ensures
            match r {
                Some(s) => full_path_of(self.view()) == Some(s@),
                None => full_path_of(self.view()) is None,
            },
    {
        match &self.path {
            None => None,
            Some(path) => {
                let mut out = String::new();
                let mut i: usize = 0;
                while i < self.prefixes.len()
                    invariant
                        i <= self.prefixes@.len(),
                        out@ == join(texts(self.prefixes@).take(i as int), Seq::empty()),
                    decreases self.prefixes@.len() - i,
                {
                    proof {
                        let t = texts(self.prefixes@);
                        assert(t.take(i + 1) =~= t.take(i as int).push(t[i as int]));
                        crate::text::lemma_join_push(t.take(i as int), Seq::empty(), t[i as int]);
                        if i == 0 {
                            assert(t.take(0) =~= Seq::<Seq<char>>::empty());
                        }
                    }
                    push_str(&mut out, self.prefixes[i].as_str());
                    i = i + 1;
                }
                assert(texts(self.prefixes@).take(self.prefixes@.len() as int) =~= texts(
                    self.prefixes@,
                ));
                push_str(&mut out, path.as_str());
                Some(out)
            },
        }
    }
}

impl Default for OpenApiMeta {
    fn default() -> (m: Self)
        ensures
            m.view() == empty_meta(),
    {
        OpenApiMeta::new()
    }
}

/// Builder for constructing OpenApiMeta with a fluent API.
#[derive(Debug, Clone)]
pub struct OpenApiMetaBuilder {
    method: Option<HttpMethod>,
    path: Option<String>,
    prefixes: Vec<String>,
}

impl OpenApiMetaBuilder {
    /// The metadata this builder will produce.
    pub closed spec fn view(&self) -> MetaView {
        MetaView {
            method: self.method,
            path: match self.path {
                Some(p) => Some(p@),
                None => None,
            },
            prefixes: texts(self.prefixes@),
        }
    }

    /// Creates a new empty builder.
    pub fn new() -> (b: Self)
        ensures
            b.view() == empty_meta(),
    {
        let b = OpenApiMetaBuilder { method: None, path: None, prefixes: Vec::new() };
        assert(b.view().prefixes =~= Seq::<Seq<char>>::empty());
        b
    }

    /// Sets the HTTP method.
    pub fn method(self, method: HttpMethod) -> (b: Self)
        ensures
            b.view() == (MetaView { method: Some(method), ..self.view() }),
    {
        OpenApiMetaBuilder { method: Some(method), path: self.path, prefixes: self.prefixes }
    }

    /// Sets the path template.
    pub fn path<P: IntoText>(self, path: P) -> (b: Self)
        ensures
            b.view() == (MetaView { path: Some(path.text_view()), ..self.view() }),
    {
        OpenApiMetaBuilder {
            method: self.method,
            path: Some(path.into_text()),
            prefixes: self.prefixes,
        }
    }

    /// Adds a path prefix.
    pub fn prefix<P: IntoText>(self, prefix: P) -> (b: Self)
        ensures
            b.view() == (MetaView {
                prefixes: self.view().prefixes.push(prefix.text_view()),
                ..self.view()
            }),
    {
        let mut prefixes = self.prefixes;
        let ghost old_prefixes = prefixes@;
        let p = prefix.into_text();
        prefixes.push(p);
        let b = OpenApiMetaBuilder { method: self.method, path: self.path, prefixes };
        assert(texts(prefixes@) =~= texts(old_prefixes).push(p@));
        b
    }

    /// Builds the final OpenApiMeta.
    pub fn build(self) -> (m: OpenApiMeta)
        ensures
            m.view() == self.view(),
    {
        OpenApiMeta { method: self.method, path: self.path, prefixes: self.prefixes }
    }
}

impl Default for OpenApiMetaBuilder {
    fn default() -> (b: Self)
        ensures
            b.view() == empty_meta(),
    {
        OpenApiMetaBuilder::new()
    }
}

/// Entry point for building OpenAPI metadata.
pub fn openapi_builder() -> (b: OpenApiMetaBuilder)
    ensures
        b.view() == empty_meta(),
{
    OpenApiMetaBuilder::new()
}

// ---------------------------------------------------------------------------
// Laws
// ---------------------------------------------------------------------------

/// Merging is associative: merging `b` then `c` into `a` equals merging the
/// merge of `b` and `c` into `a`.
pub proof fn law_merge_associative(a: MetaView, b: MetaView, c: MetaView)
    ensures
        merged(merged(a, b), c) == merged(a, merged(b, c)),
{
    assert(a.prefixes + b.prefixes + c.prefixes =~= a.prefixes + (b.prefixes + c.prefixes));
}

/// Empty metadata is a neutral element of merging, on both sides.
pub proof fn law_merge_identity(a: MetaView)
    ensures
        merged(a, empty_meta()) == a,
        merged(empty_meta(), a) == a,
{
    assert(a.prefixes + Seq::<Seq<char>>::empty() =~= a.prefixes);
    assert(Seq::<Seq<char>>::empty() + a.prefixes =~= a.prefixes);
}

/// Merging is idempotent on method and path: merging the same metadata
/// twice keeps method and path and repeats the prefixes.
pub proof fn law_merge_twice(a: MetaView, b: MetaView)
    ensures
        merged(merged(a, b), b).method == merged(a, b).method,
        merged(merged(a, b), b).path == merged(a, b).path,
        merged(merged(a, b), b).prefixes == a.prefixes + b.prefixes + b.prefixes,
{
}

/// The full path of merged metadata is the first value's prefixes, the
/// second value's prefixes, then the winning path.
pub proof fn law_full_path_of_merge(a: MetaView, b: MetaView)
    ensures
        full_path_of(merged(a, b)) == match merged(a, b).path {
            Some(p) => Some(
                join(a.prefixes, Seq::empty()) + join(b.prefixes, Seq::empty()) + p,
            ),
            None => None,
        },
{
    lemma_join_empty_append(a.prefixes, b.prefixes);
}

/// Joining without a separator distributes over concatenation.
pub proof fn lemma_join_empty_append(a: Seq<Seq<char>>, b: Seq<Seq<char>>)
    ensures
        join(a + b, Seq::empty()) == join(a, Seq::empty()) + join(b, Seq::empty()),
    decreases b.len(),
{
    let e = Seq::<char>::empty();
    if b.len() == 0 {
        assert(a + b =~= a);
        assert(join(a, e) + join(b, e) =~= join(a, e));
    } else {
        lemma_join_empty_append(a, b.drop_last());
        assert((a + b).drop_last() =~= a + b.drop_last());
        assert((a + b).last() == b.last());
        if b.len() == 1 {
            assert(b.drop_last() =~= Seq::<Seq<char>>::empty());
            assert(a + b.drop_last() =~= a);
            if a.len() == 0 {
                assert(a + b =~= b);
            } else {
                assert(join(a, e) + e + b.last() =~= join(a, e) + b[0]);
            }
        } else {
            assert(join(a + b.drop_last(), e) + e + b.last() =~= join(a, e) + (join(
                b.drop_last(),
                e,
            ) + e + b.last()));
        }
    }
}

/// The order in which method, path and prefixes are set on a builder does
/// not matter, except among prefixes themselves.
pub proof fn law_builder_order_independent(
    b: MetaView,
    m: HttpMethod,
    p: Seq<char>,
    x: Seq<char>,
)
    ensures
        (MetaView {
            prefixes: (MetaView { path: Some(p), ..(MetaView { method: Some(m), ..b }) }).prefixes.push(x),
            ..(MetaView { path: Some(p), ..(MetaView { method: Some(m), ..b }) })
        }) == (MetaView {
            path: Some(p),
            ..(MetaView { method: Some(m), ..(MetaView { prefixes: b.prefixes.push(x), ..b }) })
        }),
{
}

} // verus!
