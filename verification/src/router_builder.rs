//! The router builder behind `router!`: procedures and nested routers,
//! flattened into a procedure registry.
//!
//! A procedure is keyed by its route path; a nested router by the key it
//! was nested under. Registering a router inserts every procedure of the
//! tree, depth first and in order, at its route path.

use crate::builder::{route_view, RouteView};
use crate::procedures::ProcedureRegistry;
use crate::route::RouteMetadata;
use crate::text::{chars_of, extend_str, string_of, IntoText};
use vstd::prelude::*;

verus! {

/// One entry of a router.
pub enum RouterEntry<H> {
    /// A procedure: its handler and route.
    Procedure { handler: H, route: RouteMetadata },
    /// A nested router.
    Nested(RouterBuilder<H>),
}

/// Fluent builder of a router tree.
pub struct RouterBuilder<H> {
    entries: Vec<(String, RouterEntry<H>)>,
}

/// The procedures of a list of entries, depth first and in order: each
/// as its route path with its handler and route.
pub closed spec fn flat<H>(es: Seq<(String, RouterEntry<H>)>) -> Seq<(Seq<char>, (H, RouteView))>
    decreases es,
{
    if es.len() == 0 {
        Seq::empty()
    } else {
        let head = match es[0].1 {
            RouterEntry::Procedure { handler, route } => seq![(route.path@, (handler, route_view(route)))],
            RouterEntry::Nested(b) => {
                proof {
                    assert(decreases_to!(es => es[0]));
                    assert(decreases_to!(b.entries => b.entries@));
                }
                flat(b.entries@)
            },
        };
        head + flat(es.subrange(1, es.len() as int))
    }
}

/// The map after inserting each pair of `s` in order.
pub open spec fn insert_all<H>(m: Map<Seq<char>, (H, RouteView)>, s: Seq<(Seq<char>, (H, RouteView))>) -> Map<
    Seq<char>,
    (H, RouteView),
>
    decreases s.len(),
{
    if s.len() == 0 {
        m
    } else {
        insert_all(m.insert(s[0].0, s[0].1), s.subrange(1, s.len() as int))
    }
}

/// Inserting two sequences in turn is inserting their concatenation.
pub proof fn lemma_insert_all_concat<H>(
    m: Map<Seq<char>, (H, RouteView)>,
    a: Seq<(Seq<char>, (H, RouteView))>,
    b: Seq<(Seq<char>, (H, RouteView))>,
)
    ensures
        insert_all(m, a + b) == insert_all(insert_all(m, a), b),
    decreases a.len(),
{
    if a.len() == 0 {
        assert(a + b =~= b);
    } else {
        assert((a + b).subrange(1, (a + b).len() as int) =~= a.subrange(1, a.len() as int) + b);
        lemma_insert_all_concat(m.insert(a[0].0, a[0].1), a.subrange(1, a.len() as int), b);
    }
}

impl<H> RouterBuilder<H> {
    /// The procedures of the router, depth first and in order.
    pub closed spec fn procedures(&self) -> Seq<(Seq<char>, (H, RouteView))> {
        flat(self.entries@)
    }

    /// The keys of the router's own entries, in order.
    pub closed spec fn keys(&self) -> Seq<Seq<char>> {
        self.entries@.map_values(|e: (String, RouterEntry<H>)| e.0@)
    }

    /// An empty router.
    pub fn new() -> (r: Self)
        ensures
            r.procedures() == Seq::<(Seq<char>, (H, RouteView))>::empty(),
            r.keys() == Seq::<Seq<char>>::empty(),
    {
        let r = RouterBuilder { entries: Vec::new() };
        assert(r.keys() =~= Seq::<Seq<char>>::empty());
        r
    }

    /// Adds a procedure, keyed by its route path.
    pub fn add_procedure(self, handler: H, route: RouteMetadata) -> (r: Self)
        ensures
            r.procedures() == self.procedures().push((route.path@, (handler, route_view(route)))),
            r.keys() == self.keys().push(route.path@),
    {
        let ghost before = self.entries@;
        let key = string_of(chars_of(route.path.as_str()).as_slice());
        let ghost item = (key, RouterEntry::Procedure { handler, route });
        let mut entries = self.entries;
        entries.push((key, RouterEntry::Procedure { handler, route }));
        proof {
            lemma_flat_push(before, item);
            assert(seq![item].subrange(1, 1) =~= Seq::<(String, RouterEntry<H>)>::empty());
            assert(seq![item][0] == item);
            assert(flat(Seq::<(String, RouterEntry<H>)>::empty()) =~= Seq::<(Seq<char>, (H, RouteView))>::empty());
            assert(flat(seq![item]) =~= seq![(route.path@, (handler, route_view(route)))]);
        }
        let r = RouterBuilder { entries };
        assert(r.keys() =~= self.keys().push(route.path@));
        r
    }

    /// Nests a router under `key`.
    pub fn nest<K: IntoText>(self, key: K, nested: RouterBuilder<H>) -> (r: Self)
        ensures
            r.procedures() == self.procedures() + nested.procedures(),
            r.keys() == self.keys().push(key.text_view()),
    {
        let ghost before = self.entries@;
        let k = key.into_text();
        let ghost item = (k, RouterEntry::Nested(nested));
        let mut entries = self.entries;
        entries.push((k, RouterEntry::Nested(nested)));
        proof {
            lemma_flat_push(before, item);
            assert(seq![item].subrange(1, 1) =~= Seq::<(String, RouterEntry<H>)>::empty());
            assert(seq![item][0] == item);
            assert(flat(Seq::<(String, RouterEntry<H>)>::empty()) =~= Seq::<(Seq<char>, (H, RouteView))>::empty());
            assert(flat(seq![item]) =~= flat(nested.entries@));
        }
        let r = RouterBuilder { entries };
        assert(r.keys() =~= self.keys().push(key.text_view()));
        r
    }

    /// Registers every procedure of the router into `registry`, depth first
    /// and in order, each at its route path; a later procedure at the same
    /// path replaces an earlier one. Nested routers are visited under
    /// `prefix/key` (or `key` at the top), which does not change where
    /// their procedures are registered.
    pub fn register_procedures(self, prefix: &str, registry: &mut ProcedureRegistry<H>)
        ensures
            final(registry)@ == insert_all(old(registry)@, self.procedures()),
        decreases self,
    {
        let ghost orig = self.entries@;
        let ghost start = registry@;
        let mut es = self.entries;
        let ghost mut k: int = 0;
        while es.len() > 0
            invariant
                0 <= k <= orig.len(),
                es@ == orig.subrange(k, orig.len() as int),
                orig == self.entries@,
                insert_all(registry@, flat(es@)) == insert_all(start, flat(orig)),
            decreases es@.len(),
        {
            let ghost cur = es@;
            let ghost reg = registry@;
            let (key, entry) = es.remove(0);
            assert(es@ =~= cur.subrange(1, cur.len() as int));
            assert(cur[0] == orig[k]);
            match entry {
                RouterEntry::Procedure { handler, route } => {
                    let ghost x = (route.path@, (handler, route_view(route)));
                    let path = string_of(chars_of(route.path.as_str()).as_slice());
                    registry.insert(path, handler, route);
                    proof {
                        assert(flat(cur) == seq![x] + flat(es@));
                        lemma_insert_all_concat(reg, seq![x], flat(es@));
                        assert(insert_all(reg, seq![x]) == insert_all(reg.insert(x.0, x.1), seq![x].subrange(1, 1)));
                        assert(seq![x].subrange(1, 1) =~= Seq::<(Seq<char>, (H, RouteView))>::empty());
                    }
                },
                RouterEntry::Nested(b) => {
                    let full_path = if prefix.len() == 0 {
                        key
                    } else {
                        let mut v = chars_of(prefix);
                        extend_str(&mut v, "/");
                        extend_str(&mut v, key.as_str());
                        string_of(v.as_slice())
                    };
                    proof {
                        assert(orig[k].1 == RouterEntry::Nested(b));
                        assert(decreases_to!(self => self.entries));
                        assert(decreases_to!(self.entries => self.entries@));
                        assert(decreases_to!(orig => orig[k]));
                        assert(decreases_to!(orig[k] => orig[k].1));
                    }
                    let ghost fb = flat(b.entries@);
                    b.register_procedures(full_path.as_str(), registry);
                    proof {
                        assert(flat(cur) == fb + flat(es@));
                        lemma_insert_all_concat(reg, fb, flat(es@));
                    }
                },
            }
            proof {
                k = k + 1;
            }
        }
        assert(flat(es@) =~= Seq::<(Seq<char>, (H, RouteView))>::empty());
    }
}

/// Appending an entry appends its procedures.
proof fn lemma_flat_push<H>(es: Seq<(String, RouterEntry<H>)>, e: (String, RouterEntry<H>))
    ensures
        flat(es.push(e)) == flat(es) + flat(seq![e]),
    decreases es.len(),
{
    if es.len() == 0 {
        assert(es.push(e) =~= seq![e]);
        assert(flat(es) =~= Seq::<(Seq<char>, (H, RouteView))>::empty());
    } else {
        let t = es.subrange(1, es.len() as int);
        assert(es.push(e).subrange(1, es.push(e).len() as int) =~= t.push(e));
        assert(es.push(e)[0] == es[0]);
        lemma_flat_push(t, e);
    }
}

/// Entry point of a router built by `router!`.
pub fn r<H>() -> (b: RouterBuilder<H>)
    ensures
        b.procedures() == Seq::<(Seq<char>, (H, RouteView))>::empty(),
{
    RouterBuilder::new()
}

/// Registering a router's procedures (`insert_all` of its procedures)
/// puts each procedure at its route path, adds no other path, and leaves
/// at each path the last procedure registered there.
pub proof fn law_registration_places_each_procedure<H>(
    m: Map<Seq<char>, (H, RouteView)>,
    s: Seq<(Seq<char>, (H, RouteView))>,
)
    ensures
        forall|i: int| 0 <= i < s.len() ==> insert_all(m, s).contains_key(#[trigger] s[i].0),
        forall|p: Seq<char>| m.contains_key(p) ==> #[trigger] insert_all(m, s).contains_key(p),
        forall|p: Seq<char>|
            #[trigger] insert_all(m, s).contains_key(p) ==> m.contains_key(p) || exists|i: int|
                0 <= i < s.len() && s[i].0 == p,
        forall|i: int|
            0 <= i < s.len() && (forall|j: int| i < j < s.len() ==> s[j].0 != s[i].0) ==> insert_all(
                m,
                s,
            )[#[trigger] s[i].0] == s[i].1,
        forall|p: Seq<char>|
            m.contains_key(p) && (forall|j: int| 0 <= j < s.len() ==> s[j].0 != p) ==> #[trigger] insert_all(
                m,
                s,
            )[p] == m[p],
    decreases s.len(),
{
    if s.len() > 0 {
        let t = s.subrange(1, s.len() as int);
        let m1 = m.insert(s[0].0, s[0].1);
        law_registration_places_each_procedure(m1, t);
        assert(insert_all(m, s) == insert_all(m1, t));
        assert forall|i: int| 0 <= i < s.len() implies insert_all(m, s).contains_key(#[trigger] s[i].0) by {
            if i > 0 {
                assert(t[i - 1] == s[i]);
            }
        }
        assert forall|p: Seq<char>| #[trigger] insert_all(m, s).contains_key(p) implies m.contains_key(p)
            || exists|i: int| 0 <= i < s.len() && s[i].0 == p by {
            if !m.contains_key(p) && p != s[0].0 {
                let j = choose|j: int| 0 <= j < t.len() && t[j].0 == p;
                assert(s[j + 1].0 == p);
            }
        }
        assert forall|i: int|
            0 <= i < s.len() && (forall|j: int| i < j < s.len() ==> s[j].0 != s[i].0) implies insert_all(
            m,
            s,
        )[#[trigger] s[i].0] == s[i].1 by {
            if i > 0 {
                assert(t[i - 1] == s[i]);
                assert forall|j: int| i - 1 < j < t.len() implies #[trigger] t[j].0 != t[i - 1].0 by {
                    assert(t[j] == s[j + 1]);
                }
            } else {
                assert forall|j: int| 0 <= j < t.len() implies t[j].0 != s[0].0 by {
                    assert(t[j] == s[j + 1]);
                }
            }
        }
        assert forall|p: Seq<char>|
            m.contains_key(p) && (forall|j: int| 0 <= j < s.len() ==> s[j].0 != p) implies #[trigger] insert_all(
            m,
            s,
        )[p] == m[p] by {
            assert(s[0].0 != p);
            assert forall|j: int| 0 <= j < t.len() implies t[j].0 != p by {
                assert(t[j] == s[j + 1]);
            }
        }
    }
}

} // verus!
