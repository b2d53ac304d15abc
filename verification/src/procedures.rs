//! The procedure registry: handlers by path, for runtime dispatch.
//!
//! A registry maps each path to one handler and its route; registering a
//! path again replaces its entry.

use crate::builder::{route_view, RouteView};
use crate::error::OrpcError;
use crate::route::RouteMetadata;
use crate::text::{chars_eq, chars_of, extend_str, string_of, IntoText};
use vstd::prelude::*;

verus! {

struct RegistryEntry<H> {
    path: String,
    handler: H,
    route: RouteMetadata,
}

/// The paths of a list of entries.
spec fn entry_paths<H>(es: Seq<RegistryEntry<H>>) -> Seq<Seq<char>> {
    es.map_values(|e: RegistryEntry<H>| e.path@)
}

/// The map of a list of entries with distinct paths.
spec fn entry_map<H>(es: Seq<RegistryEntry<H>>) -> Map<Seq<char>, (H, RouteView)>
    decreases es.len(),
{
    if es.len() == 0 {
        Map::empty()
    } else {
        entry_map(es.drop_last()).insert(
            es.last().path@,
            (es.last().handler, route_view(es.last().route)),
        )
    }
}

/// Procedure handlers by path.
pub struct ProcedureRegistry<H> {
    entries: Vec<RegistryEntry<H>>,
}

proof fn lemma_entry_map<H>(es: Seq<RegistryEntry<H>>)
    requires
        entry_paths(es).no_duplicates(),
    ensures
        entry_map(es).dom().finite(),
        entry_map(es).dom().len() == es.len(),
        forall|k: int|
            0 <= k < es.len() ==> #[trigger] entry_map(es).contains_key(es[k].path@) && entry_map(
                es,
            )[es[k].path@] == (es[k].handler, route_view(es[k].route)),
        forall|p: Seq<char>|
            #[trigger] entry_map(es).contains_key(p) ==> exists|k: int|
                0 <= k < es.len() && es[k].path@ == p,
    decreases es.len(),
{
    if es.len() > 0 {
        let init = es.drop_last();
        assert(entry_paths(init) =~= entry_paths(es).drop_last());
        lemma_entry_map(init);
        let last = es.last();
        assert forall|k: int| 0 <= k < init.len() implies init[k].path@ != last.path@ by {
            assert(entry_paths(es)[k] == init[k].path@);
            assert(entry_paths(es)[es.len() - 1] == last.path@);
        }
        assert(!entry_map(init).contains_key(last.path@)) by {
            if entry_map(init).contains_key(last.path@) {
                let k = choose|k: int| 0 <= k < init.len() && init[k].path@ == last.path@;
            }
        }
        assert forall|k: int| 0 <= k < es.len() implies #[trigger] entry_map(es).contains_key(
            es[k].path@,
        ) && entry_map(es)[es[k].path@] == (es[k].handler, route_view(es[k].route)) by {
            if k < es.len() - 1 {
                assert(es[k] == init[k]);
                assert(init[k].path@ != last.path@);
            }
        }
        assert forall|p: Seq<char>| #[trigger] entry_map(es).contains_key(p) implies exists|k: int|
            0 <= k < es.len() && es[k].path@ == p by {
            if p == last.path@ {
                assert(es[es.len() - 1].path@ == p);
            } else {
                assert(entry_map(init).contains_key(p));
                let k = choose|k: int| 0 <= k < init.len() && init[k].path@ == p;
                assert(es[k] == init[k]);
            }
        }
    }
}

impl<H> ProcedureRegistry<H> {
    #[verifier::type_invariant]
    spec fn distinct_paths(self) -> bool {
        entry_paths(self.entries@).no_duplicates()
    }

    /// The registered handlers and routes by path.
    pub closed spec fn view(&self) -> Map<Seq<char>, (H, RouteView)> {
        entry_map(self.entries@)
    }

    /// An empty registry.
    pub fn new() -> (r: Self)
        ensures
            r@ == Map::<Seq<char>, (H, RouteView)>::empty(),
    {
        let r = ProcedureRegistry { entries: Vec::new() };
        assert(entry_paths(r.entries@) =~= Seq::<Seq<char>>::empty());
        r
    }

    /// The position of the entry for `path`.
    fn position(&self, path: &[char]) -> (r: Option<usize>)
        ensures
            match r {
                Some(i) => i < self.entries@.len() && self.entries@[i as int].path@ == path@,
                None => forall|k: int|
                    0 <= k < self.entries@.len() ==> self.entries@[k].path@ != path@,
            },
    {
        let mut i: usize = 0;
        while i < self.entries.len()
            invariant
                i <= self.entries@.len(),
                forall|k: int| 0 <= k < i ==> self.entries@[k].path@ != path@,
            decreases self.entries@.len() - i,
        {
            let p = chars_of(self.entries[i].path.as_str());
            if chars_eq(p.as_slice(), path) {
                return Some(i);
            }
            i = i + 1;
        }
        None
    }

    /// Registers `handler` with its route at `path`, replacing an earlier
    /// entry at the same path.
    pub fn insert<P: IntoText>(&mut self, path: P, handler: H, route: RouteMetadata)
        ensures
            final(self)@ == old(self)@.insert(path.text_view(), (handler, route_view(route))),
    {
        proof {
            use_type_invariant(&*self);
            lemma_entry_map(self.entries@);
        }
        let ghost old_map = self@;
        let ghost old_es = self.entries@;
        let path_string = path.into_text();
        let pv = chars_of(path_string.as_str());
        let entry = RegistryEntry { path: path_string, handler, route };
        let ghost e = entry;
        match self.position(pv.as_slice()) {
            Some(i) => {
                let ghost new_es = old_es.update(i as int, e);
                proof {
                    assert(entry_paths(new_es) =~= entry_paths(old_es));
                    lemma_entry_map(new_es);
                    assert(entry_map(new_es) =~= old_map.insert(path.text_view(), (handler, route_view(route)))) by {
                        assert forall|p: Seq<char>| #[trigger] entry_map(new_es).contains_key(p)
                            <==> old_map.insert(path.text_view(), (handler, route_view(route))).contains_key(p) by {
                            if entry_map(new_es).contains_key(p) {
                                let k = choose|k: int| 0 <= k < new_es.len() && new_es[k].path@ == p;
                                if k != i {
                                    assert(old_es[k] == new_es[k]);
                                }
                            }
                            if old_map.contains_key(p) {
                                let k = choose|k: int| 0 <= k < old_es.len() && old_es[k].path@ == p;
                                if k != i {
                                    assert(old_es[k] == new_es[k]);
                                } else {
                                    assert(new_es[k].path@ == p);
                                }
                            }
                            if p == path.text_view() {
                                assert(new_es[i as int].path@ == p);
                            }
                        }
                        assert forall|p: Seq<char>| #[trigger] entry_map(new_es).contains_key(p)
                            implies entry_map(new_es)[p] == old_map.insert(path.text_view(), (handler, route_view(route)))[p] by {
                            let k = choose|k: int| 0 <= k < new_es.len() && new_es[k].path@ == p;
                            if k != i {
                                assert(old_es[k] == new_es[k]);
                                assert(entry_paths(old_es)[k] != entry_paths(old_es)[i as int]);
                            }
                        }
                    }
                }
                let mut es: Vec<RegistryEntry<H>> = Vec::new();
                std::mem::swap(&mut es, &mut self.entries);
                es.set(i, entry);
                assert(es@ =~= new_es);
                self.entries = es;
            },
            None => {
                let ghost new_es = old_es.push(e);
                proof {
                    assert(entry_paths(new_es) =~= entry_paths(old_es).push(e.path@));
                    assert(!entry_paths(old_es).contains(e.path@)) by {
                        if entry_paths(old_es).contains(e.path@) {
                            let k = choose|k: int| 0 <= k < old_es.len() && entry_paths(old_es)[k] == e.path@;
                            assert(old_es[k].path@ == e.path@);
                        }
                    }
                    assert(new_es.drop_last() =~= old_es);
                }
                let mut es: Vec<RegistryEntry<H>> = Vec::new();
                std::mem::swap(&mut es, &mut self.entries);
                es.push(entry);
                assert(es@ =~= new_es);
                self.entries = es;
            },
        }
    }

    /// Whether a procedure is registered at `path`.
    pub fn has(&self, path: &str) -> (r: bool)
        ensures
            r == self@.contains_key(path@),
    {
        proof {
            use_type_invariant(self);
            lemma_entry_map(self.entries@);
        }
        let pv = chars_of(path);
        let r = self.position(pv.as_slice()).is_some();
        proof {
            if self@.contains_key(path@) {
                let k = choose|k: int| 0 <= k < self.entries@.len() && self.entries@[k].path@ == path@;
            }
        }
        r
    }

    /// The handler registered at `path`.
    pub fn get(&self, path: &str) -> (r: Option<&H>)
        ensures
            match r {
                Some(h) => self@.contains_key(path@) && self@[path@].0 == *h,
                None => !self@.contains_key(path@),
            },
    {
        proof {
            use_type_invariant(self);
            lemma_entry_map(self.entries@);
        }
        let pv = chars_of(path);
        match self.position(pv.as_slice()) {
            Some(i) => Some(&self.entries[i].handler),
            None => {
                proof {
                    if self@.contains_key(path@) {
                        let k = choose|k: int|
                            0 <= k < self.entries@.len() && self.entries@[k].path@ == path@;
                    }
                }
                None
            },
        }
    }

    /// The number of registered paths.
    pub fn len(&self) -> (r: usize)
        ensures
            r == self@.dom().len(),
    {
        proof {
            use_type_invariant(self);
            lemma_entry_map(self.entries@);
        }
        self.entries.len()
    }

    /// Whether nothing is registered.
    pub fn is_empty(&self) -> (r: bool)
        ensures
            r == (self@.dom().len() == 0),
    {
        proof {
            use_type_invariant(self);
            lemma_entry_map(self.entries@);
        }
        self.entries.len() == 0
    }

    /// The registered paths, each once.
    pub fn paths(&self) -> (r: Vec<String>)
        ensures
            r@.len() == self@.dom().len(),
            forall|k: int| 0 <= k < r@.len() ==> self@.contains_key(#[trigger] r@[k]@),
            forall|i: int, j: int| 0 <= i < j < r@.len() ==> r@[i]@ != r@[j]@,
    {
        proof {
            use_type_invariant(self);
            lemma_entry_map(self.entries@);
        }
        let mut out: Vec<String> = Vec::new();
        let mut i: usize = 0;
        while i < self.entries.len()
            invariant
                i <= self.entries@.len(),
                out@.len() == i,
                entry_paths(self.entries@).no_duplicates(),
                forall|k: int| 0 <= k < i ==> (#[trigger] out@[k])@ == self.entries@[k].path@,
            decreases self.entries@.len() - i,
        {
            out.push(self.entries[i].path.clone());
            i = i + 1;
        }
        assert forall|a: int, b: int| 0 <= a < b < out@.len() implies out@[a]@ != out@[b]@ by {
            assert(entry_paths(self.entries@)[a] == self.entries@[a].path@);
            assert(entry_paths(self.entries@)[b] == self.entries@[b].path@);
        }
        out
    }

    /// The registered paths with their routes.
    pub fn routes(&self) -> (r: Vec<(String, RouteMetadata)>)
        ensures
            r@.len() == self@.dom().len(),
            forall|k: int|
                0 <= k < r@.len() ==> self@.contains_key(#[trigger] r@[k].0@) && self@[r@[k].0@].1
                    == route_view(r@[k].1),
    {
        proof {
            use_type_invariant(self);
            lemma_entry_map(self.entries@);
        }
        let mut out: Vec<(String, RouteMetadata)> = Vec::new();
        let mut i: usize = 0;
        while i < self.entries.len()
            invariant
                i <= self.entries@.len(),
                out@.len() == i,
                forall|k: int|
                    0 <= k < i ==> (#[trigger] out@[k]).0@ == self.entries@[k].path@
                        && route_view(out@[k].1) == route_view(self.entries@[k].route),
            decreases self.entries@.len() - i,
        {
            let e = &self.entries[i];
            let route = RouteMetadata { method: e.route.method, path: e.route.path.clone() };
            out.push((e.path.clone(), route));
            i = i + 1;
        }
        out
    }
}

/// The error for a call to a path where nothing is registered.
pub fn missing_procedure(path: &str) -> (e: OrpcError)
    ensures
        e.code@ == "NOT_FOUND"@,
        e.message@ == "No procedure at path: "@ + path@,
        e.status == Some(404u16),
{
    let mut m: Vec<char> = Vec::new();
    extend_str(&mut m, "No procedure at path: ");
    extend_str(&mut m, path);
    OrpcError::not_found(string_of(m.as_slice()))
}

/// The error for an input that could not be decoded into the procedure's
/// input type; `detail` is the decoder's message.
pub fn input_rejected(detail: &str) -> (e: OrpcError)
    ensures
        e.code@ == "BAD_REQUEST"@,
        e.message@ == "Failed to deserialize input: "@ + detail@,
        e.status == Some(400u16),
{
    let mut m: Vec<char> = Vec::new();
    extend_str(&mut m, "Failed to deserialize input: ");
    extend_str(&mut m, detail);
    OrpcError::bad_request(string_of(m.as_slice()))
}

} // verus!
