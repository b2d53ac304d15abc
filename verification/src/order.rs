//! Lexicographic order on texts and sorted sets of texts.
//!
//! Texts are compared character by character by code point, which is the
//! order of `String`'s `Ord` (UTF-8 byte order agrees with code point order).

use vstd::prelude::*;

verus! {

/// `a` comes strictly before `b` in lexicographic order.
pub open spec fn text_lt(a: Seq<char>, b: Seq<char>) -> bool
    decreases a.len(),
{
    if b.len() == 0 {
        false
    } else if a.len() == 0 {
        true
    } else if a[0] < b[0] {
        true
    } else if a[0] > b[0] {
        false
    } else {
        text_lt(a.drop_first(), b.drop_first())
    }
}

/// `l` is strictly increasing.
pub open spec fn sorted_strict(l: Seq<Seq<char>>) -> bool {
    forall|i: int, j: int| 0 <= i < j < l.len() ==> text_lt(#[trigger] l[i], #[trigger] l[j])
}

/// The strictly increasing enumeration of a finite set of texts.
pub open spec fn sorted_list(s: Set<Seq<char>>) -> Seq<Seq<char>> {
    choose|l: Seq<Seq<char>>| sorted_strict(l) && l.to_set() == s
}

/// Views of a list of character buffers.
pub open spec fn views(v: Seq<Vec<char>>) -> Seq<Seq<char>> {
    v.map_values(|x: Vec<char>| x@)
}

pub proof fn lemma_lt_irreflexive(a: Seq<char>)
    ensures
        !text_lt(a, a),
    decreases a.len(),
{
    if a.len() > 0 {
        lemma_lt_irreflexive(a.drop_first());
    }
}

pub proof fn lemma_lt_transitive(a: Seq<char>, b: Seq<char>, c: Seq<char>)
    requires
        text_lt(a, b),
        text_lt(b, c),
    ensures
        text_lt(a, c),
    decreases a.len(),
{
    if a.len() > 0 && b.len() > 0 && c.len() > 0 {
        if a[0] == b[0] && b[0] == c[0] {
            lemma_lt_transitive(a.drop_first(), b.drop_first(), c.drop_first());
        }
    }
}

pub proof fn lemma_lt_total(a: Seq<char>, b: Seq<char>)
    ensures
        a == b || text_lt(a, b) || text_lt(b, a),
    decreases a.len(),
{
    if a.len() > 0 && b.len() > 0 {
        if a[0] == b[0] {
            lemma_lt_total(a.drop_first(), b.drop_first());
            if a.drop_first() == b.drop_first() {
                assert(a[0] == b[0]);
                assert(a =~= seq![a[0]] + a.drop_first());
                assert(b =~= seq![b[0]] + b.drop_first());
            }
        }
    } else if a.len() == 0 && b.len() == 0 {
        assert(a =~= b);
    }
}

pub proof fn lemma_lt_asymmetric(a: Seq<char>, b: Seq<char>)
    requires
        text_lt(a, b),
    ensures
        !text_lt(b, a),
{
    if text_lt(b, a) {
        lemma_lt_transitive(a, b, a);
        lemma_lt_irreflexive(a);
    }
}

/// A strictly sorted list has no duplicates.
pub proof fn lemma_sorted_no_duplicates(l: Seq<Seq<char>>)
    requires
        sorted_strict(l),
    ensures
        l.no_duplicates(),
{
    assert forall|i: int, j: int| 0 <= i < l.len() && 0 <= j < l.len() && i != j implies l[i]
        != l[j] by {
        if i < j {
            assert(text_lt(l[i], l[j]));
            if l[i] == l[j] {
                lemma_lt_irreflexive(l[i]);
            }
        } else {
            assert(text_lt(l[j], l[i]));
            if l[i] == l[j] {
                lemma_lt_irreflexive(l[i]);
            }
        }
    }
}

/// Two strictly sorted lists with the same elements are equal.
pub proof fn lemma_sorted_unique(l1: Seq<Seq<char>>, l2: Seq<Seq<char>>)
    requires
        sorted_strict(l1),
        sorted_strict(l2),
        l1.to_set() == l2.to_set(),
    ensures
        l1 == l2,
    decreases l1.len(),
{
    if l1.len() == 0 {
        if l2.len() > 0 {
            assert(l2.to_set().contains(l2[0]));
        }
        assert(l1 =~= l2);
    } else {
        assert(l1.to_set().contains(l1[0]));
        assert(l2.len() > 0);
        assert(l2.to_set().contains(l2[0]));
        let j = choose|j: int| 0 <= j < l2.len() && l2[j] == l1[0];
        let k = choose|k: int| 0 <= k < l1.len() && l1[k] == l2[0];
        if j > 0 {
            assert(text_lt(l2[0], l2[j]));
            if k > 0 {
                assert(text_lt(l1[0], l1[k]));
                lemma_lt_asymmetric(l1[0], l2[0]);
            } else {
                lemma_lt_irreflexive(l1[0]);
            }
        }
        assert(l1[0] == l2[0]);
        let r1 = l1.drop_first();
        let r2 = l2.drop_first();
        lemma_sorted_no_duplicates(l1);
        lemma_sorted_no_duplicates(l2);
        assert(r1.to_set() =~= r2.to_set()) by {
            assert forall|x: Seq<char>| r1.to_set().contains(x) implies r2.to_set().contains(x) by {
                let a = choose|a: int| 0 <= a < r1.len() && r1[a] == x;
                assert(l1[a + 1] == x);
                assert(l1.to_set().contains(x));
                let b = choose|b: int| 0 <= b < l2.len() && l2[b] == x;
                if b == 0 {
                    assert(l1[0] == l1[a + 1]);
                } else {
                    assert(r2[b - 1] == x);
                }
            }
            assert forall|x: Seq<char>| r2.to_set().contains(x) implies r1.to_set().contains(x) by {
                let b = choose|b: int| 0 <= b < r2.len() && r2[b] == x;
                assert(l2[b + 1] == x);
                assert(l2.to_set().contains(x));
                let a = choose|a: int| 0 <= a < l1.len() && l1[a] == x;
                if a == 0 {
                    assert(l2[0] == l2[b + 1]);
                } else {
                    assert(r1[a - 1] == x);
                }
            }
        }
        assert(sorted_strict(r1)) by {
            assert forall|i: int, j: int| 0 <= i < j < r1.len() implies text_lt(
                #[trigger] r1[i],
                #[trigger] r1[j],
            ) by {
                assert(text_lt(l1[i + 1], l1[j + 1]));
            }
        }
        assert(sorted_strict(r2)) by {
            assert forall|i: int, j: int| 0 <= i < j < r2.len() implies text_lt(
                #[trigger] r2[i],
                #[trigger] r2[j],
            ) by {
                assert(text_lt(l2[i + 1], l2[j + 1]));
            }
        }
        lemma_sorted_unique(r1, r2);
        assert(l1 =~= seq![l1[0]] + r1);
        assert(l2 =~= seq![l2[0]] + r2);
    }
}

/// A strictly sorted list enumerating `s` is `sorted_list(s)`.
pub proof fn lemma_sorted_list_is(l: Seq<Seq<char>>, s: Set<Seq<char>>)
    requires
        sorted_strict(l),
        l.to_set() == s,
    ensures
        sorted_list(s) == l,
{
    let c = sorted_list(s);
    assert(sorted_strict(c) && c.to_set() == s);
    lemma_sorted_unique(c, l);
}

/// Whether `a` comes strictly before `b`.
pub fn text_lt_exec(a: &[char], b: &[char]) -> (r: bool)
    ensures
        r == text_lt(a@, b@),
{
    let mut i: usize = 0;
    assert(a@.skip(0) =~= a@);
    assert(b@.skip(0) =~= b@);
    while i < a.len() && i < b.len()
        invariant
            i <= a@.len(),
            i <= b@.len(),
            text_lt(a@, b@) == text_lt(a@.skip(i as int), b@.skip(i as int)),
        decreases a@.len() - i,
    {
        let x = a[i];
        let y = b[i];
        assert(a@.skip(i as int)[0] == x);
        assert(b@.skip(i as int)[0] == y);
        if x < y {
            return true;
        }
        if x > y {
            return false;
        }
        assert(a@.skip(i as int).drop_first() =~= a@.skip(i + 1));
        assert(b@.skip(i as int).drop_first() =~= b@.skip(i + 1));
        i = i + 1;
    }
    i < b.len()
}

/// Inserts `x` into the strictly sorted list `l`, unless it is present.
pub fn insert_sorted(l: &mut Vec<Vec<char>>, x: Vec<char>)
    requires
        sorted_strict(views(old(l)@)),
    ensures
        sorted_strict(views(final(l)@)),
        views(final(l)@).to_set() == views(old(l)@).to_set().insert(x@),
{
    let ghost old_v = views(l@);
    let mut p: usize = 0;
    while p < l.len() && text_lt_exec(l[p].as_slice(), x.as_slice())
        invariant
            p <= l@.len(),
            views(l@) == old_v,
            forall|k: int| 0 <= k < p ==> text_lt(#[trigger] old_v[k], x@),
        decreases l@.len() - p,
    {
        p = p + 1;
    }
    if p < l.len() && crate::text::chars_eq(l[p].as_slice(), x.as_slice()) {
        assert(old_v[p as int] == x@);
        assert(old_v.to_set().insert(x@) =~= old_v.to_set());
        return;
    }
    proof {
        if p < old_v.len() {
            lemma_lt_total(old_v[p as int], x@);
        }
    }
    let ghost xv = x@;
    l.insert(p, x);
    let ghost nv = views(l@);
    assert(nv =~= old_v.insert(p as int, xv));
    assert forall|i: int, j: int| 0 <= i < j < nv.len() implies text_lt(
        #[trigger] nv[i],
        #[trigger] nv[j],
    ) by {
        if j < p {
            assert(nv[i] == old_v[i] && nv[j] == old_v[j]);
        } else if j == p {
            assert(nv[i] == old_v[i]);
        } else if i < p {
            assert(nv[j] == old_v[j - 1]);
            assert(text_lt(old_v[i], xv));
            assert(text_lt(xv, old_v[p as int]));
            if j - 1 > p {
                assert(text_lt(old_v[p as int], old_v[j - 1]));
                lemma_lt_transitive(xv, old_v[p as int], old_v[j - 1]);
            }
            lemma_lt_transitive(old_v[i], xv, old_v[j - 1]);
        } else if i == p {
            assert(nv[j] == old_v[j - 1]);
            if j - 1 > p {
                assert(text_lt(old_v[p as int], old_v[j - 1]));
                lemma_lt_transitive(xv, old_v[p as int], old_v[j - 1]);
            }
        } else {
            assert(nv[i] == old_v[i - 1] && nv[j] == old_v[j - 1]);
        }
    }
    assert(nv.to_set() =~= old_v.to_set().insert(xv)) by {
        assert forall|y: Seq<char>| nv.to_set().contains(y) implies old_v.to_set().insert(
            xv,
        ).contains(y) by {
            let k = choose|k: int| 0 <= k < nv.len() && nv[k] == y;
            if k < p {
                assert(old_v[k] == y);
            } else if k > p {
                assert(old_v[k - 1] == y);
            }
        }
        assert forall|y: Seq<char>| old_v.to_set().insert(xv).contains(y) implies nv.to_set().contains(
            y,
        ) by {
            if y == xv {
                assert(nv[p as int] == y);
            } else {
                let k = choose|k: int| 0 <= k < old_v.len() && old_v[k] == y;
                if k < p {
                    assert(nv[k] == y);
                } else {
                    assert(nv[k + 1] == y);
                }
            }
        }
    }
}

} // verus!
