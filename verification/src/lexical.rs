//! The dictionary order of texts, character by character, and lists kept in
//! that order without repeats.

use crate::text::{listed, same_chars, vec_views};
use vstd::prelude::*;

verus! {

/// `a` comes before `b` in dictionary order: at the first place where they
/// differ `a` has the smaller character, or `a` is a proper prefix of `b`.
pub open spec fn before(a: Seq<char>, b: Seq<char>) -> bool
    decreases a.len(),
{
    if b.len() == 0 {
        false
    } else if a.len() == 0 {
        true
    } else if a[0] != b[0] {
        a[0] < b[0]
    } else {
        before(a.drop_first(), b.drop_first())
    }
}

/// Each text of the list comes before all that follow it.
pub open spec fn ascending(list: Seq<Seq<char>>) -> bool {
    forall|i: int, j: int| 0 <= i < j < list.len() ==> before(list[i], list[j])
}

/// No text comes before itself.
pub proof fn lemma_before_irreflexive(a: Seq<char>)
    ensures
        !before(a, a),
    decreases a.len(),
{
    if a.len() > 0 {
        lemma_before_irreflexive(a.drop_first());
    }
}

/// Of two different texts, one comes before the other.
pub proof fn lemma_before_total(a: Seq<char>, b: Seq<char>)
    ensures
        a == b || before(a, b) || before(b, a),
    decreases a.len(),
{
    if a.len() > 0 && b.len() > 0 && a[0] == b[0] {
        lemma_before_total(a.drop_first(), b.drop_first());
        if a.drop_first() == b.drop_first() {
            assert(a =~= seq![a[0]] + a.drop_first());
        }
    } else if a.len() == 0 && b.len() == 0 {
        assert(a =~= b);
    }
}

/// The order is transitive.
pub proof fn lemma_before_transitive(a: Seq<char>, b: Seq<char>, c: Seq<char>)
    requires
        before(a, b),
        before(b, c),
    ensures
        before(a, c),
    decreases a.len(),
{
    if a.len() > 0 && a[0] == b[0] && b[0] == c[0] {
        lemma_before_transitive(a.drop_first(), b.drop_first(), c.drop_first());
    }
}

/// Two ascending lists that hold the same texts are the same list.
pub proof fn lemma_ascending_unique(x: Seq<Seq<char>>, y: Seq<Seq<char>>)
    requires
        ascending(x),
        ascending(y),
        forall|t: Seq<char>| listed(x, t) <==> listed(y, t),
    ensures
        x == y,
    decreases x.len(),
{
    if x.len() == 0 {
        if y.len() > 0 {
            assert(listed(y, y[0]));
        }
    } else if y.len() == 0 {
        assert(listed(x, x[0]));
    } else {
        // The two lists end with the same text: the greatest of them all.
        let a = x.last();
        let b = y.last();
        assert(listed(x, a));
        assert(listed(y, b));
        let ib = choose|n: int| 0 <= n < x.len() && x[n] == b;
        lemma_before_irreflexive(a);
        if before(a, b) {
            if ib < x.len() - 1 {
                lemma_before_transitive(a, b, a);
            }
        }
        let x0 = x.drop_last();
        let y0 = y.drop_last();
        assert forall|t: Seq<char>| listed(x0, t) <==> listed(y0, t) by {
            if listed(x0, t) {
                assert(listed(x, t));
                let m = choose|m: int| 0 <= m < y.len() && y[m] == t;
                assert(y0[m] == t);
            }
            if listed(y0, t) {
                assert(listed(y, t));
                let m = choose|m: int| 0 <= m < x.len() && x[m] == t;
                assert(x0[m] == t);
            }
        }
        lemma_ascending_unique(x0, y0);
        assert(x =~= x0.push(a));
    }
}

/// Tells whether `a` comes before `b` in dictionary order.
pub fn comes_before(a: &Vec<char>, b: &Vec<char>) -> (r: bool)
    ensures
        r == before(a@, b@),
{
    let mut k: usize = 0;
    assert(a@.skip(0) == a@ && b@.skip(0) == b@);
    while k < a.len() && k < b.len()
        invariant
            k <= a.len(),
            k <= b.len(),
            before(a@, b@) == before(a@.skip(k as int), b@.skip(k as int)),
        decreases a.len() - k,
    {
        let ghost x = a@.skip(k as int);
        let ghost y = b@.skip(k as int);
        assert(x.drop_first() == a@.skip(k + 1));
        assert(y.drop_first() == b@.skip(k + 1));
        if a[k] != b[k] {
            return a[k] < b[k];
        }
        k += 1;
    }
    k < b.len()
}

/// Puts `t` into the ascending list `list` at its place, unless it is there
/// already.
pub fn insert_ascending(list: &mut Vec<Vec<char>>, t: Vec<char>)
    requires
        ascending(vec_views(old(list)@)),
    ensures
        ascending(vec_views(final(list)@)),
        forall|u: Seq<char>|
            listed(vec_views(final(list)@), u) <==> (u == t@ || listed(vec_views(old(list)@), u)),
{
    let ghost before_list = vec_views(list@);
    let mut p: usize = 0;
    while p < list.len() && comes_before(&list[p], &t)
        invariant
            p <= list.len(),
            vec_views(list@) == before_list,
            forall|m: int| 0 <= m < p ==> before(#[trigger] before_list[m], t@),
        decreases list.len() - p,
    {
        p += 1;
    }
    if p < list.len() && same_chars(&list[p], &t) {
        proof {
            assert(before_list[p as int] == t@);
        }
        return ;
    }
    let ghost tv = t@;
    list.insert(p, t);
    proof {
        let after = vec_views(list@);
        assert(after =~= before_list.insert(p as int, tv));
        if p < before_list.len() {
            lemma_before_total(before_list[p as int], tv);
        }
        assert forall|i: int, j: int| 0 <= i < j < after.len() implies before(
            after[i],
            after[j],
        ) by {
            if i == p && j - 1 > p {
                lemma_before_transitive(tv, before_list[p as int], before_list[j - 1]);
            }
        }
        assert forall|u: Seq<char>| listed(after, u) <==> (u == tv || listed(before_list, u)) by {
            if u == tv {
                assert(after[p as int] == u);
            }
            if listed(before_list, u) {
                let n = choose|n: int| 0 <= n < before_list.len() && before_list[n] == u;
                if n < p {
                    assert(after[n] == u);
                } else {
                    assert(after[n + 1] == u);
                }
            }
        }
    }
}

} // verus!
