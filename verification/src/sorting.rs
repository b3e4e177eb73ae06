//! A stable sort.

use vstd::prelude::*;
use vstd::seq_lib::to_multiset_build;

verus! {

/// Values that stand in an order in which ties are possible.
pub trait Ranked: Sized {
    /// Whether this value may stand before `other`.
    spec fn ranks_before(&self, other: &Self) -> bool;

    /// Any two values may stand in one order or the other.
    proof fn lemma_total(a: &Self, b: &Self)
        ensures
            a.ranks_before(b) || b.ranks_before(a),
    ;

    proof fn lemma_transitive(a: &Self, b: &Self, c: &Self)
        requires
            a.ranks_before(b),
            b.ranks_before(c),
        ensures
            a.ranks_before(c),
    ;

    fn may_precede(&self, other: &Self) -> (r: bool)
        ensures
            r == self.ranks_before(other),
    ;
}

/// `s` with `x` behind the last value that may stand before it.
pub open spec fn placed<T: Ranked>(s: Seq<T>, x: T) -> Seq<T>
    decreases s.len(),
{
    if s.len() == 0 || s.last().ranks_before(&x) {
        s.push(x)
    } else {
        placed(s.drop_last(), x).push(s.last())
    }
}

/// The values in order; those that tie keep the order that they had.
pub open spec fn ranked<T: Ranked>(s: Seq<T>) -> Seq<T>
    decreases s.len(),
{
    if s.len() == 0 {
        Seq::empty()
    } else {
        placed(ranked(s.drop_last()), s.last())
    }
}

/// Whether every value may stand before those after it.
pub open spec fn in_order<T: Ranked>(s: Seq<T>) -> bool {
    forall|i: int, j: int|
        #![trigger s[i], s[j]]
        0 <= i < j < s.len() ==> s[i].ranks_before(&s[j])
}

proof fn lemma_placed<T: Ranked>(s: Seq<T>, x: T)
    ensures
        placed(s, x).to_multiset() == s.to_multiset().insert(x),
        placed(s, x).len() == s.len() + 1,
        in_order(s) ==> in_order(placed(s, x)),
    decreases s.len(),
{
    if s.len() == 0 || s.last().ranks_before(&x) {
        to_multiset_build(s, x);
        if in_order(s) {
            let p = s.push(x);
            assert forall|i: int, j: int|
                #![trigger p[i], p[j]]
                0 <= i < j < p.len() implies p[i].ranks_before(&p[j]) by {
                if j == s.len() && i < s.len() - 1 {
                    T::lemma_transitive(&s[i], &s.last(), &x);
                }
            }
        }
    } else {
        let front = s.drop_last();
        lemma_placed(front, x);
        to_multiset_build(placed(front, x), s.last());
        to_multiset_build(front, s.last());
        assert(front.push(s.last()) =~= s);
        assert(front.to_multiset().insert(x).insert(s.last()) =~= front.to_multiset().insert(
            s.last(),
        ).insert(x));
        if in_order(s) {
            assert(in_order(front));
            let q = placed(front, x);
            let p = q.push(s.last());
            T::lemma_total(&s.last(), &x);
            assert forall|i: int, j: int|
                #![trigger p[i], p[j]]
                0 <= i < j < p.len() implies p[i].ranks_before(&p[j]) by {
                if j == q.len() {
                    vstd::seq_lib::to_multiset_contains(q, q[i]);
                    assert(q.contains(q[i]));
                    assert(front.to_multiset().insert(x).count(q[i]) > 0);
                    if q[i] != x {
                        vstd::seq_lib::to_multiset_contains(front, q[i]);
                        let k = choose|k: int| 0 <= k < front.len() && front[k] == q[i];
                        assert(s[k] == q[i]);
                    }
                }
            }
        }
    }
}

/// Sorting keeps every value, as often as it is there, and puts them in order.
pub proof fn law_ranking_keeps_all_values_in_order<T: Ranked>(s: Seq<T>)
    ensures
        ranked(s).to_multiset() == s.to_multiset(),
        ranked(s).len() == s.len(),
        in_order(ranked(s)),
    decreases s.len(),
{
    if s.len() == 0 {
        assert(s =~= Seq::empty());
    } else {
        law_ranking_keeps_all_values_in_order(s.drop_last());
        lemma_placed(ranked(s.drop_last()), s.last());
        to_multiset_build(s.drop_last(), s.last());
        assert(s.drop_last().push(s.last()) =~= s);
    }
}

/// Values that are in order stay where they are.
pub proof fn law_ranked_values_stay<T: Ranked>(s: Seq<T>)
    requires
        in_order(s),
    ensures
        ranked(s) == s,
    decreases s.len(),
{
    if s.len() > 0 {
        law_ranked_values_stay(s.drop_last());
        assert(s.drop_last().push(s.last()) =~= s);
        if s.len() > 1 {
            assert(s[s.len() - 2].ranks_before(&s[s.len() - 1]));
        }
    } else {
        assert(s =~= Seq::empty());
    }
}

proof fn lemma_placed_at<T: Ranked>(s: Seq<T>, x: T, at: int)
    requires
        0 <= at <= s.len(),
        at > 0 ==> s[at - 1].ranks_before(&x),
        forall|j: int| at <= j < s.len() ==> !(#[trigger] s[j]).ranks_before(&x),
    ensures
        placed(s, x) == s.insert(at, x),
    decreases s.len(),
{
    if at == s.len() {
        assert(s.insert(at, x) =~= s.push(x));
    } else {
        lemma_placed_at(s.drop_last(), x, at);
        assert(s.drop_last().insert(at, x).push(s.last()) =~= s.insert(at, x));
    }
}

/// Puts a value behind the last one that may stand before it.
pub fn place<T: Ranked>(v: &mut Vec<T>, x: T)
    ensures
        final(v)@ == placed(old(v)@, x),
{
    let mut at: usize = v.len();
    while at > 0 && !v[at - 1].may_precede(&x)
        invariant
            at <= v@.len(),
            v@ == old(v)@,
            forall|j: int| at <= j < v@.len() ==> !(#[trigger] v@[j]).ranks_before(&x),
        decreases at,
    {
        at -= 1;
    }
    proof {
        lemma_placed_at(v@, x, at as int);
    }
    v.insert(at, x);
}

/// The values in order; those that tie keep the order that they had.
pub fn rank<T: Ranked>(v: Vec<T>) -> (r: Vec<T>)
    ensures
        r@ == ranked(v@),
{
    let ghost all = v@;
    let mut rest = v;
    let mut back: Vec<T> = Vec::new();
    // Turned round, so that the values can be taken from the end in their order.
    while rest.len() > 0
        invariant
            all == rest@ + back@.reverse(),
        decreases rest@.len(),
    {
        let ghost before = back@;
        match rest.pop() {
            Some(x) => {
                back.push(x);
                assert(all =~= rest@ + back@.reverse());
            },
            None => {},
        }
    }
    let mut r: Vec<T> = Vec::new();
    assert(all =~= back@.reverse());
    while back.len() > 0
        invariant
            back@.len() <= all.len(),
            back@.reverse() == all.skip(all.len() - back@.len()),
            r@ == ranked(all.take(all.len() - back@.len())),
        decreases back@.len(),
    {
        let ghost n = all.len() - back@.len();
        let ghost before = back@;
        match back.pop() {
            Some(x) => {
                proof {
                    assert(before.reverse()[0] == x);
                    assert(all.skip(n)[0] == all[n]);
                    assert(all.take(n + 1).drop_last() =~= all.take(n));
                    assert(back@.reverse() =~= before.reverse().skip(1));
                    assert(all.skip(n).skip(1) =~= all.skip(n + 1));
                }
                place(&mut r, x);
            },
            None => {},
        }
    }
    assert(all.take(all.len() as int) =~= all);
    r
}

} // verus!
