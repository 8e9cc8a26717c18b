use vstd::multiset::Multiset;
use vstd::prelude::*;

verus! {

/// The sum of `f` over the items of `s`.
pub open spec fn seq_total<A>(s: Seq<A>, f: spec_fn(A) -> int) -> int
    decreases s.len(),
{
    if s.len() == 0 {
        0
    } else {
        seq_total(s.drop_last(), f) + f(s.last())
    }
}

/// Some order in which the items of `m` can be listed.
pub open spec fn bag_order<A>(m: Multiset<A>) -> Seq<A> {
    choose|s: Seq<A>| s.to_multiset() == m
}

/// The sum of `f` over the items of `m`, each counted as often as it occurs.
pub open spec fn bag_total<A>(m: Multiset<A>, f: spec_fn(A) -> int) -> int {
    seq_total(bag_order(m), f)
}

/// Taking one item out of a sequence lowers the sum by that item's share.
pub proof fn lemma_total_remove<A>(s: Seq<A>, f: spec_fn(A) -> int, i: int)
    requires
        0 <= i < s.len(),
    ensures
        seq_total(s, f) == seq_total(s.remove(i), f) + f(s[i]),
    decreases s.len(),
{
    if i == s.len() - 1 {
        assert(s.remove(i) =~= s.drop_last());
    } else {
        lemma_total_remove(s.drop_last(), f, i);
        assert(s.remove(i).drop_last() =~= s.drop_last().remove(i));
        assert(s.remove(i).last() == s.last());
    }
}

/// The sum does not depend on the order of the items.
pub proof fn lemma_total_permute<A>(
    a: Seq<A>,
    b: Seq<A>,
    f: spec_fn(A) -> int,
)
    requires
        a.to_multiset() == b.to_multiset(),
    ensures
        seq_total(a, f) == seq_total(b, f),
    decreases a.len(),
{
    broadcast use vstd::seq_lib::group_to_multiset_ensures;

    if a.len() == 0 {
        assert(a.to_multiset().len() == 0);
        assert(b.to_multiset().len() == b.len());
        assert(b.len() == 0);
    } else {
        let x = a.last();
        let n = a.len() - 1;
        assert(a.contains(x));
        assert(b.to_multiset().count(x) > 0);
        assert(b.contains(x));
        let i = choose|i: int| 0 <= i < b.len() && b[i] == x;
        assert(a.remove(n) =~= a.drop_last());
        assert(a.remove(n).to_multiset() =~= a.to_multiset().remove(x));
        assert(b.remove(i).to_multiset() =~= b.to_multiset().remove(x));
        lemma_total_permute(a.drop_last(), b.remove(i), f);
        lemma_total_remove(b, f, i);
    }
}

/// Every bag can be listed.
pub proof fn lemma_bag_order<A>(m: Multiset<A>)
    ensures
        bag_order(m).to_multiset() == m,
    decreases m.len(),
{
    broadcast use vstd::multiset::group_multiset_axioms;
    broadcast use vstd::seq_lib::group_to_multiset_ensures;

    if m.len() == 0 {
        let s = Seq::<A>::empty();
        assert(s.to_multiset().len() == 0);
        assert(s.to_multiset() =~= m);
    } else {
        let x = m.choose();
        assert(m.count(x) > 0);
        let rest = m.remove(x);
        lemma_bag_order(rest);
        let s = bag_order(rest).push(x);
        assert(s.to_multiset() =~= rest.insert(x));
        assert(rest.insert(x) =~= m);
    }
}

/// The sum over a bag is the sum over any listing of it.
pub proof fn lemma_bag_total<A>(s: Seq<A>, f: spec_fn(A) -> int)
    ensures
        bag_total(s.to_multiset(), f) == seq_total(s, f),
{
    assert(s.to_multiset() == s.to_multiset());
    lemma_total_permute(bag_order(s.to_multiset()), s, f);
}

/// Extending a sequence by one item raises the sum by that item's share.
pub proof fn lemma_total_push<A>(s: Seq<A>, f: spec_fn(A) -> int, p: A)
    ensures
        seq_total(s.push(p), f) == seq_total(s, f) + f(p),
{
    assert(s.push(p).drop_last() =~= s);
}

/// A sum of shares that are not negative is not negative.
pub proof fn lemma_total_nonneg<A>(s: Seq<A>, f: spec_fn(A) -> int)
    requires
        forall|i: int| 0 <= i < s.len() ==> f(#[trigger] s[i]) >= 0,
    ensures
        seq_total(s, f) >= 0,
    decreases s.len(),
{
    if s.len() > 0 {
        lemma_total_nonneg(s.drop_last(), f);
    }
}

/// A weighted sum of coordinates lies between the least and the greatest
/// coordinate that carries weight, each times the total weight.
pub proof fn lemma_weighted_bounds<A>(
    s: Seq<A>,
    weight: spec_fn(A) -> int,
    moment: spec_fn(A) -> int,
    coord: spec_fn(A) -> int,
    lo: int,
    hi: int,
)
    requires
        forall|p: A| #[trigger]
            s.contains(p) ==> weight(p) >= 0 && moment(p) == weight(p) * coord(p),
        forall|p: A| #[trigger] s.contains(p) && weight(p) > 0 ==> lo <= coord(p) <= hi,
    ensures
        seq_total(s, weight) >= 0,
        lo * seq_total(s, weight) <= seq_total(s, moment) <= hi * seq_total(s, weight),
    decreases s.len(),
{
    if s.len() > 0 {
        let p = s.last();
        let rest = s.drop_last();
        assert(s.contains(p));
        assert forall|r: A| #[trigger] rest.contains(r) implies s.contains(r) by {
            let i = choose|i: int| 0 <= i < rest.len() && rest[i] == r;
            assert(s[i] == r);
        }
        lemma_weighted_bounds(rest, weight, moment, coord, lo, hi);
        let w = weight(p);
        let c = coord(p);
        let t = seq_total(rest, weight);
        assert(lo * w <= w * c <= hi * w) by (nonlinear_arith)
            requires
                w >= 0,
                w > 0 ==> lo <= c <= hi,
        ;
        assert(lo * (t + w) == lo * t + lo * w) by (nonlinear_arith);
        assert(hi * (t + w) == hi * t + hi * w) by (nonlinear_arith);
    }
}

/// A weighted sum of coordinates is no more than the greatest coordinate
/// that carries weight times the total weight.
pub proof fn lemma_weighted_upper<A>(
    s: Seq<A>,
    weight: spec_fn(A) -> int,
    moment: spec_fn(A) -> int,
    coord: spec_fn(A) -> int,
    hi: int,
)
    requires
        forall|p: A| #[trigger]
            s.contains(p) ==> weight(p) >= 0 && moment(p) == weight(p) * coord(p),
        forall|p: A| #[trigger] s.contains(p) && weight(p) > 0 ==> coord(p) <= hi,
    ensures
        seq_total(s, moment) <= hi * seq_total(s, weight),
    decreases s.len(),
{
    if s.len() > 0 {
        let p = s.last();
        let rest = s.drop_last();
        assert(s.contains(p));
        assert forall|r: A| #[trigger] rest.contains(r) implies s.contains(r) by {
            let i = choose|i: int| 0 <= i < rest.len() && rest[i] == r;
            assert(s[i] == r);
        }
        lemma_weighted_upper(rest, weight, moment, coord, hi);
        let w = weight(p);
        let c = coord(p);
        let t = seq_total(rest, weight);
        assert(w * c <= hi * w) by (nonlinear_arith)
            requires
                w >= 0,
                w > 0 ==> c <= hi,
        ;
        assert(hi * (t + w) == hi * t + hi * w) by (nonlinear_arith);
    }
}

/// The sum of a blend of two shares is the blend of their sums.
pub proof fn lemma_total_linear<A>(
    s: Seq<A>,
    f: spec_fn(A) -> int,
    g: spec_fn(A) -> int,
    h: spec_fn(A) -> int,
    a: int,
    b: int,
)
    requires
        forall|i: int| 0 <= i < s.len() ==> h(#[trigger] s[i]) == a * f(s[i]) + b * g(s[i]),
    ensures
        seq_total(s, h) == a * seq_total(s, f) + b * seq_total(s, g),
    decreases s.len(),
{
    if s.len() > 0 {
        let rest = s.drop_last();
        let p = s.last();
        lemma_total_linear(rest, f, g, h, a, b);
        let tf = seq_total(rest, f);
        let tg = seq_total(rest, g);
        assert(a * (tf + f(p)) + b * (tg + g(p)) == (a * tf + b * tg) + (a * f(p) + b * g(p)))
            by (nonlinear_arith);
    }
}

} // verus!
