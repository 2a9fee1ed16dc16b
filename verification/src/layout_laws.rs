//! What holds of the typical distance between neighbours, however the places are listed.
use crate::arithmetic::{lemma_root_fits, product_of};
use crate::geometry::{distance_of, length_of, square_of, subtracted};
use crate::layout::{nearest_all, nearest_is_a_number, nearest_is_least, nearest_of, pitch_of};
use crate::quantity::{infinity, Quantity};
use crate::ranking::{in_order, order_is_total, ranked, the_order_of_values_does_not_count};
use crate::world::Point;
use vstd::prelude::*;
use vstd::relations::sorted_by;

verus! {

/// Lists of the same values have equally many that meet a condition.
proof fn lemma_filters_agree<A>(s: Seq<A>, t: Seq<A>, f: spec_fn(A) -> bool)
    requires
        s.to_multiset() == t.to_multiset(),
    ensures
        s.filter(f).len() == t.filter(f).len(),
    decreases s.len(),
{
    s.to_multiset_ensures();
    t.to_multiset_ensures();
    assert(s.len() == t.len());
    reveal(Seq::filter);
    if s.len() > 0 {
        let x = s.last();
        assert(s.contains(x));
        assert(s.to_multiset().count(x) > 0);
        assert(t.contains(x));
        let k = choose|k: int| 0 <= k < t.len() && t[k] == x;
        let front = t.take(k);
        let back = t.skip(k + 1);
        let rest = t.remove(k);
        assert(rest =~= front + back);
        assert(t =~= (front + seq![x]) + back);
        assert(s.drop_last() =~= s.remove(s.len() - 1));
        lemma_filters_agree(s.drop_last(), rest, f);
        Seq::filter_distributes_over_add(front, back, f);
        Seq::filter_distributes_over_add(front + seq![x], back, f);
        Seq::filter_distributes_over_add(front, seq![x], f);
        assert(seq![x].drop_last() =~= Seq::<A>::empty());
        reveal_with_fuel(Seq::filter, 2);
        assert(seq![x].filter(f).len() == if f(x) { 1int } else { 0int });
    }
}

/// Lists of the same values have the same images.
proof fn lemma_images_agree<A, B>(s: Seq<A>, t: Seq<A>, g: spec_fn(A) -> B)
    requires
        s.to_multiset() == t.to_multiset(),
    ensures
        s.map_values(g).to_multiset() == t.map_values(g).to_multiset(),
    decreases s.len(),
{
    s.to_multiset_ensures();
    t.to_multiset_ensures();
    if s.len() > 0 {
        let x = s.last();
        assert(s.contains(x));
        assert(s.to_multiset().count(x) > 0);
        assert(t.contains(x));
        let k = choose|k: int| 0 <= k < t.len() && t[k] == x;
        assert(s.drop_last() =~= s.remove(s.len() - 1));
        let rest = t.remove(k);
        lemma_images_agree(s.drop_last(), rest, g);
        let a = s.map_values(g);
        let b = t.map_values(g);
        assert(a =~= s.drop_last().map_values(g).push(g(x)));
        assert(b.remove(k) =~= rest.map_values(g));
        s.drop_last().map_values(g).to_multiset_ensures();
        b.to_multiset_ensures();
        assert(b.contains(g(x))) by {
            assert(b[k] == g(x));
        }
        assert(b.to_multiset() =~= b.remove(k).to_multiset().insert(g(x)));
    } else {
        assert(s.map_values(g) =~= t.map_values(g));
    }
}

/// A length is never below 0, nor the negative zero.
proof fn lemma_lengths_are_not_negative(v: Point)
    ensures
        !length_of(v).negative(),
{
    let x = product_of(v.x, v.x);
    let y = product_of(v.y, v.y);
    assert(!x.negative() && !y.negative());
    let s = square_of(v);
    assert(!s.negative());
    if s.finite() && s.rank() != 0 {
        lemma_root_fits(s);
    }
}

/// The distance to the nearest other place is the distance to one of them, or infinity.
pub proof fn nearest_is_a_distance(places: Seq<Point>, i: int, n: nat)
    requires
        n <= places.len(),
    ensures
        !nearest_of(places, i, n).nan(),
        !nearest_of(places, i, n).negative(),
        nearest_of(places, i, n) == infinity() || exists|j: int|
            0 <= j < n && j != i && #[trigger] distance_of(places[j], places[i]) == nearest_of(places, i, n),
    decreases n,
{
    nearest_is_a_number(places, i, n);
    if n > 0 {
        nearest_is_a_distance(places, i, (n - 1) as nat);
        lemma_lengths_are_not_negative(subtracted(places[n - 1], places[i]));
        let distance = distance_of(places[n - 1], places[i]);
        if !(n - 1 != i && distance.less(nearest_of(places, i, (n - 1) as nat))) {
            if nearest_of(places, i, (n - 1) as nat) != infinity() {
                let j = choose|j: int|
                    0 <= j < n - 1 && j != i && #[trigger] distance_of(places[j], places[i]) == nearest_of(
                        places,
                        i,
                        (n - 1) as nat,
                    );
                assert(distance_of(places[j], places[i]) == nearest_of(places, i, n));
            }
        }
    }
}

/// What stands beside a value in one list stands beside it in every list of the same values.
proof fn lemma_beside<A>(s: Seq<A>, i: int, t: Seq<A>, k: int, m: int) -> (j: int)
    requires
        s.to_multiset() == t.to_multiset(),
        0 <= i < s.len(),
        0 <= k < t.len(),
        0 <= m < t.len(),
        s[i] == t[k],
        m != k,
    ensures
        0 <= j < s.len(),
        j != i,
        s[j] == t[m],
{
    s.to_multiset_ensures();
    t.to_multiset_ensures();
    let x = t[m];
    let rest = t.remove(k);
    assert(rest.contains(x)) by {
        assert(rest[if m < k { m } else { m - 1 }] == x);
    }
    rest.to_multiset_ensures();
    s.remove(i).to_multiset_ensures();
    assert(rest.to_multiset() == s.remove(i).to_multiset());
    assert(rest.to_multiset().count(x) > 0);
    assert(s.remove(i).contains(x));
    let j = choose|j: int| 0 <= j < s.len() - 1 && s.remove(i)[j] == x;
    if j < i {
        j
    } else {
        j + 1
    }
}

proof fn lemma_no_farther(places: Seq<Point>, i: int, others: Seq<Point>, k: int)
    requires
        places.to_multiset() == others.to_multiset(),
        0 <= i < places.len(),
        0 <= k < others.len(),
        places[i] == others[k],
    ensures
        nearest_of(places, i, places.len()).at_most(nearest_of(others, k, others.len())),
{
    nearest_is_a_number(places, i, places.len());
    nearest_is_a_distance(others, k, others.len());
    let least = nearest_of(others, k, others.len());
    if least != infinity() {
        let m = choose|m: int| 0 <= m < others.len() && m != k && #[trigger] distance_of(others[m], others[k]) == least;
        let j = lemma_beside(places, i, others, k, m);
        nearest_is_least(places, i, places.len(), j);
    }
}

/// How far a place is from its nearest other depends on which places there are, not on their order.
proof fn lemma_same_nearest(places: Seq<Point>, i: int, others: Seq<Point>, k: int)
    requires
        places.to_multiset() == others.to_multiset(),
        0 <= i < places.len(),
        0 <= k < others.len(),
        places[i] == others[k],
    ensures
        nearest_of(places, i, places.len()) == nearest_of(others, k, others.len()),
{
    lemma_no_farther(places, i, others, k);
    lemma_no_farther(others, k, places, i);
    nearest_is_a_distance(places, i, places.len());
    nearest_is_a_distance(others, k, others.len());
}

/// The distance from a place to its nearest other.
spec fn nearest_from(places: Seq<Point>, p: Point) -> Quantity {
    nearest_of(places, index_in(places, p), places.len())
}

/// Where a value stands in a list.
#[verifier::opaque]
spec fn index_in<A>(s: Seq<A>, x: A) -> int {
    choose|i: int| 0 <= i < s.len() && s[i] == x
}

proof fn lemma_same_values<A>(s: Seq<A>, t: Seq<A>, k: int)
    requires
        s.to_multiset() == t.to_multiset(),
        0 <= k < t.len(),
    ensures
        0 <= index_in(s, t[k]) < s.len(),
        s[index_in(s, t[k])] == t[k],
{
    reveal(index_in);
    s.to_multiset_ensures();
    t.to_multiset_ensures();
    assert(t.contains(t[k]));
    assert(s.to_multiset().count(t[k]) > 0);
    assert(s.contains(t[k]));
}

proof fn lemma_nearest_at(places: Seq<Point>, others: Seq<Point>, k: int)
    requires
        places.to_multiset() == others.to_multiset(),
        0 <= k < others.len(),
    ensures
        nearest_of(others, k, others.len()) == nearest_from(places, others[k]),
{
    lemma_same_values(places, others, k);
    lemma_same_nearest(places, index_in(places, others[k]), others, k);
}

#[verifier::spinoff_prover]
proof fn lemma_nearest_by_place(places: Seq<Point>, others: Seq<Point>)
    requires
        places.to_multiset() == others.to_multiset(),
    ensures
        nearest_all(others) == others.map_values(|p: Point| nearest_from(places, p)),
{
    let images = others.map_values(|p: Point| nearest_from(places, p));
    let all = nearest_all(others);
    assert forall|k: int| 0 <= k < others.len() implies #[trigger] all[k] == images[k] by {
        lemma_nearest_at(places, others, k);
    }
    assert(all =~= images);
}

/// The typical distance between neighbours does not depend on the order in which the places are listed.
pub proof fn the_pitch_does_not_depend_on_the_order(places: Seq<Point>, others: Seq<Point>)
    requires
        places.to_multiset() == others.to_multiset(),
    ensures
        pitch_of(places) == pitch_of(others),
{
    places.to_multiset_ensures();
    others.to_multiset_ensures();
    assert(places.len() == others.len());
    lemma_nearest_by_place(places, places);
    lemma_nearest_by_place(places, others);
    lemma_images_agree(places, others, |p: Point| nearest_from(places, p));
    the_order_of_values_does_not_count(nearest_all(places), nearest_all(others));
}

/// The typical distance between neighbours is the upper median of the distances from each place to its
/// nearest other: it is one of them, at most half of them lie below it, and more than half lie at or
/// below it.
pub proof fn the_pitch_is_the_upper_median(places: Seq<Point>)
    requires
        places.len() >= 2,
    ensures
        nearest_all(places).contains(pitch_of(places)),
        nearest_all(places).filter(|d: Quantity| d.less(pitch_of(places))).len() <= places.len() / 2,
        nearest_all(places).filter(|d: Quantity| d.at_most(pitch_of(places))).len() > places.len() / 2,
{
    let all = nearest_all(places);
    let list = ranked(all);
    let n = places.len();
    let h = (n / 2) as int;
    let r = list[h];
    let below = |d: Quantity| d.less(r);
    let within = |d: Quantity| d.at_most(r);
    order_is_total();
    all.lemma_sort_by_ensures(in_order());
    all.to_multiset_ensures();
    list.to_multiset_ensures();
    assert(list.len() == n);
    assert(list.contains(r));
    assert(all.to_multiset().count(r) > 0);
    assert forall|k: int| 0 <= k < n implies !(#[trigger] list[k]).nan() by {
        assert(list.contains(list[k]));
        assert(all.to_multiset().count(list[k]) > 0);
        assert(all.contains(list[k]));
        let i = choose|i: int| 0 <= i < all.len() && all[i] == list[k];
        nearest_is_a_number(places, i, n);
    }
    let leq = in_order();
    assert(sorted_by(list, leq));
    let front = list.take(h);
    let back = list.skip(h);
    assert(list =~= front + back);
    Seq::filter_distributes_over_add(front, back, below);
    front.lemma_filter_len(below);
    assert forall|k: int| 0 <= k < back.len() implies !below(#[trigger] back[k]) by {
        if k > 0 {
            assert(leq(list[h], list[h + k]));
        }
        assert(back[k] == list[h + k]);
    }
    lemma_none_meet(back, below);
    let low = list.take(h + 1);
    let high = list.skip(h + 1);
    assert(list =~= low + high);
    Seq::filter_distributes_over_add(low, high, within);
    assert forall|k: int| 0 <= k < low.len() implies within(#[trigger] low[k]) by {
        if k < h {
            assert(leq(list[k], list[h]));
        }
        assert(low[k] == list[k]);
    }
    lemma_all_meet(low, within);
    lemma_filters_agree(all, list, below);
    lemma_filters_agree(all, list, within);
    assert(below =~= |d: Quantity| d.less(pitch_of(places)));
    assert(within =~= |d: Quantity| d.at_most(pitch_of(places)));
}

/// The typical distance between neighbours is a number or infinity, wherever the places are.
pub proof fn the_pitch_is_a_number(places: Seq<Point>)
    ensures
        !pitch_of(places).nan(),
{
    if places.len() >= 2 {
        the_pitch_is_the_upper_median(places);
        let all = nearest_all(places);
        let i = choose|i: int| 0 <= i < all.len() && all[i] == pitch_of(places);
        nearest_is_a_number(places, i, places.len());
    }
}

proof fn lemma_none_meet(s: Seq<Quantity>, f: spec_fn(Quantity) -> bool)
    requires
        forall|k: int| 0 <= k < s.len() ==> !f(#[trigger] s[k]),
    ensures
        s.filter(f).len() == 0,
    decreases s.len(),
{
    reveal(Seq::filter);
    if s.len() > 0 {
        let rest = s.drop_last();
        assert forall|k: int| 0 <= k < rest.len() implies !f(#[trigger] rest[k]) by {
            assert(rest[k] == s[k]);
        }
        lemma_none_meet(rest, f);
    }
}

proof fn lemma_all_meet(s: Seq<Quantity>, f: spec_fn(Quantity) -> bool)
    requires
        forall|k: int| 0 <= k < s.len() ==> f(#[trigger] s[k]),
    ensures
        s.filter(f).len() == s.len(),
    decreases s.len(),
{
    reveal(Seq::filter);
    if s.len() > 0 {
        let rest = s.drop_last();
        assert forall|k: int| 0 <= k < rest.len() implies f(#[trigger] rest[k]) by {
            assert(rest[k] == s[k]);
        }
        lemma_all_meet(rest, f);
    }
}

} // verus!
