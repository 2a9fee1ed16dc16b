//! Quantities in order: sorting and percentiles.
use crate::quantity::Quantity;
use vstd::prelude::*;
use vstd::relations::{sorted_by, total_ordering};

verus! {

/// The order of all bit patterns.
pub open spec fn in_order() -> spec_fn(Quantity, Quantity) -> bool {
    |a: Quantity, b: Quantity| a.total_rank() <= b.total_rank()
}

/// The quantities, sorted.
pub open spec fn ranked(values: Seq<Quantity>) -> Seq<Quantity> {
    values.sort_by(in_order())
}

/// The order of all bit patterns is total: no two patterns stand at the same place.
pub proof fn order_is_total()
    ensures
        total_ordering(in_order()),
{
    assert forall|a: Quantity, b: Quantity| a.total_rank() == b.total_rank() implies a == b by {
        assert(a.bits == b.bits);
    }
}

proof fn lemma_insert(s: Seq<Quantity>, i: int, x: Quantity)
    requires
        0 <= i <= s.len(),
    ensures
        s.insert(i, x).to_multiset() == s.to_multiset().insert(x),
{
    let t = s.insert(i, x);
    assert(t[i] == x);
    assert(t.remove(i) =~= s);
    t.to_multiset_ensures();
    assert(t.contains(x));
    assert(t.to_multiset() =~= s.to_multiset().insert(x));
}

/// Sorts quantities.
pub fn sorted(values: &Vec<Quantity>) -> (result: Vec<Quantity>)
    ensures
        result@ == ranked(values@),
        result@.len() == values@.len(),
{
    let mut result: Vec<Quantity> = Vec::new();
    let mut n: usize = 0;
    assert(values@.take(0) =~= result@);
    while n < values.len()
        invariant
            n <= values.len(),
            result.len() == n,
            sorted_by(result@, in_order()),
            result@.to_multiset() == values@.take(n as int).to_multiset(),
        decreases values.len() - n,
    {
        let x = values[n];
        let mut i: usize = 0;
        while i < result.len() && result[i].total() <= x.total()
            invariant
                i <= result.len(),
                forall|k: int| 0 <= k < i ==> (#[trigger] result@[k]).total_rank() <= x.total_rank(),
            decreases result.len() - i,
        {
            i += 1;
        }
        let ghost before = result@;
        result.insert(i, x);
        proof {
            let after = result@;
            let leq = in_order();
            assert forall|a: int, b: int| 0 <= a < b < after.len() implies #[trigger] leq(after[a], after[b]) by {
                if b < i {
                    assert(leq(before[a], before[b]));
                } else if a < i && b > i {
                    assert(leq(before[a], before[b - 1]));
                } else if a > i {
                    assert(leq(before[a - 1], before[b - 1]));
                } else if a == i {
                    if b - 1 > i {
                        assert(leq(before[i as int], before[b - 1]));
                    }
                }
            }
            lemma_insert(before, i as int, x);
            assert(values@.take(n + 1) =~= values@.take(n as int).push(x));
            values@.take(n as int).to_multiset_ensures();
        }
        n += 1;
    }
    proof {
        assert(values@.take(values.len() as int) =~= values@);
        order_is_total();
        values@.lemma_sort_by_ensures(in_order());
        vstd::seq_lib::lemma_sorted_unique(result@, ranked(values@), in_order());
    }
    result
}

/// The item at the given share of the way through a list.
pub open spec fn at_share(list: Seq<Quantity>, percent: nat) -> Quantity {
    let i = list.len() * percent / 100;
    list[if i < list.len() { i as int } else { list.len() - 1 }]
}

/// The value at the given share of the way through the sorted quantities.
pub open spec fn percentile(values: Seq<Quantity>, percent: nat) -> Quantity {
    at_share(ranked(values), percent)
}

/// The item at the given share of the way through a list.
pub fn at_percent(list: &Vec<Quantity>, percent: usize) -> (value: Quantity)
    requires
        0 < list@.len(),
        percent <= 100,
    ensures
        value == at_share(list@, percent as nat),
{
    let n: u128 = list.len() as u128;
    assert(n * percent <= n * 100) by (nonlinear_arith)
        requires
            percent <= 100,
    ;
    let i: u128 = n * (percent as u128) / 100;
    if i < n {
        list[i as usize]
    } else {
        list[list.len() - 1]
    }
}

/// The same values, in whichever order, are sorted alike.
pub proof fn the_order_of_values_does_not_count(values: Seq<Quantity>, others: Seq<Quantity>)
    requires
        values.to_multiset() == others.to_multiset(),
    ensures
        ranked(values) == ranked(others),
{
    order_is_total();
    values.lemma_sort_by_ensures(in_order());
    others.lemma_sort_by_ensures(in_order());
    vstd::seq_lib::lemma_sorted_unique(ranked(values), ranked(others), in_order());
}

/// A percentile is one of the values.
pub proof fn percentile_is_a_value(values: Seq<Quantity>, percent: nat)
    requires
        0 < values.len(),
    ensures
        values.contains(percentile(values, percent)),
{
    order_is_total();
    values.lemma_sort_by_ensures(in_order());
    let r = ranked(values);
    values.to_multiset_ensures();
    r.to_multiset_ensures();
    let i = values.len() * percent / 100;
    let k = if i < values.len() { i as int } else { values.len() - 1 };
    assert(0 <= i) by (nonlinear_arith)
        requires
            i == values.len() * percent / 100,
    ;
    assert(r.contains(r[k]));
    assert(values.to_multiset().count(r[k]) > 0);
}

/// A larger share of the way gives no smaller value.
pub proof fn percentiles_ascend(values: Seq<Quantity>, low: nat, high: nat)
    requires
        0 < values.len(),
        low <= high,
    ensures
        percentile(values, low).total_rank() <= percentile(values, high).total_rank(),
{
    order_is_total();
    values.lemma_sort_by_ensures(in_order());
    let r = ranked(values);
    values.to_multiset_ensures();
    r.to_multiset_ensures();
    let n = values.len();
    let i = n * low / 100;
    let j = n * high / 100;
    assert(0 <= i <= j) by (nonlinear_arith)
        requires
            i == n * low / 100,
            j == n * high / 100,
            low <= high,
    ;
    let a = if i < n { i as int } else { n - 1 };
    let b = if j < n { j as int } else { n - 1 };
    let leq = in_order();
    if a < b {
        assert(leq(r[a], r[b]));
    }
}

} // verus!
