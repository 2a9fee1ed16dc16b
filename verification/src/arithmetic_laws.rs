//! Order in arithmetic: rounding never turns an order round.
use crate::arithmetic::{
    exact_results_stand, fits_root, held_between, lemma_nearest_scales, lemma_one_root, lemma_root_fits,
    lemma_whole_root_exists, nearest, nearest_pattern, product_of, products_commute, quotient_of, root_of, root_pattern,
    roots_are_numbers, rounded_root, signed_units, sum_of, units,
};
use crate::palette::one;
use crate::quantity::{exponent, fraction_field, rounded_quotient, significand, zero, Quantity};
use vstd::arithmetic::div_mod::{lemma_div_is_ordered, lemma_fundamental_div_mod};
use vstd::arithmetic::power2::{lemma2_to64, lemma_pow2_adds, lemma_pow2_pos, pow2};
use vstd::prelude::*;

verus! {

pub(crate) proof fn lemma_quotients_ascend(m: nat, n: nat, d: nat)
    requires
        m <= n,
        d > 0,
    ensures
        m / d <= rounded_quotient(m, d) <= m / d + 1,
        rounded_quotient(m, d) <= rounded_quotient(n, d),
{
    lemma_div_is_ordered(m as int, n as int, d as int);
    lemma_fundamental_div_mod(m as int, d as int);
    lemma_fundamental_div_mod(n as int, d as int);
}

/// What lies at or beyond `2^23` steps has a pattern at or beyond that.
pub(crate) proof fn lemma_beyond(n: nat, d: nat)
    requires
        d > 0,
        n >= d * 0x80_0000,
    ensures
        nearest_pattern(n, d) >= 0x80_0000,
    decreases n - d,
{
    if n < d * 0x100_0000 {
        lemma_quotients_ascend(n, n, d);
        assert(n / d >= 0x80_0000) by (nonlinear_arith)
            requires
                n >= d * 0x80_0000,
                d > 0,
        ;
    } else {
        assert(nearest_pattern(n, d) == 0x80_0000 + nearest_pattern(n, 2 * d));
    }
}

pub(crate) proof fn lemma_patterns_ascend(m: nat, n: nat, d: nat)
    requires
        m <= n,
        d > 0,
    ensures
        nearest_pattern(m, d) <= nearest_pattern(n, d),
    decreases n - d,
{
    if n < d * 0x100_0000 {
        lemma_quotients_ascend(m, n, d);
    } else if m < d * 0x100_0000 {
        lemma_quotients_ascend(m, m, d);
        assert(m / d < 0x100_0000) by (nonlinear_arith)
            requires
                m < d * 0x100_0000,
                d > 0,
        ;
        lemma_beyond(n, 2 * d);
    } else {
        lemma_patterns_ascend(m, n, 2 * d);
    }
}

/// Of two magnitudes, the lesser one is not rounded to a greater quantity.
pub proof fn rounding_keeps_order(m: nat, n: nat, d: nat)
    requires
        m <= n,
        d > 0,
    ensures
        nearest(false, m, d).at_most(nearest(false, n, d)),
        nearest(true, n, d).at_most(nearest(true, m, d)),
        zero().at_most(nearest(false, m, d)),
        nearest(true, m, d).at_most(zero()),
{
    lemma_patterns_ascend(m, n, d);
}

/// The order of finite quantities is that of what they count.
pub(crate) proof fn lemma_units_ascend(a: Quantity, b: Quantity)
    requires
        a.finite(),
        b.finite(),
        a.at_most(b),
    ensures
        signed_units(a) <= signed_units(b),
        !a.negative() ==> units(a) <= units(b),
{
    exact_results_stand(a);
    exact_results_stand(b);
    lemma_no_less(a, b);
    lemma_no_less(b, a);
}

/// Of two finite quantities, the one that is farther from 0 counts no less.
proof fn lemma_no_less(a: Quantity, b: Quantity)
    requires
        a.finite(),
        b.finite(),
    ensures
        (if a.negative() {
            a.bits - 0x8000_0000
        } else {
            a.bits as int
        }) <= (if b.negative() {
            b.bits - 0x8000_0000
        } else {
            b.bits as int
        }) ==> units(a) <= units(b),
{
    exact_results_stand(a);
    exact_results_stand(b);
    let p = nearest_pattern(units(a), 1);
    let q = nearest_pattern(units(b), 1);
    if units(a) > units(b) {
        lemma_patterns_ascend(units(b), units(a), 1);
        if p == q {
            assert(a.bits % 0x8000_0000 == b.bits % 0x8000_0000);
            lemma_sign_does_not_count(a);
            lemma_sign_does_not_count(b);
        }
    }
}

pub(crate) proof fn lemma_sign_does_not_count(q: Quantity)
    ensures
        units(q) == units(Quantity { bits: q.bits % 0x8000_0000 }),
{
    let b = q.bits % 0x8000_0000;
    if q.negative() {
        assert(q.bits == b + 0x8000_0000);
        assert((b + 0x8000_0000) / 0x80_0000 == b / 0x80_0000 + 0x100);
    }
}

/// Adding the same to two quantities keeps their order.
pub proof fn sums_ascend(a: Quantity, b: Quantity, c: Quantity)
    requires
        a.finite(),
        b.finite(),
        c.finite(),
        a.at_most(b),
    ensures
        sum_of(a, c).at_most(sum_of(b, c)),
{
    lemma_units_ascend(a, b);
    let s = signed_units(a) + signed_units(c);
    let t = signed_units(b) + signed_units(c);
    if s > 0 {
        rounding_keeps_order(s as nat, t as nat, 1);
    } else if t < 0 {
        rounding_keeps_order((-t) as nat, (-s) as nat, 1);
    } else {
        if s < 0 {
            rounding_keeps_order((-s) as nat, (-s) as nat, 1);
        }
        if t > 0 {
            rounding_keeps_order(t as nat, t as nat, 1);
        }
    }
}

/// Nothing, multiplied with what is finite, is nothing.
pub proof fn nothing_multiplied_is_nothing(a: Quantity, b: Quantity)
    requires
        a.rank() == 0,
        b.finite(),
    ensures
        product_of(a, b).rank() == 0,
{
    assert(units(a) == 0) by (nonlinear_arith)
        requires
            units(a) == 0 * pow2(0),
    ;
    assert(units(a) * units(b) == 0) by (nonlinear_arith)
        requires
            units(a) == 0,
    ;
    lemma_pow2_pos(149);
    lemma_fundamental_div_mod(0, pow2(149) as int);
    assert(nearest_pattern(0, pow2(149)) == rounded_quotient(0, pow2(149)));
}

/// Multiplying two quantities that are not below 0 with the same one, which is not either, keeps their
/// order.
pub proof fn products_ascend(a: Quantity, b: Quantity, c: Quantity)
    requires
        a.finite(),
        b.finite(),
        c.finite(),
        !a.negative(),
        !c.negative(),
        a.at_most(b),
    ensures
        product_of(c, a).at_most(product_of(c, b)),
{
    lemma_units_ascend(a, b);
    lemma_pow2_pos(149);
    assert(units(c) * units(a) <= units(c) * units(b)) by (nonlinear_arith)
        requires
            units(a) <= units(b),
    ;
    if b.negative() {
        nothing_multiplied_is_nothing(a, c);
        nothing_multiplied_is_nothing(b, c);
        products_commute(a, c);
        products_commute(b, c);
    } else {
        rounding_keeps_order(units(c) * units(a), units(c) * units(b), pow2(149));
    }
}

/// There is a whole number of steps below every root.
proof fn lemma_steps_exist(n: nat, d: nat) -> (q: nat)
    requires
        d > 0,
    ensures
        fits_root(n, d, q),
        forall|p: nat| #[trigger] fits_root(n, d, p) ==> p == q,
{
    let r = lemma_whole_root_exists(n);
    let q = r / d;
    lemma_fundamental_div_mod(r as int, d as int);
    assert(q * d <= r && r + 1 <= (q + 1) * d) by (nonlinear_arith)
        requires
            r == d * q + r % d,
            0 <= r % d < d,
    ;
    let low = q * d;
    let high = (q + 1) * d;
    assert(low * low <= r * r && (r + 1) * (r + 1) <= high * high) by (nonlinear_arith)
        requires
            0 <= low <= r,
            r + 1 <= high,
    ;
    assert forall|p: nat| #[trigger] fits_root(n, d, p) implies p == q by {
        lemma_one_root(n, d, p, q);
    }
    q
}

/// The number of whole steps below a root, rounded, and how it grows.
pub(crate) proof fn lemma_rounded_roots_ascend(m: nat, n: nat, d: nat) -> (q: nat)
    requires
        m <= n,
        d > 0,
    ensures
        fits_root(m, d, q),
        q <= rounded_root(m, d) <= q + 1,
        rounded_root(m, d) <= rounded_root(n, d),
{
    let p = lemma_steps_exist(m, d);
    let q = lemma_steps_exist(n, d);
    assert(p <= q) by (nonlinear_arith)
        requires
            (p * d) * (p * d) <= m,
            m <= n,
            n < ((q + 1) * d) * ((q + 1) * d),
    ;
    p
}

pub(crate) proof fn lemma_root_beyond(n: nat, d: nat)
    requires
        d > 0,
        n >= (d * 0x80_0000) * (d * 0x80_0000),
    ensures
        root_pattern(n, d) >= 0x80_0000,
    decreases n - d,
{
    if n < (d * 0x100_0000) * (d * 0x100_0000) {
        let q = lemma_rounded_roots_ascend(n, n, d);
        assert(q >= 0x80_0000) by (nonlinear_arith)
            requires
                n >= (d * 0x80_0000) * (d * 0x80_0000),
                n < ((q + 1) * d) * ((q + 1) * d),
                d > 0,
        ;
    } else {
        assert(root_pattern(n, d) == 0x80_0000 + root_pattern(n, 2 * d));
    }
}

proof fn lemma_root_patterns_ascend(m: nat, n: nat, d: nat)
    requires
        m <= n,
        d > 0,
    ensures
        root_pattern(m, d) <= root_pattern(n, d),
    decreases n - d,
{
    let edge = (d * 0x100_0000) * (d * 0x100_0000);
    if n < edge {
        let _ = lemma_rounded_roots_ascend(m, n, d);
    } else if m < edge {
        let q = lemma_rounded_roots_ascend(m, m, d);
        assert(q < 0x100_0000) by (nonlinear_arith)
            requires
                (q * d) * (q * d) <= m,
                m < (d * 0x100_0000) * (d * 0x100_0000),
                d > 0,
        ;
        lemma_root_beyond(n, 2 * d);
    } else {
        assert(n >= 2 * d) by (nonlinear_arith)
            requires
                n >= (d * 0x100_0000) * (d * 0x100_0000),
                d >= 1,
        ;
        lemma_root_patterns_ascend(m, n, 2 * d);
    }
}

/// Roots keep the order of what they are taken of.
pub proof fn roots_ascend(a: Quantity, b: Quantity)
    requires
        zero().at_most(a),
        a.at_most(b),
    ensures
        root_of(a).at_most(root_of(b)),
{
    roots_are_numbers(a);
    roots_are_numbers(b);
    if b.finite() && a.rank() != 0 {
        lemma_units_ascend(a, b);
        lemma_root_fits(a);
        lemma_root_fits(b);
        assert(units(a) * pow2(149) <= units(b) * pow2(149)) by (nonlinear_arith)
            requires
                units(a) <= units(b),
        ;
        lemma_root_patterns_ascend(units(a) * pow2(149), units(b) * pow2(149), 1);
    }
}

/// Bringing two quantities into the same range keeps their order.
pub proof fn ranges_keep_order(a: Quantity, b: Quantity, low: Quantity, high: Quantity)
    requires
        a.at_most(b),
        low.at_most(high),
    ensures
        held_between(a, low, high).at_most(held_between(b, low, high)),
{
}

/// A quantity and nothing more is that quantity.
pub proof fn adding_nothing_changes_nothing(q: Quantity)
    requires
        q.finite(),
        q.rank() != 0,
    ensures
        sum_of(q, zero()) == q,
{
    exact_results_stand(q);
    assert(units(zero()) == 0) by (nonlinear_arith)
        requires
            units(zero()) == 0 * pow2(0),
    ;
    if units(q) == 0 {
        lemma_fundamental_div_mod(0, 1);
        assert(nearest_pattern(0, 1) == rounded_quotient(0, 1));
    }
}

/// A quantity times 1 is that quantity.
pub proof fn times_one_changes_nothing(q: Quantity)
    requires
        q.finite(),
    ensures
        product_of(q, one()) == q,
{
    assert(significand(one().bits) == 0x80_0000 && exponent(one().bits) == -23) by {
        assert(fraction_field(one().bits) == 0);
    }
    lemma2_to64();
    lemma_pow2_adds(23, 126);
    assert(units(one()) == pow2(149));
    lemma_pow2_pos(149);
    lemma_nearest_scales(units(q), 1, pow2(149));
    exact_results_stand(q);
}

pub(crate) proof fn lemma_nothing_rounds_to_nothing(d: nat)
    requires
        d > 0,
    ensures
        nearest_pattern(0, d) == 0,
{
    lemma_fundamental_div_mod(0, d as int);
    assert(nearest_pattern(0, d) == rounded_quotient(0, d));
    assert(0int / d as int == 0) by (nonlinear_arith)
        requires
            d > 0,
    ;
}

/// What is finite and above 0 counts something.
pub(crate) proof fn lemma_positive_counts(q: Quantity)
    requires
        q.finite(),
        q.rank() != 0,
    ensures
        units(q) > 0,
{
    exact_results_stand(q);
    if units(q) == 0 {
        lemma_nothing_rounds_to_nothing(1);
    }
}

/// Dividing two quantities by the same one, which is above 0, keeps their order.
pub proof fn quotients_ascend(a: Quantity, b: Quantity, c: Quantity)
    requires
        a.finite(),
        b.finite(),
        c.finite(),
        zero().less(c),
        a.at_most(b),
    ensures
        quotient_of(a, c).at_most(quotient_of(b, c)),
{
    lemma_units_ascend(a, b);
    lemma_positive_counts(c);
    let (m, n, d) = (units(a) * pow2(149), units(b) * pow2(149), units(c));
    lemma_nothing_rounds_to_nothing(d);
    if a.negative() && b.negative() {
        assert(n <= m) by (nonlinear_arith)
            requires
                m == units(a) * pow2(149),
                n == units(b) * pow2(149),
                units(b) <= units(a),
        ;
        rounding_keeps_order(n, m, d);
    } else if a.negative() {
        rounding_keeps_order(m, m, d);
        rounding_keeps_order(n, n, d);
    } else if b.negative() {
        assert(m == 0 && n == 0) by (nonlinear_arith)
            requires
                m == units(a) * pow2(149),
                n == units(b) * pow2(149),
                units(a) == 0,
                units(b) == 0,
        ;
    } else {
        assert(m <= n) by (nonlinear_arith)
            requires
                m == units(a) * pow2(149),
                n == units(b) * pow2(149),
                units(a) <= units(b),
        ;
        rounding_keeps_order(m, n, d);
    }
}

/// Dividing a finite quantity above 0 by more gives no more.
pub proof fn quotients_descend(n: Quantity, a: Quantity, b: Quantity)
    requires
        n.finite(),
        zero().less(n),
        zero().less(a),
        a.at_most(b),
    ensures
        quotient_of(n, b).at_most(quotient_of(n, a)),
{
    let m = units(n) * pow2(149);
    if a.finite() && b.finite() {
        lemma_units_ascend(a, b);
        lemma_positive_counts(a);
        lemma_positive_counts(b);
        let (d, e) = (units(a), units(b));
        lemma_nearest_scales(m, d, e);
        lemma_nearest_scales(m, e, d);
        assert(m * d <= m * e && d * e == e * d && e * d > 0) by (nonlinear_arith)
            requires
                d <= e,
                d > 0,
        ;
        rounding_keeps_order(m * d, m * e, e * d);
    } else if a.finite() {
        lemma_positive_counts(a);
        rounding_keeps_order(m, m, units(a));
    }
}

} // verus!
