//! How far rounding can lead astray: what a rounded result counts, and how near that is to the exact one.
use crate::arithmetic::{
    exact_results_stand, fits_root, lemma_absorbed, lemma_nearest_scales, lemma_one_root, lemma_quotient_scales,
    lemma_root_fits, nearest, nearest_pattern, root_of, root_pattern, rounded_root, units,
};
use crate::arithmetic_laws::{
    lemma_beyond, lemma_patterns_ascend, lemma_quotients_ascend, lemma_root_beyond, lemma_rounded_roots_ascend,
    lemma_sign_does_not_count,
};
use crate::quantity::{exponent, rounded_quotient, significand, Quantity};
use vstd::arithmetic::div_mod::lemma_fundamental_div_mod;
use vstd::arithmetic::power2::{
    lemma2_to64, lemma_pow2_adds, lemma_pow2_pos, lemma_pow2_strictly_increases, lemma_pow2_unfold, pow2,
};
use vstd::prelude::*;

verus! {

/// What the quantity nearest to `n / d` units counts.
pub open spec fn nearest_value(n: nat, d: nat) -> nat
    decreases n - d,
{
    if d == 0 || n < d * 0x100_0000 {
        rounded_quotient(n, d)
    } else {
        2 * nearest_value(n, 2 * d)
    }
}

/// What the quantity nearest to the root of `n` counts, in steps of `d`.
pub open spec fn root_value(n: nat, d: nat) -> nat
    decreases n - d,
{
    if d == 0 || n < (d * 0x100_0000) * (d * 0x100_0000) {
        rounded_root(n, d)
    } else {
        proof {
            assert(n >= 2 * d) by (nonlinear_arith)
                requires
                    n >= (d * 0x100_0000) * (d * 0x100_0000),
                    d >= 1,
            ;
        }
        2 * root_value(n, 2 * d)
    }
}

/// The next patterns but `2^23` count twice as much.
proof fn lemma_pattern_counts_double(p: nat)
    requires
        0x80_0000 <= p < 0x7f00_0000,
    ensures
        units(Quantity { bits: (p + 0x80_0000) as u32 }) == 2 * units(Quantity { bits: p as u32 }),
{
    let field = p / 0x80_0000;
    assert((p + 0x80_0000) / 0x80_0000 == field + 1);
    assert((p + 0x80_0000) % 0x80_0000 == p % 0x80_0000);
    assert(1 <= field < 0xfe);
    let m = p % 0x80_0000 + 0x80_0000;
    lemma_pow2_unfold(field as nat);
    let h = pow2((field - 1) as nat);
    assert(m * (2 * h) == 2 * (m * h)) by (nonlinear_arith);
}

/// The first patterns count themselves.
proof fn lemma_pattern_counts(p: nat)
    requires
        p <= 0x100_0000,
    ensures
        units(Quantity { bits: p as u32 }) == p,
{
    let q = Quantity { bits: p as u32 };
    lemma2_to64();
    assert(pow2(0) == 1 && pow2(1) == 2);
    if p < 0x80_0000 {
        assert(significand(q.bits) == p && exponent(q.bits) == -149);
        assert(units(q) == p * pow2(0));
    } else if p < 0x100_0000 {
        assert(p / 0x80_0000 == 1);
        assert(significand(q.bits) == p && exponent(q.bits) == -149);
        assert(units(q) == p * pow2(0));
    } else {
        assert(p / 0x80_0000 == 2);
        assert(significand(q.bits) == 0x80_0000 && exponent(q.bits) == -148);
        assert(units(q) == 0x80_0000 * pow2(1));
    }
    assert(p * 1 == p) by (nonlinear_arith);
}

proof fn lemma_pattern_value(n: nat, d: nat)
    requires
        d > 0,
        nearest_pattern(n, d) < 0x7f80_0000,
    ensures
        units(Quantity { bits: nearest_pattern(n, d) as u32 }) == nearest_value(n, d),
    decreases n - d,
{
    if n < d * 0x100_0000 {
        lemma_quotients_ascend(n, n, d);
        assert(n / d < 0x100_0000) by (nonlinear_arith)
            requires
                n < d * 0x100_0000,
                d > 0,
        ;
        lemma_pattern_counts(rounded_quotient(n, d));
    } else {
        lemma_beyond(n, 2 * d);
        lemma_pattern_value(n, 2 * d);
        lemma_pattern_counts_double(nearest_pattern(n, 2 * d));
    }
}

/// The pattern of `2^e` units.
proof fn lemma_power_pattern(e: nat)
    requires
        23 <= e,
    ensures
        nearest_pattern(pow2(e), 1) == (e - 22) * 0x80_0000,
{
    let x = (e - 23) as nat;
    lemma_pow2_adds(23, x);
    lemma2_to64();
    lemma_pow2_pos(x);
    lemma_absorbed(0x80_0000, x, pow2(e), 0, false);
}

/// What is at most `2^e` is rounded to at most `2^e`; the result counts what it should.
pub proof fn rounded_within(negative: bool, n: nat, d: nat, e: nat)
    requires
        d > 0,
        n <= d * pow2(e),
        23 <= e <= 276,
    ensures
        nearest(negative, n, d).finite(),
        nearest(negative, n, d).negative() == negative,
        units(nearest(negative, n, d)) == nearest_value(n, d),
        nearest_value(n, d) <= pow2(e),
{
    let p = nearest_pattern(n, d);
    assert(pow2(e) * d == d * pow2(e)) by (nonlinear_arith);
    lemma_nearest_scales(pow2(e), 1, d);
    assert(1 * d == d);
    lemma_patterns_ascend(n, d * pow2(e), d);
    lemma_power_pattern(e);
    assert(p <= (e - 22) * 0x80_0000 <= 0x7f00_0000);
    lemma_pattern_value(n, d);
    lemma_sign_does_not_count(nearest(negative, n, d));
    assert(nearest(negative, n, d).bits % 0x8000_0000 == p);
    lemma_value_below(n, d, e);
}

proof fn lemma_value_below(n: nat, d: nat, e: nat)
    requires
        d > 0,
        n <= d * pow2(e),
    ensures
        nearest_value(n, d) <= pow2(e),
    decreases n - d,
{
    lemma_pow2_pos(e);
    if n < d * 0x100_0000 {
        let q = n / d;
        let r = n % d;
        lemma_fundamental_div_mod(n as int, d as int);
        assert(q <= pow2(e) && (q == pow2(e) ==> r == 0)) by (nonlinear_arith)
            requires
                n == d * q + r,
                0 <= r < d,
                n <= d * pow2(e),
                d > 0,
        ;
    } else {
        assert(e >= 24) by {
            lemma2_to64();
            if e < 24 {
                lemma_pow2_strictly_increases(e, 24);
                assert(d * pow2(e) < d * 0x100_0000) by (nonlinear_arith)
                    requires
                        pow2(e) < 0x100_0000,
                        d > 0,
                ;
            }
        }
        lemma_pow2_unfold(e);
        let h = pow2((e - 1) as nat);
        assert(d * (2 * h) == (2 * d) * h) by (nonlinear_arith);
        lemma_value_below(n, 2 * d, (e - 1) as nat);
    }
}

/// What is at least `2^e` is rounded to at least `2^e`.
pub proof fn rounded_above(n: nat, d: nat, e: nat)
    requires
        d > 0,
        n >= d * pow2(e),
    ensures
        nearest_value(n, d) >= pow2(e),
    decreases n - d,
{
    lemma_pow2_pos(e);
    if n < d * 0x100_0000 {
        lemma_quotients_ascend(n, n, d);
        assert(n / d >= pow2(e)) by (nonlinear_arith)
            requires
                n >= d * pow2(e),
                d > 0,
        ;
    } else if e == 0 {
        lemma2_to64();
        lemma_value_beyond(n, 2 * d);
    } else {
        lemma_pow2_unfold(e);
        let h = pow2((e - 1) as nat);
        assert(d * (2 * h) == (2 * d) * h) by (nonlinear_arith);
        rounded_above(n, 2 * d, (e - 1) as nat);
    }
}

/// What a quantity counts is left as it is.
pub proof fn exact_values_stand(q: Quantity)
    requires
        q.finite(),
    ensures
        nearest_value(units(q), 1) == units(q),
{
    exact_results_stand(q);
    lemma_pattern_value(units(q), 1);
    lemma_sign_does_not_count(q);
}

/// A part in `2^25` is lost beside a power of two.
pub proof fn small_parts_are_lost(e: nat)
    requires
        25 <= e <= 276,
    ensures
        nearest_value(pow2(e) + pow2((e - 25) as nat), 1) <= pow2(e),
{
    let x = (e - 23) as nat;
    let r = pow2((e - 25) as nat);
    lemma_pow2_pos((e - 25) as nat);
    lemma_pow2_unfold((e - 24) as nat);
    lemma_pow2_unfold(x);
    lemma_pow2_adds(23, x);
    lemma2_to64();
    lemma_absorbed(0x80_0000, x, pow2(e) + r, r, false);
    lemma_power_pattern(e);
    lemma_pattern_value(pow2(e) + r, 1);
    lemma_pattern_value(pow2(e), 1);
    lemma_value_below(pow2(e), 1, e);
}

/// What is rounded counts as much as the exact result, within half a unit, or one part in `2^24`.
pub proof fn rounding_is_near(n: nat, d: nat)
    requires
        d > 0,
    ensures
        ({
            let off = nearest_value(n, d) * d - n;
            (-(d as int) <= 2 * off <= d) || (-(n as int) <= 0x100_0000 * off <= n)
        }),
    decreases n - d,
{
    if n < d * 0x100_0000 {
        let q = n / d;
        let r = n % d;
        lemma_fundamental_div_mod(n as int, d as int);
        assert(q * d == d * q && (q + 1) * d == d * q + d) by (nonlinear_arith);
    } else {
        let v = nearest_value(n, 2 * d);
        rounding_is_near(n, 2 * d);
        assert((2 * v) * d == v * (2 * d)) by (nonlinear_arith);
    }
}

/// Of two magnitudes, the lesser one is not rounded to what counts more.
pub proof fn values_ascend(m: nat, n: nat, d: nat)
    requires
        m <= n,
        d > 0,
    ensures
        nearest_value(m, d) <= nearest_value(n, d),
    decreases n - d,
{
    if n < d * 0x100_0000 {
        lemma_quotients_ascend(m, n, d);
    } else if m < d * 0x100_0000 {
        lemma_quotients_ascend(m, m, d);
        assert(m / d < 0x100_0000) by (nonlinear_arith)
            requires
                m < d * 0x100_0000,
                d > 0,
        ;
        lemma_value_beyond(n, 2 * d);
    } else {
        values_ascend(m, n, 2 * d);
    }
}

proof fn lemma_value_beyond(n: nat, d: nat)
    requires
        d > 0,
        n >= d * 0x80_0000,
    ensures
        nearest_value(n, d) >= 0x80_0000,
    decreases n - d,
{
    if n < d * 0x100_0000 {
        lemma_quotients_ascend(n, n, d);
        assert(n / d >= 0x80_0000) by (nonlinear_arith)
            requires
                n >= d * 0x80_0000,
                d > 0,
        ;
    } else {
        lemma_value_beyond(n, 2 * d);
    }
}

/// What is rounded does not depend on how the fraction is written.
pub proof fn values_scale(n: nat, d: nat, c: nat)
    requires
        d > 0,
        c > 0,
    ensures
        nearest_value(n * c, d * c) == nearest_value(n, d),
    decreases n - d,
{
    assert(d * c > 0) by (nonlinear_arith)
        requires
            d > 0,
            c > 0,
    ;
    assert(n * c < (d * c) * 0x100_0000 <==> n < d * 0x100_0000) by (nonlinear_arith)
        requires
            c > 0,
    ;
    if n < d * 0x100_0000 {
        lemma_quotient_scales(n, d, c);
    } else {
        values_scale(n, 2 * d, c);
        assert((2 * d) * c == 2 * (d * c)) by (nonlinear_arith);
    }
}

/// Rounding commutes with a power of two, beyond `2^23` units.
pub proof fn powers_go_through(n: nat, k: nat)
    requires
        n >= 0x80_0000,
    ensures
        nearest_value(n * pow2(k), 1) == nearest_value(n, 1) * pow2(k),
{
    let p = pow2(k);
    lemma_pow2_pos(k);
    lemma_values_pass_over(n * p, k, n);
    values_scale(n, 1, p);
    assert(1 * p == p);
}

proof fn lemma_values_pass_over(m: nat, k: nat, n: nat)
    requires
        n >= 0x80_0000,
        m >= n * pow2(k),
    ensures
        nearest_value(m, 1) == nearest_value(m, pow2(k)) * pow2(k),
    decreases k,
{
    lemma2_to64();
    if k > 0 {
        lemma_pow2_unfold(k);
        let h = pow2((k - 1) as nat);
        lemma_pow2_pos((k - 1) as nat);
        assert(m >= n * h && m >= h * 0x100_0000) by (nonlinear_arith)
            requires
                m >= n * (2 * h),
                n >= 0x80_0000,
                h > 0,
        ;
        lemma_values_pass_over(m, (k - 1) as nat, n);
        let v = nearest_value(m, 2 * h);
        assert((2 * v) * h == v * (2 * h)) by (nonlinear_arith);
    } else {
        assert(nearest_value(m, 1) * 1 == nearest_value(m, 1)) by (nonlinear_arith);
    }
}

proof fn lemma_root_pattern_value(n: nat, d: nat)
    requires
        d > 0,
        root_pattern(n, d) < 0x7f80_0000,
    ensures
        units(Quantity { bits: root_pattern(n, d) as u32 }) == root_value(n, d),
    decreases n - d,
{
    if n < (d * 0x100_0000) * (d * 0x100_0000) {
        let q = lemma_rounded_roots_ascend(n, n, d);
        assert(q < 0x100_0000) by (nonlinear_arith)
            requires
                (q * d) * (q * d) <= n,
                n < (d * 0x100_0000) * (d * 0x100_0000),
                d > 0,
        ;
        lemma_pattern_counts(rounded_root(n, d));
    } else {
        assert(n >= 2 * d) by (nonlinear_arith)
            requires
                n >= (d * 0x100_0000) * (d * 0x100_0000),
                d >= 1,
        ;
        assert((2 * d) * 0x80_0000 == d * 0x100_0000);
        lemma_root_beyond(n, 2 * d);
        lemma_root_pattern_value(n, 2 * d);
        lemma_pattern_counts_double(root_pattern(n, 2 * d));
    }
}

proof fn lemma_root_is_near(n: nat, d: nat)
    requires
        d > 0,
        n >= (d * 0x80_0000) * (d * 0x80_0000),
    ensures
        ({
            let v = root_value(n, d) * d;
            -(v * v) <= 0x40_0000 * (v * v - n) <= v * v
        }),
    decreases n - d,
{
    if n < (d * 0x100_0000) * (d * 0x100_0000) {
        let q = lemma_rounded_roots_ascend(n, n, d);
        assert forall|p: nat| #[trigger] fits_root(n, d, p) implies p == q by {
            lemma_one_root(n, d, p, q);
        }
        assert(q >= 0x80_0000) by (nonlinear_arith)
            requires
                n >= (d * 0x80_0000) * (d * 0x80_0000),
                n < ((q + 1) * d) * ((q + 1) * d),
                d > 0,
        ;
        let r = rounded_root(n, d);
        let v = r * d;
        lemma_half_a_step(n, d, q, r);
        assert((2 * v - d) * (2 * v - d) <= 4 * n <= (2 * v + d) * (2 * v + d));
        assert(v >= 0x80_0000 * d) by (nonlinear_arith)
            requires
                v == r * d,
                r >= 0x80_0000,
        ;
        assert(-(v * v) <= 0x40_0000 * (v * v - n) <= v * v) by (nonlinear_arith)
            requires
                (2 * v - d) * (2 * v - d) <= 4 * n,
                4 * n <= (2 * v + d) * (2 * v + d),
                v >= 0x80_0000 * d,
                d > 0,
        ;
    } else {
        assert(n >= 2 * d) by (nonlinear_arith)
            requires
                n >= (d * 0x100_0000) * (d * 0x100_0000),
                d >= 1,
        ;
        assert((2 * d) * 0x80_0000 == d * 0x100_0000);
        lemma_root_is_near(n, 2 * d);
        let w = root_value(n, 2 * d);
        assert((2 * w) * d == w * (2 * d)) by (nonlinear_arith);
    }
}

/// A rounded root is at most half a step off.
proof fn lemma_half_a_step(n: nat, d: nat, q: nat, r: nat)
    requires
        (q * d) * (q * d) <= n < ((q + 1) * d) * ((q + 1) * d),
        q >= 1,
        r == if 4 * n > ((2 * q + 1) * d) * ((2 * q + 1) * d) || (4 * n == ((2 * q + 1) * d) * ((2 * q + 1) * d) && q % 2
            == 1) {
            q + 1
        } else {
            q
        },
    ensures
        (2 * (r * d) - d) * (2 * (r * d) - d) <= 4 * n <= (2 * (r * d) + d) * (2 * (r * d) + d),
{
    let middle = (2 * q + 1) * d;
    assert(middle == 2 * (q * d) + d && 2 * ((q + 1) * d) - d == middle) by (nonlinear_arith)
        requires
            middle == (2 * q + 1) * d,
    ;
    let low = q * d;
    let high = (q + 1) * d;
    if r == q {
        assert((2 * low - d) * (2 * low - d) <= 4 * (low * low)) by (nonlinear_arith)
            requires
                low == q * d,
                q >= 1,
        ;
    } else {
        assert(4 * (high * high) <= (2 * high + d) * (2 * high + d)) by (nonlinear_arith)
            requires
                high >= 0,
                d >= 0,
        ;
    }
}

/// The square of a root is near what the root is taken of: within one part in `2^22`.
pub proof fn roots_are_near(q: Quantity)
    requires
        q.finite(),
        q.positive(),
        units(q) >= 1,
    ensures
        ({
            let v = units(root_of(q));
            -(v * v) <= 0x40_0000 * (v * v - units(q) * pow2(149)) <= v * v
        }),
{
    let n = units(q) * pow2(149);
    lemma_root_fits(q);
    lemma_root_pattern_value(n, 1);
    assert(n >= 0x80_0000 * 0x80_0000) by {
        lemma_unit_is_large();
        assert(n >= pow2(149)) by (nonlinear_arith)
            requires
                n == units(q) * pow2(149),
                units(q) >= 1,
        ;
    }
    lemma_root_is_near(n, 1);
}

proof fn lemma_unit_is_large()
    ensures
        pow2(149) >= 0x80_0000 * 0x80_0000,
{
    lemma2_to64();
    lemma_pow2_adds(23, 23);
    lemma_pow2_strictly_increases(46, 149);
}

} // verus!
