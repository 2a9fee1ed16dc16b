//! Sums, products and quotients of quantities: the exact result, rounded to the nearest quantity.
use crate::quantity::{exponent, exponent_field, rounded_quotient, significand, zero, Quantity};
use vstd::arithmetic::div_mod::{lemma_basic_div, lemma_fundamental_div_mod, lemma_fundamental_div_mod_converse, lemma_small_mod};
use vstd::arithmetic::power2::{
    lemma2_to64, lemma2_to64_rest, lemma_pow2_adds, lemma_pow2_pos, lemma_pow2_strictly_increases, lemma_pow2_unfold, pow2,
};
use vstd::prelude::*;

verus! {

/// The magnitude of a finite quantity, counted in the least positive one.
pub open spec fn units(q: Quantity) -> nat {
    significand(q.bits) * pow2((exponent(q.bits) + 149) as nat)
}

/// A finite quantity, counted in the least positive one.
pub open spec fn signed_units(q: Quantity) -> int {
    if q.negative() {
        -(units(q) as int)
    } else {
        units(q) as int
    }
}

/// The bit pattern of the quantity nearest to `n / d` units, and of the even one of two that are as
/// near. Up to 2^24 the quantities lie one unit apart; beyond, twice as far apart at each doubling.
pub open spec fn nearest_pattern(n: nat, d: nat) -> nat
    decreases n - d,
{
    if d == 0 || n < d * 0x100_0000 {
        rounded_quotient(n, d)
    } else {
        0x80_0000 + nearest_pattern(n, 2 * d)
    }
}

/// The quantity nearest to `n / d` units, with a sign; an infinity if that is too large.
pub open spec fn nearest(negative: bool, n: nat, d: nat) -> Quantity {
    let p = nearest_pattern(n, d);
    let magnitude: nat = if p < 0x7f80_0000 {
        p
    } else {
        0x7f80_0000
    };
    Quantity {
        bits: (if negative {
            magnitude + 0x8000_0000
        } else {
            magnitude
        }) as u32,
    }
}

/// The quantity 100.
pub open spec fn hundred() -> Quantity {
    Quantity { bits: 0x42c8_0000 }
}

/// What stands for no number.
pub open spec fn no_number() -> Quantity {
    Quantity { bits: 0x7fc0_0000 }
}

/// Zero with a sign.
pub open spec fn signed_zero(negative: bool) -> Quantity {
    Quantity {
        bits: if negative {
            0x8000_0000
        } else {
            0
        },
    }
}

/// An infinity with a sign.
pub open spec fn signed_infinity(negative: bool) -> Quantity {
    Quantity {
        bits: if negative {
            0xff80_0000
        } else {
            0x7f80_0000
        },
    }
}

/// The sum of two quantities.
pub open spec fn sum_of(a: Quantity, b: Quantity) -> Quantity {
    if a.nan() || b.nan() {
        no_number()
    } else if !a.finite() {
        if !b.finite() && a.negative() != b.negative() {
            no_number()
        } else {
            a
        }
    } else if !b.finite() {
        b
    } else {
        let s = signed_units(a) + signed_units(b);
        if s == 0 {
            signed_zero(a.negative() && b.negative())
        } else if s < 0 {
            nearest(true, (-s) as nat, 1)
        } else {
            nearest(false, s as nat, 1)
        }
    }
}

/// A quantity with the other sign.
pub open spec fn opposite(q: Quantity) -> Quantity {
    Quantity {
        bits: (if q.negative() {
            q.bits - 0x8000_0000
        } else {
            q.bits + 0x8000_0000
        }) as u32,
    }
}

/// The difference of two quantities.
pub open spec fn difference_of(a: Quantity, b: Quantity) -> Quantity {
    sum_of(a, opposite(b))
}

/// The product of two quantities.
pub open spec fn product_of(a: Quantity, b: Quantity) -> Quantity {
    let negative = a.negative() != b.negative();
    if a.nan() || b.nan() {
        no_number()
    } else if !a.finite() || !b.finite() {
        if a.rank() == 0 || b.rank() == 0 {
            no_number()
        } else {
            signed_infinity(negative)
        }
    } else {
        nearest(negative, units(a) * units(b), pow2(149))
    }
}

/// The quotient of two quantities.
pub open spec fn quotient_of(a: Quantity, b: Quantity) -> Quantity {
    let negative = a.negative() != b.negative();
    if a.nan() || b.nan() || (!a.finite() && !b.finite()) || (a.rank() == 0 && b.rank() == 0) {
        no_number()
    } else if !a.finite() || b.rank() == 0 {
        signed_infinity(negative)
    } else if !b.finite() {
        signed_zero(negative)
    } else {
        nearest(negative, units(a) * pow2(149), units(b))
    }
}

/// Whether `q` steps of `d` are as many as lie below the root of `n`.
pub open spec fn fits_root(n: nat, d: nat, q: nat) -> bool {
    (q * d) * (q * d) <= n < ((q + 1) * d) * ((q + 1) * d)
}

/// The root of `n` in steps of `d`, rounded to the nearest whole number of steps, and to the even one
/// of two that are as near.
pub open spec fn rounded_root(n: nat, d: nat) -> nat {
    let q = choose|q: nat| fits_root(n, d, q);
    let middle = (2 * q + 1) * d;
    if 4 * n > middle * middle || (4 * n == middle * middle && q % 2 == 1) {
        q + 1
    } else {
        q
    }
}

/// The bit pattern of the quantity nearest to the root of `n`, in steps of `d` units or more.
pub open spec fn root_pattern(n: nat, d: nat) -> nat
    decreases n - d,
{
    if d == 0 || n < (d * 0x100_0000) * (d * 0x100_0000) {
        rounded_root(n, d)
    } else {
        proof {
            assert(n >= 2 * d) by (nonlinear_arith)
                requires
                    n >= (d * 0x100_0000) * (d * 0x100_0000),
                    d >= 1,
            ;
        }
        0x80_0000 + root_pattern(n, 2 * d)
    }
}

/// The root of a quantity.
pub open spec fn root_of(q: Quantity) -> Quantity {
    if q.nan() || (q.negative() && q.rank() != 0) {
        no_number()
    } else if !q.finite() || q.rank() == 0 {
        q
    } else {
        Quantity { bits: root_pattern(units(q) * pow2(149), 1) as u32 }
    }
}

/// The larger of two quantities; what is no number gives way.
pub open spec fn larger(a: Quantity, b: Quantity) -> Quantity {
    if a.nan() || a.less(b) {
        b
    } else {
        a
    }
}

/// A quantity brought into a range; what is no number stays.
pub open spec fn held_between(v: Quantity, low: Quantity, high: Quantity) -> Quantity {
    if v.less(low) {
        low
    } else if high.less(v) {
        high
    } else {
        v
    }
}

/// A whole number as a quantity.
pub open spec fn whole(n: nat) -> Quantity {
    nearest(false, n * pow2(149), 1)
}

/// The unsigned integer that a quantity is, if it is one.
pub open spec fn whole_of(q: Quantity) -> Option<u32> {
    let unit = pow2(149);
    if q.finite() && q.rank() >= 0 && units(q) % unit == 0 && units(q) / unit <= u32::MAX {
        Some((units(q) / unit) as u32)
    } else {
        None
    }
}

/// A sum does not depend on the order.
pub proof fn sums_commute(a: Quantity, b: Quantity)
    ensures
        sum_of(a, b) == sum_of(b, a),
{
    if !a.finite() && !b.finite() && !a.nan() && !b.nan() && a.negative() == b.negative() {
        assert(a.bits == b.bits);
    }
}

/// A product does not depend on the order.
pub proof fn products_commute(a: Quantity, b: Quantity)
    ensures
        product_of(a, b) == product_of(b, a),
{
    assert(units(a) * units(b) == units(b) * units(a)) by (nonlinear_arith);
}

/// A product is a number, unless nothing is multiplied with an infinity.
pub proof fn products_are_numbers(a: Quantity, b: Quantity)
    requires
        !a.nan(),
        !b.nan(),
        a.finite() || b.rank() != 0,
        b.finite() || a.rank() != 0,
    ensures
        !product_of(a, b).nan(),
{
}

/// A quantity that was brought into a range is in it.
pub proof fn held_within(v: Quantity, low: Quantity, high: Quantity)
    requires
        !v.nan(),
        low.at_most(high),
    ensures
        low.at_most(held_between(v, low, high)),
        held_between(v, low, high).at_most(high),
{
}

/// Rounding does not depend on how the fraction is written.
pub(crate) proof fn lemma_quotient_scales(n: nat, d: nat, c: nat)
    requires
        d > 0,
        c > 0,
    ensures
        rounded_quotient(n * c, d * c) == rounded_quotient(n, d),
{
    let q = n / d;
    let r = n % d;
    lemma_fundamental_div_mod(n as int, d as int);
    assert(n * c == (d * c) * q + r * c) by (nonlinear_arith)
        requires
            n == d * q + r,
    ;
    assert(0 <= r * c < d * c) by (nonlinear_arith)
        requires
            0 <= r < d,
            c > 0,
    ;
    assert(q * (d * c) == (d * c) * q) by (nonlinear_arith);
    lemma_fundamental_div_mod_converse((n * c) as int, (d * c) as int, q as int, (r * c) as int);
    assert(2 * (r * c) > d * c <==> 2 * r > d) by (nonlinear_arith)
        requires
            c > 0,
    ;
    assert(2 * (r * c) == d * c <==> 2 * r == d) by (nonlinear_arith)
        requires
            c > 0,
    ;
}

/// The nearest quantity does not depend on how the fraction is written.
pub(crate) proof fn lemma_nearest_scales(n: nat, d: nat, c: nat)
    requires
        d > 0,
        c > 0,
    ensures
        nearest_pattern(n * c, d * c) == nearest_pattern(n, d),
    decreases n - d,
{
    assert(d * c > 0) by (nonlinear_arith)
        requires
            d > 0,
            c > 0,
    ;
    assert(n * c < (d * c) * 0x100_0000 <==> n < d * 0x100_0000) by (nonlinear_arith)
        requires
            c > 0,
    ;
    if n < d * 0x100_0000 {
        lemma_quotient_scales(n, d, c);
    } else {
        lemma_nearest_scales(n, 2 * d, c);
        assert((2 * d) * c == 2 * (d * c)) by (nonlinear_arith);
    }
}

/// `n * 2^e`, as far as `e` is positive.
spec fn up(n: nat, e: int) -> nat {
    if e > 0 {
        n * pow2(e as nat)
    } else {
        n
    }
}

/// `d * 2^-e`, as far as `e` is negative.
spec fn down(d: nat, e: int) -> nat {
    if e < 0 {
        d * pow2((-e) as nat)
    } else {
        d
    }
}

proof fn lemma_down_positive(d: nat, e: int)
    requires
        d > 0,
    ensures
        down(d, e) > 0,
{
    if e < 0 {
        lemma_pow2_pos((-e) as nat);
        let p = pow2((-e) as nat);
        assert(d * p > 0) by (nonlinear_arith)
            requires
                d > 0,
                p > 0,
        ;
    }
}

/// A fraction of powers of two, reduced.
proof fn lemma_reduce(n: nat, d: nat, p: nat, q: nat)
    requires
        d > 0,
    ensures
        nearest_pattern(n * pow2(p), d * pow2(q)) == nearest_pattern(up(n, p - q), down(d, p - q)),
{
    let e = p - q;
    if e >= 0 {
        let c = pow2(q);
        let f = pow2(e as nat);
        lemma_pow2_pos(q);
        lemma_pow2_adds(e as nat, q);
        assert(n * (f * c) == (n * f) * c) by (nonlinear_arith);
        lemma_nearest_scales(n * f, d, c);
        if e == 0 {
            lemma2_to64();
            assert(n * f == n) by (nonlinear_arith)
                requires
                    f == 1,
            ;
        }
    } else {
        let c = pow2(p);
        let f = pow2((-e) as nat);
        lemma_pow2_pos(p);
        lemma_pow2_pos((-e) as nat);
        lemma_pow2_adds((-e) as nat, p);
        assert(d * (f * c) == (d * f) * c) by (nonlinear_arith);
        assert(d * f > 0) by (nonlinear_arith)
            requires
                d > 0,
                f > 0,
        ;
        lemma_nearest_scales(n, d * f, c);
    }
}

/// Halving a fraction that is not small enough yet.
proof fn lemma_halve(n: nat, d: nat, e: int)
    requires
        d > 0,
        !(up(n, e) < down(d, e) * 0x100_0000),
    ensures
        nearest_pattern(up(n, e), down(d, e)) == 0x80_0000 + nearest_pattern(up(n, e - 1), down(d, e - 1)),
{
    lemma_down_positive(d, e);
    if e >= 1 {
        lemma_pow2_unfold(e as nat);
        let f = pow2((e - 1) as nat);
        if e == 1 {
            lemma2_to64();
        }
        assert(n * (2 * f) == (n * f) * 2) by (nonlinear_arith);
        assert(up(n, e) == up(n, e - 1) * 2) by {
            if e == 1 {
                assert(n * f == n) by (nonlinear_arith)
                    requires
                        f == 1,
                ;
            }
        }
        lemma_nearest_scales(up(n, e - 1), d, 2);
    } else {
        lemma_pow2_unfold((1 - e) as nat);
        let f = pow2((-e) as nat);
        assert(d * (2 * f) == 2 * (d * f)) by (nonlinear_arith);
        if e == 0 {
            lemma2_to64();
            assert(d * f == d) by (nonlinear_arith)
                requires
                    f == 1,
            ;
        }
    }
}

/// `2^k`.
fn power(k: u32) -> (p: u128)
    requires
        k <= 64,
    ensures
        p == pow2(k as nat),
        1 <= p <= 0x1_0000_0000_0000_0000,
{
    let mut p: u128 = 1;
    let mut i: u32 = 0;
    proof {
        lemma2_to64();
    }
    while i < k
        invariant
            i <= k <= 64,
            p == pow2(i as nat),
            pow2(64) == 0x1_0000_0000_0000_0000,
        decreases k - i,
    {
        proof {
            lemma_pow2_unfold((i + 1) as nat);
            lemma_pow2_strictly_increases(i as nat, 64);
        }
        p = p * 2;
        i += 1;
    }
    proof {
        lemma_pow2_pos(k as nat);
        if k < 64 {
            lemma_pow2_strictly_increases(k as nat, 64);
        }
    }
    p
}

/// A fraction that is rounded as `n * 2^e / d` is: a power of two beyond `2^64` makes no difference.
fn terms(n: u64, d: u64, e: i32) -> (terms: (u128, u128))
    requires
        1 <= n < 0x8000_0000_0000_0000,
        1 <= d < 0x100_0000,
        -1000 <= e <= 1000,
    ensures
        1 <= terms.1 <= 0x100_0000_0000_0000_0000_0000,
        terms.0 < terms.1 * 0x100_0000 <==> up(n as nat, e as int) < down(d as nat, e as int) * 0x100_0000,
        terms.0 < terms.1 * 0x100_0000 ==> rounded_quotient(terms.0 as nat, terms.1 as nat) == rounded_quotient(
            up(n as nat, e as int),
            down(d as nat, e as int),
        ),
{
    if e > 0 {
        let k: u32 = if e > 64 {
            64
        } else {
            e as u32
        };
        let p: u128 = power(k);
        assert(n * p < 0x8000_0000_0000_0000 * 0x1_0000_0000_0000_0000) by (nonlinear_arith)
            requires
                n < 0x8000_0000_0000_0000,
                1 <= p <= 0x1_0000_0000_0000_0000,
        ;
        proof {
            lemma2_to64();
            if e > 64 {
                lemma_pow2_strictly_increases(64, e as nat);
                let f = pow2(e as nat);
                assert(n * p >= 0x1_0000_0000_0000_0000 && n * f >= 0x1_0000_0000_0000_0000) by (nonlinear_arith)
                    requires
                        n >= 1,
                        p == 0x1_0000_0000_0000_0000,
                        f >= p,
                ;
            }
        }
        (n as u128 * p, d as u128)
    } else {
        let k: u32 = if e < -64 {
            64
        } else {
            (-e) as u32
        };
        let p: u128 = power(k);
        assert(d <= d * p <= 0x100_0000 * 0x1_0000_0000_0000_0000) by (nonlinear_arith)
            requires
                d < 0x100_0000,
                1 <= p <= 0x1_0000_0000_0000_0000,
        ;
        proof {
            lemma2_to64();
            if e == 0 {
                assert(d * p == d) by (nonlinear_arith)
                    requires
                        p == 1,
                ;
            }
            if e < -64 {
                lemma_pow2_strictly_increases(64, (-e) as nat);
                let f = pow2((-e) as nat);
                assert(d * p >= 0x1_0000_0000_0000_0000 && d * f >= 0x1_0000_0000_0000_0000) by (nonlinear_arith)
                    requires
                        d >= 1,
                        p == 0x1_0000_0000_0000_0000,
                        f >= p,
                ;
                lemma_quotient_of_small(n as nat, (d * p) as nat);
                lemma_quotient_of_small(n as nat, (d * f) as nat);
            }
        }
        (n as u128, d as u128 * p)
    }
}

/// A fraction less than a half is rounded to 0.
proof fn lemma_quotient_of_small(n: nat, d: nat)
    requires
        2 * n < d,
    ensures
        rounded_quotient(n, d) == 0,
{
    lemma_small_mod(n, d);
    lemma_basic_div(n as int, d as int);
}

/// The bit pattern of the quantity nearest to `n * 2^e / d` units.
fn round(n: u64, d: u64, e: i32) -> (pattern: u32)
    requires
        n < 0x8000_0000_0000_0000,
        1 <= d < 0x100_0000,
        -500 <= e <= 500,
    ensures
        pattern == ({
            let p = nearest_pattern(up(n as nat, e as int), down(d as nat, e as int));
            if p < 0x7f80_0000 {
                p
            } else {
                0x7f80_0000
            }
        }),
{
    let ghost all = nearest_pattern(up(n as nat, e as int), down(d as nat, e as int));
    proof {
        lemma_down_positive(d as nat, e as int);
    }
    if n == 0 {
        assert(up(0, e as int) == 0) by {
            if e > 0 {
                assert(0 * pow2(e as nat) == 0) by (nonlinear_arith);
            }
        }
        proof {
            lemma_quotient_of_small(0, down(d as nat, e as int));
        }
        return 0;
    }
    let mut k: u32 = 0;
    let mut f: i32 = e;
    let mut t = terms(n, d, e);
    while t.0 >= t.1 * 0x100_0000 && k < 255
        invariant
            1 <= n < 0x8000_0000_0000_0000,
            1 <= d < 0x100_0000,
            -500 <= e <= 500,
            k <= 255,
            f == e - k,
            all == k * 0x80_0000 + nearest_pattern(up(n as nat, f as int), down(d as nat, f as int)),
            1 <= t.1 <= 0x100_0000_0000_0000_0000_0000,
            t.0 < t.1 * 0x100_0000 <==> up(n as nat, f as int) < down(d as nat, f as int) * 0x100_0000,
            t.0 < t.1 * 0x100_0000 ==> rounded_quotient(t.0 as nat, t.1 as nat) == rounded_quotient(
                up(n as nat, f as int),
                down(d as nat, f as int),
            ),
        decreases 255 - k,
    {
        proof {
            lemma_halve(n as nat, d as nat, f as int);
        }
        k += 1;
        f = f - 1;
        t = terms(n, d, f);
    }
    if k == 255 {
        return 0x7f80_0000;
    }
    proof {
        lemma_down_positive(d as nat, f as int);
    }
    let q: u128 = t.0 / t.1;
    let r: u128 = t.0 % t.1;
    assert(q < 0x100_0000) by (nonlinear_arith)
        requires
            t.0 < t.1 * 0x100_0000,
            q == t.0 / t.1,
            t.1 >= 1,
    ;
    let up_one = 2 * r > t.1 || (2 * r == t.1 && q % 2 == 1);
    let pattern: u32 = k * 0x80_0000 + q as u32 + if up_one { 1 } else { 0 };
    if pattern < 0x7f80_0000 {
        pattern
    } else {
        0x7f80_0000
    }
}

/// The quantity nearest to `n * 2^e / d` units, with a sign.
fn rounded(negative: bool, n: u64, d: u64, e: i32) -> (q: Quantity)
    requires
        n < 0x8000_0000_0000_0000,
        1 <= d < 0x100_0000,
        -500 <= e <= 500,
    ensures
        q == nearest(negative, up(n as nat, e as int), down(d as nat, e as int)),
{
    let pattern: u32 = round(n, d, e);
    if negative {
        Quantity { bits: pattern + 0x8000_0000 }
    } else {
        Quantity { bits: pattern }
    }
}

/// The significand of a quantity, and the power of two that it is multiplied with to give units.
fn parts(q: Quantity) -> (parts: (u64, i32))
    requires
        q.finite(),
    ensures
        parts.0 == significand(q.bits),
        parts.0 < 0x100_0000,
        parts.1 == exponent(q.bits) + 149,
        0 <= parts.1 <= 253,
        parts.0 >= 0x80_0000 || parts.1 == 0,
        parts.0 == 0 <==> q.rank() == 0,
        q.bits % 0x8000_0000 == parts.1 * 0x80_0000 + parts.0,
{
    let field: u32 = (q.bits / 0x80_0000) % 0x100;
    let fraction: u32 = q.bits % 0x80_0000;
    if field == 0 {
        (fraction as u64, 0)
    } else {
        (fraction as u64 + 0x80_0000, field as i32 - 1)
    }
}

fn is_negative(q: Quantity) -> (negative: bool)
    ensures
        negative == q.negative(),
{
    q.bits >= 0x8000_0000
}

/// `m * 2^x` units, as a multiple of 1: a whole number where `x` makes up for the units, else one where
/// `2^k` divides `m`.
proof fn lemma_wholes(m: nat, x: nat, k: nat)
    requires
        x + k == 149 || (x >= 149 && k == 0) || (m == 0 && k == 0),
    ensures
        x >= 149 ==> (m * pow2(x)) % pow2(149) == 0 && (m * pow2(x)) / pow2(149) == m * pow2((x - 149) as nat),
        x + k == 149 ==> ((m * pow2(x)) % pow2(149) == 0 <==> m % pow2(k) == 0) && (m * pow2(x)) / pow2(149) == m / pow2(k),
        m == 0 ==> (m * pow2(x)) % pow2(149) == 0 && (m * pow2(x)) / pow2(149) == 0,
{
    let unit = pow2(149);
    lemma_pow2_pos(149);
    lemma_pow2_pos(x);
    lemma_pow2_pos(k);
    if x >= 149 {
        let p = pow2((x - 149) as nat);
        lemma_pow2_adds((x - 149) as nat, 149);
        assert(m * (p * unit) == (m * p) * unit) by (nonlinear_arith);
        lemma_fundamental_div_mod_converse((m * pow2(x)) as int, unit as int, (m * p) as int, 0);
    }
    if x + k == 149 {
        let p = pow2(x);
        let c = pow2(k);
        let q = m / c;
        let r = m % c;
        lemma_pow2_adds(x, k);
        lemma_fundamental_div_mod(m as int, c as int);
        assert(m * p == q * (p * c) + r * p && 0 <= r * p < p * c && (r * p == 0 <==> r == 0)) by (nonlinear_arith)
            requires
                m == c * q + r,
                0 <= r < c,
                p > 0,
        ;
        lemma_fundamental_div_mod_converse((m * p) as int, unit as int, q as int, (r * p) as int);
    }
    if m == 0 {
        assert(m * pow2(x) == 0) by (nonlinear_arith)
            requires
                m == 0,
        ;
        lemma_fundamental_div_mod_converse(0, unit as int, 0, 0);
    }
}

/// The quantities up to `2^x` times the first ones passed over.
proof fn lemma_pass_over(n: nat, x: nat)
    requires
        n >= 0x80_0000 * pow2(x),
    ensures
        nearest_pattern(n, 1) == x * 0x80_0000 + nearest_pattern(n, pow2(x)),
    decreases x,
{
    lemma2_to64();
    if x > 0 {
        lemma_pow2_unfold(x);
        lemma_pow2_pos((x - 1) as nat);
        lemma_pass_over(n, (x - 1) as nat);
    }
}

/// What is nearest to a number of units that is a little off a quantity.
pub(crate) proof fn lemma_absorbed(m: nat, x: nat, n: nat, r: nat, below: bool)
    requires
        0x80_0000 <= m < 0x100_0000,
        below ==> r > 0 && n == m * pow2(x) - r && 4 * r < pow2(x),
        !below ==> n == m * pow2(x) + r && 2 * r < pow2(x),
    ensures
        nearest_pattern(n, 1) == x * 0x80_0000 + m,
{
    let p = pow2(x);
    lemma_pow2_pos(x);
    if !below {
        assert(n >= 0x80_0000 * p && n < 0x100_0000 * p) by (nonlinear_arith)
            requires
                0x80_0000 <= m < 0x100_0000,
                n == m * p + r,
                0 <= r < p,
        ;
        lemma_pass_over(n, x);
        lemma_fundamental_div_mod_converse(n as int, p as int, m as int, r as int);
    } else if m > 0x80_0000 {
        assert(n >= 0x80_0000 * p && n < 0x100_0000 * p && n == (m - 1) * p + (p - r)) by (nonlinear_arith)
            requires
                0x80_0000 < m < 0x100_0000,
                n == m * p - r,
                0 < r < p,
        ;
        lemma_pass_over(n, x);
        lemma_fundamental_div_mod_converse(n as int, p as int, m - 1, p - r);
    } else {
        if x == 0 {
            lemma2_to64();
        }
        lemma_pow2_unfold(x);
        let h = pow2((x - 1) as nat);
        assert(n == 0xff_ffff * h + (h - r));
        lemma_pass_over(n, (x - 1) as nat);
        lemma_fundamental_div_mod_converse(n as int, h as int, 0xff_ffff, h - r);
    }
}

/// What is a quantity already is left as it is.
pub proof fn exact_results_stand(q: Quantity)
    requires
        q.finite(),
    ensures
        nearest(q.negative(), units(q), 1) == q,
{
    let m = significand(q.bits);
    let x = (exponent(q.bits) + 149) as nat;
    if exponent_field(q.bits) == 0 {
        lemma2_to64();
        assert(units(q) == m) by (nonlinear_arith)
            requires
                units(q) == m * 1,
        ;
    } else {
        lemma_pow2_pos(x);
        lemma_absorbed(m, x, units(q), 0, false);
    }
}

fn sum_in_order(big: Quantity, small: Quantity) -> (sum: Quantity)
    requires
        big.finite(),
        small.finite(),
        exponent(big.bits) >= exponent(small.bits),
    ensures
        sum == sum_of(big, small),
{
    let a = parts(big);
    let b = parts(small);
    let (na, nb) = (is_negative(big), is_negative(small));
    let gap: u32 = (a.1 - b.1) as u32;
    let ghost pb = pow2(b.1 as nat);
    proof {
        lemma_pow2_adds(gap as nat, b.1 as nat);
        lemma_pow2_pos(b.1 as nat);
    }
    if gap <= 38 {
        let power: u128 = power(gap);
        proof {
            lemma2_to64_rest();
            if gap < 38 {
                lemma_pow2_strictly_increases(gap as nat, 38);
            }
        }
        let p: u64 = power as u64;
        assert(a.0 * p < 0x4000_0000_0000_0000) by (nonlinear_arith)
            requires
                0 <= a.0 < 0x100_0000,
                0 <= p <= 0x40_0000_0000,
        ;
        let upper: u64 = a.0 * p;
        let (negative, n) = if na == nb {
            (na, upper + b.0)
        } else if upper >= b.0 {
            (na, upper - b.0)
        } else {
            (nb, b.0 - upper)
        };
        proof {
            assert(a.0 * (p * pb) == upper * pb) by (nonlinear_arith)
                requires
                    upper == a.0 * p,
            ;
            let (u, v, w) = (upper as int, b.0 as int, n as int);
            assert(na == nb ==> w * pb == u * pb + v * pb) by (nonlinear_arith)
                requires
                    na == nb ==> w == u + v,
            ;
            assert(na != nb && u >= v ==> w * pb == u * pb - v * pb) by (nonlinear_arith)
                requires
                    na != nb && u >= v ==> w == u - v,
            ;
            assert(na != nb && u < v ==> w * pb == v * pb - u * pb) by (nonlinear_arith)
                requires
                    na != nb && u < v ==> w == v - u,
            ;
            assert(w > 0 ==> w * pb > 0) by (nonlinear_arith)
                requires
                    pb > 0,
            ;
            assert(w == 0 ==> w * pb == 0) by (nonlinear_arith);
            if b.1 == 0 {
                lemma2_to64();
                assert(w * pb == w) by (nonlinear_arith)
                    requires
                        pb == 1,
                ;
            }
        }
        if n == 0 {
            return Quantity {
                bits: if na && nb {
                    0x8000_0000
                } else {
                    0
                },
            };
        }
        rounded(negative, n, 1, b.1)
    } else {
        proof {
            lemma2_to64_rest();
            lemma_pow2_strictly_increases(38, gap as nat);
            let pg = pow2(gap as nat);
            let pa = pow2(a.1 as nat);
            let r = (b.0 * pb) as nat;
            assert(4 * r < pa) by (nonlinear_arith)
                requires
                    r == b.0 * pb,
                    b.0 < 0x100_0000,
                    pa == pg * pb,
                    pg > 0x40_0000_0000,
                    pb > 0,
            ;
            assert(a.0 * pa >= 0x80_0000 * pa) by (nonlinear_arith)
                requires
                    a.0 >= 0x80_0000,
            ;
            if na == nb {
                lemma_absorbed(a.0 as nat, a.1 as nat, (a.0 * pa + r) as nat, r, false);
            } else if r == 0 {
                lemma_absorbed(a.0 as nat, a.1 as nat, (a.0 * pa) as nat, 0, false);
            } else {
                lemma_absorbed(a.0 as nat, a.1 as nat, (a.0 * pa - r) as nat, r, true);
            }
        }
        big
    }
}

pub(crate) proof fn lemma_one_root(n: nat, d: nat, p: nat, q: nat)
    requires
        fits_root(n, d, p),
        fits_root(n, d, q),
    ensures
        p == q,
{
    assert(p < q ==> ((p + 1) * d) * ((p + 1) * d) <= (q * d) * (q * d)) by (nonlinear_arith);
    assert(q < p ==> ((q + 1) * d) * ((q + 1) * d) <= (p * d) * (p * d)) by (nonlinear_arith);
}

/// The quantities up to `2^t` times the first ones passed over.
proof fn lemma_root_passes_over(n: nat, t: nat)
    requires
        n >= (0x80_0000 * pow2(t)) * (0x80_0000 * pow2(t)),
    ensures
        root_pattern(n, 1) == t * 0x80_0000 + root_pattern(n, pow2(t)),
    decreases t,
{
    lemma2_to64();
    if t > 0 {
        lemma_pow2_unfold(t);
        let h = pow2((t - 1) as nat);
        lemma_pow2_pos((t - 1) as nat);
        assert(0x80_0000 * (2 * h) == h * 0x100_0000);
        assert((0x80_0000 * h) * (0x80_0000 * h) <= (h * 0x100_0000) * (h * 0x100_0000)) by (nonlinear_arith);
        lemma_root_passes_over(n, (t - 1) as nat);
    }
}

/// The root of `m * 4^t`, given the whole part of the root of `m`.
proof fn lemma_root(m: nat, t: nat, r: nat)
    requires
        0x4000_0000_0000 <= m < 0x1_0000_0000_0000,
        r * r <= m < (r + 1) * (r + 1),
    ensures
        root_pattern(m * (pow2(t) * pow2(t)), 1) == t * 0x80_0000 + (if m - r * r > r {
            r + 1
        } else {
            r
        }),
{
    let p = pow2(t);
    let n = m * (p * p);
    lemma_pow2_pos(t);
    assert(n >= (0x80_0000 * p) * (0x80_0000 * p) && n < (p * 0x100_0000) * (p * 0x100_0000)) by (nonlinear_arith)
        requires
            n == m * (p * p),
            0x4000_0000_0000 <= m < 0x1_0000_0000_0000,
            p >= 1,
    ;
    lemma_root_passes_over(n, t);
    assert((r * p) * (r * p) <= n && n < ((r + 1) * p) * ((r + 1) * p)) by (nonlinear_arith)
        requires
            n == m * (p * p),
            r * r <= m,
            m < (r + 1) * (r + 1),
            p >= 1,
    ;
    assert(fits_root(n, p, r));
    let q = choose|q: nat| fits_root(n, p, q);
    lemma_one_root(n, p, q, r);
    let middle = (2 * r + 1) * p;
    let k = (2 * r + 1) * (2 * r + 1);
    assert(middle * middle == k * (p * p)) by (nonlinear_arith)
        requires
            middle == (2 * r + 1) * p,
            k == (2 * r + 1) * (2 * r + 1),
    ;
    assert(k == 4 * (r * r) + 4 * r + 1) by (nonlinear_arith)
        requires
            k == (2 * r + 1) * (2 * r + 1),
    ;
    assert(4 * n == (4 * m) * (p * p)) by (nonlinear_arith)
        requires
            n == m * (p * p),
    ;
    assert((4 * m > k ==> (4 * m) * (p * p) > k * (p * p)) && (4 * m < k ==> (4 * m) * (p * p) < k * (p * p))) by (nonlinear_arith)
        requires
            p >= 1,
    ;
}

/// The root of what is not below 0 is a number, not below 0, and is 0 or infinite only if that is.
pub proof fn roots_are_numbers(q: Quantity)
    requires
        zero().at_most(q),
    ensures
        !root_of(q).nan(),
        q.finite() ==> root_of(q).finite(),
        q.rank() != 0 ==> root_of(q).rank() != 0,
        zero().at_most(root_of(q)),
{
    if q.finite() && q.rank() != 0 {
        lemma_root_fits(q);
    }
}

/// The bit pattern of a root is that of a finite quantity.
pub(crate) proof fn lemma_root_fits(q: Quantity)
    requires
        q.finite(),
        q.positive(),
    ensures
        0 < root_pattern(units(q) * pow2(149), 1) < 0x7f80_0000,
{
    let m = significand(q.bits);
    let x = (exponent(q.bits) + 149) as nat;
    lemma_pow2_adds(x, 149);
    assert((m * pow2(x)) * pow2(149) == m * (pow2(x) * pow2(149))) by (nonlinear_arith);
    lemma2_to64_rest();
    assert(m * pow2(47) >= 0x8000_0000_0000) by (nonlinear_arith)
        requires
            m >= 1,
            pow2(47) == 0x8000_0000_0000,
    ;
    lemma_root_is_finite(m, x + 149, 47);
}

pub(crate) proof fn lemma_whole_root_exists(m: nat) -> (r: nat)
    ensures
        r * r <= m < (r + 1) * (r + 1),
    decreases m,
{
    if m == 0 {
        let r: nat = 0;
        assert(r * r == 0 && (r + 1) * (r + 1) == 1) by (nonlinear_arith)
            requires
                r == 0,
        ;
        r
    } else {
        let r = lemma_whole_root_exists((m - 1) as nat);
        let s = r + 1;
        assert(s * s == (r + 1) * (r + 1) && s * s < (s + 1) * (s + 1)) by (nonlinear_arith)
            requires
                s == r + 1,
        ;
        if s * s <= m {
            s
        } else {
            r
        }
    }
}

/// The root of `m * 2^e` is neither too small nor too large to be a quantity.
proof fn lemma_root_is_finite(m: nat, e: nat, left: nat)
    requires
        1 <= m < 0x1_0000_0000_0000,
        m >= 0x8000_0000_0000 ==> e % 2 == 0,
        102 + left <= e <= 402,
        m * pow2(left) >= 0x8000_0000_0000,
    ensures
        0 < root_pattern(m * pow2(e), 1) < 0x7f80_0000,
    decreases left,
{
    if m >= 0x4000_0000_0000 && e % 2 == 0 {
        let r = lemma_whole_root_exists(m);
        let t = e / 2;
        assert(r < 0x100_0000) by (nonlinear_arith)
            requires
                r * r <= m,
                m < 0x1_0000_0000_0000,
        ;
        lemma_pow2_adds(t, t);
        lemma_root(m, t, r);
    } else {
        if left == 0 {
            lemma2_to64();
            assert(m >= 0x8000_0000_0000) by (nonlinear_arith)
                requires
                    m * 1 >= 0x8000_0000_0000,
            ;
        }
        lemma_pow2_unfold(e);
        lemma_pow2_unfold(left);
        let (h, g) = (pow2((e - 1) as nat), pow2((left - 1) as nat));
        assert(m * (2 * h) == (2 * m) * h) by (nonlinear_arith);
        assert(m * (2 * g) == (2 * m) * g) by (nonlinear_arith);
        lemma_root_is_finite(2 * m, (e - 1) as nat, (left - 1) as nat);
    }
}

/// The whole part of a root.
fn whole_root(m: u64) -> (r: u64)
    requires
        m < 0x1_0000_0000_0000,
    ensures
        r * r <= m < (r + 1) * (r + 1),
        r < 0x100_0000,
{
    let mut r: u64 = 0;
    let mut step: u64 = 0x100_0000;
    while step > 1
        invariant
            m < 0x1_0000_0000_0000,
            1 <= step <= 0x100_0000,
            r + step <= 0x100_0000,
            r * r <= m < (r + step) * (r + step),
            step == 0x100_0000 || step == 0x80_0000 || step == 0x40_0000 || step == 0x20_0000 || step == 0x10_0000 || step
                == 0x8_0000 || step == 0x4_0000 || step == 0x2_0000 || step == 0x1_0000 || step == 0x8000 || step == 0x4000
                || step == 0x2000 || step == 0x1000 || step == 0x800 || step == 0x400 || step == 0x200 || step == 0x100
                || step == 0x80 || step == 0x40 || step == 0x20 || step == 0x10 || step == 8 || step == 4 || step == 2
                || step == 1,
        decreases step,
    {
        let half: u64 = step / 2;
        let c: u64 = r + half;
        assert(c * c <= 0x100_0000 * 0x100_0000) by (nonlinear_arith)
            requires
                0 <= c <= 0x100_0000,
        ;
        if c * c <= m {
            r = c;
        }
        step = half;
    }
    r
}

impl Quantity {
    /// The larger of the quantity and another.
    pub fn or_larger(self, other: Quantity) -> (q: Quantity)
        ensures
            q == larger(self, other),
    {
        if self.is_nan() || self.is_less(other) {
            other
        } else {
            self
        }
    }

    /// The quantity, brought into a range.
    pub fn hold_between(self, low: Quantity, high: Quantity) -> (q: Quantity)
        ensures
            q == held_between(self, low, high),
    {
        if self.is_less(low) {
            low
        } else if high.is_less(self) {
            high
        } else {
            self
        }
    }

    /// A whole number as a quantity.
    pub fn from_whole(n: u32) -> (q: Quantity)
        ensures
            q == whole(n as nat),
    {
        rounded(false, n as u64, 1, 149)
    }

    /// The unsigned integer that the quantity is, if it is one.
    pub fn to_whole(self) -> (n: Option<u32>)
        ensures
            n == whole_of(self),
    {
        if !self.is_finite() {
            return None;
        }
        let a = parts(self);
        let m: u64 = a.0;
        if m == 0 {
            proof {
                lemma_wholes(0, a.1 as nat, 0);
            }
            return Some(0);
        }
        if is_negative(self) {
            return None;
        }
        if a.1 >= 149 {
            let k: u32 = (a.1 - 149) as u32;
            proof {
                lemma_wholes(m as nat, a.1 as nat, 0);
                lemma2_to64();
                if k >= 9 {
                    if k > 9 {
                        lemma_pow2_strictly_increases(9, k as nat);
                    }
                    assert(m * pow2(k as nat) > u32::MAX) by (nonlinear_arith)
                        requires
                            m >= 0x80_0000,
                            pow2(k as nat) >= 0x200,
                    ;
                } else {
                    lemma_pow2_strictly_increases(k as nat, 9);
                    lemma_pow2_pos(k as nat);
                    assert(m * pow2(k as nat) <= u32::MAX) by (nonlinear_arith)
                        requires
                            m < 0x100_0000,
                            pow2(k as nat) <= 0x100,
                    ;
                }
            }
            if k >= 9 {
                return None;
            }
            assert(pow2(k as nat) <= 0x100) by {
                if k < 8 {
                    lemma_pow2_strictly_increases(k as nat, 8);
                }
                lemma2_to64();
            }
            let p: u64 = power(k) as u64;
            return Some((m * p) as u32);
        }
        let k: u32 = (149 - a.1) as u32;
        proof {
            lemma_wholes(m as nat, a.1 as nat, k as nat);
            lemma2_to64();
            lemma_pow2_pos(k as nat);
            if k >= 24 {
                if k > 24 {
                    lemma_pow2_strictly_increases(24, k as nat);
                }
                lemma_small_mod(m as nat, pow2(k as nat));
            }
        }
        if k >= 24 {
            return None;
        }
        let p: u128 = power(k);
        let m: u128 = m as u128;
        if m % p == 0 {
            assert(m / p <= m) by (nonlinear_arith)
                requires
                    p >= 1,
            ;
            Some((m / p) as u32)
        } else {
            None
        }
    }

    /// The root of the quantity.
    pub fn root(self) -> (root: Quantity)
        ensures
            root == root_of(self),
    {
        let nothing = self.bits % 0x8000_0000 == 0;
        if self.is_nan() || (is_negative(self) && !nothing) {
            return Quantity { bits: 0x7fc0_0000 };
        }
        if !self.is_finite() || nothing {
            return self;
        }
        let a = parts(self);
        let mut m: u64 = a.0;
        let mut e: i32 = a.1 + 149;
        let ghost all = (a.0 * pow2((a.1 + 149) as nat)) as nat;
        proof {
            lemma_pow2_adds(a.1 as nat, 149);
            assert((a.0 * pow2(a.1 as nat)) * pow2(149) == a.0 * (pow2(a.1 as nat) * pow2(149))) by (nonlinear_arith);
        }
        let ghost mut left: nat = 47;
        proof {
            lemma2_to64_rest();
            assert(m * pow2(47) >= 0x8000_0000_0000) by (nonlinear_arith)
                requires
                    m >= 1,
                    pow2(47) == 0x8000_0000_0000,
            ;
        }
        while m < 0x4000_0000_0000 || e % 2 != 0
            invariant
                1 <= m < 0x1_0000_0000_0000,
                m >= 0x8000_0000_0000 ==> e % 2 == 0,
                all == m * pow2(e as nat),
                102 + left <= e <= 402,
                m * pow2(left) >= 0x8000_0000_0000,
            decreases 0x1_0000_0000_0000 - m,
        {
            proof {
                lemma_pow2_unfold(e as nat);
                let h = pow2((e - 1) as nat);
                assert(m * (2 * h) == (2 * m) * h) by (nonlinear_arith);
                if left == 0 {
                    lemma2_to64();
                    assert(m >= 0x8000_0000_0000) by (nonlinear_arith)
                        requires
                            m * 1 >= 0x8000_0000_0000,
                    ;
                }
                lemma_pow2_unfold(left);
                let g = pow2((left - 1) as nat);
                assert(m * (2 * g) == (2 * m) * g) by (nonlinear_arith);
                left = (left - 1) as nat;
            }
            m = m * 2;
            e = e - 1;
        }
        let r: u64 = whole_root(m);
        let t: i32 = e / 2;
        proof {
            lemma_pow2_adds(t as nat, t as nat);
            lemma_root(m as nat, t as nat, r as nat);
        }
        let pattern: u32 = t as u32 * 0x80_0000 + r as u32 + if m - r * r > r { 1 } else { 0 };
        Quantity { bits: pattern }
    }

    /// The sum with another quantity.
    pub fn plus(self, other: Quantity) -> (sum: Quantity)
        ensures
            sum == sum_of(self, other),
    {
        if self.is_nan() || other.is_nan() {
            return Quantity { bits: 0x7fc0_0000 };
        }
        if !self.is_finite() {
            if !other.is_finite() && is_negative(self) != is_negative(other) {
                return Quantity { bits: 0x7fc0_0000 };
            }
            return self;
        }
        if !other.is_finite() {
            return other;
        }
        if parts(self).1 >= parts(other).1 {
            sum_in_order(self, other)
        } else {
            proof {
                sums_commute(self, other);
            }
            sum_in_order(other, self)
        }
    }

    /// The difference to another quantity.
    pub fn minus(self, other: Quantity) -> (difference: Quantity)
        ensures
            difference == difference_of(self, other),
    {
        let negated = if other.bits >= 0x8000_0000 {
            Quantity { bits: other.bits - 0x8000_0000 }
        } else {
            Quantity { bits: other.bits + 0x8000_0000 }
        };
        self.plus(negated)
    }

    /// The product with another quantity.
    pub fn times(self, other: Quantity) -> (product: Quantity)
        ensures
            product == product_of(self, other),
    {
        let negative = is_negative(self) != is_negative(other);
        if self.is_nan() || other.is_nan() {
            return Quantity { bits: 0x7fc0_0000 };
        }
        if !self.is_finite() || !other.is_finite() {
            let no_factor = self.bits % 0x8000_0000 == 0 || other.bits % 0x8000_0000 == 0;
            return Quantity {
                bits: if no_factor {
                    0x7fc0_0000
                } else if negative {
                    0xff80_0000
                } else {
                    0x7f80_0000
                },
            };
        }
        let a = parts(self);
        let b = parts(other);
        assert(a.0 * b.0 < 0x100_0000 * 0x100_0000) by (nonlinear_arith)
            requires
                0 <= a.0 < 0x100_0000,
                0 <= b.0 < 0x100_0000,
        ;
        proof {
            let (pa, pb) = (pow2(a.1 as nat), pow2(b.1 as nat));
            lemma_pow2_adds(a.1 as nat, b.1 as nat);
            assert((a.0 * pa) * (b.0 * pb) == (a.0 * b.0) * (pa * pb)) by (nonlinear_arith);
            lemma_reduce((a.0 * b.0) as nat, 1, (a.1 + b.1) as nat, 149);
        }
        rounded(negative, a.0 * b.0, 1, a.1 + b.1 - 149)
    }

    /// The quotient by another quantity.
    pub fn over(self, other: Quantity) -> (quotient: Quantity)
        ensures
            quotient == quotient_of(self, other),
    {
        let negative = is_negative(self) != is_negative(other);
        let nothing = self.bits % 0x8000_0000 == 0;
        let by_nothing = other.bits % 0x8000_0000 == 0;
        if self.is_nan() || other.is_nan() || (!self.is_finite() && !other.is_finite()) || (nothing && by_nothing) {
            return Quantity { bits: 0x7fc0_0000 };
        }
        if !self.is_finite() || by_nothing {
            return Quantity {
                bits: if negative {
                    0xff80_0000
                } else {
                    0x7f80_0000
                },
            };
        }
        if !other.is_finite() {
            return Quantity {
                bits: if negative {
                    0x8000_0000
                } else {
                    0
                },
            };
        }
        let a = parts(self);
        let b = parts(other);
        proof {
            let pa = pow2(a.1 as nat);
            lemma_pow2_adds(a.1 as nat, 149);
            assert((a.0 * pa) * pow2(149) == a.0 * (pa * pow2(149))) by (nonlinear_arith);
            lemma_reduce(a.0 as nat, b.0 as nat, (a.1 + 149) as nat, b.1 as nat);
        }
        rounded(negative, a.0, b.0, a.1 + 149 - b.1)
    }
}

} // verus!
