//! Numerals: what is written can be read back, and is as near as its decimals allow.
use crate::arithmetic::units;
use crate::quantity::{exponent, padded, power_of_ten, scaled_magnitude, significand, Quantity};
use crate::text::{decimal, digit};
use vstd::arithmetic::div_mod::lemma_fundamental_div_mod;
use vstd::arithmetic::power2::{lemma_pow2_adds, lemma_pow2_pos, pow2};
use vstd::prelude::*;

verus! {

/// What a row of digits stands for.
pub open spec fn value_of(digits: Seq<char>) -> nat
    decreases digits.len(),
{
    if digits.len() == 0 {
        0
    } else {
        10 * value_of(digits.drop_last()) + (digits.last() as nat - '0' as nat) as nat
    }
}

/// Whether every character is a digit.
pub open spec fn all_digits(text: Seq<char>) -> bool {
    forall|i: int| 0 <= i < text.len() ==> '0' <= #[trigger] text[i] <= '9'
}

/// A numeral is a row of digits that stands for its number, without a leading zero but for zero itself.
pub proof fn numerals_stand_for_their_numbers(n: nat)
    ensures
        all_digits(decimal(n)),
        value_of(decimal(n)) == n,
        decimal(n).len() > 0,
        n > 0 ==> decimal(n)[0] != '0',
    decreases n,
{
    reveal_with_fuel(value_of, 2);
    if n < 10 {
        let d = decimal(n);
        assert(d.drop_last() =~= Seq::empty());
        assert(d[0] == (n + 48) as char);
    } else {
        numerals_stand_for_their_numbers(n / 10);
        let head = decimal(n / 10);
        let d = decimal(n);
        assert(d.drop_last() =~= head);
        assert(d.last() == (n % 10 + 48) as char);
        assert(d[0] == head[0]);
        assert forall|i: int| 0 <= i < d.len() implies '0' <= #[trigger] d[i] <= '9' by {
            if i < head.len() {
                assert(d[i] == head[i]);
            }
        }
    }
}

/// Different numbers have different numerals.
pub proof fn numerals_differ(m: nat, n: nat)
    requires
        m != n,
    ensures
        decimal(m) != decimal(n),
{
    numerals_stand_for_their_numbers(m);
    numerals_stand_for_their_numbers(n);
}

/// A number written with leading zeros has the digits it should, and stands for itself.
pub proof fn padded_numerals_stand_for_their_numbers(n: nat, width: nat)
    requires
        n < power_of_ten(width),
    ensures
        padded(n, width).len() == width,
        all_digits(padded(n, width)),
        value_of(padded(n, width)) == n,
    decreases width,
{
    if width > 0 {
        assert(n / 10 < power_of_ten((width - 1) as nat)) by (nonlinear_arith)
            requires
                n < 10 * power_of_ten((width - 1) as nat),
        ;
        padded_numerals_stand_for_their_numbers(n / 10, (width - 1) as nat);
        let head = padded(n / 10, (width - 1) as nat);
        let d = padded(n, width);
        assert(decimal(n % 10) =~= seq![digit(n % 10)]);
        assert(d =~= head.push(digit(n % 10)));
        assert(d.drop_last() =~= head);
        assert(d.last() == (n % 10 + 48) as char);
        assert forall|i: int| 0 <= i < d.len() implies '0' <= #[trigger] d[i] <= '9' by {
            if i < head.len() {
                assert(d[i] == head[i]);
            }
        }
    }
}

/// The multiple of a finite quantity that is written is the nearest whole one.
pub proof fn the_nearest_is_written(q: Quantity, decimals: nat)
    requires
        q.finite(),
    ensures
        ({
            let (n, scale, u) = (scaled_magnitude(q.bits, power_of_ten(decimals)), power_of_ten(decimals), pow2(149));
            -(u as int) <= 2 * (n * u - units(q) * scale) <= u
        }),
{
    let e = exponent(q.bits);
    let m = significand(q.bits);
    let scale = power_of_ten(decimals);
    let u = pow2(149);
    let n = scaled_magnitude(q.bits, scale);
    lemma_pow2_pos(149);
    if e >= 0 {
        let p = pow2(e as nat);
        lemma_pow2_adds(e as nat, 149);
        assert((m * p * scale) * u == (m * (p * u)) * scale) by (nonlinear_arith);
    } else {
        let d = pow2((-e) as nat);
        let p = pow2((e + 149) as nat);
        lemma_pow2_adds((-e) as nat, (e + 149) as nat);
        lemma_pow2_pos((-e) as nat);
        lemma_pow2_pos((e + 149) as nat);
        let t = m * scale;
        let (k, r) = (t / d, t % d);
        lemma_fundamental_div_mod(t as int, d as int);
        let off = n * d - t;
        assert(-(d as int) <= 2 * off <= d) by {
            assert(k * d == d * k && (k + 1) * d == d * k + d) by (nonlinear_arith);
            assert(n == k || n == k + 1);
        }
        assert(n * u - (m * p) * scale == off * p) by (nonlinear_arith)
            requires
                off == n * d - m * scale,
                u == d * p,
        ;
        assert(-(u as int) <= 2 * (off * p) <= u) by (nonlinear_arith)
            requires
                -(d as int) <= 2 * off <= d,
                u == d * p,
                p > 0,
        ;
    }
}

/// A finite quantity is written with its sign, its whole part and its decimals, and what is no number says so.
pub proof fn quantities_are_written_with_their_decimals(q: Quantity, decimals: nat)
    ensures
        q.nan() ==> q.fixed(decimals) == "NaN"@,
        q.finite() ==> ({
            let scale = power_of_ten(decimals);
            let n = scaled_magnitude(q.bits, scale);
            let sign = if q.negative() {
                "-"@
            } else {
                Seq::empty()
            };
            &&& decimals == 0 ==> q.fixed(decimals) == sign + decimal(n)
            &&& decimals > 0 ==> q.fixed(decimals) == sign + decimal(n / scale) + "."@ + padded(n % scale, decimals)
            &&& decimals > 0 ==> n == (n / scale) * scale + n % scale && n % scale < scale
        }),
{
    lemma_tens(decimals);
    let n = scaled_magnitude(q.bits, power_of_ten(decimals));
    lemma_fundamental_div_mod(n as int, power_of_ten(decimals) as int);
    let (k, s) = (n / power_of_ten(decimals), power_of_ten(decimals));
    assert(k * s == s * k) by (nonlinear_arith);
}

proof fn lemma_tens(decimals: nat)
    ensures
        power_of_ten(decimals) >= 1,
    decreases decimals,
{
    if decimals > 0 {
        lemma_tens((decimals - 1) as nat);
    }
}

} // verus!
