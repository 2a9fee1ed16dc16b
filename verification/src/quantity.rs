//! Single-precision quantities, carried by their bit patterns.
use crate::text::{decimal, decimal_text128};
use vstd::arithmetic::power2::{lemma_pow2_adds, lemma_pow2_pos, lemma_pow2_strictly_increases, lemma_pow2_unfold, pow2};
use vstd::prelude::*;

verus! {

/// A single-precision quantity, carried by its IEEE 754 bit pattern.
///
/// Quantities are compared, shown, written to a recording and read back, and calculated with.
#[derive(Clone, Copy, Debug, PartialEq, Eq, Structural)]
pub struct Quantity {
    pub bits: u32,
}

/// The exponent field of a bit pattern.
pub open spec fn exponent_field(bits: u32) -> u32 {
    (bits / 0x80_0000) % 0x100
}

/// The fraction field of a bit pattern.
pub open spec fn fraction_field(bits: u32) -> u32 {
    bits % 0x80_0000
}

/// The whole number `m` in the magnitude `m * 2^e` of a finite pattern.
pub open spec fn significand(bits: u32) -> nat {
    if exponent_field(bits) == 0 {
        fraction_field(bits) as nat
    } else {
        (fraction_field(bits) + 0x80_0000) as nat
    }
}

/// The exponent `e` in the magnitude `m * 2^e` of a finite pattern.
pub open spec fn exponent(bits: u32) -> int {
    if exponent_field(bits) == 0 {
        -149
    } else {
        exponent_field(bits) - 150
    }
}

/// `n / d`, rounded to the nearest whole number, and to the even one of two that are as near.
pub open spec fn rounded_quotient(n: nat, d: nat) -> nat {
    if 2 * (n % d) > d || (2 * (n % d) == d && (n / d) % 2 == 1) {
        n / d + 1
    } else {
        n / d
    }
}

/// The magnitude of a finite pattern times `scale`, rounded to a whole number.
pub open spec fn scaled_magnitude(bits: u32, scale: nat) -> nat {
    if exponent(bits) >= 0 {
        significand(bits) * pow2(exponent(bits) as nat) * scale
    } else {
        rounded_quotient(significand(bits) * scale, pow2((-exponent(bits)) as nat))
    }
}

/// `n` in decimal, with leading zeros up to `width` digits.
pub open spec fn padded(n: nat, width: nat) -> Seq<char>
    decreases width,
{
    if width == 0 {
        Seq::empty()
    } else {
        padded(n / 10, (width - 1) as nat) + decimal(n % 10)
    }
}

/// `10^decimals`.
pub open spec fn power_of_ten(decimals: nat) -> nat
    decreases decimals,
{
    if decimals == 0 {
        1
    } else {
        10 * power_of_ten((decimals - 1) as nat)
    }
}

/// The quantity 0.
pub open spec fn zero() -> Quantity {
    Quantity { bits: 0 }
}

/// Positive infinity.
pub open spec fn infinity() -> Quantity {
    Quantity { bits: 0x7f80_0000 }
}

impl Quantity {
    /// Whether the pattern stands for a number (neither an infinity nor a NaN).
    pub open spec fn finite(self) -> bool {
        exponent_field(self.bits) != 0xff
    }

    /// Whether the pattern is a NaN.
    pub open spec fn nan(self) -> bool {
        exponent_field(self.bits) == 0xff && fraction_field(self.bits) != 0
    }

    /// Whether the sign bit is set.
    pub open spec fn negative(self) -> bool {
        self.bits >= 0x8000_0000
    }

    /// The position of the quantity in the order of all that are no NaN; both zeros stand at 0.
    pub open spec fn rank(self) -> int {
        if self.negative() {
            0x8000_0000 - self.bits
        } else {
            self.bits as int
        }
    }

    /// Whether the quantity is less than another. Nothing is less than a NaN, nor a NaN than anything.
    pub open spec fn less(self, other: Quantity) -> bool {
        !self.nan() && !other.nan() && self.rank() < other.rank()
    }

    /// Whether the quantity is at most another.
    pub open spec fn at_most(self, other: Quantity) -> bool {
        !self.nan() && !other.nan() && self.rank() <= other.rank()
    }

    /// Whether the quantity is above 0.
    pub open spec fn positive(self) -> bool {
        zero().less(self)
    }

    /// The position of the bit pattern in the total order of all patterns, in which the negative zero
    /// stands before the positive one and NaNs stand at the ends.
    pub open spec fn total_rank(self) -> int {
        if self.negative() {
            0x7fff_ffff - self.bits
        } else {
            self.bits as int
        }
    }

    /// The quantity with a fixed number of decimals.
    pub open spec fn fixed(self, decimals: nat) -> Seq<char> {
        let sign = if self.negative() {
            "-"@
        } else {
            Seq::empty()
        };
        if self.nan() {
            "NaN"@
        } else if !self.finite() {
            sign + "inf"@
        } else {
            let scale = power_of_ten(decimals);
            let n = scaled_magnitude(self.bits, scale);
            if decimals == 0 {
                sign + decimal(n)
            } else {
                sign + decimal(n / scale) + "."@ + padded(n % scale, decimals)
            }
        }
    }

    /// Whether the pattern stands for a number (neither an infinity nor a NaN).
    pub fn is_finite(self) -> (finite: bool)
        ensures
            finite == self.finite(),
    {
        (self.bits / 0x80_0000) % 0x100 != 0xff
    }

    /// Whether the pattern is a NaN.
    pub fn is_nan(self) -> (nan: bool)
        ensures
            nan == self.nan(),
    {
        (self.bits / 0x80_0000) % 0x100 == 0xff && self.bits % 0x80_0000 != 0
    }

    /// Whether the quantity is less than another.
    pub fn is_less(self, other: Quantity) -> (less: bool)
        ensures
            less == self.less(other),
    {
        if self.is_nan() || other.is_nan() {
            return false;
        }
        let a: i64 = if self.bits >= 0x8000_0000 {
            0x8000_0000i64 - self.bits as i64
        } else {
            self.bits as i64
        };
        let b: i64 = if other.bits >= 0x8000_0000 {
            0x8000_0000i64 - other.bits as i64
        } else {
            other.bits as i64
        };
        a < b
    }

    /// Whether the quantity is at most another.
    pub fn is_at_most(self, other: Quantity) -> (at_most: bool)
        ensures
            at_most == self.at_most(other),
    {
        !self.is_nan() && !other.is_nan() && !other.is_less(self)
    }

    /// Whether the quantity is above 0.
    pub fn is_positive(self) -> (positive: bool)
        ensures
            positive == self.positive(),
    {
        (Quantity { bits: 0 }).is_less(self)
    }

    /// The position of the bit pattern in the total order of all patterns.
    pub fn total(self) -> (rank: i64)
        ensures
            rank == self.total_rank(),
    {
        if self.bits >= 0x8000_0000 {
            0x7fff_ffffi64 - self.bits as i64
        } else {
            self.bits as i64
        }
    }

    /// Shows the quantity with up to three decimals.
    pub fn fixed_text(self, decimals: usize) -> (text: String)
        requires
            decimals <= 3,
        ensures
            text@ == self.fixed(decimals as nat),
    {
        let mut text = if self.bits >= 0x8000_0000 {
            "-".to_owned()
        } else {
            String::new()
        };
        if self.is_nan() {
            return "NaN".to_owned();
        }
        if !self.is_finite() {
            text.append("inf");
            return text;
        }
        proof {
            reveal_with_fuel(power_of_ten, 4);
        }
        let scale: u64 = if decimals == 0 {
            1
        } else if decimals == 1 {
            10
        } else if decimals == 2 {
            100
        } else {
            1000
        };
        let (whole, part) = scaled(self.bits, scale);
        text.append(decimal_text128(whole).as_str());
        if decimals > 0 {
            text.append(".");
            text.append(padded_text(part, decimals).as_str());
        }
        text
    }
}

fn padded_text(n: u64, width: usize) -> (text: String)
    requires
        width <= 3,
    ensures
        text@ == padded(n as nat, width as nat),
    decreases width,
{
    if width == 0 {
        String::new()
    } else {
        let mut text = padded_text(n / 10, width - 1);
        text.append(decimal_text128((n % 10) as u128).as_str());
        text
    }
}

/// The scaled magnitude of a finite pattern, split at the scale.
fn scaled(bits: u32, scale: u64) -> (parts: (u128, u64))
    requires
        exponent_field(bits) != 0xff,
        1 <= scale <= 1000,
    ensures
        parts.0 == scaled_magnitude(bits, scale as nat) / (scale as nat),
        parts.1 == scaled_magnitude(bits, scale as nat) % (scale as nat),
{
    let field: u32 = (bits / 0x80_0000) % 0x100;
    let m: u64 = if field == 0 {
        (bits % 0x80_0000) as u64
    } else {
        (bits % 0x80_0000 + 0x80_0000) as u64
    };
    if field >= 150 {
        let whole: u128 = doubled(m as u128, field - 150);
        proof {
            let w = whole as int;
            let s = scale as int;
            assert((w * s) / s == w && (w * s) % s == 0) by (nonlinear_arith)
                requires
                    s > 0,
            ;
        }
        return (whole, 0);
    }
    let down: u32 = if field == 0 {
        149
    } else {
        150 - field
    };
    let ghost d = pow2(down as nat);
    assert(m * scale <= 0xff_ffff * 1000) by (nonlinear_arith)
        requires
            m <= 0xff_ffff,
            scale <= 1000,
    ;
    let n: u64 = m * scale;
    let q: u64 = if down >= 40 {
        proof {
            lemma_forty();
            if down > 40 {
                lemma_pow2_strictly_increases(40, down as nat);
            }
            assert(n as nat % d == n && n as nat / d == 0) by {
                vstd::arithmetic::div_mod::lemma_small_mod(n as nat, d);
                vstd::arithmetic::div_mod::lemma_basic_div(n as int, d as int);
            }
        }
        0
    } else {
        let unit: u64 = power(down);
        let quotient: u64 = n / unit;
        let rest: u64 = n % unit;
        if 2 * rest > unit || (2 * rest == unit && quotient % 2 == 1) {
            quotient + 1
        } else {
            quotient
        }
    };
    ((q / scale) as u128, q % scale)
}

proof fn lemma_forty()
    ensures
        pow2(40) == 0x100_0000_0000,
{
    vstd::arithmetic::power2::lemma2_to64();
    vstd::arithmetic::power2::lemma2_to64_rest();
}

/// `2^k`.
fn power(k: u32) -> (p: u64)
    requires
        k < 40,
    ensures
        p == pow2(k as nat),
        0 < p < 0x100_0000_0000,
{
    let mut p: u64 = 1;
    let mut i: u32 = 0;
    proof {
        lemma_forty();
        vstd::arithmetic::power2::lemma2_to64();
    }
    while i < k
        invariant
            i <= k < 40,
            p == pow2(i as nat),
            pow2(40) == 0x100_0000_0000,
        decreases k - i,
    {
        proof {
            lemma_pow2_strictly_increases((i + 1) as nat, 40);
            lemma_pow2_unfold((i + 1) as nat);
        }
        p = p * 2;
        i += 1;
    }
    proof {
        lemma_pow2_strictly_increases(k as nat, 40);
        lemma_pow2_pos(k as nat);
    }
    p
}

/// `m * 2^k`.
fn doubled(m: u128, k: u32) -> (r: u128)
    requires
        m <= 0xff_ffff,
        k <= 104,
    ensures
        r == m * pow2(k as nat),
{
    let mut r: u128 = m;
    let mut i: u32 = 0;
    proof {
        vstd::arithmetic::power2::lemma2_to64();
        assert(m * 1 == m) by (nonlinear_arith);
        lemma_pow2_adds(52, 52);
        vstd::arithmetic::power2::lemma2_to64_rest();
        assert(pow2(104) == 0x10_0000_0000_0000 * 0x10_0000_0000_0000);
    }
    while i < k
        invariant
            i <= k <= 104,
            m <= 0xff_ffff,
            r == m * pow2(i as nat),
            pow2(104) == 0x10_0000_0000_0000 * 0x10_0000_0000_0000,
        decreases k - i,
    {
        let ghost a = pow2(i as nat);
        proof {
            lemma_pow2_unfold((i + 1) as nat);
            assert(pow2((i + 1) as nat) == 2 * a);
            if i + 1 < 104 {
                lemma_pow2_strictly_increases((i + 1) as nat, 104);
            }
            assert((m * a) * 2 == m * (2 * a)) by (nonlinear_arith);
            assert(m * (2 * a) <= 0xff_ffff * (0x10_0000_0000_0000 * 0x10_0000_0000_0000)) by (nonlinear_arith)
                requires
                    m <= 0xff_ffff,
                    0 <= 2 * a <= 0x10_0000_0000_0000 * 0x10_0000_0000_0000,
            ;
        }
        r = r * 2;
        i += 1;
    }
    r
}

} // verus!
