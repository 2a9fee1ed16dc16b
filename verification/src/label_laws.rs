//! Where labels go: straight up, or one unit of length in some direction.
use crate::arithmetic::{
    difference_of, exact_results_stand, larger, opposite, product_of, quotient_of, roots_are_numbers, signed_units, sum_of,
    units,
};
use crate::arithmetic_laws::{lemma_sign_does_not_count, lemma_units_ascend};
use crate::geometry::{divided, length_of, square_of, subtracted};
use crate::layout::{hair, pull_of, push_of, upward, weight_of, Pull};
use crate::palette::one;
use crate::quantity::{exponent, significand, zero, Quantity};
use crate::rounding::{
    exact_values_stand, nearest_value, powers_go_through, roots_are_near, rounded_above, rounded_within,
    rounding_is_near, small_parts_are_lost, values_ascend, values_scale,
};
use crate::world::Point;
use vstd::arithmetic::power2::{
    lemma2_to64, lemma_pow2_adds, lemma_pow2_pos, lemma_pow2_strictly_increases, lemma_pow2_unfold, pow2,
};
use vstd::prelude::*;

verus! {

/// The quantity `2^60`: places farther out are left aside.
pub open spec fn far() -> Quantity {
    Quantity { bits: 0x5d80_0000 }
}

/// Whether a point is no farther out than `far`, in either direction.
pub open spec fn in_reach(p: Point) -> bool {
    &&& opposite(far()).at_most(p.x) && p.x.at_most(far())
    &&& opposite(far()).at_most(p.y) && p.y.at_most(far())
}

/// Whether a vector has the length 1, within one part in `2^18` of the square.
pub open spec fn nearly_unit(v: Point) -> bool {
    let u = pow2(149);
    &&& v.x.finite() && v.y.finite()
    &&& -(u * u) <= 0x4_0000 * (units(v.x) * units(v.x) + units(v.y) * units(v.y) - u * u) <= u * u
}

/// Whether a quantity is finite and counts no more than `2^e` units.
pub(crate) open spec fn small(q: Quantity, e: nat) -> bool {
    q.finite() && units(q) <= pow2(e)
}

proof fn lemma_nothing_counts_nothing(q: Quantity)
    requires
        q.rank() == 0,
    ensures
        units(q) == 0,
{
    assert(units(q) == 0) by (nonlinear_arith)
        requires
            units(q) == 0 * pow2(0),
    ;
}

pub(crate) proof fn lemma_opposites_count_alike(q: Quantity)
    ensures
        units(opposite(q)) == units(q),
        opposite(q).finite() == q.finite(),
        q.finite() ==> signed_units(opposite(q)) == -signed_units(q),
{
    lemma_sign_does_not_count(q);
    lemma_sign_does_not_count(opposite(q));
    assert(opposite(q).bits % 0x8000_0000 == q.bits % 0x8000_0000);
    if q.negative() {
        assert(q.bits / 0x80_0000 == opposite(q).bits / 0x80_0000 + 0x100);
    } else {
        assert(opposite(q).bits / 0x80_0000 == q.bits / 0x80_0000 + 0x100);
    }
}

pub(crate) proof fn lemma_in_reach(q: Quantity)
    requires
        opposite(far()).at_most(q),
        q.at_most(far()),
    ensures
        small(q, 209),
{
    assert(significand(far().bits) == 0x80_0000 && exponent(far().bits) == 37);
    lemma2_to64();
    lemma_pow2_adds(23, 186);
    assert(units(far()) == pow2(209));
    lemma_opposites_count_alike(far());
    assert(q.finite());
    lemma_units_ascend(q, far());
    lemma_units_ascend(opposite(far()), q);
}

/// What a sum counts.
pub(crate) proof fn lemma_sum(a: Quantity, b: Quantity, e: nat)
    requires
        small(a, e),
        small(b, e),
        23 <= e <= 275,
    ensures
        small(sum_of(a, b), e + 1),
        ({
            let s = signed_units(a) + signed_units(b);
            units(sum_of(a, b)) == nearest_value((if s < 0 { -s } else { s }) as nat, 1)
        }),
        !a.negative() && !b.negative() ==> !sum_of(a, b).negative(),
{
    let s = signed_units(a) + signed_units(b);
    lemma_pow2_unfold(e + 1);
    lemma_pow2_pos(e + 1);
    assert(1 * pow2(e + 1) == pow2(e + 1));
    if s < 0 {
        rounded_within(true, (-s) as nat, 1, e + 1);
    } else if s > 0 {
        rounded_within(false, s as nat, 1, e + 1);
    } else {
        lemma_nothing_counts_nothing(sum_of(a, b));
        lemma_nothing_counts_nothing(zero());
        exact_values_stand(zero());
    }
}

/// What a product counts.
pub(crate) proof fn lemma_product(a: Quantity, b: Quantity, e: nat, f: nat, g: nat)
    requires
        small(a, e),
        small(b, f),
        e + f == g + 149,
        23 <= g <= 276,
    ensures
        small(product_of(a, b), g),
        units(product_of(a, b)) == nearest_value(units(a) * units(b), pow2(149)),
        product_of(a, b).negative() == (a.negative() != b.negative()),
{
    lemma_pow2_pos(149);
    lemma_pow2_adds(e, f);
    lemma_pow2_adds(149, g);
    assert(units(a) * units(b) <= pow2(e) * pow2(f)) by (nonlinear_arith)
        requires
            units(a) <= pow2(e),
            units(b) <= pow2(f),
    ;
    rounded_within(a.negative() != b.negative(), units(a) * units(b), pow2(149), g);
}

pub(crate) proof fn lemma_difference(a: Quantity, b: Quantity, e: nat)
    requires
        small(a, e),
        small(b, e),
        23 <= e <= 275,
    ensures
        small(difference_of(a, b), e + 1),
{
    lemma_opposites_count_alike(b);
    lemma_sum(a, opposite(b), e);
}

/// What the square of a length counts.
pub(crate) proof fn lemma_square(v: Point)
    requires
        small(v.x, 210),
        small(v.y, 210),
    ensures
        small(square_of(v), 272),
        !square_of(v).negative(),
        units(square_of(v)) == nearest_value(
            nearest_value(units(v.x) * units(v.x), pow2(149)) + nearest_value(units(v.y) * units(v.y), pow2(149)),
            1,
        ),
{
    let a = product_of(v.x, v.x);
    let b = product_of(v.y, v.y);
    lemma_product(v.x, v.x, 210, 210, 271);
    lemma_product(v.y, v.y, 210, 210, 271);
    lemma_sum(a, b, 271);
}

pub(crate) proof fn lemma_one_and_hair()
    ensures
        units(one()) == pow2(149),
        pow2(139) <= units(hair()) <= pow2(140),
        hair().finite(),
        one().finite(),
{
    assert(significand(one().bits) == 0x80_0000 && exponent(one().bits) == -23);
    assert(significand(hair().bits) == 0x83_126f && exponent(hair().bits) == -33);
    lemma2_to64();
    lemma_pow2_adds(23, 126);
    lemma_pow2_adds(23, 116);
    lemma_pow2_adds(24, 116);
    let p = pow2(116);
    lemma_pow2_pos(116);
    assert(0x80_0000 * p <= 0x83_126f * p <= 0x100_0000 * p) by (nonlinear_arith)
        requires
            p > 0,
    ;
}

/// A weight lies between `2^-123` and 1024.
pub(crate) proof fn lemma_weight(from: Point, to: Point)
    requires
        in_reach(from),
        in_reach(to),
    ensures
        ({
            let w = weight_of(from, to);
            w.finite() && !w.negative() && pow2(26) <= units(w) <= pow2(159)
        }),
{
    let v = subtracted(to, from);
    lemma_in_reach(from.x);
    lemma_in_reach(from.y);
    lemma_in_reach(to.x);
    lemma_in_reach(to.y);
    lemma_difference(to.x, from.x, 209);
    lemma_difference(to.y, from.y, 209);
    lemma_square(v);
    lemma_one_and_hair();
    let m = larger(square_of(v), hair());
    assert(m.finite() && !m.negative() && hair().at_most(m));
    lemma_units_ascend(hair(), m);
    let d = units(m);
    lemma_pow2_strictly_increases(140, 272);
    assert(d <= pow2(272));
    lemma_pow2_pos(139);
    lemma_pow2_adds(149, 149);
    lemma_pow2_adds(139, 159);
    lemma_pow2_adds(272, 26);
    assert(pow2(149) * pow2(149) <= d * pow2(159) && pow2(149) * pow2(149) >= d * pow2(26)) by (nonlinear_arith)
        requires
            pow2(149) * pow2(149) == pow2(139) * pow2(159),
            pow2(149) * pow2(149) == pow2(272) * pow2(26),
            pow2(139) <= d <= pow2(272),
    ;
    assert(m.rank() != 0) by {
        if m.rank() == 0 {
            lemma_nothing_counts_nothing(m);
        }
    }
    rounded_within(false, pow2(149) * pow2(149), d, 159);
    rounded_above(pow2(149) * pow2(149), d, 26);
}

/// Whether what pulls lies no farther out than the places that pull.
pub(crate) open spec fn in_proportion(pull: Pull) -> bool {
    &&& pull.weight.finite() && !pull.weight.negative() && units(pull.weight) <= pow2(184)
    &&& pull.at.x.finite() && units(pull.at.x) <= units(pull.weight) * pow2(60)
    &&& pull.at.y.finite() && units(pull.at.y) <= units(pull.weight) * pow2(60)
}

/// One coordinate of what pulls, with one place more.
proof fn lemma_pull_coordinate(weight: Quantity, at: Quantity, w: Quantity, x: Quantity)
    requires
        weight.finite() && !weight.negative() && units(weight) <= pow2(184),
        at.finite() && units(at) <= units(weight) * pow2(60),
        w.finite() && !w.negative() && pow2(26) <= units(w) <= pow2(159),
        small(x, 209),
    ensures
        sum_of(at, product_of(w, x)).finite(),
        units(sum_of(at, product_of(w, x))) <= nearest_value(units(weight) + units(w), 1) * pow2(60),
{
    let c = product_of(w, x);
    let p = pow2(60);
    let u = pow2(149);
    let t = units(weight) + units(w);
    lemma_pow2_pos(149);
    lemma_pow2_pos(60);
    lemma_product(w, x, 159, 209, 219);
    lemma_pow2_adds(60, 149);
    assert(units(w) * units(x) <= (units(w) * p) * u) by (nonlinear_arith)
        requires
            units(x) <= p * u,
    ;
    values_ascend(units(w) * units(x), (units(w) * p) * u, u);
    values_scale(units(w) * p, 1, u);
    assert(1 * u == u);
    lemma2_to64();
    powers_go_through(units(w), 60);
    exact_values_stand(w);
    assert(units(c) <= units(w) * p);
    lemma_pow2_adds(184, 60);
    lemma_pow2_strictly_increases(219, 244);
    assert(units(weight) * p <= pow2(184) * p) by (nonlinear_arith)
        requires
            units(weight) <= pow2(184),
    ;
    lemma_sum(at, c, 244);
    let s = signed_units(at) + signed_units(c);
    let n = (if s < 0 { -s } else { s }) as nat;
    assert(t * p == units(weight) * p + units(w) * p) by (nonlinear_arith)
        requires
            t == units(weight) + units(w),
    ;
    assert(n <= t * p);
    values_ascend(n, t * p, 1);
    powers_go_through(t, 60);
}

pub(crate) proof fn lemma_pull(places: Seq<Point>, i: int, n: nat)
    requires
        0 <= i < places.len(),
        n <= places.len(),
        forall|k: int| 0 <= k < places.len() ==> in_reach(#[trigger] places[k]),
    ensures
        in_proportion(pull_of(places, i, n)),
    decreases n,
{
    lemma_pow2_pos(184);
    if n == 0 {
        lemma_nothing_counts_nothing(zero());
        assert(0 * pow2(60) == 0) by (nonlinear_arith);
    } else {
        let before = pull_of(places, i, (n - 1) as nat);
        lemma_pull(places, i, (n - 1) as nat);
        if n - 1 != i {
            let p = places[n - 1];
            assert(in_reach(p) && in_reach(places[i]));
            let w = weight_of(places[i], p);
            lemma_weight(places[i], p);
            lemma_in_reach(p.x);
            lemma_in_reach(p.y);
            lemma_pull_coordinate(before.weight, before.at.x, w, p.x);
            lemma_pull_coordinate(before.weight, before.at.y, w, p.y);
            lemma_pow2_strictly_increases(159, 184);
            lemma_sum(before.weight, w, 184);
            let t = units(before.weight) + units(w);
            small_parts_are_lost(184);
            values_ascend(t, pow2(184) + pow2(159), 1);
        }
    }
}

/// The squares of a rounded product and of the exact one, where rounding is one part in `2^24` or half a
/// divisor off.
proof fn lemma_squares_are_near(g: int, x: int, l: int, u: int)
    requires
        x >= 0,
        l >= 0,
        u >= 1,
        x <= 2 * (l * u),
        (-l <= 2 * (g - x) <= l) || (-x <= 0x100_0000 * (g - x) <= x),
    ensures
        -(3 * (x * x) + 0x800_0000 * ((l * l) * u)) <= 0x100_0000 * (g * g - x * x) <= 3 * (x * x) + 0x800_0000 * ((l * l)
            * u),
{
    let off = g - x;
    let d = if off < 0 { -off } else { off };
    assert(g * g - x * x == off * (2 * x + off)) by (nonlinear_arith)
        requires
            off == g - x,
    ;
    assert(0x100_0000 * d <= x + 0x80_0000 * l);
    assert(-(d * (2 * x + d)) <= off * (2 * x + off) <= d * (2 * x + d)) by (nonlinear_arith)
        requires
            d == off || d == -off,
            d >= 0,
            x >= 0,
    ;
    let e = x + 0x80_0000 * l;
    let f = 3 * x + l;
    assert(2 * x + d <= f);
    assert(0x100_0000 * (d * (2 * x + d)) <= e * f) by (nonlinear_arith)
        requires
            0x100_0000 * d <= e,
            0 <= 2 * x + d <= f,
            d >= 0,
    ;
    let xl = x * l;
    assert(e * f == 3 * (x * x) + xl + 0x180_0000 * xl + 0x80_0000 * (l * l)) by (nonlinear_arith)
        requires
            e == x + 0x80_0000 * l,
            f == 3 * x + l,
            xl == x * l,
    ;
    assert(xl <= 2 * ((l * l) * u)) by (nonlinear_arith)
        requires
            xl == x * l,
            x <= 2 * (l * u),
            l >= 0,
    ;
    assert(l * l <= (l * l) * u) by (nonlinear_arith)
        requires
            u >= 1,
    ;
}

/// The square of a vector's length, rounded step by step, is near the exact one.
pub(crate) proof fn lemma_length_is_near(v: Point)
    requires
        small(v.x, 210),
        small(v.y, 210),
        hair().less(length_of(v)),
    ensures
        length_of(v).finite(),
        !length_of(v).negative(),
        units(length_of(v)) >= pow2(139),
        ({
            let l = units(length_of(v));
            let t = units(v.x) * units(v.x) + units(v.y) * units(v.y);
            -(t as int) <= 0x10_0000 * (l * l - t) <= t
        }),
{
    let u = pow2(149);
    let (x, y) = (units(v.x), units(v.y));
    let s = square_of(v);
    let len = length_of(v);
    let l = units(len);
    lemma_pow2_pos(149);
    lemma_square(v);
    lemma_one_and_hair();
    roots_are_numbers(s);
    assert(s.rank() != 0);
    assert(s.positive());
    lemma_units_ascend(hair(), len);
    assert(!len.negative());
    assert(units(s) >= 1) by {
        exact_results_stand(s);
        if units(s) == 0 {
            lemma_nothing_counts_nothing(zero());
            exact_results_stand(zero());
        }
    }
    roots_are_near(s);
    let a = nearest_value(x * x, u);
    let b = nearest_value(y * y, u);
    rounding_is_near(x * x, u);
    rounding_is_near(y * y, u);
    rounding_is_near(a + b, 1);
    assert(nearest_value(a + b, 1) * 1 == nearest_value(a + b, 1));
    let (xx, yy, ll) = (x * x, y * y, l * l);
    let t = xx + yy;
    let (au, bu) = (a * u, b * u);
    assert(xx >= 0 && yy >= 0) by (nonlinear_arith)
        requires
            xx == x * x,
            yy == y * y,
    ;
    let sum = au + bu;
    assert((a + b) * u == sum) by (nonlinear_arith)
        requires
            sum == a * u + b * u,
    ;
    let off = units(s) - (a + b);
    assert(-(a + b) <= 0x100_0000 * off <= a + b);
    let su = units(s) * u;
    assert(su == sum + off * u && -sum <= 0x100_0000 * (off * u) <= sum) by (nonlinear_arith)
        requires
            su == units(s) * u,
            off == units(s) - (a + b),
            (a + b) * u == sum,
            -(a + b) <= 0x100_0000 * off <= a + b,
            u > 0,
    ;
    lemma_pow2_adds(139, 139);
    lemma_pow2_adds(149, 129);
    lemma_pow2_strictly_increases(64, 129);
    lemma2_to64();
    assert(ll >= pow2(278)) by (nonlinear_arith)
        requires
            ll == l * l,
            l >= pow2(139),
            pow2(278) == pow2(139) * pow2(139),
    ;
    assert(pow2(278) >= 0x1_0000_0000_0000_0000 * u) by (nonlinear_arith)
        requires
            pow2(278) == u * pow2(129),
            pow2(129) >= 0x1_0000_0000_0000_0000,
            u > 0,
    ;
    assert(-(t as int) <= 0x10_0000 * (ll - t) <= t);
}

/// A vector divided by its length has the length 1, nearly.
proof fn lemma_direction(v: Point)
    requires
        small(v.x, 210),
        small(v.y, 210),
        hair().less(length_of(v)),
    ensures
        nearly_unit(divided(v, length_of(v))),
{
    let u = pow2(149);
    let len = length_of(v);
    let l = units(len);
    let (x, y) = (units(v.x), units(v.y));
    let t = x * x + y * y;
    lemma_length_is_near(v);
    lemma_pow2_pos(149);
    lemma_pow2_pos(139);
    lemma_component(v.x, len, t);
    assert(t == y * y + x * x);
    lemma_component(v.y, len, t);
    let p = nearest_value(x * u, l);
    let q = nearest_value(y * u, l);
    lemma_pow2_strictly_increases(64, 149);
    lemma2_to64();
    lemma_squares_are_near((p * l) as int, (x * u) as int, l as int, u as int);
    lemma_squares_are_near((q * l) as int, (y * u) as int, l as int, u as int);
    let g = p * p + q * q;
    let ll = l * l;
    let uu = u * u;
    lemma_combined(p, q, x, y, l, u);
    assert(ll > 0) by (nonlinear_arith)
        requires
            ll == l * l,
            l > 0,
    ;
    lemma_cancel(g as int, ll as int, uu as int, t as int, u as int);
}

/// One coordinate of a direction.
pub(crate) proof fn lemma_component(c: Quantity, len: Quantity, t: nat)
    requires
        c.finite(),
        len.finite(),
        !len.negative(),
        units(len) >= pow2(139),
        t >= units(c) * units(c),
        0x10_0000 * (units(len) * units(len) - t) >= -(t as int),
    ensures
        quotient_of(c, len).finite(),
        units(quotient_of(c, len)) == nearest_value(units(c) * pow2(149), units(len)),
        units(c) <= 2 * units(len),
        units(c) * pow2(149) <= 2 * (units(len) * pow2(149)),
        ({
            let (x, l) = (units(c) * pow2(149), units(len));
            let off = nearest_value(x, l) * l - x;
            (-(l as int) <= 2 * off <= l) || (-(x as int) <= 0x100_0000 * off <= x)
        }),
{
    let x = units(c);
    let l = units(len);
    let u = pow2(149);
    lemma_pow2_pos(139);
    lemma_pow2_pos(149);
    assert(x <= 2 * l) by (nonlinear_arith)
        requires
            x * x <= t,
            0x10_0000 * (l * l - t) >= -(t as int),
            x >= 0,
            l >= 0,
    ;
    assert(x * u <= 2 * (l * u)) by (nonlinear_arith)
        requires
            x <= 2 * l,
            u > 0,
    ;
    lemma_pow2_unfold(150);
    assert(l * pow2(150) == 2 * (l * u)) by (nonlinear_arith)
        requires
            pow2(150) == 2 * u,
    ;
    assert(len.rank() != 0) by {
        if len.rank() == 0 {
            lemma_nothing_counts_nothing(len);
        }
    }
    rounded_within(c.negative() != len.negative(), x * u, l, 150);
    rounding_is_near(x * u, l);
}

proof fn lemma_combined(p: nat, q: nat, x: nat, y: nat, l: nat, u: nat)
    ensures
        (p * l) * (p * l) + (q * l) * (q * l) == (p * p + q * q) * (l * l),
        (x * u) * (x * u) + (y * u) * (y * u) == (u * u) * (x * x + y * y),
{
    assert((p * l) * (p * l) == (p * p) * (l * l)) by (nonlinear_arith);
    assert((q * l) * (q * l) == (q * q) * (l * l)) by (nonlinear_arith);
    assert((x * u) * (x * u) == (u * u) * (x * x)) by (nonlinear_arith);
    assert((y * u) * (y * u) == (u * u) * (y * y)) by (nonlinear_arith);
    assert((p * p + q * q) * (l * l) == (p * p) * (l * l) + (q * q) * (l * l)) by (nonlinear_arith);
    assert((u * u) * (x * x + y * y) == (u * u) * (x * x) + (u * u) * (y * y)) by (nonlinear_arith);
}

/// What is near in proportion to a length that is itself near.
proof fn lemma_cancel(g: int, ll: int, uu: int, t: int, u: int)
    requires
        g >= 0,
        t > 0,
        u >= 0x2000_0000,
        uu == u * u,
        -t <= 0x10_0000 * (ll - t) <= t,
        -(3 * (uu * t) + 0x1000_0000 * (ll * u)) <= 0x100_0000 * (g * ll - uu * t) <= 3 * (uu * t) + 0x1000_0000 * (ll * u),
    ensures
        -uu <= 0x4_0000 * (g - uu) <= uu,
{
    let e = uu * t;
    assert(0x1000_0000 * (ll * u) <= e) by (nonlinear_arith)
        requires
            e == (u * u) * t,
            ll <= 2 * t,
            u >= 0x2000_0000,
            t > 0,
    ;
    let gl = g * ll;
    let gt = g * t;
    assert(-gt <= 0x10_0000 * (gl - gt) <= gt) by (nonlinear_arith)
        requires
            gl == g * ll,
            gt == g * t,
            g >= 0,
            -t <= 0x10_0000 * (ll - t) <= t,
    ;
    assert(-e <= 0x40_0000 * (gl - e) <= e);
    assert(-e <= 0x4_0000 * (gt - e) <= e);
    assert(gt - e == (g - uu) * t) by (nonlinear_arith)
        requires
            gt == g * t,
            e == uu * t,
    ;
    assert(-uu <= 0x4_0000 * (g - uu) <= uu) by (nonlinear_arith)
        requires
            -(uu * t) <= 0x4_0000 * ((g - uu) * t) <= uu * t,
            t > 0,
    ;
}

/// A label goes straight up, or one unit of length in some direction: never to a place that is no number
/// or infinitely far, nor nowhere at all. This holds wherever the places are, up to `2^60` out.
pub proof fn labels_go_one_unit_of_length(places: Seq<Point>, i: int)
    requires
        0 <= i < places.len(),
        forall|k: int| 0 <= k < places.len() ==> in_reach(#[trigger] places[k]),
    ensures
        push_of(places, i) == upward() || nearly_unit(push_of(places, i)),
{
    let pull = pull_of(places, i, places.len());
    lemma_pull(places, i, places.len());
    assert(in_reach(places[i]));
    lemma_in_reach(places[i].x);
    lemma_in_reach(places[i].y);
    if !pull.weight.at_most(zero()) {
        let away = subtracted(places[i], divided(pull.at, pull.weight));
        assert(pull.weight.rank() != 0);
        assert(units(pull.weight) > 0) by {
            if units(pull.weight) == 0 {
                exact_results_stand(pull.weight);
                lemma_nothing_counts_nothing(zero());
                exact_results_stand(zero());
            }
        }
        lemma_centre(pull.at.x, pull.weight);
        lemma_centre(pull.at.y, pull.weight);
        lemma_difference(places[i].x, quotient_of(pull.at.x, pull.weight), 209);
        lemma_difference(places[i].y, quotient_of(pull.at.y, pull.weight), 209);
        if hair().less(length_of(away)) {
            lemma_direction(away);
        }
    }
}

pub(crate) proof fn lemma_centre(at: Quantity, weight: Quantity)
    requires
        weight.finite() && !weight.negative() && weight.rank() != 0 && units(weight) > 0,
        at.finite() && units(at) <= units(weight) * pow2(60),
    ensures
        small(quotient_of(at, weight), 209),
{
    lemma_pow2_adds(60, 149);
    assert(units(at) * pow2(149) <= units(weight) * pow2(209)) by (nonlinear_arith)
        requires
            units(at) <= units(weight) * pow2(60),
            pow2(209) == pow2(60) * pow2(149),
            pow2(149) >= 0,
    ;
    rounded_within(at.negative() != weight.negative(), units(at) * pow2(149), units(weight), 209);
}

} // verus!
