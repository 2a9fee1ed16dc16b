//! What pushes labels: places pull at each other by the inverse square of their distance, and a label goes
//! away from what is near.
use crate::arithmetic::{
    difference_of, larger, opposite, product_of, quotient_of, roots_are_numbers, signed_units, sum_of, units,
};
use crate::arithmetic_laws::{lemma_positive_counts, lemma_units_ascend, quotients_descend, roots_ascend};
use crate::geometry::{distance_of, divided, length_of, square_of, subtracted};
use crate::label_laws::{
    in_reach, lemma_centre, lemma_component, lemma_difference, lemma_in_reach, lemma_length_is_near, lemma_one_and_hair,
    lemma_opposites_count_alike, lemma_product, lemma_pull, lemma_square, lemma_sum, lemma_weight, small,
};
use crate::layout::{hair, pull_of, push_of, weight_of};
use crate::palette::one;
use crate::quantity::{zero, Quantity};
use crate::rounding::{
    exact_values_stand, nearest_value, roots_are_near, rounded_above, rounded_within, rounding_is_near,
};
use crate::world::Point;
use vstd::arithmetic::power2::{lemma2_to64, lemma_pow2_adds, lemma_pow2_pos, lemma_pow2_strictly_increases, pow2};
use vstd::prelude::*;

verus! {

/// Of two places, the one that is nearer to the labelled place pulls at it no less than the other, wherever
/// the three of them lie.
pub proof fn nearer_places_pull_no_less(label: Point, near: Point, far: Point)
    requires
        distance_of(near, label).less(distance_of(far, label)),
    ensures
        weight_of(label, far).at_most(weight_of(label, near)),
{
    let (a, b) = (square_of(subtracted(near, label)), square_of(subtracted(far, label)));
    assert(zero().at_most(a) && zero().at_most(b));
    if b.at_most(a) {
        roots_ascend(b, a);
    }
    lemma_weights_descend(a, b);
}

proof fn lemma_weights_descend(a: Quantity, b: Quantity)
    requires
        a.at_most(b),
    ensures
        quotient_of(one(), larger(b, hair())).at_most(quotient_of(one(), larger(a, hair()))),
{
    let (c, d) = (larger(a, hair()), larger(b, hair()));
    assert(zero().less(c) && c.at_most(d));
    quotients_descend(one(), c, d);
}

/// The square of the distance between two places, exactly, counted in squares of the least unit.
pub open spec fn apart(a: Point, b: Point) -> int {
    let x = signed_units(b.x) - signed_units(a.x);
    let y = signed_units(b.y) - signed_units(a.y);
    x * x + y * y
}

proof fn lemma_squares_stay_near(x: int, d: int)
    requires
        d >= 0,
        x >= 0,
        -d <= 0x100_0000 * (x - d) <= d,
    ensures
        -(3 * (d * d)) <= 0x100_0000 * (x * x - d * d) <= 3 * (d * d),
{
    let off = x - d;
    assert(x * x - d * d == off * (2 * d + off)) by (nonlinear_arith)
        requires
            off == x - d,
    ;
    let f = 2 * d + off;
    assert(0 <= f <= 3 * d);
    assert(-(3 * (d * d)) <= (0x100_0000 * off) * f <= 3 * (d * d)) by (nonlinear_arith)
        requires
            -d <= 0x100_0000 * off <= d,
            0 <= f <= 3 * d,
            d >= 0,
    ;
    assert((0x100_0000 * off) * f == 0x100_0000 * (off * f)) by (nonlinear_arith);
}

/// One coordinate of the way from a place to another, as it is rounded.
proof fn lemma_way(a: Quantity, b: Quantity)
    requires
        small(a, 209),
        small(b, 209),
    ensures
        small(difference_of(b, a), 210),
        ({
            let d = signed_units(b) - signed_units(a);
            let m = if d < 0 { -d } else { d };
            let x = units(difference_of(b, a)) as int;
            -m <= 0x100_0000 * (x - m) <= m
        }),
{
    lemma_opposites_count_alike(a);
    lemma_sum(b, opposite(a), 209);
    let d = signed_units(b) - signed_units(a);
    let m = (if d < 0 { -d } else { d }) as nat;
    rounding_is_near(m, 1);
    assert(nearest_value(m, 1) * 1 == nearest_value(m, 1)) by (nonlinear_arith);
}

/// The square of the distance, as it is rounded, is near the exact one.
proof fn lemma_square_is_near(a: Point, b: Point)
    requires
        in_reach(a),
        in_reach(b),
        256 * apart(a, b) >= pow2(149) * pow2(149),
    ensures
        ({
            let s = units(square_of(subtracted(b, a))) * pow2(149);
            let t = apart(a, b);
            -t <= 0x10_0000 * (s - t) <= t
        }),
        small(square_of(subtracted(b, a)), 272),
        !square_of(subtracted(b, a)).negative(),
{
    let u = pow2(149);
    let v = subtracted(b, a);
    lemma_in_reach(a.x);
    lemma_in_reach(a.y);
    lemma_in_reach(b.x);
    lemma_in_reach(b.y);
    lemma_way(a.x, b.x);
    lemma_way(a.y, b.y);
    lemma_square(v);
    lemma_pow2_pos(149);
    let dx = signed_units(b.x) - signed_units(a.x);
    let dy = signed_units(b.y) - signed_units(a.y);
    let mx = if dx < 0 { -dx } else { dx };
    let my = if dy < 0 { -dy } else { dy };
    let (x, y) = (units(v.x), units(v.y));
    lemma_squares_stay_near(x as int, mx);
    lemma_squares_stay_near(y as int, my);
    assert(mx * mx == dx * dx && my * my == dy * dy) by (nonlinear_arith)
        requires
            mx == dx || mx == -dx,
            my == dy || my == -dy,
    ;
    let (p, q) = (nearest_value(x * x, u), nearest_value(y * y, u));
    rounding_is_near(x * x, u);
    rounding_is_near(y * y, u);
    rounding_is_near(p + q, 1);
    assert(nearest_value(p + q, 1) * 1 == nearest_value(p + q, 1)) by (nonlinear_arith);
    let s = units(square_of(v));
    lemma_scaled_sum(s as int, p as int, q as int, u as int);
    lemma2_to64();
    lemma_pow2_strictly_increases(64, 149);
    let t = apart(a, b);
    assert(t >= 0x100_0000_0000 * u) by (nonlinear_arith)
        requires
            256 * t >= u * u,
            u >= 0x1_0000_0000_0000_0000,
    ;
    assert(x * x >= 0 && y * y >= 0 && mx * mx >= 0 && my * my >= 0) by (nonlinear_arith);
    lemma_errors_add(
        (x * x) as int,
        (y * y) as int,
        mx * mx,
        my * my,
        (p * u) as int,
        (q * u) as int,
        (s * u) as int,
        u as int,
    );
}

proof fn lemma_scaled_sum(s: int, p: int, q: int, u: int)
    requires
        -(p + q) <= 0x100_0000 * (s - (p + q)) <= p + q,
        u > 0,
    ensures
        -(p * u + q * u) <= 0x100_0000 * (s * u - (p * u + q * u)) <= p * u + q * u,
{
    let off = s - (p + q);
    assert(s * u - (p * u + q * u) == off * u && (p + q) * u == p * u + q * u) by (nonlinear_arith)
        requires
            off == s - (p + q),
    ;
    let m = p + q;
    assert(-(m * u) <= 0x100_0000 * (off * u) <= m * u) by (nonlinear_arith)
        requires
            -m <= 0x100_0000 * off <= m,
            u > 0,
    ;
}

/// Small errors of parts are a small error of the whole.
proof fn lemma_errors_add(xx: int, yy: int, dxx: int, dyy: int, pu: int, qu: int, su: int, u: int)
    requires
        xx >= 0 && yy >= 0 && dxx >= 0 && dyy >= 0,
        -(3 * dxx) <= 0x100_0000 * (xx - dxx) <= 3 * dxx,
        -(3 * dyy) <= 0x100_0000 * (yy - dyy) <= 3 * dyy,
        (-u <= 2 * (pu - xx) <= u) || (-xx <= 0x100_0000 * (pu - xx) <= xx),
        (-u <= 2 * (qu - yy) <= u) || (-yy <= 0x100_0000 * (qu - yy) <= yy),
        -(pu + qu) <= 0x100_0000 * (su - (pu + qu)) <= pu + qu,
        dxx + dyy >= 0x100_0000_0000 * u,
        u > 0,
    ensures
        -(dxx + dyy) <= 0x10_0000 * (su - (dxx + dyy)) <= dxx + dyy,
{
    assert(-(xx + 0x80_0000 * u) <= 0x100_0000 * (pu - xx) <= xx + 0x80_0000 * u);
    assert(-(yy + 0x80_0000 * u) <= 0x100_0000 * (qu - yy) <= yy + 0x80_0000 * u);
}

/// A place pulls by the inverse square of its distance, but for rounding: its weight times the square of the
/// distance is 1 within one part in `2^18`. This holds up to `2^60` out, from a distance of a sixteenth on.
pub proof fn weights_are_inverse_squares(label: Point, place: Point)
    requires
        in_reach(label),
        in_reach(place),
        256 * apart(label, place) >= pow2(149) * pow2(149),
    ensures
        ({
            let u = pow2(149);
            let p = units(weight_of(label, place)) * apart(label, place);
            -(u * u * u) <= 0x4_0000 * (p - u * u * u) <= u * u * u
        }),
{
    let u = pow2(149);
    let t = apart(label, place);
    let q = square_of(subtracted(place, label));
    let s = units(q);
    lemma_square_is_near(label, place);
    lemma_pow2_pos(149);
    lemma_one_and_hair();
    lemma_pow2_adds(9, 140);
    lemma_pow2_pos(140);
    lemma2_to64();
    let su = s * u;
    let uu = u * u;
    assert(uu > 0) by (nonlinear_arith)
        requires
            uu == u * u,
            u > 0,
    ;
    assert(512 * su > uu);
    assert(s > pow2(140)) by (nonlinear_arith)
        requires
            512 * (s * u) > u * u,
            u == 512 * pow2(140),
            u > 0,
    ;
    if q.less(hair()) {
        lemma_units_ascend(q, hair());
    }
    assert(larger(q, hair()) == q);
    lemma_weight(label, place);
    let w = units(weight_of(label, place));
    assert(q.rank() != 0) by {
        if q.rank() == 0 {
            assert(units(q) == 0) by (nonlinear_arith)
                requires
                    units(q) == 0 * pow2(0),
            ;
        }
    }
    lemma_pow2_adds(149, 149);
    lemma_pow2_adds(140, 158);
    lemma_pow2_pos(158);
    assert(u * u <= s * pow2(158)) by (nonlinear_arith)
        requires
            u * u == pow2(140) * pow2(158),
            s > pow2(140),
            pow2(158) > 0,
    ;
    rounded_within(false, u * u, s, 158);
    rounding_is_near(u * u, s);
    let ws = w * s;
    assert(w == nearest_value(uu, s));
    assert(0x400_0000 * s <= ws) by (nonlinear_arith)
        requires
            ws == w * s,
            w >= 0x400_0000,
    ;
    assert(-(uu as int) <= 0x40_0000 * (ws - uu) <= uu);
    let (big, mid, p) = (uu * u, ws * u, w * t);
    assert(-(big as int) <= 0x40_0000 * (mid - big) <= big) by (nonlinear_arith)
        requires
            big == uu * u,
            mid == ws * u,
            -(uu as int) <= 0x40_0000 * (ws - uu) <= uu,
            u > 0,
    ;
    assert(mid == w * su) by (nonlinear_arith)
        requires
            mid == ws * u,
            ws == w * s,
            su == s * u,
    ;
    assert(-p <= 0x10_0000 * (mid - p) <= p) by (nonlinear_arith)
        requires
            mid == w * su,
            p == w * t,
            -t <= 0x10_0000 * (su - t) <= t,
            w >= 0,
    ;
}

/// One of the coordinates of a point.
pub(crate) open spec fn coordinate(p: Point, up: bool) -> Quantity {
    if up {
        p.y
    } else {
        p.x
    }
}

/// What a place weighs, exactly as it is rounded.
spec fn weight_at(places: Seq<Point>, i: int, k: int) -> int {
    units(weight_of(places[i], places[k])) as int
}

/// The weights of the first `n` places but for place `i`, added exactly.
spec fn total(places: Seq<Point>, i: int, n: nat) -> int
    decreases n,
{
    if n == 0 {
        0
    } else if n - 1 == i {
        total(places, i, (n - 1) as nat)
    } else {
        total(places, i, (n - 1) as nat) + weight_at(places, i, n - 1)
    }
}

/// The first `n` places but for place `i`, weighed and added exactly, in one coordinate.
spec fn moment(places: Seq<Point>, i: int, n: nat, up: bool) -> int
    decreases n,
{
    if n == 0 {
        0
    } else if n - 1 == i {
        moment(places, i, (n - 1) as nat, up)
    } else {
        moment(places, i, (n - 1) as nat, up) + weight_at(places, i, n - 1) * signed_units(coordinate(places[n - 1], up))
    }
}

/// Whether all places are in reach, and none is farther out than `extent`.
pub open spec fn within(places: Seq<Point>, extent: nat) -> bool {
    &&& forall|k: int| 0 <= k < places.len() ==> in_reach(#[trigger] places[k])
    &&& forall|k: int| 0 <= k < places.len() ==> units((#[trigger] places[k]).x) <= extent && units(places[k].y) <= extent
}

/// How far rounded sums are off, with one place more.
proof fn lemma_one_more(n: int, g: int, v: int, c: int, m: int, w: int, x: int, p: int, c2: int, v2: int, ext: int, u: int)
    requires
        0 <= n < 1024,
        g >= 0,
        w >= 0x400_0000,
        -ext <= x <= ext,
        ext >= u,
        u > 0,
        -(n * g) <= 0x10_0000 * (v - g) <= n * g,
        -(n * (g * ext)) <= 0x10_0000 * (c * u - m) <= n * (g * ext),
        -(g * ext) <= m <= g * ext,
        (-u <= 2 * (p * u - w * x) <= u) || (-(w * ext) <= 0x100_0000 * (p * u - w * x) <= w * ext),
        c + p >= 0 ==> -(c + p) <= 0x100_0000 * (c2 - (c + p)) <= c + p,
        c + p < 0 ==> c + p <= 0x100_0000 * (c2 - (c + p)) <= -(c + p),
        -(v + w) <= 0x100_0000 * (v2 - (v + w)) <= v + w,
    ensures
        g + w >= 0,
        -((n + 1) * (g + w)) <= 0x10_0000 * (v2 - (g + w)) <= (n + 1) * (g + w),
        -((n + 1) * ((g + w) * ext)) <= 0x10_0000 * (c2 * u - (m + w * x)) <= (n + 1) * ((g + w) * ext),
        -((g + w) * ext) <= m + w * x <= (g + w) * ext,
{
    let (ge, we, wx) = (g * ext, w * ext, w * x);
    let (cu, pu, c2u) = (c * u, p * u, c2 * u);
    let (nge, nwe, ng, nw) = (n * ge, n * we, n * g, n * w);
    assert((g + w) * ext == ge + we && (n + 1) * (ge + we) == nge + ge + nwe + we && (n + 1) * (g + w) == ng + g + nw + w)
        by (nonlinear_arith)
        requires
            ge == g * ext,
            we == w * ext,
            nge == n * ge,
            nwe == n * we,
            ng == n * g,
            nw == n * w,
    ;
    assert(-we <= wx <= we) by (nonlinear_arith)
        requires
            wx == w * x,
            we == w * ext,
            -ext <= x <= ext,
            w >= 0,
    ;
    assert(0x400_0000 * u <= we) by (nonlinear_arith)
        requires
            we == w * ext,
            w >= 0x400_0000,
            ext >= u,
            u > 0,
    ;
    assert(0 <= nge <= 1024 * ge && 0 <= nwe && 0 <= ng <= 1024 * g && 0 <= nw && ge >= 0) by (nonlinear_arith)
        requires
            nge == n * ge,
            nwe == n * we,
            ng == n * g,
            nw == n * w,
            ge == g * ext,
            0 <= n <= 1024,
            g >= 0,
            w >= 0,
            we >= 0,
            ext >= 0,
    ;
    let s = c + p;
    let off = c2 - s;
    assert(c2u == cu + pu + off * u) by (nonlinear_arith)
        requires
            c2u == c2 * u,
            cu == c * u,
            pu == p * u,
            off == c2 - (c + p),
    ;
    let t = if s < 0 { -(cu + pu) } else { cu + pu };
    assert(-t <= 0x100_0000 * (off * u) <= t) by (nonlinear_arith)
        requires
            s >= 0 ==> -s <= 0x100_0000 * off <= s,
            s < 0 ==> s <= 0x100_0000 * off <= -s,
            s == c + p,
            t == if s < 0 { -(c * u + p * u) } else { c * u + p * u },
            u > 0,
    ;
    assert(-(2 * we) <= 0x100_0000 * (pu - wx) <= 2 * we);
    let most = 2 * ge + 2 * we;
    assert(t <= most);
    let r = off * u;
    assert(-most <= 0x100_0000 * r <= most);
    assert(-(nge + ge + nwe + we) <= 0x10_0000 * (c2u - (m + wx)) <= nge + ge + nwe + we);
    assert(-(ng + g + nw + w) <= 0x10_0000 * (v2 - (g + w)) <= ng + g + nw + w);
}

/// How far what pulls, as it is rounded, is off what it is exactly.
proof fn lemma_pull_is_near(places: Seq<Point>, i: int, n: nat, up: bool, extent: nat)
    requires
        0 <= i < places.len() <= 1024,
        n <= places.len(),
        within(places, extent),
        pow2(149) <= extent,
    ensures
        ({
            let pull = pull_of(places, i, n);
            let (g, m) = (total(places, i, n), moment(places, i, n, up));
            let (v, c) = (units(pull.weight) as int, signed_units(coordinate(pull.at, up)));
            let u = pow2(149) as int;
            &&& g >= 0
            &&& -(n * g) <= 0x10_0000 * (v - g) <= n * g
            &&& -(n * (g * extent)) <= 0x10_0000 * (c * u - m) <= n * (g * extent)
            &&& -(g * extent) <= m <= g * extent
        }),
    decreases n,
{
    let u = pow2(149) as int;
    lemma_pow2_pos(149);
    lemma_pow2_pos(184);
    if n == 0 {
        assert(units(zero()) == 0) by (nonlinear_arith)
            requires
                units(zero()) == 0 * pow2(0),
        ;
        assert(0 * 0 == 0int && 0 * (0 * (extent as int)) == 0 && 0 * u == 0 && 0 * (extent as int) == 0) by (nonlinear_arith);
    } else {
        let k = n - 1;
        lemma_pull_is_near(places, i, k as nat, up, extent);
        let before = pull_of(places, i, k as nat);
        let (g, m) = (total(places, i, k as nat), moment(places, i, k as nat, up));
        let e = extent as int;
        if k == i {
            assert(k * g <= n * g && k * (g * e) <= n * (g * e)) by (nonlinear_arith)
                requires
                    n == k + 1,
                    g >= 0,
                    e >= 0,
            ;
        } else {
            let q = places[k];
            assert(in_reach(q) && in_reach(places[i]));
            assert(units(q.x) <= extent && units(q.y) <= extent);
            let weight = weight_of(places[i], q);
            let w = units(weight);
            lemma_weight(places[i], q);
            lemma_in_reach(q.x);
            lemma_in_reach(q.y);
            lemma_pull(places, i, k as nat);
            let (x, at) = (coordinate(q, up), coordinate(before.at, up));
            lemma_product(weight, x, 159, 209, 219);
            let part = product_of(weight, x);
            rounding_is_near(w * units(x), pow2(149));
            lemma_pow2_strictly_increases(159, 184);
            lemma_pow2_adds(184, 60);
            lemma_pow2_pos(60);
            assert(units(before.weight) * pow2(60) <= pow2(184) * pow2(60)) by (nonlinear_arith)
                requires
                    units(before.weight) <= pow2(184),
            ;
            lemma_pow2_strictly_increases(219, 244);
            lemma_sum(at, part, 244);
            lemma_sum_sign(at, part);
            lemma_sum(before.weight, weight, 184);
            let (v, c) = (units(before.weight) as int, signed_units(at));
            let p = signed_units(part);
            let s = c + p;
            rounding_is_near((if s < 0 { -s } else { s }) as nat, 1);
            rounding_is_near((v + w) as nat, 1);
            let c2 = signed_units(sum_of(at, part));
            let v2 = units(sum_of(before.weight, weight)) as int;
            let sx = signed_units(x);
            let wn = w * units(x);
            lemma_signed_product(p, units(part) as int, w as int, sx, units(x) as int, u, weight.negative(), x.negative());
            assert(wn <= w * e) by (nonlinear_arith)
                requires
                    wn == w * units(x),
                    units(x) <= e,
            ;
            lemma2_to64();
            assert(pow2(26) == 0x400_0000);
            lemma_one_more(k, g, v, c, m, w as int, sx, p, c2, v2, e, u);
        }
    }
}

proof fn lemma_signed_product(p: int, pn: int, w: int, x: int, xn: int, u: int, wneg: bool, xneg: bool)
    requires
        !wneg,
        p == if wneg != xneg { -pn } else { pn },
        x == if xneg { -xn } else { xn },
    ensures
        p * u - w * x == pn * u - w * xn || p * u - w * x == -(pn * u - w * xn),
{
    if xneg {
        assert(p * u - w * x == -(pn * u - w * xn)) by (nonlinear_arith)
            requires
                p == -pn,
                x == -xn,
        ;
    }
}

/// A rounded sum has the sign of the exact one.
proof fn lemma_sum_sign(a: Quantity, b: Quantity)
    requires
        small(a, 244),
        small(b, 244),
    ensures
        ({
            let s = signed_units(a) + signed_units(b);
            let m = (if s < 0 { -s } else { s }) as nat;
            signed_units(sum_of(a, b)) == if s < 0 { -(nearest_value(m, 1) as int) } else { nearest_value(m, 1) as int }
        }),
{
    let s = signed_units(a) + signed_units(b);
    lemma_sum(a, b, 244);
    lemma2_to64();
    lemma_pow2_adds(1, 244);
    if s < 0 {
        rounded_within(true, (-s) as nat, 1, 245);
    } else if s > 0 {
        rounded_within(false, s as nat, 1, 245);
    } else {
        exact_values_stand(zero());
        assert(units(zero()) == 0) by (nonlinear_arith)
            requires
                units(zero()) == 0 * pow2(0),
        ;
    }
}

/// Where the weight of one place outdoes all others, they tip the balance its way.
proof fn lemma_outweighed(places: Seq<Point>, i: int, j: int, n: nat, up: bool, extent: nat, sign: int)
    requires
        0 <= i < places.len(),
        0 <= j < places.len(),
        i != j,
        n <= places.len(),
        within(places, extent),
        sign == 1 || sign == -1,
        forall|k: int|
            0 <= k < places.len() && k != i && k != j ==> #[trigger] weight_at(places, i, k) * (1024 * places.len())
                <= weight_at(places, i, j),
    ensures
        ({
            let a = signed_units(coordinate(places[i], up));
            let b = signed_units(coordinate(places[j], up));
            let (g, m) = (total(places, i, n), moment(places, i, n, up));
            let own = if j < n { weight_at(places, i, j) } else { 0 };
            let rest = g - own;
            &&& rest >= 0
            &&& rest * (1024 * places.len()) <= n * weight_at(places, i, j)
            &&& sign * (m - a * g) >= own * (sign * (b - a)) - (2 * extent) * rest
        }),
    decreases n,
{
    let a = signed_units(coordinate(places[i], up));
    let b = signed_units(coordinate(places[j], up));
    let wj = weight_at(places, i, j);
    let len = places.len() as int;
    if n == 0 {
        assert(0 * (1024 * len) == 0 && 0 * wj == 0 && a * 0 == 0 && sign * 0 == 0 && 0 * (sign * (b - a)) == 0 && (2
            * extent) * 0 == 0) by (nonlinear_arith);
    } else {
        let k = n - 1;
        lemma_outweighed(places, i, j, k as nat, up, extent, sign);
        let (g, m) = (total(places, i, k as nat), moment(places, i, k as nat, up));
        let own = if j < k { wj } else { 0 };
        let rest = g - own;
        assert(n * wj == k * wj + wj && wj >= 0) by (nonlinear_arith)
            requires
                n == k + 1,
                wj >= 0,
        ;
        if k != i {
            let w = weight_at(places, i, k);
            let x = signed_units(coordinate(places[k], up));
            let (d, e) = (b - a, extent as int);
            assert(m + w * x - a * (g + w) == (m - a * g) + w * (x - a)) by (nonlinear_arith);
            let (old, more) = (m - a * g, w * (x - a));
            assert(sign * (old + more) == sign * old + sign * more) by (nonlinear_arith);
            if k == j {
                assert(sign * (w * (x - a)) == w * (sign * d)) by (nonlinear_arith)
                    requires
                        d == x - a,
                ;
                assert(0 * (sign * d) == 0) by (nonlinear_arith);
                assert(sign * more == wj * (sign * d));
            } else {
                assert(units(coordinate(places[k], up)) <= extent && units(coordinate(places[i], up)) <= extent) by {
                    assert(in_reach(places[k]));
                    assert(units(places[k].x) <= extent && units(places[k].y) <= extent);
                    assert(units(places[i].x) <= extent && units(places[i].y) <= extent);
                }
                assert(sign * (w * (x - a)) >= -(2 * e * w)) by (nonlinear_arith)
                    requires
                        sign == 1 || sign == -1,
                        -(2 * e) <= x - a <= 2 * e,
                        w >= 0,
                ;
                assert((2 * e) * (rest + w) == (2 * e) * rest + 2 * e * w) by (nonlinear_arith);
                assert((rest + w) * (1024 * len) == rest * (1024 * len) + w * (1024 * len)) by (nonlinear_arith);
            }
        }
    }
}

/// What tips the balance shows in the centre, as it is rounded.
proof fn lemma_tipped(n: int, g: int, wj: int, rest: int, m: int, a: int, d: int, v: int, c: int, q: int, ext: int, u: int, sign: int)
    requires
        sign == 1 || sign == -1,
        1 <= n <= 1024,
        wj >= 1,
        rest >= 0,
        g == wj + rest,
        1024 * rest <= wj,
        ext >= u,
        u >= 0x1_0000_0000_0000_0000,
        -ext <= a <= ext,
        16 * (sign * d) >= ext,
        sign * (m - a * g) >= wj * (sign * d) - (2 * ext) * rest,
        -(n * g) <= 0x10_0000 * (v - g) <= n * g,
        -(n * (g * ext)) <= 0x10_0000 * (c * u - m) <= n * (g * ext),
        -(g * ext) <= m <= g * ext,
        (-v <= 2 * (q * v - c * u) <= v) || (c * u >= 0 && -(c * u) <= 0x100_0000 * (q * v - c * u) <= c * u) || (c * u < 0
            && c * u <= 0x100_0000 * (q * v - c * u) <= -(c * u)),
    ensures
        v > 0,
        22 * (sign * (q - a)) >= ext,
{
    let (ge, je, re, ve) = (g * ext, wj * ext, rest * ext, v * ext);
    let (cu, qv, ag, av) = (c * u, q * v, a * g, a * v);
    let (ng, nge) = (n * g, n * ge);
    assert(ge == je + re && 1024 * re <= je && je >= 1 && re >= 0) by (nonlinear_arith)
        requires
            ge == g * ext,
            je == wj * ext,
            re == rest * ext,
            g == wj + rest,
            1024 * rest <= wj,
            rest >= 0,
            wj >= 1,
            ext >= 1,
    ;
    assert(0 <= ng <= 1024 * g && 0 <= nge <= 1024 * ge) by (nonlinear_arith)
        requires
            ng == n * g,
            nge == n * ge,
            1 <= n <= 1024,
            g >= 0,
            ge >= 0,
    ;
    assert(v > 0);
    assert(-ge <= 1024 * (ve - ge) <= ge) by (nonlinear_arith)
        requires
            ve == v * ext,
            ge == g * ext,
            -g <= 1024 * (v - g) <= g,
            ext >= 1,
    ;
    let off = v - g;
    assert(av - ag == a * off && -ge <= 1024 * (a * off) <= ge) by (nonlinear_arith)
        requires
            av == a * v,
            ag == a * g,
            off == v - g,
            ge == g * ext,
            -g <= 1024 * off <= g,
            -ext <= a <= ext,
            g >= 0,
    ;
    let wd = wj * (sign * d);
    assert(16 * wd >= je) by (nonlinear_arith)
        requires
            wd == wj * (sign * d),
            je == wj * ext,
            16 * (sign * d) >= ext,
            wj >= 1,
    ;
    assert((2 * ext) * rest == 2 * re) by (nonlinear_arith)
        requires
            re == rest * ext,
    ;
    assert(0x1_0000_0000 * v <= ve) by (nonlinear_arith)
        requires
            ve == v * ext,
            ext >= 0x1_0000_0000,
            v > 0,
    ;
    assert(sign * (m - ag) == if sign == 1 { m - ag } else { ag - m }) by (nonlinear_arith)
        requires
            sign == 1 || sign == -1,
    ;
    let t = if sign == 1 { qv - av } else { av - qv };
    assert(22 * t >= ve);
    let z = sign * (q - a);
    assert(t == z * v) by (nonlinear_arith)
        requires
            sign == 1 || sign == -1,
            t == if sign == 1 { qv - av } else { av - qv },
            qv == q * v,
            av == a * v,
            z == sign * (q - a),
    ;
    assert(22 * z >= ext) by (nonlinear_arith)
        requires
            22 * (z * v) >= v * ext,
            v > 0,
    ;
}

/// The weights of places, by how far they are apart.
proof fn lemma_weights_by_distance(label: Point, near: Point, far: Point, times: nat)
    requires
        in_reach(label),
        in_reach(near),
        in_reach(far),
        256 * apart(label, near) >= pow2(149) * pow2(149),
        apart(label, far) >= (2 * times) * apart(label, near),
        times >= 1,
    ensures
        units(weight_of(label, far)) * times <= units(weight_of(label, near)),
{
    let u = pow2(149);
    lemma_pow2_pos(149);
    let (s, t) = (apart(label, near), apart(label, far));
    let (v, w) = (units(weight_of(label, near)) as int, units(weight_of(label, far)) as int);
    let n = times as int;
    assert(s > 0 && t >= s) by (nonlinear_arith)
        requires
            256 * s >= u * u,
            u > 0,
            t >= (2 * n) * s,
            n >= 1,
    ;
    weights_are_inverse_squares(label, near);
    weights_are_inverse_squares(label, far);
    let uuu = u * u * u;
    let (vs, wt) = (v * s, w * t);
    assert(uuu > 0) by (nonlinear_arith)
        requires
            uuu == u * u * u,
            u > 0,
    ;
    assert(wt < 2 * vs);
    let wn = w * n;
    assert(2 * (wn * s) <= wt) by (nonlinear_arith)
        requires
            wn == w * n,
            wt == w * t,
            t >= (2 * n) * s,
            w >= 0,
    ;
    assert(wn <= v) by (nonlinear_arith)
        requires
            2 * (wn * s) < 2 * (v * s),
            s > 0,
    ;
}

/// A place that is much nearer than all others outweighs them.
proof fn lemma_near_places_outweigh(places: Seq<Point>, i: int, j: int, up: bool, extent: nat, sign: int)
    requires
        0 <= i < places.len() <= 1024,
        0 <= j < places.len(),
        i != j,
        within(places, extent),
        16 * pow2(149) <= extent,
        sign == 1 || sign == -1,
        forall|k: int|
            0 <= k < places.len() && k != i && k != j ==> apart(places[i], #[trigger] places[k]) >= (2048 * places.len())
                * apart(places[i], places[j]),
        16 * (sign * (signed_units(coordinate(places[j], up)) - signed_units(coordinate(places[i], up)))) >= extent,
    ensures
        forall|k: int|
            0 <= k < places.len() && k != i && k != j ==> #[trigger] weight_at(places, i, k) * (1024 * places.len())
                <= weight_at(places, i, j),
{
    let u = pow2(149);
    let len = places.len();
    let d = signed_units(coordinate(places[j], up)) - signed_units(coordinate(places[i], up));
    let sd = sign * d;
    lemma_pow2_pos(149);
    assert(in_reach(places[i]) && in_reach(places[j]));
    let dx = signed_units(places[j].x) - signed_units(places[i].x);
    let dy = signed_units(places[j].y) - signed_units(places[i].y);
    assert(dx * dx >= 0 && dy * dy >= 0 && d * d >= u * u && u * u >= 0) by (nonlinear_arith)
        requires
            sd == sign * d,
            sign == 1 || sign == -1,
            16 * sd >= 16 * u,
            u > 0,
    ;
    let times = 1024 * len;
    assert forall|k: int| 0 <= k < len && k != i && k != j implies #[trigger] weight_at(places, i, k) * (1024 * len)
        <= weight_at(places, i, j) by {
        assert(in_reach(places[k]));
        assert(2 * times == 2048 * len);
        lemma_weights_by_distance(places[i], places[j], places[k], times);
    }
}

/// What a quotient counts, with its sign, and how near that is to the exact one.
proof fn lemma_signed_quotient(at: Quantity, weight: Quantity)
    requires
        weight.finite() && !weight.negative() && weight.rank() != 0 && units(weight) > 0,
        at.finite() && units(at) <= units(weight) * pow2(60),
    ensures
        ({
            let (q, v, c) = (signed_units(quotient_of(at, weight)), units(weight) as int, signed_units(at));
            let u = pow2(149) as int;
            (-v <= 2 * (q * v - c * u) <= v) || (c * u >= 0 && -(c * u) <= 0x100_0000 * (q * v - c * u) <= c * u) || (c * u < 0
                && c * u <= 0x100_0000 * (q * v - c * u) <= -(c * u))
        }),
{
    let u = pow2(149);
    let n = units(at) * u;
    lemma_pow2_pos(149);
    lemma_pow2_adds(60, 149);
    assert(n <= units(weight) * pow2(209)) by (nonlinear_arith)
        requires
            n == units(at) * u,
            units(at) <= units(weight) * pow2(60),
            pow2(209) == pow2(60) * u,
    ;
    rounded_within(at.negative() != weight.negative(), n, units(weight), 209);
    rounding_is_near(n, units(weight));
    let centre = quotient_of(at, weight);
    let (q, v, c) = (signed_units(centre), units(weight) as int, signed_units(at));
    let (cu, e) = (c * u, units(centre) * v);
    assert(n >= 0) by (nonlinear_arith)
        requires
            n == units(at) * u,
    ;
    if at.negative() {
        assert(cu == -(n as int) && q * v == -e) by (nonlinear_arith)
            requires
                cu == c * u,
                n == units(at) * u,
                e == units(centre) * v,
                c == -(units(at) as int),
                q == -(units(centre) as int),
        ;
    }
}

/// The centre of what pulls lies clearly on the side of the nearest place.
proof fn lemma_centre_is_tipped(places: Seq<Point>, i: int, j: int, up: bool, extent: nat, sign: int)
    requires
        0 <= i < places.len() <= 1024,
        0 <= j < places.len(),
        i != j,
        within(places, extent),
        16 * pow2(149) <= extent,
        sign == 1 || sign == -1,
        forall|k: int|
            0 <= k < places.len() && k != i && k != j ==> apart(places[i], #[trigger] places[k]) >= (2048 * places.len())
                * apart(places[i], places[j]),
        16 * (sign * (signed_units(coordinate(places[j], up)) - signed_units(coordinate(places[i], up)))) >= extent,
    ensures
        ({
            let pull = pull_of(places, i, places.len());
            let centre = quotient_of(coordinate(pull.at, up), pull.weight);
            &&& small(centre, 209)
            &&& 22 * (sign * (signed_units(centre) - signed_units(coordinate(places[i], up)))) >= extent
            &&& zero().less(pull.weight)
        }),
{
    let u = pow2(149);
    let len = places.len();
    let pull = pull_of(places, i, len);
    let (a, b) = (signed_units(coordinate(places[i], up)), signed_units(coordinate(places[j], up)));
    lemma_pow2_pos(149);
    lemma2_to64();
    lemma_pow2_strictly_increases(64, 149);
    assert(in_reach(places[i]) && in_reach(places[j]));
    lemma_near_places_outweigh(places, i, j, up, extent, sign);
    lemma_outweighed(places, i, j, len, up, extent, sign);
    lemma_pull_is_near(places, i, len, up, extent);
    lemma_pull(places, i, len);
    let (g, m) = (total(places, i, len), moment(places, i, len, up));
    let wj = weight_at(places, i, j);
    lemma_weight(places[i], places[j]);
    lemma_pow2_pos(26);
    let rest = g - wj;
    assert(1024 * rest <= wj) by (nonlinear_arith)
        requires
            rest * (1024 * len) <= len * wj,
            len > 0,
    ;
    let v = units(pull.weight) as int;
    let at = coordinate(pull.at, up);
    assert(v > 0) by {
        assert(len * g <= 1024 * g) by (nonlinear_arith)
            requires
                len <= 1024,
                g >= 0,
        ;
    }
    assert(pull.weight.rank() != 0) by {
        if pull.weight.rank() == 0 {
            assert(units(pull.weight) == 0) by (nonlinear_arith)
                requires
                    units(pull.weight) == 0 * pow2(0),
            ;
        }
    }
    lemma_centre(at, pull.weight);
    lemma_signed_quotient(at, pull.weight);
    assert(units(coordinate(places[i], up)) <= extent) by {
        assert(units(places[i].x) <= extent && units(places[i].y) <= extent);
    }
    lemma_tipped(
        len as int,
        g,
        wj,
        rest,
        m,
        a,
        b - a,
        v,
        signed_units(at),
        signed_units(quotient_of(at, pull.weight)),
        extent as int,
        u as int,
        sign,
    );
}

/// The way from the centre of what pulls, in one coordinate.
proof fn lemma_away(places: Seq<Point>, i: int, j: int, up: bool, extent: nat, sign: int)
    requires
        0 <= i < places.len() <= 1024,
        0 <= j < places.len(),
        i != j,
        within(places, extent),
        16 * pow2(149) <= extent,
        sign == 1 || sign == -1,
        forall|k: int|
            0 <= k < places.len() && k != i && k != j ==> apart(places[i], #[trigger] places[k]) >= (2048 * places.len())
                * apart(places[i], places[j]),
        16 * (sign * (signed_units(coordinate(places[j], up)) - signed_units(coordinate(places[i], up)))) >= extent,
    ensures
        ({
            let pull = pull_of(places, i, places.len());
            let away = difference_of(coordinate(places[i], up), quotient_of(coordinate(pull.at, up), pull.weight));
            &&& small(away, 210)
            &&& 2 * units(away) >= pow2(149)
            &&& away.negative() <==> sign == 1
            &&& zero().less(pull.weight)
        }),
{
    let pull = pull_of(places, i, places.len());
    let (pa, centre) = (coordinate(places[i], up), quotient_of(coordinate(pull.at, up), pull.weight));
    lemma_centre_is_tipped(places, i, j, up, extent, sign);
    assert(in_reach(places[i]));
    lemma_in_reach(places[i].x);
    lemma_in_reach(places[i].y);
    lemma_clear_difference(pa, centre, extent, sign);
}

proof fn lemma_clear_difference(a: Quantity, b: Quantity, extent: nat, sign: int)
    requires
        small(a, 209),
        small(b, 209),
        16 * pow2(149) <= extent,
        sign == 1 || sign == -1,
        22 * (sign * (signed_units(b) - signed_units(a))) >= extent,
    ensures
        small(difference_of(a, b), 210),
        2 * units(difference_of(a, b)) >= pow2(149),
        difference_of(a, b).negative() <==> sign == 1,
{
    lemma_pow2_pos(149);
    lemma_opposites_count_alike(b);
    lemma_pow2_strictly_increases(209, 244);
    lemma_difference(a, b, 209);
    lemma_sum_sign(a, opposite(b));
    lemma_sum(a, opposite(b), 209);
    let (x, y) = (signed_units(a), signed_units(b));
    let s = x - y;
    let size = (if s < 0 { -s } else { s }) as nat;
    rounding_is_near(size, 1);
    assert(nearest_value(size, 1) * 1 == nearest_value(size, 1)) by (nonlinear_arith);
    assert(sign * (y - x) == if sign == 1 { y - x } else { x - y }) by (nonlinear_arith)
        requires
            sign == 1 || sign == -1,
    ;
}

/// A vector that is long enough in one coordinate keeps the sign of that coordinate when it is brought to the
/// length 1.
pub(crate) proof fn lemma_kept_sign(v: Point, up: bool)
    requires
        small(v.x, 210),
        small(v.y, 210),
        2 * units(coordinate(v, up)) >= pow2(149),
    ensures
        hair().less(length_of(v)),
        ({
            let c = quotient_of(coordinate(v, up), length_of(v));
            &&& coordinate(v, up).negative() ==> c.less(zero())
            &&& !coordinate(v, up).negative() ==> zero().less(c)
        }),
{
    let u = pow2(149);
    let (x, y) = (units(v.x), units(v.y));
    let c = coordinate(v, up);
    let s = square_of(v);
    lemma_square(v);
    lemma_pow2_pos(149);
    lemma_pow2_pos(147);
    lemma2_to64();
    lemma_pow2_adds(2, 147);
    lemma_pow2_adds(1, 148);
    lemma_pow2_adds(149, 147);
    let k = units(c);
    assert(k * k >= u * pow2(147)) by (nonlinear_arith)
        requires
            2 * k >= u,
            u == 4 * pow2(147),
    ;
    let (a, b) = (nearest_value(x * x, u), nearest_value(y * y, u));
    rounded_above(k * k, u, 147);
    assert(a + b >= pow2(147));
    rounded_above(a + b, 1, 147);
    lemma_one_and_hair();
    let len = length_of(v);
    assert(units(s) >= pow2(147));
    assert(s.rank() != 0) by {
        if s.rank() == 0 {
            assert(units(s) == 0) by (nonlinear_arith)
                requires
                    units(s) == 0 * pow2(0),
            ;
        }
    }
    roots_are_near(s);
    roots_are_numbers(s);
    let l = units(len);
    let ll = l * l;
    let su = units(s) * u;
    lemma_pow2_adds(140, 140);
    lemma_pow2_adds(140, 9);
    lemma_pow2_adds(140, 7);
    lemma_pow2_pos(140);
    assert(su > 4 * (pow2(140) * pow2(140))) by (nonlinear_arith)
        requires
            su == units(s) * u,
            units(s) >= pow2(147),
            pow2(147) == pow2(140) * pow2(7),
            u == pow2(140) * pow2(9),
            pow2(7) == 128,
            pow2(9) == 512,
            pow2(140) > 0,
    ;
    assert(ll > pow2(140) * pow2(140));
    if !hair().less(len) {
        if len.finite() {
            lemma_units_ascend(len, hair());
            assert(l * l <= pow2(140) * pow2(140)) by (nonlinear_arith)
                requires
                    l <= pow2(140),
            ;
        }
    }
    lemma_length_is_near(v);
    let t = x * x + y * y;
    lemma_component(c, len, t);
    lemma_pow2_adds(210, 210);
    lemma_pow2_adds(211, 211);
    lemma_pow2_adds(2, 420);
    assert(x * x <= pow2(420) && y * y <= pow2(420)) by (nonlinear_arith)
        requires
            x <= pow2(210),
            y <= pow2(210),
            pow2(420) == pow2(210) * pow2(210),
    ;
    lemma_pow2_pos(211);
    assert(l <= pow2(211)) by (nonlinear_arith)
        requires
            l * l <= 4 * pow2(420),
            4 * pow2(420) == pow2(211) * pow2(211),
            l >= 0,
    ;
    lemma_pow2_adds(148, 149);
    lemma_pow2_strictly_increases(211, 297);
    assert(k * u >= l * pow2(0)) by (nonlinear_arith)
        requires
            2 * k >= u,
            u == 2 * pow2(148),
            pow2(297) == pow2(148) * u,
            l <= pow2(297),
            pow2(0) == 1,
    ;
    lemma_pow2_pos(139);
    rounded_above(k * u, l, 0);
    let part = quotient_of(c, len);
    assert(part.rank() != 0) by {
        if part.rank() == 0 {
            assert(units(part) == 0) by (nonlinear_arith)
                requires
                    units(part) == 0 * pow2(0),
            ;
        }
    }
    assert(len.rank() != 0) by {
        if len.rank() == 0 {
            assert(units(len) == 0) by (nonlinear_arith)
                requires
                    units(len) == 0 * pow2(0),
            ;
        }
    }
    lemma_pow2_adds(1, 149);
    assert(k * u <= l * pow2(150)) by (nonlinear_arith)
        requires
            k * u <= 2 * (l * u),
            pow2(150) == 2 * u,
    ;
    rounded_within(c.negative() != len.negative(), k * u, l, 150);
}

/// A label goes away from a place that is much nearer than all others: to the left where that place lies
/// clearly to the right, to the right where it lies to the left, and so up and down. (How much nearer is
/// enough goes by the number of places, how clearly by how far out they lie.)
pub proof fn labels_go_away_from_the_nearest(places: Seq<Point>, i: int, j: int, extent: nat)
    requires
        0 <= i < places.len() <= 1024,
        0 <= j < places.len(),
        i != j,
        within(places, extent),
        16 * pow2(149) <= extent,
        forall|k: int|
            0 <= k < places.len() && k != i && k != j ==> apart(places[i], #[trigger] places[k]) >= (2048 * places.len())
                * apart(places[i], places[j]),
    ensures
        16 * (signed_units(places[j].x) - signed_units(places[i].x)) >= extent ==> push_of(places, i).x.less(zero()),
        16 * (signed_units(places[i].x) - signed_units(places[j].x)) >= extent ==> zero().less(push_of(places, i).x),
        16 * (signed_units(places[j].y) - signed_units(places[i].y)) >= extent ==> push_of(places, i).y.less(zero()),
        16 * (signed_units(places[i].y) - signed_units(places[j].y)) >= extent ==> zero().less(push_of(places, i).y),
{
    lemma_pushed_away(places, i, j, false, extent, 1);
    lemma_pushed_away(places, i, j, false, extent, -1);
    lemma_pushed_away(places, i, j, true, extent, 1);
    lemma_pushed_away(places, i, j, true, extent, -1);
}

proof fn lemma_pushed_away(places: Seq<Point>, i: int, j: int, up: bool, extent: nat, sign: int)
    requires
        0 <= i < places.len() <= 1024,
        0 <= j < places.len(),
        i != j,
        within(places, extent),
        16 * pow2(149) <= extent,
        sign == 1 || sign == -1,
        forall|k: int|
            0 <= k < places.len() && k != i && k != j ==> apart(places[i], #[trigger] places[k]) >= (2048 * places.len())
                * apart(places[i], places[j]),
    ensures
        16 * (sign * (signed_units(coordinate(places[j], up)) - signed_units(coordinate(places[i], up)))) >= extent ==> {
            let c = coordinate(push_of(places, i), up);
            if sign == 1 {
                c.less(zero())
            } else {
                zero().less(c)
            }
        },
{
    if 16 * (sign * (signed_units(coordinate(places[j], up)) - signed_units(coordinate(places[i], up)))) >= extent {
        let pull = pull_of(places, i, places.len());
        lemma_away(places, i, j, up, extent, sign);
        lemma_pull(places, i, places.len());
        assert(in_reach(places[i]));
        lemma_in_reach(places[i].x);
        lemma_in_reach(places[i].y);
        assert(units(pull.weight) > 0) by {
            lemma_positive_counts(pull.weight);
        }
        lemma_centre(pull.at.x, pull.weight);
        lemma_centre(pull.at.y, pull.weight);
        lemma_difference(places[i].x, quotient_of(pull.at.x, pull.weight), 209);
        lemma_difference(places[i].y, quotient_of(pull.at.y, pull.weight), 209);
        let away = subtracted(places[i], divided(pull.at, pull.weight));
        lemma_kept_sign(away, up);
    }
}

} // verus!
