//! Which way the camera goes.
use crate::arithmetic::{
    difference_of, exact_results_stand, lemma_nearest_scales, opposite, product_of, products_commute, quotient_of,
    roots_are_numbers, signed_units, sum_of, sums_commute, units,
};
use crate::arithmetic_laws::{
    adding_nothing_changes_nothing, lemma_units_ascend, nothing_multiplied_is_nothing, products_ascend,
    rounding_keeps_order, sums_ascend, times_one_changes_nothing,
};
use crate::camera::{
    after_arrows, after_scroll, along, column_scrolled, dragged, in_lines, keyed_zoom, largest_scale, least_scale, pan_speed,
    pinched, scrolled, zoomed, zooming_in_comes_nearer, Arrows, Camera, Wheel,
};
use crate::geometry::{added, divided, length_of, origin, square_of};
use crate::label_laws::{lemma_opposites_count_alike, lemma_product, small};
use crate::palette::one;
use crate::quantity::{exponent, significand, zero, Quantity};
use crate::rounding::{roots_are_near, rounded_above, rounded_within};
use crate::world::Point;
use vstd::arithmetic::power2::{lemma2_to64, lemma_pow2_adds, lemma_pow2_pos, lemma_pow2_strictly_increases, pow2};
use vstd::prelude::*;

verus! {

/// Adding something that is not below 0 leads no lower, and adding something that is not above 0 no higher.
pub proof fn sums_go_the_way_of_what_is_added(a: Quantity, b: Quantity)
    requires
        a.finite(),
    ensures
        zero().at_most(b) ==> a.at_most(sum_of(a, b)),
        b.at_most(zero()) ==> sum_of(a, b).at_most(a),
{
    if b.finite() && !b.nan() {
        sums_commute(a, b);
        sums_commute(a, zero());
        if a.rank() != 0 {
            adding_nothing_changes_nothing(a);
        } else {
            assert(units(a) == 0 && units(zero()) == 0) by (nonlinear_arith)
                requires
                    units(a) == 0 * pow2(0),
                    units(zero()) == 0 * pow2(0),
            ;
            assert(sum_of(a, zero()).rank() == 0);
        }
        if zero().at_most(b) {
            sums_ascend(zero(), b, a);
        }
        if b.at_most(zero()) {
            sums_ascend(b, zero(), a);
        }
    }
}

/// Taking away something that is not below 0 leads no higher, and taking away something that is not above 0 no
/// lower.
pub proof fn differences_go_against_what_is_taken(a: Quantity, b: Quantity)
    requires
        a.finite(),
    ensures
        zero().at_most(b) ==> difference_of(a, b).at_most(a),
        b.at_most(zero()) ==> a.at_most(difference_of(a, b)),
{
    let o = opposite(b);
    assert(!b.nan() ==> !o.nan() && o.rank() == -b.rank()) by {
        if b.negative() {
            assert(b.bits / 0x80_0000 == o.bits / 0x80_0000 + 0x100);
        } else {
            assert(o.bits / 0x80_0000 == b.bits / 0x80_0000 + 0x100);
        }
        assert(o.bits % 0x80_0000 == b.bits % 0x80_0000);
    }
    sums_go_the_way_of_what_is_added(a, o);
}

/// A product with something above 0 is on the same side of 0, or at it.
pub proof fn products_keep_their_side(a: Quantity, b: Quantity)
    requires
        !a.nan(),
        zero().less(b),
        b.finite(),
    ensures
        !product_of(a, b).nan(),
        zero().at_most(a) ==> zero().at_most(product_of(a, b)),
        a.at_most(zero()) ==> product_of(a, b).at_most(zero()),
{
    lemma_pow2_pos(149);
    if a.finite() {
        rounding_keeps_order(units(a) * units(b), units(a) * units(b), pow2(149));
        if a.rank() == 0 {
            nothing_multiplied_is_nothing(a, b);
        }
    }
}

/// Dragging the map with the mouse moves the camera the other way: to the left where the mouse goes to the right,
/// and up where it goes down, as the map is seen from above with up as the greater coordinate.
pub proof fn dragging_moves_against_the_mouse(at: Point, motions: Seq<Point>, by: Point, scale: Quantity)
    requires
        zero().less(scale),
        scale.finite(),
        !by.x.nan(),
        !by.y.nan(),
        dragged(at, motions, scale).x.finite(),
        dragged(at, motions, scale).y.finite(),
    ensures
        ({
            let before = dragged(at, motions, scale);
            let after = dragged(at, motions.push(by), scale);
            &&& zero().at_most(by.x) ==> after.x.at_most(before.x)
            &&& by.x.at_most(zero()) ==> before.x.at_most(after.x)
            &&& zero().at_most(by.y) ==> before.y.at_most(after.y)
            &&& by.y.at_most(zero()) ==> after.y.at_most(before.y)
        }),
        dragged(at, Seq::empty(), scale) == at,
{
    let before = dragged(at, motions, scale);
    assert(motions.push(by).drop_last() =~= motions);
    products_keep_their_side(by.x, scale);
    products_keep_their_side(by.y, scale);
    differences_go_against_what_is_taken(before.x, product_of(by.x, scale));
    sums_go_the_way_of_what_is_added(before.y, product_of(by.y, scale));
}

/// Scrolling without a control key moves the camera along sideways, and down where the wheel goes up. With a control
/// key it brings the camera nearer where the wheel goes up, and takes it away where it goes down.
pub proof fn scrolling_goes_its_way(camera: Camera, by: Point)
    requires
        least_scale().at_most(camera.scale),
        camera.scale.at_most(largest_scale()),
        camera.at.x.finite(),
        camera.at.y.finite(),
        !by.x.nan(),
        !by.y.nan(),
    ensures
        ({
            let after = after_scroll(camera, false, by).at;
            &&& zero().at_most(by.x) ==> camera.at.x.at_most(after.x)
            &&& by.x.at_most(zero()) ==> after.x.at_most(camera.at.x)
            &&& zero().at_most(by.y) ==> after.y.at_most(camera.at.y)
            &&& by.y.at_most(zero()) ==> camera.at.y.at_most(after.y)
        }),
        zero().at_most(by.y) ==> after_scroll(camera, true, by).scale.at_most(camera.scale),
        by.y.at_most(zero()) ==> camera.scale.at_most(after_scroll(camera, true, by).scale),
{
    let step = Quantity { bits: 0x4270_0000 };
    let tenth = Quantity { bits: 0x3dcc_cccd };
    products_keep_their_side(by.x, step);
    products_keep_their_side(by.y, step);
    products_keep_their_side(product_of(by.x, step), camera.scale);
    products_keep_their_side(product_of(by.y, step), camera.scale);
    sums_go_the_way_of_what_is_added(camera.at.x, product_of(product_of(by.x, step), camera.scale));
    differences_go_against_what_is_taken(camera.at.y, product_of(product_of(by.y, step), camera.scale));
    products_keep_their_side(by.y, tenth);
    zooming_in_comes_nearer(camera.scale, product_of(by.y, tenth));
}

/// Wheels that report pixels count a hundredth of what wheels that report lines do, and all of them add up.
pub proof fn wheels_add_up(wheel: Seq<Wheel>, next: Wheel)
    ensures
        next.pixels ==> in_lines(next) == divided(next.by, Quantity { bits: 0x42c8_0000 }),
        !next.pixels ==> in_lines(next) == next.by,
        scrolled(wheel.push(next)) == added(scrolled(wheel), in_lines(next)),
        scrolled(Seq::empty()) == origin(),
{
    assert(wheel.push(next).drop_last() =~= wheel);
}

/// With a control key held, the key `=` brings the camera nearer and the key `-` takes it away; without it neither
/// does anything.
pub proof fn keys_zoom_their_way(scale: Quantity, seconds: Quantity)
    requires
        least_scale().at_most(scale),
        scale.at_most(largest_scale()),
        zero().at_most(seconds),
    ensures
        keyed_zoom(scale, true, false, true, seconds).at_most(scale),
        scale.at_most(keyed_zoom(scale, true, true, false, seconds)),
        keyed_zoom(scale, true, false, false, seconds) == scale,
        forall|minus: bool, equal: bool| #[trigger] keyed_zoom(scale, false, minus, equal, seconds) == scale,
{
    let o = opposite(seconds);
    assert(!o.nan() && o.at_most(zero())) by {
        if seconds.negative() {
            assert(seconds.bits / 0x80_0000 == o.bits / 0x80_0000 + 0x100);
        } else {
            assert(o.bits / 0x80_0000 == seconds.bits / 0x80_0000 + 0x100);
        }
        assert(o.bits % 0x80_0000 == seconds.bits % 0x80_0000);
    }
    zooming_in_comes_nearer(scale, seconds);
    zooming_in_comes_nearer(scale, o);
}

/// Spreading two fingers brings the camera nearer, and closing them takes it away.
pub proof fn pinches_zoom_their_way(scale: Quantity, pinches: Seq<Quantity>, next: Quantity)
    requires
        least_scale().at_most(pinched(scale, pinches)),
        pinched(scale, pinches).at_most(largest_scale()),
    ensures
        zero().at_most(next) ==> pinched(scale, pinches.push(next)).at_most(pinched(scale, pinches)),
        next.at_most(zero()) ==> pinched(scale, pinches).at_most(pinched(scale, pinches.push(next))),
        pinched(scale, Seq::empty()) == scale,
{
    assert(pinches.push(next).drop_last() =~= pinches);
    zooming_in_comes_nearer(pinched(scale, pinches), next);
}

/// The limits between which the camera comes nearer and goes away: a quarter and 4.
pub proof fn limits_of_the_camera()
    ensures
        least_scale() == (Quantity { bits: 0x3e80_0000 }),
        largest_scale() == (Quantity { bits: 0x4080_0000 }),
{
}

/// Paging down scrolls the column on, and paging up back, never beyond its top.
pub proof fn columns_scroll_their_way(at: Quantity, seconds: Quantity)
    requires
        at.finite(),
        zero().at_most(at),
        zero().at_most(seconds),
    ensures
        at.at_most(column_scrolled(at, true, false, seconds)),
        zero().at_most(column_scrolled(at, false, true, seconds)),
        column_scrolled(at, false, true, seconds).at_most(at) || column_scrolled(at, false, true, seconds) == zero(),
        column_scrolled(at, false, false, seconds) == at,
{
    let speed = Quantity { bits: 0x4416_0000 };
    products_commute(speed, seconds);
    products_keep_their_side(seconds, speed);
    sums_go_the_way_of_what_is_added(at, product_of(speed, seconds));
    differences_go_against_what_is_taken(at, product_of(speed, seconds));
}

proof fn lemma_unit_products()
    ensures
        product_of(one(), one()) == one(),
        product_of(opposite(one()), opposite(one())) == one(),
        product_of(zero(), zero()).rank() == 0,
        !product_of(zero(), zero()).negative(),
{
    let m = opposite(one());
    times_one_changes_nothing(one());
    lemma_opposites_count_alike(one());
    nothing_multiplied_is_nothing(zero(), zero());
}

/// The length of a way along the arrows is above 0 and finite.
proof fn lemma_way_has_a_length(x: Quantity, y: Quantity)
    requires
        x == zero() || x == one() || x == opposite(one()),
        y == zero() || y == one() || y == opposite(one()),
        !(x == zero() && y == zero()),
    ensures
        ({
            let part = quotient_of(one(), length_of(Point { x, y }));
            zero().less(part) && part.finite() && pow2(147) <= units(part) <= pow2(151)
        }),
{
    let v = Point { x, y };
    lemma_unit_products();
    let s = square_of(v);
    let (a, b) = (product_of(x, x), product_of(y, y));
    adding_nothing_changes_nothing(one());
    sums_commute(one(), zero());
    let two = Quantity { bits: 0x4000_0000 };
    lemma_two();
    assert(zero() == a || one() == a);
    assert(zero() == b || one() == b);
    assert(s == one() || s == two);
    lemma_counts();
    lemma_pow2_pos(149);
    let u = pow2(149);
    roots_are_numbers(s);
    roots_are_near(s);
    let len = length_of(v);
    let l = units(len);
    let ll = l * l;
    let su = units(s) * u;
    let uu = u * u;
    assert(uu > 0 && (su == uu || su == 2 * uu)) by (nonlinear_arith)
        requires
            uu == u * u,
            u > 0,
            su == units(s) * u,
            units(s) == u || units(s) == 2 * u,
    ;
    assert(2 * ll >= uu && ll <= 4 * uu);
    assert(u <= 2 * l && l <= 2 * u) by (nonlinear_arith)
        requires
            2 * (l * l) >= u * u,
            l * l <= 4 * (u * u),
            u > 0,
            l >= 0,
    ;
    lemma_pow2_adds(1, 149);
    lemma2_to64();
    assert(uu <= l * pow2(150)) by (nonlinear_arith)
        requires
            uu == u * u,
            u <= 2 * l,
            pow2(150) == 2 * u,
            u > 0,
    ;
    assert(len.rank() != 0) by {
        if len.rank() == 0 {
            assert(units(len) == 0) by (nonlinear_arith)
                requires
                    units(len) == 0 * pow2(0),
            ;
        }
    }
    assert(len.finite());
    rounded_within(false, uu, l, 150);
    lemma_pow2_adds(2, 147);
    lemma_pow2_strictly_increases(150, 151);
    lemma_pow2_pos(147);
    assert(uu >= l * pow2(147)) by (nonlinear_arith)
        requires
            uu == u * u,
            l <= 2 * u,
            u == 4 * pow2(147),
    ;
    rounded_above(uu, l, 147);
    let part = quotient_of(one(), len);
    assert(part.rank() != 0) by {
        if part.rank() == 0 {
            assert(units(part) == 0) by (nonlinear_arith)
                requires
                    units(part) == 0 * pow2(0),
            ;
        }
    }
}

proof fn lemma_two()
    ensures
        sum_of(one(), one()) == (Quantity { bits: 0x4000_0000 }),
{
    let two = Quantity { bits: 0x4000_0000 };
    lemma_counts();
    exact_results_stand(two);
}

proof fn lemma_counts()
    ensures
        units(one()) == pow2(149),
        units(Quantity { bits: 0x4000_0000 }) == 2 * pow2(149),
        units(Quantity { bits: 0x4080_0000 }) == 4 * pow2(149),
{
    lemma2_to64();
    lemma_pow2_adds(23, 126);
    lemma_pow2_adds(23, 127);
    lemma_pow2_adds(23, 128);
    lemma_pow2_adds(1, 149);
    lemma_pow2_adds(2, 149);
    assert(significand(one().bits) == 0x80_0000 && exponent(one().bits) == -23);
    let (two, four) = (Quantity { bits: 0x4000_0000 }, Quantity { bits: 0x4080_0000 });
    assert(significand(two.bits) == 0x80_0000 && exponent(two.bits) == -22);
    assert(significand(four.bits) == 0x80_0000 && exponent(four.bits) == -21);
}

/// How far the camera goes along one axis.
proof fn lemma_gone(at: Quantity, way: Quantity, part: Quantity, scale: Quantity, seconds: Quantity)
    requires
        at.finite(),
        way == zero() || way == one() || way == opposite(one()),
        zero().less(part) && part.finite(),
        least_scale().at_most(scale),
        scale.at_most(largest_scale()),
        zero().less(seconds),
        seconds.finite(),
    ensures
        ({
            let after = sum_of(at, product_of(product_of(product_of(product_of(way, part), pan_speed()), scale), seconds));
            &&& way != opposite(one()) ==> at.at_most(after)
            &&& way != one() ==> after.at_most(at)
        }),
{
    let a = product_of(way, part);
    let b = product_of(a, pan_speed());
    let c = product_of(b, scale);
    products_keep_their_side(way, part);
    products_keep_their_side(a, pan_speed());
    products_keep_their_side(b, scale);
    products_keep_their_side(c, seconds);
    sums_go_the_way_of_what_is_added(at, product_of(c, seconds));
}

/// The arrow keys move the camera their way: the right one to the right, the left one to the left, up up and down
/// down, and both of a pair nowhere along their axis. They never zoom.
pub proof fn arrows_move_their_way(camera: Camera, arrows: Arrows, seconds: Quantity)
    requires
        camera.at.x.finite(),
        camera.at.y.finite(),
        least_scale().at_most(camera.scale),
        camera.scale.at_most(largest_scale()),
        zero().less(seconds),
        seconds.finite(),
    ensures
        ({
            let after = after_arrows(camera, arrows, seconds);
            &&& after.scale == camera.scale
            &&& !(arrows.left && !arrows.right) ==> camera.at.x.at_most(after.at.x)
            &&& !(arrows.right && !arrows.left) ==> after.at.x.at_most(camera.at.x)
            &&& !(arrows.down && !arrows.up) ==> camera.at.y.at_most(after.at.y)
            &&& !(arrows.up && !arrows.down) ==> after.at.y.at_most(camera.at.y)
        }),
{
    let (x, y) = (along(arrows.right, arrows.left), along(arrows.up, arrows.down));
    assert(zero() != one() && zero() != opposite(one()));
    if !(x == zero() && y == zero()) {
        lemma_way_has_a_length(x, y);
        let part = quotient_of(one(), length_of(Point { x, y }));
        lemma_gone(camera.at.x, x, part, camera.scale, seconds);
        lemma_gone(camera.at.y, y, part, camera.scale, seconds);
    }
}

/// How large a product is at least and at most.
proof fn lemma_sized(a: Quantity, b: Quantity, x: nat, y: nat, e: nat, f: nat)
    requires
        small(a, e),
        small(b, f),
        units(a) >= pow2(x),
        units(b) >= pow2(y),
        x + y >= 149,
        172 <= e + f <= 425,
    ensures
        small(product_of(a, b), (e + f - 149) as nat),
        units(product_of(a, b)) >= pow2((x + y - 149) as nat),
        product_of(a, b).negative() == (a.negative() != b.negative()),
{
    lemma_product(a, b, e, f, (e + f - 149) as nat);
    lemma_pow2_pos(149);
    lemma_pow2_adds(x, y);
    lemma_pow2_adds(149, (x + y - 149) as nat);
    assert(units(a) * units(b) >= pow2(149) * pow2((x + y - 149) as nat)) by (nonlinear_arith)
        requires
            units(a) >= pow2(x),
            units(b) >= pow2(y),
            pow2(x) * pow2(y) == pow2(149) * pow2((x + y - 149) as nat),
    ;
    rounded_above(units(a) * units(b), pow2(149), (x + y - 149) as nat);
}

/// What a quantity between two powers of two counts.
pub(crate) proof fn lemma_between(q: Quantity, low: Quantity, high: Quantity)
    requires
        low.at_most(q),
        q.at_most(high),
        low.finite(),
        high.finite(),
        !low.negative(),
    ensures
        q.finite(),
        units(low) <= units(q) <= units(high),
{
    lemma_units_ascend(low, q);
    lemma_units_ascend(q, high);
    if q.negative() {
        assert(q.rank() == 0 && low.rank() == 0);
        assert(units(q) == 0 && units(low) == 0) by (nonlinear_arith)
            requires
                units(q) == 0 * pow2(0),
                units(low) == 0 * pow2(0),
        ;
    }
}

/// The powers of two that bound what the camera is moved by: a thousandth or so, a quarter, 1, 4 and 1024.
proof fn lemma_powers()
    ensures
        units(Quantity { bits: 0x3a80_0000 }) == pow2(139),
        units(least_scale()) == pow2(147),
        units(one()) == pow2(149),
        units(largest_scale()) == pow2(151),
        units(Quantity { bits: 0x4480_0000 }) == pow2(159),
        pow2(158) <= units(pan_speed()) <= pow2(159),
        pow2(154) <= units(Quantity { bits: 0x4270_0000 }) <= pow2(155),
{
    lemma2_to64();
    let (a, b, c, d) = (
        Quantity { bits: 0x3a80_0000 },
        least_scale(),
        largest_scale(),
        Quantity { bits: 0x4480_0000 },
    );
    assert(significand(a.bits) == 0x80_0000 && exponent(a.bits) == -33);
    assert(significand(b.bits) == 0x80_0000 && exponent(b.bits) == -25);
    assert(significand(one().bits) == 0x80_0000 && exponent(one().bits) == -23);
    assert(significand(c.bits) == 0x80_0000 && exponent(c.bits) == -21);
    assert(significand(d.bits) == 0x80_0000 && exponent(d.bits) == -13);
    let (v, w) = (pan_speed(), Quantity { bits: 0x4270_0000 });
    assert(significand(v.bits) == 0xe1_0000 && exponent(v.bits) == -14);
    assert(significand(w.bits) == 0xf0_0000 && exponent(w.bits) == -18);
    lemma_pow2_adds(23, 116);
    lemma_pow2_adds(23, 124);
    lemma_pow2_adds(23, 126);
    lemma_pow2_adds(23, 128);
    lemma_pow2_adds(23, 136);
    lemma_pow2_adds(23, 135);
    lemma_pow2_adds(24, 135);
    lemma_pow2_adds(23, 131);
    lemma_pow2_adds(24, 131);
    lemma_pow2_pos(135);
    lemma_pow2_pos(131);
    let (p, q) = (pow2(135), pow2(131));
    assert(0x80_0000 * p <= 0xe1_0000 * p <= 0x100_0000 * p && 0x80_0000 * q <= 0xf0_0000 * q <= 0x100_0000 * q)
        by (nonlinear_arith)
        requires
            p > 0,
            q > 0,
    ;
}

/// What counts something is on its side of 0.
proof fn lemma_sided(q: Quantity, e: nat)
    requires
        q.finite(),
        units(q) >= pow2(e),
    ensures
        q.negative() ==> q.less(zero()),
        !q.negative() ==> zero().less(q),
{
    lemma_pow2_pos(e);
    if q.rank() == 0 {
        assert(units(q) == 0) by (nonlinear_arith)
            requires
                units(q) == 0 * pow2(0),
        ;
    }
}

/// From the middle of the map, an arrow key that is held for a thousandth of a second or more really moves the
/// camera.
pub proof fn arrows_really_move(camera: Camera, seconds: Quantity)
    requires
        camera.at == origin(),
        least_scale().at_most(camera.scale),
        camera.scale.at_most(largest_scale()),
        (Quantity { bits: 0x3a80_0000 }).at_most(seconds),
        seconds.at_most(Quantity { bits: 0x4480_0000 }),
    ensures
        ({
            let right = Arrows { up: false, down: false, left: false, right: true };
            let left = Arrows { up: false, down: false, left: true, right: false };
            let up = Arrows { up: true, down: false, left: false, right: false };
            let down = Arrows { up: false, down: true, left: false, right: false };
            &&& zero().less(after_arrows(camera, right, seconds).at.x)
            &&& after_arrows(camera, left, seconds).at.x.less(zero())
            &&& zero().less(after_arrows(camera, up, seconds).at.y)
            &&& after_arrows(camera, down, seconds).at.y.less(zero())
        }),
{
    let (p, m) = (one(), opposite(one()));
    assert(zero() != p && zero() != m && p != m);
    lemma_really_gone(p, zero(), camera.scale, seconds);
    lemma_really_gone(m, zero(), camera.scale, seconds);
    lemma_really_gone(zero(), p, camera.scale, seconds);
    lemma_really_gone(zero(), m, camera.scale, seconds);
}

proof fn lemma_really_gone(x: Quantity, y: Quantity, scale: Quantity, seconds: Quantity)
    requires
        x == zero() || x == one() || x == opposite(one()),
        y == zero() || y == one() || y == opposite(one()),
        (x == zero()) != (y == zero()),
        least_scale().at_most(scale),
        scale.at_most(largest_scale()),
        (Quantity { bits: 0x3a80_0000 }).at_most(seconds),
        seconds.at_most(Quantity { bits: 0x4480_0000 }),
    ensures
        ({
            let way = if x == zero() { y } else { x };
            let part = quotient_of(one(), length_of(Point { x, y }));
            let after = sum_of(
                zero(),
                product_of(product_of(product_of(product_of(way, part), pan_speed()), scale), seconds),
            );
            &&& way == one() ==> zero().less(after)
            &&& way == opposite(one()) ==> after.less(zero())
        }),
{
    let way = if x == zero() { y } else { x };
    let part = quotient_of(one(), length_of(Point { x, y }));
    lemma_way_has_a_length(x, y);
    lemma_powers();
    lemma_opposites_count_alike(one());
    lemma_between(scale, least_scale(), largest_scale());
    lemma_between(seconds, Quantity { bits: 0x3a80_0000 }, Quantity { bits: 0x4480_0000 });
    lemma_sized(way, part, 149, 147, 149, 151);
    let a = product_of(way, part);
    lemma_sized(a, pan_speed(), 147, 158, 151, 159);
    let b = product_of(a, pan_speed());
    lemma_sized(b, scale, 156, 147, 161, 151);
    let c = product_of(b, scale);
    lemma_sized(c, seconds, 154, 139, 163, 159);
    let d = product_of(c, seconds);
    lemma_pow2_pos(144);
    lemma_from_nothing(d);
    lemma_sided(d, 144);
}

/// Nothing and a quantity is that quantity.
proof fn lemma_from_nothing(q: Quantity)
    requires
        q.finite(),
        units(q) > 0,
    ensures
        sum_of(zero(), q) == q,
{
    if q.rank() == 0 {
        assert(units(q) == 0) by (nonlinear_arith)
            requires
                units(q) == 0 * pow2(0),
        ;
    }
    adding_nothing_changes_nothing(q);
    sums_commute(zero(), q);
}

/// From the middle of the map, dragging by a pixel or more, or scrolling by a line or more, really moves the camera.
pub proof fn gestures_really_move(camera: Camera, by: Point)
    requires
        camera.at == origin(),
        least_scale().at_most(camera.scale),
        camera.scale.at_most(largest_scale()),
        one().at_most(by.x),
        by.x.at_most(Quantity { bits: 0x4480_0000 }),
        one().at_most(by.y),
        by.y.at_most(Quantity { bits: 0x4480_0000 }),
    ensures
        dragged(camera.at, seq![by], camera.scale).x.less(zero()),
        zero().less(dragged(camera.at, seq![by], camera.scale).y),
        zero().less(after_scroll(camera, false, by).at.x),
        after_scroll(camera, false, by).at.y.less(zero()),
{
    let step = Quantity { bits: 0x4270_0000 };
    let scale = camera.scale;
    lemma_powers();
    lemma_between(scale, least_scale(), largest_scale());
    lemma_between(by.x, one(), Quantity { bits: 0x4480_0000 });
    lemma_between(by.y, one(), Quantity { bits: 0x4480_0000 });
    reveal_with_fuel(dragged, 2);
    assert(seq![by].drop_last() =~= Seq::empty());
    lemma_sized(by.x, scale, 149, 147, 159, 151);
    lemma_sized(by.y, scale, 149, 147, 159, 151);
    let (dx, dy) = (product_of(by.x, scale), product_of(by.y, scale));
    lemma_pow2_pos(147);
    lemma_opposites_count_alike(dx);
    lemma_from_nothing(opposite(dx));
    lemma_sided(opposite(dx), 147);
    lemma_from_nothing(dy);
    lemma_sided(dy, 147);
    lemma_sized(by.x, step, 149, 154, 159, 155);
    lemma_sized(by.y, step, 149, 154, 159, 155);
    let (sx, sy) = (product_of(by.x, step), product_of(by.y, step));
    lemma_sized(sx, scale, 154, 147, 165, 151);
    lemma_sized(sy, scale, 154, 147, 165, 151);
    let (fx, fy) = (product_of(sx, scale), product_of(sy, scale));
    lemma_pow2_pos(152);
    lemma_from_nothing(fx);
    lemma_sided(fx, 152);
    lemma_opposites_count_alike(fy);
    lemma_from_nothing(opposite(fy));
    lemma_sided(opposite(fy), 152);
}

/// Zooming in by all there is brings the camera as near as it goes, and zooming by more always at least as near.
pub proof fn zooming_goes_all_the_way(scale: Quantity, less: Quantity, more: Quantity)
    requires
        least_scale().at_most(scale),
        scale.at_most(largest_scale()),
        less.finite(),
        more.finite(),
        less.at_most(more),
    ensures
        one().at_most(more) ==> zoomed(scale, more) == least_scale(),
        less.at_most(Quantity { bits: 0xc170_0000 }) ==> zoomed(scale, less) == largest_scale(),
{
    if one().at_most(more) {
        let factor = difference_of(one(), more);
        lemma_opposites_count_alike(more);
        lemma_units_ascend(one(), more);
        assert(signed_units(one()) + signed_units(opposite(more)) <= 0);
        lemma_pow2_pos(149);
        let n = (-(signed_units(one()) + signed_units(opposite(more)))) as nat;
        rounding_keeps_order(n, n, 1);
        assert(factor.at_most(zero()));
        products_commute(scale, factor);
        products_keep_their_side(factor, scale);
    }
    let far = Quantity { bits: 0xc170_0000 };
    if less.at_most(far) {
        let factor = difference_of(one(), less);
        let sixteen = Quantity { bits: 0x4180_0000 };
        lemma_opposites_count_alike(less);
        lemma_sixteen();
        lemma_opposites_count_alike(far);
        lemma_opposite_order(less, far);
        sums_commute(one(), opposite(less));
        sums_commute(one(), opposite(far));
        sums_ascend(opposite(far), opposite(less), one());
        assert(sixteen.at_most(factor));
        products_commute(scale, factor);
        products_commute(scale, sixteen);
        if factor.finite() {
            products_ascend(sixteen, factor, scale);
        }
        products_ascend(least_scale(), scale, sixteen);
        products_commute(least_scale(), sixteen);
        products_commute(scale, sixteen);
        assert(largest_scale().at_most(product_of(scale, factor)));
    }
}

proof fn lemma_opposite_order(a: Quantity, b: Quantity)
    requires
        a.at_most(b),
    ensures
        opposite(b).at_most(opposite(a)),
{
    lemma_opposite_rank(a);
    lemma_opposite_rank(b);
}

proof fn lemma_opposite_rank(b: Quantity)
    requires
        !b.nan(),
    ensures
        !opposite(b).nan(),
        opposite(b).rank() == -b.rank(),
{
    let o = opposite(b);
    if b.negative() {
        assert(b.bits / 0x80_0000 == o.bits / 0x80_0000 + 0x100);
    } else {
        assert(o.bits / 0x80_0000 == b.bits / 0x80_0000 + 0x100);
    }
    assert(o.bits % 0x80_0000 == b.bits % 0x80_0000);
}

proof fn lemma_sixteen()
    ensures
        difference_of(one(), Quantity { bits: 0xc170_0000 }) == (Quantity { bits: 0x4180_0000 }),
        product_of(Quantity { bits: 0x4180_0000 }, least_scale()) == largest_scale(),
{
    let (fifteen, sixteen) = (Quantity { bits: 0x4170_0000 }, Quantity { bits: 0x4180_0000 });
    lemma_powers();
    lemma2_to64();
    assert(significand(fifteen.bits) == 0xf0_0000 && exponent(fifteen.bits) == -20);
    assert(significand(sixteen.bits) == 0x80_0000 && exponent(sixteen.bits) == -19);
    lemma_pow2_adds(20, 129);
    lemma_pow2_adds(23, 130);
    lemma_pow2_adds(4, 149);
    let (p, u) = (pow2(129), pow2(149));
    assert(0xf0_0000 * p == 15 * u) by (nonlinear_arith)
        requires
            u == 0x10_0000 * p,
    ;
    lemma_pow2_adds(23, 130);
    assert(units(sixteen) == pow2(153));
    assert(units(fifteen) == 15 * u);
    assert(opposite(Quantity { bits: 0xc170_0000 }) == fifteen);
    exact_results_stand(sixteen);
    exact_results_stand(largest_scale());
    lemma_pow2_adds(153, 147);
    lemma_pow2_adds(151, 149);
    lemma_pow2_pos(149);
    lemma_nearest_scales(pow2(151), 1, u);
    assert(1 * u == u);
}

/// How fast the camera goes, at a scale of 1: 900 a second along an arrow and 60 for a line of the wheel; the keys zoom by
/// as much as seconds pass, and a line of the wheel by a tenth. The columns of text go 600 a second.
pub proof fn rates_of_the_camera(camera: Camera, arrows: Arrows, by: Point, seconds: Quantity)
    ensures
        ({
            let speed = Quantity { bits: 0x4461_0000 };
            let step = Quantity { bits: 0x4270_0000 };
            let way = Point { x: along(arrows.right, arrows.left), y: along(arrows.up, arrows.down) };
            let unit = quotient_of(one(), length_of(way));
            let moved = after_arrows(camera, arrows, seconds);
            let panned = after_scroll(camera, false, by);
            let zoomed_by = after_scroll(camera, true, by);
            &&& way != origin() ==> moved.at.x == sum_of(
                camera.at.x,
                product_of(product_of(product_of(product_of(way.x, unit), speed), camera.scale), seconds),
            )
            &&& way != origin() ==> moved.at.y == sum_of(
                camera.at.y,
                product_of(product_of(product_of(product_of(way.y, unit), speed), camera.scale), seconds),
            )
            &&& moved.scale == camera.scale
            &&& by.x.rank() != 0 || by.y.rank() != 0 ==> panned.at.x == sum_of(
                camera.at.x,
                product_of(product_of(by.x, step), camera.scale),
            )
            &&& by.x.rank() != 0 || by.y.rank() != 0 ==> panned.at.y == difference_of(
                camera.at.y,
                product_of(product_of(by.y, step), camera.scale),
            )
            &&& panned.scale == camera.scale && zoomed_by.at == camera.at
            &&& by.y.rank() != 0 ==> zoomed_by.scale == zoomed(camera.scale, product_of(by.y, Quantity { bits: 0x3dcc_cccd }))
        }),
        keyed_zoom(camera.scale, true, false, true, seconds) == zoomed(camera.scale, seconds),
        keyed_zoom(camera.scale, true, true, false, seconds) == zoomed(camera.scale, opposite(seconds)),
        column_scrolled(zero(), true, false, seconds) == sum_of(zero(), product_of(Quantity { bits: 0x4416_0000 }, seconds)),
{
}

/// The arrows point their way: opposite ones cancel each other.
pub proof fn arrows_point_their_way(forward: bool, back: bool)
    ensures
        forward && !back ==> along(forward, back) == one(),
        back && !forward ==> along(forward, back) == opposite(one()),
        forward == back ==> along(forward, back) == zero(),
{
}

} // verus!
