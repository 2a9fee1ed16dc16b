//! How the camera and the window fit the map.
use crate::arithmetic::{
    difference_of, exact_results_stand, held_between, larger, opposite, product_of, quotient_of, signed_units, sum_of, units,
};
use crate::arithmetic_laws::{
    lemma_positive_counts, lemma_units_ascend, products_ascend, quotients_ascend, ranges_keep_order, rounding_keeps_order, sums_ascend,
    times_one_changes_nothing,
};
use crate::camera::{
    bottom_room, default_height, fitted, half_of, height_for, largest_height, lemma_room, padded_bounds, room_of, side_room,
    top_room, window_width,
};
use crate::camera_laws::lemma_between;
use crate::geometry::{added, bounds_of, divided, subtracted, Bounds};
use crate::label_laws::{lemma_opposites_count_alike, lemma_product, lemma_sum};
use crate::place_laws::{
    lemma_constants, lemma_in_reach_of_far, lemma_itself, lemma_near_sum, lemma_ordinary, lemma_scaled_power, ordinary,
};
use crate::quantity::{zero, Quantity};
use crate::rounding::{rounded_within, rounding_is_near};
use crate::world::Point;
use vstd::arithmetic::power2::{lemma2_to64, lemma_pow2_adds, lemma_pow2_pos, lemma_pow2_strictly_increases, pow2};
use vstd::prelude::*;

verus! {

/// The panels take 330 on either side, 70 above and 230 below; the window is 1280 wide and between 800 and 1300 high.
pub proof fn rooms_of_the_panels()
    ensures
        units(side_room()) == 330 * pow2(149) && !side_room().negative(),
        units(top_room()) == 70 * pow2(149) && !top_room().negative(),
        units(bottom_room()) == 230 * pow2(149) && !bottom_room().negative(),
        units(window_width()) == 1280 * pow2(149) && !window_width().negative(),
        units(default_height()) == 800 * pow2(149) && !default_height().negative(),
        units(largest_height()) == 1300 * pow2(149) && !largest_height().negative(),
{
    lemma2_to64();
    lemma_scaled_power(side_room(), 0xa5_0000, 15, 134, 0x8000);
    lemma_scaled_power(top_room(), 0x8c_0000, 17, 132, 0x2_0000);
    lemma_scaled_power(bottom_room(), 0xe6_0000, 16, 133, 0x1_0000);
    lemma_scaled_power(window_width(), 0xa0_0000, 13, 136, 0x2000);
    lemma_scaled_power(default_height(), 0xc8_0000, 14, 135, 0x4000);
    lemma_scaled_power(largest_height(), 0xa2_8000, 13, 136, 0x2000);
}

/// The map keeps a margin of 82 on every side.
pub proof fn maps_keep_a_margin(places: Seq<Point>)
    ensures
        ({
            let (b, p) = (bounds_of(places), padded_bounds(places));
            let margin = Quantity { bits: 0x42a4_0000 };
            &&& units(margin) == 82 * pow2(149)
            &&& p.min.x == difference_of(b.min.x, margin) && p.min.y == difference_of(b.min.y, margin)
            &&& p.max.x == sum_of(b.max.x, margin) && p.max.y == sum_of(b.max.y, margin)
        }),
{
    lemma2_to64();
    lemma_scaled_power(Quantity { bits: 0x42a4_0000 }, 0xa4_0000, 17, 132, 0x2_0000);
}

/// There is always room of 100 or more each way, and no more than the panels leave.
pub proof fn windows_leave_room(window: Point)
    ensures
        ({
            let (room, least) = (room_of(window), Quantity { bits: 0x42c8_0000 });
            let wide = difference_of(difference_of(window.x, side_room()), side_room());
            let high = difference_of(difference_of(window.y, top_room()), bottom_room());
            &&& least.at_most(room.x) && least.at_most(room.y)
            &&& least.at_most(wide) ==> room.x == wide
            &&& least.at_most(high) ==> room.y == high
            &&& wide.less(least) ==> room.x == least
            &&& high.less(least) ==> room.y == least
        }),
{
}

/// The map fills the room one way or the other: the camera is no farther away than one of the directions asks for, unless
/// it would come nearer than it goes.
pub proof fn the_fitted_map_fills_its_room(places: Seq<Point>, window: Point)
    ensures
        ({
            let b = padded_bounds(places);
            let size = subtracted(b.max, b.min);
            let room = room_of(window);
            let scale = fitted(places, window).scale;
            let least = Quantity { bits: 0x3d4c_cccd };
            &&& scale == quotient_of(size.x, room.x) || scale == quotient_of(size.y, room.y) || scale == least
            &&& least.at_most(scale)
        }),
{
}

/// A square map gets a window whose room between the panels is square: 620 each way, so 920 high.
pub proof fn square_maps_get_a_square_room(places: Seq<Point>)
    requires
        ({
            let b = bounds_of(places);
            let size = subtracted(b.max, b.min);
            size.x == size.y && size.x.finite() && zero().less(size.x)
        }),
    ensures
        height_for(places) == (Quantity { bits: 0x4466_0000 }),
{
    let b = bounds_of(places);
    let size = subtracted(b.max, b.min);
    lemma_room();
    lemma_square_height(size.x);
}

/// The height for a square.
proof fn lemma_square_height(x: Quantity)
    requires
        x.finite(),
        zero().less(x),
    ensures
        free_height(x, x) == (Quantity { bits: 0x4466_0000 }),
        held_between(free_height(x, x), default_height(), largest_height()) == (Quantity { bits: 0x4466_0000 }),
{
    let width = Quantity { bits: 0x441b_0000 };
    lemma_itself(x);
    times_one_changes_nothing(width);
    lemma_exact_heights();
}

proof fn lemma_exact_heights()
    ensures
        sum_of(sum_of(Quantity { bits: 0x441b_0000 }, top_room()), bottom_room()) == (Quantity { bits: 0x4466_0000 }),
{
    let (width, higher, highest) = (
        Quantity { bits: 0x441b_0000 },
        Quantity { bits: 0x442c_8000 },
        Quantity { bits: 0x4466_0000 },
    );
    rooms_of_the_panels();
    lemma2_to64();
    lemma_scaled_power(width, 0x9b_0000, 14, 135, 0x4000);
    lemma_scaled_power(higher, 0xac_8000, 14, 135, 0x4000);
    lemma_scaled_power(highest, 0xe6_0000, 14, 135, 0x4000);
    lemma_pow2_pos(149);
    exact_results_stand(higher);
    exact_results_stand(highest);
    assert(sum_of(width, top_room()) == higher);
}

/// A height that is no infinity stays one with the room above.
proof fn lemma_ordinary_sum(q: Quantity)
    requires
        !q.negative(),
        q.less(Quantity { bits: 0x5d80_0000 }),
    ensures
        sum_of(q, top_room()).finite(),
{
    assert(zero().at_most(q));
    lemma_in_reach_of_far(q);
    rooms_of_the_panels();
    lemma2_to64();
    lemma_pow2_adds(7, 149);
    lemma_pow2_strictly_increases(156, 209);
    lemma_sum(q, top_room(), 209);
}

/// A map that is taller, and just as wide, never gets a lower window.
pub proof fn taller_maps_get_no_lower_windows(lower: Seq<Point>, taller: Seq<Point>)
    requires
        ({
            let (b, c) = (bounds_of(lower), bounds_of(taller));
            let (s, t) = (subtracted(b.max, b.min), subtracted(c.max, c.min));
            &&& s.x == t.x && zero().less(s.x) && s.x.finite()
            &&& zero().less(s.y) && s.y.at_most(t.y) && t.y.finite()
            &&& product_of(Quantity { bits: 0x441b_0000 }, quotient_of(t.y, t.x)).less(Quantity { bits: 0x5d80_0000 })
        }),
    ensures
        height_for(lower).at_most(height_for(taller)),
{
    let (b, c) = (bounds_of(lower), bounds_of(taller));
    let (s, t) = (subtracted(b.max, b.min), subtracted(c.max, c.min));
    lemma_room();
    lemma_heights_ascend(s.x, s.y, t.y);
}

/// What a window is high before it is held within its limits, by the size of the map.
spec fn free_height(x: Quantity, y: Quantity) -> Quantity {
    sum_of(sum_of(product_of(Quantity { bits: 0x441b_0000 }, quotient_of(y, x)), top_room()), bottom_room())
}

proof fn lemma_heights_ascend(x: Quantity, low: Quantity, high: Quantity)
    requires
        x.finite(),
        zero().less(x),
        zero().less(low),
        low.at_most(high),
        high.finite(),
        product_of(Quantity { bits: 0x441b_0000 }, quotient_of(high, x)).less(Quantity { bits: 0x5d80_0000 }),
    ensures
        held_between(free_height(x, low), default_height(), largest_height()).at_most(
            held_between(free_height(x, high), default_height(), largest_height()),
        ),
{
    let width = Quantity { bits: 0x441b_0000 };
    let (p, q) = (quotient_of(low, x), quotient_of(high, x));
    quotients_ascend(low, high, x);
    lemma_shape(low, x);
    lemma_shape(high, x);
    products_ascend(p, q, width);
    let (m, n) = (product_of(width, p), product_of(width, q));
    lemma_shape_times(p, width);
    lemma_shape_times(q, width);
    lemma_ordinary_sum(m);
    lemma_ordinary_sum(n);
    sums_ascend(m, n, top_room());
    sums_ascend(sum_of(m, top_room()), sum_of(n, top_room()), bottom_room());
    ranges_keep_order(free_height(x, low), free_height(x, high), default_height(), largest_height());
}

proof fn lemma_shape(y: Quantity, x: Quantity)
    requires
        x.finite(),
        zero().less(x),
        zero().less(y),
        y.finite(),
    ensures
        !quotient_of(y, x).negative(),
        !quotient_of(y, x).nan(),
{
    lemma_positive_counts(x);
    rounding_keeps_order(units(y) * pow2(149), units(y) * pow2(149), units(x));
}

proof fn lemma_shape_times(p: Quantity, width: Quantity)
    requires
        !p.negative(),
        p.finite(),
        !width.negative(),
        width.finite(),
    ensures
        !product_of(width, p).negative(),
{
    lemma_pow2_pos(149);
    rounding_keeps_order(units(width) * units(p), units(width) * units(p), pow2(149));
}

/// The middle of the map stands in the middle of the room between the panels: in the middle of the window from side to
/// side, where the panels take the same on both sides, and above its middle, where they take more below. So the camera
/// looks at the middle of the map from side to side, and below it.
pub proof fn the_fitted_map_stands_between_the_panels(places: Seq<Point>, window: Point)
    requires
        (Quantity { bits: 0x4480_0000 }).at_most(window.x),
        window.x.at_most(Quantity { bits: 0x4500_0000 }),
        (Quantity { bits: 0x4400_0000 }).at_most(window.y),
        window.y.at_most(Quantity { bits: 0x4500_0000 }),
        ordinary(middle_of(padded_bounds(places))),
        fitted(places, window).scale.at_most(Quantity { bits: 0x4180_0000 }),
    ensures
        ({
            let (at, middle, u) = (fitted(places, window).at, middle_of(padded_bounds(places)), pow2(149));
            &&& -u <= signed_units(at.x) - signed_units(middle.x) <= u
            &&& signed_units(at.y) + 3 * u <= signed_units(middle.y)
        }),
{
    let (scale, middle, u) = (fitted(places, window).scale, middle_of(padded_bounds(places)), pow2(149));
    lemma_constants();
    rooms_of_the_panels();
    lemma_ordinary(middle.x);
    lemma_ordinary(middle.y);
    lemma_between(window.x, Quantity { bits: 0x4480_0000 }, Quantity { bits: 0x4500_0000 });
    lemma_between(window.y, Quantity { bits: 0x4400_0000 }, Quantity { bits: 0x4500_0000 });
    the_fitted_map_fills_its_room(places, window);
    lemma_offset(window.x, side_room(), side_room());
    lemma_offset(window.y, top_room(), bottom_room());
    let dx = difference_of(sum_of(side_room(), half_of(room_of(window).x)), half_of(window.x));
    let dy = difference_of(sum_of(top_room(), half_of(room_of(window).y)), half_of(window.y));
    lemma_opposites_count_alike(dy);
    lemma_moved(middle.x, dx, scale);
    lemma_moved(middle.y, opposite(dy), scale);
}

/// The middle of a box.
pub open spec fn middle_of(b: Bounds) -> Point {
    divided(added(b.max, b.min), Quantity { bits: 0x4000_0000 })
}

/// How far the middle of the room lies from the middle of the window, by what the panels take before and after it.
proof fn lemma_offset(w: Quantity, before: Quantity, after: Quantity)
    requires
        w.finite() && !w.negative(),
        512 * pow2(149) <= units(w) <= 2048 * pow2(149),
        before.finite() && !before.negative(),
        after.finite() && !after.negative(),
        units(before) + units(after) <= 300 * pow2(149) || (1024 * pow2(149) <= units(w) && units(before) + units(after)
            <= 660 * pow2(149)),
    ensures
        ({
            let least = Quantity { bits: 0x42c8_0000 };
            let room = larger(difference_of(difference_of(w, before), after), least);
            let off = difference_of(sum_of(before, half_of(room)), half_of(w));
            &&& off.finite()
            &&& -pow2(149) <= 10 * (2 * signed_units(off) - (units(before) - units(after))) <= pow2(149)
        }),
{
    let (u, least) = (pow2(149), Quantity { bits: 0x42c8_0000 });
    lemma_pow2_pos(149);
    lemma2_to64();
    lemma_scaled_power(least, 0xc8_0000, 17, 132, 0x2_0000);
    let first = difference_of(w, before);
    lemma_near_difference(w, before);
    let second = difference_of(first, after);
    lemma_near_difference(first, after);
    if second.less(least) {
        lemma_units_ascend(second, least);
    }
    let room = larger(second, least);
    assert(room == second);
    lemma_near_half(room);
    lemma_near_half(w);
    lemma_near_sum(before, half_of(room));
    let s = sum_of(before, half_of(room));
    lemma_near_difference(s, half_of(w));
}

/// A difference of two quantities of ordinary size is near what they count.
proof fn lemma_near_difference(a: Quantity, b: Quantity)
    requires
        a.finite(),
        b.finite(),
        units(a) <= 4096 * pow2(149),
        units(b) <= 16384 * pow2(149),
    ensures
        difference_of(a, b).finite(),
        -pow2(149) <= 100 * (signed_units(difference_of(a, b)) - (signed_units(a) - signed_units(b))) <= pow2(149),
{
    lemma_opposites_count_alike(b);
    lemma_near_sum(a, opposite(b));
}

/// A half is near the half.
proof fn lemma_near_half(q: Quantity)
    requires
        q.finite(),
        0 < signed_units(q) <= 2100 * pow2(149),
    ensures
        half_of(q).finite(),
        !half_of(q).negative(),
        -pow2(149) <= 100 * (2 * units(half_of(q)) - units(q)) <= pow2(149),
{
    let (u, two, n) = (pow2(149), Quantity { bits: 0x4000_0000 }, units(q));
    lemma_constants();
    lemma2_to64();
    lemma_pow2_adds(12, 149);
    if q.rank() == 0 {
        assert(units(q) == 0) by (nonlinear_arith)
            requires
                units(q) == 0 * pow2(0),
        ;
    }
    assert(n * u <= (2 * u) * pow2(161)) by (nonlinear_arith)
        requires
            n <= 2100 * u,
            pow2(161) == 4096 * u,
    ;
    rounded_within(false, n * u, 2 * u, 161);
    rounding_is_near(n * u, 2 * u);
    let h = units(half_of(q));
    assert(-u <= 100 * (2 * h - n) <= u) by (nonlinear_arith)
        requires
            ({
                let off = h * (2 * u) - n * u;
                (-(2 * u) <= 2 * off <= 2 * u) || (-(n * u) <= 0x100_0000 * off <= n * u)
            }),
            n <= 2100 * u,
            u >= 0x100_0000,
    ;
}

/// Where the camera comes to look at along one axis.
proof fn lemma_moved(middle: Quantity, off: Quantity, scale: Quantity)
    requires
        middle.finite() && units(middle) <= 4096 * pow2(149),
        off.finite() && units(off) <= 81 * pow2(149),
        (Quantity { bits: 0x3d4c_cccd }).at_most(scale),
        scale.at_most(Quantity { bits: 0x4180_0000 }),
    ensures
        ({
            let (at, u) = (difference_of(middle, product_of(off, scale)), pow2(149));
            &&& 20 * units(off) <= u ==> -u <= signed_units(at) - signed_units(middle) <= u
            &&& !off.negative() && units(off) >= 79 * u ==> signed_units(at) + 3 * u <= signed_units(middle)
        }),
{
    let (u, low, high) = (pow2(149), Quantity { bits: 0x3d4c_cccd }, Quantity { bits: 0x4180_0000 });
    lemma_constants();
    lemma2_to64();
    lemma_scaled_power(low, 0xcc_cccd, 28, 121, 0x1000_0000);
    lemma_scaled_power(high, 0x80_0000, 19, 130, 0x8_0000);
    lemma_between(scale, low, high);
    lemma_pow2_adds(7, 149);
    lemma_pow2_adds(4, 149);
    lemma_product(off, scale, 156, 153, 160);
    let (o, c) = (units(off), units(scale));
    let moved = product_of(off, scale);
    let m = units(moved);
    rounding_is_near(o * c, u);
    let oc = o * c;
    assert(oc <= 1296 * (u * u) && (20 * o <= u ==> 10 * oc <= 8 * (u * u))) by (nonlinear_arith)
        requires
            oc == o * c,
            o <= 81 * u,
            c <= 16 * u,
    ;
    assert(o >= 79 * u ==> 21 * oc >= 79 * (u * u)) by (nonlinear_arith)
        requires
            oc == o * c,
            21 * c >= u,
    ;
    lemma_near_quotient_of(m as int, oc as int, u as int);
    lemma_near_difference(middle, moved);
    assert(scale.rank() > 0);
}

/// What a rounded product of ordinary size counts.
proof fn lemma_near_quotient_of(m: int, n: int, u: int)
    requires
        u >= 0x100_0000,
        0 <= m,
        0 <= n <= 1296 * (u * u),
        ({
            let off = m * u - n;
            (-u <= 2 * off <= u) || (-n <= 0x100_0000 * off <= n)
        }),
    ensures
        n <= 1296 * (u * u) ==> m <= 1297 * u,
        10 * n <= 8 * (u * u) ==> 10 * m <= 9 * u,
        21 * n >= 79 * (u * u) ==> 10 * m >= 37 * u,
{
    let uu = u * u;
    assert(uu >= 0x100_0000 * u) by (nonlinear_arith)
        requires
            uu == u * u,
            u >= 0x100_0000,
    ;
    let mu = m * u;
    assert(mu <= 1297 * uu);
    assert(10 * n <= 8 * uu ==> 10 * mu <= 9 * uu);
    assert(21 * n >= 79 * uu ==> 10 * mu >= 37 * uu);
    assert(m <= 1297 * u) by (nonlinear_arith)
        requires
            mu <= 1297 * uu,
            mu == m * u,
            uu == u * u,
            u > 0,
    ;
    if 10 * n <= 8 * uu {
        assert(10 * m <= 9 * u) by (nonlinear_arith)
            requires
                10 * mu <= 9 * uu,
                mu == m * u,
                uu == u * u,
                u > 0,
        ;
    }
    if 21 * n >= 79 * uu {
        assert(10 * m >= 37 * u) by (nonlinear_arith)
            requires
                10 * mu >= 37 * uu,
                mu == m * u,
                uu == u * u,
                u > 0,
        ;
    }
}

} // verus!
