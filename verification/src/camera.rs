//! The camera: fitted to the map at the start, then moved by mouse and keyboard.
//!
//! Dragging with the left button never moves it: that button selects and orders.
use crate::arithmetic::{
    difference_of, exact_results_stand, held_between, held_within, larger, opposite, product_of, products_are_numbers,
    quotient_of, signed_units, sum_of, sums_commute, units,
};
use crate::arithmetic_laws::{adding_nothing_changes_nothing, products_ascend, sums_ascend, times_one_changes_nothing};
use crate::geometry::{added, bounds, bounds_of, divided, normalized, origin, scaled, subtracted, Bounds};
use crate::palette::one;
use crate::quantity::{zero, Quantity};
use crate::world::Point;
use vstd::arithmetic::power2::{lemma_pow2_pos, lemma_pow2_unfold, pow2};
use vstd::prelude::*;

verus! {

/// Where the camera is, and how far away: the larger the scale, the farther.
#[derive(Clone, Copy, Debug, PartialEq, Eq, Structural)]
pub struct Camera {
    pub at: Point,
    pub scale: Quantity,
}

/// The arrow keys that are held.
#[derive(Clone, Copy, Debug, PartialEq, Eq, Structural)]
pub struct Arrows {
    pub up: bool,
    pub down: bool,
    pub left: bool,
    pub right: bool,
}

/// Where one of two opposite keys leads; both together lead nowhere.
pub open spec fn along(forward: bool, back: bool) -> Quantity {
    if forward == back {
        zero()
    } else if forward {
        one()
    } else {
        opposite(one())
    }
}

fn one_way(forward: bool, back: bool) -> (d: Quantity)
    ensures
        d == along(forward, back),
{
    Quantity {
        bits: if forward == back {
            0
        } else if forward {
            0x3f80_0000
        } else {
            0xbf80_0000
        },
    }
}

/// How fast the arrow keys move the camera: 900 in a second, seen from a distance of 1.
pub open spec fn pan_speed() -> Quantity {
    Quantity { bits: 0x4461_0000 }
}

/// The camera after some seconds with arrow keys held; it stays if they cancel each other out.
pub open spec fn after_arrows(camera: Camera, arrows: Arrows, seconds: Quantity) -> Camera {
    let way = Point { x: along(arrows.right, arrows.left), y: along(arrows.up, arrows.down) };
    if way == origin() {
        camera
    } else {
        Camera {
            at: added(camera.at, scaled(scaled(scaled(normalized(way), pan_speed()), camera.scale), seconds)),
            ..camera
        }
    }
}

/// Moves the camera with the arrow keys.
pub fn keyboard_pan(camera: Camera, arrows: Arrows, seconds: Quantity) -> (after: Camera)
    ensures
        after == after_arrows(camera, arrows, seconds),
{
    let way = Point { x: one_way(arrows.right, arrows.left), y: one_way(arrows.up, arrows.down) };
    if way.x.bits == 0 && way.y.bits == 0 {
        return camera;
    }
    let by = way.normalize().times(Quantity { bits: 0x4461_0000 }).times(camera.scale).times(seconds);
    Camera { at: camera.at.plus(by), scale: camera.scale }
}

/// The mouse buttons that are held.
#[derive(Clone, Copy, Debug, PartialEq, Eq, Structural)]
pub struct Buttons {
    pub left: bool,
    pub middle: bool,
    pub right: bool,
}

/// A turn of the wheel, in lines or in pixels.
#[derive(Clone, Copy, Debug, PartialEq, Eq, Structural)]
pub struct Wheel {
    pub pixels: bool,
    pub by: Point,
}

/// What the mouse did in a frame.
pub struct Gestures {
    pub buttons: Buttons,
    /// Whether a control key is held.
    pub ctrl: bool,
    /// The movements of the mouse.
    pub motions: Vec<Point>,
    pub wheel: Vec<Wheel>,
    /// The pinches of a touchpad.
    pub pinches: Vec<Quantity>,
}

/// What scrolling does.
#[derive(Clone, Copy, Debug, PartialEq, Eq, Structural)]
pub enum Scrolling {
    Nothing,
    /// Move the camera.
    Pan,
    /// Bring the camera nearer, or take it away.
    Zoom,
}

/// What scrolling by an amount does: with a control key held it zooms by the vertical part, else it
/// pans.
pub open spec fn scrolling_does(ctrl: bool, by: Point) -> Scrolling {
    if ctrl {
        if by.y.rank() == 0 {
            Scrolling::Nothing
        } else {
            Scrolling::Zoom
        }
    } else if by.x.rank() == 0 && by.y.rank() == 0 {
        Scrolling::Nothing
    } else {
        Scrolling::Pan
    }
}

fn is_zero(q: Quantity) -> (zero: bool)
    ensures
        zero == (q.rank() == 0),
{
    q.bits == 0 || q.bits == 0x8000_0000
}

/// What scrolling by an amount does.
pub fn mouse_scroll(ctrl: bool, by: Point) -> (scrolling: Scrolling)
    ensures
        scrolling == scrolling_does(ctrl, by),
{
    if ctrl {
        if is_zero(by.y) {
            Scrolling::Nothing
        } else {
            Scrolling::Zoom
        }
    } else if is_zero(by.x) && is_zero(by.y) {
        Scrolling::Nothing
    } else {
        Scrolling::Pan
    }
}

/// Where dragging takes the camera: the map follows the mouse.
pub open spec fn dragged(at: Point, motions: Seq<Point>, scale: Quantity) -> Point
    decreases motions.len(),
{
    if motions.len() == 0 {
        at
    } else {
        let before = dragged(at, motions.drop_last(), scale);
        let by = motions.last();
        Point { x: difference_of(before.x, product_of(by.x, scale)), y: sum_of(before.y, product_of(by.y, scale)) }
    }
}

/// A turn of the wheel in lines; 100 pixels are a line.
pub open spec fn in_lines(wheel: Wheel) -> Point {
    if wheel.pixels {
        divided(wheel.by, Quantity { bits: 0x42c8_0000 })
    } else {
        wheel.by
    }
}

/// All turns of the wheel together, in lines.
pub open spec fn scrolled(wheel: Seq<Wheel>) -> Point
    decreases wheel.len(),
{
    if wheel.len() == 0 {
        origin()
    } else {
        added(scrolled(wheel.drop_last()), in_lines(wheel.last()))
    }
}

/// The nearest that the camera comes: a quarter.
pub open spec fn least_scale() -> Quantity {
    Quantity { bits: 0x3e80_0000 }
}

/// The farthest that the camera goes: 4.
pub open spec fn largest_scale() -> Quantity {
    Quantity { bits: 0x4080_0000 }
}

/// The scale after zooming in by a share of it, within limits.
pub open spec fn zoomed(scale: Quantity, by: Quantity) -> Quantity {
    held_between(product_of(scale, difference_of(one(), by)), least_scale(), largest_scale())
}

/// Zooms in by a share of the scale, within limits.
pub fn zoom_by(scale: Quantity, by: Quantity) -> (after: Quantity)
    ensures
        after == zoomed(scale, by),
{
    scale.times((Quantity { bits: 0x3f80_0000 }).minus(by)).hold_between(
        Quantity { bits: 0x3e80_0000 },
        Quantity { bits: 0x4080_0000 },
    )
}

/// The scale after some seconds with zoom keys held: with a control key, `equal` zooms in and `minus` out,
/// by the whole of the scale in a second.
pub open spec fn keyed_zoom(scale: Quantity, ctrl: bool, minus: bool, equal: bool, seconds: Quantity) -> Quantity {
    let nearer = if ctrl && equal {
        zoomed(scale, seconds)
    } else {
        scale
    };
    if ctrl && minus {
        zoomed(nearer, opposite(seconds))
    } else {
        nearer
    }
}

/// Zooms with the keys.
pub fn keyboard_zoom(scale: Quantity, ctrl: bool, minus: bool, equal: bool, seconds: Quantity) -> (after: Quantity)
    ensures
        after == keyed_zoom(scale, ctrl, minus, equal, seconds),
{
    let mut after = scale;
    if ctrl && equal {
        after = zoom_by(after, seconds);
    }
    if ctrl && minus {
        after = zoom_by(after, negate(seconds));
    }
    after
}

/// The scale after some pinches.
pub open spec fn pinched(scale: Quantity, pinches: Seq<Quantity>) -> Quantity
    decreases pinches.len(),
{
    if pinches.len() == 0 {
        scale
    } else {
        zoomed(pinched(scale, pinches.drop_last()), pinches.last())
    }
}

/// The camera after scrolling by some lines: a line pans by 60, or zooms by a tenth.
pub open spec fn after_scroll(camera: Camera, ctrl: bool, by: Point) -> Camera {
    match scrolling_does(ctrl, by) {
        Scrolling::Nothing => camera,
        Scrolling::Zoom => Camera { scale: zoomed(camera.scale, product_of(by.y, Quantity { bits: 0x3dcc_cccd })), ..camera },
        Scrolling::Pan => {
            let far = scaled(scaled(by, Quantity { bits: 0x4270_0000 }), camera.scale);
            Camera { at: Point { x: sum_of(camera.at.x, far.x), y: difference_of(camera.at.y, far.y) }, ..camera }
        },
    }
}

/// The camera after what the mouse did: the middle button drags the map, the wheel pans or zooms, and
/// a pinch zooms.
pub open spec fn after_gestures(camera: Camera, g: Gestures) -> Camera {
    let at = if g.buttons.middle {
        dragged(camera.at, g.motions@, camera.scale)
    } else {
        camera.at
    };
    let after = after_scroll(Camera { at, scale: camera.scale }, g.ctrl, scrolled(g.wheel@));
    Camera { scale: pinched(after.scale, g.pinches@), ..after }
}

fn drag(at: Point, motions: &Vec<Point>, scale: Quantity) -> (after: Point)
    ensures
        after == dragged(at, motions@, scale),
{
    let mut after = at;
    let mut i: usize = 0;
    while i < motions.len()
        invariant
            i <= motions.len(),
            after == dragged(at, motions@.take(i as int), scale),
        decreases motions.len() - i,
    {
        assert(motions@.take(i + 1).drop_last() =~= motions@.take(i as int));
        let by = motions[i];
        after = Point { x: after.x.minus(by.x.times(scale)), y: after.y.plus(by.y.times(scale)) };
        i += 1;
    }
    assert(motions@.take(i as int) =~= motions@);
    after
}

fn scroll(wheel: &Vec<Wheel>) -> (by: Point)
    ensures
        by == scrolled(wheel@),
{
    let mut by = Point { x: Quantity { bits: 0 }, y: Quantity { bits: 0 } };
    let mut i: usize = 0;
    while i < wheel.len()
        invariant
            i <= wheel.len(),
            by == scrolled(wheel@.take(i as int)),
        decreases wheel.len() - i,
    {
        assert(wheel@.take(i + 1).drop_last() =~= wheel@.take(i as int));
        let turn = wheel[i];
        by = by.plus(
            if turn.pixels {
                turn.by.over(Quantity { bits: 0x42c8_0000 })
            } else {
                turn.by
            },
        );
        i += 1;
    }
    assert(wheel@.take(i as int) =~= wheel@);
    by
}

fn pinch(scale: Quantity, pinches: &Vec<Quantity>) -> (after: Quantity)
    ensures
        after == pinched(scale, pinches@),
{
    let mut after = scale;
    let mut i: usize = 0;
    while i < pinches.len()
        invariant
            i <= pinches.len(),
            after == pinched(scale, pinches@.take(i as int)),
        decreases pinches.len() - i,
    {
        assert(pinches@.take(i + 1).drop_last() =~= pinches@.take(i as int));
        after = zoom_by(after, pinches[i]);
        i += 1;
    }
    assert(pinches@.take(i as int) =~= pinches@);
    after
}

/// Moves the camera with the mouse.
pub fn mouse_pan_zoom(camera: Camera, gestures: &Gestures) -> (after: Camera)
    ensures
        after == after_gestures(camera, *gestures),
{
    let mut after = camera;
    if gestures.buttons.middle {
        after.at = drag(camera.at, &gestures.motions, camera.scale);
    }
    let by = scroll(&gestures.wheel);
    match mouse_scroll(gestures.ctrl, by) {
        Scrolling::Nothing => {},
        Scrolling::Zoom => {
            after.scale = zoom_by(camera.scale, by.y.times(Quantity { bits: 0x3dcc_cccd }));
        },
        Scrolling::Pan => {
            let far = by.times(Quantity { bits: 0x4270_0000 }).times(camera.scale);
            after.at = Point { x: after.at.x.plus(far.x), y: after.at.y.minus(far.y) };
        },
    }
    after.scale = pinch(after.scale, &gestures.pinches);
    after
}

/// Scrolling never does both: with a control key held it never moves the camera, without it never
/// zooms.
pub proof fn scrolling_pans_or_zooms(camera: Camera, ctrl: bool, by: Point)
    ensures
        ctrl ==> after_scroll(camera, ctrl, by).at == camera.at,
        !ctrl ==> after_scroll(camera, ctrl, by).scale == camera.scale,
{
}

/// Dragging with another button than the middle one leaves the camera alone.
pub proof fn only_the_middle_button_drags(camera: Camera, g: Gestures)
    requires
        !g.buttons.middle,
        g.wheel@.len() == 0,
        g.pinches@.len() == 0,
    ensures
        after_gestures(camera, g) == camera,
{
}

/// Zooming keeps the camera within its limits.
pub proof fn zooming_stays_within_limits(scale: Quantity, by: Quantity)
    requires
        least_scale().at_most(scale),
        scale.at_most(largest_scale()),
        !by.nan(),
    ensures
        least_scale().at_most(zoomed(scale, by)),
        zoomed(scale, by).at_most(largest_scale()),
{
    products_are_numbers(scale, difference_of(one(), by));
    held_within(product_of(scale, difference_of(one(), by)), least_scale(), largest_scale());
}

/// Zooming in by something above 0 never takes the camera away, and zooming by something below 0 never
/// brings it nearer.
pub proof fn zooming_in_comes_nearer(scale: Quantity, by: Quantity)
    requires
        least_scale().at_most(scale),
        scale.at_most(largest_scale()),
    ensures
        zero().at_most(by) ==> zoomed(scale, by).at_most(scale),
        by.at_most(zero()) ==> scale.at_most(zoomed(scale, by)),
{
    let factor = difference_of(one(), by);
    let product = product_of(scale, factor);
    times_one_changes_nothing(scale);
    if by.finite() {
        let none = opposite(by);
        adding_nothing_changes_nothing(one());
        sums_commute(one(), none);
        sums_commute(one(), zero());
        if zero().at_most(by) {
            sums_ascend(none, zero(), one());
            assert(factor.at_most(one()));
            if factor.negative() {
                assert(!least_scale().less(product));
            } else {
                products_ascend(factor, one(), scale);
            }
        }
        if by.at_most(zero()) {
            sums_ascend(zero(), none, one());
            assert(one().at_most(factor));
            if factor.finite() {
                products_ascend(one(), factor, scale);
            }
        }
    }
}

/// How much room the panels take on the left, and on the right.
pub open spec fn side_room() -> Quantity {
    Quantity { bits: 0x43a5_0000 }
}

/// How much room the panels take above.
pub open spec fn top_room() -> Quantity {
    Quantity { bits: 0x428c_0000 }
}

/// How much room the panels take below.
pub open spec fn bottom_room() -> Quantity {
    Quantity { bits: 0x4366_0000 }
}

/// Half of a quantity.
pub open spec fn half_of(q: Quantity) -> Quantity {
    quotient_of(q, Quantity { bits: 0x4000_0000 })
}

/// The room between the panels of a window, at least 100 each way.
pub open spec fn room_of(window: Point) -> Point {
    let least = Quantity { bits: 0x42c8_0000 };
    Point {
        x: larger(difference_of(difference_of(window.x, side_room()), side_room()), least),
        y: larger(difference_of(difference_of(window.y, top_room()), bottom_room()), least),
    }
}

/// The box around the regions, with a margin of 82: the largest radius of a region, and 60.
pub open spec fn padded_bounds(places: Seq<Point>) -> Bounds {
    let b = bounds_of(places);
    let margin = Point { x: Quantity { bits: 0x42a4_0000 }, y: Quantity { bits: 0x42a4_0000 } };
    Bounds { min: subtracted(b.min, margin), max: added(b.max, margin) }
}

/// The camera that shows the whole map between the panels.
pub open spec fn fitted(places: Seq<Point>, window: Point) -> Camera {
    let b = padded_bounds(places);
    let size = subtracted(b.max, b.min);
    let center = divided(added(b.max, b.min), Quantity { bits: 0x4000_0000 });
    let room = room_of(window);
    let scale = larger(
        larger(quotient_of(size.x, room.x), quotient_of(size.y, room.y)),
        Quantity { bits: 0x3d4c_cccd },
    );
    let offset = subtracted(
        Point { x: sum_of(side_room(), half_of(room.x)), y: sum_of(top_room(), half_of(room.y)) },
        Point { x: half_of(window.x), y: half_of(window.y) },
    );
    Camera { at: subtracted(center, scaled(Point { x: offset.x, y: opposite(offset.y) }, scale)), scale }
}

fn half(q: Quantity) -> (h: Quantity)
    ensures
        h == half_of(q),
{
    q.over(Quantity { bits: 0x4000_0000 })
}

fn negate(q: Quantity) -> (n: Quantity)
    ensures
        n == opposite(q),
{
    if q.bits >= 0x8000_0000 {
        Quantity { bits: q.bits - 0x8000_0000 }
    } else {
        Quantity { bits: q.bits + 0x8000_0000 }
    }
}

/// Fits the camera to the map; `None` if there is nothing on it.
pub fn fit_camera_to_map(positions: &Vec<Point>, window: Point) -> (camera: Option<Camera>)
    ensures
        camera == if positions@.len() == 0 {
            None
        } else {
            Some(fitted(positions@, window))
        },
{
    if positions.len() == 0 {
        return None;
    }
    let b = bounds(positions);
    let margin = Point { x: Quantity { bits: 0x42a4_0000 }, y: Quantity { bits: 0x42a4_0000 } };
    let min = b.min.minus(margin);
    let max = b.max.plus(margin);
    let size = max.minus(min);
    let center = max.plus(min).over(Quantity { bits: 0x4000_0000 });
    let side = Quantity { bits: 0x43a5_0000 };
    let top = Quantity { bits: 0x428c_0000 };
    let bottom = Quantity { bits: 0x4366_0000 };
    let least = Quantity { bits: 0x42c8_0000 };
    let room = Point {
        x: window.x.minus(side).minus(side).or_larger(least),
        y: window.y.minus(top).minus(bottom).or_larger(least),
    };
    let scale = size.x.over(room.x).or_larger(size.y.over(room.y)).or_larger(Quantity { bits: 0x3d4c_cccd });
    let safe = Point { x: side.plus(half(room.x)), y: top.plus(half(room.y)) };
    let offset = safe.minus(Point { x: half(window.x), y: half(window.y) });
    let at = center.minus((Point { x: offset.x, y: negate(offset.y) }).times(scale));
    Some(Camera { at, scale })
}

/// The camera is far enough away for the map, with its margin, to take no more room than there is, in
/// either direction.
pub proof fn the_fitted_map_takes_no_more_room_than_there_is(places: Seq<Point>, window: Point)
    requires
        ({
            let b = padded_bounds(places);
            let size = subtracted(b.max, b.min);
            let room = room_of(window);
            !quotient_of(size.x, room.x).nan() && !quotient_of(size.y, room.y).nan()
        }),
    ensures
        ({
            let b = padded_bounds(places);
            let size = subtracted(b.max, b.min);
            let room = room_of(window);
            let scale = fitted(places, window).scale;
            quotient_of(size.x, room.x).at_most(scale) && quotient_of(size.y, room.y).at_most(scale)
        }),
{
}

/// The width of the window: 1280.
pub open spec fn window_width() -> Quantity {
    Quantity { bits: 0x44a0_0000 }
}

/// The least height of the window: 800.
pub open spec fn default_height() -> Quantity {
    Quantity { bits: 0x4448_0000 }
}

/// The largest height of the window: 1300.
pub open spec fn largest_height() -> Quantity {
    Quantity { bits: 0x44a2_8000 }
}

/// The height at which the room between the panels has the shape of the map, within limits; the least
/// one for a map without a shape.
pub open spec fn height_for(places: Seq<Point>) -> Quantity {
    let b = bounds_of(places);
    let size = subtracted(b.max, b.min);
    if size.x.positive() && size.y.positive() {
        let width = difference_of(difference_of(window_width(), side_room()), side_room());
        held_between(
            sum_of(sum_of(product_of(width, quotient_of(size.y, size.x)), top_room()), bottom_room()),
            default_height(),
            largest_height(),
        )
    } else {
        default_height()
    }
}

/// A difference that is a quantity comes out as it is.
proof fn lemma_exact_difference(a: Quantity, b: Quantity, c: Quantity)
    requires
        a.finite() && b.finite() && c.finite(),
        a.positive() && b.positive() && c.positive(),
        units(opposite(b)) == units(b),
        units(c) > 0,
        units(a) == units(b) + units(c),
    ensures
        difference_of(a, b) == c,
{
    exact_results_stand(c);
    assert(!a.negative() && !b.negative() && !c.negative());
    assert(opposite(b).negative() && opposite(b).finite());
    assert(signed_units(a) + signed_units(opposite(b)) == units(c));
}

/// The room between the panels is 620 wide.
pub(crate) proof fn lemma_room()
    ensures
        difference_of(difference_of(window_width(), side_room()), side_room()) == (Quantity { bits: 0x441b_0000 }),
{
    let between = Quantity { bits: 0x446d_8000 };
    let room = Quantity { bits: 0x441b_0000 };
    let side = side_room();
    let less = opposite(side);
    let p = pow2(134);
    lemma_pow2_unfold(135);
    lemma_pow2_unfold(136);
    assert(units(window_width()) == 0xa0_0000 * (4 * p));
    assert(units(side) == 0xa5_0000 * p);
    assert(units(less) == 0xa5_0000 * p);
    assert(units(between) == 0xed_8000 * (2 * p));
    assert(units(room) == 0x9b_0000 * (2 * p));
    lemma_pow2_pos(134);
    let (w, l, b, r) = (units(window_width()), units(side), units(between), units(room));
    assert(w == l + b && b == l + r && b > 0 && r > 0) by (nonlinear_arith)
        requires
            w == 0xa0_0000 * (4 * p),
            l == 0xa5_0000 * p,
            b == 0xed_8000 * (2 * p),
            r == 0x9b_0000 * (2 * p),
            p > 0,
    ;
    lemma_exact_difference(window_width(), side, between);
    lemma_exact_difference(between, side, room);
}

proof fn lemma_sums_are_numbers(a: Quantity, b: Quantity)
    requires
        !a.nan(),
        b.finite(),
    ensures
        !sum_of(a, b).nan(),
{
}

proof fn lemma_shapes_are_numbers(x: Quantity, y: Quantity)
    requires
        x.positive(),
        y.positive(),
        x.finite() || y.finite(),
    ensures
        !quotient_of(y, x).nan(),
{
}

/// The window is never lower nor higher than its limits, unless the map is boundless both ways.
pub proof fn heights_stay_within_limits(places: Seq<Point>)
    requires
        ({
            let b = bounds_of(places);
            let size = subtracted(b.max, b.min);
            !size.x.nan() && !size.y.nan() && (size.x.finite() || size.y.finite())
        }),
    ensures
        default_height().at_most(height_for(places)),
        height_for(places).at_most(largest_height()),
{
    let b = bounds_of(places);
    let size = subtracted(b.max, b.min);
    if size.x.positive() && size.y.positive() {
        let width = difference_of(difference_of(window_width(), side_room()), side_room());
        let shape = quotient_of(size.y, size.x);
        lemma_room();
        lemma_shapes_are_numbers(size.x, size.y);
        products_are_numbers(width, shape);
        let room = product_of(width, shape);
        lemma_sums_are_numbers(room, top_room());
        lemma_sums_are_numbers(sum_of(room, top_room()), bottom_room());
        let height = sum_of(sum_of(room, top_room()), bottom_room());
        held_within(height, default_height(), largest_height());
    }
}

/// A window height that suits the shape of the map.
pub fn window_height_for_layout(positions: &Vec<Point>) -> (height: Quantity)
    ensures
        height == height_for(positions@),
{
    let b = bounds(positions);
    let size = b.max.minus(b.min);
    let default = Quantity { bits: 0x4448_0000 };
    if !(size.x.is_positive() && size.y.is_positive()) {
        return default;
    }
    let side = Quantity { bits: 0x43a5_0000 };
    let width = (Quantity { bits: 0x44a0_0000 }).minus(side).minus(side);
    let room = width.times(size.y.over(size.x));
    room.plus(Quantity { bits: 0x428c_0000 }).plus(Quantity { bits: 0x4366_0000 }).hold_between(
        default,
        Quantity { bits: 0x44a2_8000 },
    )
}

/// Where the right column is scrolled to after some seconds with page keys held: 600 a second, and
/// never above its top.
pub open spec fn column_scrolled(at: Quantity, page_down: bool, page_up: bool, seconds: Quantity) -> Quantity {
    let by = product_of(Quantity { bits: 0x4416_0000 }, seconds);
    let down = if page_down {
        sum_of(at, by)
    } else {
        at
    };
    if page_up {
        larger(difference_of(down, by), zero())
    } else {
        down
    }
}

/// Scrolls the right column with the page keys.
pub fn handle_right_column_scroll(at: Quantity, page_down: bool, page_up: bool, seconds: Quantity) -> (after: Quantity)
    ensures
        after == column_scrolled(at, page_down, page_up, seconds),
{
    let by = (Quantity { bits: 0x4416_0000 }).times(seconds);
    let mut after = at;
    if page_down {
        after = after.plus(by);
    }
    if page_up {
        after = after.minus(by).or_larger(Quantity { bits: 0 });
    }
    after
}

} // verus!
