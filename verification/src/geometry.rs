//! Places and distances on the map.
use crate::arithmetic::{difference_of, product_of, quotient_of, root_of, sum_of, whole};
use crate::palette::one;
use crate::quantity::{infinity, zero, Quantity};
use crate::world::Point;
use vstd::prelude::*;

verus! {

/// The point 0, 0.
pub open spec fn origin() -> Point {
    Point { x: zero(), y: zero() }
}

/// The square of the length of a vector.
pub open spec fn square_of(v: Point) -> Quantity {
    sum_of(product_of(v.x, v.x), product_of(v.y, v.y))
}

/// The length of a vector.
pub open spec fn length_of(v: Point) -> Quantity {
    root_of(square_of(v))
}

/// One vector and another, end to end.
pub open spec fn added(a: Point, b: Point) -> Point {
    Point { x: sum_of(a.x, b.x), y: sum_of(a.y, b.y) }
}

/// The vector from one point to another, `b` to `a`.
pub open spec fn subtracted(a: Point, b: Point) -> Point {
    Point { x: difference_of(a.x, b.x), y: difference_of(a.y, b.y) }
}

/// A vector times a quantity.
pub open spec fn scaled(v: Point, by: Quantity) -> Point {
    Point { x: product_of(v.x, by), y: product_of(v.y, by) }
}

/// A vector divided by a quantity.
pub open spec fn divided(v: Point, by: Quantity) -> Point {
    Point { x: quotient_of(v.x, by), y: quotient_of(v.y, by) }
}

/// A vector of the same direction and the length 1.
pub open spec fn normalized(v: Point) -> Point {
    scaled(v, quotient_of(one(), length_of(v)))
}

/// The distance between two points.
pub open spec fn distance_of(a: Point, b: Point) -> Quantity {
    length_of(subtracted(a, b))
}

/// The lower left and the upper right corner of a box.
#[derive(Clone, Copy, Debug, PartialEq, Eq, Structural)]
pub struct Bounds {
    pub min: Point,
    pub max: Point,
}

/// The lesser of two quantities; the second one where neither is.
pub open spec fn lower(a: Quantity, b: Quantity) -> Quantity {
    if a.less(b) {
        a
    } else {
        b
    }
}

/// The greater of two quantities; the second one where neither is.
pub open spec fn upper(a: Quantity, b: Quantity) -> Quantity {
    if b.less(a) {
        a
    } else {
        b
    }
}

/// The box around some points; inside out if there are none.
pub open spec fn bounds_of(points: Seq<Point>) -> Bounds
    decreases points.len(),
{
    if points.len() == 0 {
        let least = Quantity { bits: 0xff80_0000 };
        Bounds { min: Point { x: infinity(), y: infinity() }, max: Point { x: least, y: least } }
    } else {
        let b = bounds_of(points.drop_last());
        let p = points.last();
        Bounds {
            min: Point { x: lower(b.min.x, p.x), y: lower(b.min.y, p.y) },
            max: Point { x: upper(b.max.x, p.x), y: upper(b.max.y, p.y) },
        }
    }
}

/// The sum of some points.
pub open spec fn total_of(points: Seq<Point>) -> Point
    decreases points.len(),
{
    if points.len() == 0 {
        origin()
    } else {
        added(total_of(points.drop_last()), points.last())
    }
}

/// The middle of some points; the origin if there are none.
pub open spec fn centroid_of(points: Seq<Point>) -> Point {
    if points.len() == 0 {
        origin()
    } else {
        divided(total_of(points), whole(points.len()))
    }
}

impl Point {
    /// The square of the length.
    pub fn square(self) -> (square: Quantity)
        ensures
            square == square_of(self),
    {
        self.x.times(self.x).plus(self.y.times(self.y))
    }

    /// The length.
    pub fn length(self) -> (length: Quantity)
        ensures
            length == length_of(self),
    {
        self.square().root()
    }

    /// This and another vector, end to end.
    pub fn plus(self, other: Point) -> (sum: Point)
        ensures
            sum == added(self, other),
    {
        Point { x: self.x.plus(other.x), y: self.y.plus(other.y) }
    }

    /// The vector from another point to this one.
    pub fn minus(self, other: Point) -> (difference: Point)
        ensures
            difference == subtracted(self, other),
    {
        Point { x: self.x.minus(other.x), y: self.y.minus(other.y) }
    }

    /// The vector times a quantity.
    pub fn times(self, by: Quantity) -> (product: Point)
        ensures
            product == scaled(self, by),
    {
        Point { x: self.x.times(by), y: self.y.times(by) }
    }

    /// The vector divided by a quantity.
    pub fn over(self, by: Quantity) -> (quotient: Point)
        ensures
            quotient == divided(self, by),
    {
        Point { x: self.x.over(by), y: self.y.over(by) }
    }

    /// A vector of the same direction and the length 1.
    pub fn normalize(self) -> (unit: Point)
        ensures
            unit == normalized(self),
    {
        self.times((Quantity { bits: 0x3f80_0000 }).over(self.length()))
    }

    /// The distance to another point.
    pub fn distance(self, other: Point) -> (distance: Quantity)
        ensures
            distance == distance_of(self, other),
    {
        self.minus(other).length()
    }
}

fn lesser(a: Quantity, b: Quantity) -> (q: Quantity)
    ensures
        q == lower(a, b),
{
    if a.is_less(b) {
        a
    } else {
        b
    }
}

fn greater(a: Quantity, b: Quantity) -> (q: Quantity)
    ensures
        q == upper(a, b),
{
    if b.is_less(a) {
        a
    } else {
        b
    }
}

/// The box around some points.
pub fn bounds(points: &Vec<Point>) -> (bounds: Bounds)
    ensures
        bounds == bounds_of(points@),
{
    let most = Quantity { bits: 0x7f80_0000 };
    let least = Quantity { bits: 0xff80_0000 };
    let mut b = Bounds { min: Point { x: most, y: most }, max: Point { x: least, y: least } };
    let mut i: usize = 0;
    while i < points.len()
        invariant
            i <= points.len(),
            b == bounds_of(points@.take(i as int)),
        decreases points.len() - i,
    {
        assert(points@.take(i + 1).drop_last() =~= points@.take(i as int));
        let p = points[i];
        b = Bounds {
            min: Point { x: lesser(b.min.x, p.x), y: lesser(b.min.y, p.y) },
            max: Point { x: greater(b.max.x, p.x), y: greater(b.max.y, p.y) },
        };
        i += 1;
    }
    assert(points@.take(i as int) =~= points@);
    b
}

/// The middle of some points.
pub fn centroid(points: &Vec<Point>) -> (middle: Point)
    requires
        points@.len() <= u32::MAX,
    ensures
        middle == centroid_of(points@),
{
    let mut sum = Point { x: Quantity { bits: 0 }, y: Quantity { bits: 0 } };
    let mut i: usize = 0;
    while i < points.len()
        invariant
            i <= points.len(),
            sum == total_of(points@.take(i as int)),
        decreases points.len() - i,
    {
        assert(points@.take(i + 1).drop_last() =~= points@.take(i as int));
        sum = sum.plus(points[i]);
        i += 1;
    }
    assert(points@.take(i as int) =~= points@);
    if points.len() == 0 {
        sum
    } else {
        sum.over(Quantity::from_whole(points.len() as u32))
    }
}

/// Every point lies in the box around all points.
pub proof fn bounds_hold_every_point(points: Seq<Point>, i: int)
    requires
        0 <= i < points.len(),
        forall|k: int| 0 <= k < points.len() ==> !(#[trigger] points[k]).x.nan() && !points[k].y.nan(),
    ensures
        bounds_of(points).min.x.at_most(points[i].x),
        bounds_of(points).min.y.at_most(points[i].y),
        points[i].x.at_most(bounds_of(points).max.x),
        points[i].y.at_most(bounds_of(points).max.y),
    decreases points.len(),
{
    let before = points.drop_last();
    lemma_bounds_are_numbers(before);
    if i < before.len() {
        bounds_hold_every_point(before, i);
        assert(points[i] == before[i]);
    }
    assert(!points.last().x.nan() && !points.last().y.nan());
}

proof fn lemma_bounds_are_numbers(points: Seq<Point>)
    requires
        forall|k: int| 0 <= k < points.len() ==> !(#[trigger] points[k]).x.nan() && !points[k].y.nan(),
    ensures
        !bounds_of(points).min.x.nan(),
        !bounds_of(points).min.y.nan(),
        !bounds_of(points).max.x.nan(),
        !bounds_of(points).max.y.nan(),
    decreases points.len(),
{
    if points.len() > 0 {
        lemma_bounds_are_numbers(points.drop_last());
        assert(!points.last().x.nan() && !points.last().y.nan());
    }
}

} // verus!
