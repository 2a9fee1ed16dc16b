//! Where regions stand on the map, how far apart, and which way their labels go.
use crate::arithmetic::{larger, product_of, quotient_of, sum_of};
use crate::geometry::{distance_of, divided, length_of, origin, square_of, subtracted};
use crate::palette::one;
use crate::quantity::{infinity, zero, Quantity};
use crate::ranking::{ranked, sorted};
use crate::world::{Point, World};
use vstd::prelude::*;

verus! {

/// Where every region stands.
pub fn region_positions(world: &World) -> (positions: Vec<Point>)
    ensures
        positions@ == Seq::new(world.regions@.len(), |i: int| world.regions@[i].position),
{
    let mut positions: Vec<Point> = Vec::new();
    let mut i: usize = 0;
    while i < world.regions.len()
        invariant
            i <= world.regions.len(),
            positions.len() == i,
            forall|k: int| 0 <= k < i ==> #[trigger] positions@[k] == world.regions@[k].position,
        decreases world.regions.len() - i,
    {
        positions.push(world.regions[i].position);
        i += 1;
    }
    positions
}

/// A thousandth, below which a distance counts as none.
pub open spec fn hair() -> Quantity {
    Quantity { bits: 0x3a83_126f }
}

/// Straight up.
pub open spec fn upward() -> Point {
    Point { x: zero(), y: one() }
}

/// Places weighed together: their weights, and the places times their weights.
#[derive(Clone, Copy, Debug, PartialEq, Eq, Structural)]
pub struct Pull {
    pub weight: Quantity,
    pub at: Point,
}

/// How strongly one place pulls at another: the nearer, the stronger.
pub open spec fn weight_of(from: Point, to: Point) -> Quantity {
    quotient_of(one(), larger(square_of(subtracted(to, from)), hair()))
}

/// What the first `n` places, but for place `i`, pull at place `i`.
pub open spec fn pull_of(places: Seq<Point>, i: int, n: nat) -> Pull
    decreases n,
{
    if n == 0 {
        Pull { weight: zero(), at: origin() }
    } else {
        let before = pull_of(places, i, (n - 1) as nat);
        let p = places[n - 1];
        if n - 1 == i {
            before
        } else {
            let weight = weight_of(places[i], p);
            Pull {
                weight: sum_of(before.weight, weight),
                at: Point {
                    x: sum_of(before.at.x, product_of(weight, p.x)),
                    y: sum_of(before.at.y, product_of(weight, p.y)),
                },
            }
        }
    }
}

/// The direction in which the label of a place goes: away from what pulls at it, or upward where
/// nothing does or where it pulls from all sides.
pub open spec fn push_of(places: Seq<Point>, i: int) -> Point {
    let pull = pull_of(places, i, places.len());
    if pull.weight.at_most(zero()) {
        upward()
    } else {
        let away = subtracted(places[i], divided(pull.at, pull.weight));
        if hair().less(length_of(away)) {
            divided(away, length_of(away))
        } else {
            upward()
        }
    }
}

fn pull(places: &Vec<Point>, i: usize) -> (pull: Pull)
    requires
        i < places@.len(),
    ensures
        pull == pull_of(places@, i as int, places@.len()),
{
    let zero = Quantity { bits: 0 };
    let mut pull = Pull { weight: zero, at: Point { x: zero, y: zero } };
    let mut j: usize = 0;
    while j < places.len()
        invariant
            i < places@.len(),
            j <= places.len(),
            pull == pull_of(places@, i as int, j as nat),
        decreases places.len() - j,
    {
        let p = places[j];
        if j != i {
            let square = p.minus(places[i]).square().or_larger(Quantity { bits: 0x3a83_126f });
            let weight = (Quantity { bits: 0x3f80_0000 }).over(square);
            pull = Pull {
                weight: pull.weight.plus(weight),
                at: Point { x: pull.at.x.plus(weight.times(p.x)), y: pull.at.y.plus(weight.times(p.y)) },
            };
        }
        j += 1;
    }
    pull
}

/// The direction in which the label of each place goes.
pub fn label_push_directions(positions: &Vec<Point>) -> (directions: Vec<Point>)
    ensures
        directions@ == Seq::new(positions@.len(), |i: int| push_of(positions@, i)),
{
    let up = Point { x: Quantity { bits: 0 }, y: Quantity { bits: 0x3f80_0000 } };
    let mut directions: Vec<Point> = Vec::new();
    let mut i: usize = 0;
    while i < positions.len()
        invariant
            i <= positions.len(),
            up == upward(),
            directions.len() == i,
            forall|k: int| 0 <= k < i ==> #[trigger] directions@[k] == push_of(positions@, k),
        decreases positions.len() - i,
    {
        let pull = pull(positions, i);
        let direction = if pull.weight.is_at_most(Quantity { bits: 0 }) {
            up
        } else {
            let away = positions[i].minus(pull.at.over(pull.weight));
            let length = away.length();
            if (Quantity { bits: 0x3a83_126f }).is_less(length) {
                away.over(length)
            } else {
                up
            }
        };
        directions.push(direction);
        i += 1;
    }
    directions
}

/// A place with no other around has its label above.
pub proof fn a_lone_label_goes_up(places: Seq<Point>)
    requires
        places.len() == 1,
    ensures
        push_of(places, 0) == upward(),
{
    reveal_with_fuel(pull_of, 2);
}

/// The least distance from place `i` to the others among the first `n`; infinity if there is none.
pub open spec fn nearest_of(places: Seq<Point>, i: int, n: nat) -> Quantity
    decreases n,
{
    if n == 0 {
        infinity()
    } else {
        let before = nearest_of(places, i, (n - 1) as nat);
        let distance = distance_of(places[n - 1], places[i]);
        if n - 1 != i && distance.less(before) {
            distance
        } else {
            before
        }
    }
}

/// The least distance from each place to another.
pub open spec fn nearest_all(places: Seq<Point>) -> Seq<Quantity> {
    Seq::new(places.len(), |i: int| nearest_of(places, i, places.len()))
}

/// The typical distance between neighbours: the middle one of the distances from each place to its
/// nearest other. With fewer than two places it is 0.
pub open spec fn pitch_of(places: Seq<Point>) -> Quantity {
    if places.len() < 2 {
        zero()
    } else {
        ranked(nearest_all(places))[(places.len() / 2) as int]
    }
}

fn nearest(places: &Vec<Point>, i: usize) -> (least: Quantity)
    requires
        i < places@.len(),
    ensures
        least == nearest_of(places@, i as int, places@.len()),
{
    let mut best = Quantity { bits: 0x7f80_0000 };
    let mut j: usize = 0;
    while j < places.len()
        invariant
            i < places@.len(),
            j <= places.len(),
            best == nearest_of(places@, i as int, j as nat),
        decreases places.len() - j,
    {
        if j != i {
            let distance = places[j].distance(places[i]);
            if distance.is_less(best) {
                best = distance;
            }
        }
        j += 1;
    }
    best
}

/// The typical distance between neighbours.
pub fn nearest_neighbor_pitch(positions: &Vec<Point>) -> (pitch: Quantity)
    ensures
        pitch == pitch_of(positions@),
{
    let n: usize = positions.len();
    if n < 2 {
        return Quantity { bits: 0 };
    }
    let mut list: Vec<Quantity> = Vec::new();
    let mut i: usize = 0;
    while i < n
        invariant
            i <= n == positions.len(),
            list.len() == i,
            forall|k: int| 0 <= k < i ==> #[trigger] list@[k] == nearest_of(positions@, k, n as nat),
        decreases n - i,
    {
        list.push(nearest(positions, i));
        i += 1;
    }
    assert(list@ =~= nearest_all(positions@));
    let order = sorted(&list);
    order[n / 2]
}

/// The distance to the nearest other place is at most the distance to any other.
pub proof fn nearest_is_least(places: Seq<Point>, i: int, n: nat, j: int)
    requires
        0 <= j < n <= places.len(),
        j != i,
        !distance_of(places[j], places[i]).nan(),
    ensures
        nearest_of(places, i, n).at_most(distance_of(places[j], places[i])),
    decreases n,
{
    nearest_is_a_number(places, i, (n - 1) as nat);
    if j < n - 1 {
        nearest_is_least(places, i, (n - 1) as nat, j);
    }
}

/// The distance to the nearest other place is a number or infinity.
pub proof fn nearest_is_a_number(places: Seq<Point>, i: int, n: nat)
    requires
        n <= places.len(),
    ensures
        !nearest_of(places, i, n).nan(),
        nearest_of(places, i, n).rank() <= infinity().rank(),
    decreases n,
{
    if n > 0 {
        nearest_is_a_number(places, i, (n - 1) as nat);
    }
}

} // verus!
