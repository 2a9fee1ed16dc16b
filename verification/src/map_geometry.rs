//! How large regions are drawn, and where sea zones are.
use crate::arithmetic::{
    held_between, held_within, larger, product_of, products_are_numbers, products_commute, quotient_of, root_of,
    roots_are_numbers, sum_of,
};
use crate::arithmetic_laws::{nothing_multiplied_is_nothing, products_ascend, ranges_keep_order, roots_ascend};
use crate::geometry::{
    added, bounds, bounds_of, centroid, centroid_of, length_of, normalized, scaled, square_of, subtracted,
};
use crate::layout::{nearest_neighbor_pitch, pitch_of};
use crate::layout_laws::the_pitch_is_a_number;
use crate::map_setup::{dense, is_dense};
use crate::palette::one;
use crate::quantity::{zero, Quantity};
use crate::types::RegionId;
use crate::world::{Point, World};
use vstd::prelude::*;

verus! {

/// The least radius of a region: 9.
pub open spec fn least_radius() -> Quantity {
    Quantity { bits: 0x4110_0000 }
}

/// The largest radius of a region: 22.
pub open spec fn largest_radius() -> Quantity {
    Quantity { bits: 0x41b0_0000 }
}

/// How much of a hexagon on a dense map is filled: 23 parts of 25.
pub open spec fn hexagon_fill() -> Quantity {
    Quantity { bits: 0x3f6b_851f }
}

/// The radius of a region by its population: two fifths of the root, within limits.
pub open spec fn radius_of(population: Quantity) -> Quantity {
    held_between(
        product_of(root_of(larger(population, zero())), Quantity { bits: 0x3ecc_cccd }),
        least_radius(),
        largest_radius(),
    )
}

/// The radius of a region by its population.
pub fn region_radius(population: Quantity) -> (radius: Quantity)
    ensures
        radius == radius_of(population),
{
    population.or_larger(Quantity { bits: 0 }).root().times(Quantity { bits: 0x3ecc_cccd }).hold_between(
        Quantity { bits: 0x4110_0000 },
        Quantity { bits: 0x41b0_0000 },
    )
}

/// The radius of all regions on a dense map, where hexagons lie side by side.
pub open spec fn hexagon_radius(places: Seq<Point>) -> Quantity {
    held_between(
        product_of(quotient_of(pitch_of(places), root_of(Quantity { bits: 0x4040_0000 })), hexagon_fill()),
        least_radius(),
        largest_radius(),
    )
}

/// The radius of every region.
pub open spec fn radii_of(world: World, places: Seq<Point>) -> Seq<Quantity> {
    Seq::new(
        world.regions@.len(),
        |i: int|
            if dense(world) {
                hexagon_radius(places)
            } else {
                radius_of(world.regions@[i].population)
            },
    )
}

/// The radius of every region: by its population, or on a dense map one for all.
pub fn compute_region_radii(world: &World, positions: &Vec<Point>) -> (radii: Vec<Quantity>)
    ensures
        radii@ == radii_of(*world, positions@),
{
    let all_alike = is_dense(world);
    let hexagon = if all_alike {
        let pitch = nearest_neighbor_pitch(positions);
        pitch.over((Quantity { bits: 0x4040_0000 }).root()).times(Quantity { bits: 0x3f6b_851f }).hold_between(
            Quantity { bits: 0x4110_0000 },
            Quantity { bits: 0x41b0_0000 },
        )
    } else {
        Quantity { bits: 0 }
    };
    let mut radii: Vec<Quantity> = Vec::new();
    let mut i: usize = 0;
    while i < world.regions.len()
        invariant
            i <= world.regions.len(),
            all_alike == dense(*world),
            all_alike ==> hexagon == hexagon_radius(positions@),
            radii.len() == i,
            forall|k: int| 0 <= k < i ==> #[trigger] radii@[k] == radii_of(*world, positions@)[k],
        decreases world.regions.len() - i,
    {
        radii.push(
            if all_alike {
                hexagon
            } else {
                region_radius(world.regions[i].population)
            },
        );
        i += 1;
    }
    assert(radii@ =~= radii_of(*world, positions@));
    radii
}

/// The radius of the ring that shows the owner of a region.
pub open spec fn border_of(radius: Quantity, is_dense: bool) -> Quantity {
    if is_dense {
        quotient_of(radius, hexagon_fill())
    } else {
        sum_of(
            radius,
            held_between(
                product_of(radius, Quantity { bits: 0x3e38_51ec }),
                Quantity { bits: 0x4000_0000 },
                Quantity { bits: 0x40a0_0000 },
            ),
        )
    }
}

/// The radius of the ring that shows the owner of a region: on a dense map up to the next hexagon,
/// else a little more than the region's, by 2 to 5.
pub fn owner_border_radius(radius: Quantity, is_dense: bool) -> (border: Quantity)
    ensures
        border == border_of(radius, is_dense),
{
    if is_dense {
        radius.over(Quantity { bits: 0x3f6b_851f })
    } else {
        let more = radius.times(Quantity { bits: 0x3e38_51ec }).hold_between(
            Quantity { bits: 0x4000_0000 },
            Quantity { bits: 0x40a0_0000 },
        );
        radius.plus(more)
    }
}

/// How far off its coast a sea zone is: 12 parts of 100 of the map's diagonal, and at least 40.
pub open spec fn push_distance(places: Seq<Point>) -> Quantity {
    if places.len() == 0 {
        zero()
    } else {
        let b = bounds_of(places);
        larger(product_of(length_of(subtracted(b.max, b.min)), Quantity { bits: 0x3df5_c28f }), Quantity { bits: 0x4220_0000 })
    }
}

fn outward_push_distance(places: &Vec<Point>) -> (distance: Quantity)
    ensures
        distance == push_distance(places@),
{
    if places.len() == 0 {
        return Quantity { bits: 0 };
    }
    let b = bounds(places);
    b.max.minus(b.min).length().times(Quantity { bits: 0x3df5_c28f }).or_larger(Quantity { bits: 0x4220_0000 })
}

/// The places of some regions.
pub open spec fn places_of(places: Seq<Point>, regions: Seq<RegionId>) -> Seq<Point> {
    Seq::new(regions.len(), |i: int| places[regions[i].0 as int])
}

/// Where a sea zone is drawn: off the middle of its coast, away from the middle of the map; in the
/// middle of the map if it has no coast.
pub open spec fn zone_center(places: Seq<Point>, coast: Seq<RegionId>) -> Point {
    let middle = centroid_of(places);
    if coast.len() == 0 {
        middle
    } else {
        let off = centroid_of(places_of(places, coast));
        let away = subtracted(off, middle);
        let direction = if (Quantity { bits: 0x3586_37bd }).less(square_of(away)) {
            normalized(away)
        } else {
            Point { x: one(), y: zero() }
        };
        added(off, scaled(direction, push_distance(places)))
    }
}

fn coastal_places(positions: &Vec<Point>, coast: &Vec<RegionId>) -> (places: Vec<Point>)
    requires
        forall|k: int| 0 <= k < coast@.len() ==> (#[trigger] coast@[k]).0 < positions@.len(),
    ensures
        places@ == places_of(positions@, coast@),
{
    let mut places: Vec<Point> = Vec::new();
    let mut i: usize = 0;
    while i < coast.len()
        invariant
            i <= coast.len(),
            forall|k: int| 0 <= k < coast@.len() ==> (#[trigger] coast@[k]).0 < positions@.len(),
            places.len() == i,
            forall|k: int| 0 <= k < i ==> #[trigger] places@[k] == positions@[coast@[k].0 as int],
        decreases coast.len() - i,
    {
        assert(coast@[i as int].0 < positions@.len());
        places.push(positions[coast[i].0 as usize]);
        i += 1;
    }
    assert(places@ =~= places_of(positions@, coast@));
    places
}

/// Where the sea zones are drawn.
pub fn sea_zone_centers(world: &World, positions: &Vec<Point>) -> (centers: Vec<Point>)
    requires
        world.valid(),
        positions@.len() == world.regions@.len(),
    ensures
        centers@ == Seq::new(world.sea_zones@.len(), |i: int| zone_center(positions@, world.sea_zones@[i].coast@)),
{
    let middle = centroid(positions);
    let push = outward_push_distance(positions);
    let mut centers: Vec<Point> = Vec::new();
    let mut i: usize = 0;
    while i < world.sea_zones.len()
        invariant
            world.valid(),
            positions@.len() == world.regions@.len(),
            middle == centroid_of(positions@),
            push == push_distance(positions@),
            i <= world.sea_zones.len(),
            centers.len() == i,
            forall|k: int| 0 <= k < i ==> #[trigger] centers@[k] == zone_center(positions@, world.sea_zones@[k].coast@),
        decreases world.sea_zones.len() - i,
    {
        let zone = &world.sea_zones[i];
        assert(zone.valid(world.regions@.len(), world.factions@.len()));
        let center = if zone.coast.len() == 0 {
            middle
        } else {
            let off = centroid(&coastal_places(positions, &zone.coast));
            let away = off.minus(middle);
            let direction = if (Quantity { bits: 0x3586_37bd }).is_less(away.square()) {
                away.normalize()
            } else {
                Point { x: Quantity { bits: 0x3f80_0000 }, y: Quantity { bits: 0 } }
            };
            off.plus(direction.times(push))
        };
        centers.push(center);
        i += 1;
    }
    assert(centers@ =~= Seq::new(world.sea_zones@.len(), |k: int| zone_center(positions@, world.sea_zones@[k].coast@)));
    centers
}

/// A region with more people is never drawn smaller.
pub proof fn radii_grow_with_the_population(fewer: Quantity, more: Quantity)
    requires
        fewer.at_most(more),
    ensures
        radius_of(fewer).at_most(radius_of(more)),
{
    let share = Quantity { bits: 0x3ecc_cccd };
    let a = larger(fewer, zero());
    let b = larger(more, zero());
    roots_are_numbers(a);
    roots_are_numbers(b);
    roots_ascend(a, b);
    products_are_numbers(root_of(a), share);
    products_are_numbers(root_of(b), share);
    held_within(product_of(root_of(a), share), least_radius(), largest_radius());
    held_within(product_of(root_of(b), share), least_radius(), largest_radius());
    if root_of(b).finite() {
        if a.rank() == 0 {
            nothing_multiplied_is_nothing(a, share);
        } else {
            products_commute(root_of(a), share);
            products_commute(root_of(b), share);
            products_ascend(root_of(a), root_of(b), share);
            ranges_keep_order(
                product_of(root_of(a), share),
                product_of(root_of(b), share),
                least_radius(),
                largest_radius(),
            );
        }
    }
}

/// No region is drawn smaller or larger than the limits, whatever its population and however close the
/// regions lie.
pub proof fn radii_stay_within_limits(world: World, places: Seq<Point>, i: int)
    requires
        0 <= i < world.regions@.len(),
    ensures
        least_radius().at_most(radii_of(world, places)[i]),
        radii_of(world, places)[i].at_most(largest_radius()),
{
    let population = world.regions@[i].population;
    let root = root_of(larger(population, zero()));
    roots_are_numbers(larger(population, zero()));
    products_are_numbers(root, Quantity { bits: 0x3ecc_cccd });
    held_within(product_of(root, Quantity { bits: 0x3ecc_cccd }), least_radius(), largest_radius());
    if dense(world) {
        the_pitch_is_a_number(places);
        let three = root_of(Quantity { bits: 0x4040_0000 });
        roots_are_numbers(Quantity { bits: 0x4040_0000 });
        products_are_numbers(quotient_of(pitch_of(places), three), hexagon_fill());
        held_within(product_of(quotient_of(pitch_of(places), three), hexagon_fill()), least_radius(), largest_radius());
    }
}

} // verus!
