//! What is put on the map when the game starts.
use crate::map_mode::populations;
use crate::quantity::{infinity, Quantity};
use crate::ranking::{at_percent, percentile, sorted};
use crate::types::{RegionId, Station};
use crate::world::{Link, LinkKind, Point, World};
use vstd::prelude::*;

verus! {

/// A map with more regions than this is dense: regions are hexagons of one size, and only the names
/// of significant regions show all the time.
pub const DENSE_REGION_THRESHOLD: usize = 100;

/// Whether a map is dense.
pub open spec fn dense(world: World) -> bool {
    world.regions@.len() > DENSE_REGION_THRESHOLD
}

/// Whether a map is dense.
pub fn is_dense(world: &World) -> (yes: bool)
    ensures
        yes == dense(*world),
{
    world.regions.len() > DENSE_REGION_THRESHOLD
}

/// The population from which on a region is significant: that of the region nine tenths of the way
/// up. Without regions, none is enough.
pub open spec fn significance_threshold(world: World) -> Quantity {
    if world.regions@.len() == 0 {
        infinity()
    } else {
        percentile(populations(world), 90)
    }
}

fn population_significance_threshold(world: &World) -> (threshold: Quantity)
    ensures
        threshold == significance_threshold(*world),
{
    if world.regions.len() == 0 {
        return Quantity { bits: 0x7f80_0000 };
    }
    let mut values: Vec<Quantity> = Vec::new();
    let mut i: usize = 0;
    while i < world.regions.len()
        invariant
            i <= world.regions.len(),
            values.len() == i,
            forall|k: int| 0 <= k < i ==> #[trigger] values@[k] == world.regions@[k].population,
        decreases world.regions.len() - i,
    {
        values.push(world.regions[i].population);
        i += 1;
    }
    assert(values@ =~= populations(*world));
    at_percent(&sorted(&values), 90)
}

/// Whether a region is the capital of a faction.
pub open spec fn is_capital(world: World, region: RegionId) -> bool {
    exists|f: int| 0 <= f < world.factions@.len() && (#[trigger] world.factions@[f]).capital == region
}

/// Whether a region is significant: a capital, or one with many people.
pub open spec fn significant(world: World, region: RegionId) -> bool {
    is_capital(world, region) || significance_threshold(world).at_most(world.region_at(region).population)
}

fn is_significant(world: &World, region: RegionId, threshold: Quantity) -> (yes: bool)
    requires
        world.has_region(region),
        threshold == significance_threshold(*world),
    ensures
        yes == significant(*world, region),
{
    if threshold.is_at_most(world.region(region).population) {
        return true;
    }
    let mut f: usize = 0;
    while f < world.factions.len()
        invariant
            f <= world.factions.len(),
            forall|k: int| 0 <= k < f ==> (#[trigger] world.factions@[k]).capital != region,
        decreases world.factions.len() - f,
    {
        if world.factions[f].capital == region {
            return true;
        }
        f += 1;
    }
    false
}

/// Every faction's capital is significant.
pub proof fn capitals_are_significant(world: World, f: int)
    requires
        0 <= f < world.factions@.len(),
    ensures
        significant(world, world.factions@[f].capital),
{
}

/// For every region: whether its name shows all the time. On a map that is not dense, every name
/// does.
pub fn significant_regions(world: &World) -> (always: Vec<bool>)
    requires
        world.regions@.len() <= u32::MAX,
    ensures
        always@.len() == world.regions@.len(),
        forall|i: int|
            0 <= i < always@.len() ==> #[trigger] always@[i] == (!dense(*world) || significant(
                *world,
                RegionId(i as u32),
            )),
{
    let is_dense = is_dense(world);
    let threshold = population_significance_threshold(world);
    let mut always: Vec<bool> = Vec::new();
    let mut i: usize = 0;
    while i < world.regions.len()
        invariant
            i <= world.regions.len() <= u32::MAX,
            always.len() == i,
            is_dense == dense(*world),
            threshold == significance_threshold(*world),
            forall|k: int|
                0 <= k < i ==> #[trigger] always@[k] == (!dense(*world) || significant(*world, RegionId(k as u32))),
        decreases world.regions.len() - i,
    {
        always.push(!is_dense || is_significant(world, RegionId(i as u32), threshold));
        i += 1;
    }
    always
}

/// A link between two regions.
#[derive(Clone, Copy, Debug, PartialEq, Eq, Structural)]
pub struct DrawnLink {
    pub a: RegionId,
    pub b: RegionId,
    pub kind: LinkKind,
}

/// Whether two links join the same regions, in whichever direction.
pub open spec fn same_pair(x: DrawnLink, y: DrawnLink) -> bool {
    (x.a == y.a && x.b == y.b) || (x.a == y.b && x.b == y.a)
}

/// The links of a region.
pub open spec fn links_from(region: RegionId, links: Seq<Link>) -> Seq<DrawnLink> {
    Seq::new(links.len(), |k: int| DrawnLink { a: region, b: links[k].to, kind: links[k].kind })
}

/// The links of the first `n` regions.
pub open spec fn links_of(world: World, n: nat) -> Seq<DrawnLink>
    decreases n,
{
    if n == 0 {
        Seq::empty()
    } else {
        links_of(world, (n - 1) as nat) + links_from(RegionId((n - 1) as u32), world.regions@[n - 1].links@)
    }
}

/// Whether a link joins the same regions as one of a list.
pub open spec fn joined_by(list: Seq<DrawnLink>, link: DrawnLink) -> bool {
    exists|k: int| 0 <= k < list.len() && same_pair(#[trigger] list[k], link)
}

/// The first link of each pair of regions.
pub open spec fn first_of_pairs(links: Seq<DrawnLink>) -> Seq<DrawnLink>
    decreases links.len(),
{
    if links.len() == 0 {
        Seq::empty()
    } else {
        let before = first_of_pairs(links.drop_last());
        if joined_by(before, links.last()) {
            before
        } else {
            before.push(links.last())
        }
    }
}

fn is_joined(list: &Vec<DrawnLink>, link: DrawnLink) -> (yes: bool)
    ensures
        yes == joined_by(list@, link),
{
    let mut i: usize = 0;
    while i < list.len()
        invariant
            i <= list.len(),
            forall|k: int| 0 <= k < i ==> !same_pair(#[trigger] list@[k], link),
        decreases list.len() - i,
    {
        let x = list[i];
        if (x.a == link.a && x.b == link.b) || (x.a == link.b && x.b == link.a) {
            assert(same_pair(list@[i as int], link));
            return true;
        }
        i += 1;
    }
    false
}

/// The links to draw: one for each pair of regions that a link joins.
pub fn links_to_draw(world: &World) -> (links: Vec<DrawnLink>)
    requires
        world.regions@.len() <= u32::MAX,
    ensures
        links@ == first_of_pairs(links_of(*world, world.regions@.len())),
{
    let mut links: Vec<DrawnLink> = Vec::new();
    let mut i: usize = 0;
    while i < world.regions.len()
        invariant
            i <= world.regions.len() <= u32::MAX,
            links@ == first_of_pairs(links_of(*world, i as nat)),
        decreases world.regions.len() - i,
    {
        let from = RegionId(i as u32);
        let ghost before = links_of(*world, i as nat);
        let ghost all = links_from(from, world.regions@[i as int].links@);
        let mut k: usize = 0;
        assert(before + all.take(0) =~= before);
        while k < world.regions[i].links.len()
            invariant
                i < world.regions.len(),
                k <= world.regions@[i as int].links@.len(),
                all == links_from(from, world.regions@[i as int].links@),
                links@ == first_of_pairs(before + all.take(k as int)),
            decreases world.regions@[i as int].links@.len() - k,
        {
            let link = world.regions[i].links[k];
            let drawn = DrawnLink { a: from, b: link.to, kind: link.kind };
            assert((before + all.take(k + 1)).drop_last() =~= before + all.take(k as int));
            assert((before + all.take(k + 1)).last() == drawn);
            if !is_joined(&links, drawn) {
                links.push(drawn);
            }
            k += 1;
        }
        assert(all.take(k as int) =~= all);
        i += 1;
    }
    links
}

/// Each pair of regions is drawn at most once.
pub proof fn pairs_are_drawn_once(links: Seq<DrawnLink>, i: int, j: int)
    requires
        0 <= i < j < first_of_pairs(links).len(),
    ensures
        !same_pair(first_of_pairs(links)[i], first_of_pairs(links)[j]),
    decreases links.len(),
{
    let before = first_of_pairs(links.drop_last());
    if j < before.len() {
        pairs_are_drawn_once(links.drop_last(), i, j);
    } else {
        assert(!joined_by(before, links.last()));
        assert(before[i] == first_of_pairs(links)[i]);
    }
}

/// Each pair of regions that a link joins is drawn.
pub proof fn every_pair_is_drawn(links: Seq<DrawnLink>, i: int)
    requires
        0 <= i < links.len(),
    ensures
        joined_by(first_of_pairs(links), links[i]),
    decreases links.len(),
{
    let before = first_of_pairs(links.drop_last());
    let after = first_of_pairs(links);
    if i < links.len() - 1 {
        every_pair_is_drawn(links.drop_last(), i);
        let k = choose|k: int| 0 <= k < before.len() && same_pair(#[trigger] before[k], links[i]);
        assert(after[k] == before[k]);
    } else if !joined_by(before, links.last()) {
        assert(after[before.len() as int] == links.last());
    }
}

/// The radius of a sea zone: it grows with its coast, within limits.
pub open spec fn zone_radius(coast: nat) -> nat {
    if coast < 6 {
        14 + 3 * coast
    } else {
        32
    }
}

/// The radius of a sea zone with so many coastal regions.
pub fn sea_zone_radius(coast: usize) -> (radius: u8)
    ensures
        radius == zone_radius(coast as nat),
{
    if coast < 6 {
        14 + 3 * coast as u8
    } else {
        32
    }
}

/// Where a place is: a region or sea zone at its own position, an airfield at its region's.
pub open spec fn place_of(world: World, station: Station, regions: Seq<Point>, zones: Seq<Point>) -> Point {
    match station {
        Station::Region(r) => regions[r.0 as int],
        Station::Sea(z) => zones[z.0 as int],
        Station::Airfield(n) => regions[world.nodes@[n.0 as int].region.0 as int],
    }
}

/// Where a place is.
pub fn station_position(world: &World, station: Station, regions: &Vec<Point>, zones: &Vec<Point>) -> (point: Point)
    requires
        world.valid(),
        world.has_station(station),
        regions@.len() == world.regions@.len(),
        zones@.len() == world.sea_zones@.len(),
    ensures
        point == place_of(*world, station, regions@, zones@),
{
    match station {
        Station::Region(r) => regions[r.0 as usize],
        Station::Sea(z) => zones[z.0 as usize],
        Station::Airfield(n) => regions[world.transport_node(n).region.0 as usize],
    }
}

} // verus!
