//! How regions, sea zones, units and labels look on the map.
use crate::arithmetic::{difference_of, held_between, product_of, quotient_of, sum_of};
use crate::client::Ui;
use crate::map_mode::{
    band, capacities, cuts_of, industry_fill, industry_mix, industry_thresholds, population_band_rgb, population_fill,
    population_thresholds, populations, terrain_fill, terrain_rgb, unrest_fill, unrest_mix, Cuts, MapMode, Mix, Share,
};
use crate::palette::{clamped, faction_color, faction_rgb, neutral, neutral_rgb, one, rgb, Rgb, Unit01};
use crate::quantity::Quantity;
use crate::types::{Good, RegionId, Station, UnitId};
use crate::world::{Balance, Branch, Region, Unit, World, GOOD_COUNT};
use vstd::prelude::*;

verus! {

/// The colour that devastation mixes in.
pub open spec fn scorched_rgb() -> Rgb {
    rgb(16, 13, 10)
}

/// What marks a unit handed over to an agent: nearly two thirds of a bright colour.
pub open spec fn delegated_tint() -> Tint {
    Tint { color: rgb(98, 98, 95), share: Quantity { bits: 0x3f26_6666 } }
}

/// How far complete devastation goes to scorched earth: four fifths.
pub open spec fn most_scorched() -> Quantity {
    Quantity { bits: 0x3f4c_cccd }
}

/// At most 1 of a quantity.
pub open spec fn up_to_one(v: Quantity) -> Quantity {
    if one().less(v) {
        one()
    } else {
        v
    }
}

/// A colour to go to, and how far.
#[derive(Clone, Copy, Debug, PartialEq, Eq, Structural)]
pub struct Tint {
    pub color: Rgb,
    pub share: Quantity,
}

/// A region on the political map: the owner's colour, on the way to the occupier's, on the way to
/// scorched earth.
#[derive(Clone, Copy, Debug, PartialEq, Eq, Structural)]
pub struct PoliticalFill {
    pub owner: Rgb,
    /// The occupier's colour, and how far to go there.
    pub occupier: Option<Tint>,
    pub scorched: Rgb,
    /// How far to go to scorched earth.
    pub scorch: Unit01,
}

/// A region on the political map.
pub ghost struct PoliticalFillView {
    pub owner: Rgb,
    pub occupier: Option<Tint>,
    pub scorched: Rgb,
    pub scorch: Quantity,
}

impl View for PoliticalFill {
    type V = PoliticalFillView;

    open spec fn view(&self) -> PoliticalFillView {
        PoliticalFillView {
            owner: self.owner,
            occupier: self.occupier,
            scorched: self.scorched,
            scorch: self.scorch@,
        }
    }
}

/// How a region looks on the political map. An occupier shows as soon as the occupation has begun.
pub open spec fn political_fill(region: Region) -> PoliticalFillView {
    PoliticalFillView {
        owner: faction_rgb(region.owner.0 as nat),
        occupier: match region.occupier {
            Some(f) => if region.occupation.positive() {
                Some(Tint { color: faction_rgb(f.0 as nat), share: up_to_one(region.occupation) })
            } else {
                None
            },
            None => None,
        },
        scorched: scorched_rgb(),
        scorch: clamped(product_of(region.devastation, most_scorched())),
    }
}

/// How a region looks on the political map.
pub fn political_fill_color(region: &Region) -> (fill: PoliticalFill)
    ensures
        fill@ == political_fill(*region),
{
    let one = Quantity { bits: 0x3f80_0000 };
    let occupier = match region.occupier {
        Some(f) => if region.occupation.is_positive() {
            let share = if one.is_less(region.occupation) {
                one
            } else {
                region.occupation
            };
            Some(Tint { color: faction_color(f.0 as usize), share })
        } else {
            None
        },
        None => None,
    };
    PoliticalFill {
        owner: faction_color(region.owner.0 as usize),
        occupier,
        scorched: Rgb { r: 16, g: 13, b: 10 },
        scorch: Unit01::new(region.devastation.times(Quantity { bits: 0x3f4c_cccd })),
    }
}

/// The faction with the largest share, the first of several, and its share.
pub open spec fn leader(shares: Seq<Quantity>) -> Option<(nat, Quantity)>
    decreases shares.len(),
{
    if shares.len() == 0 {
        None
    } else {
        match leader(shares.drop_last()) {
            None => Some((0, shares.last())),
            Some((f, share)) => if share.less(shares.last()) {
                Some(((shares.len() - 1) as nat, shares.last()))
            } else {
                Some((f, share))
            },
        }
    }
}

/// Where every share is a number, the leader has the largest, and everyone before it has less.
pub proof fn nobody_leads_the_leader(shares: Seq<Quantity>, i: int)
    requires
        0 <= i < shares.len(),
        forall|k: int| 0 <= k < shares.len() ==> !(#[trigger] shares[k]).nan(),
    ensures
        leader(shares) matches Some((f, share)) && f < shares.len() && shares[f as int] == share
            && shares[i].at_most(share) && (i < f ==> shares[i].less(share)),
    decreases shares.len(),
{
    let rest = shares.drop_last();
    assert forall|k: int| 0 <= k < rest.len() implies !(#[trigger] rest[k]).nan() by {
        assert(rest[k] == shares[k]);
    }
    if rest.len() > 0 {
        assert(!shares.last().nan());
        if i < rest.len() {
            nobody_leads_the_leader(rest, i);
            assert(rest[i] == shares[i]);
        } else {
            nobody_leads_the_leader(rest, 0);
        }
    }
}

/// Who holds something: nobody, or the faction with that colour.
#[derive(Clone, Copy, Debug, PartialEq, Eq, Structural)]
pub struct Holding {
    pub color: Rgb,
    /// How far to go to the neutral colour: by what the leader's share lacks. `None` if nobody holds
    /// anything.
    pub fade: Option<Quantity>,
}

/// Who holds something of which factions have shares.
pub open spec fn holding_of(shares: Seq<Quantity>) -> Holding {
    match leader(shares) {
        Some((f, share)) => if share.positive() {
            Holding { color: faction_rgb(f), fade: Some(difference_of(one(), share)) }
        } else {
            Holding { color: neutral_rgb(), fade: None }
        },
        None => Holding { color: neutral_rgb(), fade: None },
    }
}

fn holding(shares: &Vec<Quantity>) -> (holding: Holding)
    ensures
        holding == holding_of(shares@),
{
    let mut best: Option<(usize, Quantity)> = None;
    let mut i: usize = 0;
    while i < shares.len()
        invariant
            i <= shares.len(),
            match best {
                None => leader(shares@.take(i as int)) is None,
                Some((f, share)) => leader(shares@.take(i as int)) == Some((f as nat, share)),
            },
            i == 0 <==> best is None,
        decreases shares.len() - i,
    {
        assert(shares@.take(i + 1).drop_last() =~= shares@.take(i as int));
        let share = shares[i];
        let better = match best {
            None => true,
            Some((_, leading)) => leading.is_less(share),
        };
        if better {
            best = Some((i, share));
        }
        i += 1;
    }
    assert(shares@.take(i as int) =~= shares@);
    match best {
        Some((f, share)) => if share.is_positive() {
            Holding { color: faction_color(f), fade: Some((Quantity { bits: 0x3f80_0000 }).minus(share)) }
        } else {
            Holding { color: neutral(), fade: None }
        },
        None => Holding { color: neutral(), fade: None },
    }
}

/// Who holds the air over a region.
pub fn air_superiority_fill(region: &Region) -> (fill: Holding)
    ensures
        fill == holding_of(region.air_superiority@),
{
    holding(&region.air_superiority)
}

/// Who holds a sea zone; the same in every map mode.
pub fn sea_zone_fill(control: &Vec<Quantity>) -> (fill: Holding)
    ensures
        fill == holding_of(control@),
{
    holding(control)
}

/// How a region is filled.
#[derive(Clone, Copy, Debug, PartialEq, Eq, Structural)]
pub enum RegionFill {
    Political(PoliticalFill),
    Solid(Rgb),
    Mixed(Mix),
}

/// Whether a region is filled as the map mode wants it.
pub open spec fn filled_for(mode: MapMode, region: Region, active_good: Good, world: World, fill: RegionFill) -> bool {
    match mode {
        MapMode::Political | MapMode::Supply => fill matches RegionFill::Political(f) && f@ == political_fill(region),
        MapMode::Terrain => fill == RegionFill::Solid(terrain_rgb(region.terrain)),
        MapMode::Population => fill == RegionFill::Solid(
            population_band_rgb(band(region.population, cuts_of(populations(world)))),
        ),
        MapMode::Industry => fill == RegionFill::Mixed(
            industry_mix(
                region.capacity@[active_good.position()],
                active_good,
                cuts_of(capacities(world, active_good)),
            ),
        ),
        MapMode::Unrest => fill matches RegionFill::Mixed(mix) && mix.share matches Share::Of(share) && (
            mix.from,
            mix.to,
            share@,
        ) == unrest_mix(region.unrest, region.devastation),
    }
}

fn region_fill(mode: MapMode, region: &Region, active_good: Good, population_cuts: Cuts, industry_cuts: Cuts, Ghost(world): Ghost<World>) -> (fill: RegionFill)
    requires
        region.capacity@.len() == GOOD_COUNT,
        population_cuts == cuts_of(populations(world)),
        industry_cuts == cuts_of(capacities(world, active_good)),
    ensures
        filled_for(mode, *region, active_good, world, fill),
{
    match mode {
        MapMode::Political | MapMode::Supply => RegionFill::Political(political_fill_color(region)),
        MapMode::Terrain => RegionFill::Solid(terrain_fill(region.terrain)),
        MapMode::Population => RegionFill::Solid(population_fill(region.population, population_cuts)),
        MapMode::Industry => RegionFill::Mixed(industry_fill(region, active_good, industry_cuts)),
        MapMode::Unrest => RegionFill::Mixed(unrest_fill(region)),
    }
}

/// How every region is filled. Population and industry are banded by the world's own quintiles.
pub fn sync_region_visuals(ui: &Ui, world: &World) -> (fills: Vec<RegionFill>)
    requires
        world.valid(),
    ensures
        fills@.len() == world.regions@.len(),
        forall|i: int|
            0 <= i < fills@.len() ==> filled_for(
                ui.map_mode,
                world.regions@[i],
                ui.active_good,
                *world,
                #[trigger] fills@[i],
            ),
{
    let population_cuts = population_thresholds(world);
    let industry_cuts = industry_thresholds(world, ui.active_good);
    let mut fills: Vec<RegionFill> = Vec::new();
    let mut i: usize = 0;
    while i < world.regions.len()
        invariant
            i <= world.regions.len(),
            world.valid(),
            fills.len() == i,
            population_cuts == cuts_of(populations(*world)),
            industry_cuts == cuts_of(capacities(*world, ui.active_good)),
            forall|k: int|
                0 <= k < i ==> filled_for(ui.map_mode, world.regions@[k], ui.active_good, *world, #[trigger] fills@[k]),
        decreases world.regions.len() - i,
    {
        fills.push(
            region_fill(ui.map_mode, &world.regions[i], ui.active_good, population_cuts, industry_cuts, Ghost(*world)),
        );
        i += 1;
    }
    fills
}

/// The ring around a region: its owner's colour, in every map mode.
pub fn owner_border(region: &Region) -> (color: Rgb)
    ensures
        color == faction_rgb(region.owner.0 as nat),
{
    faction_color(region.owner.0 as usize)
}

/// Whether a unit is drawn at a place: it lives, and stands there.
pub open spec fn stands_at(unit: crate::world::Unit, station: Station) -> bool {
    unit.alive && unit.station == station
}

/// How many of the first `n` units are drawn at a place.
pub open spec fn standing(world: World, station: Station, n: nat) -> nat
    decreases n,
{
    if n == 0 {
        0
    } else {
        standing(world, station, (n - 1) as nat) + if stands_at(world.units@[n - 1], station) {
            1nat
        } else {
            0nat
        }
    }
}

/// Where a unit is drawn: at a place of its own among all that stand where it does.
#[derive(Clone, Copy, Debug, PartialEq, Eq, Structural)]
pub struct Slot {
    pub place: usize,
    pub count: usize,
}

/// The place of a unit among all that stand where it does.
pub fn unit_slot(world: &World, unit: UnitId) -> (slot: Slot)
    requires
        unit.0 < world.units@.len(),
    ensures
        slot.place == standing(*world, world.units@[unit.0 as int].station, unit.0 as nat),
        slot.count == standing(*world, world.units@[unit.0 as int].station, world.units@.len()),
{
    let station = world.units[unit.0 as usize].station;
    let mut place: usize = 0;
    let mut count: usize = 0;
    let mut i: usize = 0;
    while i < world.units.len()
        invariant
            i <= world.units.len(),
            unit.0 < world.units.len(),
            count <= i,
            count == standing(*world, station, i as nat),
            i > unit.0 ==> place == standing(*world, station, unit.0 as nat),
        decreases world.units.len() - i,
    {
        if i == unit.0 as usize {
            place = count;
        }
        if world.units[i].alive && world.units[i].station == station {
            count += 1;
        }
        i += 1;
    }
    Slot { place, count }
}

proof fn standing_grows(world: World, station: Station, m: nat, n: nat)
    requires
        m <= n <= world.units@.len(),
    ensures
        standing(world, station, m) <= standing(world, station, n),
    decreases n - m,
{
    if m < n {
        standing_grows(world, station, m, (n - 1) as nat);
    }
}

/// No two units that are drawn at one place have the same slot there, and every slot lies within the
/// count.
pub proof fn slots_are_distinct(world: World, a: int, b: int)
    requires
        0 <= a < b < world.units@.len(),
        world.units@[a].alive,
        stands_at(world.units@[b], world.units@[a].station),
    ensures
        standing(world, world.units@[a].station, a as nat) < standing(world, world.units@[a].station, b as nat),
        standing(world, world.units@[a].station, b as nat) < standing(
            world,
            world.units@[a].station,
            world.units@.len(),
        ),
{
    let station = world.units@[a].station;
    standing_grows(world, station, (a + 1) as nat, b as nat);
    standing_grows(world, station, (b + 1) as nat, world.units@.len());
}

/// The shape of a unit on the map.
#[derive(Clone, Copy, Debug, PartialEq, Eq, Structural)]
pub enum Shape {
    Square,
    Disc,
    Triangle,
}

/// The shape of a unit of a branch; fleets and squadrons look like infantry.
pub open spec fn shape_of(branch: Option<Branch>) -> Shape {
    match branch {
        Some(Branch::Armour) => Shape::Square,
        Some(Branch::Artillery) => Shape::Disc,
        Some(Branch::Infantry) | None => Shape::Triangle,
    }
}

/// The shape of a unit of a branch.
pub fn unit_marker_shape(branch: Option<Branch>) -> (shape: Shape)
    ensures
        shape == shape_of(branch),
{
    match branch {
        Some(Branch::Armour) => Shape::Square,
        Some(Branch::Artillery) => Shape::Disc,
        Some(Branch::Infantry) | None => Shape::Triangle,
    }
}

/// A unit on the map.
#[derive(Clone, Copy, Debug, PartialEq, Eq, Structural)]
pub struct UnitLook {
    pub slot: Slot,
    pub color: Rgb,
    /// The colour to go some way to, for a unit handed over to an agent.
    pub tint: Option<Tint>,
    /// How large the unit is drawn.
    pub size: Quantity,
}

/// How large a unit is drawn: by how many people and how much equipment it has of a new unit's, within
/// limits.
pub open spec fn size_of(unit: Unit, balance: Balance) -> Quantity {
    held_between(
        quotient_of(
            sum_of(
                quotient_of(unit.manpower, balance.unit_manpower),
                quotient_of(unit.equipment, balance.unit_equipment),
            ),
            two(),
        ),
        smallest_unit(),
        largest_unit(),
    )
}

/// The quantity 2.
pub open spec fn two() -> Quantity {
    Quantity { bits: 0x4000_0000 }
}

/// The least that a unit is drawn at: three fifths.
pub open spec fn smallest_unit() -> Quantity {
    Quantity { bits: 0x3f19_999a }
}

/// The most that a unit is drawn at: five quarters.
pub open spec fn largest_unit() -> Quantity {
    Quantity { bits: 0x3fa0_0000 }
}

fn unit_size(unit: &Unit, balance: &Balance) -> (size: Quantity)
    ensures
        size == size_of(*unit, *balance),
{
    let people = unit.manpower.over(balance.unit_manpower);
    let equipment = unit.equipment.over(balance.unit_equipment);
    people.plus(equipment).over(Quantity { bits: 0x4000_0000 }).hold_between(
        Quantity { bits: 0x3f19_999a },
        Quantity { bits: 0x3fa0_0000 },
    )
}

/// The colour of a unit: its owner's.
pub open spec fn color_of(unit: Unit) -> Rgb {
    faction_rgb(unit.owner.0 as nat)
}

/// What marks a unit that is handed over to an agent.
pub open spec fn tint_of(unit: Unit) -> Option<Tint> {
    if unit.delegated {
        Some(delegated_tint())
    } else {
        None
    }
}

/// How a unit looks on the map; `None` if it is dead.
pub fn unit_look(world: &World, unit: UnitId) -> (look: Option<UnitLook>)
    requires
        unit.0 < world.units@.len(),
    ensures
        look is Some <==> world.units@[unit.0 as int].alive,
        look matches Some(l) ==> ({
            let u = world.units@[unit.0 as int];
            &&& l.slot.place == standing(*world, u.station, unit.0 as nat)
            &&& l.slot.count == standing(*world, u.station, world.units@.len())
            &&& l.color == faction_rgb(u.owner.0 as nat)
            &&& l.tint == if u.delegated {
                Some(delegated_tint())
            } else {
                None
            }
            &&& l.color == color_of(u)
            &&& l.tint == tint_of(u)
            &&& l.size == size_of(u, world.balance)
        }),
{
    let u = &world.units[unit.0 as usize];
    if !u.alive {
        return None;
    }
    let tint = if u.delegated {
        Some(Tint { color: Rgb { r: 98, g: 98, b: 95 }, share: Quantity { bits: 0x3f26_6666 } })
    } else {
        None
    };
    Some(
        UnitLook {
            slot: unit_slot(world, unit),
            color: faction_color(u.owner.0 as usize),
            tint,
            size: unit_size(u, &world.balance),
        },
    )
}

/// The camera is close enough for every label up to this scale, one and a half.
pub open spec fn label_zoom() -> Quantity {
    Quantity { bits: 0x3fc0_0000 }
}

/// Whether the label of a region shows: it always does, the region is occupied, the camera is close,
/// or the region is selected.
pub open spec fn label_shown(world: World, region: RegionId, always: bool, scale: Option<Quantity>, selected: Option<RegionId>) -> bool {
    ||| always
    ||| (world.has_region(region) && world.region_at(region).occupier is Some)
    ||| (scale matches Some(s) && s.at_most(label_zoom()))
    ||| selected == Some(region)
}

/// Whether the label of a region shows. `scale` is the camera's, if there is one.
pub fn region_label_visible(
    world: &World,
    region: RegionId,
    always: bool,
    scale: Option<Quantity>,
    selected: Option<RegionId>,
) -> (shown: bool)
    ensures
        shown == label_shown(*world, region, always, scale, selected),
{
    let contested = (region.0 as usize) < world.regions.len() && world.region(region).occupier.is_some();
    let close = match scale {
        Some(s) => s.is_at_most(Quantity { bits: 0x3fc0_0000 }),
        None => false,
    };
    let chosen = match selected {
        Some(r) => r == region,
        None => false,
    };
    always || contested || close || chosen
}

} // verus!
