//! Checks that a snapshot, the state of the client and the events of a day fit together.
//!
//! The other modules ask for this in what they require. A caller that gets its values from elsewhere
//! finds it out here.
use crate::client::Ui;
use crate::event_text::{event_is_known, factions_are_known, term_is_known, terms_are_known, Event};
use crate::sim_control::events_are_known;
use crate::types::{FactionId, RegionId, Station, TransportNodeId, TreatyTerm};
use crate::world::{Faction, Region, SeaZone, World, BRANCH_COUNT, EQUIPMENT_COUNT, FOCUS_COUNT, GOOD_COUNT, GROUP_COUNT, TREATY_COUNT};
use vstd::prelude::*;

verus! {

fn has_region(world: &World, id: RegionId) -> (yes: bool)
    ensures
        yes == world.has_region(id),
{
    (id.0 as usize) < world.regions.len()
}

fn has_faction(world: &World, id: FactionId) -> (yes: bool)
    ensures
        yes == world.has_faction(id),
{
    (id.0 as usize) < world.factions.len()
}

fn has_node(world: &World, id: TransportNodeId) -> (yes: bool)
    ensures
        yes == world.has_node(id),
{
    (id.0 as usize) < world.nodes.len()
}

fn has_station(world: &World, station: Station) -> (yes: bool)
    ensures
        yes == world.has_station(station),
{
    match station {
        Station::Region(r) => has_region(world, r),
        Station::Sea(z) => (z.0 as usize) < world.sea_zones.len(),
        Station::Airfield(n) => has_node(world, n),
    }
}

fn region_is_valid(region: &Region, regions: usize, factions: usize, nodes: usize) -> (yes: bool)
    ensures
        yes == region.valid(regions as nat, factions as nat, nodes as nat),
{
    let occupier_known = match region.occupier {
        Some(f) => (f.0 as usize) < factions,
        None => true,
    };
    if !((region.owner.0 as usize) < factions && occupier_known && region.capacity.len() == GOOD_COUNT
        && region.enemy_units.len() == factions && region.aircraft_reach.len() == factions
        && region.force_reach.len() == factions) {
        return false;
    }
    let mut i: usize = 0;
    while i < region.links.len()
        invariant
            i <= region.links.len(),
            forall|k: int| 0 <= k < i ==> (#[trigger] region.links@[k]).to.0 < regions,
        decreases region.links.len() - i,
    {
        if region.links[i].to.0 as usize >= regions {
            return false;
        }
        i += 1;
    }
    true
}

fn faction_is_valid(faction: &Faction, regions: usize) -> (yes: bool)
    ensures
        yes == faction.valid(regions as nat),
{
    (faction.capital.0 as usize) < regions && faction.stock.len() == GOOD_COUNT && faction.equipment.len()
        == EQUIPMENT_COUNT && faction.industry_priority.len() == GOOD_COUNT && faction.logistics_priority.len()
        == GOOD_COUNT && faction.import_plan.len() == GOOD_COUNT && faction.group_support.len() == GROUP_COUNT
}

fn regions_are_valid(world: &World) -> (yes: bool)
    ensures
        yes == (forall|i: int|
            0 <= i < world.regions@.len() ==> (#[trigger] world.regions@[i]).valid(
                world.regions@.len(),
                world.factions@.len(),
                world.nodes@.len(),
            )),
{
    let mut i: usize = 0;
    while i < world.regions.len()
        invariant
            i <= world.regions.len(),
            forall|k: int|
                0 <= k < i ==> (#[trigger] world.regions@[k]).valid(
                    world.regions@.len(),
                    world.factions@.len(),
                    world.nodes@.len(),
                ),
        decreases world.regions.len() - i,
    {
        if !region_is_valid(&world.regions[i], world.regions.len(), world.factions.len(), world.nodes.len()) {
            return false;
        }
        i += 1;
    }
    true
}

fn zone_is_valid(zone: &SeaZone, regions: usize, factions: usize) -> (yes: bool)
    ensures
        yes == zone.valid(regions as nat, factions as nat),
{
    if zone.enemy_fleets.len() != factions || zone.coast.len() > u32::MAX as usize {
        return false;
    }
    let mut i: usize = 0;
    while i < zone.coast.len()
        invariant
            i <= zone.coast.len(),
            forall|k: int| 0 <= k < i ==> (#[trigger] zone.coast@[k]).0 < regions,
        decreases zone.coast.len() - i,
    {
        if zone.coast[i].0 as usize >= regions {
            return false;
        }
        i += 1;
    }
    true
}

fn zones_are_valid(world: &World) -> (yes: bool)
    ensures
        yes == (forall|i: int|
            0 <= i < world.sea_zones@.len() ==> (#[trigger] world.sea_zones@[i]).valid(
                world.regions@.len(),
                world.factions@.len(),
            )),
{
    let mut i: usize = 0;
    while i < world.sea_zones.len()
        invariant
            i <= world.sea_zones.len(),
            forall|k: int|
                0 <= k < i ==> (#[trigger] world.sea_zones@[k]).valid(world.regions@.len(), world.factions@.len()),
        decreases world.sea_zones.len() - i,
    {
        if !zone_is_valid(&world.sea_zones[i], world.regions.len(), world.factions.len()) {
            return false;
        }
        i += 1;
    }
    true
}

fn factions_are_valid(world: &World) -> (yes: bool)
    ensures
        yes == (forall|i: int|
            0 <= i < world.factions@.len() ==> (#[trigger] world.factions@[i]).valid(world.regions@.len())),
{
    let mut i: usize = 0;
    while i < world.factions.len()
        invariant
            i <= world.factions.len(),
            forall|k: int| 0 <= k < i ==> (#[trigger] world.factions@[k]).valid(world.regions@.len()),
        decreases world.factions.len() - i,
    {
        if !faction_is_valid(&world.factions[i], world.regions.len()) {
            return false;
        }
        i += 1;
    }
    true
}

fn units_are_valid(world: &World) -> (yes: bool)
    ensures
        yes == (forall|i: int|
            0 <= i < world.units@.len() ==> world.has_faction((#[trigger] world.units@[i]).owner) && world.has_station(
                world.units@[i].station,
            )),
{
    let mut i: usize = 0;
    while i < world.units.len()
        invariant
            i <= world.units.len(),
            forall|k: int|
                0 <= k < i ==> world.has_faction((#[trigger] world.units@[k]).owner) && world.has_station(
                    world.units@[k].station,
                ),
        decreases world.units.len() - i,
    {
        if !(has_faction(world, world.units[i].owner) && has_station(world, world.units[i].station)) {
            return false;
        }
        i += 1;
    }
    true
}

fn nodes_are_valid(world: &World) -> (yes: bool)
    ensures
        yes == (forall|i: int| 0 <= i < world.nodes@.len() ==> world.has_region((#[trigger] world.nodes@[i]).region)),
{
    let mut i: usize = 0;
    while i < world.nodes.len()
        invariant
            i <= world.nodes.len(),
            forall|k: int| 0 <= k < i ==> world.has_region((#[trigger] world.nodes@[k]).region),
        decreases world.nodes.len() - i,
    {
        if !has_region(world, world.nodes[i].region) {
            return false;
        }
        i += 1;
    }
    true
}

fn lines_are_valid(world: &World) -> (yes: bool)
    ensures
        yes == (forall|i: int|
            0 <= i < world.lines@.len() ==> world.has_node((#[trigger] world.lines@[i]).from) && world.has_node(
                world.lines@[i].to,
            )),
{
    let mut i: usize = 0;
    while i < world.lines.len()
        invariant
            i <= world.lines.len(),
            forall|k: int|
                0 <= k < i ==> world.has_node((#[trigger] world.lines@[k]).from) && world.has_node(world.lines@[k].to),
        decreases world.lines.len() - i,
    {
        if !(has_node(world, world.lines[i].from) && has_node(world, world.lines[i].to)) {
            return false;
        }
        i += 1;
    }
    true
}

/// Whether the relations of one faction are complete.
pub open spec fn relations_complete(world: World, a: int) -> bool {
    &&& world.relations@[a]@.len() == world.factions@.len()
    &&& (forall|b: int|
        0 <= b < world.factions@.len() ==> (#[trigger] world.relations@[a]@[b]).treaties@.len() == TREATY_COUNT
            && world.relations@[a]@[b].cooldowns@.len() == TREATY_COUNT)
}

fn row_is_valid(world: &World, a: usize) -> (yes: bool)
    requires
        a < world.relations@.len(),
    ensures
        yes == relations_complete(*world, a as int),
{
    if world.relations[a].len() != world.factions.len() {
        return false;
    }
    let mut b: usize = 0;
    while b < world.factions.len()
        invariant
            a < world.relations@.len(),
            b <= world.factions.len(),
            world.relations@[a as int]@.len() == world.factions@.len(),
            forall|k: int|
                0 <= k < b ==> (#[trigger] world.relations@[a as int]@[k]).treaties@.len() == TREATY_COUNT
                    && world.relations@[a as int]@[k].cooldowns@.len() == TREATY_COUNT,
        decreases world.factions.len() - b,
    {
        if world.relations[a][b].treaties.len() != TREATY_COUNT || world.relations[a][b].cooldowns.len() != TREATY_COUNT {
            return false;
        }
        b += 1;
    }
    true
}

fn relations_are_valid(world: &World) -> (yes: bool)
    ensures
        yes == (world.relations@.len() == world.factions@.len() && forall|a: int|
            0 <= a < world.relations@.len() ==> #[trigger] relations_complete(*world, a)),
{
    if world.relations.len() != world.factions.len() {
        return false;
    }
    let mut a: usize = 0;
    while a < world.relations.len()
        invariant
            a <= world.relations.len(),
            forall|k: int| 0 <= k < a ==> #[trigger] relations_complete(*world, k),
        decreases world.relations.len() - a,
    {
        if !row_is_valid(world, a) {
            return false;
        }
        a += 1;
    }
    true
}

fn tables_are_valid(world: &World) -> (yes: bool)
    ensures
        yes == (world.regions@.len() <= u32::MAX && world.factions@.len() <= u32::MAX && world.units@.len() <= u32::MAX
            && world.lines@.len() <= u32::MAX && world.sea_zones@.len() <= u32::MAX && world.labels.goods@.len()
            == GOOD_COUNT && world.labels.branches@.len() == BRANCH_COUNT && world.labels.foci@.len() == FOCUS_COUNT
            && world.labels.groups@.len() == GROUP_COUNT && world.balance.newspaper_interval_days > 0),
{
    let most: usize = u32::MAX as usize;
    world.regions.len() <= most && world.factions.len() <= most && world.units.len() <= most && world.lines.len() <= most
        && world.sea_zones.len() <= most && world.labels.goods.len() == GOOD_COUNT && world.labels.branches.len()
        == BRANCH_COUNT && world.labels.foci.len() == FOCUS_COUNT && world.labels.groups.len() == GROUP_COUNT
        && world.balance.newspaper_interval_days > 0
}

/// Whether every reference of a snapshot leads somewhere, and every table is complete.
pub fn world_is_valid(world: &World) -> (yes: bool)
    ensures
        yes == world.valid(),
{
    let yes = tables_are_valid(world) && regions_are_valid(world) && zones_are_valid(world) && factions_are_valid(world)
        && units_are_valid(world) && nodes_are_valid(world) && lines_are_valid(world) && relations_are_valid(world);
    proof {
        if world.valid() {
            assert forall|a: int| 0 <= a < world.relations@.len() implies #[trigger] relations_complete(*world, a) by {
                assert(world.relations@[a]@.len() == world.factions@.len());
            }
        }
        if yes {
            assert forall|a: int| 0 <= a < world.relations@.len() implies (#[trigger] world.relations@[a])@.len()
                == world.factions@.len() by {
                assert(relations_complete(*world, a));
            }
            assert forall|a: int, b: int|
                0 <= a < world.relations@.len() && 0 <= b < world.factions@.len() implies (#[trigger] world.relations@[a]@[b]).treaties@.len()
                == TREATY_COUNT && world.relations@[a]@[b].cooldowns@.len() == TREATY_COUNT by {
                assert(relations_complete(*world, a));
            }
        }
    }
    yes
}

/// Whether the factions that the state of the client names exist.
pub fn ui_is_known(ui: &Ui, world: &World) -> (yes: bool)
    ensures
        yes == ui.known_in(*world),
{
    let player = match ui.player {
        Some(f) => has_faction(world, f),
        None => true,
    };
    let target = match ui.diplomacy_target {
        Some(f) => has_faction(world, f),
        None => true,
    };
    player && target
}

fn fighters_are_known(world: &World, factions: &Vec<FactionId>) -> (yes: bool)
    ensures
        yes == factions_are_known(*world, factions@),
{
    let mut i: usize = 0;
    while i < factions.len()
        invariant
            i <= factions.len(),
            forall|k: int| 0 <= k < i ==> world.has_faction(#[trigger] factions@[k]),
        decreases factions.len() - i,
    {
        if !has_faction(world, factions[i]) {
            return false;
        }
        i += 1;
    }
    true
}

fn is_known_term(world: &World, term: TreatyTerm) -> (yes: bool)
    ensures
        yes == term_is_known(*world, term),
{
    match term {
        TreatyTerm::Withdraw { from } => has_region(world, from),
        TreatyTerm::Cede { region } => has_region(world, region),
        _ => true,
    }
}

fn are_known_terms(world: &World, terms: &Vec<TreatyTerm>) -> (yes: bool)
    ensures
        yes == terms_are_known(*world, terms@),
{
    let mut i: usize = 0;
    while i < terms.len()
        invariant
            i <= terms.len(),
            forall|k: int| 0 <= k < i ==> term_is_known(*world, #[trigger] terms@[k]),
        decreases terms.len() - i,
    {
        if !is_known_term(world, terms[i]) {
            return false;
        }
        i += 1;
    }
    true
}

fn both(world: &World, a: FactionId, b: FactionId) -> (yes: bool)
    ensures
        yes == (world.has_faction(a) && world.has_faction(b)),
{
    has_faction(world, a) && has_faction(world, b)
}

/// Whether everything that an event names exists in the world.
pub fn is_known_event(world: &World, event: &Event) -> (yes: bool)
    ensures
        yes == event_is_known(*world, *event),
{
    match event {
        Event::UnitDestroyed { station, owner, .. } => has_station(world, *station) && has_faction(world, *owner),
        Event::LineInterdicted { attacker, defender, line, .. } => both(world, *attacker, *defender) && (line.0 as usize)
            < world.lines.len(),
        Event::Battle { region, factions, .. } => has_region(world, *region) && fighters_are_known(world, factions),
        Event::NavalBattle { zone, factions, .. } => (zone.0 as usize) < world.sea_zones.len() && fighters_are_known(
            world,
            factions,
        ),
        Event::RegionCaptured { region, from, to } => has_region(world, *region) && both(world, *from, *to),
        Event::Separatism { region, from, to } => has_region(world, *region) && both(world, *from, *to),
        Event::FactionEliminated { faction } => has_faction(world, *faction),
        Event::Strike { faction } => has_faction(world, *faction),
        Event::Protest { faction } => has_faction(world, *faction),
        Event::Mutiny { faction } => has_faction(world, *faction),
        Event::CapitalFlight { faction } => has_faction(world, *faction),
        Event::RegimeChange { faction } => has_faction(world, *faction),
        Event::TreatyProposed { from, to, .. } => both(world, *from, *to),
        Event::TreatyRejected { from, to, .. } => both(world, *from, *to),
        Event::TreatySigned { a, b, .. } => both(world, *a, *b),
        Event::TreatyBroken { a, b, .. } => both(world, *a, *b),
        Event::WarDeclared { a, b } => both(world, *a, *b),
        Event::AllianceDragIn { faction, into_war_with } => both(world, *faction, *into_war_with),
        Event::NaturalLanguageProposed { from, to, .. } => both(world, *from, *to),
        Event::NaturalLanguageAccepted { from, to, terms } => both(world, *from, *to) && are_known_terms(world, terms),
        Event::NaturalLanguageRejected { from, to, terms } => both(world, *from, *to) && are_known_terms(world, terms),
        Event::NaturalLanguageTermsInvalid { from, to, terms } => both(world, *from, *to) && are_known_terms(
            world,
            terms,
        ),
        Event::NodeStruck { attacker, defender, node, .. } => both(world, *attacker, *defender) && has_node(world, *node),
    }
}

/// Whether everything that the events of a day name exists in the world.
pub fn are_known_events(world: &World, events: &Vec<Event>) -> (yes: bool)
    ensures
        yes == events_are_known(*world, events@),
{
    let mut i: usize = 0;
    while i < events.len()
        invariant
            i <= events.len(),
            forall|k: int| 0 <= k < i ==> event_is_known(*world, #[trigger] events@[k]),
        decreases events.len() - i,
    {
        if !is_known_event(world, &events[i]) {
            return false;
        }
        i += 1;
    }
    true
}

} // verus!
