//! What a click on the map does.
use crate::arithmetic::{product_of, whole};
use crate::client::{Client, ClientView, Command, Ui};
use crate::geometry::distance_of;
use crate::map_setup::{sea_zone_radius, zone_radius};
use crate::quantity::Quantity;
use crate::types::{Action, FactionId, RegionId, SeaZoneId, Station, UnitId};
use crate::unit_set::{ascending, selection_is_determined};
use crate::world::{Point, World};
use vstd::prelude::*;

verus! {

/// How far a press may travel before its release and still be a click: 4.
pub open spec fn click_tolerance() -> Quantity {
    Quantity { bits: 0x4080_0000 }
}

/// Whether a press that was released elsewhere was a click, and no drag.
pub open spec fn was_click(start: Point, end: Point) -> bool {
    !click_tolerance().less(distance_of(start, end))
}

/// Whether a press that was released elsewhere was a click, and no drag.
pub fn is_click(start: Point, end: Point) -> (click: bool)
    ensures
        click == was_click(start, end),
{
    !(Quantity { bits: 0x4080_0000 }).is_less(start.distance(end))
}

/// Something drawn on the map: its number, how far from the click it is, and how far it reaches.
#[derive(Clone, Copy, Debug, PartialEq, Eq, Structural)]
pub struct Candidate {
    pub id: u32,
    pub distance: Quantity,
    pub radius: Quantity,
}

/// Whether a click hits it.
pub open spec fn reached(c: Candidate) -> bool {
    c.distance.at_most(c.radius)
}

/// Whether the candidate at `i` is the one hit: of those that count and are hit, none is nearer, and
/// those before it are farther.
pub open spec fn is_nearest(list: Seq<Candidate>, counts: spec_fn(u32) -> bool, i: int) -> bool {
    &&& 0 <= i < list.len()
    &&& counts(list[i].id) && reached(list[i])
    &&& forall|j: int|
        0 <= j < list.len() && counts((#[trigger] list[j]).id) && reached(list[j]) ==> !list[j].distance.less(
            list[i].distance,
        )
    &&& forall|j: int|
        0 <= j < i && counts((#[trigger] list[j]).id) && reached(list[j]) ==> list[i].distance.less(list[j].distance)
}

/// Whether the click hits nothing that counts.
pub open spec fn misses(list: Seq<Candidate>, counts: spec_fn(u32) -> bool) -> bool {
    forall|j: int| 0 <= j < list.len() ==> !(counts((#[trigger] list[j]).id) && reached(list[j]))
}

/// What a click hits.
pub open spec fn hit_of(list: Seq<Candidate>, counts: spec_fn(u32) -> bool) -> Option<u32> {
    if misses(list, counts) {
        None
    } else {
        Some(list[choose|i: int| is_nearest(list, counts, i)].id)
    }
}

/// A click hits one thing: what is nearest is nearest alone, and is what is hit.
pub proof fn a_click_hits_one_thing(list: Seq<Candidate>, counts: spec_fn(u32) -> bool, i: int)
    requires
        is_nearest(list, counts, i),
    ensures
        hit_of(list, counts) == Some(list[i].id),
        forall|j: int| #[trigger] is_nearest(list, counts, j) ==> j == i,
{
    assert(counts(list[i].id) && reached(list[i]));
    assert(!misses(list, counts));
    assert forall|j: int| #[trigger] is_nearest(list, counts, j) implies j == i by {
        if i < j {
            assert(list[j].distance.less(list[i].distance));
        } else if j < i {
            assert(list[i].distance.less(list[j].distance));
        }
    }
}

/// Everything counts.
pub open spec fn any() -> spec_fn(u32) -> bool {
    |id: u32| true
}

/// Only the living units of a faction count.
pub open spec fn own_units(world: World, player: FactionId) -> spec_fn(u32) -> bool {
    |id: u32| id < world.units@.len() && world.units@[id as int].alive && world.units@[id as int].owner == player
}

/// What counts: the living units of the owner, or everything where no owner is asked for.
pub open spec fn counting(world: World, owner: Option<FactionId>) -> spec_fn(u32) -> bool {
    match owner {
        Some(faction) => own_units(world, faction),
        None => any(),
    }
}

fn counts_for(world: &World, owner: Option<FactionId>, id: u32) -> (counts: bool)
    ensures
        counts == counting(*world, owner)(id),
{
    match owner {
        Some(faction) => {
            let i: usize = id as usize;
            i < world.units.len() && world.units[i].alive && world.units[i].owner == faction
        },
        None => true,
    }
}

/// What a click hits, of what counts.
fn nearest(list: &Vec<Candidate>, world: &World, owner: Option<FactionId>) -> (hit: Option<u32>)
    ensures
        hit == hit_of(list@, counting(*world, owner)),
{
    let ghost counts = counting(*world, owner);
    let mut best: Option<usize> = None;
    let mut i: usize = 0;
    while i < list.len()
        invariant
            i <= list.len(),
            counts == counting(*world, owner),
            match best {
                Some(b) => b < i && is_nearest(list@.take(i as int), counts, b as int),
                None => misses(list@.take(i as int), counts),
            },
        decreases list.len() - i,
    {
        let c = list[i];
        let hits = counts_for(world, owner, c.id) && c.distance.is_at_most(c.radius);
        let better = match best {
            Some(b) => c.distance.is_less(list[b].distance),
            None => true,
        };
        let ghost now = list@.take(i as int);
        let ghost next = list@.take(i + 1);
        proof {
            assert(next =~= now.push(c));
            assert(forall|j: int| 0 <= j < i ==> next[j] == now[j]);
        }
        if hits && better {
            proof {
                if let Some(b) = best {
                    assert forall|j: int| 0 <= j < i && counts((#[trigger] next[j]).id) && reached(
                        next[j],
                    ) implies next[i as int].distance.less(next[j].distance) by {
                        assert(!now[j].distance.less(now[b as int].distance));
                    }
                }
            }
            best = Some(i);
        } else {
            proof {
                if let Some(b) = best {
                    assert(is_nearest(next, counts, b as int));
                }
            }
        }
        i += 1;
    }
    assert(list@.take(list.len() as int) =~= list@);
    match best {
        Some(b) => {
            proof {
                a_click_hits_one_thing(list@, counts, b as int);
            }
            Some(list[b].id)
        },
        None => None,
    }
}

/// Orders for every selected unit to go somewhere.
pub open spec fn move_orders(units: Seq<u32>, to: Station) -> Seq<Command> {
    Seq::new(units.len(), |i: int| Command::Order(Action::MoveUnit { unit: UnitId(units[i]), to }))
}

fn issue_move_orders(client: &Client, to: Station) -> (commands: Vec<Command>)
    ensures
        commands@ == move_orders(client.units@, to),
{
    let mut commands: Vec<Command> = Vec::new();
    let n: usize = client.units.len();
    let mut i: usize = 0;
    while i < n
        invariant
            i <= n,
            n == client.units@.len(),
            commands.len() == i,
            forall|k: int|
                0 <= k < i ==> #[trigger] commands@[k] == Command::Order(
                    Action::MoveUnit { unit: UnitId(client.units@[k]), to },
                ),
        decreases n - i,
    {
        commands.push(Command::Order(Action::MoveUnit { unit: UnitId(client.units.get(i)), to }));
        i += 1;
    }
    assert(commands@ =~= move_orders(client.units@, to));
    commands
}

/// Where everything is on the map: the regions, how far they reach, and the sea zones.
pub struct MapLayout {
    pub regions: Vec<Point>,
    pub radii: Vec<Quantity>,
    pub zones: Vec<Point>,
}

impl MapLayout {
    /// Whether everything in a world has its place.
    pub open spec fn fits(self, world: World) -> bool {
        &&& self.regions@.len() == world.regions@.len() <= u32::MAX
        &&& self.radii@.len() == world.regions@.len()
        &&& self.zones@.len() == world.sea_zones@.len() <= u32::MAX
    }

    /// The regions, as a click sees them.
    pub open spec fn regions_from(self, at: Point) -> Seq<Candidate> {
        Seq::new(
            self.regions@.len(),
            |i: int| Candidate { id: i as u32, distance: distance_of(self.regions@[i], at), radius: self.radii@[i] },
        )
    }

    /// The sea zones, as a click sees them.
    pub open spec fn zones_from(self, world: World, at: Point) -> Seq<Candidate> {
        Seq::new(
            self.zones@.len(),
            |i: int|
                Candidate {
                    id: i as u32,
                    distance: distance_of(self.zones@[i], at),
                    radius: whole(zone_radius(world.sea_zones@[i].coast@.len())),
                },
        )
    }
}

/// The marker of a unit on the map.
#[derive(Clone, Copy, Debug, PartialEq, Eq, Structural)]
pub struct Marker {
    pub id: u32,
    pub at: Point,
}

/// A click on the map.
pub struct MapClick {
    /// Whether the pointer is over a panel.
    pub over_ui: bool,
    pub at: Point,
    /// How far away the camera is.
    pub zoom: Quantity,
    pub units: Vec<Marker>,
}

/// How far the marker of a unit reaches: 14, seen from a distance of 1, as large as it is drawn.
pub open spec fn unit_reach(zoom: Quantity) -> Quantity {
    product_of(Quantity { bits: 0x4160_0000 }, zoom)
}

/// How far the marker of a unit reaches.
pub fn unit_click_radius(zoom: Quantity) -> (radius: Quantity)
    ensures
        radius == unit_reach(zoom),
{
    (Quantity { bits: 0x4160_0000 }).times(zoom)
}

/// The markers of units, as a click sees them.
pub open spec fn units_from(click: MapClick) -> Seq<Candidate> {
    Seq::new(
        click.units@.len(),
        |i: int|
            Candidate {
                id: click.units@[i].id,
                distance: distance_of(click.units@[i].at, click.at),
                radius: unit_reach(click.zoom),
            },
    )
}

fn unit_candidates(click: &MapClick) -> (list: Vec<Candidate>)
    ensures
        list@ == units_from(*click),
{
    let radius = unit_click_radius(click.zoom);
    let mut list: Vec<Candidate> = Vec::new();
    let mut i: usize = 0;
    while i < click.units.len()
        invariant
            i <= click.units.len(),
            radius == unit_reach(click.zoom),
            list.len() == i,
            forall|k: int| 0 <= k < i ==> #[trigger] list@[k] == units_from(*click)[k],
        decreases click.units.len() - i,
    {
        let unit = click.units[i];
        list.push(Candidate { id: unit.id, distance: unit.at.distance(click.at), radius });
        i += 1;
    }
    assert(list@ =~= units_from(*click));
    list
}

fn region_candidates(layout: &MapLayout, at: Point) -> (list: Vec<Candidate>)
    requires
        layout.regions@.len() <= u32::MAX,
        layout.radii@.len() == layout.regions@.len(),
    ensures
        list@ == layout.regions_from(at),
{
    let mut list: Vec<Candidate> = Vec::new();
    let mut i: usize = 0;
    while i < layout.regions.len()
        invariant
            i <= layout.regions.len() <= u32::MAX,
            layout.radii@.len() == layout.regions@.len(),
            list.len() == i,
            forall|k: int| 0 <= k < i ==> #[trigger] list@[k] == layout.regions_from(at)[k],
        decreases layout.regions.len() - i,
    {
        list.push(Candidate { id: i as u32, distance: layout.regions[i].distance(at), radius: layout.radii[i] });
        i += 1;
    }
    assert(list@ =~= layout.regions_from(at));
    list
}

fn zone_candidates(layout: &MapLayout, world: &World, at: Point) -> (list: Vec<Candidate>)
    requires
        layout.fits(*world),
    ensures
        list@ == layout.zones_from(*world, at),
{
    let mut list: Vec<Candidate> = Vec::new();
    let mut i: usize = 0;
    while i < layout.zones.len()
        invariant
            i <= layout.zones.len(),
            layout.fits(*world),
            list.len() == i,
            forall|k: int| 0 <= k < i ==> #[trigger] list@[k] == layout.zones_from(*world, at)[k],
        decreases layout.zones.len() - i,
    {
        let radius = Quantity::from_whole(sea_zone_radius(world.sea_zones[i].coast.len()) as u32);
        list.push(Candidate { id: i as u32, distance: layout.zones[i].distance(at), radius });
        i += 1;
    }
    assert(list@ =~= layout.zones_from(*world, at));
    list
}

/// The unit of the player that a click hits.
pub open spec fn unit_hit(click: MapClick, world: World, player: Option<FactionId>) -> Option<u32> {
    match player {
        Some(p) => hit_of(units_from(click), own_units(world, p)),
        None => None,
    }
}

/// Whether two selections differ in one unit, and in that one only.
pub open spec fn differ_in(before: Seq<u32>, after: Seq<u32>, id: u32) -> bool {
    forall|x: u32| #[trigger]
        after.contains(x) <==> (if x == id {
            !before.contains(x)
        } else {
            before.contains(x)
        })
}

/// The state and the commands after a click that hits no unit: the region hit, else the sea zone hit,
/// is where the selected units are sent; without selected units it is selected itself. (A region is
/// selected in either case.)
pub open spec fn after_ground_click(state: ClientView, region: Option<RegionId>, zone: Option<SeaZoneId>) -> (ClientView, Seq<Command>) {
    match (region, zone) {
        (Some(r), _) => (
            ClientView {
                ui: Ui { selected_region: Some(r), selected_sea_zone: None, ..state.ui },
                units: Seq::empty(),
                ..state
            },
            move_orders(state.units, Station::Region(r)),
        ),
        (None, Some(z)) => if state.units.len() > 0 {
            (ClientView { units: Seq::empty(), ..state }, move_orders(state.units, Station::Sea(z)))
        } else {
            (
                ClientView { ui: Ui { selected_region: None, selected_sea_zone: Some(z), ..state.ui }, ..state },
                Seq::empty(),
            )
        },
        (None, None) => (
            ClientView { ui: Ui { selected_region: None, selected_sea_zone: None, ..state.ui }, ..state },
            Seq::empty(),
        ),
    }
}

/// The region that a number stands for.
pub open spec fn as_region(id: Option<u32>) -> Option<RegionId> {
    match id {
        Some(n) => Some(RegionId(n)),
        None => None,
    }
}

/// The sea zone that a number stands for.
pub open spec fn as_zone(id: Option<u32>) -> Option<SeaZoneId> {
    match id {
        Some(n) => Some(SeaZoneId(n)),
        None => None,
    }
}

/// A click on the map. On a unit of the player it selects or deselects the unit; elsewhere it sends
/// the selected units there, or selects the place.
pub fn map_click_select(client: &mut Client, world: &World, layout: &MapLayout, click: &MapClick) -> (commands: Vec<Command>)
    requires
        old(client).units.valid(),
        layout.fits(*world),
    ensures
        final(client).units.valid(),
        final(client).draft == old(client).draft,
        click.over_ui ==> final(client)@ == old(client)@ && commands@.len() == 0,
        !click.over_ui ==> match unit_hit(*click, *world, old(client).ui.player) {
            Some(id) => final(client).ui == old(client).ui && commands@.len() == 0 && differ_in(
                old(client).units@,
                final(client).units@,
                id,
            ),
            None => (final(client)@, commands@) == after_ground_click(
                old(client)@,
                as_region(hit_of(layout.regions_from(click.at), any())),
                as_zone(hit_of(layout.zones_from(*world, click.at), any())),
            ),
        },
{
    if click.over_ui {
        return Vec::new();
    }
    if let Some(player) = client.ui.player {
        if let Some(id) = nearest(&unit_candidates(click), world, Some(player)) {
            client.units.toggle(id);
            return Vec::new();
        }
    }
    ground_click(
        client,
        nearest(&region_candidates(layout, click.at), world, None),
        nearest(&zone_candidates(layout, world, click.at), world, None),
    )
}

fn ground_click(client: &mut Client, region: Option<u32>, zone: Option<u32>) -> (commands: Vec<Command>)
    requires
        old(client).units.valid(),
    ensures
        final(client).units.valid(),
        final(client).draft == old(client).draft,
        (final(client)@, commands@) == after_ground_click(old(client)@, as_region(region), as_zone(zone)),
{
    if let Some(r) = region {
        let r = RegionId(r);
        let commands = issue_move_orders(client, Station::Region(r));
        client.units.clear();
        client.ui.selected_region = Some(r);
        client.ui.selected_sea_zone = None;
        commands
    } else if let Some(z) = zone {
        let z = SeaZoneId(z);
        if client.units.len() > 0 {
            let commands = issue_move_orders(client, Station::Sea(z));
            client.units.clear();
            commands
        } else {
            client.ui.selected_sea_zone = Some(z);
            client.ui.selected_region = None;
            Vec::new()
        }
    } else {
        client.ui.selected_region = None;
        client.ui.selected_sea_zone = None;
        Vec::new()
    }
}

/// A click never leaves a region selected together with a sea zone.
pub proof fn clicks_select_one_place(state: ClientView, region: Option<RegionId>, zone: Option<SeaZoneId>)
    requires
        state.ui.consistent(),
    ensures
        after_ground_click(state, region, zone).0.ui.consistent(),
{
}

/// Every selected unit gets exactly one order to go to the place clicked, and is deselected.
pub proof fn every_selected_unit_is_sent(state: ClientView, region: Option<RegionId>, zone: Option<SeaZoneId>, i: int)
    requires
        region is Some || zone is Some,
        0 <= i < state.units.len(),
    ensures
        ({
            let (after, commands) = after_ground_click(state, region, zone);
            &&& after.units.len() == 0
            &&& commands.len() == state.units.len()
            &&& commands[i] matches Command::Order(Action::MoveUnit { unit, to }) && unit == UnitId(state.units[i]) && to
                == (match region {
                Some(r) => Station::Region(r),
                None => Station::Sea(zone->0),
            })
        }),
{
}

/// Whether the menu of a region opens after a right click that hits it.
pub open spec fn menu_opens(world: World, player: Option<FactionId>, over_ui: bool, region: Option<RegionId>) -> bool {
    match (player, region) {
        (Some(p), Some(r)) => !over_ui && world.has_region(r) && world.region_at(r).owner == p,
        _ => false,
    }
}

/// A right click on the map: on a region of the player it opens the region's menu.
pub fn map_right_click_menu(ui: Ui, world: &World, over_ui: bool, layout: &MapLayout, at: Point) -> (after: Ui)
    requires
        layout.fits(*world),
    ensures
        after == (if menu_opens(*world, ui.player, over_ui, as_region(hit_of(layout.regions_from(at), any()))) {
            Ui { menu: as_region(hit_of(layout.regions_from(at), any())), ..ui }
        } else {
            ui
        }),
{
    let hit = nearest(&region_candidates(layout, at), world, None);
    if let (Some(player), Some(r)) = (ui.player, hit) {
        let region = RegionId(r);
        if !over_ui && (r as usize) < world.regions.len() && world.region(region).owner == player {
            return Ui { menu: Some(region), ..ui };
        }
    }
    ui
}

/// Clicking a unit twice leaves the selection as it was.
pub proof fn clicking_a_unit_twice_changes_nothing(before: Seq<u32>, between: Seq<u32>, after: Seq<u32>, id: u32)
    requires
        ascending(before),
        ascending(after),
        differ_in(before, between, id),
        differ_in(between, after, id),
    ensures
        after == before,
{
    assert forall|x: u32| before.contains(x) <==> after.contains(x) by {
        assert(between.contains(x) || !between.contains(x));
    }
    selection_is_determined(before, after);
}

} // verus!
