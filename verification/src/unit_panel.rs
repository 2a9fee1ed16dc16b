//! The panel of the selected units.
use crate::client::{Client, Command, Ui};
use crate::keyboard::{tell_unit, unit_command, UnitOrder};
use crate::quantity::Quantity;
use crate::region_panel::{button_look, ButtonLook};
use crate::rejection::{action_error_ja, action_error_text, ActionError};
use crate::target_panels::{optional_str, reason_text};
use crate::text::{decimal, decimal_text};
use crate::types::{Domain, FactionId, Station};
use crate::world::{Branch, World};
use vstd::prelude::*;

verus! {

/// How many units the panel has room for.
pub const MAX_UNIT_ROWS: usize = 6;

/// Whether the panel is open.
pub open spec fn unit_panel_shown(ui: Ui, units: Seq<u32>) -> bool {
    ui.player is Some && units.len() > 0
}

/// The mark of a unit whose supply is so low that it wears away.
pub open spec fn attrition_mark(world: World, supply: Quantity) -> Seq<char> {
    if supply.less(world.balance.attrition_supply_threshold) {
        "※損耗中"@
    } else {
        Seq::empty()
    }
}

/// The mark of a unit whose supply is so low that it wears away.
pub fn supply_attrition_marker(world: &World, supply: Quantity) -> (mark: String)
    ensures
        mark@ == attrition_mark(*world, supply),
{
    if supply.is_less(world.balance.attrition_supply_threshold) {
        "※損耗中".to_owned()
    } else {
        String::new()
    }
}

/// Where a unit at a station operates.
pub open spec fn domain_at(station: Station) -> Domain {
    match station {
        Station::Region(_) => Domain::Land,
        Station::Sea(_) => Domain::Sea,
        Station::Airfield(_) => Domain::Air,
    }
}

/// What a unit of a domain is called.
pub open spec fn domain_text(domain: Domain) -> Seq<char> {
    match domain {
        Domain::Land => "陸軍"@,
        Domain::Sea => "艦隊"@,
        Domain::Air => "飛行隊"@,
    }
}

fn domain_label(domain: Domain) -> (text: &'static str)
    ensures
        text@ == domain_text(domain),
{
    match domain {
        Domain::Land => "陸軍",
        Domain::Sea => "艦隊",
        Domain::Air => "飛行隊",
    }
}

/// The name of a station; an airfield is named after its region.
pub open spec fn station_name(world: World, station: Station) -> Seq<char> {
    match station {
        Station::Region(r) => world.region_at(r).name@,
        Station::Sea(z) => world.sea_zones@[z.0 as int].name@,
        Station::Airfield(n) => world.region_at(world.nodes@[n.0 as int].region).name@,
    }
}

/// What a unit is called and where it is, and whether it is on its way.
pub open spec fn station_text(world: World, station: Station, in_transit: bool) -> Seq<char> {
    let base = domain_text(domain_at(station)) + ": "@ + station_name(world, station);
    if in_transit {
        base + "（移動中）"@
    } else {
        base
    }
}

/// Writes what a unit is called and where it is.
pub fn station_label(world: &World, station: Station, in_transit: bool) -> (text: String)
    requires
        world.valid(),
        world.has_station(station),
    ensures
        text@ == station_text(*world, station, in_transit),
{
    let mut text = match station {
        Station::Region(r) => {
            let mut text = domain_label(Domain::Land).to_owned();
            text.append(": ");
            text.append(world.region(r).name.as_str());
            text
        },
        Station::Sea(z) => {
            let mut text = domain_label(Domain::Sea).to_owned();
            text.append(": ");
            text.append(world.sea_zone(z).name.as_str());
            text
        },
        Station::Airfield(n) => {
            assert(world.has_region(world.nodes@[n.0 as int].region));
            let mut text = domain_label(Domain::Air).to_owned();
            text.append(": ");
            text.append(world.region(world.transport_node(n).region).name.as_str());
            text
        },
    };
    if in_transit {
        text.append("（移動中）");
    }
    text
}

/// Whether enemies stand where a unit of a faction is.
pub open spec fn pinned(world: World, faction: FactionId, station: Station) -> bool {
    match station {
        Station::Region(r) => world.region_at(r).enemy_units@[faction.0 as int],
        Station::Sea(z) => world.sea_zones@[z.0 as int].enemy_fleets@[faction.0 as int],
        Station::Airfield(n) => world.region_at(world.nodes@[n.0 as int].region).enemy_units@[faction.0 as int],
    }
}

/// Why a unit cannot be reinforced, if it cannot.
pub open spec fn reinforce_obstacle(world: World, faction: FactionId, station: Station) -> Option<Seq<char>> {
    if pinned(world, faction, station) {
        Some(action_error_text(ActionError::RegionContested))
    } else {
        None
    }
}

/// Why a unit cannot be reinforced, if it cannot.
pub fn reinforce_disabled_reason(world: &World, faction: FactionId, station: Station) -> (reason: Option<&'static str>)
    requires
        world.valid(),
        world.has_faction(faction),
        world.has_station(station),
    ensures
        optional_str(reason) == reinforce_obstacle(*world, faction, station),
{
    let pinned = match station {
        Station::Region(r) => {
            let region = world.region(r);
            assert(region.valid(world.regions@.len(), world.factions@.len(), world.nodes@.len()));
            region.enemy_units[faction.0 as usize]
        },
        Station::Sea(z) => {
            let zone = world.sea_zone(z);
            assert(zone.valid(world.regions@.len(), world.factions@.len()));
            zone.enemy_fleets[faction.0 as usize]
        },
        Station::Airfield(n) => {
            assert(world.has_region(world.nodes@[n.0 as int].region));
            let region = world.region(world.transport_node(n).region);
            assert(region.valid(world.regions@.len(), world.factions@.len(), world.nodes@.len()));
            region.enemy_units[faction.0 as usize]
        },
    };
    if pinned {
        Some(action_error_ja(ActionError::RegionContested))
    } else {
        None
    }
}

/// The branch of a unit as its row shows it.
pub open spec fn branch_mark(world: World, branch: Option<Branch>) -> Seq<char> {
    match branch {
        Some(b) => " ["@ + world.labels.branches@[b.position()]@ + "]"@,
        None => Seq::empty(),
    }
}

/// The first line of a unit's row: its number, its name, its branch, and whether an agent has it.
pub open spec fn unit_heading(world: World, id: u32) -> Seq<char> {
    let u = world.units@[id as int];
    "#"@ + decimal(id as nat) + " "@ + u.name@ + branch_mark(world, u.branch) + (if u.delegated {
        " [AI操作中]"@
    } else {
        Seq::empty()
    })
}

/// The second line of a unit's row: its strength.
pub open spec fn unit_strength(world: World, id: u32) -> Seq<char> {
    let u = world.units@[id as int];
    "\n兵力"@ + u.manpower.fixed(1) + " 装備"@ + u.equipment.fixed(1) + " 組織"@ + u.organization.fixed(0) + " 士気"@
        + u.morale.fixed(2) + " 補給"@ + u.supply.fixed(2) + attrition_mark(world, u.supply) + " 経験"@
        + u.experience.fixed(1)
}

/// The third line of a unit's row, for air units: where the unit is based.
pub open spec fn unit_base(world: World, id: u32) -> Seq<char> {
    let u = world.units@[id as int];
    if domain_at(u.station) == Domain::Air {
        "\n"@ + station_text(world, u.station, u.in_transit)
    } else {
        Seq::empty()
    }
}

/// A unit as its row shows it.
pub open spec fn unit_text(world: World, id: u32) -> Seq<char> {
    unit_heading(world, id) + unit_strength(world, id) + unit_base(world, id)
}

fn heading(world: &World, id: u32) -> (text: String)
    requires
        world.valid(),
        id < world.units@.len(),
    ensures
        text@ == unit_heading(*world, id),
{
    let u = &world.units[id as usize];
    let mut text = "#".to_owned();
    text.append(decimal_text(id as usize).as_str());
    text.append(" ");
    text.append(u.name.as_str());
    match u.branch {
        Some(b) => {
            let mut mark = " [".to_owned();
            mark.append(world.labels.branches[b.index()].as_str());
            mark.append("]");
            text.append(mark.as_str());
        },
        None => text.append(String::new().as_str()),
    }
    if u.delegated {
        text.append(" [AI操作中]");
    } else {
        text.append(String::new().as_str());
    }
    text
}

fn strength(world: &World, id: u32) -> (text: String)
    requires
        id < world.units@.len(),
    ensures
        text@ == unit_strength(*world, id),
{
    let u = &world.units[id as usize];
    let mut text = "\n兵力".to_owned();
    text.append(u.manpower.fixed_text(1).as_str());
    text.append(" 装備");
    text.append(u.equipment.fixed_text(1).as_str());
    text.append(" 組織");
    text.append(u.organization.fixed_text(0).as_str());
    text.append(" 士気");
    text.append(u.morale.fixed_text(2).as_str());
    text.append(" 補給");
    text.append(u.supply.fixed_text(2).as_str());
    text.append(supply_attrition_marker(world, u.supply).as_str());
    text.append(" 経験");
    text.append(u.experience.fixed_text(1).as_str());
    text
}

fn base(world: &World, id: u32) -> (text: String)
    requires
        world.valid(),
        id < world.units@.len(),
    ensures
        text@ == unit_base(*world, id),
{
    let u = &world.units[id as usize];
    assert(world.has_station(world.units@[id as int].station));
    match u.station {
        Station::Airfield(_) => {
            let mut text = "\n".to_owned();
            text.append(station_label(world, u.station, u.in_transit).as_str());
            text
        },
        _ => String::new(),
    }
}

/// A row of the unit panel. A row whose unit is gone is not shown.
pub struct UnitRow {
    pub id: u32,
    pub shown: bool,
    pub text: String,
    pub reason: String,
    /// The button to hold.
    pub hold: ButtonLook,
    /// The buttons to reinforce and to disband.
    pub rebuild: ButtonLook,
    pub delegate: ButtonLook,
    pub delegate_label: String,
}

/// Whether a unit exists and lives.
pub open spec fn lives(world: World, id: u32) -> bool {
    id < world.units@.len() && world.units@[id as int].alive
}

/// What the button that changes hands says.
pub open spec fn delegate_text(delegated: bool) -> Seq<char> {
    if delegated {
        "操作を戻す [U]"@
    } else {
        "AI委任 [U]"@
    }
}

/// Whether a row shows a unit.
pub open spec fn shows_unit(row: UnitRow, world: World, faction: FactionId, id: u32) -> bool {
    if lives(world, id) {
        let u = world.units@[id as int];
        let obstacle = reinforce_obstacle(world, faction, u.station);
        &&& row.id == id
        &&& row.shown
        &&& row.text@ == unit_text(world, id)
        &&& row.reason@ == reason_text(obstacle)
        &&& row.hold == ButtonLook::Enabled
        &&& row.rebuild == button_look(obstacle is None, false)
        &&& row.delegate == button_look(true, u.delegated)
        &&& row.delegate_label@ == delegate_text(u.delegated)
    } else {
        &&& row.id == id
        &&& !row.shown
        &&& row.text@.len() == 0
        &&& row.reason@.len() == 0
        &&& row.hold == ButtonLook::Disabled
        &&& row.rebuild == ButtonLook::Disabled
        &&& row.delegate == ButtonLook::Disabled
        &&& row.delegate_label@ == delegate_text(false)
    }
}

fn unit_row(world: &World, faction: FactionId, id: u32) -> (row: UnitRow)
    requires
        world.valid(),
        world.has_faction(faction),
    ensures
        shows_unit(row, *world, faction, id),
{
    if (id as usize) < world.units.len() && world.units[id as usize].alive {
        let u = &world.units[id as usize];
        assert(world.has_station(world.units@[id as int].station));
        let (reason, rebuild) = match reinforce_disabled_reason(world, faction, u.station) {
            Some(reason) => (reason.to_owned(), ButtonLook::Disabled),
            None => (String::new(), ButtonLook::Enabled),
        };
        let mut text = heading(world, id);
        text.append(strength(world, id).as_str());
        text.append(base(world, id).as_str());
        let (delegate, label) = if u.delegated {
            (ButtonLook::Active, "操作を戻す [U]")
        } else {
            (ButtonLook::Enabled, "AI委任 [U]")
        };
        UnitRow { id, shown: true, text, reason, hold: ButtonLook::Enabled, rebuild, delegate, delegate_label: label.to_owned() }
    } else {
        UnitRow {
            id,
            shown: false,
            text: String::new(),
            reason: String::new(),
            hold: ButtonLook::Disabled,
            rebuild: ButtonLook::Disabled,
            delegate: ButtonLook::Disabled,
            delegate_label: "AI委任 [U]".to_owned(),
        }
    }
}

/// The unit panel: a row for each of the first selected units, and how many there are beyond.
pub struct UnitPanel {
    pub rows: Vec<UnitRow>,
    pub overflow: String,
}

/// How the units beyond the last row are counted.
pub open spec fn unit_overflow(n: nat) -> Seq<char> {
    if n > MAX_UNIT_ROWS {
        "...ほか "@ + decimal((n - MAX_UNIT_ROWS) as nat) + " 隊"@
    } else {
        Seq::empty()
    }
}

/// The unit panel; `None` while it is closed.
pub fn sync_unit_panel(client: &Client, world: &World) -> (panel: Option<UnitPanel>)
    requires
        world.valid(),
        client.ui.known_in(*world),
    ensures
        panel is Some <==> unit_panel_shown(client.ui, client.units@),
        panel matches Some(p) ==> {
            let n = client.units@.len();
            &&& p.rows@.len() == (if n < MAX_UNIT_ROWS { n as int } else { MAX_UNIT_ROWS as int })
            &&& (forall|i: int|
                0 <= i < p.rows@.len() ==> shows_unit(#[trigger] p.rows@[i], *world, client.ui.player->0, client.units@[i]))
            &&& p.overflow@ == unit_overflow(n)
        },
{
    let n: usize = client.units.len();
    if n == 0 {
        return None;
    }
    let faction = match client.ui.player {
        Some(faction) => faction,
        None => return None,
    };
    let mut rows: Vec<UnitRow> = Vec::new();
    let mut i: usize = 0;
    while i < n && i < MAX_UNIT_ROWS
        invariant
            world.valid(),
            world.has_faction(faction),
            n == client.units@.len(),
            i <= n,
            i <= MAX_UNIT_ROWS,
            rows.len() == i,
            forall|k: int| 0 <= k < i ==> shows_unit(#[trigger] rows@[k], *world, faction, client.units@[k]),
        decreases n - i,
    {
        rows.push(unit_row(world, faction, client.units.get(i)));
        i += 1;
    }
    let overflow = if n > MAX_UNIT_ROWS {
        let mut text = "...ほか ".to_owned();
        text.append(decimal_text(n - MAX_UNIT_ROWS).as_str());
        text.append(" 隊");
        text
    } else {
        String::new()
    };
    Some(UnitPanel { rows, overflow })
}

/// A click on a button of a row tells the unit of that row, and no other; where there is no row it
/// does nothing.
pub fn handle_unit_action_click(world: &World, rows: &Vec<UnitRow>, slot: usize, order: UnitOrder) -> (command: Option<Command>)
    ensures
        command == (if slot < rows@.len() {
            Some(unit_command(*world, order, rows@[slot as int].id))
        } else {
            None
        }),
{
    if slot < rows.len() {
        Some(tell_unit(world, order, rows[slot].id))
    } else {
        None
    }
}

} // verus!
