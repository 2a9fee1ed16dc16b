//! What the client reads of the simulated world, as plain values.
//!
//! A faction, region, sea zone, unit, transport node or transport line is known by its position in
//! its list. What only the simulation can work out (which forces reach a region, which port is
//! blockaded) is a value of the snapshot.
use crate::quantity::Quantity;
use crate::types::{
    FactionId, NationalFocus, Project, RegionId, SeaZoneId, Station, TransportLineId, TransportNodeId, Treaty,
};
use vstd::prelude::*;

verus! {

/// How many goods there are.
pub const GOOD_COUNT: usize = 6;

/// How many treaties there are.
pub const TREATY_COUNT: usize = 6;

/// How many national foci there are.
pub const FOCUS_COUNT: usize = 6;

/// How many kinds of equipment there are.
pub const EQUIPMENT_COUNT: usize = 5;

/// How many groups of a society there are.
pub const GROUP_COUNT: usize = 7;

/// How many branches of the land forces there are.
pub const BRANCH_COUNT: usize = 3;

/// A point of the map.
#[derive(Clone, Copy, Debug, PartialEq, Eq, Structural)]
pub struct Point {
    pub x: Quantity,
    pub y: Quantity,
}

/// The terrain of a region.
#[derive(Clone, Copy, Debug, PartialEq, Eq, Structural)]
pub enum Terrain {
    Plain,
    Hill,
    Mountain,
    Urban,
}

/// The kind of a link between two regions.
#[derive(Clone, Copy, Debug, PartialEq, Eq, Structural)]
pub enum LinkKind {
    Rail,
    Road,
    Tunnel,
    Strait,
    Sea,
}

/// How two factions stand to each other.
#[derive(Clone, Copy, Debug, PartialEq, Eq, Structural)]
pub enum Stance {
    War,
    Ceasefire,
    NonAggression,
    Alliance,
}

/// A branch of the land forces.
#[derive(Clone, Copy, Debug, PartialEq, Eq, Structural)]
pub enum Branch {
    Infantry,
    Armour,
    Artillery,
}

/// A kind of equipment that recruiting a unit uses up.
#[derive(Clone, Copy, Debug, PartialEq, Eq, Structural)]
pub enum Equipment {
    Infantry,
    Armour,
    Artillery,
    Naval,
    Aircraft,
}

/// A group of a society.
#[derive(Clone, Copy, Debug, PartialEq, Eq, Structural)]
pub enum Group {
    Government,
    Bureaucracy,
    Military,
    Business,
    Labor,
    Citizens,
    LocalGovernment,
}

/// The kind of a transport node.
#[derive(Clone, Copy, Debug, PartialEq, Eq, Structural)]
pub enum NodeKind {
    Airfield,
    Port,
    Depot,
    Junction,
}

/// A link of a region to another one.
#[derive(Clone, Copy, Debug, PartialEq, Eq, Structural)]
pub struct Link {
    pub to: RegionId,
    pub kind: LinkKind,
}

/// Construction work in progress.
#[derive(Clone, Copy, Debug, PartialEq, Eq, Structural)]
pub struct Construction {
    pub project: Project,
    pub invested: Quantity,
    pub required: Quantity,
}

/// A land region.
pub struct Region {
    pub name: String,
    pub owner: FactionId,
    pub occupier: Option<FactionId>,
    /// How far the occupation has come, as a share.
    pub occupation: Quantity,
    pub terrain: Terrain,
    pub position: Point,
    pub links: Vec<Link>,
    pub population: Quantity,
    /// The effective capacity for each good.
    pub capacity: Vec<Quantity>,
    pub infrastructure: Quantity,
    pub port: Quantity,
    pub blockaded: bool,
    /// The unrest, out of 100.
    pub unrest: Quantity,
    /// The devastation, as a share.
    pub devastation: Quantity,
    pub supply: Quantity,
    /// How much supply the region can pass on.
    pub throughput: Quantity,
    pub import_flow: Quantity,
    pub construction: Option<Construction>,
    /// The operational airfield that an air strike would hit, and that squadrons are raised at.
    pub airfield: Option<TransportNodeId>,
    /// The operational port that an air strike would hit.
    pub port_node: Option<TransportNodeId>,
    /// For each faction: whether units hostile to it stand here.
    pub enemy_units: Vec<bool>,
    /// For each faction: whether one of its air units reaches here.
    pub aircraft_reach: Vec<bool>,
    /// For each faction: whether any of its forces reaches here.
    pub force_reach: Vec<bool>,
    /// For each faction: its share of the air superiority.
    pub air_superiority: Vec<Quantity>,
}

/// A sea zone.
pub struct SeaZone {
    pub name: String,
    pub coast: Vec<RegionId>,
    /// For each faction: its share of the control.
    pub control: Vec<Quantity>,
    /// For each faction: whether fleets hostile to it stand here.
    pub enemy_fleets: Vec<bool>,
}

/// A stock of equipment.
pub struct EquipmentStock {
    pub label: String,
    pub stock: Quantity,
}

/// A faction.
pub struct Faction {
    pub name: String,
    pub alive: bool,
    pub capital: RegionId,
    pub manpower: Quantity,
    /// The stock of each good.
    pub stock: Vec<Quantity>,
    /// The stock of each kind of equipment.
    pub equipment: Vec<EquipmentStock>,
    pub stability: Quantity,
    pub war_support: Quantity,
    pub shortage: Quantity,
    pub conscription: Quantity,
    pub civilian_ration: Quantity,
    pub industry_priority: Vec<Quantity>,
    pub logistics_priority: Vec<Quantity>,
    pub import_plan: Vec<Quantity>,
    pub national_focus: NationalFocus,
    pub focus_transition_days: u32,
    /// The support of each group.
    pub group_support: Vec<Quantity>,
}

/// A military unit.
pub struct Unit {
    pub name: String,
    pub owner: FactionId,
    pub alive: bool,
    pub station: Station,
    pub branch: Option<Branch>,
    pub manpower: Quantity,
    pub equipment: Quantity,
    pub organization: Quantity,
    pub morale: Quantity,
    pub supply: Quantity,
    pub experience: Quantity,
    pub in_transit: bool,
    /// Whether the unit is handed over to an agent.
    pub delegated: bool,
}

/// A transport node.
pub struct Node {
    pub name: String,
    pub region: RegionId,
}

/// A transport line.
pub struct Line {
    pub from: TransportNodeId,
    pub to: TransportNodeId,
    /// The condition of the line, as a share.
    pub condition: Quantity,
}

/// How one faction stands to another.
pub struct Relation {
    pub stance: Stance,
    pub opinion: Quantity,
    /// For each treaty: whether it is in force.
    pub treaties: Vec<bool>,
    /// For each treaty: the days until it can be proposed again.
    pub cooldowns: Vec<u32>,
    pub military_access: bool,
    pub port_access: bool,
    pub trade_agreement: bool,
}

/// A treaty proposal that waits for an answer.
#[derive(Clone, Copy, Debug, PartialEq, Eq, Structural)]
pub struct Proposal {
    pub from: FactionId,
    pub to: FactionId,
    pub treaty: Treaty,
}

/// A proposal in natural language that waits for an answer.
pub struct TextProposal {
    pub from: FactionId,
    pub to: FactionId,
    pub text: String,
}

/// The constants of the simulation that the client compares against.
#[derive(Clone, Copy, Debug, PartialEq, Eq, Structural)]
pub struct Balance {
    pub unit_manpower: Quantity,
    pub unit_equipment: Quantity,
    pub air_unit_machinery_cost: Quantity,
    pub attrition_supply_threshold: Quantity,
    pub regime_change_threshold: Quantity,
    /// The support below which a group acts.
    pub mutiny_threshold: Quantity,
    pub strike_threshold: Quantity,
    pub protest_threshold: Quantity,
    pub capital_flight_threshold: Quantity,
    pub separatism_threshold: Quantity,
    /// What a complete shortage costs the support of a group.
    pub citizens_shortage_penalty: Quantity,
    pub labor_shortage_penalty: Quantity,
    pub government_shortage_penalty: Quantity,
    /// The least and the most that civilians are given.
    pub civilian_ration_min: Quantity,
    pub civilian_ration_max: Quantity,
    /// The length of the longest proposal in natural language, in characters.
    pub proposal_max_chars: usize,
    /// How many days a newspaper issue covers; at least one.
    pub newspaper_interval_days: u32,
}

/// Names that the simulation gives to what it enumerates.
pub struct Labels {
    pub goods: Vec<String>,
    pub branches: Vec<String>,
    pub foci: Vec<String>,
    pub groups: Vec<String>,
}

/// The world, as the client reads it on one day.
pub struct World {
    pub day: u32,
    pub regions: Vec<Region>,
    pub sea_zones: Vec<SeaZone>,
    pub factions: Vec<Faction>,
    pub units: Vec<Unit>,
    pub nodes: Vec<Node>,
    pub lines: Vec<Line>,
    /// `relations[a][b]` is how faction `a` stands to faction `b`.
    pub relations: Vec<Vec<Relation>>,
    pub proposals: Vec<Proposal>,
    pub text_proposals: Vec<TextProposal>,
    pub balance: Balance,
    pub labels: Labels,
}

impl Branch {
    /// The position among all values.
    pub open spec fn position(self) -> int {
        match self {
            Branch::Infantry => 0,
            Branch::Armour => 1,
            Branch::Artillery => 2,
        }
    }

    /// The value at a position, counted round and round.
    pub open spec fn at(i: int) -> Branch {
        if i % 3 == 0 {
            Branch::Infantry
        } else if i % 3 == 1 {
            Branch::Armour
        } else {
            Branch::Artillery
        }
    }

    /// The position among all values.
    pub fn index(self) -> (i: usize)
        ensures
            i == self.position(),
            i < 3,
    {
        match self {
            Branch::Infantry => 0,
            Branch::Armour => 1,
            Branch::Artillery => 2,
        }
    }

    /// The value at a position, counted round and round.
    pub fn nth(i: usize) -> (value: Branch)
        ensures
            value == Branch::at(i as int),
    {
        match i % 3 {
            0 => Branch::Infantry,
            1 => Branch::Armour,
            _ => Branch::Artillery,
        }
    }

    /// The next value, after the last the first again.
    pub open spec fn following(self) -> Branch {
        Branch::at(self.position() + 1)
    }

    /// The next value, after the last the first again.
    pub fn next(self) -> (value: Branch)
        ensures
            value == self.following(),
    {
        Branch::nth(self.index() + 1)
    }
}

impl Group {
    /// The position among all values.
    pub open spec fn position(self) -> int {
        match self {
            Group::Government => 0,
            Group::Bureaucracy => 1,
            Group::Military => 2,
            Group::Business => 3,
            Group::Labor => 4,
            Group::Citizens => 5,
            Group::LocalGovernment => 6,
        }
    }

    /// The value at a position, counted round and round.
    pub open spec fn at(i: int) -> Group {
        if i % 7 == 0 {
            Group::Government
        } else if i % 7 == 1 {
            Group::Bureaucracy
        } else if i % 7 == 2 {
            Group::Military
        } else if i % 7 == 3 {
            Group::Business
        } else if i % 7 == 4 {
            Group::Labor
        } else if i % 7 == 5 {
            Group::Citizens
        } else {
            Group::LocalGovernment
        }
    }

    /// The position among all values.
    pub fn index(self) -> (i: usize)
        ensures
            i == self.position(),
            i < 7,
    {
        match self {
            Group::Government => 0,
            Group::Bureaucracy => 1,
            Group::Military => 2,
            Group::Business => 3,
            Group::Labor => 4,
            Group::Citizens => 5,
            Group::LocalGovernment => 6,
        }
    }

    /// The value at a position, counted round and round.
    pub fn nth(i: usize) -> (value: Group)
        ensures
            value == Group::at(i as int),
    {
        match i % 7 {
            0 => Group::Government,
            1 => Group::Bureaucracy,
            2 => Group::Military,
            3 => Group::Business,
            4 => Group::Labor,
            5 => Group::Citizens,
            _ => Group::LocalGovernment,
        }
    }

    /// The next value, after the last the first again.
    pub open spec fn following(self) -> Group {
        Group::at(self.position() + 1)
    }

    /// The next value, after the last the first again.
    pub fn next(self) -> (value: Group)
        ensures
            value == self.following(),
    {
        Group::nth(self.index() + 1)
    }
}

impl Equipment {
    /// The position among all kinds.
    pub open spec fn position(self) -> int {
        match self {
            Equipment::Infantry => 0,
            Equipment::Armour => 1,
            Equipment::Artillery => 2,
            Equipment::Naval => 3,
            Equipment::Aircraft => 4,
        }
    }

    /// The position among all kinds.
    pub fn index(self) -> (i: usize)
        ensures
            i == self.position(),
            i < EQUIPMENT_COUNT,
    {
        match self {
            Equipment::Infantry => 0,
            Equipment::Armour => 1,
            Equipment::Artillery => 2,
            Equipment::Naval => 3,
            Equipment::Aircraft => 4,
        }
    }
}

impl Region {
    /// Whether the region is described for `factions` factions and every good.
    pub open spec fn valid(&self, regions: nat, factions: nat, nodes: nat) -> bool {
        &&& self.owner.0 < factions
        &&& (self.occupier matches Some(f) ==> f.0 < factions)
        &&& self.capacity@.len() == GOOD_COUNT
        &&& self.enemy_units@.len() == factions
        &&& self.aircraft_reach@.len() == factions
        &&& self.force_reach@.len() == factions
        &&& (forall|i: int| 0 <= i < self.links@.len() ==> (#[trigger] self.links@[i]).to.0 < regions)
    }
}

impl SeaZone {
    /// Whether the coast exists, and every faction has its place.
    pub open spec fn valid(&self, regions: nat, factions: nat) -> bool {
        &&& self.enemy_fleets@.len() == factions
        &&& self.coast@.len() <= u32::MAX
        &&& (forall|i: int| 0 <= i < self.coast@.len() ==> (#[trigger] self.coast@[i]).0 < regions)
    }
}

impl Faction {
    /// Whether the faction is described for every good, kind of equipment and group.
    pub open spec fn valid(&self, regions: nat) -> bool {
        &&& self.capital.0 < regions
        &&& self.stock@.len() == GOOD_COUNT
        &&& self.equipment@.len() == EQUIPMENT_COUNT
        &&& self.industry_priority@.len() == GOOD_COUNT
        &&& self.logistics_priority@.len() == GOOD_COUNT
        &&& self.import_plan@.len() == GOOD_COUNT
        &&& self.group_support@.len() == GROUP_COUNT
    }
}

impl World {
    /// Whether there is such a region.
    pub open spec fn has_region(&self, id: RegionId) -> bool {
        id.0 < self.regions@.len()
    }

    /// Whether there is such a sea zone.
    pub open spec fn has_sea_zone(&self, id: SeaZoneId) -> bool {
        id.0 < self.sea_zones@.len()
    }

    /// Whether there is such a faction.
    pub open spec fn has_faction(&self, id: FactionId) -> bool {
        id.0 < self.factions@.len()
    }

    /// Whether there is such a transport node.
    pub open spec fn has_node(&self, id: TransportNodeId) -> bool {
        id.0 < self.nodes@.len()
    }

    /// Whether there is such a transport line.
    pub open spec fn has_line(&self, id: TransportLineId) -> bool {
        id.0 < self.lines@.len()
    }

    /// Whether there is such a place.
    pub open spec fn has_station(&self, station: Station) -> bool {
        match station {
            Station::Region(r) => self.has_region(r),
            Station::Sea(z) => self.has_sea_zone(z),
            Station::Airfield(n) => self.has_node(n),
        }
    }

    /// Whether every reference of the snapshot leads somewhere, and every table is complete.
    pub open spec fn valid(&self) -> bool {
        &&& self.regions@.len() <= u32::MAX
        &&& self.factions@.len() <= u32::MAX
        &&& self.units@.len() <= u32::MAX
        &&& self.lines@.len() <= u32::MAX
        &&& self.sea_zones@.len() <= u32::MAX
        &&& (forall|i: int|
            0 <= i < self.regions@.len() ==> (#[trigger] self.regions@[i]).valid(
                self.regions@.len(),
                self.factions@.len(),
                self.nodes@.len(),
            ))
        &&& (forall|i: int|
            0 <= i < self.sea_zones@.len() ==> (#[trigger] self.sea_zones@[i]).valid(
                self.regions@.len(),
                self.factions@.len(),
            ))
        &&& (forall|i: int|
            0 <= i < self.factions@.len() ==> (#[trigger] self.factions@[i]).valid(self.regions@.len()))
        &&& (forall|i: int|
            0 <= i < self.units@.len() ==> self.has_faction((#[trigger] self.units@[i]).owner) && self.has_station(
                self.units@[i].station,
            ))
        &&& (forall|i: int| 0 <= i < self.nodes@.len() ==> self.has_region((#[trigger] self.nodes@[i]).region))
        &&& (forall|i: int|
            0 <= i < self.lines@.len() ==> self.has_node((#[trigger] self.lines@[i]).from) && self.has_node(
                self.lines@[i].to,
            ))
        &&& self.relations@.len() == self.factions@.len()
        &&& (forall|a: int|
            0 <= a < self.relations@.len() ==> (#[trigger] self.relations@[a])@.len() == self.factions@.len())
        &&& (forall|a: int, b: int|
            0 <= a < self.relations@.len() && 0 <= b < self.factions@.len() ==> (#[trigger] self.relations@[a]@[b]).treaties@.len()
                == TREATY_COUNT && self.relations@[a]@[b].cooldowns@.len() == TREATY_COUNT)
        &&& self.labels.goods@.len() == GOOD_COUNT
        &&& self.labels.branches@.len() == BRANCH_COUNT
        &&& self.labels.foci@.len() == FOCUS_COUNT
        &&& self.labels.groups@.len() == GROUP_COUNT
        &&& self.balance.newspaper_interval_days > 0
    }

    /// The region of that id.
    pub open spec fn region_at(&self, id: RegionId) -> Region {
        self.regions@[id.0 as int]
    }

    /// The faction of that id.
    pub open spec fn faction_at(&self, id: FactionId) -> Faction {
        self.factions@[id.0 as int]
    }

    /// The relation of one faction to another.
    pub open spec fn relation_of(&self, a: FactionId, b: FactionId) -> Relation {
        self.relations@[a.0 as int]@[b.0 as int]
    }

    /// The region of that id.
    pub fn region(&self, id: RegionId) -> (region: &Region)
        requires
            self.has_region(id),
        ensures
            *region == self.region_at(id),
    {
        &self.regions[id.0 as usize]
    }

    /// The sea zone of that id.
    pub fn sea_zone(&self, id: SeaZoneId) -> (zone: &SeaZone)
        requires
            self.has_sea_zone(id),
        ensures
            *zone == self.sea_zones@[id.0 as int],
    {
        &self.sea_zones[id.0 as usize]
    }

    /// The faction of that id.
    pub fn faction(&self, id: FactionId) -> (faction: &Faction)
        requires
            self.has_faction(id),
        ensures
            *faction == self.faction_at(id),
    {
        &self.factions[id.0 as usize]
    }

    /// The transport node of that id.
    pub fn transport_node(&self, id: TransportNodeId) -> (node: &Node)
        requires
            self.has_node(id),
        ensures
            *node == self.nodes@[id.0 as int],
    {
        &self.nodes[id.0 as usize]
    }

    /// The transport line of that id.
    pub fn transport_line(&self, id: TransportLineId) -> (line: &Line)
        requires
            self.has_line(id),
        ensures
            *line == self.lines@[id.0 as int],
    {
        &self.lines[id.0 as usize]
    }

    /// The relation of one faction to another.
    pub fn relation(&self, a: FactionId, b: FactionId) -> (relation: &Relation)
        requires
            self.valid(),
            self.has_faction(a),
            self.has_faction(b),
        ensures
            *relation == self.relation_of(a, b),
            relation.treaties@.len() == TREATY_COUNT,
            relation.cooldowns@.len() == TREATY_COUNT,
    {
        assert(self.relations@[a.0 as int]@[b.0 as int].treaties@.len() == TREATY_COUNT);
        &self.relations[a.0 as usize][b.0 as usize]
    }
}

} // verus!
