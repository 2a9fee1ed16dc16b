//! The orders a player can give in a region: the panel's buttons and the region menu.
use crate::client::{Command, Ui};
use crate::rejection::{action_error_ja, action_error_text, ActionError};
use crate::text::{decimal, decimal_text};
use crate::types::{Action, Domain, FactionId, Good, Project, RegionId};
use crate::world::{Branch, Equipment, World};
use vstd::prelude::*;

verus! {

/// How a button looks.
#[derive(Clone, Copy, Debug, PartialEq, Eq, Structural)]
pub enum ButtonLook {
    Enabled,
    Active,
    Disabled,
}

/// How a button looks, given whether it can be pressed and whether it shows the current choice.
pub open spec fn button_look(enabled: bool, active: bool) -> ButtonLook {
    if !enabled {
        ButtonLook::Disabled
    } else if active {
        ButtonLook::Active
    } else {
        ButtonLook::Enabled
    }
}

/// How a button looks, given whether it can be pressed and whether it shows the current choice.
pub fn button_bg(enabled: bool, active: bool) -> (look: ButtonLook)
    ensures
        look == button_look(enabled, active),
{
    if !enabled {
        ButtonLook::Disabled
    } else if active {
        ButtonLook::Active
    } else {
        ButtonLook::Enabled
    }
}

/// An order that a player can give in a region.
#[derive(Clone, Copy, Debug, PartialEq, Eq, Structural)]
pub enum RegionActionKind {
    RecruitLand,
    RecruitSea,
    RecruitAir,
    BuildInfra,
    BuildPort,
    BuildCapacity,
    Repair,
    CancelBuild,
}

/// How many orders a player can give in a region.
pub const REGION_ACTION_COUNT: usize = 8;

impl RegionActionKind {
    /// The position in the panel and in the menu.
    pub open spec fn position(self) -> int {
        match self {
            RegionActionKind::RecruitLand => 0,
            RegionActionKind::RecruitSea => 1,
            RegionActionKind::RecruitAir => 2,
            RegionActionKind::BuildInfra => 3,
            RegionActionKind::BuildPort => 4,
            RegionActionKind::BuildCapacity => 5,
            RegionActionKind::Repair => 6,
            RegionActionKind::CancelBuild => 7,
        }
    }

    /// The order at a position.
    pub open spec fn at(i: int) -> RegionActionKind {
        if i == 0 {
            RegionActionKind::RecruitLand
        } else if i == 1 {
            RegionActionKind::RecruitSea
        } else if i == 2 {
            RegionActionKind::RecruitAir
        } else if i == 3 {
            RegionActionKind::BuildInfra
        } else if i == 4 {
            RegionActionKind::BuildPort
        } else if i == 5 {
            RegionActionKind::BuildCapacity
        } else if i == 6 {
            RegionActionKind::Repair
        } else {
            RegionActionKind::CancelBuild
        }
    }

    /// The position in the panel and in the menu.
    pub fn index(self) -> (i: usize)
        ensures
            i == self.position(),
            i < REGION_ACTION_COUNT,
    {
        match self {
            RegionActionKind::RecruitLand => 0,
            RegionActionKind::RecruitSea => 1,
            RegionActionKind::RecruitAir => 2,
            RegionActionKind::BuildInfra => 3,
            RegionActionKind::BuildPort => 4,
            RegionActionKind::BuildCapacity => 5,
            RegionActionKind::Repair => 6,
            RegionActionKind::CancelBuild => 7,
        }
    }

    /// The order at a position.
    pub fn nth(i: usize) -> (kind: RegionActionKind)
        ensures
            kind == RegionActionKind::at(i as int),
    {
        match i {
            0 => RegionActionKind::RecruitLand,
            1 => RegionActionKind::RecruitSea,
            2 => RegionActionKind::RecruitAir,
            3 => RegionActionKind::BuildInfra,
            4 => RegionActionKind::BuildPort,
            5 => RegionActionKind::BuildCapacity,
            6 => RegionActionKind::Repair,
            _ => RegionActionKind::CancelBuild,
        }
    }

    /// Every order stands at its own position.
    pub proof fn position_names_one_kind(self)
        ensures
            RegionActionKind::at(self.position()) == self,
            0 <= self.position() < REGION_ACTION_COUNT,
    {
    }

    /// The order as the menu names it.
    pub open spec fn item_text(self) -> Seq<char> {
        match self {
            RegionActionKind::RecruitLand => "陸軍を徴募"@,
            RegionActionKind::RecruitSea => "艦隊を徴募（要港湾）"@,
            RegionActionKind::RecruitAir => "飛行隊を徴募（要飛行場）"@,
            RegionActionKind::BuildInfra => "インフラ建設"@,
            RegionActionKind::BuildPort => "港湾建設"@,
            RegionActionKind::BuildCapacity => "生産設備建設（対象品目）"@,
            RegionActionKind::Repair => "修復"@,
            RegionActionKind::CancelBuild => "建設中止"@,
        }
    }

    /// The order as the menu names it.
    pub fn item(self) -> (text: &'static str)
        ensures
            text@ == self.item_text(),
    {
        match self {
            RegionActionKind::RecruitLand => "陸軍を徴募",
            RegionActionKind::RecruitSea => "艦隊を徴募（要港湾）",
            RegionActionKind::RecruitAir => "飛行隊を徴募（要飛行場）",
            RegionActionKind::BuildInfra => "インフラ建設",
            RegionActionKind::BuildPort => "港湾建設",
            RegionActionKind::BuildCapacity => "生産設備建設（対象品目）",
            RegionActionKind::Repair => "修復",
            RegionActionKind::CancelBuild => "建設中止",
        }
    }

    /// The order as its button names it: with the good or the branch that it is about.
    pub open spec fn label_text(self, world: World, active_good: Good, active_branch: Branch) -> Seq<char> {
        match self {
            RegionActionKind::BuildCapacity => self.item_text() + " ["@ + world.labels.goods@[active_good.position()]@ + "]"@,
            RegionActionKind::RecruitLand => self.item_text() + " ["@
                + world.labels.branches@[active_branch.position()]@ + "]"@,
            _ => self.item_text(),
        }
    }

    /// Writes the order as its button names it.
    pub fn label(self, world: &World, active_good: Good, active_branch: Branch) -> (text: String)
        requires
            world.valid(),
        ensures
            text@ == self.label_text(*world, active_good, active_branch),
    {
        let mut text = self.item().to_owned();
        match self {
            RegionActionKind::BuildCapacity => {
                text.append(" [");
                text.append(world.labels.goods[active_good.index()].as_str());
                text.append("]");
            },
            RegionActionKind::RecruitLand => {
                text.append(" [");
                text.append(world.labels.branches[active_branch.index()].as_str());
                text.append("]");
            },
            _ => {},
        }
        text
    }

    /// The key of the menu that gives the same order.
    pub open spec fn hint_text(self) -> Seq<char> {
        "(右クリック→"@ + decimal((self.position() + 1) as nat) + ")"@
    }

    /// Writes the key of the menu that gives the same order.
    pub fn shortcut_hint(self) -> (text: String)
        ensures
            text@ == self.hint_text(),
    {
        let mut text = "(右クリック→".to_owned();
        text.append(decimal_text(self.index() + 1).as_str());
        text.append(")");
        text
    }

    /// What is asked for when the order is given.
    pub open spec fn command(self, region: RegionId, active_good: Good, active_branch: Branch) -> Command {
        match self {
            RegionActionKind::RecruitLand => Command::Recruit { region, domain: Domain::Land, branch: active_branch },
            RegionActionKind::RecruitSea => Command::Recruit { region, domain: Domain::Sea, branch: Branch::Infantry },
            RegionActionKind::RecruitAir => Command::Recruit { region, domain: Domain::Air, branch: Branch::Infantry },
            RegionActionKind::BuildInfra => Command::Order(Action::Build { region, project: Project::Infrastructure }),
            RegionActionKind::BuildPort => Command::Order(Action::Build { region, project: Project::Port }),
            RegionActionKind::BuildCapacity => Command::Order(
                Action::Build { region, project: Project::Capacity(active_good) },
            ),
            RegionActionKind::Repair => Command::Order(Action::Build { region, project: Project::Repair }),
            RegionActionKind::CancelBuild => Command::Order(Action::CancelBuild { region }),
        }
    }

    /// What is asked for when the order is given.
    pub fn to_command(self, region: RegionId, active_good: Good, active_branch: Branch) -> (command: Command)
        ensures
            command == self.command(region, active_good, active_branch),
    {
        match self {
            RegionActionKind::RecruitLand => Command::Recruit { region, domain: Domain::Land, branch: active_branch },
            RegionActionKind::RecruitSea => Command::Recruit { region, domain: Domain::Sea, branch: Branch::Infantry },
            RegionActionKind::RecruitAir => Command::Recruit { region, domain: Domain::Air, branch: Branch::Infantry },
            RegionActionKind::BuildInfra => Command::Order(Action::Build { region, project: Project::Infrastructure }),
            RegionActionKind::BuildPort => Command::Order(Action::Build { region, project: Project::Port }),
            RegionActionKind::BuildCapacity => Command::Order(
                Action::Build { region, project: Project::Capacity(active_good) },
            ),
            RegionActionKind::Repair => Command::Order(Action::Build { region, project: Project::Repair }),
            RegionActionKind::CancelBuild => Command::Order(Action::CancelBuild { region }),
        }
    }

    /// Why the order cannot be given, if it cannot.
    pub open spec fn obstacle(self, world: World, faction: FactionId, region: RegionId, active_branch: Branch) -> Option<Seq<char>> {
        let r = world.region_at(region);
        if !world.has_region(region) {
            None
        } else if r.owner != faction {
            Some(action_error_text(ActionError::RegionNotOwned))
        } else if r.enemy_units@[faction.0 as int] {
            Some(action_error_text(ActionError::RegionContested))
        } else {
            match self {
                RegionActionKind::RecruitLand => recruit_obstacle(
                    world,
                    faction,
                    Domain::Land,
                    equipment_of(active_branch),
                ),
                RegionActionKind::RecruitSea => if r.port.at_most(crate::quantity::zero()) {
                    Some(action_error_text(ActionError::NoPort))
                } else {
                    recruit_obstacle(world, faction, Domain::Sea, Equipment::Naval)
                },
                RegionActionKind::RecruitAir => if r.airfield is None {
                    Some(action_error_text(ActionError::NoAirfield))
                } else {
                    recruit_obstacle(world, faction, Domain::Air, Equipment::Aircraft)
                },
                RegionActionKind::CancelBuild => if r.construction is None {
                    Some(action_error_text(ActionError::NoConstruction))
                } else {
                    None
                },
                _ => if r.construction is Some {
                    Some(action_error_text(ActionError::AlreadyBuilding))
                } else {
                    None
                },
            }
        }
    }

    /// Why the order cannot be given, if it cannot.
    pub fn reason(self, world: &World, faction: FactionId, region: RegionId, active_branch: Branch) -> (reason: Option<String>)
        requires
            world.valid(),
            world.has_faction(faction),
        ensures
            optional_text(reason) == self.obstacle(*world, faction, region, active_branch),
    {
        if region.0 as usize >= world.regions.len() {
            return None;
        }
        let r = world.region(region);
        assert(r.enemy_units@.len() == world.factions@.len());
        if r.owner != faction {
            return Some(action_error_ja(ActionError::RegionNotOwned).to_owned());
        }
        if r.enemy_units[faction.0 as usize] {
            return Some(action_error_ja(ActionError::RegionContested).to_owned());
        }
        match self {
            RegionActionKind::RecruitLand => recruit_reason(world, faction, Domain::Land, equipment_good(active_branch)),
            RegionActionKind::RecruitSea => {
                if r.port.is_at_most(crate::quantity::Quantity { bits: 0 }) {
                    return Some(action_error_ja(ActionError::NoPort).to_owned());
                }
                recruit_reason(world, faction, Domain::Sea, Equipment::Naval)
            },
            RegionActionKind::RecruitAir => {
                if r.airfield.is_none() {
                    return Some(action_error_ja(ActionError::NoAirfield).to_owned());
                }
                recruit_reason(world, faction, Domain::Air, Equipment::Aircraft)
            },
            RegionActionKind::CancelBuild => {
                if r.construction.is_none() {
                    Some(action_error_ja(ActionError::NoConstruction).to_owned())
                } else {
                    None
                }
            },
            _ => {
                if r.construction.is_some() {
                    Some(action_error_ja(ActionError::AlreadyBuilding).to_owned())
                } else {
                    None
                }
            },
        }
    }
}

/// The contents of a text that may be missing.
pub open spec fn optional_text(text: Option<String>) -> Option<Seq<char>> {
    match text {
        Some(s) => Some(s@),
        None => None,
    }
}

/// The equipment that a unit of a branch uses up.
pub open spec fn equipment_of(branch: Branch) -> Equipment {
    match branch {
        Branch::Infantry => Equipment::Infantry,
        Branch::Armour => Equipment::Armour,
        Branch::Artillery => Equipment::Artillery,
    }
}

fn equipment_good(branch: Branch) -> (equipment: Equipment)
    ensures
        equipment == equipment_of(branch),
{
    match branch {
        Branch::Infantry => Equipment::Infantry,
        Branch::Armour => Equipment::Armour,
        Branch::Artillery => Equipment::Artillery,
    }
}

/// Why a faction cannot raise a unit, if it cannot: it lacks people, equipment, or machinery for an
/// air unit.
pub open spec fn recruit_obstacle(world: World, faction: FactionId, domain: Domain, equipment: Equipment) -> Option<Seq<char>> {
    let f = world.faction_at(faction);
    let e = f.equipment@[equipment.position()];
    if f.manpower.less(world.balance.unit_manpower) {
        Some(action_error_text(ActionError::InsufficientManpower))
    } else if e.stock.less(world.balance.unit_equipment) {
        Some(e.label@ + "が不足している"@)
    } else if domain == Domain::Air && f.stock@[Good::Machinery.position()].less(world.balance.air_unit_machinery_cost) {
        Some(action_error_text(ActionError::InsufficientMachinery))
    } else {
        None
    }
}

/// Why a faction cannot raise a unit, if it cannot.
pub fn recruit_reason(world: &World, faction: FactionId, domain: Domain, equipment: Equipment) -> (reason: Option<String>)
    requires
        world.valid(),
        world.has_faction(faction),
    ensures
        optional_text(reason) == recruit_obstacle(*world, faction, domain, equipment),
{
    let f = world.faction(faction);
    assert(f.valid(world.regions@.len()));
    if f.manpower.is_less(world.balance.unit_manpower) {
        return Some(action_error_ja(ActionError::InsufficientManpower).to_owned());
    }
    let e = &f.equipment[equipment.index()];
    if e.stock.is_less(world.balance.unit_equipment) {
        let mut text = e.label.as_str().to_owned();
        text.append("が不足している");
        return Some(text);
    }
    if domain == Domain::Air && f.stock[Good::Machinery.index()].is_less(world.balance.air_unit_machinery_cost) {
        return Some(action_error_ja(ActionError::InsufficientMachinery).to_owned());
    }
    None
}

/// Whether the panels about the selected region are open: there is a player and a region, and no
/// other panel takes the place.
pub open spec fn region_panels_shown(ui: Ui) -> bool {
    ui.player is Some && ui.selected_region is Some && !ui.diplomacy_open && !ui.policy_open
}

/// Whether the panels about the selected region are open.
pub fn region_panels_showing(ui: &Ui) -> (showing: bool)
    ensures
        showing == region_panels_shown(*ui),
{
    ui.player.is_some() && ui.selected_region.is_some() && !ui.diplomacy_open && !ui.policy_open
}

/// A button of the region panel: what it says, why it cannot be pressed (nothing if it can), and how
/// it looks.
pub struct RegionActionRow {
    pub label: String,
    pub reason: String,
    pub look: ButtonLook,
}

/// What a button of the region panel says, and why it cannot be pressed.
pub open spec fn region_action_row(
    kind: RegionActionKind,
    world: World,
    faction: FactionId,
    region: RegionId,
    active_good: Good,
    active_branch: Branch,
) -> (Seq<char>, Seq<char>, ButtonLook) {
    let obstacle = kind.obstacle(world, faction, region, active_branch);
    (
        kind.label_text(world, active_good, active_branch) + " "@ + kind.hint_text(),
        match obstacle {
            Some(reason) => reason,
            None => Seq::empty(),
        },
        button_look(obstacle is None, false),
    )
}

/// The buttons of the region panel, in order; none while the panel is closed.
pub fn sync_region_action_buttons(ui: &Ui, world: &World) -> (rows: Vec<RegionActionRow>)
    requires
        world.valid(),
        ui.known_in(*world),
    ensures
        !region_panels_shown(*ui) ==> rows@.len() == 0,
        region_panels_shown(*ui) ==> rows@.len() == REGION_ACTION_COUNT && forall|i: int|
            0 <= i < REGION_ACTION_COUNT ==> ((#[trigger] rows@[i]).label@, rows@[i].reason@, rows@[i].look)
                == region_action_row(
                RegionActionKind::at(i),
                *world,
                ui.player->0,
                ui.selected_region->0,
                ui.active_good,
                ui.active_branch,
            ),
{
    let mut rows: Vec<RegionActionRow> = Vec::new();
    if !region_panels_showing(ui) {
        return rows;
    }
    if let (Some(faction), Some(region)) = (ui.player, ui.selected_region) {
        let mut i: usize = 0;
        while i < REGION_ACTION_COUNT
            invariant
                world.valid(),
                ui.known_in(*world),
                ui.player == Some(faction),
                ui.selected_region == Some(region),
                i <= REGION_ACTION_COUNT,
                rows.len() == i,
                forall|k: int|
                    0 <= k < i ==> ((#[trigger] rows@[k]).label@, rows@[k].reason@, rows@[k].look) == region_action_row(
                        RegionActionKind::at(k),
                        *world,
                        faction,
                        region,
                        ui.active_good,
                        ui.active_branch,
                    ),
            decreases REGION_ACTION_COUNT - i,
        {
            let kind = RegionActionKind::nth(i);
            let mut label = kind.label(world, ui.active_good, ui.active_branch);
            label.append(" ");
            label.append(kind.shortcut_hint().as_str());
            let (reason, look) = match kind.reason(world, faction, region, ui.active_branch) {
                Some(reason) => (reason, ButtonLook::Disabled),
                None => (String::new(), ButtonLook::Enabled),
            };
            rows.push(RegionActionRow { label, reason, look });
            i += 1;
        }
    }
    rows
}

/// What a click on a button of the region panel asks for: nothing where the order cannot be given.
pub open spec fn region_click(ui: Ui, world: World, kind: RegionActionKind) -> Option<Command> {
    match (ui.player, ui.selected_region) {
        (Some(faction), Some(region)) => if kind.obstacle(world, faction, region, ui.active_branch) is Some {
            None
        } else {
            Some(kind.command(region, ui.active_good, ui.active_branch))
        },
        _ => None,
    }
}

/// What a click on a button of the region panel asks for.
pub fn handle_region_action_click(ui: &Ui, world: &World, kind: RegionActionKind) -> (command: Option<Command>)
    requires
        world.valid(),
        ui.known_in(*world),
    ensures
        command == region_click(*ui, *world, kind),
{
    if let (Some(faction), Some(region)) = (ui.player, ui.selected_region) {
        if kind.reason(world, faction, region, ui.active_branch).is_some() {
            None
        } else {
            Some(kind.to_command(region, ui.active_good, ui.active_branch))
        }
    } else {
        None
    }
}

/// A button can be pressed exactly where a click on it asks for something.
pub proof fn enabled_buttons_are_those_that_act(ui: Ui, world: World, kind: RegionActionKind)
    requires
        region_panels_shown(ui),
    ensures
        region_click(ui, world, kind) is Some <==> region_action_row(
            kind,
            world,
            ui.player->0,
            ui.selected_region->0,
            ui.active_good,
            ui.active_branch,
        ).2 == ButtonLook::Enabled,
{
}

/// How the tab of a branch looks.
pub open spec fn branch_tab_look(ui: Ui, branch: Branch) -> ButtonLook {
    button_look(true, branch == ui.active_branch)
}

/// How the tab of a branch looks.
pub fn sync_branch_tab(ui: &Ui, branch: Branch) -> (look: ButtonLook)
    ensures
        look == branch_tab_look(*ui, branch),
{
    button_bg(true, branch == ui.active_branch)
}

/// A click on the tab of a branch picks that branch.
pub fn handle_branch_tab_click(ui: Ui, branch: Branch) -> (after: Ui)
    ensures
        after == (Ui { active_branch: branch, ..ui }),
{
    Ui { active_branch: branch, ..ui }
}

} // verus!
