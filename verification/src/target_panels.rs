//! Attacks on what the selected region holds: air strikes on its nodes, and interdiction of the
//! transport lines that touch it.
use crate::arithmetic::{hundred, product_of};
use crate::client::{Command, Ui};
use crate::quantity::Quantity;
use crate::region_panel::{button_look, region_panels_showing, region_panels_shown, ButtonLook};
use crate::rejection::{action_error_ja, action_error_text, ActionError};
use crate::text::{decimal, decimal_text};
use crate::types::{Action, FactionId, RegionId, TransportLineId, TransportNodeId};
use crate::world::{Stance, World};
use vstd::prelude::*;

verus! {

/// What an air strike can hit.
#[derive(Clone, Copy, Debug, PartialEq, Eq, Structural)]
pub enum StrikeKind {
    Airfield,
    Port,
}

/// The contents of a text that may be missing.
pub open spec fn optional_str(text: Option<&'static str>) -> Option<Seq<char>> {
    match text {
        Some(s) => Some(s@),
        None => None,
    }
}

/// Whether two factions are at war.
pub open spec fn at_war(world: World, a: FactionId, b: FactionId) -> bool {
    world.relation_of(a, b).stance == Stance::War
}

impl StrikeKind {
    /// What the button says.
    pub open spec fn label_text(self) -> Seq<char> {
        match self {
            StrikeKind::Airfield => "飛行場を空爆"@,
            StrikeKind::Port => "港湾を空爆"@,
        }
    }

    /// What the button says.
    pub fn label(self) -> (text: &'static str)
        ensures
            text@ == self.label_text(),
    {
        match self {
            StrikeKind::Airfield => "飛行場を空爆",
            StrikeKind::Port => "港湾を空爆",
        }
    }

    /// The operational node of a region that a strike would hit.
    pub open spec fn target(self, world: World, region: RegionId) -> Option<TransportNodeId> {
        if !world.has_region(region) {
            None
        } else {
            match self {
                StrikeKind::Airfield => world.region_at(region).airfield,
                StrikeKind::Port => world.region_at(region).port_node,
            }
        }
    }

    /// The operational node of a region that a strike would hit.
    pub fn node(self, world: &World, region: RegionId) -> (node: Option<TransportNodeId>)
        ensures
            node == self.target(*world, region),
    {
        if region.0 as usize >= world.regions.len() {
            return None;
        }
        match self {
            StrikeKind::Airfield => world.region(region).airfield,
            StrikeKind::Port => world.region(region).port_node,
        }
    }

    /// Why the strike cannot be ordered, if it cannot: there is nothing to hit, it is not an enemy's,
    /// or no aircraft reaches it.
    pub open spec fn obstacle(self, world: World, faction: FactionId, region: RegionId) -> Option<Seq<char>> {
        let owner = world.region_at(region).owner;
        if self.target(world, region) is None {
            Some(
                action_error_text(
                    match self {
                        StrikeKind::Airfield => ActionError::NoAirfield,
                        StrikeKind::Port => ActionError::NoPort,
                    },
                ),
            )
        } else if owner == faction || !at_war(world, faction, owner) {
            Some(action_error_text(ActionError::NodeNotHostile))
        } else if !world.region_at(region).aircraft_reach@[faction.0 as int] {
            Some(action_error_text(ActionError::NoAircraftInRange))
        } else {
            None
        }
    }

    /// Why the strike cannot be ordered, if it cannot.
    pub fn reason(self, world: &World, faction: FactionId, region: RegionId) -> (reason: Option<&'static str>)
        requires
            world.valid(),
            world.has_faction(faction),
        ensures
            optional_str(reason) == self.obstacle(*world, faction, region),
    {
        if self.node(world, region).is_none() {
            return Some(
                action_error_ja(
                    match self {
                        StrikeKind::Airfield => ActionError::NoAirfield,
                        StrikeKind::Port => ActionError::NoPort,
                    },
                ),
            );
        }
        let r = world.region(region);
        assert(r.valid(world.regions@.len(), world.factions@.len(), world.nodes@.len()));
        let owner = r.owner;
        if owner == faction || world.relation(faction, owner).stance != Stance::War {
            return Some(action_error_ja(ActionError::NodeNotHostile));
        }
        if !r.aircraft_reach[faction.0 as usize] {
            return Some(action_error_ja(ActionError::NoAircraftInRange));
        }
        None
    }
}

/// The text shown for a reason; nothing if there is none.
pub open spec fn reason_text(obstacle: Option<Seq<char>>) -> Seq<char> {
    match obstacle {
        Some(reason) => reason,
        None => Seq::empty(),
    }
}

/// The button of a strike: why it cannot be pressed, and how it looks; `None` while the panel is
/// closed.
pub open spec fn strike_row(ui: Ui, world: World, kind: StrikeKind) -> Option<(Seq<char>, ButtonLook)> {
    if region_panels_shown(ui) {
        let obstacle = kind.obstacle(world, ui.player->0, ui.selected_region->0);
        Some((reason_text(obstacle), button_look(obstacle is None, false)))
    } else {
        None
    }
}

/// The button of a strike; `None` while the panel is closed.
pub fn sync_strike_panel(ui: &Ui, world: &World, kind: StrikeKind) -> (row: Option<(String, ButtonLook)>)
    requires
        world.valid(),
        ui.known_in(*world),
    ensures
        match row {
            Some((reason, look)) => strike_row(*ui, *world, kind) == Some((reason@, look)),
            None => strike_row(*ui, *world, kind) is None,
        },
{
    if !region_panels_showing(ui) {
        return None;
    }
    if let (Some(faction), Some(region)) = (ui.player, ui.selected_region) {
        match kind.reason(world, faction, region) {
            Some(reason) => Some((reason.to_owned(), ButtonLook::Disabled)),
            None => Some((String::new(), ButtonLook::Enabled)),
        }
    } else {
        None
    }
}

/// What a click on the button of a strike asks for.
pub open spec fn strike_click(ui: Ui, world: World, kind: StrikeKind) -> Option<Command> {
    match (ui.player, ui.selected_region) {
        (Some(faction), Some(region)) => if kind.obstacle(world, faction, region) is Some {
            None
        } else {
            Some(Command::Order(Action::StrikeNode { node: kind.target(world, region)->0 }))
        },
        _ => None,
    }
}

/// What a click on the button of a strike asks for.
pub fn handle_strike_click(ui: &Ui, world: &World, kind: StrikeKind) -> (command: Option<Command>)
    requires
        world.valid(),
        ui.known_in(*world),
    ensures
        command == strike_click(*ui, *world, kind),
{
    if let (Some(faction), Some(region)) = (ui.player, ui.selected_region) {
        if kind.reason(world, faction, region).is_some() {
            return None;
        }
        match kind.node(world, region) {
            Some(node) => Some(Command::Order(Action::StrikeNode { node })),
            None => None,
        }
    } else {
        None
    }
}

/// How many lines the interdiction panel has room for.
pub const MAX_INTERDICT_ROWS: usize = 8;

/// Whether a line touches a region and lies wholly in the land of one other faction.
pub open spec fn touches(world: World, faction: FactionId, region: RegionId, line: int) -> bool {
    let a = world.nodes@[world.lines@[line].from.0 as int].region;
    let b = world.nodes@[world.lines@[line].to.0 as int].region;
    &&& (a == region || b == region)
    &&& world.region_at(a).owner == world.region_at(b).owner
    &&& world.region_at(a).owner != faction
}

/// The lines among the first `n` that touch a region, in order.
pub open spec fn touching(world: World, faction: FactionId, region: RegionId, n: nat) -> Seq<TransportLineId>
    decreases n,
{
    if n == 0 {
        Seq::empty()
    } else {
        let before = touching(world, faction, region, (n - 1) as nat);
        if touches(world, faction, region, n - 1) {
            before.push(TransportLineId((n - 1) as u32))
        } else {
            before
        }
    }
}

/// The lines that touch a region and lie wholly in the land of one other faction, in order.
pub fn lines_touching(world: &World, faction: FactionId, region: RegionId) -> (lines: Vec<TransportLineId>)
    requires
        world.valid(),
    ensures
        lines@ == touching(*world, faction, region, world.lines@.len()),
{
    let mut lines: Vec<TransportLineId> = Vec::new();
    let mut i: usize = 0;
    while i < world.lines.len()
        invariant
            world.valid(),
            i <= world.lines.len(),
            lines@ == touching(*world, faction, region, i as nat),
        decreases world.lines.len() - i,
    {
        let line = &world.lines[i];
        assert(world.has_node(world.lines@[i as int].from));
        let a = world.transport_node(line.from).region;
        let b = world.transport_node(line.to).region;
        assert(world.has_region(world.nodes@[line.from.0 as int].region));
        assert(world.has_region(world.nodes@[line.to.0 as int].region));
        let owner_a = world.region(a).owner;
        let owner_b = world.region(b).owner;
        if (a == region || b == region) && owner_a == owner_b && owner_a != faction {
            lines.push(TransportLineId(i as u32));
        }
        i += 1;
    }
    lines
}

/// The lines listed exist and touch the region, and every line that does is listed.
pub proof fn every_touching_line_is_listed(world: World, faction: FactionId, region: RegionId, n: nat, line: int)
    requires
        n <= world.lines@.len() <= u32::MAX,
        0 <= line < n,
    ensures
        touches(world, faction, region, line) <==> touching(world, faction, region, n).contains(
            TransportLineId(line as u32),
        ),
    decreases n,
{
    let before = touching(world, faction, region, (n - 1) as nat);
    let list = touching(world, faction, region, n);
    let id = TransportLineId(line as u32);
    if line < n - 1 {
        every_touching_line_is_listed(world, faction, region, (n - 1) as nat, line);
        if list != before {
            assert(list == before.push(TransportLineId((n - 1) as u32)));
            if before.contains(id) {
                let k = choose|k: int| 0 <= k < before.len() && before[k] == id;
                assert(list[k] == id);
            }
            if list.contains(id) {
                let k = choose|k: int| 0 <= k < list.len() && list[k] == id;
                assert(before[k] == id);
            }
        }
    } else {
        lemma_listed_lines_come_before(world, faction, region, (n - 1) as nat);
        if touches(world, faction, region, line) {
            assert(list[list.len() - 1] == id);
        } else if list.contains(id) {
            let k = choose|k: int| 0 <= k < list.len() && list[k] == id;
            assert(before[k].0 < n - 1);
        }
    }
}

proof fn lemma_listed_lines_come_before(world: World, faction: FactionId, region: RegionId, n: nat)
    requires
        n <= world.lines@.len() <= u32::MAX,
    ensures
        forall|k: int|
            0 <= k < touching(world, faction, region, n).len() ==> (#[trigger] touching(world, faction, region, n)[k]).0 < n,
    decreases n,
{
    if n > 0 {
        lemma_listed_lines_come_before(world, faction, region, (n - 1) as nat);
        let before = touching(world, faction, region, (n - 1) as nat);
        let list = touching(world, faction, region, n);
        assert forall|k: int| 0 <= k < list.len() implies (#[trigger] list[k]).0 < n by {
            if k < before.len() {
                assert(list[k] == before[k]);
            }
        }
    }
}

/// Why a line cannot be interdicted, if it cannot: it does not exist, is not an enemy's, or no force
/// reaches either end.
pub open spec fn interdict_obstacle(world: World, faction: FactionId, line: TransportLineId) -> Option<Seq<char>> {
    if !world.has_line(line) {
        Some(action_error_text(ActionError::InvalidLine))
    } else {
        let l = world.lines@[line.0 as int];
        let a = world.nodes@[l.from.0 as int].region;
        let b = world.nodes@[l.to.0 as int].region;
        let owner_a = world.region_at(a).owner;
        let owner_b = world.region_at(b).owner;
        if owner_a != owner_b || owner_a == faction || !at_war(world, faction, owner_a) {
            Some(action_error_text(ActionError::LineNotHostile))
        } else if !world.region_at(a).force_reach@[faction.0 as int] && !world.region_at(b).force_reach@[faction.0 as int] {
            Some(action_error_text(ActionError::NoForceInRange))
        } else {
            None
        }
    }
}

/// Why a line cannot be interdicted, if it cannot.
pub fn interdict_reason(world: &World, faction: FactionId, line: TransportLineId) -> (reason: Option<&'static str>)
    requires
        world.valid(),
        world.has_faction(faction),
    ensures
        optional_str(reason) == interdict_obstacle(*world, faction, line),
{
    if line.0 as usize >= world.lines.len() {
        return Some(action_error_ja(ActionError::InvalidLine));
    }
    let l = world.transport_line(line);
    assert(world.has_node(world.lines@[line.0 as int].from));
    let a = world.transport_node(l.from).region;
    let b = world.transport_node(l.to).region;
    assert(world.has_region(world.nodes@[l.from.0 as int].region));
    assert(world.has_region(world.nodes@[l.to.0 as int].region));
    let ra = world.region(a);
    let rb = world.region(b);
    assert(ra.valid(world.regions@.len(), world.factions@.len(), world.nodes@.len()));
    assert(rb.valid(world.regions@.len(), world.factions@.len(), world.nodes@.len()));
    if ra.owner != rb.owner || ra.owner == faction || world.relation(faction, ra.owner).stance != Stance::War {
        return Some(action_error_ja(ActionError::LineNotHostile));
    }
    if !ra.force_reach[faction.0 as usize] && !rb.force_reach[faction.0 as usize] {
        return Some(action_error_ja(ActionError::NoForceInRange));
    }
    None
}

/// The line as its row shows it: its number, its condition, and the region at its other end.
pub open spec fn line_text(world: World, region: RegionId, line: TransportLineId) -> Seq<char> {
    let l = world.lines@[line.0 as int];
    let from = world.nodes@[l.from.0 as int].region;
    let other = if from == region {
        world.nodes@[l.to.0 as int].region
    } else {
        from
    };
    "路線 #"@ + decimal(line.0 as nat) + " ("@ + product_of(l.condition, hundred()).fixed(0) + "%) - "@ + world.region_at(other).name@
}

fn line_row(world: &World, region: RegionId, line: TransportLineId) -> (text: String)
    requires
        world.valid(),
        world.has_line(line),
    ensures
        text@ == line_text(*world, region, line),
{
    let l = world.transport_line(line);
    assert(world.has_node(world.lines@[line.0 as int].from));
    let from = world.transport_node(l.from).region;
    let to = world.transport_node(l.to).region;
    assert(world.has_region(world.nodes@[l.from.0 as int].region));
    assert(world.has_region(world.nodes@[l.to.0 as int].region));
    let other = if from == region {
        to
    } else {
        from
    };
    let mut text = "路線 #".to_owned();
    text.append(decimal_text(line.0 as usize).as_str());
    text.append(" (");
    text.append(l.condition.times(Quantity { bits: 0x42c8_0000 }).fixed_text(0).as_str());
    text.append("%) - ");
    text.append(world.region(other).name.as_str());
    text
}

/// A row of the interdiction panel.
pub struct InterdictRow {
    pub line: TransportLineId,
    pub text: String,
    pub reason: String,
    pub look: ButtonLook,
}

/// The interdiction panel: a row for each of the first lines, and how many there are beyond.
pub struct InterdictPanel {
    pub rows: Vec<InterdictRow>,
    pub overflow: String,
}

/// Whether a row shows a line.
pub open spec fn shows_line(row: InterdictRow, world: World, faction: FactionId, region: RegionId, line: TransportLineId) -> bool {
    let obstacle = interdict_obstacle(world, faction, line);
    &&& row.line == line
    &&& row.text@ == line_text(world, region, line)
    &&& row.reason@ == reason_text(obstacle)
    &&& row.look == button_look(obstacle is None, false)
}

/// How the lines beyond the last row are counted.
pub open spec fn line_overflow(n: nat) -> Seq<char> {
    if n > MAX_INTERDICT_ROWS {
        "ほか "@ + decimal((n - MAX_INTERDICT_ROWS) as nat) + " 路線"@
    } else {
        Seq::empty()
    }
}

/// The interdiction panel; `None` while it is closed.
pub fn sync_interdict_panel(ui: &Ui, world: &World) -> (panel: Option<InterdictPanel>)
    requires
        world.valid(),
        ui.known_in(*world),
    ensures
        panel is Some <==> region_panels_shown(*ui),
        panel matches Some(p) ==> {
            let lines = touching(*world, ui.player->0, ui.selected_region->0, world.lines@.len());
            &&& p.rows@.len() == (if lines.len() < MAX_INTERDICT_ROWS { lines.len() as int } else { MAX_INTERDICT_ROWS as int })
            &&& (forall|i: int|
                0 <= i < p.rows@.len() ==> shows_line(
                    #[trigger] p.rows@[i],
                    *world,
                    ui.player->0,
                    ui.selected_region->0,
                    lines[i],
                ))
            &&& p.overflow@ == line_overflow(lines.len())
        },
{
    if !region_panels_showing(ui) {
        return None;
    }
    if let (Some(faction), Some(region)) = (ui.player, ui.selected_region) {
        let lines = lines_touching(world, faction, region);
        proof {
            lemma_listed_lines_come_before(*world, faction, region, world.lines@.len());
        }
        let mut rows: Vec<InterdictRow> = Vec::new();
        let mut i: usize = 0;
        while i < lines.len() && i < MAX_INTERDICT_ROWS
            invariant
                world.valid(),
                world.has_faction(faction),
                i <= lines.len(),
                i <= MAX_INTERDICT_ROWS,
                rows.len() == i,
                forall|k: int| 0 <= k < lines@.len() ==> (#[trigger] lines@[k]).0 < world.lines@.len(),
                forall|k: int| 0 <= k < i ==> shows_line(#[trigger] rows@[k], *world, faction, region, lines@[k]),
            decreases lines.len() - i,
        {
            let line = lines[i];
            let text = line_row(world, region, line);
            let (reason, look) = match interdict_reason(world, faction, line) {
                Some(reason) => (reason.to_owned(), ButtonLook::Disabled),
                None => (String::new(), ButtonLook::Enabled),
            };
            rows.push(InterdictRow { line, text, reason, look });
            i += 1;
        }
        let overflow = if lines.len() > MAX_INTERDICT_ROWS {
            let mut text = "ほか ".to_owned();
            text.append(decimal_text(lines.len() - MAX_INTERDICT_ROWS).as_str());
            text.append(" 路線");
            text
        } else {
            String::new()
        };
        Some(InterdictPanel { rows, overflow })
    } else {
        None
    }
}

/// What a click on the button of a line asks for.
pub open spec fn interdict_click(ui: Ui, world: World, line: TransportLineId) -> Option<Command> {
    match ui.player {
        Some(faction) => if interdict_obstacle(world, faction, line) is Some {
            None
        } else {
            Some(Command::Order(Action::InterdictLine { line }))
        },
        None => None,
    }
}

/// What a click on the button of a line asks for.
pub fn handle_interdict_click(ui: &Ui, world: &World, line: TransportLineId) -> (command: Option<Command>)
    requires
        world.valid(),
        ui.known_in(*world),
    ensures
        command == interdict_click(*ui, *world, line),
{
    match ui.player {
        Some(faction) => if interdict_reason(world, faction, line).is_some() {
            None
        } else {
            Some(Command::Order(Action::InterdictLine { line }))
        },
        None => None,
    }
}

/// A strike can be clicked exactly where its button is enabled, and a line exactly where its row is.
pub proof fn enabled_targets_are_those_that_act(ui: Ui, world: World, kind: StrikeKind, row: InterdictRow, line: TransportLineId)
    requires
        region_panels_shown(ui),
        shows_line(row, world, ui.player->0, ui.selected_region->0, line),
    ensures
        strike_row(ui, world, kind) matches Some((reason, look)) && (look == ButtonLook::Enabled <==> strike_click(
            ui,
            world,
            kind,
        ) is Some),
        row.look == ButtonLook::Enabled <==> interdict_click(ui, world, line) is Some,
{
}

} // verus!
