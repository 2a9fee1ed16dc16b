//! What the keys do.
//!
//! Orders are queued whether or not the simulation will accept them: it is the judge, and its reason
//! for a refusal is shown.
use crate::client::{
    begin_compose, compose_begun, diplomacy_opened, open_diplomacy, others, others_ascend, others_of, policy_toggled,
    toggle_policy, Client, ClientView, Command, Key, Keys, PolicyField, Speed, Ui,
};
use crate::policy_panel::{step_value, stepped_value};
use crate::region_panel::{RegionActionKind, REGION_ACTION_COUNT};
use crate::types::{Action, FactionId, Good, RegionId, Treaty, UnitId};
use crate::world::{Proposal, Stance, World, TREATY_COUNT};
use vstd::prelude::*;

verus! {

/// The effect of the keys of a frame: the state after it, and what is asked for, in order.
pub ghost struct Effect {
    pub state: ClientView,
    pub commands: Seq<Command>,
}

/// The state with another `ui`.
pub open spec fn with_ui(state: ClientView, ui: Ui) -> ClientView {
    ClientView { ui, ..state }
}

/// The newspaper turned back one issue; there is none to turn to before the first is published.
pub open spec fn paged_back(viewing: Option<usize>, issues: nat) -> Option<usize> {
    match viewing {
        Some(i) => Some((if i > 0 { i - 1 } else { 0 }) as usize),
        None => if issues == 0 {
            None
        } else {
            Some((if issues > 1 { issues - 2 } else { 0 }) as usize)
        },
    }
}

/// The newspaper turned on one issue; whoever arrives at the newest follows it from then on.
pub open spec fn paged_on(viewing: Option<usize>, issues: nat) -> Option<usize> {
    match viewing {
        Some(i) => if i + 2 >= issues {
            None
        } else {
            Some((i + 1) as usize)
        },
        None => None,
    }
}

/// The map mode key.
pub open spec fn after_mode_key(ui: Ui, keys: Keys) -> Ui {
    if keys.down(Key::M) {
        Ui { map_mode: ui.map_mode.following(), ..ui }
    } else {
        ui
    }
}

/// The keys of the newspaper: open and close it, and turn its issues while it is open.
pub open spec fn after_newspaper_keys(ui: Ui, keys: Keys, issues: nat) -> Ui {
    let open = ui.newspaper_open != keys.down(Key::N);
    let viewing = if open && keys.down(Key::ArrowLeft) {
        paged_back(ui.newspaper_viewing, issues)
    } else {
        ui.newspaper_viewing
    };
    Ui {
        newspaper_open: open,
        newspaper_viewing: if open && keys.down(Key::ArrowRight) {
            paged_on(viewing, issues)
        } else {
            viewing
        },
        ..ui
    }
}

/// The keys that work everywhere but in a text being composed: the map mode and the newspaper.
pub open spec fn after_view_keys(ui: Ui, keys: Keys, issues: nat) -> Ui {
    after_newspaper_keys(after_mode_key(ui, keys), keys, issues)
}

fn page_back(viewing: Option<usize>, issues: usize) -> (after: Option<usize>)
    ensures
        after == paged_back(viewing, issues as nat),
{
    match viewing {
        Some(i) => Some(if i > 0 { i - 1 } else { 0 }),
        None => if issues == 0 {
            None
        } else {
            Some(if issues > 1 { issues - 2 } else { 0 })
        },
    }
}

fn page_on(viewing: Option<usize>, issues: usize) -> (after: Option<usize>)
    ensures
        after == paged_on(viewing, issues as nat),
{
    match viewing {
        Some(i) => if issues <= 2 || i >= issues - 2 {
            None
        } else {
            Some(i + 1)
        },
        None => None,
    }
}

fn view_keys(ui: Ui, keys: &Keys, issues: usize) -> (after: Ui)
    ensures
        after == after_view_keys(ui, *keys, issues as nat),
{
    let mut ui = ui;
    if keys.has(Key::M) {
        ui.map_mode = ui.map_mode.next();
    }
    let open = ui.newspaper_open != keys.has(Key::N);
    let mut viewing = ui.newspaper_viewing;
    if open && keys.has(Key::ArrowLeft) {
        viewing = page_back(viewing, issues);
    }
    if open && keys.has(Key::ArrowRight) {
        viewing = page_on(viewing, issues);
    }
    Ui { newspaper_open: open, newspaper_viewing: viewing, ..ui }
}

/// The digit keys, from 1 on.
pub open spec fn digit_key(i: int) -> Key {
    if i == 0 {
        Key::Digit1
    } else if i == 1 {
        Key::Digit2
    } else if i == 2 {
        Key::Digit3
    } else if i == 3 {
        Key::Digit4
    } else if i == 4 {
        Key::Digit5
    } else if i == 5 {
        Key::Digit6
    } else if i == 6 {
        Key::Digit7
    } else {
        Key::Digit8
    }
}

fn digit(i: usize) -> (key: Key)
    ensures
        key == digit_key(i as int),
{
    match i {
        0 => Key::Digit1,
        1 => Key::Digit2,
        2 => Key::Digit3,
        3 => Key::Digit4,
        4 => Key::Digit5,
        5 => Key::Digit6,
        6 => Key::Digit7,
        _ => Key::Digit8,
    }
}

/// The lowest of the first `n` digits, from the digit `i` on, that went down.
pub open spec fn first_digit(keys: Keys, i: nat, n: nat) -> Option<nat>
    decreases n - i,
{
    if i >= n {
        None
    } else if keys.down(digit_key(i as int)) {
        Some(i)
    } else {
        first_digit(keys, i + 1, n)
    }
}

fn pressed_digit(keys: &Keys, n: usize) -> (found: Option<usize>)
    ensures
        match found {
            Some(i) => first_digit(*keys, 0, n as nat) == Some(i as nat) && i < n,
            None => first_digit(*keys, 0, n as nat) is None,
        },
{
    let mut i: usize = 0;
    while i < n
        invariant
            i <= n,
            first_digit(*keys, 0, n as nat) == first_digit(*keys, i as nat, n as nat),
        decreases n - i,
    {
        if keys.has(digit(i)) {
            return Some(i);
        }
        i += 1;
    }
    None
}

/// The menu of a region is open: a digit gives the order at that place and closes the menu; so does
/// the escape key, without an order.
pub open spec fn after_menu_keys(state: ClientView, keys: Keys, region: RegionId) -> Effect {
    let closed = with_ui(state, Ui { menu: None, ..state.ui });
    if keys.down(Key::Escape) {
        Effect { state: closed, commands: Seq::empty() }
    } else {
        match first_digit(keys, 0, REGION_ACTION_COUNT as nat) {
            Some(i) => Effect {
                state: closed,
                commands: seq![
                    RegionActionKind::at(i as int).command(region, state.ui.active_good, state.ui.active_branch),
                ],
            },
            None => Effect { state, commands: Seq::empty() },
        }
    }
}

fn handle_menu_keys(client: &mut Client, keys: &Keys, region: RegionId) -> (commands: Vec<Command>)
    ensures
        final(client)@ == after_menu_keys(old(client)@, *keys, region).state,
        final(client).units == old(client).units,
        commands@ == after_menu_keys(old(client)@, *keys, region).commands,
{
    let mut commands: Vec<Command> = Vec::new();
    if keys.has(Key::Escape) {
        client.ui.menu = None;
        return commands;
    }
    if let Some(i) = pressed_digit(keys, REGION_ACTION_COUNT) {
        commands.push(RegionActionKind::nth(i).to_command(region, client.ui.active_good, client.ui.active_branch));
        client.ui.menu = None;
        proof {
            assert(commands@ =~= after_menu_keys(old(client)@, *keys, region).commands);
        }
    }
    commands
}

/// The counterpart after a given one, and after the last the first again. Whoever is not among them
/// counts as the first.
pub open spec fn next_target(others: Seq<FactionId>, target: Option<FactionId>) -> Option<FactionId> {
    if others.len() == 0 {
        target
    } else {
        let i = match target {
            Some(t) => if others.contains(t) {
                others.index_of(t)
            } else {
                0
            },
            None => 0,
        };
        Some(others[(i + 1) % (others.len() as int)])
    }
}

fn following_target(world: &World, player: FactionId, target: Option<FactionId>) -> (next: Option<FactionId>)
    requires
        world.valid(),
    ensures
        next == next_target(others_of(*world, player), target),
{
    let list = others(world, player);
    if list.len() == 0 {
        return target;
    }
    proof {
        others_ascend(*world, player, world.factions@.len());
    }
    let mut at: usize = 0;
    if let Some(t) = target {
        let mut i: usize = 0;
        while i < list.len()
            invariant_except_break
                at == 0,
            invariant
                i <= list.len(),
                forall|k: int| 0 <= k < i ==> list@[k] != t,
                forall|a: int, b: int| 0 <= a < b < list@.len() ==> (#[trigger] list@[a]).0 < (#[trigger] list@[b]).0,
            ensures
                at < list@.len() || list@.len() == 0,
                list@.contains(t) ==> at == list@.index_of(t),
                !list@.contains(t) ==> at == 0,
            decreases list.len() - i,
        {
            if list[i] == t {
                at = i;
                proof {
                    assert(list@.contains(t));
                    let k = list@.index_of(t);
                    assert(list@[k] == t && 0 <= k < list@.len());
                    if k != i {
                        assert(list@[k].0 == list@[i as int].0);
                    }
                }
                break;
            }
            i += 1;
        }
    }
    Some(list[(at + 1) % list.len()])
}

/// The first proposal of one faction to another, from the proposal `i` on.
pub open spec fn proposal_from(proposals: Seq<Proposal>, from: FactionId, to: FactionId, i: nat) -> Option<Treaty>
    decreases proposals.len() - i,
{
    if i >= proposals.len() {
        None
    } else if proposals[i as int].from == from && proposals[i as int].to == to {
        Some(proposals[i as int].treaty)
    } else {
        proposal_from(proposals, from, to, i + 1)
    }
}

/// The treaty that one faction has proposed to another, if any.
pub open spec fn pending_treaty(world: World, from: FactionId, to: FactionId) -> Option<Treaty> {
    proposal_from(world.proposals@, from, to, 0)
}

/// The treaty that one faction has proposed to another, if any.
pub fn incoming_treaty(world: &World, from: FactionId, to: FactionId) -> (treaty: Option<Treaty>)
    ensures
        treaty == pending_treaty(*world, from, to),
{
    let mut i: usize = 0;
    while i < world.proposals.len()
        invariant
            i <= world.proposals.len(),
            pending_treaty(*world, from, to) == proposal_from(world.proposals@, from, to, i as nat),
        decreases world.proposals.len() - i,
    {
        if world.proposals[i].from == from && world.proposals[i].to == to {
            return Some(world.proposals[i].treaty);
        }
        i += 1;
    }
    None
}

/// The most binding thing in force between two factions; an alliance if there is nothing, which the
/// simulation will then refuse to break.
pub open spec fn breakable_treaty(world: World, a: FactionId, b: FactionId) -> Treaty {
    let relation = world.relation_of(a, b);
    if relation.stance == Stance::Alliance {
        Treaty::Alliance
    } else if relation.stance == Stance::NonAggression {
        Treaty::NonAggression
    } else if relation.military_access {
        Treaty::MilitaryAccess
    } else if relation.port_access {
        Treaty::PortAccess
    } else if relation.trade_agreement {
        Treaty::TradeAgreement
    } else {
        Treaty::Alliance
    }
}

/// The most binding thing in force between two factions.
pub fn current_breakable_treaty(world: &World, a: FactionId, b: FactionId) -> (treaty: Treaty)
    requires
        world.valid(),
        world.has_faction(a),
        world.has_faction(b),
    ensures
        treaty == breakable_treaty(*world, a, b),
{
    let relation = world.relation(a, b);
    if relation.stance == Stance::Alliance {
        Treaty::Alliance
    } else if relation.stance == Stance::NonAggression {
        Treaty::NonAggression
    } else if relation.military_access {
        Treaty::MilitaryAccess
    } else if relation.port_access {
        Treaty::PortAccess
    } else if relation.trade_agreement {
        Treaty::TradeAgreement
    } else {
        Treaty::Alliance
    }
}

/// The orders that the keys of the open diplomacy panel give towards the counterpart: the first of
/// these keys that went down counts.
pub open spec fn diplomacy_orders(keys: Keys, world: World, player: FactionId, target: FactionId) -> Seq<Command> {
    match first_digit(keys, 0, TREATY_COUNT as nat) {
        Some(i) => seq![Command::Order(Action::ProposeTreaty { to: target, treaty: Treaty::at(i as int) })],
        None => if keys.down(Key::A) {
            match pending_treaty(world, target, player) {
                Some(treaty) => seq![Command::Order(Action::AcceptTreaty { from: target, treaty })],
                None => Seq::empty(),
            }
        } else if keys.down(Key::R) {
            match pending_treaty(world, target, player) {
                Some(treaty) => seq![Command::Order(Action::RejectTreaty { from: target, treaty })],
                None => Seq::empty(),
            }
        } else if keys.down(Key::W) {
            seq![Command::Order(Action::DeclareWar { to: target })]
        } else if keys.down(Key::B) {
            seq![
                Command::Order(
                    Action::BreakTreaty { with: target, treaty: breakable_treaty(world, player, target) },
                ),
            ]
        } else {
            Seq::empty()
        },
    }
}

/// The diplomacy panel is open and takes the keys.
pub open spec fn after_diplomacy_keys(state: ClientView, keys: Keys, world: World) -> Effect {
    let nothing = Seq::<Command>::empty();
    match state.ui.player {
        None => Effect { state: with_ui(state, Ui { diplomacy_open: false, ..state.ui }), commands: nothing },
        Some(player) => if keys.down(Key::Escape) || keys.down(Key::D) {
            Effect { state: with_ui(state, Ui { diplomacy_open: false, ..state.ui }), commands: nothing }
        } else if keys.down(Key::V) {
            Effect {
                state: with_ui(
                    state,
                    Ui {
                        diplomacy_target: next_target(others_of(world, player), state.ui.diplomacy_target),
                        ..state.ui
                    },
                ),
                commands: nothing,
            }
        } else {
            match state.ui.diplomacy_target {
                None => Effect { state, commands: nothing },
                Some(target) => if keys.down(Key::T) {
                    Effect {
                        state: ClientView { ui: compose_begun(state.ui), draft: Seq::empty(), ..state },
                        commands: nothing,
                    }
                } else {
                    Effect { state, commands: diplomacy_orders(keys, world, player, target) }
                },
            }
        },
    }
}

fn target_orders(keys: &Keys, world: &World, player: FactionId, target: FactionId) -> (commands: Vec<Command>)
    requires
        world.valid(),
        world.has_faction(player),
        world.has_faction(target),
    ensures
        commands@ == diplomacy_orders(*keys, *world, player, target),
{
    let mut commands: Vec<Command> = Vec::new();
    if let Some(i) = pressed_digit(keys, TREATY_COUNT) {
        commands.push(Command::Order(Action::ProposeTreaty { to: target, treaty: Treaty::nth(i) }));
    } else if keys.has(Key::A) {
        if let Some(treaty) = incoming_treaty(world, target, player) {
            commands.push(Command::Order(Action::AcceptTreaty { from: target, treaty }));
        }
    } else if keys.has(Key::R) {
        if let Some(treaty) = incoming_treaty(world, target, player) {
            commands.push(Command::Order(Action::RejectTreaty { from: target, treaty }));
        }
    } else if keys.has(Key::W) {
        commands.push(Command::Order(Action::DeclareWar { to: target }));
    } else if keys.has(Key::B) {
        let treaty = current_breakable_treaty(world, player, target);
        commands.push(Command::Order(Action::BreakTreaty { with: target, treaty }));
    }
    assert(commands@ =~= diplomacy_orders(*keys, *world, player, target));
    commands
}

fn handle_diplomacy_keys(client: &mut Client, keys: &Keys, world: &World) -> (commands: Vec<Command>)
    requires
        world.valid(),
        old(client).ui.known_in(*world),
    ensures
        final(client)@ == after_diplomacy_keys(old(client)@, *keys, *world).state,
        final(client).units == old(client).units,
        commands@ == after_diplomacy_keys(old(client)@, *keys, *world).commands,
{
    let player = match client.ui.player {
        Some(player) => player,
        None => {
            client.ui.diplomacy_open = false;
            return Vec::new();
        },
    };
    if keys.has(Key::Escape) || keys.has(Key::D) {
        client.ui.diplomacy_open = false;
        return Vec::new();
    }
    if keys.has(Key::V) {
        client.ui.diplomacy_target = following_target(world, player, client.ui.diplomacy_target);
        return Vec::new();
    }
    let target = match client.ui.diplomacy_target {
        Some(target) => target,
        None => return Vec::new(),
    };
    if keys.has(Key::T) {
        begin_compose(client);
        return Vec::new();
    }
    target_orders(keys, world, player, target)
}

/// The keys that set the pace: the space key pauses and resumes, a digit picks a speed and resumes.
pub open spec fn after_pace_keys(ui: Ui, keys: Keys) -> Ui {
    let ui = if keys.down(Key::Space) {
        Ui { paused: !ui.paused, ..ui }
    } else {
        ui
    };
    let ui = if keys.down(Key::Digit1) {
        Ui { last_active: Speed::X1, paused: false, ..ui }
    } else {
        ui
    };
    let ui = if keys.down(Key::Digit2) {
        Ui { last_active: Speed::X5, paused: false, ..ui }
    } else {
        ui
    };
    if keys.down(Key::Digit3) {
        Ui { last_active: Speed::X20, paused: false, ..ui }
    } else {
        ui
    }
}

fn pace_keys(ui: Ui, keys: &Keys) -> (after: Ui)
    ensures
        after == after_pace_keys(ui, *keys),
{
    let mut ui = ui;
    if keys.has(Key::Space) {
        ui.paused = !ui.paused;
    }
    if keys.has(Key::Digit1) {
        ui.last_active = Speed::X1;
        ui.paused = false;
    }
    if keys.has(Key::Digit2) {
        ui.last_active = Speed::X5;
        ui.paused = false;
    }
    if keys.has(Key::Digit3) {
        ui.last_active = Speed::X20;
        ui.paused = false;
    }
    ui
}

/// The faction after a given one; after the last the first again.
pub open spec fn next_faction(selected: FactionId, factions: nat) -> FactionId {
    if factions == 0 {
        selected
    } else {
        FactionId(((selected.0 + 1) % factions as int) as u32)
    }
}

/// The good that is looked at after the key `G`, which turns to the next one.
pub open spec fn after_good_key(ui: Ui, keys: Keys) -> Ui {
    if keys.down(Key::G) {
        Ui { active_good: ui.active_good.following(), ..ui }
    } else {
        ui
    }
}

fn good_key(ui: Ui, keys: &Keys) -> (after: Ui)
    ensures
        after == after_good_key(ui, *keys),
{
    if keys.has(Key::G) {
        Ui { active_good: ui.active_good.next(), ..ui }
    } else {
        ui
    }
}

/// The keys that change what is looked at: the escape key deselects, the tab key turns to the next
/// faction.
pub open spec fn after_look_keys(state: ClientView, keys: Keys, world: World) -> ClientView {
    let state = if keys.down(Key::Escape) {
        ClientView {
            ui: Ui { selected_region: None, selected_sea_zone: None, ..state.ui },
            units: Seq::empty(),
            ..state
        }
    } else {
        state
    };
    if keys.down(Key::Tab) {
        with_ui(
            state,
            Ui { selected_faction: next_faction(state.ui.selected_faction, world.factions@.len()), ..state.ui },
        )
    } else {
        state
    }
}

fn look_keys(client: &mut Client, keys: &Keys, world: &World)
    requires
        world.valid(),
        old(client).units.valid(),
    ensures
        final(client)@ == after_look_keys(old(client)@, *keys, *world),
        final(client).units.valid(),
{
    if keys.has(Key::Escape) {
        client.ui.selected_region = None;
        client.ui.selected_sea_zone = None;
        client.units.clear();
    }
    if keys.has(Key::Tab) {
        let n: u64 = world.factions.len() as u64;
        if n > 0 {
            client.ui.selected_faction = FactionId(((client.ui.selected_faction.0 as u64 + 1) % n) as u32);
        }
    }
}

/// Whether a unit is handed over to an agent.
pub open spec fn is_delegated(world: World, unit: u32) -> bool {
    unit < world.units@.len() && world.units@[unit as int].delegated
}

/// Handing over or taking back a unit, whichever it is not.
pub open spec fn delegation(world: World, unit: u32) -> Command {
    if is_delegated(world, unit) {
        Command::Undelegate(UnitId(unit))
    } else {
        Command::Delegate(UnitId(unit))
    }
}

/// Hands over or takes back a unit, whichever it is not.
pub fn toggle_delegation(world: &World, unit: u32) -> (command: Command)
    ensures
        command == delegation(*world, unit),
{
    if (unit as usize) < world.units.len() && world.units[unit as usize].delegated {
        Command::Undelegate(UnitId(unit))
    } else {
        Command::Delegate(UnitId(unit))
    }
}

/// What a unit can be told, besides where to go.
#[derive(Clone, Copy, Debug, PartialEq, Eq, Structural)]
pub enum UnitOrder {
    Hold,
    Reinforce,
    Disband,
    ChangeHands,
}

/// What is asked for when a unit is told something.
pub open spec fn unit_command(world: World, order: UnitOrder, unit: u32) -> Command {
    match order {
        UnitOrder::Hold => Command::Order(Action::HoldUnit { unit: UnitId(unit) }),
        UnitOrder::Reinforce => Command::Order(Action::ReinforceUnit { unit: UnitId(unit) }),
        UnitOrder::Disband => Command::Order(Action::DisbandUnit { unit: UnitId(unit) }),
        UnitOrder::ChangeHands => delegation(world, unit),
    }
}

/// What is asked for when a unit is told something.
pub fn tell_unit(world: &World, order: UnitOrder, unit: u32) -> (command: Command)
    ensures
        command == unit_command(*world, order, unit),
{
    match order {
        UnitOrder::Hold => Command::Order(Action::HoldUnit { unit: UnitId(unit) }),
        UnitOrder::Reinforce => Command::Order(Action::ReinforceUnit { unit: UnitId(unit) }),
        UnitOrder::Disband => Command::Order(Action::DisbandUnit { unit: UnitId(unit) }),
        UnitOrder::ChangeHands => toggle_delegation(world, unit),
    }
}

/// Every selected unit is told the same, in order, after the commands that came before.
pub open spec fn told(before: Seq<Command>, down: bool, order: UnitOrder, units: Seq<u32>, world: World) -> Seq<Command> {
    if down {
        before + Seq::new(units.len(), |i: int| unit_command(world, order, units[i]))
    } else {
        before
    }
}

fn tell_selection(commands: &mut Vec<Command>, down: bool, order: UnitOrder, client: &Client, world: &World)
    ensures
        final(commands)@ == told(old(commands)@, down, order, client.units@, *world),
{
    if !down {
        return;
    }
    let n: usize = client.units.len();
    let ghost start = commands@;
    let ghost all = Seq::new(client.units@.len(), |i: int| unit_command(*world, order, client.units@[i]));
    let mut i: usize = 0;
    assert(commands@ =~= start + all.take(0));
    while i < n
        invariant
            i <= n,
            n == client.units@.len(),
            all == Seq::new(client.units@.len(), |k: int| unit_command(*world, order, client.units@[k])),
            commands@ == start + all.take(i as int),
        decreases n - i,
    {
        commands.push(tell_unit(world, order, client.units.get(i)));
        assert(all.take(i + 1) =~= all.take(i as int).push(all[i as int]));
        assert(commands@ =~= start + all.take(i + 1));
        i += 1;
    }
    assert(all.take(n as int) =~= all);
}

/// What the keys ask of the selected units: to hold, to be reinforced, to be disbanded, to change
/// hands.
pub open spec fn selection_orders(units: Seq<u32>, keys: Keys, world: World) -> Seq<Command> {
    let c = told(Seq::empty(), keys.down(Key::H), UnitOrder::Hold, units, world);
    let c = told(c, keys.down(Key::J), UnitOrder::Reinforce, units, world);
    let c = told(c, keys.down(Key::K), UnitOrder::Disband, units, world);
    told(c, keys.down(Key::U), UnitOrder::ChangeHands, units, world)
}

fn order_selection(client: &Client, keys: &Keys, world: &World) -> (commands: Vec<Command>)
    ensures
        commands@ == selection_orders(client.units@, *keys, *world),
{
    let mut commands: Vec<Command> = Vec::new();
    tell_selection(&mut commands, keys.has(Key::H), UnitOrder::Hold, client, world);
    tell_selection(&mut commands, keys.has(Key::J), UnitOrder::Reinforce, client, world);
    tell_selection(&mut commands, keys.has(Key::K), UnitOrder::Disband, client, world);
    tell_selection(&mut commands, keys.has(Key::U), UnitOrder::ChangeHands, client, world);
    commands
}

/// The order that the keys of a policy value give. A larger import is asked for as it is.
pub open spec fn keyed_step(world: World, player: FactionId, field: PolicyField, good: Good, increase: bool) -> Action {
    if field == PolicyField::Import && increase {
        Action::SetImportPlan { good, rate: stepped_value(field, world.faction_at(player), good, true) }
    } else {
        field.order(world, player, good, increase)
    }
}

/// Whose policy the keys change, and for which good.
pub struct Desk {
    pub player: FactionId,
    pub good: Good,
}

/// A step of a policy value, asked for after the commands that came before.
pub open spec fn stepped(before: Seq<Command>, down: bool, field: PolicyField, world: World, desk: Desk, increase: bool) -> Seq<Command> {
    if down {
        before.push(Command::Order(keyed_step(world, desk.player, field, desk.good, increase)))
    } else {
        before
    }
}

/// What the keys ask of the played faction's policy, after the commands that came before: the next
/// national focus, and steps up or down. With a control key held, the keys of the conscription zoom
/// the map instead.
pub open spec fn policy_orders(before: Seq<Command>, ui: Ui, keys: Keys, world: World, player: FactionId) -> Seq<Command> {
    let c = if keys.down(Key::F) {
        before.push(Command::Order(Action::SetNationalFocus(world.faction_at(player).national_focus.following())))
    } else {
        before
    };
    let desk = Desk { player, good: ui.active_good };
    let c = stepped(c, keys.down(Key::Minus) && !keys.ctrl, PolicyField::Conscription, world, desk, false);
    let c = stepped(c, keys.down(Key::Equal) && !keys.ctrl, PolicyField::Conscription, world, desk, true);
    let c = stepped(c, keys.down(Key::BracketLeft), PolicyField::Ration, world, desk, false);
    let c = stepped(c, keys.down(Key::BracketRight), PolicyField::Ration, world, desk, true);
    let c = stepped(c, keys.down(Key::Semicolon), PolicyField::Industry, world, desk, false);
    let c = stepped(c, keys.down(Key::Quote), PolicyField::Industry, world, desk, true);
    let c = stepped(c, keys.down(Key::Comma), PolicyField::Logistics, world, desk, false);
    let c = stepped(c, keys.down(Key::Period), PolicyField::Logistics, world, desk, true);
    let c = stepped(c, keys.down(Key::Digit8), PolicyField::Import, world, desk, false);
    stepped(c, keys.down(Key::Digit9), PolicyField::Import, world, desk, true)
}

fn step_policy(commands: &mut Vec<Command>, down: bool, field: PolicyField, world: &World, desk: &Desk, increase: bool)
    requires
        world.valid(),
        world.has_faction(desk.player),
    ensures
        final(commands)@ == stepped(old(commands)@, down, field, *world, *desk, increase),
{
    if !down {
        return;
    }
    let action = if field == PolicyField::Import && increase {
        let faction = world.faction(desk.player);
        assert(faction.valid(world.regions@.len()));
        Action::SetImportPlan { good: desk.good, rate: step_value(field, faction, desk.good, true) }
    } else {
        field.action(world, desk.player, desk.good, increase)
    };
    commands.push(Command::Order(action));
}

fn order_policy(ui: &Ui, keys: &Keys, world: &World, player: FactionId, commands: &mut Vec<Command>)
    requires
        world.valid(),
        world.has_faction(player),
    ensures
        final(commands)@ == policy_orders(old(commands)@, *ui, *keys, *world, player),
{
    if keys.has(Key::F) {
        commands.push(Command::Order(Action::SetNationalFocus(world.faction(player).national_focus.next())));
    }
    let desk = Desk { player, good: ui.active_good };
    step_policy(commands, keys.has(Key::Minus) && !keys.ctrl, PolicyField::Conscription, world, &desk, false);
    step_policy(commands, keys.has(Key::Equal) && !keys.ctrl, PolicyField::Conscription, world, &desk, true);
    step_policy(commands, keys.has(Key::BracketLeft), PolicyField::Ration, world, &desk, false);
    step_policy(commands, keys.has(Key::BracketRight), PolicyField::Ration, world, &desk, true);
    step_policy(commands, keys.has(Key::Semicolon), PolicyField::Industry, world, &desk, false);
    step_policy(commands, keys.has(Key::Quote), PolicyField::Industry, world, &desk, true);
    step_policy(commands, keys.has(Key::Comma), PolicyField::Logistics, world, &desk, false);
    step_policy(commands, keys.has(Key::Period), PolicyField::Logistics, world, &desk, true);
    step_policy(commands, keys.has(Key::Digit8), PolicyField::Import, world, &desk, false);
    step_policy(commands, keys.has(Key::Digit9), PolicyField::Import, world, &desk, true);
}

/// The keys of the played faction: the two panels first; then the branch to raise, the good to look
/// at, the selected units and the policy.
pub open spec fn after_player_keys(state: ClientView, keys: Keys, world: World, player: FactionId) -> Effect {
    let nothing = Seq::<Command>::empty();
    if keys.down(Key::D) {
        Effect { state: with_ui(state, diplomacy_opened(state.ui, player, world)), commands: nothing }
    } else if keys.down(Key::P) {
        Effect { state: with_ui(state, policy_toggled(state.ui)), commands: nothing }
    } else {
        let ui = if keys.down(Key::C) {
            Ui { active_branch: state.ui.active_branch.following(), ..state.ui }
        } else {
            state.ui
        };
        let ui = after_good_key(ui, keys);
        Effect {
            state: with_ui(state, ui),
            commands: policy_orders(selection_orders(state.units, keys, world), ui, keys, world, player),
        }
    }
}

fn player_keys(client: &mut Client, keys: &Keys, world: &World, player: FactionId) -> (commands: Vec<Command>)
    requires
        world.valid(),
        world.has_faction(player),
    ensures
        final(client)@ == after_player_keys(old(client)@, *keys, *world, player).state,
        final(client).units == old(client).units,
        commands@ == after_player_keys(old(client)@, *keys, *world, player).commands,
{
    if keys.has(Key::D) {
        client.ui = open_diplomacy(client.ui, player, world);
        return Vec::new();
    }
    if keys.has(Key::P) {
        client.ui = toggle_policy(client.ui);
        return Vec::new();
    }
    if keys.has(Key::C) {
        client.ui.active_branch = client.ui.active_branch.next();
    }
    client.ui = good_key(client.ui, keys);
    let mut commands = order_selection(client, keys, world);
    order_policy(&client.ui, keys, world, player, &mut commands);
    commands
}

/// The effect of the keys of a frame.
///
/// While a text is composed no key does anything here. An open menu, else an open diplomacy panel,
/// takes the keys but for those that work everywhere.
pub open spec fn after_keys(state: ClientView, keys: Keys, issues: nat, world: World) -> Effect {
    let nothing = Seq::<Command>::empty();
    if state.ui.composing {
        Effect { state, commands: nothing }
    } else {
        let state = with_ui(state, after_view_keys(state.ui, keys, issues));
        match state.ui.menu {
            Some(region) => after_menu_keys(state, keys, region),
            None => if state.ui.diplomacy_open {
                if keys.down(Key::P) {
                    Effect {
                        state: with_ui(state, Ui { diplomacy_open: false, policy_open: true, ..state.ui }),
                        commands: nothing,
                    }
                } else {
                    after_diplomacy_keys(state, keys, world)
                }
            } else {
                let state = with_ui(state, after_pace_keys(state.ui, keys));
                let state = after_look_keys(state, keys, world);
                match state.ui.player {
                    None => Effect { state: with_ui(state, after_good_key(state.ui, keys)), commands: nothing },
                    Some(player) => after_player_keys(state, keys, world, player),
                }
            },
        }
    }
}

/// Does what the keys of a frame ask for; `issues` is how many newspaper issues there are.
pub fn keyboard_input(client: &mut Client, keys: &Keys, issues: usize, world: &World) -> (commands: Vec<Command>)
    requires
        world.valid(),
        old(client).ui.known_in(*world),
        old(client).units.valid(),
    ensures
        final(client)@ == after_keys(old(client)@, *keys, issues as nat, *world).state,
        commands@ == after_keys(old(client)@, *keys, issues as nat, *world).commands,
        final(client).units.valid(),
{
    if client.ui.composing {
        return Vec::new();
    }
    client.ui = view_keys(client.ui, keys, issues);
    if let Some(region) = client.ui.menu {
        return handle_menu_keys(client, keys, region);
    }
    if client.ui.diplomacy_open {
        if keys.has(Key::P) {
            client.ui.diplomacy_open = false;
            client.ui.policy_open = true;
            return Vec::new();
        }
        return handle_diplomacy_keys(client, keys, world);
    }
    client.ui = pace_keys(client.ui, keys);
    look_keys(client, keys, world);
    match client.ui.player {
        None => {
            client.ui = good_key(client.ui, keys);
            Vec::new()
        },
        Some(player) => player_keys(client, keys, world, player),
    }
}

} // verus!
