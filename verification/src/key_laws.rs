//! What each key asks for, key by key.
use crate::arithmetic::{difference_of, held_between, larger, sum_of};
use crate::client::{living_others, others_of, ClientView, Command, Key, Keys, PolicyField, Speed, Ui};
use crate::keyboard::{
    after_keys, breakable_treaty, digit_key, next_target, pending_treaty, policy_orders, proposal_from, selection_orders,
    stepped, told, unit_command, with_ui, Desk, Effect, UnitOrder,
};
use crate::map_mode::MapMode;
use crate::palette::one;
use crate::panel_laws::{lemma_no_digit, lemma_one_digit, only};
use crate::quantity::{zero, Quantity};
use crate::types::{Action, Domain, FactionId, Good, NationalFocus, Project, RegionId, Treaty, UnitId};
use crate::world::{Branch, Stance, World};
use vstd::prelude::*;

verus! {

/// Whether the keys go to the map: no text is composed, no menu is open, nor is the diplomacy panel.
pub open spec fn at_the_map(ui: Ui) -> bool {
    !ui.composing && ui.menu is None && !ui.diplomacy_open
}

/// What the keys of a frame ask for, given where they go.
proof fn lemma_at_the_map(state: ClientView, keys: Keys, issues: nat, world: World, player: FactionId)
    requires
        at_the_map(state.ui),
        state.ui.player == Some(player),
        !keys.down(Key::D),
        !keys.down(Key::P),
    ensures
        ({
            let units = if keys.down(Key::Escape) {
                Seq::empty()
            } else {
                state.units
            };
            let ui = after_keys(state, keys, issues, world).state.ui;
            after_keys(state, keys, issues, world).commands == policy_orders(
                selection_orders(units, keys, world),
                ui,
                keys,
                world,
                player,
            )
        }),
{
}

/// With no other key down, `H` asks every selected unit to hold, `J` asks for its reinforcement, `K` for its
/// disbandment, each once and in order; `U` hands over each unit that is not handed over, and takes back
/// each that is. The state stays.
pub proof fn unit_keys_order_the_selected_units(state: ClientView, keys: Keys, issues: nat, world: World)
    requires
        at_the_map(state.ui),
        state.ui.player is Some,
    ensures
        only(keys, Key::H) ==> after_keys(state, keys, issues, world) == (Effect {
            state,
            commands: Seq::new(
                state.units.len(),
                |i: int| Command::Order(Action::HoldUnit { unit: UnitId(state.units[i]) }),
            ),
        }),
        only(keys, Key::J) ==> after_keys(state, keys, issues, world) == (Effect {
            state,
            commands: Seq::new(
                state.units.len(),
                |i: int| Command::Order(Action::ReinforceUnit { unit: UnitId(state.units[i]) }),
            ),
        }),
        only(keys, Key::K) ==> after_keys(state, keys, issues, world) == (Effect {
            state,
            commands: Seq::new(
                state.units.len(),
                |i: int| Command::Order(Action::DisbandUnit { unit: UnitId(state.units[i]) }),
            ),
        }),
        only(keys, Key::U) ==> after_keys(state, keys, issues, world) == (Effect {
            state,
            commands: Seq::new(
                state.units.len(),
                |i: int|
                    if state.units[i] < world.units@.len() && world.units@[state.units[i] as int].delegated {
                        Command::Undelegate(UnitId(state.units[i]))
                    } else {
                        Command::Delegate(UnitId(state.units[i]))
                    },
            ),
        }),
{
    if only(keys, Key::H) || only(keys, Key::J) || only(keys, Key::K) || only(keys, Key::U) {
        lemma_quiet(keys);
        let order = if only(keys, Key::H) {
            assert(keys.down(Key::H) && !keys.down(Key::J) && !keys.down(Key::K) && !keys.down(Key::U));
            UnitOrder::Hold
        } else if only(keys, Key::J) {
            assert(keys.down(Key::J) && !keys.down(Key::H) && !keys.down(Key::K) && !keys.down(Key::U));
            UnitOrder::Reinforce
        } else if only(keys, Key::K) {
            assert(keys.down(Key::K) && !keys.down(Key::H) && !keys.down(Key::J) && !keys.down(Key::U));
            UnitOrder::Disband
        } else {
            assert(keys.down(Key::U) && !keys.down(Key::H) && !keys.down(Key::J) && !keys.down(Key::K));
            UnitOrder::ChangeHands
        };
        let all = Seq::new(state.units.len(), |i: int| unit_command(world, order, state.units[i]));
        assert(Seq::<Command>::empty() + all =~= all);
        assert(only(keys, Key::H) ==> all =~= Seq::new(
            state.units.len(),
            |i: int| Command::Order(Action::HoldUnit { unit: UnitId(state.units[i]) }),
        ));
        assert(only(keys, Key::J) ==> all =~= Seq::new(
            state.units.len(),
            |i: int| Command::Order(Action::ReinforceUnit { unit: UnitId(state.units[i]) }),
        ));
        assert(only(keys, Key::K) ==> all =~= Seq::new(
            state.units.len(),
            |i: int| Command::Order(Action::DisbandUnit { unit: UnitId(state.units[i]) }),
        ));
        assert(only(keys, Key::U) ==> all =~= Seq::new(
            state.units.len(),
            |i: int|
                if state.units[i] < world.units@.len() && world.units@[state.units[i] as int].delegated {
                    Command::Undelegate(UnitId(state.units[i]))
                } else {
                    Command::Delegate(UnitId(state.units[i]))
                },
        ));
    }
}

/// The keys of units leave everything else alone.
proof fn lemma_quiet(keys: Keys)
    requires
        only(keys, Key::H) || only(keys, Key::J) || only(keys, Key::K) || only(keys, Key::U),
    ensures
        !keys.down(Key::M) && !keys.down(Key::N) && !keys.down(Key::ArrowLeft) && !keys.down(Key::ArrowRight),
        !keys.down(Key::Space) && !keys.down(Key::Digit1) && !keys.down(Key::Digit2) && !keys.down(Key::Digit3),
        !keys.down(Key::Escape) && !keys.down(Key::Tab) && !keys.down(Key::D) && !keys.down(Key::P),
        !keys.down(Key::C) && !keys.down(Key::G) && !keys.down(Key::F),
        !keys.down(Key::Minus) && !keys.down(Key::Equal) && !keys.down(Key::BracketLeft) && !keys.down(Key::BracketRight),
        !keys.down(Key::Semicolon) && !keys.down(Key::Quote) && !keys.down(Key::Comma) && !keys.down(Key::Period),
        !keys.down(Key::Digit8) && !keys.down(Key::Digit9),
{
}

proof fn lemma_told(before: Seq<Command>, down: bool, order: UnitOrder, units: Seq<u32>, world: World, c: Command)
    ensures
        told(before, down, order, units, world).contains(c) <==> before.contains(c) || (down && exists|i: int|
            0 <= i < units.len() && c == unit_command(world, order, #[trigger] units[i])),
        told(before, down, order, units, world).len() == before.len() + if down {
            units.len()
        } else {
            0
        },
{
    if down {
        let all = Seq::new(units.len(), |i: int| unit_command(world, order, units[i]));
        let list = before + all;
        if before.contains(c) {
            let k = choose|k: int| 0 <= k < before.len() && before[k] == c;
            assert(list[k] == c);
        }
        if exists|i: int| 0 <= i < units.len() && c == unit_command(world, order, #[trigger] units[i]) {
            let i = choose|i: int| 0 <= i < units.len() && c == unit_command(world, order, #[trigger] units[i]);
            assert(list[before.len() + i] == c);
        }
        if list.contains(c) {
            let k = choose|k: int| 0 <= k < list.len() && list[k] == c;
            if k < before.len() {
                assert(before[k] == c);
            } else {
                assert(all[k - before.len()] == c);
                assert(units[k - before.len()] == units[k - before.len()]);
            }
        }
    }
}

proof fn lemma_pushed(before: Seq<Command>, more: Command, c: Command)
    ensures
        before.push(more).contains(c) <==> before.contains(c) || c == more,
{
    let list = before.push(more);
    if before.contains(c) {
        let k = choose|k: int| 0 <= k < before.len() && before[k] == c;
        assert(list[k] == c);
    }
    assert(list[before.len() as int] == more);
    if list.contains(c) {
        let k = choose|k: int| 0 <= k < list.len() && list[k] == c;
        if k < before.len() {
            assert(before[k] == c);
        }
    }
}

/// Whether something is asked of a unit.
pub open spec fn asks_of_a_unit(c: Command) -> bool {
    match c {
        Command::Order(Action::HoldUnit { .. }) => true,
        Command::Order(Action::ReinforceUnit { .. }) => true,
        Command::Order(Action::DisbandUnit { .. }) => true,
        Command::Delegate(_) => true,
        Command::Undelegate(_) => true,
        _ => false,
    }
}

proof fn lemma_stepped(before: Seq<Command>, down: bool, field: PolicyField, world: World, desk: Desk, increase: bool, c: Command)
    requires
        asks_of_a_unit(c),
    ensures
        stepped(before, down, field, world, desk, increase).contains(c) <==> before.contains(c),
        stepped(before, down, field, world, desk, increase).len() == before.len() + if down {
            1nat
        } else {
            0
        },
{
    if down {
        lemma_pushed(before, stepped(before, down, field, world, desk, increase).last(), c);
    }
}

proof fn lemma_policy(before: Seq<Command>, ui: Ui, keys: Keys, world: World, player: FactionId, c: Command)
    requires
        asks_of_a_unit(c),
    ensures
        policy_orders(before, ui, keys, world, player).contains(c) <==> before.contains(c),
{
    let first = if keys.down(Key::F) {
        let focus = Command::Order(Action::SetNationalFocus(world.faction_at(player).national_focus.following()));
        lemma_pushed(before, focus, c);
        before.push(focus)
    } else {
        before
    };
    let desk = Desk { player, good: ui.active_good };
    let (m, e) = (keys.down(Key::Minus) && !keys.ctrl, keys.down(Key::Equal) && !keys.ctrl);
    lemma_stepped(first, m, PolicyField::Conscription, world, desk, false, c);
    let x = stepped(first, m, PolicyField::Conscription, world, desk, false);
    lemma_stepped(x, e, PolicyField::Conscription, world, desk, true, c);
    let x = stepped(x, e, PolicyField::Conscription, world, desk, true);
    lemma_stepped(x, keys.down(Key::BracketLeft), PolicyField::Ration, world, desk, false, c);
    let x = stepped(x, keys.down(Key::BracketLeft), PolicyField::Ration, world, desk, false);
    lemma_stepped(x, keys.down(Key::BracketRight), PolicyField::Ration, world, desk, true, c);
    let x = stepped(x, keys.down(Key::BracketRight), PolicyField::Ration, world, desk, true);
    lemma_stepped(x, keys.down(Key::Semicolon), PolicyField::Industry, world, desk, false, c);
    let x = stepped(x, keys.down(Key::Semicolon), PolicyField::Industry, world, desk, false);
    lemma_stepped(x, keys.down(Key::Quote), PolicyField::Industry, world, desk, true, c);
    let x = stepped(x, keys.down(Key::Quote), PolicyField::Industry, world, desk, true);
    lemma_stepped(x, keys.down(Key::Comma), PolicyField::Logistics, world, desk, false, c);
    let x = stepped(x, keys.down(Key::Comma), PolicyField::Logistics, world, desk, false);
    lemma_stepped(x, keys.down(Key::Period), PolicyField::Logistics, world, desk, true, c);
    let x = stepped(x, keys.down(Key::Period), PolicyField::Logistics, world, desk, true);
    lemma_stepped(x, keys.down(Key::Digit8), PolicyField::Import, world, desk, false, c);
    let x = stepped(x, keys.down(Key::Digit8), PolicyField::Import, world, desk, false);
    lemma_stepped(x, keys.down(Key::Digit9), PolicyField::Import, world, desk, true, c);
}

/// Whatever else goes down with them, the keys of units ask exactly that of exactly the selected units: a
/// unit is asked to hold where `H` went down and it is selected, and nowhere else; likewise for `J`, `K` and
/// `U`. The keys that open a panel, and the escape key, which deselects, come before.
pub proof fn units_are_ordered_by_their_keys_alone(state: ClientView, keys: Keys, issues: nat, world: World, unit: u32)
    requires
        at_the_map(state.ui),
        state.ui.player is Some,
        !keys.down(Key::D),
        !keys.down(Key::P),
        !keys.down(Key::Escape),
    ensures
        ({
            let commands = after_keys(state, keys, issues, world).commands;
            let chosen = state.units.contains(unit);
            let delegated = unit < world.units@.len() && world.units@[unit as int].delegated;
            &&& (commands.contains(Command::Order(Action::HoldUnit { unit: UnitId(unit) })) <==> chosen && keys.down(Key::H))
            &&& (commands.contains(Command::Order(Action::ReinforceUnit { unit: UnitId(unit) })) <==> chosen && keys.down(
                Key::J,
            ))
            &&& (commands.contains(Command::Order(Action::DisbandUnit { unit: UnitId(unit) })) <==> chosen && keys.down(
                Key::K,
            ))
            &&& (commands.contains(Command::Delegate(UnitId(unit))) <==> chosen && keys.down(Key::U) && !delegated)
            &&& (commands.contains(Command::Undelegate(UnitId(unit))) <==> chosen && keys.down(Key::U) && delegated)
        }),
{
    let player = state.ui.player->0;
    lemma_at_the_map(state, keys, issues, world, player);
    let ui = after_keys(state, keys, issues, world).state.ui;
    let asked = seq![
        Command::Order(Action::HoldUnit { unit: UnitId(unit) }),
        Command::Order(Action::ReinforceUnit { unit: UnitId(unit) }),
        Command::Order(Action::DisbandUnit { unit: UnitId(unit) }),
        Command::Delegate(UnitId(unit)),
        Command::Undelegate(UnitId(unit)),
    ];
    lemma_asked(state.units, keys, world, ui, player, unit, asked[0]);
    lemma_asked(state.units, keys, world, ui, player, unit, asked[1]);
    lemma_asked(state.units, keys, world, ui, player, unit, asked[2]);
    lemma_asked(state.units, keys, world, ui, player, unit, asked[3]);
    lemma_asked(state.units, keys, world, ui, player, unit, asked[4]);
}

proof fn lemma_asked(units: Seq<u32>, keys: Keys, world: World, ui: Ui, player: FactionId, unit: u32, c: Command)
    requires
        asks_of_a_unit(c),
        c == Command::Order(Action::HoldUnit { unit: UnitId(unit) }) || c == Command::Order(
            Action::ReinforceUnit { unit: UnitId(unit) },
        ) || c == Command::Order(Action::DisbandUnit { unit: UnitId(unit) }) || c == Command::Delegate(UnitId(unit)) || c
            == Command::Undelegate(UnitId(unit)),
    ensures
        policy_orders(selection_orders(units, keys, world), ui, keys, world, player).contains(c) <==> units.contains(unit)
            && match c {
            Command::Order(Action::HoldUnit { .. }) => keys.down(Key::H),
            Command::Order(Action::ReinforceUnit { .. }) => keys.down(Key::J),
            Command::Order(Action::DisbandUnit { .. }) => keys.down(Key::K),
            Command::Delegate(_) => keys.down(Key::U) && !(unit < world.units@.len() && world.units@[unit as int].delegated),
            _ => keys.down(Key::U) && unit < world.units@.len() && world.units@[unit as int].delegated,
        },
{
    let none = Seq::<Command>::empty();
    lemma_told(none, keys.down(Key::H), UnitOrder::Hold, units, world, c);
    let x = told(none, keys.down(Key::H), UnitOrder::Hold, units, world);
    lemma_told(x, keys.down(Key::J), UnitOrder::Reinforce, units, world, c);
    let x = told(x, keys.down(Key::J), UnitOrder::Reinforce, units, world);
    lemma_told(x, keys.down(Key::K), UnitOrder::Disband, units, world, c);
    let x = told(x, keys.down(Key::K), UnitOrder::Disband, units, world);
    lemma_told(x, keys.down(Key::U), UnitOrder::ChangeHands, units, world, c);
    lemma_policy(selection_orders(units, keys, world), ui, keys, world, player, c);
    if units.contains(unit) {
        let i = choose|i: int| 0 <= i < units.len() && units[i] == unit;
        assert(units[i] == unit);
        assert(c == unit_command(world, UnitOrder::Hold, units[i]) || c != Command::Order(
            Action::HoldUnit { unit: UnitId(unit) },
        ));
    }
    assert forall|i: int, order: UnitOrder|
        0 <= i < units.len() && c == #[trigger] unit_command(world, order, units[i]) implies units.contains(unit) by {
        assert(units[i] == unit);
    }
}

/// What a unit is told by a key or by a button of its row names that order, and that unit.
pub proof fn orders_of_units_bear_their_names(world: World, unit: u32)
    ensures
        unit_command(world, UnitOrder::Hold, unit) == Command::Order(Action::HoldUnit { unit: UnitId(unit) }),
        unit_command(world, UnitOrder::Reinforce, unit) == Command::Order(Action::ReinforceUnit { unit: UnitId(unit) }),
        unit_command(world, UnitOrder::Disband, unit) == Command::Order(Action::DisbandUnit { unit: UnitId(unit) }),
        unit < world.units@.len() && world.units@[unit as int].delegated ==> unit_command(world, UnitOrder::ChangeHands, unit)
            == Command::Undelegate(UnitId(unit)),
        !(unit < world.units@.len() && world.units@[unit as int].delegated) ==> unit_command(
            world,
            UnitOrder::ChangeHands,
            unit,
        ) == Command::Delegate(UnitId(unit)),
{
}

/// With no other key down, each key of the policy asks for one thing: the value it is for, a step down or up
/// from where it stands for the played faction, and held within its range. (The steps are a twentieth for
/// the conscription and the ration, a tenth for the priorities and 5 for the imports.)
#[verifier::rlimit(40)]
pub proof fn policy_keys_step_their_value(state: ClientView, keys: Keys, issues: nat, world: World, player: FactionId)
    requires
        at_the_map(state.ui),
        state.ui.player == Some(player),
        !keys.ctrl,
    ensures
        only(keys, Key::Minus) ==> after_keys(state, keys, issues, world) == (Effect {
            state,
            commands: seq![Command::Order(Action::SetConscription(held_between(difference_of(world.factions@[player.0 as int].conscription, Quantity { bits: 0x3d4c_cccd }), zero(), one())))],
        }),
        only(keys, Key::Equal) ==> after_keys(state, keys, issues, world) == (Effect {
            state,
            commands: seq![Command::Order(Action::SetConscription(held_between(sum_of(world.factions@[player.0 as int].conscription, Quantity { bits: 0x3d4c_cccd }), zero(), one())))],
        }),
        only(keys, Key::BracketLeft) ==> after_keys(state, keys, issues, world) == (Effect {
            state,
            commands: seq![Command::Order(Action::SetCivilianRation(held_between(difference_of(world.factions@[player.0 as int].civilian_ration, Quantity { bits: 0x3d4c_cccd }), world.balance.civilian_ration_min, world.balance.civilian_ration_max)))],
        }),
        only(keys, Key::BracketRight) ==> after_keys(state, keys, issues, world) == (Effect {
            state,
            commands: seq![Command::Order(Action::SetCivilianRation(held_between(sum_of(world.factions@[player.0 as int].civilian_ration, Quantity { bits: 0x3d4c_cccd }), world.balance.civilian_ration_min, world.balance.civilian_ration_max)))],
        }),
        only(keys, Key::Semicolon) ==> after_keys(state, keys, issues, world) == (Effect {
            state,
            commands: seq![Command::Order(Action::SetIndustryPriority { good: state.ui.active_good, weight: held_between(difference_of(world.factions@[player.0 as int].industry_priority@[state.ui.active_good.position()], Quantity { bits: 0x3dcc_cccd }), zero(), one()) })],
        }),
        only(keys, Key::Quote) ==> after_keys(state, keys, issues, world) == (Effect {
            state,
            commands: seq![Command::Order(Action::SetIndustryPriority { good: state.ui.active_good, weight: held_between(sum_of(world.factions@[player.0 as int].industry_priority@[state.ui.active_good.position()], Quantity { bits: 0x3dcc_cccd }), zero(), one()) })],
        }),
        only(keys, Key::Comma) ==> after_keys(state, keys, issues, world) == (Effect {
            state,
            commands: seq![Command::Order(Action::SetLogisticsPriority { good: state.ui.active_good, weight: held_between(difference_of(world.factions@[player.0 as int].logistics_priority@[state.ui.active_good.position()], Quantity { bits: 0x3dcc_cccd }), zero(), one()) })],
        }),
        only(keys, Key::Period) ==> after_keys(state, keys, issues, world) == (Effect {
            state,
            commands: seq![Command::Order(Action::SetLogisticsPriority { good: state.ui.active_good, weight: held_between(sum_of(world.factions@[player.0 as int].logistics_priority@[state.ui.active_good.position()], Quantity { bits: 0x3dcc_cccd }), zero(), one()) })],
        }),
        only(keys, Key::Digit8) ==> after_keys(state, keys, issues, world) == (Effect {
            state,
            commands: seq![Command::Order(Action::SetImportPlan { good: state.ui.active_good, rate: larger(difference_of(world.factions@[player.0 as int].import_plan@[state.ui.active_good.position()], Quantity { bits: 0x40a0_0000 }), zero()) })],
        }),
        only(keys, Key::Digit9) ==> after_keys(state, keys, issues, world) == (Effect {
            state,
            commands: seq![Command::Order(Action::SetImportPlan { good: state.ui.active_good, rate: sum_of(world.factions@[player.0 as int].import_plan@[state.ui.active_good.position()], Quantity { bits: 0x40a0_0000 }) })],
        }),
{
    if only(keys, Key::Minus) {
        lemma_policy_key(keys, Key::Minus);
        lemma_one_step(state, keys, issues, world, player);
    }
    if only(keys, Key::Equal) {
        lemma_policy_key(keys, Key::Equal);
        lemma_one_step(state, keys, issues, world, player);
    }
    if only(keys, Key::BracketLeft) {
        lemma_policy_key(keys, Key::BracketLeft);
        lemma_one_step(state, keys, issues, world, player);
    }
    if only(keys, Key::BracketRight) {
        lemma_policy_key(keys, Key::BracketRight);
        lemma_one_step(state, keys, issues, world, player);
    }
    if only(keys, Key::Semicolon) {
        lemma_policy_key(keys, Key::Semicolon);
        lemma_one_step(state, keys, issues, world, player);
    }
    if only(keys, Key::Quote) {
        lemma_policy_key(keys, Key::Quote);
        lemma_one_step(state, keys, issues, world, player);
    }
    if only(keys, Key::Comma) {
        lemma_policy_key(keys, Key::Comma);
        lemma_one_step(state, keys, issues, world, player);
    }
    if only(keys, Key::Period) {
        lemma_policy_key(keys, Key::Period);
        lemma_one_step(state, keys, issues, world, player);
    }
    if only(keys, Key::Digit8) {
        lemma_policy_key(keys, Key::Digit8);
        lemma_one_step(state, keys, issues, world, player);
    }
    if only(keys, Key::Digit9) {
        lemma_policy_key(keys, Key::Digit9);
        lemma_one_step(state, keys, issues, world, player);
    }
}

/// Whether a key steps a policy value.
spec fn steps_policy(key: Key) -> bool {
    key == Key::Minus || key == Key::Equal || key == Key::BracketLeft || key == Key::BracketRight || key == Key::Semicolon || key == Key::Quote || key == Key::Comma || key == Key::Period || key == Key::Digit8 || key == Key::Digit9
}

proof fn lemma_policy_key(keys: Keys, key: Key)
    requires
        only(keys, key),
        steps_policy(key),
    ensures
        !keys.down(Key::M) && !keys.down(Key::N) && !keys.down(Key::ArrowLeft) && !keys.down(Key::ArrowRight),
        !keys.down(Key::Space) && !keys.down(Key::Digit1) && !keys.down(Key::Digit2) && !keys.down(Key::Digit3),
        !keys.down(Key::Escape) && !keys.down(Key::Tab) && !keys.down(Key::D) && !keys.down(Key::P),
        !keys.down(Key::C) && !keys.down(Key::G) && !keys.down(Key::F),
        !keys.down(Key::H) && !keys.down(Key::J) && !keys.down(Key::K) && !keys.down(Key::U),
        keys.down(Key::Minus) <==> key == Key::Minus,
        keys.down(Key::Equal) <==> key == Key::Equal,
        keys.down(Key::BracketLeft) <==> key == Key::BracketLeft,
        keys.down(Key::BracketRight) <==> key == Key::BracketRight,
        keys.down(Key::Semicolon) <==> key == Key::Semicolon,
        keys.down(Key::Quote) <==> key == Key::Quote,
        keys.down(Key::Comma) <==> key == Key::Comma,
        keys.down(Key::Period) <==> key == Key::Period,
        keys.down(Key::Digit8) <==> key == Key::Digit8,
        keys.down(Key::Digit9) <==> key == Key::Digit9,
{
}

proof fn lemma_one_step(state: ClientView, keys: Keys, issues: nat, world: World, player: FactionId)
    requires
        at_the_map(state.ui),
        state.ui.player == Some(player),
        !keys.down(Key::M) && !keys.down(Key::N) && !keys.down(Key::ArrowLeft) && !keys.down(Key::ArrowRight),
        !keys.down(Key::Space) && !keys.down(Key::Digit1) && !keys.down(Key::Digit2) && !keys.down(Key::Digit3),
        !keys.down(Key::Escape) && !keys.down(Key::Tab) && !keys.down(Key::D) && !keys.down(Key::P),
        !keys.down(Key::C) && !keys.down(Key::G),
        !keys.down(Key::H) && !keys.down(Key::J) && !keys.down(Key::K) && !keys.down(Key::U),
    ensures
        after_keys(state, keys, issues, world) == (Effect {
            state,
            commands: policy_orders(Seq::empty(), state.ui, keys, world, player),
        }),
{
}

/// With no other key down, `F` asks for the national focus that comes next.
pub proof fn the_focus_key_asks_for_the_next(state: ClientView, keys: Keys, issues: nat, world: World, player: FactionId)
    requires
        at_the_map(state.ui),
        state.ui.player == Some(player),
        only(keys, Key::F),
    ensures
        after_keys(state, keys, issues, world) == (Effect {
            state,
            commands: seq![
                Command::Order(
                    Action::SetNationalFocus(
                        match world.factions@[player.0 as int].national_focus {
                            NationalFocus::MilitaryUnification => NationalFocus::EconomicSphere,
                            NationalFocus::EconomicSphere => NationalFocus::AllianceNetwork,
                            NationalFocus::AllianceNetwork => NationalFocus::MaritimeTrade,
                            NationalFocus::MaritimeTrade => NationalFocus::Technocracy,
                            NationalFocus::Technocracy => NationalFocus::DefensivePosture,
                            NationalFocus::DefensivePosture => NationalFocus::MilitaryUnification,
                        },
                    ),
                ),
            ],
        }),
{
    assert(keys.down(Key::F));
    assert(!keys.down(Key::M) && !keys.down(Key::N) && !keys.down(Key::ArrowLeft) && !keys.down(Key::ArrowRight));
    assert(!keys.down(Key::Space) && !keys.down(Key::Digit1) && !keys.down(Key::Digit2) && !keys.down(Key::Digit3));
    assert(!keys.down(Key::Escape) && !keys.down(Key::Tab) && !keys.down(Key::D) && !keys.down(Key::P));
    assert(!keys.down(Key::C) && !keys.down(Key::G));
    assert(!keys.down(Key::H) && !keys.down(Key::J) && !keys.down(Key::K) && !keys.down(Key::U));
    assert(!keys.down(Key::Minus) && !keys.down(Key::Equal) && !keys.down(Key::BracketLeft) && !keys.down(Key::BracketRight));
    assert(!keys.down(Key::Semicolon) && !keys.down(Key::Quote) && !keys.down(Key::Comma) && !keys.down(Key::Period));
    assert(!keys.down(Key::Digit8) && !keys.down(Key::Digit9));
    lemma_one_step(state, keys, issues, world, player);
    assert(policy_orders(Seq::empty(), state.ui, keys, world, player).len() == 1);
}

/// The good, the branch and the map mode that come next, all the way round.
pub proof fn what_comes_next()
    ensures
        Good::Food.following() == Good::Energy,
        Good::Energy.following() == Good::Steel,
        Good::Steel.following() == Good::Machinery,
        Good::Machinery.following() == Good::Munitions,
        Good::Munitions.following() == Good::Arms,
        Good::Arms.following() == Good::Food,
        Branch::Infantry.following() == Branch::Armour,
        Branch::Armour.following() == Branch::Artillery,
        Branch::Artillery.following() == Branch::Infantry,
        MapMode::Political.following() == MapMode::Terrain,
        MapMode::Terrain.following() == MapMode::Population,
        MapMode::Population.following() == MapMode::Industry,
        MapMode::Industry.following() == MapMode::Unrest,
        MapMode::Unrest.following() == MapMode::Supply,
        MapMode::Supply.following() == MapMode::Political,
{
}

/// With no other key down, each key that changes what is looked at, the pace or a panel changes just that, and
/// asks for nothing.
#[verifier::rlimit(60)]
pub proof fn view_keys_change_one_thing(state: ClientView, keys: Keys, issues: nat, world: World, player: FactionId)
    requires
        at_the_map(state.ui),
        state.ui.player == Some(player),
    ensures
        only(keys, Key::M) ==> after_keys(state, keys, issues, world) == asks_nothing(with_ui(state, Ui { map_mode: state.ui.map_mode.following(), ..state.ui })),
        only(keys, Key::N) ==> after_keys(state, keys, issues, world) == asks_nothing(with_ui(state, Ui { newspaper_open: !state.ui.newspaper_open, ..state.ui })),
        only(keys, Key::Space) ==> after_keys(state, keys, issues, world) == asks_nothing(with_ui(state, Ui { paused: !state.ui.paused, ..state.ui })),
        only(keys, Key::Digit1) ==> after_keys(state, keys, issues, world) == asks_nothing(with_ui(state, Ui { last_active: Speed::X1, paused: false, ..state.ui })),
        only(keys, Key::Digit2) ==> after_keys(state, keys, issues, world) == asks_nothing(with_ui(state, Ui { last_active: Speed::X5, paused: false, ..state.ui })),
        only(keys, Key::Digit3) ==> after_keys(state, keys, issues, world) == asks_nothing(with_ui(state, Ui { last_active: Speed::X20, paused: false, ..state.ui })),
        only(keys, Key::G) ==> after_keys(state, keys, issues, world) == asks_nothing(with_ui(state, Ui { active_good: state.ui.active_good.following(), ..state.ui })),
        only(keys, Key::C) ==> after_keys(state, keys, issues, world) == asks_nothing(with_ui(state, Ui { active_branch: state.ui.active_branch.following(), ..state.ui })),
        only(keys, Key::P) ==> after_keys(state, keys, issues, world) == asks_nothing(with_ui(state, Ui { policy_open: !state.ui.policy_open, ..state.ui })),
        only(keys, Key::Escape) ==> after_keys(state, keys, issues, world) == asks_nothing(
            ClientView {
                ui: Ui { selected_region: None, selected_sea_zone: None, ..state.ui },
                units: Seq::empty(),
                draft: state.draft,
            },
        ),
        only(keys, Key::Tab) && world.factions@.len() > 0 ==> after_keys(state, keys, issues, world) == asks_nothing(
            with_ui(
                state,
                Ui {
                    selected_faction: FactionId(
                        ((state.ui.selected_faction.0 + 1) % world.factions@.len() as int) as u32,
                    ),
                    ..state.ui
                },
            ),
        ),
        only(keys, Key::D) ==> {
            let after = after_keys(state, keys, issues, world);
            &&& after.commands == Seq::<Command>::empty()
            &&& after.state.ui.diplomacy_open && !after.state.ui.policy_open
            &&& after.state.ui.diplomacy_target == (if state.ui.diplomacy_target is Some {
                state.ui.diplomacy_target
            } else if others_of(world, player).len() > 0 {
                Some(others_of(world, player)[0])
            } else {
                None
            })
        },
{
    if only(keys, Key::M) {
        lemma_view_key(keys, Key::M);
    }
    if only(keys, Key::N) {
        lemma_view_key(keys, Key::N);
    }
    if only(keys, Key::Space) {
        lemma_view_key(keys, Key::Space);
    }
    if only(keys, Key::Digit1) {
        lemma_view_key(keys, Key::Digit1);
    }
    if only(keys, Key::Digit2) {
        lemma_view_key(keys, Key::Digit2);
    }
    if only(keys, Key::Digit3) {
        lemma_view_key(keys, Key::Digit3);
    }
    if only(keys, Key::G) {
        lemma_view_key(keys, Key::G);
    }
    if only(keys, Key::C) {
        lemma_view_key(keys, Key::C);
    }
    if only(keys, Key::P) {
        lemma_view_key(keys, Key::P);
    }
    if only(keys, Key::Escape) {
        lemma_view_key(keys, Key::Escape);
    }
    if only(keys, Key::Tab) {
        lemma_view_key(keys, Key::Tab);
    }
    if only(keys, Key::D) {
        lemma_view_key(keys, Key::D);
    }
}

/// Whether everything that the map listens to is one key.
proof fn lemma_view_key(keys: Keys, key: Key)
    requires
        only(keys, key),
    ensures
        keys.down(Key::M) <==> key == Key::M,
        keys.down(Key::N) <==> key == Key::N,
        keys.down(Key::ArrowLeft) <==> key == Key::ArrowLeft,
        keys.down(Key::ArrowRight) <==> key == Key::ArrowRight,
        keys.down(Key::Space) <==> key == Key::Space,
        keys.down(Key::Digit1) <==> key == Key::Digit1,
        keys.down(Key::Digit2) <==> key == Key::Digit2,
        keys.down(Key::Digit3) <==> key == Key::Digit3,
        keys.down(Key::Digit8) <==> key == Key::Digit8,
        keys.down(Key::Digit9) <==> key == Key::Digit9,
        keys.down(Key::Escape) <==> key == Key::Escape,
        keys.down(Key::Tab) <==> key == Key::Tab,
        keys.down(Key::D) <==> key == Key::D,
        keys.down(Key::P) <==> key == Key::P,
        keys.down(Key::C) <==> key == Key::C,
        keys.down(Key::G) <==> key == Key::G,
        keys.down(Key::F) <==> key == Key::F,
        keys.down(Key::H) <==> key == Key::H,
        keys.down(Key::J) <==> key == Key::J,
        keys.down(Key::K) <==> key == Key::K,
        keys.down(Key::U) <==> key == Key::U,
        keys.down(Key::Minus) <==> key == Key::Minus,
        keys.down(Key::Equal) <==> key == Key::Equal,
        keys.down(Key::BracketLeft) <==> key == Key::BracketLeft,
        keys.down(Key::BracketRight) <==> key == Key::BracketRight,
        keys.down(Key::Semicolon) <==> key == Key::Semicolon,
        keys.down(Key::Quote) <==> key == Key::Quote,
        keys.down(Key::Comma) <==> key == Key::Comma,
        keys.down(Key::Period) <==> key == Key::Period,
{
}

/// A state without anything asked for.
pub open spec fn asks_nothing(state: ClientView) -> Effect {
    Effect { state, commands: Seq::empty() }
}

/// In the menu of a region, the digits give its eight orders, in this order, and close it; the escape key
/// closes it without an order.
pub proof fn menu_digits_give_their_orders(state: ClientView, keys: Keys, issues: nat, world: World, region: RegionId)
    requires
        !state.ui.composing,
        state.ui.menu == Some(region),
    ensures
        ({
            let after = after_keys(state, keys, issues, world);
            let closed = with_ui(state, Ui { menu: None, ..state.ui });
            &&& only(keys, Key::Digit1) ==> after == (Effect { state: closed, commands: seq![Command::Recruit { region, domain: Domain::Land, branch: state.ui.active_branch }] })
            &&& only(keys, Key::Digit2) ==> after == (Effect { state: closed, commands: seq![Command::Recruit { region, domain: Domain::Sea, branch: Branch::Infantry }] })
            &&& only(keys, Key::Digit3) ==> after == (Effect { state: closed, commands: seq![Command::Recruit { region, domain: Domain::Air, branch: Branch::Infantry }] })
            &&& only(keys, Key::Digit4) ==> after == (Effect { state: closed, commands: seq![Command::Order(Action::Build { region, project: Project::Infrastructure })] })
            &&& only(keys, Key::Digit5) ==> after == (Effect { state: closed, commands: seq![Command::Order(Action::Build { region, project: Project::Port })] })
            &&& only(keys, Key::Digit6) ==> after == (Effect { state: closed, commands: seq![Command::Order(Action::Build { region, project: Project::Capacity(state.ui.active_good) })] })
            &&& only(keys, Key::Digit7) ==> after == (Effect { state: closed, commands: seq![Command::Order(Action::Build { region, project: Project::Repair })] })
            &&& only(keys, Key::Digit8) ==> after == (Effect { state: closed, commands: seq![Command::Order(Action::CancelBuild { region })] })
            &&& only(keys, Key::Escape) ==> after == asks_nothing(closed)
        }),
{
    if only(keys, Key::Digit1) {
        assert(digit_key(0) == Key::Digit1);
        lemma_one_digit(keys, 0, 0, 8);
        lemma_view_key(keys, Key::Digit1);
    }
    if only(keys, Key::Digit2) {
        assert(digit_key(1) == Key::Digit2);
        lemma_one_digit(keys, 1, 0, 8);
        lemma_view_key(keys, Key::Digit2);
    }
    if only(keys, Key::Digit3) {
        assert(digit_key(2) == Key::Digit3);
        lemma_one_digit(keys, 2, 0, 8);
        lemma_view_key(keys, Key::Digit3);
    }
    if only(keys, Key::Digit4) {
        assert(digit_key(3) == Key::Digit4);
        lemma_one_digit(keys, 3, 0, 8);
        lemma_view_key(keys, Key::Digit4);
    }
    if only(keys, Key::Digit5) {
        assert(digit_key(4) == Key::Digit5);
        lemma_one_digit(keys, 4, 0, 8);
        lemma_view_key(keys, Key::Digit5);
    }
    if only(keys, Key::Digit6) {
        assert(digit_key(5) == Key::Digit6);
        lemma_one_digit(keys, 5, 0, 8);
        lemma_view_key(keys, Key::Digit6);
    }
    if only(keys, Key::Digit7) {
        assert(digit_key(6) == Key::Digit7);
        lemma_one_digit(keys, 6, 0, 8);
        lemma_view_key(keys, Key::Digit7);
    }
    if only(keys, Key::Digit8) {
        assert(digit_key(7) == Key::Digit8);
        lemma_one_digit(keys, 7, 0, 8);
        lemma_view_key(keys, Key::Digit8);
    }
    if only(keys, Key::Escape) {
        lemma_view_key(keys, Key::Escape);
    }
}

/// In the diplomacy panel, the digits propose the six treaties to the counterpart, in this order. `A` accepts
/// and `R` rejects what the counterpart has proposed, if anything; `W` declares war; `T` begins to write;
/// `V` turns to the next counterpart; `D` and the escape key close the panel, and `P` opens the other.
#[verifier::rlimit(60)]
pub proof fn diplomacy_keys_give_their_orders(state: ClientView, keys: Keys, issues: nat, world: World, player: FactionId, target: FactionId)
    requires
        !state.ui.composing,
        state.ui.menu is None,
        state.ui.diplomacy_open,
        state.ui.player == Some(player),
        state.ui.diplomacy_target == Some(target),
    ensures
        ({
            let after = after_keys(state, keys, issues, world);
            let pending = pending_treaty(world, target, player);
            &&& only(keys, Key::Digit1) ==> after == (Effect { state, commands: seq![Command::Order(Action::ProposeTreaty { to: target, treaty: Treaty::Ceasefire })] })
            &&& only(keys, Key::Digit2) ==> after == (Effect { state, commands: seq![Command::Order(Action::ProposeTreaty { to: target, treaty: Treaty::NonAggression })] })
            &&& only(keys, Key::Digit3) ==> after == (Effect { state, commands: seq![Command::Order(Action::ProposeTreaty { to: target, treaty: Treaty::Alliance })] })
            &&& only(keys, Key::Digit4) ==> after == (Effect { state, commands: seq![Command::Order(Action::ProposeTreaty { to: target, treaty: Treaty::MilitaryAccess })] })
            &&& only(keys, Key::Digit5) ==> after == (Effect { state, commands: seq![Command::Order(Action::ProposeTreaty { to: target, treaty: Treaty::PortAccess })] })
            &&& only(keys, Key::Digit6) ==> after == (Effect { state, commands: seq![Command::Order(Action::ProposeTreaty { to: target, treaty: Treaty::TradeAgreement })] })
            &&& only(keys, Key::A) ==> after.state == state && after.commands == (if pending is Some {
                seq![Command::Order(Action::AcceptTreaty { from: target, treaty: pending->0 })]
            } else {
                Seq::empty()
            })
            &&& only(keys, Key::R) ==> after.state == state && after.commands == (if pending is Some {
                seq![Command::Order(Action::RejectTreaty { from: target, treaty: pending->0 })]
            } else {
                Seq::empty()
            })
            &&& only(keys, Key::W) ==> after == (Effect {
                state,
                commands: seq![Command::Order(Action::DeclareWar { to: target })],
            })
            &&& only(keys, Key::B) ==> after.state == state && after.commands.len() == 1 && (after.commands[0] matches
                Command::Order(Action::BreakTreaty { with, treaty }) && with == target && (breaks_something(
                world,
                player,
                target,
            ) ==> in_force(world, player, target, treaty)))
            &&& only(keys, Key::T) ==> after == asks_nothing(
                ClientView {
                    ui: Ui { composing: true, just_activated: true, ..state.ui },
                    draft: Seq::empty(),
                    units: state.units,
                },
            )
            &&& only(keys, Key::V) ==> after == asks_nothing(
                with_ui(
                    state,
                    Ui { diplomacy_target: next_target(others_of(world, player), Some(target)), ..state.ui },
                ),
            )
            &&& (only(keys, Key::D) || only(keys, Key::Escape)) ==> after == asks_nothing(
                with_ui(state, Ui { diplomacy_open: false, ..state.ui }),
            )
            &&& only(keys, Key::P) ==> after == asks_nothing(
                with_ui(state, Ui { diplomacy_open: false, policy_open: true, ..state.ui }),
            )
        }),
{
    if only(keys, Key::Digit1) {
        assert(digit_key(0) == Key::Digit1);
        lemma_one_digit(keys, 0, 0, 6);
        lemma_view_key(keys, Key::Digit1);
        lemma_counterpart_key(keys, Key::Digit1);
    }
    if only(keys, Key::Digit2) {
        assert(digit_key(1) == Key::Digit2);
        lemma_one_digit(keys, 1, 0, 6);
        lemma_view_key(keys, Key::Digit2);
        lemma_counterpart_key(keys, Key::Digit2);
    }
    if only(keys, Key::Digit3) {
        assert(digit_key(2) == Key::Digit3);
        lemma_one_digit(keys, 2, 0, 6);
        lemma_view_key(keys, Key::Digit3);
        lemma_counterpart_key(keys, Key::Digit3);
    }
    if only(keys, Key::Digit4) {
        assert(digit_key(3) == Key::Digit4);
        lemma_one_digit(keys, 3, 0, 6);
        lemma_view_key(keys, Key::Digit4);
        lemma_counterpart_key(keys, Key::Digit4);
    }
    if only(keys, Key::Digit5) {
        assert(digit_key(4) == Key::Digit5);
        lemma_one_digit(keys, 4, 0, 6);
        lemma_view_key(keys, Key::Digit5);
        lemma_counterpart_key(keys, Key::Digit5);
    }
    if only(keys, Key::Digit6) {
        assert(digit_key(5) == Key::Digit6);
        lemma_one_digit(keys, 5, 0, 6);
        lemma_view_key(keys, Key::Digit6);
        lemma_counterpart_key(keys, Key::Digit6);
    }
    if only(keys, Key::A) {
        lemma_no_digit(keys, Key::A, 0, 6);
        lemma_view_key(keys, Key::A);
        lemma_counterpart_key(keys, Key::A);
    }
    if only(keys, Key::R) {
        lemma_no_digit(keys, Key::R, 0, 6);
        lemma_view_key(keys, Key::R);
        lemma_counterpart_key(keys, Key::R);
    }
    if only(keys, Key::W) {
        lemma_no_digit(keys, Key::W, 0, 6);
        lemma_view_key(keys, Key::W);
        lemma_counterpart_key(keys, Key::W);
    }
    if only(keys, Key::B) {
        lemma_no_digit(keys, Key::B, 0, 6);
        lemma_view_key(keys, Key::B);
        lemma_counterpart_key(keys, Key::B);
    }
    if only(keys, Key::T) {
        lemma_no_digit(keys, Key::T, 0, 6);
        lemma_view_key(keys, Key::T);
        lemma_counterpart_key(keys, Key::T);
    }
    if only(keys, Key::V) {
        lemma_no_digit(keys, Key::V, 0, 6);
        lemma_view_key(keys, Key::V);
        lemma_counterpart_key(keys, Key::V);
    }
    if only(keys, Key::D) {
        lemma_no_digit(keys, Key::D, 0, 6);
        lemma_view_key(keys, Key::D);
        lemma_counterpart_key(keys, Key::D);
    }
    if only(keys, Key::P) {
        lemma_no_digit(keys, Key::P, 0, 6);
        lemma_view_key(keys, Key::P);
        lemma_counterpart_key(keys, Key::P);
    }
    if only(keys, Key::Escape) {
        lemma_view_key(keys, Key::Escape);
    }
}

proof fn lemma_counterpart_key(keys: Keys, key: Key)
    requires
        only(keys, key),
    ensures
        keys.down(Key::A) <==> key == Key::A,
        keys.down(Key::R) <==> key == Key::R,
        keys.down(Key::W) <==> key == Key::W,
        keys.down(Key::B) <==> key == Key::B,
        keys.down(Key::T) <==> key == Key::T,
        keys.down(Key::V) <==> key == Key::V,
{
}

/// Whether a treaty is in force between two factions, as far as it can be broken.
pub open spec fn in_force(world: World, a: FactionId, b: FactionId, treaty: Treaty) -> bool {
    let relation = world.relations@[a.0 as int]@[b.0 as int];
    match treaty {
        Treaty::Alliance => relation.stance == Stance::Alliance,
        Treaty::NonAggression => relation.stance == Stance::NonAggression,
        Treaty::MilitaryAccess => relation.military_access,
        Treaty::PortAccess => relation.port_access,
        Treaty::TradeAgreement => relation.trade_agreement,
        Treaty::Ceasefire => false,
    }
}

/// Whether there is a treaty to break between two factions.
pub open spec fn breaks_something(world: World, a: FactionId, b: FactionId) -> bool {
    in_force(world, a, b, Treaty::Alliance) || in_force(world, a, b, Treaty::NonAggression) || in_force(
        world,
        a,
        b,
        Treaty::MilitaryAccess,
    ) || in_force(world, a, b, Treaty::PortAccess) || in_force(world, a, b, Treaty::TradeAgreement)
}

/// How binding a treaty is.
pub open spec fn binding(treaty: Treaty) -> nat {
    match treaty {
        Treaty::Alliance => 5,
        Treaty::NonAggression => 4,
        Treaty::MilitaryAccess => 3,
        Treaty::PortAccess => 2,
        Treaty::TradeAgreement => 1,
        Treaty::Ceasefire => 0,
    }
}

/// What would be broken between two factions is the most binding treaty in force.
pub proof fn the_most_binding_treaty_is_broken(world: World, a: FactionId, b: FactionId, other: Treaty)
    requires
        in_force(world, a, b, other),
    ensures
        in_force(world, a, b, breakable_treaty(world, a, b)),
        binding(other) <= binding(breakable_treaty(world, a, b)),
{
}

/// The treaty that waits for an answer is the first one that the one faction has proposed to the other.
pub proof fn the_first_proposal_is_answered(world: World, from: FactionId, to: FactionId, i: int)
    requires
        0 <= i < world.proposals@.len(),
        world.proposals@[i].from == from,
        world.proposals@[i].to == to,
        forall|k: int| 0 <= k < i ==> !((#[trigger] world.proposals@[k]).from == from && world.proposals@[k].to == to),
    ensures
        pending_treaty(world, from, to) == Some(world.proposals@[i].treaty),
{
    lemma_first_proposal(world, from, to, i, 0);
}

proof fn lemma_first_proposal(world: World, from: FactionId, to: FactionId, i: int, k: nat)
    requires
        0 <= k <= i < world.proposals@.len(),
        world.proposals@[i].from == from,
        world.proposals@[i].to == to,
        forall|k: int| 0 <= k < i ==> !((#[trigger] world.proposals@[k]).from == from && world.proposals@[k].to == to),
    ensures
        proposal_from(world.proposals@, from, to, k) == Some(world.proposals@[i].treaty),
    decreases i - k,
{
    if k < i {
        let p = world.proposals@[k as int];
        assert(!(p.from == from && p.to == to));
        lemma_first_proposal(world, from, to, i, k + 1);
    }
}

/// Where the one faction has proposed nothing to the other, nothing waits for an answer.
pub proof fn nothing_proposed_is_nothing_to_answer(world: World, from: FactionId, to: FactionId)
    requires
        forall|k: int|
            0 <= k < world.proposals@.len() ==> !((#[trigger] world.proposals@[k]).from == from && world.proposals@[k].to == to),
    ensures
        pending_treaty(world, from, to) is None,
{
    lemma_no_proposal(world, from, to, 0);
}

proof fn lemma_no_proposal(world: World, from: FactionId, to: FactionId, k: nat)
    requires
        k <= world.proposals@.len(),
        forall|k: int|
            0 <= k < world.proposals@.len() ==> !((#[trigger] world.proposals@[k]).from == from && world.proposals@[k].to == to),
    ensures
        proposal_from(world.proposals@, from, to, k) is None,
    decreases world.proposals@.len() - k,
{
    if k < world.proposals@.len() {
        let p = world.proposals@[k as int];
        assert(!(p.from == from && p.to == to));
        lemma_no_proposal(world, from, to, k + 1);
    }
}

/// The counterparts are exactly the living factions but for the player's own.
pub proof fn counterparts_are_the_other_living_factions(world: World, player: FactionId, other: FactionId)
    requires
        world.factions@.len() <= u32::MAX,
    ensures
        others_of(world, player).contains(other) <==> other.0 < world.factions@.len() && world.factions@[other.0 as int].alive
            && other != player,
{
    lemma_others(world, player, other, world.factions@.len());
}

proof fn lemma_others(world: World, player: FactionId, other: FactionId, n: nat)
    requires
        n <= world.factions@.len() <= u32::MAX,
    ensures
        living_others(world, player, n).contains(other) <==> other.0 < n && world.factions@[other.0 as int].alive && other
            != player,
    decreases n,
{
    if n > 0 {
        lemma_others(world, player, other, (n - 1) as nat);
        let before = living_others(world, player, (n - 1) as nat);
        let id = FactionId((n - 1) as u32);
        if id != player && world.factions@[n - 1].alive {
            let list = before.push(id);
            assert(list[before.len() as int] == id);
            if before.contains(other) {
                let k = choose|k: int| 0 <= k < before.len() && before[k] == other;
                assert(list[k] == other);
            }
            if list.contains(other) && other != id {
                let k = choose|k: int| 0 <= k < list.len() && list[k] == other;
                assert(before[k] == other);
            }
        }
    }
}

} // verus!
