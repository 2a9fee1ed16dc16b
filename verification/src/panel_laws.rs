//! Buttons and keys: a button is a second way to what its key does, and gives no order that the key
//! does not give.
use crate::arithmetic::larger;
use crate::client::{compose_begun, ClientView, Key, Keys, PolicyField, Speed, Ui};
use crate::diplomacy_panel::{action_click, after_toggle_click, click_begins_compose, treaty_click, DiplomacyAction};
use crate::keyboard::{
    after_diplomacy_keys, after_menu_keys, after_pace_keys, after_player_keys, digit_key, diplomacy_orders, first_digit,
    keyed_step, policy_orders, selection_orders, stepped, told, unit_command, Desk, UnitOrder,
};
use crate::policy_panel::{focus_click, step_click, stepped_value};
use crate::quantity::zero;
use crate::region_panel::{region_click, REGION_ACTION_COUNT, RegionActionKind};
use crate::speed_panel::after_speed_click;
use crate::types::{FactionId, RegionId, Treaty};
use crate::world::{TREATY_COUNT, World};
use vstd::prelude::*;

verus! {

/// Whether a key is the only one that went down.
pub open spec fn only(keys: Keys, key: Key) -> bool {
    forall|other: Key| #[trigger] keys.down(other) <==> other == key
}

pub(crate) proof fn lemma_one_digit(keys: Keys, place: int, i: nat, n: nat)
    requires
        only(keys, digit_key(place)),
        i <= place < n <= REGION_ACTION_COUNT,
    ensures
        first_digit(keys, i, n) == Some(place as nat),
    decreases n - i,
{
    assert(keys.down(digit_key(place)));
    if i < place {
        assert(digit_key(i as int) != digit_key(place));
        assert(!keys.down(digit_key(i as int)));
        lemma_one_digit(keys, place, i + 1, n);
    }
}

pub(crate) proof fn lemma_no_digit(keys: Keys, key: Key, i: nat, n: nat)
    requires
        only(keys, key),
        forall|k: int| digit_key(k) != key,
        i <= n,
    ensures
        first_digit(keys, i, n) is None,
    decreases n - i,
{
    if i < n {
        assert(!keys.down(digit_key(i as int)));
        lemma_no_digit(keys, key, i + 1, n);
    }
}

/// A button of the region panel gives the order that the digit at its place gives in the menu of the
/// region.
pub proof fn region_buttons_follow_the_menu(state: ClientView, keys: Keys, world: World, region: RegionId, kind: RegionActionKind)
    requires
        state.ui.selected_region == Some(region),
        region_click(state.ui, world, kind) is Some,
        only(keys, digit_key(kind.position())),
    ensures
        after_menu_keys(state, keys, region).commands == seq![region_click(state.ui, world, kind)->0],
{
    kind.position_names_one_kind();
    lemma_one_digit(keys, kind.position(), 0, REGION_ACTION_COUNT as nat);
    assert(digit_key(kind.position()) != Key::Escape);
    assert(!keys.down(Key::Escape));
}

/// A button of a treaty proposes what the digit at its place proposes.
pub proof fn treaty_buttons_follow_the_digits(ui: Ui, keys: Keys, world: World, player: FactionId, target: FactionId, treaty: Treaty)
    requires
        ui.player == Some(player),
        ui.diplomacy_target == Some(target),
        treaty_click(ui, world, treaty) is Some,
        only(keys, digit_key(treaty.position())),
    ensures
        diplomacy_orders(keys, world, player, target) == seq![treaty_click(ui, world, treaty)->0],
{
    lemma_one_digit(keys, treaty.position(), 0, TREATY_COUNT as nat);
    assert(Treaty::at(treaty.position()) == treaty);
}

/// The key of a button of the diplomacy panel.
pub open spec fn diplomacy_key(action: DiplomacyAction) -> Key {
    match action {
        DiplomacyAction::Accept => Key::A,
        DiplomacyAction::Reject => Key::R,
        DiplomacyAction::DeclareWar => Key::W,
        DiplomacyAction::Break => Key::B,
        DiplomacyAction::Compose => Key::T,
    }
}

/// The other buttons of the diplomacy panel give the orders that their keys give, and begin to compose
/// as theirs does.
pub proof fn diplomacy_buttons_follow_the_keys(state: ClientView, keys: Keys, world: World, action: DiplomacyAction)
    requires
        state.ui.player is Some,
        state.ui.diplomacy_target is Some,
        only(keys, diplomacy_key(action)),
    ensures
        action_click(state.ui, world, action) matches Some(command) ==> after_diplomacy_keys(state, keys, world).commands
            == seq![command],
        click_begins_compose(state.ui, world, action) ==> after_diplomacy_keys(state, keys, world).state == (ClientView {
            ui: compose_begun(state.ui),
            draft: Seq::empty(),
            ..state
        }),
{
    let key = diplomacy_key(action);
    lemma_no_digit(keys, key, 0, TREATY_COUNT as nat);
    assert(keys.down(key));
    assert(!keys.down(Key::Escape) && !keys.down(Key::D) && !keys.down(Key::V));
    assert(keys.down(Key::T) <==> action == DiplomacyAction::Compose);
    assert(keys.down(Key::A) <==> action == DiplomacyAction::Accept);
    assert(keys.down(Key::R) <==> action == DiplomacyAction::Reject);
    assert(keys.down(Key::W) <==> action == DiplomacyAction::DeclareWar);
    assert(keys.down(Key::B) <==> action == DiplomacyAction::Break);
}

/// The button that opens and closes the diplomacy panel does what its key does.
pub proof fn the_diplomacy_button_follows_its_key(state: ClientView, keys: Keys, world: World, player: FactionId)
    requires
        state.ui.player == Some(player),
        only(keys, Key::D),
    ensures
        state.ui.diplomacy_open ==> after_diplomacy_keys(state, keys, world).state.ui == after_toggle_click(state.ui, world),
        !state.ui.diplomacy_open ==> after_player_keys(state, keys, world, player).state.ui == after_toggle_click(
            state.ui,
            world,
        ),
{
    assert(keys.down(Key::D));
}

/// The key that tells the selected units something.
pub open spec fn unit_key(order: UnitOrder) -> Key {
    match order {
        UnitOrder::Hold => Key::H,
        UnitOrder::Reinforce => Key::J,
        UnitOrder::Disband => Key::K,
        UnitOrder::ChangeHands => Key::U,
    }
}

/// A button of a unit's row tells that unit what the key tells it when it is the only one selected.
pub proof fn unit_buttons_follow_the_keys(keys: Keys, world: World, order: UnitOrder, unit: u32)
    requires
        only(keys, unit_key(order)),
    ensures
        selection_orders(seq![unit], keys, world) == seq![unit_command(world, order, unit)],
{
    assert(keys.down(unit_key(order)));
    assert(keys.down(Key::H) <==> order == UnitOrder::Hold);
    assert(keys.down(Key::J) <==> order == UnitOrder::Reinforce);
    assert(keys.down(Key::K) <==> order == UnitOrder::Disband);
    assert(keys.down(Key::U) <==> order == UnitOrder::ChangeHands);
    assert(told(Seq::empty(), true, order, seq![unit], world) =~= seq![unit_command(world, order, unit)]);
}

/// The key that moves a policy value a step.
pub open spec fn step_key(field: PolicyField, increase: bool) -> Key {
    match (field, increase) {
        (PolicyField::Conscription, false) => Key::Minus,
        (PolicyField::Conscription, true) => Key::Equal,
        (PolicyField::Ration, false) => Key::BracketLeft,
        (PolicyField::Ration, true) => Key::BracketRight,
        (PolicyField::Industry, false) => Key::Semicolon,
        (PolicyField::Industry, true) => Key::Quote,
        (PolicyField::Logistics, false) => Key::Comma,
        (PolicyField::Logistics, true) => Key::Period,
        (PolicyField::Import, false) => Key::Digit8,
        (PolicyField::Import, true) => Key::Digit9,
    }
}

/// A step button of the policy panel gives the order that its key gives. Of a step up of the imports
/// that holds where the imports come out at least at 0: the key does not hold them there.
pub proof fn step_buttons_follow_the_keys(ui: Ui, keys: Keys, world: World, player: FactionId, field: PolicyField, increase: bool)
    requires
        ui.player == Some(player),
        step_click(ui, world, field, increase) is Some,
        only(keys, step_key(field, increase)),
        !keys.ctrl,
        field == PolicyField::Import && increase ==> zero().at_most(
            stepped_value(field, world.faction_at(player), ui.active_good, true),
        ),
    ensures
        policy_orders(Seq::empty(), ui, keys, world, player) == seq![step_click(ui, world, field, increase)->0],
{
    assert forall|f: PolicyField, up: bool| keys.down(#[trigger] step_key(f, up)) <==> f == field && up == increase by {}
    assert(keys.down(step_key(PolicyField::Conscription, false)) <==> keys.down(Key::Minus));
    assert(keys.down(step_key(PolicyField::Conscription, true)) <==> keys.down(Key::Equal));
    assert(keys.down(step_key(PolicyField::Ration, false)) <==> keys.down(Key::BracketLeft));
    assert(keys.down(step_key(PolicyField::Ration, true)) <==> keys.down(Key::BracketRight));
    assert(keys.down(step_key(PolicyField::Industry, false)) <==> keys.down(Key::Semicolon));
    assert(keys.down(step_key(PolicyField::Industry, true)) <==> keys.down(Key::Quote));
    assert(keys.down(step_key(PolicyField::Logistics, false)) <==> keys.down(Key::Comma));
    assert(keys.down(step_key(PolicyField::Logistics, true)) <==> keys.down(Key::Period));
    assert(keys.down(step_key(PolicyField::Import, false)) <==> keys.down(Key::Digit8));
    assert(keys.down(step_key(PolicyField::Import, true)) <==> keys.down(Key::Digit9));
    assert(!keys.down(Key::F));
    let desk = Desk { player, good: ui.active_good };
    assert(keyed_step(world, player, field, ui.active_good, increase) == field.order(world, player, ui.active_good, increase)) by {
        if field == PolicyField::Import && increase {
            let moved = stepped_value(field, world.faction_at(player), ui.active_good, true);
            assert(larger(moved, zero()) == moved);
        }
    }
    assert(stepped(Seq::empty(), true, field, world, desk, increase) =~= seq![step_click(ui, world, field, increase)->0]);
}

/// The button of the national focus that comes next gives the order that the key gives.
pub proof fn focus_buttons_follow_the_key(ui: Ui, keys: Keys, world: World, player: FactionId)
    requires
        ui.player == Some(player),
        focus_click(ui, world, world.faction_at(player).national_focus.following()) is Some,
        only(keys, Key::F),
    ensures
        policy_orders(Seq::empty(), ui, keys, world, player) == seq![
            focus_click(ui, world, world.faction_at(player).national_focus.following())->0,
        ],
{
    assert(keys.down(Key::F));
    assert(!keys.down(Key::Minus) && !keys.down(Key::Equal) && !keys.down(Key::BracketLeft) && !keys.down(Key::BracketRight));
    assert(!keys.down(Key::Semicolon) && !keys.down(Key::Quote) && !keys.down(Key::Comma) && !keys.down(Key::Period));
    assert(!keys.down(Key::Digit8) && !keys.down(Key::Digit9));
}

/// The button of a speed does what its digit does.
pub proof fn speed_buttons_follow_the_digits(ui: Ui, keys: Keys, speed: Speed)
    requires
        speed != Speed::Paused,
        only(
            keys,
            match speed {
                Speed::X5 => Key::Digit2,
                Speed::X20 => Key::Digit3,
                _ => Key::Digit1,
            },
        ),
    ensures
        after_pace_keys(ui, keys) == after_speed_click(ui, speed),
{
    assert(!keys.down(Key::Space));
    assert(keys.down(Key::Digit1) <==> speed == Speed::X1);
    assert(keys.down(Key::Digit2) <==> speed == Speed::X5);
    assert(keys.down(Key::Digit3) <==> speed == Speed::X20);
}

} // verus!
