//! What holds of the keyboard whatever is pressed.
use crate::client::{first_other_of, others_ascend, others_of, ClientView, Command, Key, Keys, Ui};
use crate::keyboard::{
    after_diplomacy_keys, after_keys, after_look_keys, after_menu_keys, after_pace_keys, after_player_keys, after_view_keys,
    next_target, paged_back, paged_on, with_ui, Effect,
};
use crate::types::{FactionId, RegionId};
use crate::world::World;
use vstd::prelude::*;

verus! {

/// Whether the newspaper shows an issue that exists.
pub open spec fn issue_exists(ui: Ui, issues: nat) -> bool {
    ui.newspaper_viewing matches Some(i) ==> i < issues
}

/// Turning issues stays within those that exist.
pub proof fn paging_stays_within_the_issues(viewing: Option<usize>, issues: nat)
    requires
        viewing matches Some(i) ==> i < issues,
        issues <= usize::MAX,
    ensures
        paged_back(viewing, issues) matches Some(i) ==> i < issues,
        paged_on(viewing, issues) matches Some(i) ==> i < issues,
{
}

/// Turning on from the issue before the newest arrives at the newest and follows it: an issue that
/// is published later is shown.
pub proof fn paging_onto_the_newest_follows_it(issues: nat)
    requires
        2 <= issues <= usize::MAX,
    ensures
        paged_on(Some((issues - 2) as usize), issues) is None,
        paged_back(None, issues) == Some((issues - 2) as usize),
{
}

/// Whether a state is consistent, names only what exists, and has the given player.
pub open spec fn sound(ui: Ui, issues: nat, world: World, player: Option<FactionId>) -> bool {
    &&& ui.consistent()
    &&& ui.known_in(world)
    &&& issue_exists(ui, issues)
    &&& ui.player == player
}

proof fn lemma_others_exist(world: World, player: FactionId, target: Option<FactionId>)
    requires
        world.factions@.len() <= u32::MAX,
    ensures
        first_other_of(world, player) matches Some(f) ==> world.has_faction(f),
        (target matches Some(t) ==> world.has_faction(t)) ==> (next_target(others_of(world, player), target) matches Some(f)
            ==> world.has_faction(f)),
{
    others_ascend(world, player, world.factions@.len());
    let list = others_of(world, player);
    if list.len() > 0 {
        let i = match target {
            Some(t) => if list.contains(t) {
                list.index_of(t)
            } else {
                0
            },
            None => 0,
        };
        let k = (i + 1) % (list.len() as int);
        assert(0 <= k < list.len());
        assert(list[k].0 < world.factions@.len());
        assert(list[0].0 < world.factions@.len());
    }
}

proof fn lemma_view_keys(ui: Ui, keys: Keys, issues: nat, world: World, player: Option<FactionId>)
    requires
        issues <= usize::MAX,
        sound(ui, issues, world, player),
    ensures
        sound(after_view_keys(ui, keys, issues), issues, world, player),
{
}

proof fn lemma_menu_keys(state: ClientView, keys: Keys, region: RegionId, issues: nat, world: World, player: Option<FactionId>)
    requires
        sound(state.ui, issues, world, player),
    ensures
        sound(after_menu_keys(state, keys, region).state.ui, issues, world, player),
{
}

proof fn lemma_diplomacy_keys(state: ClientView, keys: Keys, issues: nat, world: World, player: Option<FactionId>)
    requires
        world.factions@.len() <= u32::MAX,
        sound(state.ui, issues, world, player),
    ensures
        sound(after_diplomacy_keys(state, keys, world).state.ui, issues, world, player),
{
    if let Some(p) = player {
        lemma_others_exist(world, p, state.ui.diplomacy_target);
    }
}

proof fn lemma_pace_keys(ui: Ui, keys: Keys, issues: nat, world: World, player: Option<FactionId>)
    requires
        sound(ui, issues, world, player),
    ensures
        sound(after_pace_keys(ui, keys), issues, world, player),
{
}

proof fn lemma_look_keys(state: ClientView, keys: Keys, issues: nat, world: World, player: Option<FactionId>)
    requires
        sound(state.ui, issues, world, player),
    ensures
        sound(after_look_keys(state, keys, world).ui, issues, world, player),
{
}

proof fn lemma_player_keys(state: ClientView, keys: Keys, issues: nat, world: World, player: FactionId)
    requires
        world.factions@.len() <= u32::MAX,
        sound(state.ui, issues, world, Some(player)),
    ensures
        sound(after_player_keys(state, keys, world, player).state.ui, issues, world, Some(player)),
{
    lemma_others_exist(world, player, None);
}

/// Whatever keys go down, the state stays consistent: there is a speed to resume at, no region is
/// selected together with a sea zone, every faction named exists, the newspaper shows an issue that
/// exists, and the same faction is played.
pub proof fn keys_keep_the_state_sound(state: ClientView, keys: Keys, issues: nat, world: World)
    requires
        world.factions@.len() <= u32::MAX,
        issues <= usize::MAX,
        sound(state.ui, issues, world, state.ui.player),
    ensures
        sound(after_keys(state, keys, issues, world).state.ui, issues, world, state.ui.player),
{
    let player = state.ui.player;
    let viewed = with_ui(state, after_view_keys(state.ui, keys, issues));
    lemma_view_keys(state.ui, keys, issues, world, player);
    if !state.ui.composing {
        if let Some(region) = viewed.ui.menu {
            lemma_menu_keys(viewed, keys, region, issues, world, player);
        } else if viewed.ui.diplomacy_open {
            lemma_diplomacy_keys(viewed, keys, issues, world, player);
        } else {
            lemma_pace_keys(viewed.ui, keys, issues, world, player);
            let paced = with_ui(viewed, after_pace_keys(viewed.ui, keys));
            lemma_look_keys(paced, keys, issues, world, player);
            let looked = after_look_keys(paced, keys, world);
            if let Some(p) = player {
                lemma_player_keys(looked, keys, issues, world, p);
            }
        }
    }
}

/// No key opens the policy panel and the diplomacy panel at once.
#[verifier::rlimit(40)]
pub proof fn keys_open_one_panel_at_a_time(state: ClientView, keys: Keys, issues: nat, world: World)
    requires
        !(state.ui.policy_open && state.ui.diplomacy_open),
    ensures
        ({
            let ui = after_keys(state, keys, issues, world).state.ui;
            !(ui.policy_open && ui.diplomacy_open)
        }),
{
}

/// While a text is composed, no key does anything but write.
pub proof fn composing_takes_every_key(state: ClientView, keys: Keys, issues: nat, world: World)
    requires
        state.ui.composing,
    ensures
        after_keys(state, keys, issues, world) == (Effect { state, commands: Seq::empty() }),
{
}

/// Without a played faction the keys ask nothing of the simulation, unless a region menu is open.
pub proof fn an_observer_gives_no_orders(state: ClientView, keys: Keys, issues: nat, world: World)
    requires
        state.ui.player is None,
        state.ui.menu is None,
    ensures
        after_keys(state, keys, issues, world).commands == Seq::<Command>::empty(),
{
}

/// An open region menu takes the keys of the pace, the selection and the panels.
pub proof fn an_open_menu_takes_the_keys(state: ClientView, keys: Keys, issues: nat, world: World)
    requires
        state.ui.menu is Some,
    ensures
        ({
            let after = after_keys(state, keys, issues, world).state;
            &&& after.ui.paused == state.ui.paused
            &&& after.ui.last_active == state.ui.last_active
            &&& after.units == state.units
            &&& after.ui.selected_region == state.ui.selected_region
            &&& after.ui.diplomacy_open == state.ui.diplomacy_open
            &&& after.ui.policy_open == state.ui.policy_open
        }),
{
}

/// Pausing and resuming comes back to the speed there was before.
pub proof fn pausing_twice_changes_nothing(ui: Ui, keys: Keys)
    requires
        forall|key: Key| keys.down(key) <==> key == Key::Space,
    ensures
        after_pace_keys(ui, keys) == (Ui { paused: !ui.paused, ..ui }),
        after_pace_keys(after_pace_keys(ui, keys), keys) == ui,
{
    assert(keys.down(Key::Space));
    assert(!keys.down(Key::Digit1));
    assert(!keys.down(Key::Digit2));
    assert(!keys.down(Key::Digit3));
}

/// The counterpart after some steps.
pub open spec fn target_after(others: Seq<FactionId>, target: Option<FactionId>, steps: nat) -> Option<FactionId>
    decreases steps,
{
    if steps == 0 {
        target
    } else {
        next_target(others, target_after(others, target, (steps - 1) as nat))
    }
}

/// Stepping through the counterparts visits them in order, and as many steps as there are
/// counterparts come back to where they started.
pub proof fn counterparts_come_round(others: Seq<FactionId>, i: int, steps: nat)
    requires
        others.no_duplicates(),
        0 <= i < others.len(),
    ensures
        target_after(others, Some(others[i]), steps) == Some(others[(i + steps) % (others.len() as int)]),
        steps == others.len() ==> target_after(others, Some(others[i]), steps) == Some(others[i]),
    decreases steps,
{
    let n = others.len() as int;
    if steps == 0 {
        vstd::arithmetic::div_mod::lemma_small_mod(i as nat, others.len());
    } else {
        counterparts_come_round(others, i, (steps - 1) as nat);
        let k = (i + steps - 1) % n;
        assert(0 <= k < n);
        assert(others.contains(others[k]));
        assert(others.index_of(others[k]) == k);
        vstd::arithmetic::div_mod::lemma_add_mod_noop(i + steps - 1, 1, n);
        vstd::arithmetic::div_mod::lemma_add_mod_noop(k, 1, n);
        vstd::arithmetic::div_mod::lemma_small_mod(k as nat, others.len());
        assert((k + 1) % n == (i + steps) % n);
    }
    if steps == others.len() {
        vstd::arithmetic::div_mod::lemma_mod_add_multiples_vanish(i, n);
        vstd::arithmetic::div_mod::lemma_small_mod(i as nat, others.len());
    }
}

} // verus!
