//! What a session begins with, what is written and clicked in it, and when its picture is taken.
use crate::arithmetic::{difference_of, product_of, products_commute, units, whole};
use crate::arithmetic_laws::{lemma_units_ascend, products_ascend, times_one_changes_nothing};
use crate::client::{first_other_of, ClientView, Key, Keys, Speed, Ui};
use crate::compose::{after_compose, sent, typed_text};
use crate::geometry::{distance_of, length_of, subtracted};
use crate::label_laws::lemma_length_is_near;
use crate::layout::hair;
use crate::map_mode::MapMode;
use crate::map_setup::zone_radius;
use crate::mouse::{
    a_click_hits_one_thing, after_ground_click, any, hit_of, is_nearest, menu_opens, misses, own_units, reached, unit_hit,
    unit_reach, units_from, was_click, Candidate, MapClick, MapLayout,
};
use crate::palette::one;
use crate::pull_laws::lemma_kept_sign;
use crate::quantity::{exponent, significand, zero, Quantity};
use crate::screenshot::{
    blank_failure, blank_limit, camera_asked_for, capture_due, fate_of, forced_pictures_are_blank, format_or_failure, living_of,
    save_failure, selection_after, uniform, Fate, ScreenshotAttempts, ScreenshotConfig, ScreenshotTrigger, Verdict,
};
use crate::sim_control::{is_missed, target_day, unreachable_day, Frame};
use crate::speed_panel::{after_speed_click, is_current, speed_text};
use crate::startup::{greeting, start_ui, title_of, PlayConfig};
use crate::text::decimal;
use crate::types::{ActionView, FactionId, Good, RegionId, SeaZoneId};
use crate::world::{Branch, Point, World};
use vstd::arithmetic::power2::{lemma2_to64, lemma_pow2_adds, lemma_pow2_pos, pow2};
use vstd::prelude::*;

verus! {

/// A player starts as the faction asked for, looks at it first, and has time to look around unless there are orders
/// to play back; an observer looks at the first faction and starts running. Nothing is open or selected.
pub proof fn plain_starts(world: World, play: PlayConfig)
    ensures
        ({
            let played = start_ui(world, None, Some(play));
            let watched = start_ui(world, None, None);
            &&& played.player == Some(play.player) && watched.player is None
            &&& played.selected_faction == play.player && watched.selected_faction == FactionId(0)
            &&& (played.paused <==> play.replay is None) && !watched.paused
            &&& played == (Ui {
                player: Some(play.player),
                selected_faction: play.player,
                paused: play.replay is None,
                ..watched
            })
            &&& watched.last_active == Speed::X1
            &&& watched.selected_region is None && watched.selected_sea_zone is None && watched.menu is None
            &&& !watched.diplomacy_open && !watched.policy_open && !watched.newspaper_open && !watched.composing
            &&& watched.diplomacy_target is None && watched.newspaper_viewing is None
            &&& watched.active_good == Good::Steel && watched.active_branch == Branch::Infantry
            &&& watched.map_mode == MapMode::Political
        }),
{
}

/// What is asked of a picture is open, picked and selected from the start, and nothing else changes but the pace where
/// it waits for a day.
pub proof fn pictures_show_what_is_asked_for(world: World, config: ScreenshotConfig, play: Option<PlayConfig>)
    ensures
        ({
            let plain = start_ui(world, None, play);
            let ui = start_ui(world, Some(config), play);
            &&& ui.selected_region == config.select_region
            &&& ui.diplomacy_open == config.open_diplomacy
            &&& ui.policy_open == config.open_policy
            &&& ui.newspaper_open == config.open_newspaper
            &&& (config.industry_good matches Some(good) ==> ui.active_good == good)
            &&& (config.industry_good is None ==> ui.active_good == plain.active_good)
            &&& (config.map_mode matches Some(mode) ==> ui.map_mode == mode)
            &&& (config.map_mode is None ==> ui.map_mode == plain.map_mode)
            &&& (config.open_diplomacy && play is Some ==> ui.diplomacy_target == first_other_of(world, play->0.player))
            &&& (!config.open_diplomacy || play is None ==> ui.diplomacy_target is None)
            &&& ui.player == plain.player && ui.selected_faction == plain.selected_faction
            &&& ui.selected_sea_zone is None && ui.menu is None && !ui.composing && !ui.just_activated
            &&& ui.newspaper_viewing is None && ui.active_branch == plain.active_branch
            &&& (config.trigger matches ScreenshotTrigger::AfterFrames(n) ==> ui.paused == plain.paused && ui.last_active
                == Speed::X1)
            &&& (config.trigger matches ScreenshotTrigger::AtDay(d) ==> !ui.paused && ui.last_active == Speed::X20)
        }),
{
}

/// The greeting counts the regions, sea zones, factions and units, in that order.
pub proof fn the_greeting_counts_what_there_is(world: World)
    ensures
        greeting(world) == "archipelago-game: starting with "@ + decimal(world.regions@.len()) + " regions, "@ + decimal(
            world.sea_zones@.len(),
        ) + " sea zones, "@ + decimal(world.factions@.len()) + " factions, "@ + decimal(world.units@.len())
            + " initial units"@,
{
}

/// What is typed is appended in the order in which it is typed, as long as there is room.
pub proof fn what_is_typed_is_appended(state: ClientView, keys: Keys, first: Seq<char>, second: Seq<char>, max: nat)
    requires
        state.ui.composing,
        !state.ui.just_activated,
        !keys.down(Key::Escape),
        !keys.down(Key::Enter),
        !keys.down(Key::NumpadEnter),
        !keys.down(Key::Backspace),
        state.draft.len() + first.len() + second.len() <= max,
    ensures
        after_compose(state, keys, Seq::empty(), max) == state,
        after_compose(state, keys, seq![first], max).draft == state.draft + first,
        after_compose(state, keys, seq![first, second], max).draft == state.draft + first + second,
        after_compose(state, keys, seq![first, second], max).ui == state.ui,
        after_compose(state, keys, seq![first, second], max).units == state.units,
{
    reveal_with_fuel(typed_text, 3);
    assert(seq![first].drop_last() =~= Seq::empty());
    assert(seq![first, second].drop_last() =~= seq![first]);
    assert(state.draft + Seq::empty() =~= state.draft);
    assert(typed_text(seq![first]) =~= first);
    assert(typed_text(seq![first, second]) =~= first + second);
    assert(state.draft + (first + second) =~= state.draft + first + second);
}

/// However much is typed, the draft begins with what of it there is room for.
pub proof fn drafts_are_cut_at_their_end(state: ClientView, keys: Keys, text: Seq<char>, max: nat)
    requires
        state.ui.composing,
        !state.ui.just_activated,
        !keys.down(Key::Escape),
        !keys.down(Key::Enter),
        !keys.down(Key::NumpadEnter),
        !keys.down(Key::Backspace),
        state.draft.len() <= max,
        max <= state.draft.len() + text.len(),
    ensures
        after_compose(state, keys, seq![text], max).draft == (state.draft + text).take(max as int),
{
    reveal_with_fuel(typed_text, 2);
    assert(seq![text].drop_last() =~= Seq::empty());
    assert(typed_text(seq![text]) =~= text);
    assert((state.draft + text).take(state.draft.len() as int) =~= state.draft);
    assert((state.draft + text).take((state.draft + text).len() as int) =~= state.draft + text);
}

/// The backspace key takes the last character away, and undoes a character that was typed.
pub proof fn the_backspace_key_takes_one_character(state: ClientView, keys: Keys, c: char, max: nat)
    requires
        state.ui.composing,
        !state.ui.just_activated,
        !keys.down(Key::Escape),
        !keys.down(Key::Enter),
        !keys.down(Key::NumpadEnter),
        keys.down(Key::Backspace),
        state.draft.len() <= max,
    ensures
        ({
            let longer = ClientView { draft: state.draft.push(c), ..state };
            &&& after_compose(longer, keys, Seq::empty(), max) == state
            &&& state.draft.len() == 0 ==> after_compose(state, keys, Seq::empty(), max) == state
        }),
{
    assert(state.draft.push(c).drop_last() =~= state.draft);
    assert(state.draft + Seq::empty() =~= state.draft);
    assert(state.draft.take(max as int) =~= state.draft || state.draft.len() < max);
}

/// The enter keys send the draft to the counterpart and end composing; the escape key ends it and sends nothing. Nothing
/// else sends or ends it.
pub proof fn enter_sends_and_escape_discards(state: ClientView, keys: Keys, typed: Seq<Seq<char>>, max: nat)
    requires
        state.ui.composing,
        !state.ui.just_activated,
    ensures
        ({
            let entered = keys.down(Key::Enter) || keys.down(Key::NumpadEnter);
            let escaped = keys.down(Key::Escape);
            let after = after_compose(state, keys, typed, max);
            &&& after.ui.composing <==> !entered && !escaped
            &&& entered || escaped ==> after.draft == Seq::<char>::empty()
            &&& (sent(state, keys) is Some <==> entered && !escaped && state.ui.player is Some && state.ui.diplomacy_target
                is Some)
            &&& (sent(state, keys) matches Some(order) ==> order == (ActionView::Proposal {
                to: state.ui.diplomacy_target->0,
                text: state.draft,
            }))
        }),
{
}

/// While nothing is composed, nothing is collected and nothing sent.
pub proof fn keys_write_only_while_composing(state: ClientView, keys: Keys, typed: Seq<Seq<char>>, max: nat)
    requires
        !state.ui.composing,
    ensures
        after_compose(state, keys, typed, max) == state,
        sent(state, keys) is None,
{
}

/// A picture is taken once none is on its way, its frame or day has come, and ten frames have been drawn; one that is to
/// come out blank needs one frame.
pub proof fn pictures_are_taken_when_due(before: ScreenshotAttempts, config: ScreenshotConfig, day: u32)
    ensures
        capture_due(before, config, day) <==> {
            &&& !before.in_flight
            &&& before.frames + 1 >= (if config.debug_force_blank {
                1int
            } else {
                10int
            })
            &&& match config.trigger {
                ScreenshotTrigger::AfterFrames(n) => n <= before.frames + 1,
                ScreenshotTrigger::AtDay(d) => d <= day,
            }
        },
        blank_limit(config) == if config.debug_force_blank {
            1int
        } else {
            30int
        },
{
}

/// A picture is blank exactly if any two of its pixels have the same colour.
pub proof fn blank_pictures_have_one_colour(pixels: Seq<u8>)
    requires
        pixels.len() % 3 == 0,
    ensures
        uniform(pixels) <==> forall|p: int, q: int, c: int|
            0 <= 3 * p && 3 * p + 2 < pixels.len() && 0 <= 3 * q && 3 * q + 2 < pixels.len() && 0 <= c < 3
                ==> #[trigger] pixels[3 * p + c] == #[trigger] pixels[3 * q + c],
{
    if uniform(pixels) {
        assert forall|p: int, q: int, c: int|
            0 <= 3 * p && 3 * p + 2 < pixels.len() && 0 <= 3 * q && 3 * q + 2 < pixels.len() && 0 <= c
                < 3 implies #[trigger] pixels[3 * p + c] == #[trigger] pixels[3 * q + c] by {
            assert((3 * p + c) % 3 == c && (3 * q + c) % 3 == c);
        }
    }
    if forall|p: int, q: int, c: int|
        0 <= 3 * p && 3 * p + 2 < pixels.len() && 0 <= 3 * q && 3 * q + 2 < pixels.len() && 0 <= c < 3
            ==> #[trigger] pixels[3 * p + c] == #[trigger] pixels[3 * q + c] {
        assert forall|i: int| 0 <= i < pixels.len() implies #[trigger] pixels[i] == pixels[i % 3] by {
            let (p, q, c) = (i / 3, 0int, i % 3);
            assert(i == 3 * p + c && i % 3 == 3 * q + c);
            assert(pixels[3 * p + c] == pixels[3 * q + c]);
        }
    }
}

/// What is said when no picture could be taken or saved names the path.
pub proof fn failures_of_pictures(count: nat, limit: nat, path: Seq<char>, reason: Seq<char>)
    ensures
        save_failure(path, reason) == "archipelago-game: error: could not save screenshot to "@ + path + ": "@ + reason,
        blank_failure(count, limit, path)
            == "archipelago-game: error: --screenshot captured a single uniform colour "@ + decimal(count)
            + " time(s) in a row (limit "@ + decimal(limit)
            + ") - the render pipeline never actually drew anything (see app::screenshot::MAX_BLANK_CAPTURE_ATTEMPTS's own doc). Refusing to write a blank PNG; no screenshot was saved to "@
            + path + "."@,
{
}

/// The units that a picture selects are the living ones of the played faction, each once; nothing else changes the
/// selection.
pub proof fn pictures_select_the_living(config: ScreenshotConfig, world: World, faction: FactionId, before: Seq<u32>, id: u32)
    requires
        world.units@.len() <= u32::MAX,
    ensures
        ({
            let after = selection_after(Some(config), Some(faction), world, before);
            let belongs = id < world.units@.len() && world.units@[id as int].alive && world.units@[id as int].owner == faction;
            &&& config.select_units ==> (after.contains(id) <==> belongs) && after.no_duplicates()
            &&& !config.select_units ==> after == before
        }),
        selection_after(Some(config), None, world, before) == before,
        selection_after(None, Some(faction), world, before) == before,
{
    lemma_living(world, faction, world.units@.len(), id);
}

proof fn lemma_living(world: World, faction: FactionId, n: nat, id: u32)
    requires
        n <= world.units@.len() <= u32::MAX,
    ensures
        living_of(world, faction, n).contains(id) <==> id < n && world.units@[id as int].alive && world.units@[id as int].owner
            == faction,
        forall|i: int| 0 <= i < living_of(world, faction, n).len() ==> (#[trigger] living_of(world, faction, n)[i]) < n,
        living_of(world, faction, n).no_duplicates(),
    decreases n,
{
    if n > 0 {
        lemma_living(world, faction, (n - 1) as nat, id);
        let before = living_of(world, faction, (n - 1) as nat);
        let list = living_of(world, faction, n);
        let last = (n - 1) as u32;
        if list != before {
            assert(list == before.push(last));
            assert(list[before.len() as int] == last);
            if before.contains(id) {
                let k = before.index_of(id);
                assert(list[k] == id);
            }
            if list.contains(id) && id != last {
                let k = list.index_of(id);
                assert(before[k] == id);
            }
        }
    }
}

/// A thing that counts and is in reach leads to a nearest one.
proof fn lemma_something_is_nearest(list: Seq<Candidate>, counts: spec_fn(u32) -> bool) -> (i: int)
    requires
        !misses(list, counts),
    ensures
        is_nearest(list, counts, i),
    decreases list.len(),
{
    let rest = list.drop_last();
    let last = list.len() - 1;
    if list.len() == 0 {
        assert(misses(list, counts));
        0
    } else if misses(rest, counts) {
        let j = choose|j: int| 0 <= j < list.len() && counts((#[trigger] list[j]).id) && reached(list[j]);
        assert(j == last) by {
            if j < last {
                assert(rest[j] == list[j]);
            }
        }
        assert forall|k: int| 0 <= k < last implies !(counts((#[trigger] list[k]).id) && reached(list[k])) by {
            assert(rest[k] == list[k]);
        }
        last
    } else {
        let before = lemma_something_is_nearest(rest, counts);
        assert(forall|k: int| 0 <= k < last ==> #[trigger] rest[k] == list[k]);
        if counts(list[last].id) && reached(list[last]) && list[last].distance.less(list[before].distance) {
            assert forall|k: int| 0 <= k < last && counts((#[trigger] list[k]).id) && reached(list[k]) implies list[last].distance.less(
                list[k].distance,
            ) by {
                assert(rest[k] == list[k]);
            }
            last
        } else {
            assert forall|k: int| 0 <= k < list.len() && counts((#[trigger] list[k]).id) && reached(list[k]) implies !list[k].distance.less(
                list[before].distance,
            ) by {
                if k < last {
                    assert(rest[k] == list[k]);
                }
            }
            assert forall|k: int| 0 <= k < before && counts((#[trigger] list[k]).id) && reached(list[k]) implies list[before].distance.less(
                list[k].distance,
            ) by {
                assert(rest[k] == list[k]);
            }
            before
        }
    }
}

/// A click hits something exactly if something that counts lies within its radius, and what it hits lies there, with
/// nothing nearer that does.
pub proof fn clicks_hit_the_nearest_in_reach(list: Seq<Candidate>, counts: spec_fn(u32) -> bool, j: int)
    ensures
        hit_of(list, counts) is Some <==> exists|i: int|
            0 <= i < list.len() && counts((#[trigger] list[i]).id) && list[i].distance.at_most(list[i].radius),
        hit_of(list, counts) matches Some(id) ==> exists|i: int| {
            &&& 0 <= i < list.len()
            &&& (#[trigger] list[i]).id == id
            &&& counts(id)
            &&& list[i].distance.at_most(list[i].radius)
            &&& (0 <= j < list.len() && counts(list[j].id) && list[j].distance.at_most(list[j].radius)
                ==> list[i].distance.at_most(list[j].distance))
        },
{
    if !misses(list, counts) {
        let i = lemma_something_is_nearest(list, counts);
        a_click_hits_one_thing(list, counts, i);
        assert(counts(list[i].id) && reached(list[i]));
    }
}

/// A click on the map hits a unit only if it is a living one of the player's, and the marker lies within fourteen times
/// the zoom of the click.
pub proof fn clicks_hit_own_living_units(click: MapClick, world: World, player: FactionId)
    ensures
        unit_hit(click, world, None) is None,
        unit_hit(click, world, Some(player)) matches Some(id) ==> {
            &&& id < world.units@.len() && world.units@[id as int].alive && world.units@[id as int].owner == player
            &&& exists|i: int|
                0 <= i < click.units@.len() && (#[trigger] click.units@[i]).id == id && distance_of(
                    click.units@[i].at,
                    click.at,
                ).at_most(product_of(Quantity { bits: 0x4160_0000 }, click.zoom))
        },
{
    let list = units_from(click);
    if let Some(id) = unit_hit(click, world, Some(player)) {
        clicks_hit_the_nearest_in_reach(list, own_units(world, player), 0);
        let i = choose|i: int|
            0 <= i < list.len() && (#[trigger] list[i]).id == id && own_units(world, player)(id) && list[i].distance.at_most(
                list[i].radius,
            );
        assert(click.units@[i].id == id);
    }
}

/// Units are easier to hit from farther away.
pub proof fn reach_grows_with_the_zoom(near: Quantity, far: Quantity)
    requires
        zero().less(near),
        near.at_most(far),
        far.finite(),
    ensures
        unit_reach(near).at_most(unit_reach(far)),
        unit_reach(one()) == (Quantity { bits: 0x4160_0000 }),
{
    let reach = Quantity { bits: 0x4160_0000 };
    products_commute(reach, near);
    products_commute(reach, far);
    products_ascend(near, far, reach);
    times_one_changes_nothing(reach);
}

/// A region is hit within its radius of its place, and a sea zone within its own.
pub proof fn places_are_hit_within_their_radius(layout: MapLayout, at: Point)
    requires
        layout.regions@.len() <= u32::MAX,
        layout.radii@.len() == layout.regions@.len(),
    ensures
        hit_of(layout.regions_from(at), any()) is Some <==> exists|i: int|
            0 <= i < layout.regions@.len() && distance_of(#[trigger] layout.regions@[i], at).at_most(layout.radii@[i]),
        hit_of(layout.regions_from(at), any()) matches Some(id) ==> id < layout.regions@.len() && distance_of(
            layout.regions@[id as int],
            at,
        ).at_most(layout.radii@[id as int]),
{
    let list = layout.regions_from(at);
    clicks_hit_the_nearest_in_reach(list, any(), 0);
    if hit_of(list, any()) is Some {
        let id = hit_of(list, any())->0;
        let i = choose|i: int|
            0 <= i < list.len() && (#[trigger] list[i]).id == id && any()(id) && list[i].distance.at_most(list[i].radius);
        assert(distance_of(layout.regions@[i], at).at_most(layout.radii@[i]));
    }
    if exists|i: int|
        0 <= i < layout.regions@.len() && distance_of(#[trigger] layout.regions@[i], at).at_most(layout.radii@[i]) {
        let i = choose|i: int|
            0 <= i < layout.regions@.len() && distance_of(#[trigger] layout.regions@[i], at).at_most(layout.radii@[i]);
        assert(any()(list[i].id) && list[i].distance.at_most(list[i].radius));
    }
}

/// A click on the ground selects what it hits: a region before a sea zone, and nothing where it hits nothing. With units
/// selected it leaves the sea zones unselected: the units go there.
pub proof fn ground_clicks_select_what_they_hit(state: ClientView, r: RegionId, z: Option<SeaZoneId>, zone: SeaZoneId)
    ensures
        ({
            let (on_land, _) = after_ground_click(state, Some(r), z);
            let (at_sea, orders) = after_ground_click(state, None, Some(zone));
            let (nowhere, none) = after_ground_click(state, None, None);
            &&& on_land.ui == (Ui { selected_region: Some(r), selected_sea_zone: None, ..state.ui })
            &&& state.units.len() == 0 ==> at_sea.ui == (Ui {
                selected_region: None,
                selected_sea_zone: Some(zone),
                ..state.ui
            }) && orders.len() == 0
            &&& state.units.len() > 0 ==> at_sea.ui == state.ui
            &&& nowhere.ui == (Ui { selected_region: None, selected_sea_zone: None, ..state.ui })
            &&& nowhere.units == state.units && none.len() == 0
            &&& on_land.draft == state.draft && at_sea.draft == state.draft && nowhere.draft == state.draft
        }),
{
}

/// The menu opens on the player's own regions and on no other, and not through a panel.
pub proof fn menus_open_on_own_regions(world: World, player: FactionId, over_ui: bool, region: RegionId)
    requires
        world.has_region(region),
    ensures
        menu_opens(world, Some(player), over_ui, Some(region)) <==> !over_ui && world.region_at(region).owner == player,
        !menu_opens(world, None, over_ui, Some(region)),
        !menu_opens(world, Some(player), over_ui, None),
{
}

/// What the speed buttons say and do: each names its speed and its key.
pub proof fn speed_buttons_name_their_keys(ui: Ui, speed: Speed)
    requires
        speed != Speed::Paused,
    ensures
        speed_text(Speed::Paused) == "停止 [Space]"@,
        speed_text(Speed::X1) == "1x [1]"@,
        speed_text(Speed::X5) == "5x [2]"@,
        speed_text(Speed::X20) == "20x [3]"@,
        after_speed_click(ui, Speed::Paused) == (Ui { paused: true, ..ui }),
        after_speed_click(ui, speed) == (Ui { paused: false, last_active: speed, ..ui }),
        is_current(ui, Speed::Paused) <==> ui.paused,
        is_current(ui, speed) <==> !ui.paused && ui.last_active == speed,
{
}

/// A press that moves by less than 4 is a click, and one that moves by more is none: what the squares of the ways across
/// and up come to together tells, to within a hundredth.
pub proof fn short_drags_are_clicks(start: Point, end: Point)
    requires
        difference_of(start.x, end.x).finite() && units(difference_of(start.x, end.x)) <= pow2(210),
        difference_of(start.y, end.y).finite() && units(difference_of(start.y, end.y)) <= pow2(210),
    ensures
        ({
            let (dx, dy, u) = (units(difference_of(start.x, end.x)), units(difference_of(start.y, end.y)), pow2(149));
            &&& 10 * (dx * dx + dy * dy) <= 159 * (u * u) ==> was_click(start, end)
            &&& 10 * (dx * dx + dy * dy) >= 161 * (u * u) ==> !was_click(start, end)
        }),
{
    let (v, four) = (subtracted(start, end), Quantity { bits: 0x4080_0000 });
    let (x, y, u) = (units(v.x), units(v.y), pow2(149));
    let (t, uu) = (x * x + y * y, u * u);
    lemma2_to64();
    lemma_pow2_pos(149);
    lemma_pow2_adds(21, 128);
    assert(significand(four.bits) == 0x80_0000 && exponent(four.bits) == -21);
    assert(units(four) == 4 * u) by (nonlinear_arith)
        requires
            units(four) == 0x80_0000 * pow2(128),
            u == 0x20_0000 * pow2(128),
    ;
    if 10 * t >= 161 * uu {
        assert(x >= u || y >= u) by (nonlinear_arith)
            requires
                10 * t >= 161 * uu,
                t == x * x + y * y,
                uu == u * u,
                x >= 0,
                y >= 0,
                u > 0,
        ;
        lemma_kept_sign(v, x < u);
    }
    if hair().less(length_of(v)) {
        lemma_length_is_near(v);
        let l = units(length_of(v));
        if 10 * t <= 159 * uu {
            assert(l < 4 * u) by (nonlinear_arith)
                requires
                    10 * t <= 159 * uu,
                    0x10_0000 * (l * l - t) <= t,
                    uu == u * u,
                    u > 0,
            ;
            if four.less(length_of(v)) {
                lemma_units_ascend(four, length_of(v));
            }
        }
        if 10 * t >= 161 * uu {
            assert(l > 4 * u) by (nonlinear_arith)
                requires
                    10 * t >= 161 * uu,
                    -t <= 0x10_0000 * (l * l - t),
                    uu == u * u,
                    u > 0,
                    l >= 0,
            ;
            if !four.less(length_of(v)) {
                lemma_units_ascend(length_of(v), four);
            }
        }
    }
}

/// A frame stops at the day that a picture is to show, and at none otherwise; that day is missed exactly if the game ends
/// before it comes.
pub proof fn days_of_pictures_are_stopped_at(config: ScreenshotConfig, frame: Frame, day: u32, ended: bool)
    ensures
        target_day(None) is None,
        config.trigger matches ScreenshotTrigger::AtDay(d) ==> target_day(Some(config)) == Some(d),
        config.trigger is AfterFrames ==> target_day(Some(config)) is None,
        is_missed(frame, day, ended) <==> ended && (frame.target matches Some(d) && day < d),
{
}

/// What is said when the day of a picture never comes names that day, the outcome, and the day on which the game ended.
pub proof fn missed_days_are_named(target: nat, outcome: Seq<char>, day: nat)
    ensures
        unreachable_day(target, outcome, day) == "archipelago-game: error: --screenshot-at-day "@ + decimal(target)
            + " was requested, but the simulation reached a terminal outcome ("@ + outcome + ") at day "@ + decimal(day)
            + " - day "@ + decimal(target) + " is never reached, so no screenshot was captured."@,
{
}

/// A format that was found stands; where none was, the text says which picture could not be saved, and why.
pub proof fn formats_are_passed_on(path: Seq<char>, format: Seq<char>, reason: Seq<char>)
    ensures
        format_or_failure(path, Ok(format)) == Ok::<Seq<char>, Seq<char>>(format),
        format_or_failure(path, Err(reason)) == Err::<Seq<char>, Seq<char>>(
            "archipelago-game: error: could not save screenshot to "@ + path + ": "@ + reason,
        ),
{
}

/// A sea zone is hit within its radius of its place.
pub proof fn sea_zones_are_hit_within_their_radius(layout: MapLayout, world: World, at: Point)
    requires
        layout.fits(world),
    ensures
        hit_of(layout.zones_from(world, at), any()) is Some <==> exists|i: int|
            0 <= i < layout.zones@.len() && distance_of(#[trigger] layout.zones@[i], at).at_most(
                whole(zone_radius(world.sea_zones@[i].coast@.len())),
            ),
        hit_of(layout.zones_from(world, at), any()) matches Some(id) ==> id < layout.zones@.len() && distance_of(
            layout.zones@[id as int],
            at,
        ).at_most(whole(zone_radius(world.sea_zones@[id as int].coast@.len()))),
{
    let list = layout.zones_from(world, at);
    clicks_hit_the_nearest_in_reach(list, any(), 0);
    if hit_of(list, any()) is Some {
        let id = hit_of(list, any())->0;
        let i = choose|i: int|
            0 <= i < list.len() && (#[trigger] list[i]).id == id && any()(id) && list[i].distance.at_most(list[i].radius);
        assert(distance_of(layout.zones@[i], at).at_most(whole(zone_radius(world.sea_zones@[i].coast@.len()))));
    }
    if exists|i: int|
        0 <= i < layout.zones@.len() && distance_of(#[trigger] layout.zones@[i], at).at_most(
            whole(zone_radius(world.sea_zones@[i].coast@.len())),
        ) {
        let i = choose|i: int|
            0 <= i < layout.zones@.len() && distance_of(#[trigger] layout.zones@[i], at).at_most(
                whole(zone_radius(world.sea_zones@[i].coast@.len())),
            );
        assert(any()(list[i].id) && list[i].distance.at_most(list[i].radius));
    }
}

/// The title of the window ends with the name of the scenario.
pub proof fn the_title_names_the_scenario(scenario: Seq<char>)
    ensures
        title_of(scenario) == "Archipelago — "@ + scenario,
{
}

/// A picture is saved unless it is of one colour; one that is, is taken again until it is the thirtieth, and the first is
/// the last where a blank one is wanted.
pub proof fn blank_pictures_are_taken_again(blank_before: nat, config: ScreenshotConfig, pixels: Seq<u8>)
    ensures
        !config.debug_force_blank ==> (fate_of(blank_before, config, pixels) == Fate::Saved <==> !uniform(pixels)),
        !config.debug_force_blank ==> (fate_of(blank_before, config, pixels) == Fate::TakenAgain <==> uniform(pixels)
            && blank_before < 29),
        !config.debug_force_blank ==> (fate_of(blank_before, config, pixels) == Fate::GivenUp <==> uniform(pixels)
            && blank_before >= 29),
        config.debug_force_blank ==> fate_of(blank_before, config, pixels) == Fate::GivenUp,
{
    if config.debug_force_blank {
        forced_pictures_are_blank(config, pixels);
    }
}

/// What becomes of a picture is what the verdict says.
pub proof fn fates_of_pictures(verdict: Verdict)
    ensures
        verdict.fate() == Fate::Saved <==> verdict is Save,
        verdict.fate() == Fate::TakenAgain <==> verdict is Retry,
        verdict.fate() == Fate::GivenUp <==> verdict is GiveUp,
{
}

/// The camera looks at the region that a picture asks for, from as far as it asks for, if there is such a region.
pub proof fn pictures_aim_the_camera(config: ScreenshotConfig, layout: Seq<Point>)
    ensures
        camera_asked_for(None, layout) is None,
        config.camera_focus_region is None ==> camera_asked_for(Some(config), layout) is None,
        config.camera_focus_region matches Some(region) ==> {
            &&& (camera_asked_for(Some(config), layout) is Some <==> region.0 < layout.len())
            &&& (camera_asked_for(Some(config), layout) matches Some((at, scale)) ==> at == layout[region.0 as int] && scale
                == config.camera_zoom)
        },
{
}

} // verus!
