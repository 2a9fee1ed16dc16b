//! The state that the client starts in.
use crate::client::{first_other, first_other_of, others_ascend, Client, Speed, Ui};
use crate::map_mode::MapMode;
use crate::newspaper::NewspaperState;
use crate::screenshot::{ScreenshotConfig, ScreenshotTrigger};
use crate::sim_control::Journal;
use crate::text::{decimal, decimal_text};
use crate::types::{Action, FactionId, Good, Layer};
use crate::unit_set::UnitSet;
use crate::world::{Branch, World};
use vstd::prelude::*;

verus! {

/// Orders that are played back, and the layers of the game that they decide.
pub struct Replay {
    pub layers: Vec<Layer>,
    pub days: Vec<Vec<Action>>,
}

/// How a faction is played.
pub struct PlayConfig {
    pub player: FactionId,
    /// The file that the orders are recorded in.
    pub record: Option<String>,
    pub replay: Option<Replay>,
    /// Whether the units are handed over to an agent from the start.
    pub delegate_military: bool,
}

/// The played faction.
pub open spec fn player_of(play: Option<PlayConfig>) -> Option<FactionId> {
    match play {
        Some(p) => Some(p.player),
        None => None,
    }
}

/// Whether a picture of a day is wanted.
pub open spec fn day_is_wanted(screenshot: Option<ScreenshotConfig>) -> bool {
    screenshot matches Some(c) && c.trigger is AtDay
}

/// Whether the game starts paused: somebody plays, with nothing played back and no picture of a day
/// wanted.
pub open spec fn starts_paused(screenshot: Option<ScreenshotConfig>, play: Option<PlayConfig>) -> bool {
    play matches Some(p) && p.replay is None && !day_is_wanted(screenshot)
}

/// What the client shows at the start, but for what a picture wants.
pub open spec fn plain_start(play: Option<PlayConfig>, paused: bool, speed: Speed) -> Ui {
    Ui {
        last_active: speed,
        paused,
        player: player_of(play),
        selected_region: None,
        selected_sea_zone: None,
        selected_faction: match player_of(play) {
            Some(f) => f,
            None => FactionId(0),
        },
        menu: None,
        diplomacy_open: false,
        diplomacy_target: None,
        policy_open: false,
        composing: false,
        just_activated: false,
        newspaper_open: false,
        newspaper_viewing: None,
        active_good: Good::Steel,
        active_branch: Branch::Infantry,
        map_mode: MapMode::Political,
    }
}

/// What the client shows at the start.
pub open spec fn start_ui(world: World, screenshot: Option<ScreenshotConfig>, play: Option<PlayConfig>) -> Ui {
    let speed = if day_is_wanted(screenshot) {
        Speed::X20
    } else {
        Speed::X1
    };
    let plain = plain_start(play, starts_paused(screenshot, play), speed);
    match screenshot {
        Some(c) => Ui {
            selected_region: c.select_region,
            diplomacy_open: c.open_diplomacy,
            diplomacy_target: match player_of(play) {
                Some(player) => if c.open_diplomacy {
                    first_other_of(world, player)
                } else {
                    None
                },
                None => None,
            },
            policy_open: c.open_policy,
            newspaper_open: c.open_newspaper,
            active_good: match c.industry_good {
                Some(good) => good,
                None => plain.active_good,
            },
            map_mode: match c.map_mode {
                Some(mode) => mode,
                None => plain.map_mode,
            },
            ..plain
        },
        None => plain,
    }
}

/// The state that the client starts in: nothing selected but what a picture wants, no draft.
pub fn start(world: &World, screenshot: &Option<ScreenshotConfig>, play: &Option<PlayConfig>) -> (client: Client)
    requires
        world.valid(),
    ensures
        client.ui == start_ui(*world, *screenshot, *play),
        client.units@.len() == 0,
        client.units.valid(),
        client.draft@.len() == 0,
{
    let player = match play {
        Some(p) => Some(p.player),
        None => None,
    };
    let is_replay = match play {
        Some(p) => p.replay.is_some(),
        None => false,
    };
    let day_wanted = match screenshot {
        Some(c) => match c.trigger {
            ScreenshotTrigger::AtDay(_) => true,
            ScreenshotTrigger::AfterFrames(_) => false,
        },
        None => false,
    };
    let selected_faction = match player {
        Some(f) => f,
        None => FactionId(0),
    };
    let mut ui = Ui {
        last_active: if day_wanted {
            Speed::X20
        } else {
            Speed::X1
        },
        paused: player.is_some() && !is_replay && !day_wanted,
        player,
        selected_region: None,
        selected_sea_zone: None,
        selected_faction,
        menu: None,
        diplomacy_open: false,
        diplomacy_target: None,
        policy_open: false,
        composing: false,
        just_activated: false,
        newspaper_open: false,
        newspaper_viewing: None,
        active_good: Good::Steel,
        active_branch: Branch::Infantry,
        map_mode: MapMode::Political,
    };
    if let Some(c) = screenshot {
        ui.selected_region = c.select_region;
        ui.diplomacy_open = c.open_diplomacy;
        ui.policy_open = c.open_policy;
        ui.newspaper_open = c.open_newspaper;
        if c.open_diplomacy {
            if let Some(f) = player {
                ui.diplomacy_target = first_other(world, f);
            }
        }
        if let Some(good) = c.industry_good {
            ui.active_good = good;
        }
        if let Some(mode) = c.map_mode {
            ui.map_mode = mode;
        }
    }
    Client { ui, units: UnitSet::new(), draft: String::new() }
}

/// The client starts in a sound state, and it knows only factions that exist.
pub proof fn start_is_sound(world: World, screenshot: Option<ScreenshotConfig>, play: Option<PlayConfig>)
    requires
        world.valid(),
        player_of(play) matches Some(f) ==> world.has_faction(f),
    ensures
        start_ui(world, screenshot, play).consistent(),
        start_ui(world, screenshot, play).known_in(world),
{
    match player_of(play) {
        Some(player) => {
            others_ascend(world, player, world.factions@.len());
        },
        None => {},
    }
}

/// A game that nobody plays never starts paused.
pub proof fn observers_start_running(world: World, screenshot: Option<ScreenshotConfig>)
    ensures
        !start_ui(world, screenshot, None).paused,
{
}

/// A run for a picture of a day starts running, at full speed.
pub proof fn pictures_of_a_day_start_running(world: World, screenshot: ScreenshotConfig, play: Option<PlayConfig>)
    requires
        screenshot.trigger is AtDay,
    ensures
        !start_ui(world, Some(screenshot), play).paused,
        start_ui(world, Some(screenshot), play).last_active == Speed::X20,
{
}

/// What the client keeps of the days before the first one: nothing. Orders are recorded where a file
/// for them is named.
pub fn start_journal(start_day: u32, play: &Option<PlayConfig>) -> (journal: Journal)
    ensures
        journal.log@.len() == 0,
        journal.rejections@.len() == 0,
        match journal.record {
            Some(days) => days@.len() == 0 && play is Some && play->0.record is Some,
            None => !(play is Some && play->0.record is Some),
        },
        journal.news.history@.len() == 0,
        journal.news.period_events@.len() == 0,
        journal.news.period_start == start_day,
        journal.news.gapless(),
{
    let recorded = match play {
        Some(p) => p.record.is_some(),
        None => false,
    };
    let record: Option<Vec<Vec<Action>>> = if recorded {
        Some(Vec::new())
    } else {
        None
    };
    Journal { log: Vec::new(), rejections: Vec::new(), record, news: NewspaperState::new(start_day) }
}

/// The title of the window.
pub open spec fn title_of(scenario: Seq<char>) -> Seq<char> {
    "Archipelago — "@ + scenario
}

/// The title of the window.
pub fn window_title(scenario: &str) -> (title: String)
    ensures
        title@ == title_of(scenario@),
        title@ == "Archipelago — "@ + scenario@,
{
    let mut title = "Archipelago — ".to_owned();
    title.append(scenario);
    title
}

/// What the client reports when it starts.
pub open spec fn greeting(world: World) -> Seq<char> {
    "archipelago-game: starting with "@ + decimal(world.regions@.len()) + " regions, "@ + decimal(world.sea_zones@.len())
        + " sea zones, "@ + decimal(world.factions@.len()) + " factions, "@ + decimal(world.units@.len())
        + " initial units"@
}

/// Writes what the client reports when it starts.
pub fn greeting_text(world: &World) -> (text: String)
    ensures
        text@ == greeting(*world),
{
    let mut text = "archipelago-game: starting with ".to_owned();
    text.append(decimal_text(world.regions.len()).as_str());
    text.append(" regions, ");
    text.append(decimal_text(world.sea_zones.len()).as_str());
    text.append(" sea zones, ");
    text.append(decimal_text(world.factions.len()).as_str());
    text.append(" factions, ");
    text.append(decimal_text(world.units.len()).as_str());
    text.append(" initial units");
    text
}

} // verus!
