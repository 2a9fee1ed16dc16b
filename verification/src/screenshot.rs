//! Taking one picture of the window without anyone at the keyboard.
//!
//! A picture is asked for once the wanted frame or day is reached and the renderer has had time to
//! warm up. One that shows a single colour was taken before anything was drawn: it is never saved, but
//! asked for again, a limited number of times.
use crate::map_mode::MapMode;
use crate::quantity::Quantity;
use crate::text::{decimal, decimal_text};
use crate::types::{FactionId, Good, RegionId};
use crate::unit_set::{ascending, UnitSet};
use crate::world::{Point, World};
use vstd::prelude::*;

verus! {

/// When the picture is taken.
#[derive(Clone, Copy, Debug, PartialEq, Eq, Structural)]
pub enum ScreenshotTrigger {
    /// After this many frames.
    AfterFrames(u32),
    /// When the simulation has reached this day.
    AtDay(u32),
}

/// What picture is wanted, and how the client is set up for it.
#[derive(Clone, Debug)]
pub struct ScreenshotConfig {
    pub path: String,
    pub trigger: ScreenshotTrigger,
    pub open_diplomacy: bool,
    pub open_newspaper: bool,
    pub open_policy: bool,
    pub map_mode: Option<MapMode>,
    pub industry_good: Option<Good>,
    pub select_region: Option<RegionId>,
    /// Whether all living units of the played faction are selected, day by day.
    pub select_units: bool,
    pub camera_focus_region: Option<RegionId>,
    /// The scale of the camera when it is centred on a region.
    pub camera_zoom: Quantity,
    /// Whether the picture is taken at once, and a black one is judged in its place.
    pub debug_force_blank: bool,
}

/// No picture is taken before this many frames.
pub const MIN_RENDER_WARMUP_FRAMES: u32 = 10;

/// After this many blank pictures no further one is taken.
pub const MAX_BLANK_CAPTURE_ATTEMPTS: u32 = 30;

/// How far taking the picture has come.
#[derive(Clone, Copy, Debug, PartialEq, Eq, Structural)]
pub struct ScreenshotAttempts {
    /// How many frames have passed without a picture on its way.
    pub frames: u32,
    /// Whether a picture is on its way.
    pub in_flight: bool,
    pub blank_count: u32,
}

impl Default for ScreenshotAttempts {
    fn default() -> (attempts: ScreenshotAttempts)
        ensures
            attempts == (ScreenshotAttempts { frames: 0, in_flight: false, blank_count: 0 }),
    {
        ScreenshotAttempts { frames: 0, in_flight: false, blank_count: 0 }
    }
}

/// The number of frames before which no picture is taken.
pub open spec fn warmup_floor(config: ScreenshotConfig) -> u32 {
    if config.debug_force_blank {
        1
    } else {
        MIN_RENDER_WARMUP_FRAMES
    }
}

/// The number of blank pictures after which no further one is taken.
pub open spec fn blank_limit(config: ScreenshotConfig) -> u32 {
    if config.debug_force_blank {
        1
    } else {
        MAX_BLANK_CAPTURE_ATTEMPTS
    }
}

/// Whether the wanted frame or day is reached.
pub open spec fn target_reached(trigger: ScreenshotTrigger, frames: int, day: u32) -> bool {
    match trigger {
        ScreenshotTrigger::AfterFrames(n) => frames >= n,
        ScreenshotTrigger::AtDay(d) => day >= d,
    }
}

/// Whether a picture is asked for in a frame.
pub open spec fn capture_due(before: ScreenshotAttempts, config: ScreenshotConfig, day: u32) -> bool {
    &&& !before.in_flight
    &&& target_reached(config.trigger, before.frames + 1, day)
    &&& before.frames + 1 >= warmup_floor(config)
}

/// Counts a frame, and says whether a picture is to be asked for.
pub fn maybe_capture_screenshot(attempts: &mut ScreenshotAttempts, config: &ScreenshotConfig, day: u32) -> (capture: bool)
    requires
        old(attempts).frames < u32::MAX,
    ensures
        capture == capture_due(*old(attempts), *config, day),
        *final(attempts) == if old(attempts).in_flight {
            *old(attempts)
        } else {
            ScreenshotAttempts { frames: (old(attempts).frames + 1) as u32, in_flight: capture, ..*old(attempts) }
        },
{
    if attempts.in_flight {
        return false;
    }
    attempts.frames = attempts.frames + 1;
    let reached = match config.trigger {
        ScreenshotTrigger::AfterFrames(n) => attempts.frames >= n,
        ScreenshotTrigger::AtDay(d) => day >= d,
    };
    let floor: u32 = if config.debug_force_blank {
        1
    } else {
        MIN_RENDER_WARMUP_FRAMES
    };
    let ready = reached && attempts.frames >= floor;
    if ready {
        attempts.in_flight = true;
    }
    ready
}

/// Whether a picture, three bytes to a pixel, shows a single colour.
pub open spec fn uniform(pixels: Seq<u8>) -> bool {
    forall|i: int| 0 <= i < pixels.len() ==> #[trigger] pixels[i] == pixels[i % 3]
}

/// Whether a picture, three bytes to a pixel, shows a single colour; an empty one does.
pub fn is_blank(pixels: &[u8]) -> (blank: bool)
    requires
        pixels@.len() % 3 == 0,
    ensures
        blank == uniform(pixels@),
{
    let mut i: usize = 0;
    while i < pixels.len()
        invariant
            i <= pixels.len(),
            pixels@.len() % 3 == 0,
            forall|k: int| 0 <= k < i ==> #[trigger] pixels@[k] == pixels@[k % 3],
        decreases pixels.len() - i,
    {
        if pixels[i] != pixels[i % 3] {
            return false;
        }
        i += 1;
    }
    true
}

/// What becomes of a picture.
#[derive(Clone, Debug, PartialEq, Eq)]
pub enum Verdict {
    Save,
    /// Another one is to be taken.
    Retry,
    /// No further one is taken; the text says why.
    GiveUp(String),
}

/// The text that says that every picture was blank.
pub open spec fn blank_failure(count: nat, limit: nat, path: Seq<char>) -> Seq<char> {
    "archipelago-game: error: --screenshot captured a single uniform colour "@ + decimal(count) + " time(s) in a row (limit "@
        + decimal(limit) + ") - the render pipeline never actually drew anything (see app::screenshot::MAX_BLANK_CAPTURE_ATTEMPTS's own doc). Refusing to write a blank PNG; no screenshot was saved to "@
        + path + "."@
}

fn blank_failure_text(count: u32, limit: u32, path: &str) -> (text: String)
    ensures
        text@ == blank_failure(count as nat, limit as nat, path@),
{
    let mut text = "archipelago-game: error: --screenshot captured a single uniform colour ".to_owned();
    text.append(decimal_text(count as usize).as_str());
    text.append(" time(s) in a row (limit ");
    text.append(decimal_text(limit as usize).as_str());
    text.append(
        ") - the render pipeline never actually drew anything (see app::screenshot::MAX_BLANK_CAPTURE_ATTEMPTS's own doc). Refusing to write a blank PNG; no screenshot was saved to ",
    );
    text.append(path);
    text.append(".");
    text
}

/// The picture that is judged: the one that has arrived, or a black one of its size in its place.
pub open spec fn judged(config: ScreenshotConfig, pixels: Seq<u8>) -> Seq<u8> {
    if config.debug_force_blank {
        Seq::new(pixels.len(), |i: int| 0u8)
    } else {
        pixels
    }
}

fn black(len: usize) -> (pixels: Vec<u8>)
    ensures
        pixels@ == Seq::new(len as nat, |i: int| 0u8),
{
    let mut pixels: Vec<u8> = Vec::new();
    while pixels.len() < len
        invariant
            pixels.len() <= len,
            forall|i: int| 0 <= i < pixels.len() ==> pixels@[i] == 0,
        decreases len - pixels.len(),
    {
        pixels.push(0);
    }
    assert(pixels@ =~= Seq::new(len as nat, |i: int| 0u8));
    pixels
}

/// A picture that is forced to be blank is.
pub proof fn forced_pictures_are_blank(config: ScreenshotConfig, pixels: Seq<u8>)
    requires
        config.debug_force_blank,
    ensures
        uniform(judged(config, pixels)),
{
}

/// What becomes of a picture.
pub ghost enum Fate {
    Saved,
    TakenAgain,
    GivenUp,
}

impl Verdict {
    /// What becomes of the picture.
    pub open spec fn fate(self) -> Fate {
        match self {
            Verdict::Save => Fate::Saved,
            Verdict::Retry => Fate::TakenAgain,
            Verdict::GiveUp(_) => Fate::GivenUp,
        }
    }
}

/// What becomes of a picture that came out, after some blank ones.
pub open spec fn fate_of(blank_before: nat, config: ScreenshotConfig, pixels: Seq<u8>) -> Fate {
    if !uniform(judged(config, pixels)) {
        Fate::Saved
    } else if blank_before + 1 < blank_limit(config) {
        Fate::TakenAgain
    } else {
        Fate::GivenUp
    }
}

/// Decides what becomes of a picture that has arrived. A blank one is counted; another one is taken
/// until the limit is reached.
pub fn handle_screenshot_captured(attempts: &mut ScreenshotAttempts, config: &ScreenshotConfig, pixels: &[u8]) -> (verdict: Verdict)
    requires
        pixels@.len() % 3 == 0,
        old(attempts).blank_count < u32::MAX,
    ensures
        verdict.fate() == fate_of(old(attempts).blank_count as nat, *config, pixels@),
        ({
            let blank = uniform(judged(*config, pixels@));
            let count = old(attempts).blank_count + 1;
            let exhausted = count >= blank_limit(*config);
            &&& (verdict == Verdict::Save <==> !blank)
            &&& (verdict == Verdict::Retry <==> blank && !exhausted)
            &&& (verdict is GiveUp <==> blank && exhausted)
            &&& (verdict matches Verdict::GiveUp(text) ==> text@ == blank_failure(
                count as nat,
                blank_limit(*config) as nat,
                config.path@,
            ))
            &&& *final(attempts) == (ScreenshotAttempts {
                frames: old(attempts).frames,
                in_flight: old(attempts).in_flight && !(blank && !exhausted),
                blank_count: if blank {
                    count as u32
                } else {
                    old(attempts).blank_count
                },
            })
        }),
{
    let blank = if config.debug_force_blank {
        is_blank(black(pixels.len()).as_slice())
    } else {
        is_blank(pixels)
    };
    if !blank {
        return Verdict::Save;
    }
    attempts.blank_count = attempts.blank_count + 1;
    let limit: u32 = if config.debug_force_blank {
        1
    } else {
        MAX_BLANK_CAPTURE_ATTEMPTS
    };
    if attempts.blank_count >= limit {
        return Verdict::GiveUp(blank_failure_text(attempts.blank_count, limit, config.path.as_str()));
    }
    attempts.in_flight = false;
    Verdict::Retry
}

/// No picture is asked for before the renderer has warmed up, nor while another one is on its way.
pub proof fn captures_wait_for_the_renderer(before: ScreenshotAttempts, config: ScreenshotConfig, day: u32)
    requires
        capture_due(before, config, day),
        !config.debug_force_blank,
    ensures
        before.frames + 1 >= MIN_RENDER_WARMUP_FRAMES,
        !before.in_flight,
{
}

/// Once a picture is due it stays due, frame after frame, as long as none is on its way.
pub proof fn captures_stay_due(before: ScreenshotAttempts, config: ScreenshotConfig, day: u32, later: ScreenshotAttempts, later_day: u32)
    requires
        capture_due(before, config, day),
        !later.in_flight,
        before.frames <= later.frames,
        day <= later_day,
    ensures
        capture_due(later, config, later_day),
{
}

/// What `image::ImageFormat::from_path` makes of a path: the usual extension of the format that the
/// path's extension names, or the message of the error where it names none.
pub uninterp spec fn format_named_by(path: Seq<char>) -> Result<Seq<char>, Seq<char>>;

/// Whether a path is read alike on every system: it holds neither of the characters that some systems
/// give a meaning of their own.
pub open spec fn is_portable(path: Seq<char>) -> bool {
    !path.contains('\\') && !path.contains(':')
}

/// Whether a character is written as it stands where a text is quoted.
pub open spec fn is_plain(c: char) -> bool {
    ' ' <= c && c <= '~' && c != '"' && c != '\'' && c != '\\'
}

/// Whether an extension of the path, if there is one, is written alike wherever it is quoted: all that
/// follows a dot is plain.
pub open spec fn quotes_plainly(path: Seq<char>) -> bool {
    forall|i: int, j: int| 0 <= i < j < path.len() && #[trigger] path[i] == '.' ==> is_plain(#[trigger] path[j])
}

/// The outcome of a call, with its texts as sequences.
pub open spec fn text_outcome(outcome: Result<String, String>) -> Result<Seq<char>, Seq<char>> {
    match outcome {
        Ok(text) => Ok(text@),
        Err(text) => Err(text@),
    }
}

/// The format that was found, whatever the message if there is none.
pub open spec fn found_format(outcome: Result<Seq<char>, Seq<char>>) -> Option<Seq<char>> {
    match outcome {
        Ok(format) => Some(format),
        Err(_) => None,
    }
}

/// Calls `image::ImageFormat::from_path`, and hands out the first extension that the format is known
/// by or the message of the error. The format, and whether there is one, depends on the path's
/// extension alone, and so on the path. So does the message, which quotes the extension by its `Debug`
/// form. How a path with a backslash or a colon falls apart differs between systems; of those nothing
/// is claimed. Nor is anything claimed of the message where the extension may hold a character that
/// the `Debug` form writes otherwise than it stands: std does not fix how.
#[verifier::external_body]
fn format_from_path(path: &str) -> (outcome: Result<String, String>)
    ensures
        is_portable(path@) ==> found_format(text_outcome(outcome)) == found_format(format_named_by(path@)),
        is_portable(path@) && quotes_plainly(path@) ==> text_outcome(outcome) == format_named_by(path@),
{
    match image::ImageFormat::from_path(path) {
        Ok(format) => Ok(format.extensions_str()[0].to_owned()),
        Err(e) => Err(e.to_string()),
    }
}

/// The text that says that the picture could not be saved.
pub open spec fn save_failure(path: Seq<char>, reason: Seq<char>) -> Seq<char> {
    "archipelago-game: error: could not save screenshot to "@ + path + ": "@ + reason
}

/// The text that says that the picture could not be saved.
pub fn save_failure_text(path: &str, reason: &str) -> (text: String)
    ensures
        text@ == save_failure(path@, reason@),
{
    let mut text = "archipelago-game: error: could not save screenshot to ".to_owned();
    text.append(path);
    text.append(": ");
    text.append(reason);
    text
}

/// A format that was found, or the text that says that the picture could not be saved.
pub open spec fn format_or_failure(path: Seq<char>, found: Result<Seq<char>, Seq<char>>) -> Result<Seq<char>, Seq<char>> {
    match found {
        Ok(format) => Ok(format),
        Err(reason) => Err(save_failure(path, reason)),
    }
}

/// A format that was found, or the text that says that the picture could not be saved.
pub fn report_format(path: &str, found: Result<String, String>) -> (outcome: Result<String, String>)
    ensures
        text_outcome(outcome) == format_or_failure(path@, text_outcome(found)),
{
    match found {
        Ok(format) => Ok(format),
        Err(reason) => Err(save_failure_text(path, reason.as_str())),
    }
}

/// The format to save a picture in, by its usual extension, as the extension of the path names it, or
/// the text that says why the picture cannot be saved.
pub fn screenshot_format(path: &str) -> (outcome: Result<String, String>)
    ensures
        is_portable(path@) ==> found_format(text_outcome(outcome)) == found_format(format_named_by(path@)),
        is_portable(path@) && quotes_plainly(path@) ==> text_outcome(outcome) == format_or_failure(
            path@,
            format_named_by(path@),
        ),
        outcome matches Err(text) ==> exists|reason: Seq<char>| text@ == #[trigger] save_failure(path@, reason),
{
    report_format(path, format_from_path(path))
}

/// The units that a picture shows as selected: the living ones of a faction among the first `n`.
pub open spec fn living_of(world: World, faction: FactionId, n: nat) -> Seq<u32>
    decreases n,
{
    if n == 0 {
        Seq::empty()
    } else {
        let before = living_of(world, faction, (n - 1) as nat);
        let unit = world.units@[n - 1];
        if unit.alive && unit.owner == faction {
            before.push((n - 1) as u32)
        } else {
            before
        }
    }
}

/// The selection after a frame. It changes only where a picture wants units selected and a faction is
/// played.
pub open spec fn selection_after(
    config: Option<ScreenshotConfig>,
    player: Option<FactionId>,
    world: World,
    before: Seq<u32>,
) -> Seq<u32> {
    match (config, player) {
        (Some(c), Some(faction)) => if c.select_units {
            living_of(world, faction, world.units@.len())
        } else {
            before
        },
        _ => before,
    }
}

fn living_units(world: &World, faction: FactionId) -> (ids: Vec<u32>)
    requires
        world.units@.len() <= u32::MAX,
    ensures
        ids@ == living_of(*world, faction, world.units@.len()),
        ascending(ids@),
{
    let mut ids: Vec<u32> = Vec::new();
    let mut i: usize = 0;
    while i < world.units.len()
        invariant
            i <= world.units.len() <= u32::MAX,
            ids@ == living_of(*world, faction, i as nat),
            ascending(ids@),
            forall|k: int| 0 <= k < ids@.len() ==> #[trigger] ids@[k] < i,
        decreases world.units.len() - i,
    {
        if world.units[i].alive && world.units[i].owner == faction {
            ids.push(i as u32);
        }
        i += 1;
    }
    ids
}

/// Selects all living units of the played faction where a picture wants it.
pub fn sync_debug_selected_units(
    config: &Option<ScreenshotConfig>,
    player: Option<FactionId>,
    world: &World,
    units: &mut UnitSet,
)
    requires
        world.units@.len() <= u32::MAX,
        old(units).valid(),
    ensures
        final(units)@ == selection_after(*config, player, *world, old(units)@),
        final(units).valid(),
{
    if let Some(c) = config {
        if c.select_units {
            if let Some(faction) = player {
                *units = UnitSet::of_ascending(living_units(world, faction));
            }
        }
    }
}

/// Where the camera is to look and from how far, if a picture asks for a region that there is.
pub open spec fn camera_asked_for(config: Option<ScreenshotConfig>, layout: Seq<Point>) -> Option<(Point, Quantity)> {
    match config {
        Some(c) => match c.camera_focus_region {
            Some(region) => if region.0 < layout.len() {
                Some((layout[region.0 as int], c.camera_zoom))
            } else {
                None
            },
            None => None,
        },
        None => None,
    }
}

/// Where the camera is centred and how far it is away, where a picture wants it on a region that
/// exists.
pub fn debug_camera(config: &Option<ScreenshotConfig>, layout: &Vec<Point>) -> (view: Option<(Point, Quantity)>)
    ensures
        view == camera_asked_for(*config, layout@),
        view == match config {
            Some(c) => match c.camera_focus_region {
                Some(region) => if region.0 < layout@.len() {
                    Some((layout@[region.0 as int], c.camera_zoom))
                } else {
                    None
                },
                None => None,
            },
            None => None,
        },
{
    match config {
        Some(c) => match c.camera_focus_region {
            Some(region) => if (region.0 as usize) < layout.len() {
                Some((layout[region.0 as usize], c.camera_zoom))
            } else {
                None
            },
            None => None,
        },
        None => None,
    }
}

} // verus!
