//! How the simulation advances in a frame, and what is kept of each day.
use crate::client::Ui;
use crate::event_text::{event_is_known, event_text, format_event, Event};
use crate::newspaper::NewspaperState;
use crate::rejection::{
    action_error_ja, action_error_text, rejection_target_ja, rejection_target_of, target_of, target_text, ActionError,
    Rejection,
};
use crate::screenshot::{ScreenshotConfig, ScreenshotTrigger};
use crate::text::{decimal, decimal_text, texts};
use crate::types::Action;
use crate::world::World;
use vstd::prelude::*;

verus! {

/// How many entries the event log holds.
pub const EVENT_LOG_CAPACITY: usize = 14;

/// The day to stop at, if a picture of a day is wanted.
pub open spec fn target_day(screenshot: Option<ScreenshotConfig>) -> Option<u32> {
    match screenshot {
        Some(config) => match config.trigger {
            ScreenshotTrigger::AtDay(day) => Some(day),
            ScreenshotTrigger::AfterFrames(_) => None,
        },
        None => None,
    }
}

/// The day to stop at, if a picture of a day is wanted.
pub fn day_target(screenshot: &Option<ScreenshotConfig>) -> (target: Option<u32>)
    ensures
        target == target_day(*screenshot),
{
    match screenshot {
        Some(config) => match config.trigger {
            ScreenshotTrigger::AtDay(day) => Some(day),
            ScreenshotTrigger::AfterFrames(_) => None,
        },
        None => None,
    }
}

/// Whether the day to stop at has come.
pub open spec fn has_come(target: Option<u32>, day: u32) -> bool {
    target matches Some(t) && day >= t
}

fn come(target: Option<u32>, day: u32) -> (yes: bool)
    ensures
        yes == has_come(target, day),
{
    match target {
        Some(t) => day >= t,
        None => false,
    }
}

/// What is left to do in a frame.
#[derive(Clone, Copy, Debug, PartialEq, Eq, Structural)]
pub struct Frame {
    /// How many days at most are still simulated.
    pub ticks_left: u32,
    /// The day to stop at.
    pub target: Option<u32>,
}

/// The days of a frame: none while the game is paused or once the day to stop at has come, else as
/// many as the speed wants.
pub open spec fn frame_of(ui: Ui, day: u32, target: Option<u32>) -> Frame {
    Frame {
        ticks_left: if ui.paused || has_come(target, day) {
            0
        } else {
            ui.last_active.days() as u32
        },
        target,
    }
}

/// Begins a frame. If the day to stop at has come already, the game pauses.
pub fn begin_frame(ui: &mut Ui, day: u32, target: Option<u32>) -> (frame: Frame)
    ensures
        frame == frame_of(*old(ui), day, target),
        *final(ui) == (Ui { paused: old(ui).paused || has_come(target, day), ..*old(ui) }),
{
    if ui.paused {
        return Frame { ticks_left: 0, target };
    }
    if come(target, day) {
        ui.paused = true;
        return Frame { ticks_left: 0, target };
    }
    Frame { ticks_left: ui.last_active.ticks_per_frame(), target }
}

/// What to do next in a frame.
#[derive(Clone, Debug, PartialEq, Eq)]
pub enum Step {
    /// Simulate a day.
    Tick,
    /// Nothing more in this frame.
    Done,
    /// End the program: the day to stop at never comes. The text says why.
    Fail(String),
}

/// The text that says that the day to stop at never comes.
pub open spec fn unreachable_day(target: nat, outcome: Seq<char>, day: nat) -> Seq<char> {
    "archipelago-game: error: --screenshot-at-day "@ + decimal(target)
        + " was requested, but the simulation reached a terminal outcome ("@ + outcome + ") at day "@ + decimal(day)
        + " - day "@ + decimal(target) + " is never reached, so no screenshot was captured."@
}

fn unreachable_day_text(target: u32, outcome: &str, day: u32) -> (text: String)
    ensures
        text@ == unreachable_day(target as nat, outcome@, day as nat),
{
    let target_text = decimal_text(target as usize);
    let mut text = "archipelago-game: error: --screenshot-at-day ".to_owned();
    text.append(target_text.as_str());
    text.append(" was requested, but the simulation reached a terminal outcome (");
    text.append(outcome);
    text.append(") at day ");
    text.append(decimal_text(day as usize).as_str());
    text.append(" - day ");
    text.append(target_text.as_str());
    text.append(" is never reached, so no screenshot was captured.");
    text
}

/// Whether the day to stop at can no longer come, because the game has ended.
pub open spec fn is_missed(frame: Frame, day: u32, ended: bool) -> bool {
    ended && frame.target is Some && !has_come(frame.target, day)
}

/// Whether another day is simulated in a frame.
pub open spec fn goes_on(frame: Frame, ended: bool) -> bool {
    frame.ticks_left > 0 && !ended
}

/// What is left of a frame once it is decided what to do next.
pub open spec fn after_step(frame: Frame, ended: bool) -> Frame {
    Frame {
        ticks_left: if goes_on(frame, ended) {
            (frame.ticks_left - 1) as u32
        } else {
            0
        },
        ..frame
    }
}

/// What is left of a frame at the end of a day: nothing, if the day to stop at has come.
pub open spec fn after_day(frame: Frame, day: u32) -> Frame {
    Frame {
        ticks_left: if has_come(frame.target, day) {
            0
        } else {
            frame.ticks_left
        },
        ..frame
    }
}

/// Decides what to do next in a frame. `ended` names the outcome of the game if it has ended.
pub fn next_step(frame: &mut Frame, day: u32, ended: &Option<String>) -> (step: Step)
    ensures
        step == Step::Tick <==> goes_on(*old(frame), ended is Some),
        step is Fail <==> old(frame).ticks_left > 0 && is_missed(*old(frame), day, ended is Some),
        step matches Step::Fail(text) ==> text@ == unreachable_day(
            old(frame).target->0 as nat,
            ended->0@,
            day as nat,
        ),
        *final(frame) == after_step(*old(frame), ended is Some),
{
    if frame.ticks_left == 0 {
        return Step::Done;
    }
    match ended {
        Some(outcome) => {
            frame.ticks_left = 0;
            match frame.target {
                Some(target) => if day < target {
                    Step::Fail(unreachable_day_text(target, outcome.as_str(), day))
                } else {
                    Step::Done
                },
                None => Step::Done,
            }
        },
        None => {
            frame.ticks_left = frame.ticks_left - 1;
            Step::Tick
        },
    }
}

/// Ends a day of a frame: when the day to stop at has come, the game pauses and the frame is over.
pub fn end_day(frame: &mut Frame, ui: &mut Ui, day: u32)
    ensures
        *final(frame) == after_day(*old(frame), day),
        *final(ui) == (Ui { paused: old(ui).paused || has_come(old(frame).target, day), ..*old(ui) }),
{
    if come(frame.target, day) {
        ui.paused = true;
        frame.ticks_left = 0;
    }
}

/// The day, and whether the game was paused, at the end of a frame, if the game ends on the day `end`.
pub open spec fn frame_end(frame: Frame, day: nat, end: Option<nat>) -> (nat, bool)
    decreases frame.ticks_left,
{
    if !goes_on(frame, end matches Some(e) && day >= e) {
        (day, false)
    } else {
        let next = after_day(after_step(frame, false), (day + 1) as u32);
        if has_come(frame.target, (day + 1) as u32) {
            (day + 1, true)
        } else {
            frame_end(next, day + 1, end)
        }
    }
}

/// A frame never runs past the day to stop at; it pauses on that very day, and on no other.
pub proof fn frames_stop_at_the_target(frame: Frame, day: nat, end: Option<nat>)
    requires
        frame.target matches Some(target) && day < target,
    ensures
        frame_end(frame, day, end).0 <= frame.target->0,
        frame_end(frame, day, end).1 <==> frame_end(frame, day, end).0 == frame.target->0,
    decreases frame.ticks_left,
{
    let next = after_day(after_step(frame, false), (day + 1) as u32);
    if goes_on(frame, end matches Some(e) && day >= e) && !has_come(frame.target, (day + 1) as u32) {
        frames_stop_at_the_target(next, day + 1, end);
    }
}

/// A frame that begins on the day to stop at, or after it, simulates nothing.
pub proof fn frames_do_not_start_past_the_target(ui: Ui, day: u32, target: u32, end: Option<nat>)
    requires
        target <= day,
    ensures
        frame_end(frame_of(ui, day, Some(target)), day as nat, end).0 == day,
{
}

/// Without a day to stop at, a frame runs as many days as the speed wants, but for the end of the
/// game.
pub proof fn frames_run_at_their_speed(frame: Frame, day: nat, end: Option<nat>)
    requires
        frame.target is None,
    ensures
        !frame_end(frame, day, end).1,
        frame_end(frame, day, end).0 == match end {
            Some(e) => if e <= day {
                day
            } else if e < day + frame.ticks_left {
                e
            } else {
                day + frame.ticks_left as nat
            },
            None => day + frame.ticks_left as nat,
        },
    decreases frame.ticks_left,
{
    if goes_on(frame, end matches Some(e) && day >= e) {
        frames_run_at_their_speed(after_day(after_step(frame, false), (day + 1) as u32), day + 1, end);
    }
}

/// A refused order of the played faction.
pub struct Refusal {
    pub action: Action,
    pub error: ActionError,
}

/// What a day brought: its events and, where a faction is played, the orders that it gave and those
/// that were refused.
pub struct DayReport {
    pub events: Vec<Event>,
    pub orders: Option<DayOrders>,
}

/// The orders of the played faction on a day.
pub struct DayOrders {
    pub given: Vec<Action>,
    pub refused: Vec<Refusal>,
}

/// What the client keeps of the days: the event log with the latest entry first, the orders refused
/// on the last day, the orders of all days if they are recorded, and the newspaper.
pub struct Journal {
    pub log: Vec<String>,
    pub rejections: Vec<Rejection>,
    pub record: Option<Vec<Vec<Action>>>,
    pub news: NewspaperState,
}

/// The log entry for an event.
pub open spec fn event_entry(world: World, event: Event) -> Seq<char> {
    decimal(world.day as nat) + "日目: "@ + event_text(world, event)
}

/// The log entry for a refused order.
pub open spec fn refusal_entry(world: World, refusal: Refusal) -> Seq<char> {
    decimal(world.day as nat) + "日目: 却下（"@ + target_text(target_of(refusal.action)) + "）: "@ + action_error_text(
        refusal.error,
    )
}

/// A log with the entries for some events put in front, one by one.
pub open spec fn with_events(world: World, events: Seq<Event>, before: Seq<Seq<char>>) -> Seq<Seq<char>>
    decreases events.len(),
{
    if events.len() == 0 {
        before
    } else {
        seq![event_entry(world, events.last())] + with_events(world, events.drop_last(), before)
    }
}

/// A log with the entries for some refused orders put in front, one by one.
pub open spec fn with_refusals(world: World, refused: Seq<Refusal>, before: Seq<Seq<char>>) -> Seq<Seq<char>>
    decreases refused.len(),
{
    if refused.len() == 0 {
        before
    } else {
        seq![refusal_entry(world, refused.last())] + with_refusals(world, refused.drop_last(), before)
    }
}

/// What is kept of a refused order.
pub open spec fn rejection_of(refusal: Refusal) -> Rejection {
    Rejection { target: target_of(refusal.action), error: refusal.error }
}

/// Whether everything that the events name exists.
pub open spec fn events_are_known(world: World, events: Seq<Event>) -> bool {
    forall|i: int| 0 <= i < events.len() ==> event_is_known(world, #[trigger] events[i])
}

fn put_in_front(log: &mut Vec<String>, line: String)
    ensures
        texts(final(log)@) == seq![line@] + texts(old(log)@),
{
    log.insert(0, line);
    assert(texts(log@) =~= seq![line@] + texts(old(log)@));
}

fn log_events(log: &mut Vec<String>, world: &World, events: &Vec<Event>)
    requires
        world.valid(),
        events_are_known(*world, events@),
    ensures
        texts(final(log)@) == with_events(*world, events@, texts(old(log)@)),
{
    let ghost before = texts(log@);
    let mut i: usize = 0;
    while i < events.len()
        invariant
            i <= events.len(),
            world.valid(),
            events_are_known(*world, events@),
            texts(log@) == with_events(*world, events@.take(i as int), before),
        decreases events.len() - i,
    {
        assert(events@.take(i + 1).drop_last() =~= events@.take(i as int));
        let mut line = decimal_text(world.day as usize);
        line.append("日目: ");
        line.append(format_event(world, &events[i]).as_str());
        put_in_front(log, line);
        i += 1;
    }
    assert(events@.take(i as int) =~= events@);
}

fn log_refusals(log: &mut Vec<String>, world: &World, refused: &Vec<Refusal>)
    ensures
        texts(final(log)@) == with_refusals(*world, refused@, texts(old(log)@)),
{
    let ghost before = texts(log@);
    let mut i: usize = 0;
    while i < refused.len()
        invariant
            i <= refused.len(),
            texts(log@) == with_refusals(*world, refused@.take(i as int), before),
        decreases refused.len() - i,
    {
        assert(refused@.take(i + 1).drop_last() =~= refused@.take(i as int));
        let mut line = decimal_text(world.day as usize);
        line.append("日目: 却下（");
        line.append(rejection_target_ja(rejection_target_of(&refused[i].action)));
        line.append("）: ");
        line.append(action_error_ja(refused[i].error));
        put_in_front(log, line);
        i += 1;
    }
    assert(refused@.take(i as int) =~= refused@);
}

fn rejections_of(refused: &Vec<Refusal>) -> (rejections: Vec<Rejection>)
    ensures
        rejections@ == Seq::new(refused@.len(), |i: int| rejection_of(refused@[i])),
{
    let mut rejections: Vec<Rejection> = Vec::new();
    let mut i: usize = 0;
    while i < refused.len()
        invariant
            i <= refused.len(),
            rejections.len() == i,
            forall|k: int| 0 <= k < i ==> #[trigger] rejections@[k] == rejection_of(refused@[k]),
        decreases refused.len() - i,
    {
        rejections.push(
            Rejection { target: rejection_target_of(&refused[i].action), error: refused[i].error },
        );
        i += 1;
    }
    rejections
}

/// The log after a day: first the day's events were put in front, then the refused orders.
pub open spec fn log_after(world: World, report: DayReport, before: Seq<Seq<char>>) -> Seq<Seq<char>> {
    let logged = with_events(world, report.events@, before);
    match report.orders {
        Some(orders) => with_refusals(world, orders.refused@, logged),
        None => logged,
    }
}

pub(crate) proof fn refusals_come_in_front(world: World, refused: Seq<Refusal>, before: Seq<Seq<char>>)
    ensures
        with_refusals(world, refused, before).len() == refused.len() + before.len(),
        with_refusals(world, refused, before).skip(refused.len() as int) == before,
        forall|i: int|
            0 <= i < refused.len() ==> with_refusals(world, refused, before)[refused.len() - 1 - i] == refusal_entry(
                world,
                #[trigger] refused[i],
            ),
    decreases refused.len(),
{
    let all = with_refusals(world, refused, before);
    if refused.len() == 0 {
        assert(all.skip(0) =~= before);
    } else {
        let rest = refused.drop_last();
        refusals_come_in_front(world, rest, before);
        assert(all.skip(refused.len() as int) =~= with_refusals(world, rest, before).skip(rest.len() as int));
        assert forall|i: int| 0 <= i < refused.len() implies all[refused.len() - 1 - i] == refusal_entry(
            world,
            #[trigger] refused[i],
        ) by {
            if i < rest.len() {
                assert(rest[i] == refused[i]);
            }
        }
    }
}

pub(crate) proof fn events_come_in_front(world: World, events: Seq<Event>, before: Seq<Seq<char>>)
    ensures
        with_events(world, events, before).len() == events.len() + before.len(),
        with_events(world, events, before).skip(events.len() as int) == before,
    decreases events.len(),
{
    let all = with_events(world, events, before);
    if events.len() == 0 {
        assert(all.skip(0) =~= before);
    } else {
        let rest = events.drop_last();
        events_come_in_front(world, rest, before);
        assert(all.skip(events.len() as int) =~= with_events(world, rest, before).skip(rest.len() as int));
    }
}

/// Every refused order of a day is in the log after it.
pub proof fn refused_orders_are_logged(world: World, report: DayReport, before: Seq<Seq<char>>, i: int)
    requires
        report.orders matches Some(orders) && 0 <= i < orders.refused@.len(),
    ensures
        log_after(world, report, before).contains(refusal_entry(world, report.orders->0.refused@[i])),
{
    let refused = report.orders->0.refused@;
    let logged = with_events(world, report.events@, before);
    refusals_come_in_front(world, refused, logged);
    assert(log_after(world, report, before)[refused.len() - 1 - i] == refusal_entry(world, refused[i]));
}

/// What the log held before a day stands unchanged below the entries of that day.
pub proof fn earlier_entries_stay(world: World, report: DayReport, before: Seq<Seq<char>>)
    ensures
        log_after(world, report, before).len() >= before.len(),
        log_after(world, report, before).skip(log_after(world, report, before).len() - before.len()) == before,
{
    let logged = with_events(world, report.events@, before);
    let all = log_after(world, report, before);
    events_come_in_front(world, report.events@, before);
    match report.orders {
        Some(orders) => {
            refusals_come_in_front(world, orders.refused@, logged);
            assert(all.skip(all.len() - before.len()) =~= all.skip(orders.refused@.len() as int).skip(
                report.events@.len() as int,
            ));
        },
        None => {},
    }
}

/// Keeps what a day brought. `world` is the world at the end of the day. The refused orders of the
/// day take the place of the earlier ones; the given ones are added to the recording.
pub fn keep_day(journal: &mut Journal, world: &World, report: DayReport)
    requires
        world.valid(),
        events_are_known(*world, report.events@),
    ensures
        texts(final(journal).log@) == log_after(*world, report, texts(old(journal).log@)),
        final(journal).rejections@ == match report.orders {
            Some(orders) => Seq::new(orders.refused@.len(), |i: int| rejection_of(orders.refused@[i])),
            None => old(journal).rejections@,
        },
        match (old(journal).record, report.orders) {
            (Some(days), Some(orders)) => final(journal).record matches Some(after) && after@ == days@.push(
                orders.given,
            ),
            _ => final(journal).record == old(journal).record,
        },
        final(journal).news.period_events@ == old(journal).news.period_events@ + report.events@,
        final(journal).news.history == old(journal).news.history,
        final(journal).news.period_start == old(journal).news.period_start,
{
    log_events(&mut journal.log, world, &report.events);
    let mut events = report.events;
    journal.news.period_events.append(&mut events);
    if let Some(orders) = report.orders {
        log_refusals(&mut journal.log, world, &orders.refused);
        journal.rejections = rejections_of(&orders.refused);
        if let Some(days) = &mut journal.record {
            days.push(orders.given);
        }
    }
}

/// The entries of a log that are kept: the newest, which stand first.
pub open spec fn kept(log: Seq<String>) -> Seq<String> {
    if log.len() > EVENT_LOG_CAPACITY {
        log.take(EVENT_LOG_CAPACITY as int)
    } else {
        log
    }
}

/// Drops the oldest entries of a log that holds too many.
pub fn trim_log(log: &mut Vec<String>)
    ensures
        final(log)@ == kept(old(log)@),
        final(log)@ == if old(log)@.len() > EVENT_LOG_CAPACITY {
            old(log)@.take(EVENT_LOG_CAPACITY as int)
        } else {
            old(log)@
        },
{
    if log.len() > EVENT_LOG_CAPACITY {
        log.truncate(EVENT_LOG_CAPACITY);
    }
}

} // verus!
