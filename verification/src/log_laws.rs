//! What the log tells, and where refusals are told.
use crate::client::{Speed, Ui};
use crate::event_text::{event_text, Event};
use crate::newspaper::{comes_out, issue_of, Article};
use crate::rejection::{
    action_error_text, panel_rejection, reasons_for, target_of, target_text, ActionError, Rejection, RejectionTarget,
};
use crate::sim_control::{
    after_day, after_step, event_entry, events_come_in_front, frame_of, goes_on, kept, log_after, refusal_entry, refusals_come_in_front, rejection_of, with_events,
    DayReport, Frame, Refusal,
};
use crate::text::{decimal, joined};
use crate::types::Action;
use crate::world::World;
use vstd::prelude::*;

verus! {

/// Every reason for a refusal is told in its own words.
pub proof fn reasons_are_told_in_their_words()
    ensures
        action_error_text(ActionError::NotOwner) == "自分の部隊・地域ではない"@,
        action_error_text(ActionError::UnitDead) == "その部隊は存在しない（すでに撃破された）"@,
        action_error_text(ActionError::NotAdjacent) == "隣接していない、または輸送手段がない"@,
        action_error_text(ActionError::Pinned) == "敵部隊がいるため移動できない"@,
        action_error_text(ActionError::RegionNotOwned) == "自国の地域ではない"@,
        action_error_text(ActionError::RegionContested) == "地域が係争中（敵部隊がいる）"@,
        action_error_text(ActionError::InsufficientManpower) == "人的資源が不足している"@,
        action_error_text(ActionError::InsufficientEquipment) == "装備が不足している"@,
        action_error_text(ActionError::InvalidValue) == "指定した値が範囲外"@,
        action_error_text(ActionError::AlreadyBuilding) == "この地域はすでに建設中"@,
        action_error_text(ActionError::NoConstruction) == "この地域に建設中の工事がない"@,
        action_error_text(ActionError::NoPort) == "この地域に港湾がない"@,
        action_error_text(ActionError::NoAirfield) == "この地域に飛行場がない"@,
        action_error_text(ActionError::InsufficientMachinery) == "機械が不足している"@,
        action_error_text(ActionError::InvalidLine) == "指定した輸送路線が存在しない"@,
        action_error_text(ActionError::LineNotOwned) == "自国の輸送路線ではない"@,
        action_error_text(ActionError::LineNotHostile) == "交戦中の敵の輸送路線ではない"@,
        action_error_text(ActionError::InvalidNode) == "指定した輸送ノードが存在しない"@,
        action_error_text(ActionError::NodeNotStrikeable) == "飛行場・港以外は攻撃対象にできない"@,
        action_error_text(ActionError::NodeNotHostile) == "交戦中の敵の拠点ではない"@,
        action_error_text(ActionError::NoAircraftInRange) == "攻撃範囲に航空部隊がいない"@,
        action_error_text(ActionError::NoForceInRange) == "攻撃範囲に部隊がいない"@,
{
}

/// A refused order is told at the panel that it comes from: an order to a unit at the units; one about a region
/// at that region; one of the policy, or an attack, at the policy; one to another faction at the diplomacy.
pub proof fn refusals_are_told_where_orders_come_from(action: Action)
    ensures
        target_of(action) == match action {
            Action::MoveUnit { .. } | Action::HoldUnit { .. } | Action::ReinforceUnit { .. } | Action::DisbandUnit { .. } => RejectionTarget::Unit,
            Action::RecruitUnit { region, .. } => RejectionTarget::Region(region),
            Action::Build { region, .. } => RejectionTarget::Region(region),
            Action::CancelBuild { region } => RejectionTarget::Region(region),
            Action::ProposeTreaty { .. } | Action::AcceptTreaty { .. } | Action::RejectTreaty { .. } | Action::DeclareWar { .. } | Action::BreakTreaty { .. } | Action::ProposeInNaturalLanguage { .. } | Action::RespondToNaturalLanguageProposal { .. } => RejectionTarget::Diplomacy,
            _ => RejectionTarget::Policy,
        },
        target_text(RejectionTarget::Unit) == "部隊"@,
        target_text(RejectionTarget::Policy) == "政策"@,
        target_text(RejectionTarget::Diplomacy) == "外交"@,
        target_of(action) is Region ==> target_text(target_of(action)) == "地域"@,
{
}

/// An entry of the log begins with the day. That of an event goes on with the event's line; that of a refused
/// order says where it comes from and why it was refused.
pub proof fn entries_begin_with_the_day(world: World, event: Event, refusal: Refusal)
    ensures
        event_entry(world, event) == decimal(world.day as nat) + "日目: "@ + event_text(world, event),
        refusal_entry(world, refusal) == decimal(world.day as nat) + "日目: 却下（"@ + target_text(target_of(refusal.action))
            + "）: "@ + action_error_text(refusal.error),
        rejection_of(refusal).target == target_of(refusal.action),
        rejection_of(refusal).error == refusal.error,
{
}

proof fn lemma_events_in_order(world: World, events: Seq<Event>, before: Seq<Seq<char>>)
    ensures
        with_events(world, events, before).len() == events.len() + before.len(),
        forall|i: int|
            0 <= i < events.len() ==> with_events(world, events, before)[events.len() - 1 - i] == event_entry(
                world,
                #[trigger] events[i],
            ),
    decreases events.len(),
{
    if events.len() > 0 {
        let rest = events.drop_last();
        let all = with_events(world, events, before);
        lemma_events_in_order(world, rest, before);
        assert forall|i: int| 0 <= i < events.len() implies all[events.len() - 1 - i] == event_entry(
            world,
            #[trigger] events[i],
        ) by {
            if i < rest.len() {
                assert(rest[i] == events[i]);
            }
        }
    }
}

/// The log shows the newest first: the refused orders of the day, the last one on top; then its events, the last
/// one on top; then what was there before.
pub proof fn the_newest_stands_on_top(world: World, report: DayReport, before: Seq<Seq<char>>)
    ensures
        ({
            let log = log_after(world, report, before);
            let refused = match report.orders {
                Some(orders) => orders.refused@,
                None => Seq::empty(),
            };
            let (r, e) = (refused.len() as int, report.events@.len() as int);
            &&& log.len() == r + e + before.len()
            &&& forall|i: int| 0 <= i < r ==> log[r - 1 - i] == refusal_entry(world, #[trigger] refused[i])
            &&& forall|i: int| 0 <= i < e ==> log[r + e - 1 - i] == event_entry(world, #[trigger] report.events@[i])
            &&& forall|i: int| 0 <= i < before.len() ==> log[r + e + i] == #[trigger] before[i]
        }),
{
    let log = log_after(world, report, before);
    let logged = with_events(world, report.events@, before);
    let e = report.events@.len() as int;
    events_come_in_front(world, report.events@, before);
    lemma_events_in_order(world, report.events@, before);
    assert forall|i: int| 0 <= i < before.len() implies logged[e + i] == #[trigger] before[i] by {
        assert(logged.skip(e)[i] == before[i]);
    }
    if let Some(orders) = report.orders {
        let r = orders.refused@.len() as int;
        refusals_come_in_front(world, orders.refused@, logged);
        assert forall|i: int| 0 <= i < e implies log[r + e - 1 - i] == event_entry(world, #[trigger] report.events@[i]) by {
            assert(log.skip(r)[e - 1 - i] == logged[e - 1 - i]);
        }
        assert forall|i: int| 0 <= i < before.len() implies log[r + e + i] == #[trigger] before[i] by {
            assert(log.skip(r)[e + i] == logged[e + i]);
        }
    }
}

proof fn lemma_reasons(rejections: Seq<Rejection>, target: RejectionTarget, reason: Seq<char>)
    ensures
        reasons_for(rejections, target).contains(reason) <==> exists|i: int|
            0 <= i < rejections.len() && (#[trigger] rejections[i]).target == target && action_error_text(rejections[i].error)
                == reason,
    decreases rejections.len(),
{
    if rejections.len() > 0 {
        let rest = rejections.drop_last();
        let last = rejections.last();
        lemma_reasons(rest, target, reason);
        let before = reasons_for(rest, target);
        let all = reasons_for(rejections, target);
        if exists|i: int|
            0 <= i < rest.len() && (#[trigger] rest[i]).target == target && action_error_text(rest[i].error) == reason {
            let i = choose|i: int|
                0 <= i < rest.len() && (#[trigger] rest[i]).target == target && action_error_text(rest[i].error) == reason;
            assert(rejections[i] == rest[i]);
        }
        if last.target == target {
            let told = action_error_text(last.error);
            assert(all == before.push(told));
            assert(all[before.len() as int] == told);
            if before.contains(reason) {
                let k = choose|k: int| 0 <= k < before.len() && before[k] == reason;
                assert(all[k] == reason);
            }
            if all.contains(reason) {
                let k = choose|k: int| 0 <= k < all.len() && all[k] == reason;
                if k < before.len() {
                    assert(before[k] == reason);
                } else {
                    assert(rejections[rejections.len() - 1] == last);
                }
            }
            if told == reason {
                assert(all.contains(reason));
                assert(rejections[rejections.len() - 1] == last);
            }
        }
        if exists|i: int|
            0 <= i < rejections.len() && (#[trigger] rejections[i]).target == target && action_error_text(rejections[i].error)
                == reason {
            let i = choose|i: int|
                0 <= i < rejections.len() && (#[trigger] rejections[i]).target == target && action_error_text(
                    rejections[i].error,
                ) == reason;
            if i < rest.len() {
                assert(rest[i] == rejections[i]);
            }
        }
    }
}

/// A panel tells exactly the reasons of the refusals that belong to it, under a warning, and nothing where
/// there is none.
pub proof fn panels_tell_their_own_refusals(rejections: Seq<Rejection>, target: RejectionTarget, reason: Seq<char>)
    ensures
        reasons_for(rejections, target).contains(reason) <==> exists|i: int|
            0 <= i < rejections.len() && (#[trigger] rejections[i]).target == target && action_error_text(rejections[i].error)
                == reason,
        reasons_for(rejections, target).len() == 0 ==> panel_rejection(rejections, target).len() == 0,
        reasons_for(rejections, target).len() > 0 ==> panel_rejection(rejections, target) == "!! 却下 !!\n"@ + joined(
            reasons_for(rejections, target),
            "\n"@,
        ),
{
    lemma_reasons(rejections, target, reason);
}

/// How many days pass in a frame at each speed; none while paused, nor once the wanted day has come.
pub proof fn speeds_are_days_per_frame(ui: Ui, day: u32, target: u32)
    ensures
        Speed::Paused.days() == 0,
        Speed::X1.days() == 1,
        Speed::X5.days() == 5,
        Speed::X20.days() == 20,
        ui.paused ==> frame_of(ui, day, None).ticks_left == 0,
        !ui.paused ==> frame_of(ui, day, None).ticks_left == ui.last_active.days(),
        target <= day ==> frame_of(ui, day, Some(target)).ticks_left == 0,
        day < target ==> frame_of(ui, day, Some(target)).ticks_left == frame_of(ui, day, None).ticks_left,
        Speed::Paused.name_text() == "paused"@,
        Speed::X1.name_text() == "1x"@,
        Speed::X5.name_text() == "5x"@,
        Speed::X20.name_text() == "20x"@,
{
}

/// The log keeps its fourteen newest entries, which stand first, in their order.
pub proof fn the_newest_entries_are_kept(log: Seq<String>, i: int)
    ensures
        log.len() <= 14 ==> kept(log) == log,
        log.len() > 14 ==> kept(log).len() == 14,
        0 <= i < 14 && i < log.len() ==> kept(log)[i] == log[i],
{
}

/// An issue comes out on the first day of all, and from one issue to the next it takes as many days as it covers.
pub proof fn issues_come_out_regularly(day: int, later: int, interval: int)
    requires
        interval > 0,
        comes_out(day, interval),
        day < later < day + interval,
    ensures
        comes_out(0, interval),
        comes_out(day + interval, interval),
        !comes_out(later, interval),
{
    vstd::arithmetic::div_mod::lemma_small_mod(0, interval as nat);
    vstd::arithmetic::div_mod::lemma_mod_add_multiples_vanish(day, interval);
    vstd::arithmetic::div_mod::lemma_add_mod_noop(day, later - day, interval);
    vstd::arithmetic::div_mod::lemma_small_mod((later - day) as nat, interval as nat);
}

/// An issue covers the days from the beginning of its period to the day that it comes out on, with its articles.
pub proof fn issues_cover_their_period(period_start: u32, day: u32, articles: Vec<Article>)
    ensures
        issue_of(period_start, day, articles).period_start == period_start,
        issue_of(period_start, day, articles).period_end == day,
        issue_of(period_start, day, articles).articles == articles,
{
}

/// A frame goes on while it has days left and the game has not ended, a day less after each; when it does not go on, or
/// the day to stop at has come, no day is left. The day to stop at stays.
pub proof fn frames_count_their_days(frame: Frame, day: u32, ended: bool)
    ensures
        goes_on(frame, ended) <==> frame.ticks_left > 0 && !ended,
        goes_on(frame, ended) ==> after_step(frame, ended).ticks_left == frame.ticks_left - 1,
        !goes_on(frame, ended) ==> after_step(frame, ended).ticks_left == 0,
        after_step(frame, ended).target == frame.target && after_day(frame, day).target == frame.target,
        (frame.target matches Some(d) && d <= day) ==> after_day(frame, day).ticks_left == 0,
        (frame.target matches Some(d) ==> day < d) ==> after_day(frame, day).ticks_left == frame.ticks_left,
{
}

} // verus!
