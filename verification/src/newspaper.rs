//! The newspaper: one issue for every period of the game.
use crate::event_text::Event;
use crate::types::FactionId;
use vstd::prelude::*;

verus! {

/// What the newspaper of a faction writes in an issue.
pub struct Article {
    pub faction: FactionId,
    pub text: String,
}

/// An issue of the newspaper.
pub struct NewspaperIssue {
    pub period_start: u32,
    pub period_end: u32,
    pub articles: Vec<Article>,
}

/// The issues so far, and what the next one will report.
pub struct NewspaperState {
    pub history: Vec<NewspaperIssue>,
    pub period_start: u32,
    pub period_events: Vec<Event>,
}

impl NewspaperState {
    /// What holds of every newspaper: each issue begins on the day that the one before it ended on,
    /// and the period under way begins where the latest issue ended.
    pub open spec fn gapless(&self) -> bool {
        &&& (forall|i: int, j: int|
            0 <= i && j == i + 1 && j < self.history@.len() ==> (#[trigger] self.history@[j]).period_start
                == (#[trigger] self.history@[i]).period_end)
        &&& (self.history@.len() > 0 ==> self.history@.last().period_end == self.period_start)
    }

    /// A newspaper without an issue, on the day that the game starts.
    pub fn new(start_day: u32) -> (news: NewspaperState)
        ensures
            news.history@.len() == 0,
            news.period_events@.len() == 0,
            news.period_start == start_day,
            news.gapless(),
    {
        NewspaperState { history: Vec::new(), period_start: start_day, period_events: Vec::new() }
    }
}

/// Whether an issue comes out at the end of a day.
pub open spec fn comes_out(day: int, interval: int) -> bool {
    day % interval == 0
}

/// The issue of a period.
pub open spec fn issue_of(period_start: u32, day: u32, articles: Vec<Article>) -> NewspaperIssue {
    NewspaperIssue { period_start, period_end: day, articles }
}

/// Whether an issue comes out at the end of a day.
pub fn issue_due(day: u32, interval: u32) -> (due: bool)
    requires
        interval > 0,
    ensures
        due == (day % interval == 0),
        due == comes_out(day as int, interval as int),
{
    day % interval == 0
}

/// Publishes an issue with the given articles, and begins the next period.
pub fn publish_issue(news: &mut NewspaperState, day: u32, articles: Vec<Article>)
    ensures
        final(news).history@ == old(news).history@.push(
            NewspaperIssue { period_start: old(news).period_start, period_end: day, articles },
        ),
        final(news).history@.last() == issue_of(old(news).period_start, day, articles),
        final(news).period_events@.len() == 0,
        final(news).period_start == day,
        old(news).gapless() ==> final(news).gapless(),
{
    let issue = NewspaperIssue { period_start: news.period_start, period_end: day, articles };
    news.history.push(issue);
    news.period_events.clear();
    news.period_start = day;
}

} // verus!
