//! Whole recordings: lists of days, with or without a declaration of the layers they speak for.
use crate::action_codec::{action_from_value, action_of, action_to_value, action_value, after, layer_from_key, layer_named};
use crate::text::{decimal, decimal_text, quote, quoting};
use crate::types::{Action, ActionView, Layer};
use crate::value::{object2, values_view, Value, ValueView};
use vstd::prelude::*;

verus! {

/// What the actions of a day order.
pub open spec fn day_view(day: Seq<Action>) -> Seq<ActionView> {
    Seq::new(day.len(), |i: int| day[i]@)
}

/// What the actions of every day order.
pub open spec fn days_view(days: Seq<Vec<Action>>) -> Seq<Seq<ActionView>> {
    Seq::new(days.len(), |i: int| day_view(days[i]@))
}

/// The recorded form of a day: the list of its actions.
pub open spec fn day_value(day: Seq<ActionView>) -> ValueView {
    ValueView::Array(Seq::new(day.len(), |i: int| action_value(day[i])))
}

/// The recorded form of a list of days: a list of lists.
pub open spec fn days_value(days: Seq<Seq<ActionView>>) -> ValueView {
    ValueView::Array(Seq::new(days.len(), |i: int| day_value(days[i])))
}

fn day_to_value(day: &Vec<Action>) -> (value: Value)
    ensures
        value@ == day_value(day_view(day@)),
{
    let mut items: Vec<Value> = Vec::new();
    let mut i: usize = 0;
    while i < day.len()
        invariant
            i <= day.len(),
            items.len() == i,
            forall|k: int| 0 <= k < i ==> (#[trigger] items@[k])@ == action_value(day@[k]@),
        decreases day.len() - i,
    {
        items.push(action_to_value(&day[i]));
        i += 1;
    }
    assert(values_view(items@) =~= Seq::new(day.len() as nat, |k: int| action_value(day_view(day@)[k])));
    Value::arr(items)
}

fn days_to_value(days: &[Vec<Action>]) -> (value: Value)
    ensures
        value@ == days_value(days_view(days@)),
{
    let mut items: Vec<Value> = Vec::new();
    let mut i: usize = 0;
    while i < days.len()
        invariant
            i <= days.len(),
            items.len() == i,
            forall|k: int| 0 <= k < i ==> (#[trigger] items@[k])@ == day_value(day_view(days@[k]@)),
        decreases days.len() - i,
    {
        items.push(day_to_value(&days[i]));
        i += 1;
    }
    assert(values_view(items@) =~= Seq::new(days@.len(), |k: int| day_value(days_view(days@)[k])));
    Value::arr(items)
}

/// Records a full run, one list of actions per day.
pub fn encode_days(days: &[Vec<Action>]) -> (value: Value)
    ensures
        value@ == days_value(days_view(days@)),
{
    days_to_value(days)
}

/// The actions `j` and later of day `i`; the first one that cannot be read gives the reason.
pub open spec fn day_from(items: Seq<ValueView>, i: nat, j: nat) -> Result<Seq<ActionView>, Seq<char>>
    decreases items.len() - j,
{
    if j >= items.len() {
        Ok(Seq::empty())
    } else {
        match action_of(items[j as int]) {
            Err(e) => Err("day "@ + decimal(i) + " action "@ + decimal(j) + ": "@ + e),
            Ok(action) => after(seq![action], day_from(items, i, j + 1)),
        }
    }
}

/// The days `i` and later; the first day or action that cannot be read gives the reason.
pub open spec fn days_from(items: Seq<ValueView>, i: nat) -> Result<Seq<Seq<ActionView>>, Seq<char>>
    decreases items.len() - i,
{
    if i >= items.len() {
        Ok(Seq::empty())
    } else {
        match items[i as int].as_array() {
            None => Err("day "@ + decimal(i) + ": expected an array of actions"@),
            Some(actions) => match day_from(actions, i, 0) {
                Err(e) => Err(e),
                Ok(day) => after(seq![day], days_from(items, i + 1)),
            },
        }
    }
}

/// The days that a recorded value stands for.
pub open spec fn days_of(v: ValueView) -> Result<Seq<Seq<ActionView>>, Seq<char>> {
    match v.as_array() {
        None => Err("expected a JSON array of days"@),
        Some(items) => days_from(items, 0),
    }
}

/// The outcome of reading a day.
pub open spec fn day_outcome(result: Result<Vec<Action>, String>) -> Result<Seq<ActionView>, Seq<char>> {
    match result {
        Ok(day) => Ok(day_view(day@)),
        Err(reason) => Err(reason@),
    }
}

/// The outcome of reading a list of days.
pub open spec fn days_outcome(result: Result<Vec<Vec<Action>>, String>) -> Result<Seq<Seq<ActionView>>, Seq<char>> {
    match result {
        Ok(days) => Ok(days_view(days@)),
        Err(reason) => Err(reason@),
    }
}

fn bad_day(i: usize) -> (reason: String)
    ensures
        reason@ == "day "@ + decimal(i as nat) + ": expected an array of actions"@,
{
    let mut reason = "day ".to_owned();
    reason.append(decimal_text(i).as_str());
    reason.append(": expected an array of actions");
    reason
}

fn bad_action(i: usize, j: usize, cause: &str) -> (reason: String)
    ensures
        reason@ == "day "@ + decimal(i as nat) + " action "@ + decimal(j as nat) + ": "@ + cause@,
{
    let mut reason = "day ".to_owned();
    reason.append(decimal_text(i).as_str());
    reason.append(" action ");
    reason.append(decimal_text(j).as_str());
    reason.append(": ");
    reason.append(cause);
    reason
}

fn day_from_values(items: &Vec<Value>, i: usize) -> (day: Result<Vec<Action>, String>)
    ensures
        day_outcome(day) == day_from(values_view(items@), i as nat, 0),
{
    let mut actions: Vec<Action> = Vec::new();
    let mut j: usize = 0;
    let ghost all = values_view(items@);
    proof {
        if let Ok(rest) = day_from(all, i as nat, 0) {
            assert(day_view(actions@) + rest =~= rest);
        }
    }
    while j < items.len()
        invariant
            j <= items.len(),
            all == values_view(items@),
            day_from(all, i as nat, 0) == after(day_view(actions@), day_from(all, i as nat, j as nat)),
        decreases items.len() - j,
    {
        assert(all[j as int] == items@[j as int]@);
        match action_from_value(&items[j]) {
            Err(e) => return Err(bad_action(i, j, e.as_str())),
            Ok(action) => {
                let ghost before = actions@;
                actions.push(action);
                proof {
                    assert(day_view(actions@) =~= day_view(before).push(action@));
                    if let Ok(later) = day_from(all, i as nat, (j + 1) as nat) {
                        assert(day_view(before) + (seq![action@] + later) =~= day_view(actions@) + later);
                    }
                }
            },
        }
        j += 1;
    }
    assert(day_view(actions@) + Seq::<ActionView>::empty() =~= day_view(actions@));
    Ok(actions)
}

fn days_from_value(value: &Value) -> (days: Result<Vec<Vec<Action>>, String>)
    ensures
        days_outcome(days) == days_of(value@),
{
    let items = match value.as_array() {
        Some(items) => items,
        None => return Err("expected a JSON array of days".to_owned()),
    };
    let mut days: Vec<Vec<Action>> = Vec::new();
    let mut i: usize = 0;
    let ghost all = values_view(items@);
    proof {
        if let Ok(rest) = days_from(all, 0) {
            assert(days_view(days@) + rest =~= rest);
        }
    }
    while i < items.len()
        invariant
            i <= items.len(),
            all == values_view(items@),
            days_of(value@) == days_from(all, 0),
            days_from(all, 0) == after(days_view(days@), days_from(all, i as nat)),
        decreases items.len() - i,
    {
        assert(all[i as int] == items@[i as int]@);
        let actions = match items[i].as_array() {
            Some(actions) => actions,
            None => return Err(bad_day(i)),
        };
        match day_from_values(actions, i) {
            Err(e) => return Err(e),
            Ok(day) => {
                let ghost before = days@;
                days.push(day);
                proof {
                    assert(days_view(days@) =~= days_view(before).push(day_view(day@)));
                    if let Ok(later) = days_from(all, (i + 1) as nat) {
                        assert(days_view(before) + (seq![day_view(day@)] + later) =~= days_view(days@) + later);
                    }
                }
            },
        }
        i += 1;
    }
    assert(days_view(days@) + Seq::<Seq<ActionView>>::empty() =~= days_view(days@));
    Ok(days)
}

/// What a recording holds, given the outcome of reading its text as a value.
pub open spec fn recording_of(parsed: Result<Value, String>) -> Result<Seq<Seq<ActionView>>, Seq<char>> {
    match parsed {
        Err(reason) => Err(reason@),
        Ok(value) => match days_of(value@) {
            Err(e) => Err("recording must be a top-level JSON array (one entry per day): "@ + e),
            Ok(days) => Ok(days),
        },
    }
}

/// Reads a recording back, given the outcome of reading its text as a value. Anything but a list of
/// lists of actions is refused with a reason.
pub fn decode_days(parsed: Result<Value, String>) -> (days: Result<Vec<Vec<Action>>, String>)
    ensures
        days_outcome(days) == recording_of(parsed),
{
    match parsed {
        Err(reason) => Err(reason),
        Ok(value) => match days_from_value(&value) {
            Err(e) => {
                let mut reason = "recording must be a top-level JSON array (one entry per day): ".to_owned();
                reason.append(e.as_str());
                Err(reason)
            },
            Ok(days) => Ok(days),
        },
    }
}

/// Every layer.
pub open spec fn all_layers() -> Seq<Layer> {
    seq![Layer::Military, Layer::Economy, Layer::Diplomacy]
}

fn every_layer() -> (layers: Vec<Layer>)
    ensures
        layers@ == all_layers(),
{
    let mut layers: Vec<Layer> = Vec::new();
    layers.push(Layer::Military);
    layers.push(Layer::Economy);
    layers.push(Layer::Diplomacy);
    assert(layers@ =~= all_layers());
    layers
}

/// The recorded form of a list of layers: the list of their names.
pub open spec fn layers_value(layers: Seq<Layer>) -> ValueView {
    ValueView::Array(Seq::new(layers.len(), |i: int| ValueView::Text(layers[i].key_text())))
}

/// The recorded form of a run that speaks for some layers only.
pub open spec fn scoped_value(layers: Seq<Layer>, days: Seq<Seq<ActionView>>) -> ValueView {
    ValueView::Object(seq![("layers"@, layers_value(layers)), ("days"@, days_value(days))])
}

/// Records a run together with the layers that its author declares it to drive.
pub fn encode_scoped_days(layers: &[Layer], days: &[Vec<Action>]) -> (value: Value)
    ensures
        value@ == scoped_value(layers@, days_view(days@)),
{
    let mut names: Vec<Value> = Vec::new();
    let mut i: usize = 0;
    while i < layers.len()
        invariant
            i <= layers.len(),
            names.len() == i,
            forall|k: int| 0 <= k < i ==> (#[trigger] names@[k])@ == ValueView::Text(layers@[k].key_text()),
        decreases layers.len() - i,
    {
        names.push(Value::str(layers[i].key()));
        i += 1;
    }
    assert(values_view(names@) =~= Seq::new(layers@.len(), |k: int| ValueView::Text(layers@[k].key_text())));
    object2("layers", Value::arr(names), "days", days_to_value(days))
}

/// The layers that a list of recorded values names from entry `i` on, where `done` are those named
/// before: each entry a text, each text a layer, no layer twice.
pub open spec fn layers_from(items: Seq<ValueView>, i: nat, done: Seq<Layer>) -> Result<Seq<Layer>, Seq<char>>
    decreases items.len() - i,
{
    if i >= items.len() {
        Ok(done)
    } else {
        match items[i as int].as_str() {
            None => Err("`layers` entries must be strings"@),
            Some(key) => match layer_named(key) {
                Err(e) => Err(e),
                Ok(layer) => if done.contains(layer) {
                    Err(quoting("`layers` names "@, key) + " more than once"@)
                } else {
                    layers_from(items, i + 1, done.push(layer))
                },
            },
        }
    }
}

fn has_layer(layers: &Vec<Layer>, layer: Layer) -> (found: bool)
    ensures
        found == layers@.contains(layer),
{
    let mut i: usize = 0;
    while i < layers.len()
        invariant
            i <= layers.len(),
            forall|k: int| 0 <= k < i ==> layers@[k] != layer,
        decreases layers.len() - i,
    {
        if layers[i] == layer {
            return true;
        }
        i += 1;
    }
    false
}

/// The outcome of reading a list of layers.
pub open spec fn layers_outcome(result: Result<Vec<Layer>, String>) -> Result<Seq<Layer>, Seq<char>> {
    match result {
        Ok(layers) => Ok(layers@),
        Err(reason) => Err(reason@),
    }
}

fn layers_from_values(items: &Vec<Value>) -> (layers: Result<Vec<Layer>, String>)
    ensures
        layers_outcome(layers) == layers_from(values_view(items@), 0, Seq::empty()),
{
    let mut layers: Vec<Layer> = Vec::new();
    let mut i: usize = 0;
    let ghost all = values_view(items@);
    assert(layers@ =~= Seq::empty());
    while i < items.len()
        invariant
            i <= items.len(),
            all == values_view(items@),
            layers_from(all, 0, Seq::empty()) == layers_from(all, i as nat, layers@),
        decreases items.len() - i,
    {
        assert(all[i as int] == items@[i as int]@);
        let key = match items[i].as_str() {
            Some(key) => key,
            None => return Err("`layers` entries must be strings".to_owned()),
        };
        let layer = match layer_from_key(key) {
            Ok(layer) => layer,
            Err(e) => return Err(e),
        };
        if has_layer(&layers, layer) {
            let mut reason = quote("`layers` names ", key);
            reason.append(" more than once");
            return Err(reason);
        }
        layers.push(layer);
        i += 1;
    }
    Ok(layers)
}

/// What a replay holds, given the outcome of reading its text as a value: the layers it claims, and
/// its days.
pub open spec fn replay_of(parsed: Result<Value, String>) -> Result<(Seq<Layer>, Seq<Seq<ActionView>>), Seq<char>> {
    match parsed {
        Err(reason) => Err(reason@),
        Ok(value) => replay_in(value@),
    }
}

/// What a replay holds: a bare list of days claims every layer; an object claims the layers that it
/// declares, and must declare them.
pub open spec fn replay_in(v: ValueView) -> Result<(Seq<Layer>, Seq<Seq<ActionView>>), Seq<char>> {
    match v {
        ValueView::Array(_) => match days_of(v) {
            Err(e) => Err(e),
            Ok(days) => Ok((all_layers(), days)),
        },
        ValueView::Object(_) => match v.array_at("layers"@) {
            None => Err("scoped replay needs an array `layers` field"@),
            Some(items) => match layers_from(items, 0, Seq::empty()) {
                Err(e) => Err(e),
                Ok(layers) => match v.get("days"@) {
                    None => Err("scoped replay needs a `days` field"@),
                    Some(d) => match days_of(d) {
                        Err(e) => Err(e),
                        Ok(days) => Ok((layers, days)),
                    },
                },
            },
        },
        _ => Err("replay must be either a JSON array of days, or an object with `layers` and `days`"@),
    }
}

/// The outcome of reading a replay.
pub open spec fn replay_outcome(result: Result<(Vec<Layer>, Vec<Vec<Action>>), String>) -> Result<
    (Seq<Layer>, Seq<Seq<ActionView>>),
    Seq<char>,
> {
    match result {
        Ok((layers, days)) => Ok((layers@, days_view(days@))),
        Err(reason) => Err(reason@),
    }
}

/// Reads a replay of either shape, given the outcome of reading its text as a value.
///
/// The layers of an object are never inferred from its actions: a run that happens not to touch a
/// layer stays distinguishable from one that never spoke for it.
pub fn decode_replay(parsed: Result<Value, String>) -> (replay: Result<(Vec<Layer>, Vec<Vec<Action>>), String>)
    ensures
        replay_outcome(replay) == replay_of(parsed),
{
    let value = match parsed {
        Err(reason) => return Err(reason),
        Ok(value) => value,
    };
    match &value {
        Value::Array(_) => match days_from_value(&value) {
            Err(e) => Err(e),
            Ok(days) => Ok((every_layer(), days)),
        },
        Value::Object(_) => {
            let items = match value.array_at("layers") {
                Some(items) => items,
                None => return Err("scoped replay needs an array `layers` field".to_owned()),
            };
            let layers = match layers_from_values(items) {
                Ok(layers) => layers,
                Err(e) => return Err(e),
            };
            match value.get("days") {
                None => Err("scoped replay needs a `days` field".to_owned()),
                Some(d) => match days_from_value(d) {
                    Err(e) => Err(e),
                    Ok(days) => Ok((layers, days)),
                },
            }
        },
        _ => Err("replay must be either a JSON array of days, or an object with `layers` and `days`".to_owned()),
    }
}

} // verus!
