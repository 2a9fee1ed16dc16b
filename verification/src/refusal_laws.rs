//! What is said of recordings that cannot be read: what is missing or unknown, by its name.
use crate::action_codec::{
    action_of, f32_field_of, focus_named, good_field_of, good_named, layer_named, project_of, station_of, treaty_named,
    treaty_term_of, u32_field_of,
};
use crate::action_kind::ActionKind;
use crate::codec_laws::{lemma_kinds, numbers, says};
use crate::recording::{day_from, days_from, days_of, layers_from, recording_of, replay_in};
use crate::text::decimal;
use crate::types::{Good, Layer, NationalFocus, Treaty};
use crate::value::{Value, ValueView};
use vstd::prelude::*;

verus! {

/// A name that stands for nothing is refused in backquotes, with what it should have named.
pub proof fn unknown_names_are_quoted(key: Seq<char>)
    ensures
        Good::of_key(key) is None ==> good_named(key) == Err::<Good, Seq<char>>("unknown good "@ + "`"@ + key + "`"@),
        Layer::of_key(key) is None ==> layer_named(key) == Err::<Layer, Seq<char>>("unknown layer "@ + "`"@ + key + "`"@),
        Treaty::of_key(key) is None ==> treaty_named(key) == Err::<Treaty, Seq<char>>(
            "unknown treaty "@ + "`"@ + key + "`"@,
        ),
        NationalFocus::of_key(key) is None ==> focus_named(key) == Err::<NationalFocus, Seq<char>>(
            "unknown national focus "@ + "`"@ + key + "`"@,
        ),
{
}

/// A field that holds no value of its kind is refused by its name.
pub proof fn fields_of_the_wrong_kind_are_named(v: ValueView, name: Seq<char>)
    ensures
        v.u32_at(name) is None ==> (u32_field_of(v, name) matches Err(e) && e == "expected integer "@ + "`"@ + name + "`"@),
        v.f32_at(name) is None ==> (f32_field_of(v, name) matches Err(e) && e == "expected finite number "@ + "`"@ + name
            + "`"@),
        v.str_at("good"@) is None ==> (good_field_of(v) matches Err(e) && e == "expected string `good`"@),
{
}

/// What is said of a station without a kind or an integer.
pub proof fn refused_stations(v: ValueView, kind: Seq<char>)
    ensures
        v.str_at("kind"@) is None ==> (station_of(v) matches Err(e) && e
            == "station needs a `kind` of \"region\", \"sea\" or \"airfield\""@),
        says(v, "kind"@, "region"@) && v.u32_at("id"@) is None ==> (station_of(v) matches Err(e) && e
            == "region station needs an integer `id`"@),
        says(v, "kind"@, "sea"@) && v.u32_at("id"@) is None ==> (station_of(v) matches Err(e) && e
            == "sea station needs an integer `id`"@),
        says(v, "kind"@, "airfield"@) && v.u32_at("id"@) is None ==> (station_of(v) matches Err(e) && e
            == "airfield station needs an integer `id`"@),
        says(v, "kind"@, kind) && kind != "region"@ && kind != "sea"@ && kind != "airfield"@ ==> (station_of(v) matches Err(e)
            && e == "unknown station kind "@ + "`"@ + kind + "`"@),
{
    lemma_kinds();
}

/// What is said of a project that is none.
pub proof fn refused_projects(v: ValueView, name: Seq<char>)
    ensures
        name != "infrastructure"@ && name != "port"@ && name != "repair"@ ==> (project_of(ValueView::Text(name)) matches Err(e)
            && e == "unknown project "@ + "`"@ + name + "`"@),
        v.get("capacity"@) is Some && v.str_at("capacity"@) is None ==> (project_of(v) matches Err(e) && e
            == "expected `capacity` to name a good"@),
        v.get("capacity"@) is None && v.get("transport_line"@) is Some && v.u32_at("transport_line"@) is None ==> (project_of(
            v,
        ) matches Err(e) && e == "expected integer `transport_line`"@),
        !(v is Text) && v.get("capacity"@) is None && v.get("transport_line"@) is None ==> (project_of(v) matches Err(e) && e
            == "project must be a string, {\"capacity\":<good>}, or {\"transport_line\":<id>}"@),
{
}

/// What is said of a treaty term that lacks something.
pub proof fn refused_terms(v: ValueView)
    ensures
        v.str_at("kind"@) is None ==> (treaty_term_of(v) matches Err(e) && e == "treaty term needs a `kind`"@),
        says(v, "kind"@, "sign"@) && v.str_at("treaty"@) is None ==> (treaty_term_of(v) matches Err(e) && e
            == "`sign` term needs `treaty`"@),
        says(v, "kind"@, "withdraw"@) && v.u32_at("from"@) is None ==> (treaty_term_of(v) matches Err(e) && e
            == "`withdraw` term needs integer `from`"@),
        says(v, "kind"@, "cede"@) && v.u32_at("region"@) is None ==> (treaty_term_of(v) matches Err(e) && e
            == "`cede` term needs integer `region`"@),
        says(v, "kind"@, "deliver"@) && v.str_at("good"@) is None ==> (treaty_term_of(v) matches Err(e) && e
            == "`deliver` term needs `good`"@),
        says(v, "kind"@, "deliver"@) && v.str_at("good"@) is Some && v.f32_at("amount"@) is None ==> (treaty_term_of(
            v,
        ) matches Err(e) && e == "`deliver` term needs numeric `amount`"@),
{
    reveal_strlit("sign");
    reveal_strlit("withdraw");
    reveal_strlit("cede");
    reveal_strlit("deliver");
    assert("sign"@.len() == 4 && "withdraw"@.len() == 8 && "cede"@.len() == 4 && "deliver"@.len() == 7);
    assert("sign"@[0] != "cede"@[0]);
}

/// What is said of an action without a type, or of a type that is none.
pub proof fn refused_types(v: ValueView, key: Seq<char>)
    ensures
        v.str_at("type"@) is None ==> (action_of(v) matches Err(e) && e == "action object needs a string `type`"@),
        says(v, "type"@, key) && ActionKind::of_key(key) is None ==> (action_of(v) matches Err(e) && e
            == "unknown action type "@ + "`"@ + key + "`"@),
{
}

/// What is said of an action that lacks what it is about.
pub proof fn refused_actions(v: ValueView, n: u32)
    ensures
        says(v, "type"@, "move_unit"@) && numbers(v, "unit"@, n) && v.get("to"@) is None ==> (action_of(v) matches Err(e) && e
            == "`move_unit` needs `to`"@),
        says(v, "type"@, "build"@) && numbers(v, "region"@, n) && v.get("project"@) is None ==> (action_of(v) matches Err(e)
            && e == "`build` needs `project`"@),
        says(v, "type"@, "propose_treaty"@) && v.str_at("treaty"@) is None ==> (action_of(v) matches Err(e) && e
            == "`propose_treaty` needs `treaty`"@),
        says(v, "type"@, "accept_treaty"@) && v.str_at("treaty"@) is None ==> (action_of(v) matches Err(e) && e
            == "`accept_treaty` needs `treaty`"@),
        says(v, "type"@, "reject_treaty"@) && v.str_at("treaty"@) is None ==> (action_of(v) matches Err(e) && e
            == "`reject_treaty` needs `treaty`"@),
        says(v, "type"@, "break_treaty"@) && v.str_at("treaty"@) is None ==> (action_of(v) matches Err(e) && e
            == "`break_treaty` needs `treaty`"@),
        says(v, "type"@, "set_national_focus"@) && v.str_at("focus"@) is None ==> (action_of(v) matches Err(e) && e
            == "`set_national_focus` needs `focus`"@),
        says(v, "type"@, "propose_in_natural_language"@) && v.str_at("text"@) is None ==> (action_of(v) matches Err(e) && e
            == "`propose_in_natural_language` needs `text`"@),
        says(v, "type"@, "respond_to_natural_language_proposal"@) && numbers(v, "from"@, n) && v.bool_at("accept"@) is None
            ==> (action_of(v) matches Err(e) && e == "expected bool `accept`"@),
        says(v, "type"@, "respond_to_natural_language_proposal"@) && numbers(v, "from"@, n) && v.bool_at("accept"@) is Some
            && v.array_at("terms"@) is None ==> (action_of(v) matches Err(e) && e == "expected array `terms`"@),
{
    ActionKind::MoveUnit.key_names_one_kind();
    ActionKind::Build.key_names_one_kind();
    ActionKind::ProposeTreaty.key_names_one_kind();
    ActionKind::AcceptTreaty.key_names_one_kind();
    ActionKind::RejectTreaty.key_names_one_kind();
    ActionKind::BreakTreaty.key_names_one_kind();
    ActionKind::SetNationalFocus.key_names_one_kind();
    ActionKind::ProposeInNaturalLanguage.key_names_one_kind();
    ActionKind::RespondToNaturalLanguageProposal.key_names_one_kind();
}

/// What is said of a recording names the first day and the first action that cannot be read, counted from 0.
pub proof fn refused_days(v: ValueView, items: Seq<ValueView>, i: nat, j: nat, reason: Seq<char>)
    ensures
        v.as_array() is None ==> (days_of(v) matches Err(e) && e == "expected a JSON array of days"@),
        i < items.len() && items[i as int].as_array() is None ==> (days_from(items, i) matches Err(e) && e == "day "@
            + decimal(i) + ": expected an array of actions"@),
        j < items.len() && (action_of(items[j as int]) matches Err(e) && e == reason) ==> (day_from(items, i, j) matches Err(e)
            && e == "day "@ + decimal(i) + " action "@ + decimal(j) + ": "@ + reason),
{
}

/// What is said of a text that is no recording or no replay.
pub proof fn refused_recordings(value: Value, v: ValueView, items: Seq<ValueView>, reason: Seq<char>, text: String)
    ensures
        recording_of(Err(text)) matches Err(e) && e == text@,
        (days_of(value@) matches Err(e) && e == reason) ==> (recording_of(Ok(value)) matches Err(e) && e
            == "recording must be a top-level JSON array (one entry per day): "@ + reason),
        !(v is Array) && !(v is Object) ==> (replay_in(v) matches Err(e) && e
            == "replay must be either a JSON array of days, or an object with `layers` and `days`"@),
        v is Object && v.array_at("layers"@) is None ==> (replay_in(v) matches Err(e) && e
            == "scoped replay needs an array `layers` field"@),
        v is Object && v.array_at("layers"@) == Some(items) && layers_from(items, 0, Seq::empty()) is Ok && v.get("days"@) is None
            ==> (replay_in(v) matches Err(e) && e == "scoped replay needs a `days` field"@),
{
}

/// A layer may be named once: an entry that is no text, or a layer named before, is refused.
pub proof fn refused_layers(items: Seq<ValueView>, i: nat, done: Seq<Layer>, key: Seq<char>, layer: Layer)
    requires
        i < items.len(),
    ensures
        items[i as int].as_str() is None ==> (layers_from(items, i, done) matches Err(e) && e
            == "`layers` entries must be strings"@),
        items[i as int] == ValueView::Text(key) && Layer::of_key(key) == Some(layer) && done.contains(layer) ==> (layers_from(
            items,
            i,
            done,
        ) matches Err(e) && e == "`layers` names "@ + "`"@ + key + "`"@ + " more than once"@),
{
}

} // verus!
