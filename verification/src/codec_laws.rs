//! The words of recordings: under which names orders and their values are written and read.
use crate::action_codec::{
    action_of, action_value, order_value, project_of, project_value, station_of, station_value, treaty_term_of,
    treaty_term_value, treaty_terms_of, treaty_terms_value,
};
use crate::action_kind::ActionKind;
use crate::quantity::Quantity;
use crate::recording::{day_from, day_value, days_from, days_of, days_value, layers_from, replay_in, scoped_value};
use crate::recording_laws::lemma_field_names;
use crate::types::{
    Action, ActionView, Domain, FactionId, Good, Layer, NationalFocus, Project, RegionId, SeaZoneId, Station,
    TransportLineId, TransportNodeId, Treaty, TreatyTerm, UnitId,
};
use crate::value::{field, ValueView};
use vstd::prelude::*;

verus! {

/// Whether the field `name` of a value is the unsigned integer `n`.
pub open spec fn numbers(v: ValueView, name: Seq<char>, n: u32) -> bool {
    v.get(name) matches Some(ValueView::Number(m)) && m.unsigned == Some(n)
}

/// Whether the field `name` of a value is the quantity `x`.
pub open spec fn measures(v: ValueView, name: Seq<char>, x: Quantity) -> bool {
    v.get(name) matches Some(ValueView::Number(m)) && m.single == Some(x)
}

/// Whether the field `name` of a value is the text `text`.
pub open spec fn says(v: ValueView, name: Seq<char>, text: Seq<char>) -> bool {
    v.get(name) == Some(ValueView::Text(text))
}

/// The field of an object by a name is the first one that bears it; where none bears it there is none,
/// nor in anything but an object.
pub proof fn fields_are_found_by_name(fields: Seq<(Seq<char>, ValueView)>, name: Seq<char>, i: int)
    requires
        0 <= i <= fields.len(),
        forall|k: int| 0 <= k < i ==> (#[trigger] fields[k]).0 != name,
    ensures
        i < fields.len() && fields[i].0 == name ==> ValueView::Object(fields).get(name) == Some(fields[i].1),
        i == fields.len() ==> ValueView::Object(fields).get(name) is None,
        ValueView::Null.get(name) is None,
    decreases i,
{
    if i > 0 {
        let rest = fields.drop_first();
        assert forall|k: int| 0 <= k < i - 1 implies (#[trigger] rest[k]).0 != name by {
            assert(rest[k] == fields[k + 1]);
        }
        fields_are_found_by_name(rest, name, i - 1);
        assert(fields[0].0 != name);
        if i < fields.len() {
            assert(rest[i - 1] == fields[i]);
        }
    }
}

/// The names of treaties; no other name stands for one.
pub proof fn names_of_treaties()
    ensures
        Treaty::of_key("ceasefire"@) == Some(Treaty::Ceasefire),
        Treaty::Ceasefire.key_text() == "ceasefire"@,
        Treaty::of_key("non_aggression"@) == Some(Treaty::NonAggression),
        Treaty::NonAggression.key_text() == "non_aggression"@,
        Treaty::of_key("alliance"@) == Some(Treaty::Alliance),
        Treaty::Alliance.key_text() == "alliance"@,
        Treaty::of_key("military_access"@) == Some(Treaty::MilitaryAccess),
        Treaty::MilitaryAccess.key_text() == "military_access"@,
        Treaty::of_key("port_access"@) == Some(Treaty::PortAccess),
        Treaty::PortAccess.key_text() == "port_access"@,
        Treaty::of_key("trade_agreement"@) == Some(Treaty::TradeAgreement),
        Treaty::TradeAgreement.key_text() == "trade_agreement"@,
        forall|key: Seq<char>| (#[trigger] Treaty::of_key(key)) is Some ==> key == "ceasefire"@ || key == "non_aggression"@ || key == "alliance"@ || key == "military_access"@ || key == "port_access"@ || key == "trade_agreement"@,
{
    Treaty::Ceasefire.key_names_one_value();
    Treaty::NonAggression.key_names_one_value();
    Treaty::Alliance.key_names_one_value();
    Treaty::MilitaryAccess.key_names_one_value();
    Treaty::PortAccess.key_names_one_value();
    Treaty::TradeAgreement.key_names_one_value();
}

/// The names of goods; no other name stands for one.
pub proof fn names_of_goods()
    ensures
        Good::of_key("food"@) == Some(Good::Food),
        Good::Food.key_text() == "food"@,
        Good::of_key("energy"@) == Some(Good::Energy),
        Good::Energy.key_text() == "energy"@,
        Good::of_key("steel"@) == Some(Good::Steel),
        Good::Steel.key_text() == "steel"@,
        Good::of_key("machinery"@) == Some(Good::Machinery),
        Good::Machinery.key_text() == "machinery"@,
        Good::of_key("munitions"@) == Some(Good::Munitions),
        Good::Munitions.key_text() == "munitions"@,
        Good::of_key("arms"@) == Some(Good::Arms),
        Good::Arms.key_text() == "arms"@,
        forall|key: Seq<char>| (#[trigger] Good::of_key(key)) is Some ==> key == "food"@ || key == "energy"@ || key == "steel"@ || key == "machinery"@ || key == "munitions"@ || key == "arms"@,
{
    Good::Food.key_names_one_value();
    Good::Energy.key_names_one_value();
    Good::Steel.key_names_one_value();
    Good::Machinery.key_names_one_value();
    Good::Munitions.key_names_one_value();
    Good::Arms.key_names_one_value();
}

/// The names of national foci; no other name stands for one.
pub proof fn names_of_foci()
    ensures
        NationalFocus::of_key("military_unification"@) == Some(NationalFocus::MilitaryUnification),
        NationalFocus::MilitaryUnification.key_text() == "military_unification"@,
        NationalFocus::of_key("economic_sphere"@) == Some(NationalFocus::EconomicSphere),
        NationalFocus::EconomicSphere.key_text() == "economic_sphere"@,
        NationalFocus::of_key("alliance_network"@) == Some(NationalFocus::AllianceNetwork),
        NationalFocus::AllianceNetwork.key_text() == "alliance_network"@,
        NationalFocus::of_key("maritime_trade"@) == Some(NationalFocus::MaritimeTrade),
        NationalFocus::MaritimeTrade.key_text() == "maritime_trade"@,
        NationalFocus::of_key("technocracy"@) == Some(NationalFocus::Technocracy),
        NationalFocus::Technocracy.key_text() == "technocracy"@,
        NationalFocus::of_key("defensive_posture"@) == Some(NationalFocus::DefensivePosture),
        NationalFocus::DefensivePosture.key_text() == "defensive_posture"@,
        forall|key: Seq<char>| (#[trigger] NationalFocus::of_key(key)) is Some ==> key == "military_unification"@ || key == "economic_sphere"@ || key == "alliance_network"@ || key == "maritime_trade"@ || key == "technocracy"@ || key == "defensive_posture"@,
{
    NationalFocus::MilitaryUnification.key_names_one_value();
    NationalFocus::EconomicSphere.key_names_one_value();
    NationalFocus::AllianceNetwork.key_names_one_value();
    NationalFocus::MaritimeTrade.key_names_one_value();
    NationalFocus::Technocracy.key_names_one_value();
    NationalFocus::DefensivePosture.key_names_one_value();
}

/// The names of layers; no other name stands for one.
pub proof fn names_of_layers()
    ensures
        Layer::of_key("military"@) == Some(Layer::Military),
        Layer::Military.key_text() == "military"@,
        Layer::of_key("economy"@) == Some(Layer::Economy),
        Layer::Economy.key_text() == "economy"@,
        Layer::of_key("diplomacy"@) == Some(Layer::Diplomacy),
        Layer::Diplomacy.key_text() == "diplomacy"@,
        forall|key: Seq<char>| (#[trigger] Layer::of_key(key)) is Some ==> key == "military"@ || key == "economy"@ || key == "diplomacy"@,
{
    Layer::Military.key_names_one_value();
    Layer::Economy.key_names_one_value();
    Layer::Diplomacy.key_names_one_value();
}

/// The names of domains; no other name stands for one.
pub proof fn names_of_domains()
    ensures
        Domain::of_key("land"@) == Some(Domain::Land),
        Domain::Land.key_text() == "land"@,
        Domain::of_key("sea"@) == Some(Domain::Sea),
        Domain::Sea.key_text() == "sea"@,
        Domain::of_key("air"@) == Some(Domain::Air),
        Domain::Air.key_text() == "air"@,
        forall|key: Seq<char>| (#[trigger] Domain::of_key(key)) is Some ==> key == "land"@ || key == "sea"@ || key == "air"@,
{
    Domain::Land.key_names_one_value();
    Domain::Sea.key_names_one_value();
    Domain::Air.key_names_one_value();
}

/// What is read of the type `move_unit` is that order, with the values in its fields.
pub proof fn moves_are_read_by_name(v: ValueView, unit: u32, to: Station, place: ValueView)
    requires
        says(v, "type"@, "move_unit"@),
        numbers(v, "unit"@, unit),
        v.get("to"@) == Some(place),
        station_of(place) == Ok::<Station, Seq<char>>(to),
    ensures
        action_of(v) == Ok::<ActionView, Seq<char>>(ActionView::Order(Action::MoveUnit { unit: UnitId(unit), to })),
{
    ActionKind::MoveUnit.key_names_one_kind();
}

/// What is read of the type `hold_unit` is that order, with the values in its fields.
pub proof fn holds_are_read_by_name(v: ValueView, unit: u32)
    requires
        says(v, "type"@, "hold_unit"@),
        numbers(v, "unit"@, unit),
    ensures
        action_of(v) == Ok::<ActionView, Seq<char>>(ActionView::Order(Action::HoldUnit { unit: UnitId(unit) })),
{
    ActionKind::HoldUnit.key_names_one_kind();
}

/// What is read of the type `disband_unit` is that order, with the values in its fields.
pub proof fn disbandments_are_read_by_name(v: ValueView, unit: u32)
    requires
        says(v, "type"@, "disband_unit"@),
        numbers(v, "unit"@, unit),
    ensures
        action_of(v) == Ok::<ActionView, Seq<char>>(ActionView::Order(Action::DisbandUnit { unit: UnitId(unit) })),
{
    ActionKind::DisbandUnit.key_names_one_kind();
}

/// What is read of the type `recruit_unit` is that order, with the values in its fields.
pub proof fn recruitments_are_read_by_name(v: ValueView, region: u32, domain: Domain, key: Seq<char>)
    requires
        says(v, "type"@, "recruit_unit"@),
        numbers(v, "region"@, region),
        says(v, "domain"@, key),
        Domain::of_key(key) == Some(domain),
    ensures
        action_of(v) == Ok::<ActionView, Seq<char>>(ActionView::Order(Action::RecruitUnit { region: RegionId(region), domain })),
{
    ActionKind::RecruitUnit.key_names_one_kind();
}

/// What is read of the type `reinforce_unit` is that order, with the values in its fields.
pub proof fn reinforcements_are_read_by_name(v: ValueView, unit: u32)
    requires
        says(v, "type"@, "reinforce_unit"@),
        numbers(v, "unit"@, unit),
    ensures
        action_of(v) == Ok::<ActionView, Seq<char>>(ActionView::Order(Action::ReinforceUnit { unit: UnitId(unit) })),
{
    ActionKind::ReinforceUnit.key_names_one_kind();
}

/// What is read of the type `set_conscription` is that order, with the values in its fields.
pub proof fn conscription_are_read_by_name(v: ValueView, x: Quantity)
    requires
        says(v, "type"@, "set_conscription"@),
        measures(v, "value"@, x),
    ensures
        action_of(v) == Ok::<ActionView, Seq<char>>(ActionView::Order(Action::SetConscription(x))),
{
    ActionKind::SetConscription.key_names_one_kind();
}

/// What is read of the type `set_industry_priority` is that order, with the values in its fields.
pub proof fn industry_priorities_are_read_by_name(v: ValueView, good: Good, key: Seq<char>, weight: Quantity)
    requires
        says(v, "type"@, "set_industry_priority"@),
        says(v, "good"@, key),
        Good::of_key(key) == Some(good),
        measures(v, "weight"@, weight),
    ensures
        action_of(v) == Ok::<ActionView, Seq<char>>(ActionView::Order(Action::SetIndustryPriority { good, weight })),
{
    ActionKind::SetIndustryPriority.key_names_one_kind();
}

/// What is read of the type `set_civilian_ration` is that order, with the values in its fields.
pub proof fn rations_are_read_by_name(v: ValueView, x: Quantity)
    requires
        says(v, "type"@, "set_civilian_ration"@),
        measures(v, "value"@, x),
    ensures
        action_of(v) == Ok::<ActionView, Seq<char>>(ActionView::Order(Action::SetCivilianRation(x))),
{
    ActionKind::SetCivilianRation.key_names_one_kind();
}

/// What is read of the type `build` is that order, with the values in its fields.
pub proof fn construction_orders_are_read_by_name(v: ValueView, region: u32, project: Project, what: ValueView)
    requires
        says(v, "type"@, "build"@),
        numbers(v, "region"@, region),
        v.get("project"@) == Some(what),
        project_of(what) == Ok::<Project, Seq<char>>(project),
    ensures
        action_of(v) == Ok::<ActionView, Seq<char>>(ActionView::Order(Action::Build { region: RegionId(region), project })),
{
    ActionKind::Build.key_names_one_kind();
}

/// What is read of the type `cancel_build` is that order, with the values in its fields.
pub proof fn cancelled_construction_are_read_by_name(v: ValueView, region: u32)
    requires
        says(v, "type"@, "cancel_build"@),
        numbers(v, "region"@, region),
    ensures
        action_of(v) == Ok::<ActionView, Seq<char>>(ActionView::Order(Action::CancelBuild { region: RegionId(region) })),
{
    ActionKind::CancelBuild.key_names_one_kind();
}

/// What is read of the type `set_import_plan` is that order, with the values in its fields.
pub proof fn import_plans_are_read_by_name(v: ValueView, good: Good, key: Seq<char>, rate: Quantity)
    requires
        says(v, "type"@, "set_import_plan"@),
        says(v, "good"@, key),
        Good::of_key(key) == Some(good),
        measures(v, "rate"@, rate),
    ensures
        action_of(v) == Ok::<ActionView, Seq<char>>(ActionView::Order(Action::SetImportPlan { good, rate })),
{
    ActionKind::SetImportPlan.key_names_one_kind();
}

/// What is read of the type `set_logistics_priority` is that order, with the values in its fields.
pub proof fn logistics_priorities_are_read_by_name(v: ValueView, good: Good, key: Seq<char>, weight: Quantity)
    requires
        says(v, "type"@, "set_logistics_priority"@),
        says(v, "good"@, key),
        Good::of_key(key) == Some(good),
        measures(v, "weight"@, weight),
    ensures
        action_of(v) == Ok::<ActionView, Seq<char>>(ActionView::Order(Action::SetLogisticsPriority { good, weight })),
{
    ActionKind::SetLogisticsPriority.key_names_one_kind();
}

/// What is read of the type `propose_treaty` is that order, with the values in its fields.
pub proof fn proposed_treaties_are_read_by_name(v: ValueView, to: u32, treaty: Treaty, key: Seq<char>)
    requires
        says(v, "type"@, "propose_treaty"@),
        numbers(v, "to"@, to),
        says(v, "treaty"@, key),
        Treaty::of_key(key) == Some(treaty),
    ensures
        action_of(v) == Ok::<ActionView, Seq<char>>(ActionView::Order(Action::ProposeTreaty { to: FactionId(to), treaty })),
{
    ActionKind::ProposeTreaty.key_names_one_kind();
}

/// What is read of the type `accept_treaty` is that order, with the values in its fields.
pub proof fn accepted_treaties_are_read_by_name(v: ValueView, from: u32, treaty: Treaty, key: Seq<char>)
    requires
        says(v, "type"@, "accept_treaty"@),
        numbers(v, "from"@, from),
        says(v, "treaty"@, key),
        Treaty::of_key(key) == Some(treaty),
    ensures
        action_of(v) == Ok::<ActionView, Seq<char>>(ActionView::Order(Action::AcceptTreaty { from: FactionId(from), treaty })),
{
    ActionKind::AcceptTreaty.key_names_one_kind();
}

/// What is read of the type `reject_treaty` is that order, with the values in its fields.
pub proof fn rejected_treaties_are_read_by_name(v: ValueView, from: u32, treaty: Treaty, key: Seq<char>)
    requires
        says(v, "type"@, "reject_treaty"@),
        numbers(v, "from"@, from),
        says(v, "treaty"@, key),
        Treaty::of_key(key) == Some(treaty),
    ensures
        action_of(v) == Ok::<ActionView, Seq<char>>(ActionView::Order(Action::RejectTreaty { from: FactionId(from), treaty })),
{
    ActionKind::RejectTreaty.key_names_one_kind();
}

/// What is read of the type `declare_war` is that order, with the values in its fields.
pub proof fn declarations_of_war_are_read_by_name(v: ValueView, to: u32)
    requires
        says(v, "type"@, "declare_war"@),
        numbers(v, "to"@, to),
    ensures
        action_of(v) == Ok::<ActionView, Seq<char>>(ActionView::Order(Action::DeclareWar { to: FactionId(to) })),
{
    ActionKind::DeclareWar.key_names_one_kind();
}

/// What is read of the type `break_treaty` is that order, with the values in its fields.
pub proof fn broken_treaties_are_read_by_name(v: ValueView, with: u32, treaty: Treaty, key: Seq<char>)
    requires
        says(v, "type"@, "break_treaty"@),
        numbers(v, "with"@, with),
        says(v, "treaty"@, key),
        Treaty::of_key(key) == Some(treaty),
    ensures
        action_of(v) == Ok::<ActionView, Seq<char>>(ActionView::Order(Action::BreakTreaty { with: FactionId(with), treaty })),
{
    ActionKind::BreakTreaty.key_names_one_kind();
}

/// What is read of the type `set_national_focus` is that order, with the values in its fields.
pub proof fn national_foci_are_read_by_name(v: ValueView, focus: NationalFocus, key: Seq<char>)
    requires
        says(v, "type"@, "set_national_focus"@),
        says(v, "focus"@, key),
        NationalFocus::of_key(key) == Some(focus),
    ensures
        action_of(v) == Ok::<ActionView, Seq<char>>(ActionView::Order(Action::SetNationalFocus(focus))),
{
    ActionKind::SetNationalFocus.key_names_one_kind();
}

/// What is read of the type `interdict_line` is that order, with the values in its fields.
pub proof fn interdictions_are_read_by_name(v: ValueView, line: u32)
    requires
        says(v, "type"@, "interdict_line"@),
        numbers(v, "line"@, line),
    ensures
        action_of(v) == Ok::<ActionView, Seq<char>>(ActionView::Order(Action::InterdictLine { line: TransportLineId(line) })),
{
    ActionKind::InterdictLine.key_names_one_kind();
}

/// What is read of the type `strike_node` is that order, with the values in its fields.
pub proof fn air_strikes_are_read_by_name(v: ValueView, node: u32)
    requires
        says(v, "type"@, "strike_node"@),
        numbers(v, "node"@, node),
    ensures
        action_of(v) == Ok::<ActionView, Seq<char>>(ActionView::Order(Action::StrikeNode { node: TransportNodeId(node) })),
{
    ActionKind::StrikeNode.key_names_one_kind();
}

/// What is read of the type `propose_in_natural_language` is a proposal in natural language.
pub proof fn letters_are_read_by_name(v: ValueView, to: u32, text: Seq<char>)
    requires
        says(v, "type"@, "propose_in_natural_language"@),
        numbers(v, "to"@, to),
        says(v, "text"@, text),
    ensures
        action_of(v) == Ok::<ActionView, Seq<char>>(ActionView::Proposal { to: FactionId(to), text }),
{
    ActionKind::ProposeInNaturalLanguage.key_names_one_kind();
}

/// What is read of the type `respond_to_natural_language_proposal` is the reply to such a proposal.
pub proof fn replies_are_read_by_name(v: ValueView, from: u32, accept: bool, items: Seq<ValueView>, terms: Seq<TreatyTerm>)
    requires
        says(v, "type"@, "respond_to_natural_language_proposal"@),
        numbers(v, "from"@, from),
        v.get("accept"@) == Some(ValueView::Bool(accept)),
        v.get("terms"@) == Some(ValueView::Array(items)),
        treaty_terms_of(items) == Ok::<Seq<TreatyTerm>, Seq<char>>(terms),
    ensures
        action_of(v) == Ok::<ActionView, Seq<char>>(ActionView::Response { from: FactionId(from), terms, accept }),
{
    ActionKind::RespondToNaturalLanguageProposal.key_names_one_kind();
}

/// A recruitment that names no domain is one on land.
pub proof fn recruits_without_a_domain_serve_on_land(v: ValueView, region: u32)
    requires
        says(v, "type"@, "recruit_unit"@),
        numbers(v, "region"@, region),
        v.get("domain"@) is None,
    ensures
        action_of(v) == Ok::<ActionView, Seq<char>>(
            ActionView::Order(Action::RecruitUnit { region: RegionId(region), domain: Domain::Land }),
        ),
{
    ActionKind::RecruitUnit.key_names_one_kind();
}

/// Every order is written under its own name, with its values in fields of their own.
pub proof fn orders_are_written_by_name(action: Action)
    ensures
        ({
            let v = order_value(action);
            match action {

            Action::MoveUnit { unit, to } => {
                &&& says(v, "type"@, "move_unit"@)
                &&& numbers(v, "unit"@, unit.0)
                &&& v.get("to"@) == Some(station_value(to))
            },

            Action::HoldUnit { unit } => {
                &&& says(v, "type"@, "hold_unit"@)
                &&& numbers(v, "unit"@, unit.0)
            },

            Action::DisbandUnit { unit } => {
                &&& says(v, "type"@, "disband_unit"@)
                &&& numbers(v, "unit"@, unit.0)
            },

            Action::RecruitUnit { region, domain } => {
                &&& says(v, "type"@, "recruit_unit"@)
                &&& numbers(v, "region"@, region.0)
                &&& says(v, "domain"@, domain.key_text())
            },

            Action::ReinforceUnit { unit } => {
                &&& says(v, "type"@, "reinforce_unit"@)
                &&& numbers(v, "unit"@, unit.0)
            },

            Action::SetConscription(x) => {
                &&& says(v, "type"@, "set_conscription"@)
                &&& (x.finite() ==> measures(v, "value"@, x))
            },

            Action::SetIndustryPriority { good, weight } => {
                &&& says(v, "type"@, "set_industry_priority"@)
                &&& says(v, "good"@, good.key_text())
                &&& (weight.finite() ==> measures(v, "weight"@, weight))
            },

            Action::SetCivilianRation(x) => {
                &&& says(v, "type"@, "set_civilian_ration"@)
                &&& (x.finite() ==> measures(v, "value"@, x))
            },

            Action::Build { region, project } => {
                &&& says(v, "type"@, "build"@)
                &&& numbers(v, "region"@, region.0)
                &&& v.get("project"@) == Some(project_value(project))
            },

            Action::CancelBuild { region } => {
                &&& says(v, "type"@, "cancel_build"@)
                &&& numbers(v, "region"@, region.0)
            },

            Action::SetImportPlan { good, rate } => {
                &&& says(v, "type"@, "set_import_plan"@)
                &&& says(v, "good"@, good.key_text())
                &&& (rate.finite() ==> measures(v, "rate"@, rate))
            },

            Action::SetLogisticsPriority { good, weight } => {
                &&& says(v, "type"@, "set_logistics_priority"@)
                &&& says(v, "good"@, good.key_text())
                &&& (weight.finite() ==> measures(v, "weight"@, weight))
            },

            Action::ProposeTreaty { to, treaty } => {
                &&& says(v, "type"@, "propose_treaty"@)
                &&& numbers(v, "to"@, to.0)
                &&& says(v, "treaty"@, treaty.key_text())
            },

            Action::AcceptTreaty { from, treaty } => {
                &&& says(v, "type"@, "accept_treaty"@)
                &&& numbers(v, "from"@, from.0)
                &&& says(v, "treaty"@, treaty.key_text())
            },

            Action::RejectTreaty { from, treaty } => {
                &&& says(v, "type"@, "reject_treaty"@)
                &&& numbers(v, "from"@, from.0)
                &&& says(v, "treaty"@, treaty.key_text())
            },

            Action::DeclareWar { to } => {
                &&& says(v, "type"@, "declare_war"@)
                &&& numbers(v, "to"@, to.0)
            },

            Action::BreakTreaty { with, treaty } => {
                &&& says(v, "type"@, "break_treaty"@)
                &&& numbers(v, "with"@, with.0)
                &&& says(v, "treaty"@, treaty.key_text())
            },

            Action::SetNationalFocus(focus) => {
                &&& says(v, "type"@, "set_national_focus"@)
                &&& says(v, "focus"@, focus.key_text())
            },

            Action::InterdictLine { line } => {
                &&& says(v, "type"@, "interdict_line"@)
                &&& numbers(v, "line"@, line.0)
            },

            Action::StrikeNode { node } => {
                &&& says(v, "type"@, "strike_node"@)
                &&& numbers(v, "node"@, node.0)
            },

                _ => true,
            }
        }),
{
    lemma_field_names();
    reveal_with_fuel(field, 5);
    if let ValueView::Object(fields) = order_value(action) {
        if fields.len() > 1 {
            assert(fields.drop_first()[0] == fields[1]);
        }
        if fields.len() > 2 {
            assert(fields.drop_first().drop_first()[0] == fields[2]);
        }
    }
}

/// Proposals in natural language and replies to them are written under their own names.
pub proof fn letters_are_written_by_name(to: FactionId, text: Seq<char>, from: FactionId, terms: Seq<TreatyTerm>, accept: bool)
    ensures
        ({
            let v = action_value(ActionView::Proposal { to, text });
            &&& says(v, "type"@, "propose_in_natural_language"@)
            &&& numbers(v, "to"@, to.0)
            &&& says(v, "text"@, text)
        }),
        ({
            let v = action_value(ActionView::Response { from, terms, accept });
            &&& says(v, "type"@, "respond_to_natural_language_proposal"@)
            &&& numbers(v, "from"@, from.0)
            &&& v.get("accept"@) == Some(ValueView::Bool(accept))
            &&& v.get("terms"@) == Some(ValueView::Array(treaty_terms_value(terms)))
        }),
{
    lemma_field_names();
    reveal_with_fuel(field, 5);
    let a = action_value(ActionView::Proposal { to, text })->Object_0;
    assert(a.drop_first()[0] == a[1]);
    assert(a.drop_first().drop_first()[0] == a[2]);
    let b = action_value(ActionView::Response { from, terms, accept })->Object_0;
    assert(b.drop_first()[0] == b[1]);
    assert(b.drop_first().drop_first()[0] == b[2]);
    assert(b.drop_first().drop_first().drop_first()[0] == b[3]);
}

/// Nothing is read but what stands there: an order that is read bears its own name as its type, and has its
/// values in its fields.
#[verifier::spinoff_prover]
#[verifier::rlimit(80)]
pub proof fn what_is_read_stands_there(v: ValueView)
    ensures
        match action_of(v) {
            Ok(ActionView::Order(action)) => match action {

                Action::MoveUnit { unit, to } => {
                &&& says(v, "type"@, "move_unit"@)
                &&& numbers(v, "unit"@, unit.0)
                &&& v.get("to"@) is Some && station_of(v.get("to"@)->0) == Ok::<Station, Seq<char>>(to)
                },

                Action::HoldUnit { unit } => {
                &&& says(v, "type"@, "hold_unit"@)
                &&& numbers(v, "unit"@, unit.0)
                },

                Action::DisbandUnit { unit } => {
                &&& says(v, "type"@, "disband_unit"@)
                &&& numbers(v, "unit"@, unit.0)
                },

                Action::RecruitUnit { region, domain } => {
                &&& says(v, "type"@, "recruit_unit"@)
                &&& numbers(v, "region"@, region.0)
                &&& (v.str_at("domain"@) is None && domain == Domain::Land || v.str_at("domain"@) is Some && Domain::of_key(v.str_at("domain"@)->0) == Some(domain))
                },

                Action::ReinforceUnit { unit } => {
                &&& says(v, "type"@, "reinforce_unit"@)
                &&& numbers(v, "unit"@, unit.0)
                },

                Action::SetConscription(x) => {
                &&& says(v, "type"@, "set_conscription"@)
                &&& measures(v, "value"@, x)
                },

                Action::SetIndustryPriority { good, weight } => {
                &&& says(v, "type"@, "set_industry_priority"@)
                &&& v.str_at("good"@) is Some && Good::of_key(v.str_at("good"@)->0) == Some(good)
                &&& measures(v, "weight"@, weight)
                },

                Action::SetCivilianRation(x) => {
                &&& says(v, "type"@, "set_civilian_ration"@)
                &&& measures(v, "value"@, x)
                },

                Action::Build { region, project } => {
                &&& says(v, "type"@, "build"@)
                &&& numbers(v, "region"@, region.0)
                &&& v.get("project"@) is Some && project_of(v.get("project"@)->0) == Ok::<Project, Seq<char>>(project)
                },

                Action::CancelBuild { region } => {
                &&& says(v, "type"@, "cancel_build"@)
                &&& numbers(v, "region"@, region.0)
                },

                Action::SetImportPlan { good, rate } => {
                &&& says(v, "type"@, "set_import_plan"@)
                &&& v.str_at("good"@) is Some && Good::of_key(v.str_at("good"@)->0) == Some(good)
                &&& measures(v, "rate"@, rate)
                },

                Action::SetLogisticsPriority { good, weight } => {
                &&& says(v, "type"@, "set_logistics_priority"@)
                &&& v.str_at("good"@) is Some && Good::of_key(v.str_at("good"@)->0) == Some(good)
                &&& measures(v, "weight"@, weight)
                },

                Action::ProposeTreaty { to, treaty } => {
                &&& says(v, "type"@, "propose_treaty"@)
                &&& numbers(v, "to"@, to.0)
                &&& v.str_at("treaty"@) is Some && Treaty::of_key(v.str_at("treaty"@)->0) == Some(treaty)
                },

                Action::AcceptTreaty { from, treaty } => {
                &&& says(v, "type"@, "accept_treaty"@)
                &&& numbers(v, "from"@, from.0)
                &&& v.str_at("treaty"@) is Some && Treaty::of_key(v.str_at("treaty"@)->0) == Some(treaty)
                },

                Action::RejectTreaty { from, treaty } => {
                &&& says(v, "type"@, "reject_treaty"@)
                &&& numbers(v, "from"@, from.0)
                &&& v.str_at("treaty"@) is Some && Treaty::of_key(v.str_at("treaty"@)->0) == Some(treaty)
                },

                Action::DeclareWar { to } => {
                &&& says(v, "type"@, "declare_war"@)
                &&& numbers(v, "to"@, to.0)
                },

                Action::BreakTreaty { with, treaty } => {
                &&& says(v, "type"@, "break_treaty"@)
                &&& numbers(v, "with"@, with.0)
                &&& v.str_at("treaty"@) is Some && Treaty::of_key(v.str_at("treaty"@)->0) == Some(treaty)
                },

                Action::SetNationalFocus(focus) => {
                &&& says(v, "type"@, "set_national_focus"@)
                &&& v.str_at("focus"@) is Some && NationalFocus::of_key(v.str_at("focus"@)->0) == Some(focus)
                },

                Action::InterdictLine { line } => {
                &&& says(v, "type"@, "interdict_line"@)
                &&& numbers(v, "line"@, line.0)
                },

                Action::StrikeNode { node } => {
                &&& says(v, "type"@, "strike_node"@)
                &&& numbers(v, "node"@, node.0)
                },

                _ => false,
            },
            Ok(ActionView::Proposal { to, text }) => {
                &&& says(v, "type"@, "propose_in_natural_language"@)
                &&& numbers(v, "to"@, to.0)
                &&& says(v, "text"@, text)
            },
            Ok(ActionView::Response { from, terms, accept }) => {
                &&& says(v, "type"@, "respond_to_natural_language_proposal"@)
                &&& numbers(v, "from"@, from.0)
                &&& v.get("accept"@) == Some(ValueView::Bool(accept))
                &&& v.get("terms"@) matches Some(ValueView::Array(items)) && treaty_terms_of(items) == Ok::<
                    Seq<TreatyTerm>,
                    Seq<char>,
                >(terms)
            },
            Err(_) => true,
        },
{
    if let Some(key) = v.str_at("type"@) {
        match ActionKind::of_key(key) {
            Some(ActionKind::MoveUnit) => {},
            Some(ActionKind::RecruitUnit) => {},
            Some(ActionKind::Build) => {},
            Some(ActionKind::RespondToNaturalLanguageProposal) => {},
            Some(_) => {},
            None => {},
        }
    }
}

/// A place is read by its kind: a region, a sea zone or an airfield, each by its number.
pub proof fn places_are_read_by_name(v: ValueView, id: u32)
    requires
        numbers(v, "id"@, id),
    ensures
        says(v, "kind"@, "region"@) ==> station_of(v) == Ok::<Station, Seq<char>>(Station::Region(RegionId(id))),
        says(v, "kind"@, "sea"@) ==> station_of(v) == Ok::<Station, Seq<char>>(Station::Sea(SeaZoneId(id))),
        says(v, "kind"@, "airfield"@) ==> station_of(v) == Ok::<Station, Seq<char>>(Station::Airfield(TransportNodeId(id))),
{
    lemma_kinds();
}

/// A place is written by its kind and its number.
pub proof fn places_are_written_by_name(id: u32)
    ensures
        says(station_value(Station::Region(RegionId(id))), "kind"@, "region"@),
        says(station_value(Station::Sea(SeaZoneId(id))), "kind"@, "sea"@),
        says(station_value(Station::Airfield(TransportNodeId(id))), "kind"@, "airfield"@),
        numbers(station_value(Station::Region(RegionId(id))), "id"@, id),
        numbers(station_value(Station::Sea(SeaZoneId(id))), "id"@, id),
        numbers(station_value(Station::Airfield(TransportNodeId(id))), "id"@, id),
{
    lemma_kinds();
    reveal_with_fuel(field, 4);
    let a = station_value(Station::Region(RegionId(id)))->Object_0;
    let b = station_value(Station::Sea(SeaZoneId(id)))->Object_0;
    let c = station_value(Station::Airfield(TransportNodeId(id)))->Object_0;
    assert(a.drop_first()[0] == a[1]);
    assert(b.drop_first()[0] == b[1]);
    assert(c.drop_first()[0] == c[1]);
}

pub(crate) proof fn lemma_kinds()
    ensures
        "kind"@ != "id"@,
        "region"@ != "sea"@,
        "region"@ != "airfield"@,
        "sea"@ != "airfield"@,
{
    reveal_strlit("kind");
    reveal_strlit("id");
    reveal_strlit("region");
    reveal_strlit("sea");
    reveal_strlit("airfield");
    assert("kind"@.len() == 4 && "id"@.len() == 2);
    assert("region"@.len() == 6 && "sea"@.len() == 3 && "airfield"@.len() == 8);
}

/// A construction project is read by its name: a bare text, or the good or the transport line that it is for.
pub proof fn projects_are_read_by_name(v: ValueView, key: Seq<char>, good: Good, line: u32)
    ensures
        project_of(ValueView::Text("infrastructure"@)) == Ok::<Project, Seq<char>>(Project::Infrastructure),
        project_of(ValueView::Text("port"@)) == Ok::<Project, Seq<char>>(Project::Port),
        project_of(ValueView::Text("repair"@)) == Ok::<Project, Seq<char>>(Project::Repair),
        says(v, "capacity"@, key) && Good::of_key(key) == Some(good) ==> project_of(v) == Ok::<Project, Seq<char>>(
            Project::Capacity(good),
        ),
        numbers(v, "transport_line"@, line) && v.get("capacity"@) is None ==> project_of(v) == Ok::<Project, Seq<char>>(
            Project::TransportLine(TransportLineId(line)),
        ),
{
    reveal_strlit("infrastructure");
    reveal_strlit("port");
    reveal_strlit("repair");
    assert("infrastructure"@.len() == 14 && "port"@.len() == 4 && "repair"@.len() == 6);
}

/// A construction project is written by its name.
pub proof fn projects_are_written_by_name(good: Good, line: u32)
    ensures
        project_value(Project::Infrastructure) == ValueView::Text("infrastructure"@),
        project_value(Project::Port) == ValueView::Text("port"@),
        project_value(Project::Repair) == ValueView::Text("repair"@),
        says(project_value(Project::Capacity(good)), "capacity"@, good.key_text()),
        numbers(project_value(Project::TransportLine(TransportLineId(line))), "transport_line"@, line),
        project_value(Project::TransportLine(TransportLineId(line))).get("capacity"@) is None,
{
    reveal_strlit("capacity");
    reveal_strlit("transport_line");
    assert("capacity"@.len() == 8 && "transport_line"@.len() == 14);
    reveal_with_fuel(field, 3);
}

/// A treaty term is read by its kind: to sign a treaty, to withdraw from a region, to cede one, or to
/// deliver goods.
pub proof fn terms_are_read_by_name(v: ValueView, key: Seq<char>, treaty: Treaty, good: Good, region: u32, amount: Quantity)
    ensures
        says(v, "kind"@, "sign"@) && says(v, "treaty"@, key) && Treaty::of_key(key) == Some(treaty) ==> treaty_term_of(v)
            == Ok::<TreatyTerm, Seq<char>>(TreatyTerm::Sign(treaty)),
        says(v, "kind"@, "withdraw"@) && numbers(v, "from"@, region) ==> treaty_term_of(v) == Ok::<TreatyTerm, Seq<char>>(
            TreatyTerm::Withdraw { from: RegionId(region) },
        ),
        says(v, "kind"@, "cede"@) && numbers(v, "region"@, region) ==> treaty_term_of(v) == Ok::<TreatyTerm, Seq<char>>(
            TreatyTerm::Cede { region: RegionId(region) },
        ),
        says(v, "kind"@, "deliver"@) && says(v, "good"@, key) && Good::of_key(key) == Some(good) && measures(
            v,
            "amount"@,
            amount,
        ) ==> treaty_term_of(v) == Ok::<TreatyTerm, Seq<char>>(TreatyTerm::Deliver { good, amount }),
{
    lemma_term_kinds();
}

/// A treaty term is written by its kind.
pub proof fn terms_are_written_by_name(treaty: Treaty, region: RegionId, good: Good, amount: Quantity)
    ensures
        says(treaty_term_value(TreatyTerm::Sign(treaty)), "kind"@, "sign"@),
        says(treaty_term_value(TreatyTerm::Sign(treaty)), "treaty"@, treaty.key_text()),
        says(treaty_term_value(TreatyTerm::Withdraw { from: region }), "kind"@, "withdraw"@),
        numbers(treaty_term_value(TreatyTerm::Withdraw { from: region }), "from"@, region.0),
        says(treaty_term_value(TreatyTerm::Cede { region }), "kind"@, "cede"@),
        numbers(treaty_term_value(TreatyTerm::Cede { region }), "region"@, region.0),
        says(treaty_term_value(TreatyTerm::Deliver { good, amount }), "kind"@, "deliver"@),
        says(treaty_term_value(TreatyTerm::Deliver { good, amount }), "good"@, good.key_text()),
        amount.finite() ==> measures(treaty_term_value(TreatyTerm::Deliver { good, amount }), "amount"@, amount),
{
    lemma_term_kinds();
    reveal_with_fuel(field, 5);
    let a = treaty_term_value(TreatyTerm::Sign(treaty))->Object_0;
    let b = treaty_term_value(TreatyTerm::Withdraw { from: region })->Object_0;
    let c = treaty_term_value(TreatyTerm::Cede { region })->Object_0;
    let d = treaty_term_value(TreatyTerm::Deliver { good, amount })->Object_0;
    assert(a.drop_first()[0] == a[1]);
    assert(b.drop_first()[0] == b[1]);
    assert(c.drop_first()[0] == c[1]);
    assert(d.drop_first()[0] == d[1]);
    assert(d.drop_first().drop_first()[0] == d[2]);
}

proof fn lemma_term_kinds()
    ensures
        "kind"@ != "treaty"@,
        "kind"@ != "from"@,
        "kind"@ != "region"@,
        "kind"@ != "good"@,
        "kind"@ != "amount"@,
        "good"@ != "amount"@,
        "sign"@ != "withdraw"@,
        "sign"@ != "cede"@,
        "sign"@ != "deliver"@,
        "withdraw"@ != "cede"@,
        "withdraw"@ != "deliver"@,
        "cede"@ != "deliver"@,
{
    reveal_strlit("kind");
    reveal_strlit("treaty");
    reveal_strlit("from");
    reveal_strlit("region");
    reveal_strlit("good");
    reveal_strlit("amount");
    reveal_strlit("sign");
    reveal_strlit("withdraw");
    reveal_strlit("cede");
    reveal_strlit("deliver");
    assert("kind"@.len() == 4 && "treaty"@.len() == 6 && "from"@.len() == 4 && "region"@.len() == 6);
    assert("good"@.len() == 4 && "amount"@.len() == 6 && "sign"@.len() == 4 && "cede"@.len() == 4);
    assert("withdraw"@.len() == 8 && "deliver"@.len() == 7);
    assert("kind"@[0] != "from"@[0] && "kind"@[0] != "good"@[0] && "sign"@[0] != "cede"@[0]);
}

/// The terms of a list are read one by one, in order: a list is read where every one of them is.
pub proof fn terms_are_read_in_order(items: Seq<ValueView>)
    ensures
        treaty_terms_of(items) matches Ok(terms) ==> terms.len() == items.len() && forall|i: int|
            0 <= i < items.len() ==> treaty_term_of(#[trigger] items[i]) == Ok::<TreatyTerm, Seq<char>>(terms[i]),
        treaty_terms_of(items) is Err ==> exists|i: int| 0 <= i < items.len() && treaty_term_of(#[trigger] items[i]) is Err,
    decreases items.len(),
{
    if items.len() > 0 {
        let rest = items.drop_first();
        terms_are_read_in_order(rest);
        if let Ok(term) = treaty_term_of(items[0]) {
            if let Ok(later) = treaty_terms_of(rest) {
                let terms = seq![term] + later;
                assert forall|i: int| 0 <= i < items.len() implies treaty_term_of(#[trigger] items[i]) == Ok::<
                    TreatyTerm,
                    Seq<char>,
                >(terms[i]) by {
                    if i > 0 {
                        assert(rest[i - 1] == items[i]);
                    }
                }
            } else {
                let i = choose|i: int| 0 <= i < rest.len() && treaty_term_of(#[trigger] rest[i]) is Err;
                assert(items[i + 1] == rest[i]);
            }
        }
    }
}

/// Whether some values are read as the actions of a day, one by one and in order.
pub open spec fn read_as_day(items: Seq<ValueView>, day: Seq<ActionView>) -> bool {
    &&& items.len() == day.len()
    &&& forall|j: int| 0 <= j < items.len() ==> action_of(#[trigger] items[j]) == Ok::<ActionView, Seq<char>>(day[j])
}

/// Whether a value is read as a list of days: a list of lists, the day of an action being its place.
pub open spec fn read_as_days(v: ValueView, days: Seq<Seq<ActionView>>) -> bool {
    v matches ValueView::Array(items) && items.len() == days.len() && forall|i: int|
        0 <= i < items.len() ==> (#[trigger] items[i] matches ValueView::Array(actions) && read_as_day(actions, days[i]))
}

proof fn lemma_day_is_read(items: Seq<ValueView>, i: nat, j: nat)
    requires
        j <= items.len(),
    ensures
        day_from(items, i, j) matches Ok(day) ==> read_as_day(items.skip(j as int), day),
        day_from(items, i, j) is Err ==> exists|k: int| j <= k < items.len() && action_of(#[trigger] items[k]) is Err,
    decreases items.len() - j,
{
    if j < items.len() {
        lemma_day_is_read(items, i, j + 1);
        let (now, later) = (items.skip(j as int), items.skip(j as int + 1));
        if let Ok(action) = action_of(items[j as int]) {
            if let Ok(rest) = day_from(items, i, j + 1) {
                let day = seq![action] + rest;
                assert forall|k: int| 0 <= k < now.len() implies action_of(#[trigger] now[k]) == Ok::<ActionView, Seq<char>>(
                    day[k],
                ) by {
                    if k > 0 {
                        assert(now[k] == later[k - 1]);
                    }
                }
            }
        }
    }
}

proof fn lemma_days_are_read(items: Seq<ValueView>, i: nat)
    requires
        i <= items.len(),
    ensures
        days_from(items, i) matches Ok(days) ==> read_as_days(ValueView::Array(items.skip(i as int)), days),
        days_from(items, i) is Err ==> exists|k: int| i <= k < items.len() && !readable_day(#[trigger] items[k]),
    decreases items.len() - i,
{
    if i < items.len() {
        lemma_days_are_read(items, i + 1);
        let (now, later) = (items.skip(i as int), items.skip(i as int + 1));
        if let ValueView::Array(actions) = items[i as int] {
            lemma_day_is_read(actions, i, 0);
            assert(actions.skip(0) =~= actions);
            if let Ok(day) = day_from(actions, i, 0) {
                if let Ok(rest) = days_from(items, i + 1) {
                    let days = seq![day] + rest;
                    assert forall|k: int| 0 <= k < now.len() implies (#[trigger] now[k] matches ValueView::Array(a)
                        && read_as_day(a, days[k])) by {
                        if k > 0 {
                            assert(now[k] == later[k - 1]);
                        }
                    }
                }
            } else {
                assert(!readable_day(items[i as int]));
            }
        } else {
            assert(!readable_day(items[i as int]));
        }
    }
}

/// Whether a value is a list of actions that can all be read.
pub open spec fn readable_day(v: ValueView) -> bool {
    v matches ValueView::Array(actions) && forall|j: int| 0 <= j < actions.len() ==> action_of(#[trigger] actions[j]) is Ok
}

/// Whether a value is a list of days that can all be read.
pub open spec fn readable_days(v: ValueView) -> bool {
    v matches ValueView::Array(items) && forall|i: int| 0 <= i < items.len() ==> readable_day(#[trigger] items[i])
}

/// A run is read exactly where every day is a list of actions that can be read, and then day by day and
/// action by action, in order.
pub proof fn days_are_read_in_order(v: ValueView)
    ensures
        days_of(v) is Ok <==> readable_days(v),
        days_of(v) matches Ok(days) ==> read_as_days(v, days),
{
    if let ValueView::Array(items) = v {
        lemma_days_are_read(items, 0);
        assert(items.skip(0) =~= items);
        if let Ok(days) = days_of(v) {
            assert forall|i: int| 0 <= i < items.len() implies readable_day(#[trigger] items[i]) by {
                assert(items[i] matches ValueView::Array(a) && read_as_day(a, days[i]));
            }
        }
    }
}

/// A run is written day by day and action by action, in order.
pub proof fn days_are_written_in_order(days: Seq<Seq<ActionView>>, i: int, j: int)
    requires
        0 <= i < days.len(),
        0 <= j < days[i].len(),
    ensures
        days_value(days) matches ValueView::Array(items) && items.len() == days.len() && (items[i] matches ValueView::Array(
            actions,
        ) && actions.len() == days[i].len() && actions[j] == action_value(days[i][j])),
        day_value(Seq::empty()) == ValueView::Array(Seq::empty()),
{
    assert(day_value(Seq::empty())->Array_0 =~= Seq::empty());
}

/// A replay that is a bare list claims all three layers. One that is an object claims those that it names,
/// each by its name and in order, and holds what its field `days` holds.
pub proof fn replays_claim_what_they_declare(v: ValueView)
    ensures
        replay_in(v) matches Ok((layers, days)) ==> match v {
            ValueView::Array(_) => layers == seq![Layer::Military, Layer::Economy, Layer::Diplomacy] && read_as_days(v, days),
            ValueView::Object(_) => {
                &&& v.get("days"@) is Some && read_as_days(v.get("days"@)->0, days)
                &&& v.get("layers"@) matches Some(ValueView::Array(items)) && items.len() == layers.len() && forall|i: int|
                    0 <= i < items.len() ==> (#[trigger] items[i] matches ValueView::Text(key) && Layer::of_key(key) == Some(
                        layers[i],
                    ))
            },
            _ => false,
        },
{
    match v {
        ValueView::Array(_) => days_are_read_in_order(v),
        ValueView::Object(_) => {
            if let Some(d) = v.get("days"@) {
                days_are_read_in_order(d);
            }
            if let Some(items) = v.array_at("layers"@) {
                lemma_layers_are_read(items, 0, Seq::empty());
            }
        },
        _ => {},
    }
}

proof fn lemma_layers_are_read(items: Seq<ValueView>, i: nat, done: Seq<Layer>)
    requires
        i <= items.len(),
        done.len() == i,
        forall|k: int|
            0 <= k < i ==> (#[trigger] items[k] matches ValueView::Text(key) && Layer::of_key(key) == Some(done[k])),
    ensures
        layers_from(items, i, done) matches Ok(layers) ==> layers.len() == items.len() && forall|k: int|
            0 <= k < items.len() ==> (#[trigger] items[k] matches ValueView::Text(key) && Layer::of_key(key) == Some(layers[k])),
    decreases items.len() - i,
{
    if i < items.len() {
        if let ValueView::Text(key) = items[i as int] {
            if let Some(layer) = Layer::of_key(key) {
                if !done.contains(layer) {
                    let next = done.push(layer);
                    assert forall|k: int| 0 <= k < i + 1 implies (#[trigger] items[k] matches ValueView::Text(name)
                        && Layer::of_key(name) == Some(next[k])) by {
                        if k < i {
                            assert(next[k] == done[k]);
                        }
                    }
                    lemma_layers_are_read(items, i + 1, next);
                }
            }
        }
    }
}

/// A run for some layers is written as an object that names them in order and holds its days.
pub proof fn scopes_are_written_by_name(layers: Seq<Layer>, days: Seq<Seq<ActionView>>)
    ensures
        ({
            let v = scoped_value(layers, days);
            &&& v.get("days"@) == Some(days_value(days))
            &&& v.get("layers"@) matches Some(ValueView::Array(items)) && items.len() == layers.len() && forall|i: int|
                0 <= i < layers.len() ==> #[trigger] items[i] == ValueView::Text(layers[i].key_text())
        }),
{
    reveal_strlit("layers");
    reveal_strlit("days");
    assert("layers"@.len() == 6 && "days"@.len() == 4);
    reveal_with_fuel(field, 4);
    let a = scoped_value(layers, days)->Object_0;
    assert(a.drop_first()[0] == a[1]);
}

} // verus!
