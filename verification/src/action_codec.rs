//! Actions to recording values and back, and the layout of whole recordings.
//!
//! A recording is a list of days, each a list of actions. A day without orders still takes a slot, so
//! the day an action was given on is its position in the list. A replay may also be an object that
//! declares the layers its orders speak for.
use crate::action_kind::ActionKind;
use crate::text::{quote, quoting, same_text};
use crate::quantity::Quantity;
use crate::types::{
    Action, ActionView, Domain, FactionId, Good, Layer, NationalFocus, Project, RegionId, SeaZoneId,
    Station, TransportLineId, TransportNodeId, Treaty, TreatyTerm, UnitId,
};
use crate::value::{object1, object2, object3, object4, single_number, unsigned_number, values_view, Value, ValueView};
use vstd::prelude::*;

verus! {

/// The outcome of a decoding step, with the reason for a failure as a mathematical text.
pub open spec fn outcome<T>(result: Result<T, String>) -> Result<T, Seq<char>> {
    match result {
        Ok(value) => Ok(value),
        Err(reason) => Err(reason@),
    }
}

/// The outcome of decoding an action.
pub open spec fn action_outcome(result: Result<Action, String>) -> Result<ActionView, Seq<char>> {
    match result {
        Ok(action) => Ok(action@),
        Err(reason) => Err(reason@),
    }
}

/// The good that a name stands for.
pub open spec fn good_named(key: Seq<char>) -> Result<Good, Seq<char>> {
    match Good::of_key(key) {
        Some(good) => Ok(good),
        None => Err(quoting("unknown good "@, key)),
    }
}

fn good_from_key(key: &str) -> (good: Result<Good, String>)
    ensures
        outcome(good) == good_named(key@),
{
    match Good::from_key(key) {
        Some(good) => Ok(good),
        None => Err(quote("unknown good ", key)),
    }
}

/// The layer that a name stands for.
pub open spec fn layer_named(key: Seq<char>) -> Result<Layer, Seq<char>> {
    match Layer::of_key(key) {
        Some(layer) => Ok(layer),
        None => Err(quoting("unknown layer "@, key)),
    }
}

pub(crate) fn layer_from_key(key: &str) -> (layer: Result<Layer, String>)
    ensures
        outcome(layer) == layer_named(key@),
{
    match Layer::from_key(key) {
        Some(layer) => Ok(layer),
        None => Err(quote("unknown layer ", key)),
    }
}

/// The treaty that a name stands for.
pub open spec fn treaty_named(key: Seq<char>) -> Result<Treaty, Seq<char>> {
    match Treaty::of_key(key) {
        Some(treaty) => Ok(treaty),
        None => Err(quoting("unknown treaty "@, key)),
    }
}

fn treaty_from_key(key: &str) -> (treaty: Result<Treaty, String>)
    ensures
        outcome(treaty) == treaty_named(key@),
{
    match Treaty::from_key(key) {
        Some(treaty) => Ok(treaty),
        None => Err(quote("unknown treaty ", key)),
    }
}

/// The national focus that a name stands for.
pub open spec fn focus_named(key: Seq<char>) -> Result<NationalFocus, Seq<char>> {
    match NationalFocus::of_key(key) {
        Some(focus) => Ok(focus),
        None => Err(quoting("unknown national focus "@, key)),
    }
}

fn focus_from_key(key: &str) -> (focus: Result<NationalFocus, String>)
    ensures
        outcome(focus) == focus_named(key@),
{
    match NationalFocus::from_key(key) {
        Some(focus) => Ok(focus),
        None => Err(quote("unknown national focus ", key)),
    }
}

/// The recorded form of a station.
pub open spec fn station_value(station: Station) -> ValueView {
    match station {
        Station::Region(r) => ValueView::Object(
            seq![("kind"@, ValueView::Text("region"@)), ("id"@, unsigned_number(r.0))],
        ),
        Station::Sea(z) => ValueView::Object(
            seq![("kind"@, ValueView::Text("sea"@)), ("id"@, unsigned_number(z.0))],
        ),
        Station::Airfield(n) => ValueView::Object(
            seq![("kind"@, ValueView::Text("airfield"@)), ("id"@, unsigned_number(n.0))],
        ),
    }
}

fn station_to_value(station: Station) -> (value: Value)
    ensures
        value@ == station_value(station),
{
    match station {
        Station::Region(r) => object2("kind", Value::str("region"), "id", Value::num(r.0)),
        Station::Sea(z) => object2("kind", Value::str("sea"), "id", Value::num(z.0)),
        Station::Airfield(n) => object2("kind", Value::str("airfield"), "id", Value::num(n.0)),
    }
}

/// The station that a recorded value stands for.
pub open spec fn station_of(v: ValueView) -> Result<Station, Seq<char>> {
    match v.str_at("kind"@) {
        None => Err("station needs a `kind` of \"region\", \"sea\" or \"airfield\""@),
        Some(kind) => if kind == "region"@ {
            match v.u32_at("id"@) {
                Some(id) => Ok(Station::Region(RegionId(id))),
                None => Err("region station needs an integer `id`"@),
            }
        } else if kind == "sea"@ {
            match v.u32_at("id"@) {
                Some(id) => Ok(Station::Sea(SeaZoneId(id))),
                None => Err("sea station needs an integer `id`"@),
            }
        } else if kind == "airfield"@ {
            match v.u32_at("id"@) {
                Some(id) => Ok(Station::Airfield(TransportNodeId(id))),
                None => Err("airfield station needs an integer `id`"@),
            }
        } else {
            Err(quoting("unknown station kind "@, kind))
        },
    }
}

fn station_from_value(v: &Value) -> (station: Result<Station, String>)
    ensures
        outcome(station) == station_of(v@),
{
    let kind = match v.str_at("kind") {
        Some(kind) => kind,
        None => return Err("station needs a `kind` of \"region\", \"sea\" or \"airfield\"".to_owned()),
    };
    if same_text(kind, "region") {
        match v.u32_at("id") {
            Some(id) => Ok(Station::Region(RegionId(id))),
            None => Err("region station needs an integer `id`".to_owned()),
        }
    } else if same_text(kind, "sea") {
        match v.u32_at("id") {
            Some(id) => Ok(Station::Sea(SeaZoneId(id))),
            None => Err("sea station needs an integer `id`".to_owned()),
        }
    } else if same_text(kind, "airfield") {
        match v.u32_at("id") {
            Some(id) => Ok(Station::Airfield(TransportNodeId(id))),
            None => Err("airfield station needs an integer `id`".to_owned()),
        }
    } else {
        Err(quote("unknown station kind ", kind))
    }
}

/// The recorded form of a construction project.
pub open spec fn project_value(project: Project) -> ValueView {
    match project {
        Project::Infrastructure => ValueView::Text("infrastructure"@),
        Project::Port => ValueView::Text("port"@),
        Project::Repair => ValueView::Text("repair"@),
        Project::Capacity(good) => ValueView::Object(seq![("capacity"@, ValueView::Text(good.key_text()))]),
        Project::TransportLine(line) => ValueView::Object(seq![("transport_line"@, unsigned_number(line.0))]),
    }
}

fn project_to_value(project: Project) -> (value: Value)
    ensures
        value@ == project_value(project),
{
    match project {
        Project::Infrastructure => Value::str("infrastructure"),
        Project::Port => Value::str("port"),
        Project::Repair => Value::str("repair"),
        Project::Capacity(good) => object1("capacity", Value::str(good.key())),
        Project::TransportLine(line) => object1("transport_line", Value::num(line.0)),
    }
}

/// The construction project that a recorded value stands for.
pub open spec fn project_of(v: ValueView) -> Result<Project, Seq<char>> {
    match v {
        ValueView::Text(s) => if s == "infrastructure"@ {
            Ok(Project::Infrastructure)
        } else if s == "port"@ {
            Ok(Project::Port)
        } else if s == "repair"@ {
            Ok(Project::Repair)
        } else {
            Err(quoting("unknown project "@, s))
        },
        _ => if v.get("capacity"@) is Some {
            match v.str_at("capacity"@) {
                None => Err("expected `capacity` to name a good"@),
                Some(key) => match good_named(key) {
                    Ok(good) => Ok(Project::Capacity(good)),
                    Err(e) => Err(e),
                },
            }
        } else if v.get("transport_line"@) is Some {
            match v.u32_at("transport_line"@) {
                None => Err("expected integer `transport_line`"@),
                Some(line) => Ok(Project::TransportLine(TransportLineId(line))),
            }
        } else {
            Err("project must be a string, {\"capacity\":<good>}, or {\"transport_line\":<id>}"@)
        },
    }
}

fn project_from_value(v: &Value) -> (project: Result<Project, String>)
    ensures
        outcome(project) == project_of(v@),
{
    if let Some(s) = v.as_str() {
        return if same_text(s, "infrastructure") {
            Ok(Project::Infrastructure)
        } else if same_text(s, "port") {
            Ok(Project::Port)
        } else if same_text(s, "repair") {
            Ok(Project::Repair)
        } else {
            Err(quote("unknown project ", s))
        };
    }
    if v.get("capacity").is_some() {
        match v.str_at("capacity") {
            None => Err("expected `capacity` to name a good".to_owned()),
            Some(key) => match good_from_key(key) {
                Ok(good) => Ok(Project::Capacity(good)),
                Err(e) => Err(e),
            },
        }
    } else if v.get("transport_line").is_some() {
        match v.u32_at("transport_line") {
            None => Err("expected integer `transport_line`".to_owned()),
            Some(line) => Ok(Project::TransportLine(TransportLineId(line))),
        }
    } else {
        Err("project must be a string, {\"capacity\":<good>}, or {\"transport_line\":<id>}".to_owned())
    }
}

/// The recorded form of a treaty term.
pub open spec fn treaty_term_value(term: TreatyTerm) -> ValueView {
    match term {
        TreatyTerm::Sign(treaty) => ValueView::Object(
            seq![("kind"@, ValueView::Text("sign"@)), ("treaty"@, ValueView::Text(treaty.key_text()))],
        ),
        TreatyTerm::Withdraw { from } => ValueView::Object(
            seq![("kind"@, ValueView::Text("withdraw"@)), ("from"@, unsigned_number(from.0))],
        ),
        TreatyTerm::Cede { region } => ValueView::Object(
            seq![("kind"@, ValueView::Text("cede"@)), ("region"@, unsigned_number(region.0))],
        ),
        TreatyTerm::Deliver { good, amount } => ValueView::Object(
            seq![
                ("kind"@, ValueView::Text("deliver"@)),
                ("good"@, ValueView::Text(good.key_text())),
                ("amount"@, single_number(amount)),
            ],
        ),
    }
}

fn treaty_term_to_value(term: TreatyTerm) -> (value: Value)
    ensures
        value@ == treaty_term_value(term),
{
    match term {
        TreatyTerm::Sign(treaty) => object2("kind", Value::str("sign"), "treaty", Value::str(treaty.key())),
        TreatyTerm::Withdraw { from } => object2("kind", Value::str("withdraw"), "from", Value::num(from.0)),
        TreatyTerm::Cede { region } => object2("kind", Value::str("cede"), "region", Value::num(region.0)),
        TreatyTerm::Deliver { good, amount } => object3("kind", Value::str("deliver"), "good", Value::str(good.key()), "amount", Value::f32num(amount)),
    }
}

/// The treaty term that a recorded value stands for.
pub open spec fn treaty_term_of(v: ValueView) -> Result<TreatyTerm, Seq<char>> {
    match v.str_at("kind"@) {
        None => Err("treaty term needs a `kind`"@),
        Some(kind) => if kind == "sign"@ {
            match v.str_at("treaty"@) {
                None => Err("`sign` term needs `treaty`"@),
                Some(key) => match treaty_named(key) {
                    Ok(treaty) => Ok(TreatyTerm::Sign(treaty)),
                    Err(e) => Err(e),
                },
            }
        } else if kind == "withdraw"@ {
            match v.u32_at("from"@) {
                None => Err("`withdraw` term needs integer `from`"@),
                Some(from) => Ok(TreatyTerm::Withdraw { from: RegionId(from) }),
            }
        } else if kind == "cede"@ {
            match v.u32_at("region"@) {
                None => Err("`cede` term needs integer `region`"@),
                Some(region) => Ok(TreatyTerm::Cede { region: RegionId(region) }),
            }
        } else if kind == "deliver"@ {
            match (v.str_at("good"@), v.f32_at("amount"@)) {
                (None, _) => Err("`deliver` term needs `good`"@),
                (Some(_), None) => Err("`deliver` term needs numeric `amount`"@),
                (Some(key), Some(amount)) => match good_named(key) {
                    Ok(good) => Ok(TreatyTerm::Deliver { good, amount }),
                    Err(e) => Err(e),
                },
            }
        } else {
            Err(quoting("unknown treaty term kind "@, kind))
        },
    }
}

fn treaty_term_from_value(v: &Value) -> (term: Result<TreatyTerm, String>)
    ensures
        outcome(term) == treaty_term_of(v@),
{
    let kind = match v.str_at("kind") {
        Some(kind) => kind,
        None => return Err("treaty term needs a `kind`".to_owned()),
    };
    if same_text(kind, "sign") {
        match v.str_at("treaty") {
            None => Err("`sign` term needs `treaty`".to_owned()),
            Some(key) => match treaty_from_key(key) {
                Ok(treaty) => Ok(TreatyTerm::Sign(treaty)),
                Err(e) => Err(e),
            },
        }
    } else if same_text(kind, "withdraw") {
        match v.u32_at("from") {
            None => Err("`withdraw` term needs integer `from`".to_owned()),
            Some(from) => Ok(TreatyTerm::Withdraw { from: RegionId(from) }),
        }
    } else if same_text(kind, "cede") {
        match v.u32_at("region") {
            None => Err("`cede` term needs integer `region`".to_owned()),
            Some(region) => Ok(TreatyTerm::Cede { region: RegionId(region) }),
        }
    } else if same_text(kind, "deliver") {
        let key = match v.str_at("good") {
            Some(key) => key,
            None => return Err("`deliver` term needs `good`".to_owned()),
        };
        let amount = match v.f32_at("amount") {
            Some(amount) => amount,
            None => return Err("`deliver` term needs numeric `amount`".to_owned()),
        };
        match good_from_key(key) {
            Ok(good) => Ok(TreatyTerm::Deliver { good, amount }),
            Err(e) => Err(e),
        }
    } else {
        Err(quote("unknown treaty term kind ", kind))
    }
}

/// The recorded form of an action made of plain values only.
pub open spec fn order_value(action: Action) -> ValueView {
    match action {
        Action::MoveUnit { unit, to } => ValueView::Object(
            seq![("type"@, kind_value(ActionKind::MoveUnit)), ("unit"@, unsigned_number(unit.0)), ("to"@, station_value(to))],
        ),
        Action::HoldUnit { unit } => ValueView::Object(
            seq![("type"@, kind_value(ActionKind::HoldUnit)), ("unit"@, unsigned_number(unit.0))],
        ),
        Action::DisbandUnit { unit } => ValueView::Object(
            seq![("type"@, kind_value(ActionKind::DisbandUnit)), ("unit"@, unsigned_number(unit.0))],
        ),
        Action::RecruitUnit { region, domain } => ValueView::Object(
            seq![("type"@, kind_value(ActionKind::RecruitUnit)), ("region"@, unsigned_number(region.0)), ("domain"@, ValueView::Text(domain.key_text()))],
        ),
        Action::ReinforceUnit { unit } => ValueView::Object(
            seq![("type"@, kind_value(ActionKind::ReinforceUnit)), ("unit"@, unsigned_number(unit.0))],
        ),
        Action::SetConscription(v) => ValueView::Object(
            seq![("type"@, kind_value(ActionKind::SetConscription)), ("value"@, single_number(v))],
        ),
        Action::SetIndustryPriority { good, weight } => ValueView::Object(
            seq![("type"@, kind_value(ActionKind::SetIndustryPriority)), ("good"@, ValueView::Text(good.key_text())), ("weight"@, single_number(weight))],
        ),
        Action::SetCivilianRation(v) => ValueView::Object(
            seq![("type"@, kind_value(ActionKind::SetCivilianRation)), ("value"@, single_number(v))],
        ),
        Action::Build { region, project } => ValueView::Object(
            seq![("type"@, kind_value(ActionKind::Build)), ("region"@, unsigned_number(region.0)), ("project"@, project_value(project))],
        ),
        Action::CancelBuild { region } => ValueView::Object(
            seq![("type"@, kind_value(ActionKind::CancelBuild)), ("region"@, unsigned_number(region.0))],
        ),
        Action::SetImportPlan { good, rate } => ValueView::Object(
            seq![("type"@, kind_value(ActionKind::SetImportPlan)), ("good"@, ValueView::Text(good.key_text())), ("rate"@, single_number(rate))],
        ),
        Action::SetLogisticsPriority { good, weight } => ValueView::Object(
            seq![("type"@, kind_value(ActionKind::SetLogisticsPriority)), ("good"@, ValueView::Text(good.key_text())), ("weight"@, single_number(weight))],
        ),
        Action::ProposeTreaty { to, treaty } => ValueView::Object(
            seq![("type"@, kind_value(ActionKind::ProposeTreaty)), ("to"@, unsigned_number(to.0)), ("treaty"@, ValueView::Text(treaty.key_text()))],
        ),
        Action::AcceptTreaty { from, treaty } => ValueView::Object(
            seq![("type"@, kind_value(ActionKind::AcceptTreaty)), ("from"@, unsigned_number(from.0)), ("treaty"@, ValueView::Text(treaty.key_text()))],
        ),
        Action::RejectTreaty { from, treaty } => ValueView::Object(
            seq![("type"@, kind_value(ActionKind::RejectTreaty)), ("from"@, unsigned_number(from.0)), ("treaty"@, ValueView::Text(treaty.key_text()))],
        ),
        Action::DeclareWar { to } => ValueView::Object(
            seq![("type"@, kind_value(ActionKind::DeclareWar)), ("to"@, unsigned_number(to.0))],
        ),
        Action::BreakTreaty { with, treaty } => ValueView::Object(
            seq![("type"@, kind_value(ActionKind::BreakTreaty)), ("with"@, unsigned_number(with.0)), ("treaty"@, ValueView::Text(treaty.key_text()))],
        ),
        Action::SetNationalFocus(focus) => ValueView::Object(
            seq![("type"@, kind_value(ActionKind::SetNationalFocus)), ("focus"@, ValueView::Text(focus.key_text()))],
        ),
        Action::InterdictLine { line } => ValueView::Object(
            seq![("type"@, kind_value(ActionKind::InterdictLine)), ("line"@, unsigned_number(line.0))],
        ),
        Action::StrikeNode { node } => ValueView::Object(
            seq![("type"@, kind_value(ActionKind::StrikeNode)), ("node"@, unsigned_number(node.0))],
        ),
        _ => ValueView::Null,
    }
}

/// The recorded name of a kind of action.
pub open spec fn kind_value(kind: ActionKind) -> ValueView {
    ValueView::Text(kind.key_text())
}

/// The recorded forms of a list of treaty terms.
pub open spec fn treaty_terms_value(terms: Seq<TreatyTerm>) -> Seq<ValueView> {
    Seq::new(terms.len(), |i: int| treaty_term_value(terms[i]))
}

/// The recorded form of an action: an object with the kind under `type` and one field per value.
pub open spec fn action_value(action: ActionView) -> ValueView {
    match action {
        ActionView::Order(order) => order_value(order),
        ActionView::Proposal { to, text } => ValueView::Object(
            seq![
                ("type"@, kind_value(ActionKind::ProposeInNaturalLanguage)),
                ("to"@, unsigned_number(to.0)),
                ("text"@, ValueView::Text(text)),
            ],
        ),
        ActionView::Response { from, terms, accept } => ValueView::Object(
            seq![
                ("type"@, kind_value(ActionKind::RespondToNaturalLanguageProposal)),
                ("from"@, unsigned_number(from.0)),
                ("accept"@, ValueView::Bool(accept)),
                ("terms"@, ValueView::Array(treaty_terms_value(terms))),
            ],
        ),
    }
}

fn treaty_terms_to_values(terms: &Vec<TreatyTerm>) -> (values: Vec<Value>)
    ensures
        values_view(values@) == treaty_terms_value(terms@),
{
    let mut values: Vec<Value> = Vec::new();
    let mut i: usize = 0;
    while i < terms.len()
        invariant
            i <= terms.len(),
            values.len() == i,
            forall|k: int| 0 <= k < i ==> (#[trigger] values@[k])@ == treaty_term_value(terms@[k]),
        decreases terms.len() - i,
    {
        values.push(treaty_term_to_value(terms[i]));
        i += 1;
    }
    assert(values_view(values@) =~= treaty_terms_value(terms@));
    values
}

/// Records one action. [`action_from_value`] reads it back.
pub fn action_to_value(action: &Action) -> (value: Value)
    ensures
        value@ == action_value(action@),
{
    match action {
        Action::MoveUnit { unit, to } => object3("type", Value::str("move_unit"), "unit", Value::num(unit.0), "to", station_to_value(*to)),
        Action::HoldUnit { unit } => object2("type", Value::str("hold_unit"), "unit", Value::num(unit.0)),
        Action::DisbandUnit { unit } => object2("type", Value::str("disband_unit"), "unit", Value::num(unit.0)),
        Action::RecruitUnit { region, domain } => object3("type", Value::str("recruit_unit"), "region", Value::num(region.0), "domain", Value::str(domain.key())),
        Action::ReinforceUnit { unit } => object2("type", Value::str("reinforce_unit"), "unit", Value::num(unit.0)),
        Action::SetConscription(v) => object2("type", Value::str("set_conscription"), "value", Value::f32num(*v)),
        Action::SetIndustryPriority { good, weight } => object3("type", Value::str("set_industry_priority"), "good", Value::str(good.key()), "weight", Value::f32num(*weight)),
        Action::SetCivilianRation(v) => object2("type", Value::str("set_civilian_ration"), "value", Value::f32num(*v)),
        Action::Build { region, project } => object3("type", Value::str("build"), "region", Value::num(region.0), "project", project_to_value(*project)),
        Action::CancelBuild { region } => object2("type", Value::str("cancel_build"), "region", Value::num(region.0)),
        Action::SetImportPlan { good, rate } => object3("type", Value::str("set_import_plan"), "good", Value::str(good.key()), "rate", Value::f32num(*rate)),
        Action::SetLogisticsPriority { good, weight } => object3("type", Value::str("set_logistics_priority"), "good", Value::str(good.key()), "weight", Value::f32num(*weight)),
        Action::ProposeTreaty { to, treaty } => object3("type", Value::str("propose_treaty"), "to", Value::num(to.0), "treaty", Value::str(treaty.key())),
        Action::AcceptTreaty { from, treaty } => object3("type", Value::str("accept_treaty"), "from", Value::num(from.0), "treaty", Value::str(treaty.key())),
        Action::RejectTreaty { from, treaty } => object3("type", Value::str("reject_treaty"), "from", Value::num(from.0), "treaty", Value::str(treaty.key())),
        Action::DeclareWar { to } => object2("type", Value::str("declare_war"), "to", Value::num(to.0)),
        Action::BreakTreaty { with, treaty } => object3("type", Value::str("break_treaty"), "with", Value::num(with.0), "treaty", Value::str(treaty.key())),
        Action::SetNationalFocus(focus) => object2("type", Value::str("set_national_focus"), "focus", Value::str(focus.key())),
        Action::InterdictLine { line } => object2("type", Value::str("interdict_line"), "line", Value::num(line.0)),
        Action::StrikeNode { node } => object2("type", Value::str("strike_node"), "node", Value::num(node.0)),
        Action::ProposeInNaturalLanguage { to, text } => object3(
            "type", Value::str("propose_in_natural_language"), "to", Value::num(to.0), "text", Value::str(text.as_str()),
        ),
        Action::RespondToNaturalLanguageProposal { from, terms, accept } => object4(
            "type", Value::str("respond_to_natural_language_proposal"), "from", Value::num(from.0), "accept",
            Value::Bool(*accept), "terms", Value::arr(treaty_terms_to_values(terms)),
        ),
    }
}

/// The unsigned integer that an action needs in the field `name`.
pub open spec fn u32_field_of(v: ValueView, name: Seq<char>) -> Result<u32, Seq<char>> {
    match v.u32_at(name) {
        Some(n) => Ok(n),
        None => Err(quoting("expected integer "@, name)),
    }
}

fn u32_field(v: &Value, name: &str) -> (n: Result<u32, String>)
    ensures
        outcome(n) == u32_field_of(v@, name@),
{
    match v.u32_at(name) {
        Some(n) => Ok(n),
        None => Err(quote("expected integer ", name)),
    }
}

/// The quantity that an action needs in the field `name`.
pub open spec fn f32_field_of(v: ValueView, name: Seq<char>) -> Result<Quantity, Seq<char>> {
    match v.f32_at(name) {
        Some(x) => Ok(x),
        None => Err(quoting("expected finite number "@, name)),
    }
}

fn f32_field(v: &Value, name: &str) -> (x: Result<Quantity, String>)
    ensures
        outcome(x) == f32_field_of(v@, name@),
{
    match v.f32_at(name) {
        Some(x) => Ok(x),
        None => Err(quote("expected finite number ", name)),
    }
}

/// The good that an action names in its field `good`.
pub open spec fn good_field_of(v: ValueView) -> Result<Good, Seq<char>> {
    match v.str_at("good"@) {
        Some(key) => good_named(key),
        None => Err("expected string `good`"@),
    }
}

fn good_field(v: &Value) -> (good: Result<Good, String>)
    ensures
        outcome(good) == good_field_of(v@),
{
    match v.str_at("good") {
        Some(key) => good_from_key(key),
        None => Err("expected string `good`".to_owned()),
    }
}

/// A good and a quantity, from the fields `good` and `name`.
pub open spec fn good_and_f32_of(v: ValueView, name: Seq<char>) -> Result<(Good, Quantity), Seq<char>> {
    match good_field_of(v) {
        Err(e) => Err(e),
        Ok(good) => match f32_field_of(v, name) {
            Err(e) => Err(e),
            Ok(x) => Ok((good, x)),
        },
    }
}

fn good_and_f32(v: &Value, name: &str) -> (pair: Result<(Good, Quantity), String>)
    ensures
        outcome(pair) == good_and_f32_of(v@, name@),
{
    match good_field(v) {
        Err(e) => Err(e),
        Ok(good) => match f32_field(v, name) {
            Err(e) => Err(e),
            Ok(x) => Ok((good, x)),
        },
    }
}

/// A faction in the field `name` and the treaty in the field `treaty`, without which the action is
/// refused with the reason `missing`.
pub open spec fn faction_and_treaty_of(v: ValueView, name: Seq<char>, missing: Seq<char>) -> Result<
    (FactionId, Treaty),
    Seq<char>,
> {
    match v.str_at("treaty"@) {
        None => Err(missing),
        Some(key) => match u32_field_of(v, name) {
            Err(e) => Err(e),
            Ok(n) => match treaty_named(key) {
                Err(e) => Err(e),
                Ok(treaty) => Ok((FactionId(n), treaty)),
            },
        },
    }
}

fn faction_and_treaty(v: &Value, name: &str, missing: &str) -> (pair: Result<(FactionId, Treaty), String>)
    ensures
        outcome(pair) == faction_and_treaty_of(v@, name@, missing@),
{
    let key = match v.str_at("treaty") {
        Some(key) => key,
        None => return Err(missing.to_owned()),
    };
    match u32_field(v, name) {
        Err(e) => Err(e),
        Ok(n) => match treaty_from_key(key) {
            Err(e) => Err(e),
            Ok(treaty) => Ok((FactionId(n), treaty)),
        },
    }
}

/// The domain that a recruitment names in its field `domain`: land if it names none.
pub open spec fn domain_of(v: ValueView) -> Result<Domain, Seq<char>> {
    match v.str_at("domain"@) {
        None => Ok(Domain::Land),
        Some(key) => match Domain::of_key(key) {
            Some(domain) => Ok(domain),
            None => Err(quoting("unknown domain "@, key)),
        },
    }
}

fn domain_field(v: &Value) -> (domain: Result<Domain, String>)
    ensures
        outcome(domain) == domain_of(v@),
{
    match v.str_at("domain") {
        None => Ok(Domain::Land),
        Some(key) => match Domain::from_key(key) {
            Some(domain) => Ok(domain),
            None => Err(quote("unknown domain ", key)),
        },
    }
}

/// The treaty terms that a list of recorded values stands for; the reason of the first bad one.
pub open spec fn treaty_terms_of(items: Seq<ValueView>) -> Result<Seq<TreatyTerm>, Seq<char>>
    decreases items.len(),
{
    if items.len() == 0 {
        Ok(Seq::empty())
    } else {
        match treaty_term_of(items[0]) {
            Err(e) => Err(e),
            Ok(term) => match treaty_terms_of(items.drop_first()) {
                Err(e) => Err(e),
                Ok(rest) => Ok(seq![term] + rest),
            },
        }
    }
}

/// The outcome of decoding a list, once its front has been decoded to `done`.
pub open spec fn after<T>(done: Seq<T>, rest: Result<Seq<T>, Seq<char>>) -> Result<Seq<T>, Seq<char>> {
    match rest {
        Err(e) => Err(e),
        Ok(items) => Ok(done + items),
    }
}

/// The outcome of decoding a list of treaty terms.
pub open spec fn terms_outcome(result: Result<Vec<TreatyTerm>, String>) -> Result<Seq<TreatyTerm>, Seq<char>> {
    match result {
        Ok(terms) => Ok(terms@),
        Err(reason) => Err(reason@),
    }
}

fn treaty_terms_from_values(items: &Vec<Value>) -> (terms: Result<Vec<TreatyTerm>, String>)
    ensures
        terms_outcome(terms) == treaty_terms_of(values_view(items@)),
{
    let mut terms: Vec<TreatyTerm> = Vec::new();
    let mut i: usize = 0;
    let ghost all = values_view(items@);
    assert(all.skip(0) =~= all);
    assert(after(terms@, treaty_terms_of(all)) == treaty_terms_of(all)) by {
        if let Ok(rest) = treaty_terms_of(all) {
            assert(terms@ + rest =~= rest);
        }
    }
    while i < items.len()
        invariant
            i <= items.len(),
            all == values_view(items@),
            treaty_terms_of(all) == after(terms@, treaty_terms_of(all.skip(i as int))),
        decreases items.len() - i,
    {
        let ghost rest = all.skip(i as int);
        assert(rest[0] == items@[i as int]@);
        assert(rest.drop_first() =~= all.skip(i + 1));
        match treaty_term_from_value(&items[i]) {
            Err(e) => return Err(e),
            Ok(term) => {
                proof {
                    if let Ok(later) = treaty_terms_of(all.skip(i + 1)) {
                        assert(terms@ + (seq![term] + later) =~= terms@.push(term) + later);
                    }
                }
                terms.push(term);
            },
        }
        i += 1;
    }
    assert(terms@ + Seq::<TreatyTerm>::empty() =~= terms@);
    Ok(terms)
}

/// The action of the given kind whose values stand in the fields of `v`.
pub open spec fn action_of_kind(kind: ActionKind, v: ValueView) -> Result<ActionView, Seq<char>> {
    match kind {
        ActionKind::MoveUnit => match u32_field_of(v, "unit"@) {
            Err(e) => Err(e),
            Ok(n) => match v.get("to"@) {
                None => Err("`move_unit` needs `to`"@),
                Some(to) => match station_of(to) {
                    Err(e) => Err(e),
                    Ok(station) => Ok(ActionView::Order(Action::MoveUnit { unit: UnitId(n), to: station })),
                },
            },
        },
        ActionKind::HoldUnit => match u32_field_of(v, "unit"@) {
            Err(e) => Err(e),
            Ok(n) => Ok(ActionView::Order(Action::HoldUnit { unit: UnitId(n) })),
        },
        ActionKind::DisbandUnit => match u32_field_of(v, "unit"@) {
            Err(e) => Err(e),
            Ok(n) => Ok(ActionView::Order(Action::DisbandUnit { unit: UnitId(n) })),
        },
        ActionKind::RecruitUnit => match u32_field_of(v, "region"@) {
            Err(e) => Err(e),
            Ok(n) => match domain_of(v) {
                Err(e) => Err(e),
                Ok(domain) => Ok(ActionView::Order(Action::RecruitUnit { region: RegionId(n), domain })),
            },
        },
        ActionKind::ReinforceUnit => match u32_field_of(v, "unit"@) {
            Err(e) => Err(e),
            Ok(n) => Ok(ActionView::Order(Action::ReinforceUnit { unit: UnitId(n) })),
        },
        ActionKind::SetConscription => match f32_field_of(v, "value"@) {
            Err(e) => Err(e),
            Ok(x) => Ok(ActionView::Order(Action::SetConscription(x))),
        },
        ActionKind::SetIndustryPriority => match good_and_f32_of(v, "weight"@) {
            Err(e) => Err(e),
            Ok((good, x)) => Ok(ActionView::Order(Action::SetIndustryPriority { good, weight: x })),
        },
        ActionKind::SetCivilianRation => match f32_field_of(v, "value"@) {
            Err(e) => Err(e),
            Ok(x) => Ok(ActionView::Order(Action::SetCivilianRation(x))),
        },
        ActionKind::Build => match u32_field_of(v, "region"@) {
            Err(e) => Err(e),
            Ok(n) => match v.get("project"@) {
                None => Err("`build` needs `project`"@),
                Some(p) => match project_of(p) {
                    Err(e) => Err(e),
                    Ok(project) => Ok(ActionView::Order(Action::Build { region: RegionId(n), project })),
                },
            },
        },
        ActionKind::CancelBuild => match u32_field_of(v, "region"@) {
            Err(e) => Err(e),
            Ok(n) => Ok(ActionView::Order(Action::CancelBuild { region: RegionId(n) })),
        },
        ActionKind::SetImportPlan => match good_and_f32_of(v, "rate"@) {
            Err(e) => Err(e),
            Ok((good, x)) => Ok(ActionView::Order(Action::SetImportPlan { good, rate: x })),
        },
        ActionKind::SetLogisticsPriority => match good_and_f32_of(v, "weight"@) {
            Err(e) => Err(e),
            Ok((good, x)) => Ok(ActionView::Order(Action::SetLogisticsPriority { good, weight: x })),
        },
        ActionKind::ProposeTreaty => match faction_and_treaty_of(v, "to"@, "`propose_treaty` needs `treaty`"@) {
            Err(e) => Err(e),
            Ok((faction, treaty)) => Ok(ActionView::Order(Action::ProposeTreaty { to: faction, treaty })),
        },
        ActionKind::AcceptTreaty => match faction_and_treaty_of(v, "from"@, "`accept_treaty` needs `treaty`"@) {
            Err(e) => Err(e),
            Ok((faction, treaty)) => Ok(ActionView::Order(Action::AcceptTreaty { from: faction, treaty })),
        },
        ActionKind::RejectTreaty => match faction_and_treaty_of(v, "from"@, "`reject_treaty` needs `treaty`"@) {
            Err(e) => Err(e),
            Ok((faction, treaty)) => Ok(ActionView::Order(Action::RejectTreaty { from: faction, treaty })),
        },
        ActionKind::DeclareWar => match u32_field_of(v, "to"@) {
            Err(e) => Err(e),
            Ok(n) => Ok(ActionView::Order(Action::DeclareWar { to: FactionId(n) })),
        },
        ActionKind::BreakTreaty => match faction_and_treaty_of(v, "with"@, "`break_treaty` needs `treaty`"@) {
            Err(e) => Err(e),
            Ok((faction, treaty)) => Ok(ActionView::Order(Action::BreakTreaty { with: faction, treaty })),
        },
        ActionKind::SetNationalFocus => match v.str_at("focus"@) {
            None => Err("`set_national_focus` needs `focus`"@),
            Some(key) => match focus_named(key) {
                Err(e) => Err(e),
                Ok(focus) => Ok(ActionView::Order(Action::SetNationalFocus(focus))),
            },
        },
        ActionKind::ProposeInNaturalLanguage => match v.str_at("text"@) {
            None => Err("`propose_in_natural_language` needs `text`"@),
            Some(text) => match u32_field_of(v, "to"@) {
                Err(e) => Err(e),
                Ok(n) => Ok(ActionView::Proposal { to: FactionId(n), text }),
            },
        },
        ActionKind::RespondToNaturalLanguageProposal => match u32_field_of(v, "from"@) {
            Err(e) => Err(e),
            Ok(n) => match (v.bool_at("accept"@), v.array_at("terms"@)) {
                (None, _) => Err("expected bool `accept`"@),
                (Some(_), None) => Err("expected array `terms`"@),
                (Some(accept), Some(items)) => match treaty_terms_of(items) {
                    Err(e) => Err(e),
                    Ok(terms) => Ok(ActionView::Response { from: FactionId(n), terms, accept }),
                },
            },
        },
        ActionKind::InterdictLine => match u32_field_of(v, "line"@) {
            Err(e) => Err(e),
            Ok(n) => Ok(ActionView::Order(Action::InterdictLine { line: TransportLineId(n) })),
        },
        ActionKind::StrikeNode => match u32_field_of(v, "node"@) {
            Err(e) => Err(e),
            Ok(n) => Ok(ActionView::Order(Action::StrikeNode { node: TransportNodeId(n) })),
        },
    }
}

/// The action that a recorded value stands for, or the reason why it stands for none.
pub open spec fn action_of(v: ValueView) -> Result<ActionView, Seq<char>> {
    match v.str_at("type"@) {
        None => Err("action object needs a string `type`"@),
        Some(key) => match ActionKind::of_key(key) {
            None => Err(quoting("unknown action type "@, key)),
            Some(kind) => action_of_kind(kind, v),
        },
    }
}

fn action_of_kind_from_value(kind: ActionKind, v: &Value) -> (action: Result<Action, String>)
    ensures
        action_outcome(action) == action_of_kind(kind, v@),
{
    match kind {
        ActionKind::MoveUnit => match u32_field(v, "unit") {
            Err(e) => Err(e),
            Ok(n) => match v.get("to") {
                None => Err("`move_unit` needs `to`".to_owned()),
                Some(to) => match station_from_value(to) {
                    Err(e) => Err(e),
                    Ok(station) => Ok(Action::MoveUnit { unit: UnitId(n), to: station }),
                },
            },
        },
        ActionKind::HoldUnit => match u32_field(v, "unit") {
            Err(e) => Err(e),
            Ok(n) => Ok(Action::HoldUnit { unit: UnitId(n) }),
        },
        ActionKind::DisbandUnit => match u32_field(v, "unit") {
            Err(e) => Err(e),
            Ok(n) => Ok(Action::DisbandUnit { unit: UnitId(n) }),
        },
        ActionKind::RecruitUnit => match u32_field(v, "region") {
            Err(e) => Err(e),
            Ok(n) => match domain_field(v) {
                Err(e) => Err(e),
                Ok(domain) => Ok(Action::RecruitUnit { region: RegionId(n), domain }),
            },
        },
        ActionKind::ReinforceUnit => match u32_field(v, "unit") {
            Err(e) => Err(e),
            Ok(n) => Ok(Action::ReinforceUnit { unit: UnitId(n) }),
        },
        ActionKind::SetConscription => match f32_field(v, "value") {
            Err(e) => Err(e),
            Ok(x) => Ok(Action::SetConscription(x)),
        },
        ActionKind::SetIndustryPriority => match good_and_f32(v, "weight") {
            Err(e) => Err(e),
            Ok((good, x)) => Ok(Action::SetIndustryPriority { good, weight: x }),
        },
        ActionKind::SetCivilianRation => match f32_field(v, "value") {
            Err(e) => Err(e),
            Ok(x) => Ok(Action::SetCivilianRation(x)),
        },
        ActionKind::Build => match u32_field(v, "region") {
            Err(e) => Err(e),
            Ok(n) => match v.get("project") {
                None => Err("`build` needs `project`".to_owned()),
                Some(p) => match project_from_value(p) {
                    Err(e) => Err(e),
                    Ok(project) => Ok(Action::Build { region: RegionId(n), project }),
                },
            },
        },
        ActionKind::CancelBuild => match u32_field(v, "region") {
            Err(e) => Err(e),
            Ok(n) => Ok(Action::CancelBuild { region: RegionId(n) }),
        },
        ActionKind::SetImportPlan => match good_and_f32(v, "rate") {
            Err(e) => Err(e),
            Ok((good, x)) => Ok(Action::SetImportPlan { good, rate: x }),
        },
        ActionKind::SetLogisticsPriority => match good_and_f32(v, "weight") {
            Err(e) => Err(e),
            Ok((good, x)) => Ok(Action::SetLogisticsPriority { good, weight: x }),
        },
        ActionKind::ProposeTreaty => match faction_and_treaty(v, "to", "`propose_treaty` needs `treaty`") {
            Err(e) => Err(e),
            Ok((faction, treaty)) => Ok(Action::ProposeTreaty { to: faction, treaty }),
        },
        ActionKind::AcceptTreaty => match faction_and_treaty(v, "from", "`accept_treaty` needs `treaty`") {
            Err(e) => Err(e),
            Ok((faction, treaty)) => Ok(Action::AcceptTreaty { from: faction, treaty }),
        },
        ActionKind::RejectTreaty => match faction_and_treaty(v, "from", "`reject_treaty` needs `treaty`") {
            Err(e) => Err(e),
            Ok((faction, treaty)) => Ok(Action::RejectTreaty { from: faction, treaty }),
        },
        ActionKind::DeclareWar => match u32_field(v, "to") {
            Err(e) => Err(e),
            Ok(n) => Ok(Action::DeclareWar { to: FactionId(n) }),
        },
        ActionKind::BreakTreaty => match faction_and_treaty(v, "with", "`break_treaty` needs `treaty`") {
            Err(e) => Err(e),
            Ok((faction, treaty)) => Ok(Action::BreakTreaty { with: faction, treaty }),
        },
        ActionKind::SetNationalFocus => match v.str_at("focus") {
            None => Err("`set_national_focus` needs `focus`".to_owned()),
            Some(key) => match focus_from_key(key) {
                Err(e) => Err(e),
                Ok(focus) => Ok(Action::SetNationalFocus(focus)),
            },
        },
        ActionKind::ProposeInNaturalLanguage => match v.str_at("text") {
            None => Err("`propose_in_natural_language` needs `text`".to_owned()),
            Some(text) => match u32_field(v, "to") {
                Err(e) => Err(e),
                Ok(n) => Ok(Action::ProposeInNaturalLanguage { to: FactionId(n), text: text.to_owned() }),
            },
        },
        ActionKind::RespondToNaturalLanguageProposal => {
            let from = match u32_field(v, "from") {
                Err(e) => return Err(e),
                Ok(n) => FactionId(n),
            };
            let accept = match v.bool_at("accept") {
                None => return Err("expected bool `accept`".to_owned()),
                Some(accept) => accept,
            };
            match v.array_at("terms") {
                None => Err("expected array `terms`".to_owned()),
                Some(items) => match treaty_terms_from_values(items) {
                    Err(e) => Err(e),
                    Ok(terms) => Ok(Action::RespondToNaturalLanguageProposal { from, terms, accept }),
                },
            }
        },
        ActionKind::InterdictLine => match u32_field(v, "line") {
            Err(e) => Err(e),
            Ok(n) => Ok(Action::InterdictLine { line: TransportLineId(n) }),
        },
        ActionKind::StrikeNode => match u32_field(v, "node") {
            Err(e) => Err(e),
            Ok(n) => Ok(Action::StrikeNode { node: TransportNodeId(n) }),
        },
    }
}

/// Reads one action. Every failure is a reason, never a panic.
pub fn action_from_value(v: &Value) -> (action: Result<Action, String>)
    ensures
        action_outcome(action) == action_of(v@),
{
    match v.str_at("type") {
        None => Err("action object needs a string `type`".to_owned()),
        Some(key) => match ActionKind::from_key(key) {
            None => Err(quote("unknown action type ", key)),
            Some(kind) => action_of_kind_from_value(kind, v),
        },
    }
}

} // verus!
