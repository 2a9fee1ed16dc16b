//! What recording promises: everything that is written is read back, whatever else the text form
//! makes of the numbers.
use crate::action_codec::{
    action_of, action_value, layer_named, order_value, project_of, project_value, station_of, station_value,
    treaty_term_of, treaty_term_value, treaty_terms_of, treaty_terms_value,
};
use crate::action_kind::ActionKind;
use crate::recording::{
    all_layers, day_from, day_value, day_view, days_from, days_of, days_value, days_view, layers_from, layers_value,
    recording_of, replay_in, replay_of, scoped_value,
};
use crate::types::{Action, ActionView, Layer, Project, Station, TreatyTerm};
use crate::value::{field, reads_as, single_number, unsigned_number, Value, ValueView};
use vstd::prelude::*;

verus! {

/// Whether a term holds no infinity and no NaN.
pub open spec fn term_is_finite(term: TreatyTerm) -> bool {
    match term {
        TreatyTerm::Deliver { amount, .. } => amount.finite(),
        _ => true,
    }
}

/// Whether an action holds no infinity and no NaN: such a quantity has no text form.
pub open spec fn is_finite(action: ActionView) -> bool {
    match action {
        ActionView::Order(order) => match order {
            Action::SetConscription(x) => x.finite(),
            Action::SetIndustryPriority { weight, .. } => weight.finite(),
            Action::SetCivilianRation(x) => x.finite(),
            Action::SetImportPlan { rate, .. } => rate.finite(),
            Action::SetLogisticsPriority { weight, .. } => weight.finite(),
            _ => true,
        },
        ActionView::Proposal { .. } => true,
        ActionView::Response { terms, .. } => forall|i: int| 0 <= i < terms.len() ==> term_is_finite(#[trigger] terms[i]),
    }
}

/// The fields of a value that reads as an object with one field.
proof fn lemma_object1(v: ValueView, k1: Seq<char>, v1: ValueView)
    requires
        reads_as(v, ValueView::Object(seq![(k1, v1)])),
    ensures
        v is Object,
        v.get(k1) is Some,
        reads_as(v.get(k1)->0, v1),
        forall|k: Seq<char>| k != k1 ==> #[trigger] v.get(k) is None,
{
    reveal_with_fuel(field, 3);
    let w = seq![(k1, v1)];
    let a = v->Object_0;
    assert(a[0].0 == w[0].0 && reads_as(a[0].1, w[0].1));
}

/// The fields of a value that reads as an object with two fields.
proof fn lemma_object2(v: ValueView, k1: Seq<char>, v1: ValueView, k2: Seq<char>, v2: ValueView)
    requires
        reads_as(v, ValueView::Object(seq![(k1, v1), (k2, v2)])),
        k1 != k2,
    ensures
        v is Object,
        v.get(k1) is Some,
        reads_as(v.get(k1)->0, v1),
        v.get(k2) is Some,
        reads_as(v.get(k2)->0, v2),
{
    reveal_with_fuel(field, 4);
    let w = seq![(k1, v1), (k2, v2)];
    let a = v->Object_0;
    assert(a[0].0 == w[0].0 && reads_as(a[0].1, w[0].1));
    assert(a[1].0 == w[1].0 && reads_as(a[1].1, w[1].1));
    assert(a.drop_first()[0] == a[1]);
}

/// The fields of a value that reads as an object with three fields.
proof fn lemma_object3(v: ValueView, k1: Seq<char>, v1: ValueView, k2: Seq<char>, v2: ValueView, k3: Seq<char>, v3: ValueView)
    requires
        reads_as(v, ValueView::Object(seq![(k1, v1), (k2, v2), (k3, v3)])),
        k1 != k2,
        k1 != k3,
        k2 != k3,
    ensures
        v is Object,
        v.get(k1) is Some,
        reads_as(v.get(k1)->0, v1),
        v.get(k2) is Some,
        reads_as(v.get(k2)->0, v2),
        v.get(k3) is Some,
        reads_as(v.get(k3)->0, v3),
{
    reveal_with_fuel(field, 5);
    let w = seq![(k1, v1), (k2, v2), (k3, v3)];
    let a = v->Object_0;
    assert(a[0].0 == w[0].0 && reads_as(a[0].1, w[0].1));
    assert(a[1].0 == w[1].0 && reads_as(a[1].1, w[1].1));
    assert(a[2].0 == w[2].0 && reads_as(a[2].1, w[2].1));
    assert(a.drop_first()[0] == a[1]);
    assert(a.drop_first().drop_first()[0] == a[2]);
}

/// The fields of a value that reads as an object with four fields.
proof fn lemma_object4(v: ValueView, k1: Seq<char>, v1: ValueView, k2: Seq<char>, v2: ValueView, k3: Seq<char>, v3: ValueView, k4: Seq<char>, v4: ValueView)
    requires
        reads_as(v, ValueView::Object(seq![(k1, v1), (k2, v2), (k3, v3), (k4, v4)])),
        k1 != k2,
        k1 != k3,
        k2 != k3,
        k1 != k4,
        k2 != k4,
        k3 != k4,
    ensures
        v is Object,
        v.get(k1) is Some,
        reads_as(v.get(k1)->0, v1),
        v.get(k2) is Some,
        reads_as(v.get(k2)->0, v2),
        v.get(k3) is Some,
        reads_as(v.get(k3)->0, v3),
        v.get(k4) is Some,
        reads_as(v.get(k4)->0, v4),
{
    reveal_with_fuel(field, 6);
    let w = seq![(k1, v1), (k2, v2), (k3, v3), (k4, v4)];
    let a = v->Object_0;
    assert(a[0].0 == w[0].0 && reads_as(a[0].1, w[0].1));
    assert(a[1].0 == w[1].0 && reads_as(a[1].1, w[1].1));
    assert(a[2].0 == w[2].0 && reads_as(a[2].1, w[2].1));
    assert(a[3].0 == w[3].0 && reads_as(a[3].1, w[3].1));
    assert(a.drop_first()[0] == a[1]);
    assert(a.drop_first().drop_first()[0] == a[2]);
    assert(a.drop_first().drop_first().drop_first()[0] == a[3]);
}

/// A station that was recorded is read back.
pub proof fn station_survives(station: Station, v: ValueView)
    requires
        reads_as(v, station_value(station)),
    ensures
        station_of(v) == Ok::<Station, Seq<char>>(station),
{
    reveal_strlit("kind");
    assert("kind"@.len() == 4);
    reveal_strlit("id");
    assert("id"@.len() == 2);
    reveal_strlit("region");
    assert("region"@.len() == 6);
    reveal_strlit("sea");
    assert("sea"@.len() == 3);
    reveal_strlit("airfield");
    assert("airfield"@.len() == 8);
    match station {
        Station::Region(r) => {
            lemma_object2(v, "kind"@, ValueView::Text("region"@), "id"@, unsigned_number(r.0));
        },
        Station::Sea(z) => {
            lemma_object2(v, "kind"@, ValueView::Text("sea"@), "id"@, unsigned_number(z.0));
        },
        Station::Airfield(n) => {
            lemma_object2(v, "kind"@, ValueView::Text("airfield"@), "id"@, unsigned_number(n.0));
        },
    }
}

/// A project that was recorded is read back.
pub proof fn project_survives(project: Project, v: ValueView)
    requires
        reads_as(v, project_value(project)),
    ensures
        project_of(v) == Ok::<Project, Seq<char>>(project),
{
    reveal_strlit("capacity");
    assert("capacity"@.len() == 8);
    reveal_strlit("transport_line");
    assert("transport_line"@.len() == 14);
    reveal_strlit("infrastructure");
    assert("infrastructure"@.len() == 14);
    reveal_strlit("port");
    assert("port"@.len() == 4);
    reveal_strlit("repair");
    assert("repair"@.len() == 6);
    match project {
        Project::Capacity(good) => {
            good.key_names_one_value();
            lemma_object1(v, "capacity"@, ValueView::Text(good.key_text()));
        },
        Project::TransportLine(line) => {
            lemma_object1(v, "transport_line"@, unsigned_number(line.0));
            assert(v.get("capacity"@) is None);
        },
        _ => {},
    }
}

/// A treaty term that was recorded is read back.
pub proof fn treaty_term_survives(term: TreatyTerm, v: ValueView)
    requires
        term_is_finite(term),
        reads_as(v, treaty_term_value(term)),
    ensures
        treaty_term_of(v) == Ok::<TreatyTerm, Seq<char>>(term),
{
    reveal_strlit("kind");
    assert("kind"@.len() == 4);
    reveal_strlit("treaty");
    assert("treaty"@.len() == 6);
    reveal_strlit("from");
    assert("from"@.len() == 4);
    reveal_strlit("region");
    assert("region"@.len() == 6);
    reveal_strlit("good");
    assert("good"@.len() == 4);
    reveal_strlit("amount");
    assert("amount"@.len() == 6);
    reveal_strlit("sign");
    assert("sign"@.len() == 4);
    reveal_strlit("withdraw");
    assert("withdraw"@.len() == 8);
    reveal_strlit("cede");
    assert("cede"@.len() == 4);
    reveal_strlit("deliver");
    assert("deliver"@.len() == 7);
    assert("kind"@[0] != "from"@[0]);
    assert("kind"@[0] != "good"@[0]);
    assert("sign"@[0] != "cede"@[0]);
    match term {
        TreatyTerm::Sign(treaty) => {
            treaty.key_names_one_value();
            lemma_object2(v, "kind"@, ValueView::Text("sign"@), "treaty"@, ValueView::Text(treaty.key_text()));
        },
        TreatyTerm::Withdraw { from } => {
            lemma_object2(v, "kind"@, ValueView::Text("withdraw"@), "from"@, unsigned_number(from.0));
        },
        TreatyTerm::Cede { region } => {
            lemma_object2(v, "kind"@, ValueView::Text("cede"@), "region"@, unsigned_number(region.0));
        },
        TreatyTerm::Deliver { good, amount } => {
            good.key_names_one_value();
            lemma_object3(
                v,
                "kind"@,
                ValueView::Text("deliver"@),
                "good"@,
                ValueView::Text(good.key_text()),
                "amount"@,
                single_number(amount),
            );
        },
    }
}

/// A list of treaty terms that was recorded is read back.
pub proof fn treaty_terms_survive(terms: Seq<TreatyTerm>, items: Seq<ValueView>)
    requires
        forall|i: int| 0 <= i < terms.len() ==> term_is_finite(#[trigger] terms[i]),
        reads_as(ValueView::Array(items), ValueView::Array(treaty_terms_value(terms))),
    ensures
        treaty_terms_of(items) == Ok::<Seq<TreatyTerm>, Seq<char>>(terms),
    decreases terms.len(),
{
    let w = treaty_terms_value(terms);
    if terms.len() == 0 {
        assert(terms =~= Seq::empty());
    } else {
        assert(reads_as(items[0], w[0]));
        treaty_term_survives(terms[0], items[0]);
        let w_rest = treaty_terms_value(terms.drop_first());
        assert forall|i: int| 0 <= i < w_rest.len() implies reads_as(#[trigger] items.drop_first()[i], w_rest[i]) by {
            assert(reads_as(items[i + 1], w[i + 1]));
        }
        treaty_terms_survive(terms.drop_first(), items.drop_first());
        assert(seq![terms[0]] + terms.drop_first() =~= terms);
    }
}

/// The names of the fields that stand side by side in an action differ.
pub(crate) proof fn lemma_field_names()
    ensures
        "type"@ != "unit"@,
        "type"@ != "to"@,
        "unit"@ != "to"@,
        "type"@ != "region"@,
        "type"@ != "domain"@,
        "region"@ != "domain"@,
        "type"@ != "value"@,
        "type"@ != "good"@,
        "type"@ != "weight"@,
        "good"@ != "weight"@,
        "type"@ != "project"@,
        "region"@ != "project"@,
        "type"@ != "rate"@,
        "good"@ != "rate"@,
        "type"@ != "treaty"@,
        "to"@ != "treaty"@,
        "type"@ != "from"@,
        "from"@ != "treaty"@,
        "type"@ != "with"@,
        "with"@ != "treaty"@,
        "type"@ != "focus"@,
        "type"@ != "text"@,
        "to"@ != "text"@,
        "type"@ != "accept"@,
        "from"@ != "accept"@,
        "type"@ != "terms"@,
        "from"@ != "terms"@,
        "accept"@ != "terms"@,
        "type"@ != "line"@,
        "type"@ != "node"@,
{
    reveal_strlit("type");
    assert("type"@.len() == 4);
    reveal_strlit("unit");
    assert("unit"@.len() == 4);
    reveal_strlit("to");
    assert("to"@.len() == 2);
    reveal_strlit("region");
    assert("region"@.len() == 6);
    reveal_strlit("domain");
    assert("domain"@.len() == 6);
    reveal_strlit("value");
    assert("value"@.len() == 5);
    reveal_strlit("good");
    assert("good"@.len() == 4);
    reveal_strlit("weight");
    assert("weight"@.len() == 6);
    reveal_strlit("project");
    assert("project"@.len() == 7);
    reveal_strlit("rate");
    assert("rate"@.len() == 4);
    reveal_strlit("treaty");
    assert("treaty"@.len() == 6);
    reveal_strlit("from");
    assert("from"@.len() == 4);
    reveal_strlit("with");
    assert("with"@.len() == 4);
    reveal_strlit("focus");
    assert("focus"@.len() == 5);
    reveal_strlit("text");
    assert("text"@.len() == 4);
    reveal_strlit("accept");
    assert("accept"@.len() == 6);
    reveal_strlit("terms");
    assert("terms"@.len() == 5);
    reveal_strlit("line");
    assert("line"@.len() == 4);
    reveal_strlit("node");
    assert("node"@.len() == 4);
    assert("type"@[0] != "unit"@[0]);
    assert("region"@[0] != "domain"@[0]);
    assert("type"@[0] != "good"@[0]);
    assert("type"@[0] != "rate"@[0]);
    assert("good"@[0] != "rate"@[0]);
    assert("type"@[0] != "from"@[0]);
    assert("type"@[0] != "with"@[0]);
    assert("type"@[1] != "text"@[1]);
    assert("type"@[0] != "line"@[0]);
    assert("type"@[0] != "node"@[0]);
}

/// An action made of plain values only that was recorded is read back.
proof fn lemma_order_survives(order: Action, v: ValueView)
    requires
        order@ == ActionView::Order(order),
        is_finite(order@),
        reads_as(v, order_value(order)),
    ensures
        action_of(v) == Ok::<ActionView, Seq<char>>(order@),
{
    lemma_field_names();
    match order {
        Action::MoveUnit { unit, to } => {
            ActionKind::MoveUnit.key_names_one_kind();
            lemma_object3(v, "type"@, ValueView::Text(ActionKind::MoveUnit.key_text()), "unit"@, unsigned_number(unit.0), "to"@, station_value(to));
            station_survives(to, v.get("to"@)->0);
        },
        Action::HoldUnit { unit } => {
            ActionKind::HoldUnit.key_names_one_kind();
            lemma_object2(v, "type"@, ValueView::Text(ActionKind::HoldUnit.key_text()), "unit"@, unsigned_number(unit.0));
        },
        Action::DisbandUnit { unit } => {
            ActionKind::DisbandUnit.key_names_one_kind();
            lemma_object2(v, "type"@, ValueView::Text(ActionKind::DisbandUnit.key_text()), "unit"@, unsigned_number(unit.0));
        },
        Action::RecruitUnit { region, domain } => {
            ActionKind::RecruitUnit.key_names_one_kind();
            lemma_object3(v, "type"@, ValueView::Text(ActionKind::RecruitUnit.key_text()), "region"@, unsigned_number(region.0), "domain"@, ValueView::Text(domain.key_text()));
            domain.key_names_one_value();
        },
        Action::ReinforceUnit { unit } => {
            ActionKind::ReinforceUnit.key_names_one_kind();
            lemma_object2(v, "type"@, ValueView::Text(ActionKind::ReinforceUnit.key_text()), "unit"@, unsigned_number(unit.0));
        },
        Action::SetConscription(x) => {
            ActionKind::SetConscription.key_names_one_kind();
            lemma_object2(v, "type"@, ValueView::Text(ActionKind::SetConscription.key_text()), "value"@, single_number(x));
        },
        Action::SetIndustryPriority { good, weight } => {
            ActionKind::SetIndustryPriority.key_names_one_kind();
            lemma_object3(v, "type"@, ValueView::Text(ActionKind::SetIndustryPriority.key_text()), "good"@, ValueView::Text(good.key_text()), "weight"@, single_number(weight));
            good.key_names_one_value();
        },
        Action::SetCivilianRation(x) => {
            ActionKind::SetCivilianRation.key_names_one_kind();
            lemma_object2(v, "type"@, ValueView::Text(ActionKind::SetCivilianRation.key_text()), "value"@, single_number(x));
        },
        Action::Build { region, project } => {
            ActionKind::Build.key_names_one_kind();
            lemma_object3(v, "type"@, ValueView::Text(ActionKind::Build.key_text()), "region"@, unsigned_number(region.0), "project"@, project_value(project));
            project_survives(project, v.get("project"@)->0);
        },
        Action::CancelBuild { region } => {
            ActionKind::CancelBuild.key_names_one_kind();
            lemma_object2(v, "type"@, ValueView::Text(ActionKind::CancelBuild.key_text()), "region"@, unsigned_number(region.0));
        },
        Action::SetImportPlan { good, rate } => {
            ActionKind::SetImportPlan.key_names_one_kind();
            lemma_object3(v, "type"@, ValueView::Text(ActionKind::SetImportPlan.key_text()), "good"@, ValueView::Text(good.key_text()), "rate"@, single_number(rate));
            good.key_names_one_value();
        },
        Action::SetLogisticsPriority { good, weight } => {
            ActionKind::SetLogisticsPriority.key_names_one_kind();
            lemma_object3(v, "type"@, ValueView::Text(ActionKind::SetLogisticsPriority.key_text()), "good"@, ValueView::Text(good.key_text()), "weight"@, single_number(weight));
            good.key_names_one_value();
        },
        Action::ProposeTreaty { to, treaty } => {
            ActionKind::ProposeTreaty.key_names_one_kind();
            lemma_object3(v, "type"@, ValueView::Text(ActionKind::ProposeTreaty.key_text()), "to"@, unsigned_number(to.0), "treaty"@, ValueView::Text(treaty.key_text()));
            treaty.key_names_one_value();
        },
        Action::AcceptTreaty { from, treaty } => {
            ActionKind::AcceptTreaty.key_names_one_kind();
            lemma_object3(v, "type"@, ValueView::Text(ActionKind::AcceptTreaty.key_text()), "from"@, unsigned_number(from.0), "treaty"@, ValueView::Text(treaty.key_text()));
            treaty.key_names_one_value();
        },
        Action::RejectTreaty { from, treaty } => {
            ActionKind::RejectTreaty.key_names_one_kind();
            lemma_object3(v, "type"@, ValueView::Text(ActionKind::RejectTreaty.key_text()), "from"@, unsigned_number(from.0), "treaty"@, ValueView::Text(treaty.key_text()));
            treaty.key_names_one_value();
        },
        Action::DeclareWar { to } => {
            ActionKind::DeclareWar.key_names_one_kind();
            lemma_object2(v, "type"@, ValueView::Text(ActionKind::DeclareWar.key_text()), "to"@, unsigned_number(to.0));
        },
        Action::BreakTreaty { with, treaty } => {
            ActionKind::BreakTreaty.key_names_one_kind();
            lemma_object3(v, "type"@, ValueView::Text(ActionKind::BreakTreaty.key_text()), "with"@, unsigned_number(with.0), "treaty"@, ValueView::Text(treaty.key_text()));
            treaty.key_names_one_value();
        },
        Action::SetNationalFocus(focus) => {
            ActionKind::SetNationalFocus.key_names_one_kind();
            lemma_object2(v, "type"@, ValueView::Text(ActionKind::SetNationalFocus.key_text()), "focus"@, ValueView::Text(focus.key_text()));
            focus.key_names_one_value();
        },
        Action::InterdictLine { line } => {
            ActionKind::InterdictLine.key_names_one_kind();
            lemma_object2(v, "type"@, ValueView::Text(ActionKind::InterdictLine.key_text()), "line"@, unsigned_number(line.0));
        },
        Action::StrikeNode { node } => {
            ActionKind::StrikeNode.key_names_one_kind();
            lemma_object2(v, "type"@, ValueView::Text(ActionKind::StrikeNode.key_text()), "node"@, unsigned_number(node.0));
        },
        _ => {},
    }
}

/// Every action that was recorded is read back as it was, for every reading `v` of its recorded
/// form. (An action that holds an infinity or a NaN is not: its quantity cannot be read back.)
pub proof fn action_survives_recording(action: Action, v: ValueView)
    requires
        is_finite(action@),
        reads_as(v, action_value(action@)),
    ensures
        action_of(v) == Ok::<ActionView, Seq<char>>(action@),
{
    lemma_field_names();
    match action@ {
        ActionView::Order(order) => lemma_order_survives(order, v),
        ActionView::Proposal { to, text } => {
            ActionKind::ProposeInNaturalLanguage.key_names_one_kind();
            lemma_object3(
                v,
                "type"@,
                ValueView::Text(ActionKind::ProposeInNaturalLanguage.key_text()),
                "to"@,
                unsigned_number(to.0),
                "text"@,
                ValueView::Text(text),
            );
        },
        ActionView::Response { from, terms, accept } => {
            ActionKind::RespondToNaturalLanguageProposal.key_names_one_kind();
            lemma_object4(
                v,
                "type"@,
                ValueView::Text(ActionKind::RespondToNaturalLanguageProposal.key_text()),
                "from"@,
                unsigned_number(from.0),
                "accept"@,
                ValueView::Bool(accept),
                "terms"@,
                ValueView::Array(treaty_terms_value(terms)),
            );
            treaty_terms_survive(terms, v.get("terms"@)->0->Array_0);
        },
    }
}

/// Whether no action of a run holds an infinity or a NaN.
pub open spec fn days_are_finite(days: Seq<Vec<Action>>) -> bool {
    forall|i: int, j: int| 0 <= i < days.len() && 0 <= j < days[i]@.len() ==> is_finite((#[trigger] days[i]@[j])@)
}

/// The actions `j` and later of a recorded day are read back.
proof fn lemma_day_survives(day: Seq<Action>, items: Seq<ValueView>, i: nat, j: nat)
    requires
        forall|k: int| 0 <= k < day.len() ==> is_finite((#[trigger] day[k])@),
        reads_as(ValueView::Array(items), day_value(day_view(day))),
        j <= day.len(),
    ensures
        day_from(items, i, j) == Ok::<Seq<ActionView>, Seq<char>>(day_view(day).skip(j as int)),
    decreases day.len() - j,
{
    let w = day_value(day_view(day))->Array_0;
    if j < day.len() {
        assert(reads_as(items[j as int], w[j as int]));
        action_survives_recording(day[j as int], items[j as int]);
        lemma_day_survives(day, items, i, j + 1);
        assert(seq![day[j as int]@] + day_view(day).skip(j as int + 1) =~= day_view(day).skip(j as int));
    } else {
        assert(day_view(day).skip(j as int) =~= Seq::empty());
    }
}

/// The days `i` and later of a recorded run are read back.
proof fn lemma_days_survive(days: Seq<Vec<Action>>, items: Seq<ValueView>, i: nat)
    requires
        days_are_finite(days),
        reads_as(ValueView::Array(items), days_value(days_view(days))),
        i <= days.len(),
    ensures
        days_from(items, i) == Ok::<Seq<Seq<ActionView>>, Seq<char>>(days_view(days).skip(i as int)),
    decreases days.len() - i,
{
    let w = days_value(days_view(days))->Array_0;
    if i < days.len() {
        let k = i as int;
        assert(reads_as(items[k], w[k]));
        assert(w[k] == day_value(day_view(days[k]@)));
        lemma_day_survives(days[k]@, items[k]->Array_0, i, 0);
        assert(day_view(days[k]@).skip(0) =~= day_view(days[k]@));
        lemma_days_survive(days, items, i + 1);
        assert(seq![day_view(days[k]@)] + days_view(days).skip(k + 1) =~= days_view(days).skip(k));
    } else {
        assert(days_view(days).skip(i as int) =~= Seq::empty());
    }
}

/// A run that was recorded is read back day by day: an empty day keeps its slot, and every action
/// comes back on the day it was given.
pub proof fn days_survive_recording(days: Seq<Vec<Action>>, v: ValueView)
    requires
        days_are_finite(days),
        reads_as(v, days_value(days_view(days))),
    ensures
        days_of(v) == Ok::<Seq<Seq<ActionView>>, Seq<char>>(days_view(days)),
{
    lemma_days_survive(days, v->Array_0, 0);
    assert(days_view(days).skip(0) =~= days_view(days));
}

/// What was recorded as a full run is the same run, read as a recording.
pub proof fn full_run_is_read_back(days: Seq<Vec<Action>>, value: Value)
    requires
        days_are_finite(days),
        reads_as(value@, days_value(days_view(days))),
    ensures
        recording_of(Ok(value)) == Ok::<Seq<Seq<ActionView>>, Seq<char>>(days_view(days)),
{
    days_survive_recording(days, value@);
}

/// What was recorded as a full run claims every layer, read as a replay.
pub proof fn full_run_claims_every_layer(days: Seq<Vec<Action>>, value: Value)
    requires
        days_are_finite(days),
        reads_as(value@, days_value(days_view(days))),
    ensures
        replay_of(Ok(value)) == Ok::<(Seq<Layer>, Seq<Seq<ActionView>>), Seq<char>>((all_layers(), days_view(days))),
{
    days_survive_recording(days, value@);
}

/// Declared layers are read back in the order they were declared in.
proof fn lemma_layers_survive(layers: Seq<Layer>, items: Seq<ValueView>, i: nat)
    requires
        layers.no_duplicates(),
        reads_as(ValueView::Array(items), layers_value(layers)),
        i <= layers.len(),
    ensures
        layers_from(items, i, layers.take(i as int)) == Ok::<Seq<Layer>, Seq<char>>(layers),
    decreases layers.len() - i,
{
    let w = layers_value(layers)->Array_0;
    if i < layers.len() {
        let k = i as int;
        assert(reads_as(items[k], w[k]));
        layers[k].key_names_one_value();
        assert(!layers.take(k).contains(layers[k])) by {
            if layers.take(k).contains(layers[k]) {
                let m = choose|m: int| 0 <= m < k && layers.take(k)[m] == layers[k];
                assert(layers[m] == layers[k]);
            }
        }
        assert(layers.take(k).push(layers[k]) =~= layers.take(k + 1));
        lemma_layers_survive(layers, items, i + 1);
    } else {
        assert(layers.take(i as int) =~= layers);
    }
}

/// What was recorded for some layers, each declared once, claims exactly those, in the order they
/// were declared in, and holds the same days.
pub proof fn scoped_run_is_read_back(layers: Seq<Layer>, days: Seq<Vec<Action>>, value: Value)
    requires
        layers.no_duplicates(),
        days_are_finite(days),
        reads_as(value@, scoped_value(layers, days_view(days))),
    ensures
        replay_of(Ok(value)) == Ok::<(Seq<Layer>, Seq<Seq<ActionView>>), Seq<char>>((layers, days_view(days))),
{
    reveal_strlit("layers");
    assert("layers"@.len() == 6);
    reveal_strlit("days");
    assert("days"@.len() == 4);
    let v = value@;
    lemma_object2(v, "layers"@, layers_value(layers), "days"@, days_value(days_view(days)));
    assert(layers.take(0) =~= Seq::empty());
    lemma_layers_survive(layers, v.get("layers"@)->0->Array_0, 0);
    days_survive_recording(days, v.get("days"@)->0);
}

/// The layers that a replay claims are distinct.
pub proof fn claimed_layers_are_distinct(v: ValueView)
    ensures
        replay_in(v) matches Ok((layers, _)) ==> layers.no_duplicates(),
{
    if let ValueView::Object(_) = v {
        if let Some(items) = v.array_at("layers"@) {
            lemma_layers_distinct(items, 0, Seq::empty());
        }
    }
}

proof fn lemma_layers_distinct(items: Seq<ValueView>, i: nat, done: Seq<Layer>)
    requires
        done.no_duplicates(),
    ensures
        layers_from(items, i, done) matches Ok(layers) ==> layers.no_duplicates(),
    decreases items.len() - i,
{
    if i < items.len() {
        if let Some(key) = items[i as int].as_str() {
            if let Ok(layer) = layer_named(key) {
                if !done.contains(layer) {
                    lemma_layers_distinct(items, i + 1, done.push(layer));
                }
            }
        }
    }
}

} // verus!
