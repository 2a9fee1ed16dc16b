//! The policy panel.
use crate::arithmetic::{difference_of, held_between, larger, sum_of};
use crate::client::{Command, PolicyField, Ui};
use crate::palette::one;
use crate::quantity::{zero, Quantity};
use crate::region_panel::{button_look, ButtonLook};
use crate::rejection::{panel_rejection, panel_rejection_text, Rejection, RejectionTarget};
use crate::target_panels::optional_str;
use crate::text::{decimal, decimal_text};
use crate::types::{Action, FactionId, Good, NationalFocus};
use crate::world::{Balance, Faction, World, FOCUS_COUNT, GOOD_COUNT};
use vstd::prelude::*;

verus! {

/// How many policy values there are.
pub const POLICY_FIELD_COUNT: usize = 5;

impl PolicyField {
    /// The value at a position of the panel.
    pub open spec fn at(i: int) -> PolicyField {
        if i == 0 {
            PolicyField::Conscription
        } else if i == 1 {
            PolicyField::Ration
        } else if i == 2 {
            PolicyField::Industry
        } else if i == 3 {
            PolicyField::Logistics
        } else {
            PolicyField::Import
        }
    }

    /// The value at a position of the panel.
    pub fn nth(i: usize) -> (field: PolicyField)
        ensures
            field == PolicyField::at(i as int),
    {
        match i {
            0 => PolicyField::Conscription,
            1 => PolicyField::Ration,
            2 => PolicyField::Industry,
            3 => PolicyField::Logistics,
            _ => PolicyField::Import,
        }
    }

    /// The name of the value, with its keys.
    pub open spec fn label_text(self) -> Seq<char> {
        match self {
            PolicyField::Conscription => "徴兵率 [-/=]"@,
            PolicyField::Ration => "配給率 [[/]]"@,
            PolicyField::Industry => "生産優先度 [;/']"@,
            PolicyField::Logistics => "物流優先度 [,/.]"@,
            PolicyField::Import => "輸入計画 [8/9]"@,
        }
    }

    /// The name of the value, with its keys.
    pub fn label(self) -> (text: &'static str)
        ensures
            text@ == self.label_text(),
    {
        match self {
            PolicyField::Conscription => "徴兵率 [-/=]",
            PolicyField::Ration => "配給率 [[/]]",
            PolicyField::Industry => "生産優先度 [;/']",
            PolicyField::Logistics => "物流優先度 [,/.]",
            PolicyField::Import => "輸入計画 [8/9]",
        }
    }

    /// The current value, with the good it is about.
    pub open spec fn value_of(self, world: World, faction: Faction, good: Good) -> Seq<char> {
        let about = " ("@ + world.labels.goods@[good.position()]@ + ")"@;
        match self {
            PolicyField::Conscription => faction.conscription.fixed(2),
            PolicyField::Ration => faction.civilian_ration.fixed(2),
            PolicyField::Industry => faction.industry_priority@[good.position()].fixed(2) + about,
            PolicyField::Logistics => faction.logistics_priority@[good.position()].fixed(2) + about,
            PolicyField::Import => faction.import_plan@[good.position()].fixed(1) + about,
        }
    }

    /// Writes the current value, with the good it is about.
    pub fn value_text(self, world: &World, faction: &Faction, good: Good) -> (text: String)
        requires
            world.valid(),
            faction.industry_priority@.len() == GOOD_COUNT,
            faction.logistics_priority@.len() == GOOD_COUNT,
            faction.import_plan@.len() == GOOD_COUNT,
        ensures
            text@ == self.value_of(*world, *faction, good),
    {
        let mut about = " (".to_owned();
        about.append(world.labels.goods[good.index()].as_str());
        about.append(")");
        match self {
            PolicyField::Conscription => faction.conscription.fixed_text(2),
            PolicyField::Ration => faction.civilian_ration.fixed_text(2),
            PolicyField::Industry => {
                let mut text = faction.industry_priority[good.index()].fixed_text(2);
                text.append(about.as_str());
                text
            },
            PolicyField::Logistics => {
                let mut text = faction.logistics_priority[good.index()].fixed_text(2);
                text.append(about.as_str());
                text
            },
            PolicyField::Import => {
                let mut text = faction.import_plan[good.index()].fixed_text(1);
                text.append(about.as_str());
                text
            },
        }
    }

    /// Why the value cannot be changed, if it cannot: only food and energy are imported.
    pub open spec fn obstacle(self, good: Good) -> Option<Seq<char>> {
        if self == PolicyField::Import && good != Good::Food && good != Good::Energy {
            Some("食料・エネルギーのみ輸入可能"@)
        } else {
            None
        }
    }

    /// Why the value cannot be changed, if it cannot.
    pub fn disabled_reason(self, good: Good) -> (reason: Option<&'static str>)
        ensures
            optional_str(reason) == self.obstacle(good),
    {
        if self == PolicyField::Import && good != Good::Food && good != Good::Energy {
            Some("食料・エネルギーのみ輸入可能")
        } else {
            None
        }
    }
}

/// Whether the panel is open.
pub open spec fn policy_panel_shown(ui: Ui) -> bool {
    ui.player is Some && ui.policy_open && !ui.diplomacy_open
}

/// A row of the panel: a value, and whether it can be changed.
pub struct PolicyRow {
    pub text: String,
    pub look: ButtonLook,
}

/// The policy panel.
pub struct PolicyPanel {
    /// How the tab of each good looks.
    pub tabs: Vec<ButtonLook>,
    pub rows: Vec<PolicyRow>,
    /// How the button of each national focus looks.
    pub foci: Vec<ButtonLook>,
    pub focus_reason: String,
    pub rejection: String,
}

/// A value as its row shows it.
pub open spec fn policy_row(field: PolicyField, world: World, faction: Faction, good: Good) -> (Seq<char>, ButtonLook) {
    (field.label_text() + ": "@ + field.value_of(world, faction, good), button_look(field.obstacle(good) is None, false))
}

/// How the button of a national focus looks: during a change of focus only the new one is open.
pub open spec fn focus_look(faction: Faction, focus: NationalFocus) -> ButtonLook {
    let current = focus == faction.national_focus;
    button_look(current || faction.focus_transition_days == 0, current)
}

/// What is said about a change of focus that is under way.
pub open spec fn focus_reason_text(world: World, faction: Faction) -> Seq<char> {
    if faction.focus_transition_days > 0 {
        "方針転換中（あと"@ + decimal(faction.focus_transition_days as nat) + "日、現在: "@
            + world.labels.foci@[faction.national_focus.position()]@ + "）"@
    } else {
        Seq::empty()
    }
}

fn focus_reason(world: &World, faction: &Faction) -> (text: String)
    requires
        world.valid(),
    ensures
        text@ == focus_reason_text(*world, *faction),
{
    if faction.focus_transition_days > 0 {
        let mut text = "方針転換中（あと".to_owned();
        text.append(decimal_text(faction.focus_transition_days as usize).as_str());
        text.append("日、現在: ");
        text.append(world.labels.foci[faction.national_focus.index()].as_str());
        text.append("）");
        text
    } else {
        String::new()
    }
}

fn good_tabs(active_good: Good) -> (tabs: Vec<ButtonLook>)
    ensures
        tabs@ == Seq::new(GOOD_COUNT as nat, |i: int| button_look(true, Good::at(i) == active_good)),
{
    let mut tabs: Vec<ButtonLook> = Vec::new();
    let mut i: usize = 0;
    while i < GOOD_COUNT
        invariant
            i <= GOOD_COUNT,
            tabs.len() == i,
            forall|k: int| 0 <= k < i ==> #[trigger] tabs@[k] == button_look(true, Good::at(k) == active_good),
        decreases GOOD_COUNT - i,
    {
        tabs.push(if Good::nth(i) == active_good { ButtonLook::Active } else { ButtonLook::Enabled });
        i += 1;
    }
    assert(tabs@ =~= Seq::new(GOOD_COUNT as nat, |k: int| button_look(true, Good::at(k) == active_good)));
    tabs
}

fn policy_rows(world: &World, faction: &Faction, good: Good) -> (rows: Vec<PolicyRow>)
    requires
        world.valid(),
        faction.industry_priority@.len() == GOOD_COUNT,
        faction.logistics_priority@.len() == GOOD_COUNT,
        faction.import_plan@.len() == GOOD_COUNT,
    ensures
        rows@.len() == POLICY_FIELD_COUNT,
        forall|i: int|
            0 <= i < rows@.len() ==> ((#[trigger] rows@[i]).text@, rows@[i].look) == policy_row(
                PolicyField::at(i),
                *world,
                *faction,
                good,
            ),
{
    let mut rows: Vec<PolicyRow> = Vec::new();
    let mut i: usize = 0;
    while i < POLICY_FIELD_COUNT
        invariant
            world.valid(),
            faction.industry_priority@.len() == GOOD_COUNT,
            faction.logistics_priority@.len() == GOOD_COUNT,
            faction.import_plan@.len() == GOOD_COUNT,
            i <= POLICY_FIELD_COUNT,
            rows.len() == i,
            forall|k: int|
                0 <= k < i ==> ((#[trigger] rows@[k]).text@, rows@[k].look) == policy_row(
                    PolicyField::at(k),
                    *world,
                    *faction,
                    good,
                ),
        decreases POLICY_FIELD_COUNT - i,
    {
        let field = PolicyField::nth(i);
        let mut text = field.label().to_owned();
        text.append(": ");
        text.append(field.value_text(world, faction, good).as_str());
        let look = if field.disabled_reason(good).is_none() {
            ButtonLook::Enabled
        } else {
            ButtonLook::Disabled
        };
        rows.push(PolicyRow { text, look });
        i += 1;
    }
    rows
}

fn focus_looks(faction: &Faction) -> (looks: Vec<ButtonLook>)
    ensures
        looks@ == Seq::new(FOCUS_COUNT as nat, |i: int| focus_look(*faction, NationalFocus::at(i))),
{
    let mut looks: Vec<ButtonLook> = Vec::new();
    let mut i: usize = 0;
    while i < FOCUS_COUNT
        invariant
            i <= FOCUS_COUNT,
            looks.len() == i,
            forall|k: int| 0 <= k < i ==> #[trigger] looks@[k] == focus_look(*faction, NationalFocus::at(k)),
        decreases FOCUS_COUNT - i,
    {
        let current = NationalFocus::nth(i) == faction.national_focus;
        looks.push(
            if current {
                ButtonLook::Active
            } else if faction.focus_transition_days > 0 {
                ButtonLook::Disabled
            } else {
                ButtonLook::Enabled
            },
        );
        i += 1;
    }
    assert(looks@ =~= Seq::new(FOCUS_COUNT as nat, |k: int| focus_look(*faction, NationalFocus::at(k))));
    looks
}

/// The policy panel; `None` while it is closed.
pub fn sync_policy_panel(ui: &Ui, world: &World, rejections: &Vec<Rejection>) -> (panel: Option<PolicyPanel>)
    requires
        world.valid(),
        ui.known_in(*world),
    ensures
        panel is Some <==> policy_panel_shown(*ui),
        panel matches Some(p) ==> {
            let faction = world.faction_at(ui.player->0);
            &&& p.tabs@ == Seq::new(GOOD_COUNT as nat, |i: int| button_look(true, Good::at(i) == ui.active_good))
            &&& p.rows@.len() == POLICY_FIELD_COUNT
            &&& (forall|i: int|
                0 <= i < p.rows@.len() ==> ((#[trigger] p.rows@[i]).text@, p.rows@[i].look) == policy_row(
                    PolicyField::at(i),
                    *world,
                    faction,
                    ui.active_good,
                ))
            &&& p.foci@ == Seq::new(FOCUS_COUNT as nat, |i: int| focus_look(faction, NationalFocus::at(i)))
            &&& p.focus_reason@ == focus_reason_text(*world, faction)
            &&& p.rejection@ == panel_rejection(rejections@, RejectionTarget::Policy)
        },
{
    if !ui.policy_open || ui.diplomacy_open {
        return None;
    }
    match ui.player {
        None => None,
        Some(player) => {
            let faction = world.faction(player);
            assert(faction.valid(world.regions@.len()));
            Some(
                PolicyPanel {
                    tabs: good_tabs(ui.active_good),
                    rows: policy_rows(world, faction, ui.active_good),
                    foci: focus_looks(faction),
                    focus_reason: focus_reason(world, faction),
                    rejection: panel_rejection_text(rejections, RejectionTarget::Policy),
                },
            )
        },
    }
}

/// A click on the tab of a good picks that good.
pub fn handle_good_tab_click(ui: Ui, good: Good) -> (after: Ui)
    ensures
        after == (Ui { active_good: good, ..ui }),
{
    Ui { active_good: good, ..ui }
}

/// What a click on a step button asks for.
pub open spec fn step_click(ui: Ui, world: World, field: PolicyField, increase: bool) -> Option<Command> {
    match ui.player {
        Some(player) => if field.obstacle(ui.active_good) is None {
            Some(Command::Order(field.order(world, player, ui.active_good, increase)))
        } else {
            None
        },
        None => None,
    }
}

/// What a click on a step button asks for.
pub fn handle_policy_step_click(ui: &Ui, world: &World, field: PolicyField, increase: bool) -> (command: Option<Command>)
    requires
        world.valid(),
        ui.known_in(*world),
    ensures
        command == step_click(*ui, *world, field, increase),
{
    match ui.player {
        Some(player) => if field.disabled_reason(ui.active_good).is_none() {
            Some(Command::Order(field.action(world, player, ui.active_good, increase)))
        } else {
            None
        },
        None => None,
    }
}

/// What a click on the button of a national focus asks for.
pub open spec fn focus_click(ui: Ui, world: World, focus: NationalFocus) -> Option<Command> {
    match ui.player {
        Some(player) => if focus_look(world.faction_at(player), focus) == ButtonLook::Disabled {
            None
        } else {
            Some(Command::Order(Action::SetNationalFocus(focus)))
        },
        None => None,
    }
}

/// What a click on the button of a national focus asks for.
pub fn handle_focus_click(ui: &Ui, world: &World, focus: NationalFocus) -> (command: Option<Command>)
    requires
        ui.known_in(*world),
    ensures
        command == focus_click(*ui, *world, focus),
{
    match ui.player {
        Some(player) => {
            let faction = world.faction(player);
            if faction.focus_transition_days > 0 && focus != faction.national_focus {
                None
            } else {
                Some(Command::Order(Action::SetNationalFocus(focus)))
            }
        },
        None => None,
    }
}

/// How far a step moves a policy value: a twentieth, a tenth, or 5.
pub open spec fn step_size(field: PolicyField) -> Quantity {
    match field {
        PolicyField::Conscription | PolicyField::Ration => Quantity { bits: 0x3d4c_cccd },
        PolicyField::Industry | PolicyField::Logistics => Quantity { bits: 0x3dcc_cccd },
        PolicyField::Import => Quantity { bits: 0x40a0_0000 },
    }
}

/// How far a step moves a policy value.
pub fn policy_step(field: PolicyField) -> (step: Quantity)
    ensures
        step == step_size(field),
{
    match field {
        PolicyField::Conscription | PolicyField::Ration => Quantity { bits: 0x3d4c_cccd },
        PolicyField::Industry | PolicyField::Logistics => Quantity { bits: 0x3dcc_cccd },
        PolicyField::Import => Quantity { bits: 0x40a0_0000 },
    }
}

/// The current value of a policy.
pub open spec fn policy_value(field: PolicyField, faction: Faction, good: Good) -> Quantity {
    match field {
        PolicyField::Conscription => faction.conscription,
        PolicyField::Ration => faction.civilian_ration,
        PolicyField::Industry => faction.industry_priority@[good.position()],
        PolicyField::Logistics => faction.logistics_priority@[good.position()],
        PolicyField::Import => faction.import_plan@[good.position()],
    }
}

/// The current value of a policy.
pub fn current_value(field: PolicyField, faction: &Faction, good: Good) -> (value: Quantity)
    requires
        faction.industry_priority@.len() == GOOD_COUNT,
        faction.logistics_priority@.len() == GOOD_COUNT,
        faction.import_plan@.len() == GOOD_COUNT,
    ensures
        value == policy_value(field, *faction, good),
{
    match field {
        PolicyField::Conscription => faction.conscription,
        PolicyField::Ration => faction.civilian_ration,
        PolicyField::Industry => faction.industry_priority[good.index()],
        PolicyField::Logistics => faction.logistics_priority[good.index()],
        PolicyField::Import => faction.import_plan[good.index()],
    }
}

/// The order that sets a policy to a value, brought into its range.
pub open spec fn step_order(field: PolicyField, good: Good, moved: Quantity, balance: Balance) -> Action {
    match field {
        PolicyField::Conscription => Action::SetConscription(held_between(moved, zero(), one())),
        PolicyField::Ration => Action::SetCivilianRation(
            held_between(moved, balance.civilian_ration_min, balance.civilian_ration_max),
        ),
        PolicyField::Industry => Action::SetIndustryPriority { good, weight: held_between(moved, zero(), one()) },
        PolicyField::Logistics => Action::SetLogisticsPriority { good, weight: held_between(moved, zero(), one()) },
        PolicyField::Import => Action::SetImportPlan { good, rate: larger(moved, zero()) },
    }
}

/// The value of a policy after a step.
pub open spec fn stepped_value(field: PolicyField, faction: Faction, good: Good, increase: bool) -> Quantity {
    if increase {
        sum_of(policy_value(field, faction, good), step_size(field))
    } else {
        difference_of(policy_value(field, faction, good), step_size(field))
    }
}

/// The value of a policy after a step.
pub fn step_value(field: PolicyField, faction: &Faction, good: Good, increase: bool) -> (value: Quantity)
    requires
        faction.industry_priority@.len() == GOOD_COUNT,
        faction.logistics_priority@.len() == GOOD_COUNT,
        faction.import_plan@.len() == GOOD_COUNT,
    ensures
        value == stepped_value(field, *faction, good, increase),
{
    let value = current_value(field, faction, good);
    if increase {
        value.plus(policy_step(field))
    } else {
        value.minus(policy_step(field))
    }
}

impl PolicyField {
    /// The order that a step of a policy value gives.
    pub open spec fn order(self, world: World, player: FactionId, good: Good, increase: bool) -> Action {
        step_order(self, good, stepped_value(self, world.faction_at(player), good, increase), world.balance)
    }

    /// The order that a step of a policy value gives.
    pub fn action(self, world: &World, player: FactionId, good: Good, increase: bool) -> (action: Action)
        requires
            world.valid(),
            world.has_faction(player),
        ensures
            action == self.order(*world, player, good, increase),
    {
        let faction = world.faction(player);
        assert(faction.valid(world.regions@.len()));
        let moved = step_value(self, faction, good, increase);
        let zero = Quantity { bits: 0 };
        let one = Quantity { bits: 0x3f80_0000 };
        match self {
            PolicyField::Conscription => Action::SetConscription(moved.hold_between(zero, one)),
            PolicyField::Ration => Action::SetCivilianRation(
                moved.hold_between(world.balance.civilian_ration_min, world.balance.civilian_ration_max),
            ),
            PolicyField::Industry => Action::SetIndustryPriority { good, weight: moved.hold_between(zero, one) },
            PolicyField::Logistics => Action::SetLogisticsPriority { good, weight: moved.hold_between(zero, one) },
            PolicyField::Import => Action::SetImportPlan { good, rate: moved.or_larger(zero) },
        }
    }
}

/// A share that a step sets stays between 0 and 1.
pub proof fn stepped_shares_stay_in_range(moved: Quantity)
    requires
        !moved.nan(),
    ensures
        zero().at_most(held_between(moved, zero(), one())),
        held_between(moved, zero(), one()).at_most(one()),
{
    assert(!zero().nan());
    assert(!one().nan());
}

/// A policy value can be stepped exactly where its row is enabled, and a focus chosen exactly where its
/// button is not disabled.
pub proof fn enabled_policies_are_those_that_act(ui: Ui, world: World, field: PolicyField, increase: bool, focus: NationalFocus)
    requires
        ui.player is Some,
    ensures
        policy_row(field, world, world.faction_at(ui.player->0), ui.active_good).1 == ButtonLook::Enabled <==> step_click(
            ui,
            world,
            field,
            increase,
        ) is Some,
        focus_look(world.faction_at(ui.player->0), focus) != ButtonLook::Disabled <==> focus_click(ui, world, focus) is Some,
{
}

} // verus!
