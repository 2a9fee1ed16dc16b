//! When a button gives its order, and which: what stands in the way of an order, and what is asked for where
//! nothing does.
use crate::arithmetic::{difference_of, held_between, hundred, larger, product_of, sum_of};
use crate::client::{Command, PolicyField, Ui};
use crate::diplomacy_panel::{
    action_click, answer_text, click_begins_compose, compose_reason_text, compose_text, diplomacy_panel_shown, pending_text, propose_obstacle, stance_text, status_text,
    text_from, treaty_click, treaty_text, war_obstacle, DiplomacyAction,
};
use crate::keyboard::pending_treaty;
use crate::palette::one;
use crate::policy_panel::{focus_click, focus_look, focus_reason_text, policy_panel_shown, policy_row, step_click};
use crate::quantity::{zero, Quantity};
use crate::region_panel::{branch_tab_look, button_look, region_click, ButtonLook, RegionActionKind};
use crate::target_panels::{interdict_click, line_overflow, line_text, strike_click, touches, touching, StrikeKind};
use crate::text::decimal;
use crate::types::{Action, Domain, FactionId, Good, NationalFocus, Project, RegionId, TransportLineId, Treaty};
use crate::unit_panel::{reinforce_obstacle, shows_unit, unit_panel_shown, unit_text, UnitRow};
use crate::world::{Branch, Faction, Stance, TREATY_COUNT, TextProposal, World};
use vstd::prelude::*;

verus! {

/// How a button looks: disabled where it does nothing, else marked where it is the one chosen.
pub proof fn buttons_look_as_they_act(active: bool)
    ensures
        button_look(false, active) == ButtonLook::Disabled,
        button_look(true, true) == ButtonLook::Active,
        button_look(true, false) == ButtonLook::Enabled,
{
}

/// Whether a faction has what a unit takes: people, equipment, and for aircraft machinery.
pub open spec fn can_raise(world: World, faction: FactionId, equipment: int, air: bool) -> bool {
    let f = world.factions@[faction.0 as int];
    &&& !f.manpower.less(world.balance.unit_manpower)
    &&& !f.equipment@[equipment].stock.less(world.balance.unit_equipment)
    &&& air ==> !f.stock@[3].less(world.balance.air_unit_machinery_cost)
}

/// An order for a region can be given exactly where the region is one's own and no enemy stands in it, and where
/// the order itself has what it takes: a unit people and equipment of its kind; a fleet a port as well, a
/// squadron an airfield and machinery; a building a free site, and an end to building one under way.
pub proof fn orders_for_a_region_need_what_they_take(ui: Ui, world: World, faction: FactionId, region: RegionId)
    requires
        ui.player == Some(faction),
        ui.selected_region == Some(region),
        region.0 < world.regions@.len(),
    ensures
        ({
            let r = world.regions@[region.0 as int];
            let held = r.owner == faction && !r.enemy_units@[faction.0 as int];
            let own = match ui.active_branch {
                Branch::Infantry => 0int,
                Branch::Armour => 1,
                Branch::Artillery => 2,
            };
            let (good, branch) = (ui.active_good, ui.active_branch);
            &&& region_click(ui, world, RegionActionKind::RecruitLand) == (if held && can_raise(world, faction, own, false) {
                Some(Command::Recruit { region, domain: Domain::Land, branch })
            } else {
                None
            })
            &&& region_click(ui, world, RegionActionKind::RecruitSea) == (if held && !r.port.at_most(zero()) && can_raise(
                world,
                faction,
                3,
                false,
            ) {
                Some(Command::Recruit { region, domain: Domain::Sea, branch: Branch::Infantry })
            } else {
                None
            })
            &&& region_click(ui, world, RegionActionKind::RecruitAir) == (if held && r.airfield is Some && can_raise(
                world,
                faction,
                4,
                true,
            ) {
                Some(Command::Recruit { region, domain: Domain::Air, branch: Branch::Infantry })
            } else {
                None
            })
            &&& region_click(ui, world, RegionActionKind::BuildInfra) == (if held && r.construction is None {
                Some(Command::Order(Action::Build { region, project: Project::Infrastructure }))
            } else {
                None
            })
            &&& region_click(ui, world, RegionActionKind::BuildPort) == (if held && r.construction is None {
                Some(Command::Order(Action::Build { region, project: Project::Port }))
            } else {
                None
            })
            &&& region_click(ui, world, RegionActionKind::BuildCapacity) == (if held && r.construction is None {
                Some(Command::Order(Action::Build { region, project: Project::Capacity(good) }))
            } else {
                None
            })
            &&& region_click(ui, world, RegionActionKind::Repair) == (if held && r.construction is None {
                Some(Command::Order(Action::Build { region, project: Project::Repair }))
            } else {
                None
            })
            &&& region_click(ui, world, RegionActionKind::CancelBuild) == (if held && r.construction is Some {
                Some(Command::Order(Action::CancelBuild { region }))
            } else {
                None
            })
        }),
{
}

/// What stands in the way of an order for a region is told in the order in which it counts: whose the region is,
/// then enemies in it, then what the order itself lacks.
pub proof fn what_stands_in_the_way_is_told(world: World, faction: FactionId, region: RegionId, kind: RegionActionKind, branch: Branch)
    requires
        region.0 < world.regions@.len(),
    ensures
        ({
            let r = world.regions@[region.0 as int];
            let f = world.factions@[faction.0 as int];
            let told = kind.obstacle(world, faction, region, branch);
            let held = r.owner == faction && !r.enemy_units@[faction.0 as int];
            let raises = kind == RegionActionKind::RecruitLand || kind == RegionActionKind::RecruitSea || kind
                == RegionActionKind::RecruitAir;
            let placed = (kind == RegionActionKind::RecruitSea ==> !r.port.at_most(zero())) && (kind
                == RegionActionKind::RecruitAir ==> r.airfield is Some);
            &&& r.owner != faction ==> told == Some("自国の地域ではない"@)
            &&& r.owner == faction && !held ==> told == Some("地域が係争中（敵部隊がいる）"@)
            &&& held && kind == RegionActionKind::RecruitSea && !placed ==> told == Some("この地域に港湾がない"@)
            &&& held && kind == RegionActionKind::RecruitAir && !placed ==> told == Some("この地域に飛行場がない"@)
            &&& held && raises && placed && f.manpower.less(world.balance.unit_manpower) ==> told == Some(
                "人的資源が不足している"@,
            )
            &&& held && kind == RegionActionKind::CancelBuild && r.construction is None ==> told == Some(
                "この地域に建設中の工事がない"@,
            )
            &&& held && !raises && kind != RegionActionKind::CancelBuild && r.construction is Some ==> told == Some(
                "この地域はすでに建設中"@,
            )
        }),
{
}

/// Without a player or a selected region, no button of a region gives an order.
pub proof fn nobody_orders_nowhere(ui: Ui, world: World, kind: RegionActionKind, strike: StrikeKind)
    requires
        ui.player is None || ui.selected_region is None,
    ensures
        region_click(ui, world, kind) is None,
        strike_click(ui, world, strike) is None,
{
}

/// An air strike can be ordered exactly on an airfield or a port that is there, of a faction one is at war with,
/// within reach of one's aircraft; and it hits that one.
pub proof fn air_strikes_hit_enemies_in_reach(ui: Ui, world: World, faction: FactionId, region: RegionId)
    requires
        ui.player == Some(faction),
        ui.selected_region == Some(region),
        region.0 < world.regions@.len(),
    ensures
        ({
            let r = world.regions@[region.0 as int];
            let open = r.owner != faction && world.relations@[faction.0 as int]@[r.owner.0 as int].stance == Stance::War
                && r.aircraft_reach@[faction.0 as int];
            &&& strike_click(ui, world, StrikeKind::Airfield) == (if open && r.airfield is Some {
                Some(Command::Order(Action::StrikeNode { node: r.airfield->0 }))
            } else {
                None
            })
            &&& strike_click(ui, world, StrikeKind::Port) == (if open && r.port_node is Some {
                Some(Command::Order(Action::StrikeNode { node: r.port_node->0 }))
            } else {
                None
            })
        }),
        StrikeKind::Airfield.label_text() == "飛行場を空爆"@,
        StrikeKind::Port.label_text() == "港湾を空爆"@,
{
}

/// A transport line can be interdicted exactly where both of its ends belong to one faction that one is at war
/// with, and one's forces reach at least one of them.
pub proof fn interdictions_hit_enemies_in_reach(ui: Ui, world: World, faction: FactionId, line: TransportLineId)
    requires
        ui.player == Some(faction),
    ensures
        interdict_click(ui, world, line) == (if line.0 < world.lines@.len() && ({
            let l = world.lines@[line.0 as int];
            let a = world.regions@[world.nodes@[l.from.0 as int].region.0 as int];
            let b = world.regions@[world.nodes@[l.to.0 as int].region.0 as int];
            &&& a.owner == b.owner
            &&& a.owner != faction
            &&& world.relations@[faction.0 as int]@[a.owner.0 as int].stance == Stance::War
            &&& a.force_reach@[faction.0 as int] || b.force_reach@[faction.0 as int]
        }) {
            Some(Command::Order(Action::InterdictLine { line }))
        } else {
            None
        }),
        ui.player is None ==> interdict_click(ui, world, line) is None,
{
}

/// The row of a transport line names its number, its condition in hundredths and the region at its other end.
pub proof fn lines_are_named_by_their_other_end(world: World, region: RegionId, line: TransportLineId)
    ensures
        ({
            let l = world.lines@[line.0 as int];
            let from = world.nodes@[l.from.0 as int].region;
            let to = world.nodes@[l.to.0 as int].region;
            let head = "路線 #"@ + decimal(line.0 as nat) + " ("@ + product_of(l.condition, hundred()).fixed(0) + "%) - "@;
            &&& from == region ==> line_text(world, region, line) == head + world.regions@[to.0 as int].name@
            &&& from != region ==> line_text(world, region, line) == head + world.regions@[from.0 as int].name@
        }),
{
}

/// The lines that a region's panel lists are exactly those of one other owner with an end in the region.
pub proof fn listed_lines_have_an_end_in_the_region(world: World, faction: FactionId, region: RegionId, line: int)
    requires
        0 <= line < world.lines@.len() <= u32::MAX,
    ensures
        touching(world, faction, region, world.lines@.len()).contains(TransportLineId(line as u32)) <==> ({
            let l = world.lines@[line];
            let from = world.nodes@[l.from.0 as int].region;
            let to = world.nodes@[l.to.0 as int].region;
            let (a, b) = (world.regions@[from.0 as int], world.regions@[to.0 as int]);
            &&& from == region || to == region
            &&& a.owner == b.owner
            &&& a.owner != faction
        }),
{
    lemma_touching(world, faction, region, line, world.lines@.len());
}

proof fn lemma_touching(world: World, faction: FactionId, region: RegionId, line: int, n: nat)
    requires
        0 <= line < world.lines@.len() <= u32::MAX,
        n <= world.lines@.len(),
    ensures
        touching(world, faction, region, n).contains(TransportLineId(line as u32)) <==> line < n && touches(
            world,
            faction,
            region,
            line,
        ),
    decreases n,
{
    if n > 0 {
        lemma_touching(world, faction, region, line, (n - 1) as nat);
        let before = touching(world, faction, region, (n - 1) as nat);
        let id = TransportLineId((n - 1) as u32);
        let wanted = TransportLineId(line as u32);
        if touches(world, faction, region, n - 1) {
            let list = before.push(id);
            assert(list[before.len() as int] == id);
            if before.contains(wanted) {
                let k = choose|k: int| 0 <= k < before.len() && before[k] == wanted;
                assert(list[k] == wanted);
            }
            if list.contains(wanted) && wanted != id {
                let k = choose|k: int| 0 <= k < list.len() && list[k] == wanted;
                assert(before[k] == wanted);
            }
        }
    }
}

/// The buttons of the diplomacy panel ask the counterpart, and nobody else: to accept or to reject what it has
/// proposed to the player, to declare war where there is a ceasefire, or to propose a treaty that is neither
/// in force nor was proposed too lately.
pub proof fn diplomacy_buttons_ask_the_counterpart(ui: Ui, world: World, player: FactionId, target: FactionId, treaty: Treaty)
    requires
        ui.player == Some(player),
        ui.diplomacy_target == Some(target),
    ensures
        ({
            let relation = world.relations@[player.0 as int]@[target.0 as int];
            let offer = pending_treaty(world, target, player);
            &&& action_click(ui, world, DiplomacyAction::Accept) == (if offer is Some {
                Some(Command::Order(Action::AcceptTreaty { from: target, treaty: offer->0 }))
            } else {
                None
            })
            &&& action_click(ui, world, DiplomacyAction::Reject) == (if offer is Some {
                Some(Command::Order(Action::RejectTreaty { from: target, treaty: offer->0 }))
            } else {
                None
            })
            &&& action_click(ui, world, DiplomacyAction::DeclareWar) == (if relation.stance == Stance::Ceasefire {
                Some(Command::Order(Action::DeclareWar { to: target }))
            } else {
                None
            })
            &&& action_click(ui, world, DiplomacyAction::Break) matches Some(Command::Order(Action::BreakTreaty { with, .. }))
                && with == target
            &&& action_click(ui, world, DiplomacyAction::Compose) is None
            &&& treaty_click(ui, world, treaty) == (if !relation.treaties@[treaty.position()]
                && relation.cooldowns@[treaty.position()] == 0 {
                Some(Command::Order(Action::ProposeTreaty { to: target, treaty }))
            } else {
                None
            })
            &&& relation.treaties@[treaty.position()] ==> propose_obstacle(world, player, target, treaty) == Some("既に締結済み"@)
            &&& !relation.treaties@[treaty.position()] && relation.cooldowns@[treaty.position()] > 0 ==> propose_obstacle(
                world,
                player,
                target,
                treaty,
            ) == Some("クールダウン中"@)
        }),
{
}

/// Where treaties stand in lists.
pub proof fn places_of_treaties()
    ensures
        Treaty::Ceasefire.position() == 0,
        Treaty::NonAggression.position() == 1,
        Treaty::Alliance.position() == 2,
        Treaty::MilitaryAccess.position() == 3,
        Treaty::PortAccess.position() == 4,
        Treaty::TradeAgreement.position() == 5,
        forall|i: int| 0 <= i < TREATY_COUNT ==> (#[trigger] Treaty::at(i)).position() == i,
{
}

/// Where goods, foci and branches stand in lists.
pub proof fn places_of_goods_foci_and_branches()
    ensures
        Good::Food.position() == 0,
        Good::Energy.position() == 1,
        Good::Steel.position() == 2,
        Good::Machinery.position() == 3,
        Good::Munitions.position() == 4,
        Good::Arms.position() == 5,
        forall|i: int| 0 <= i < 6 ==> (#[trigger] Good::at(i)).position() == i,
        NationalFocus::MilitaryUnification.position() == 0,
        NationalFocus::EconomicSphere.position() == 1,
        NationalFocus::AllianceNetwork.position() == 2,
        NationalFocus::MaritimeTrade.position() == 3,
        NationalFocus::Technocracy.position() == 4,
        NationalFocus::DefensivePosture.position() == 5,
        forall|i: int| 0 <= i < 6 ==> (#[trigger] NationalFocus::at(i)).position() == i,
        Branch::Infantry.position() == 0,
        Branch::Armour.position() == 1,
        Branch::Artillery.position() == 2,
        forall|i: int| 0 <= i < 3 ==> (#[trigger] Branch::at(i)).position() == i,
{
}

/// Why war cannot be declared, by how the two stand to each other.
pub proof fn war_follows_a_ceasefire_only()
    ensures
        war_obstacle(Stance::Ceasefire) is None,
        war_obstacle(Stance::War) == Some("既に交戦中"@),
        war_obstacle(Stance::NonAggression) == Some("不可侵条約を破棄してから宣戦できる"@),
        war_obstacle(Stance::Alliance) == Some("同盟を破棄してから宣戦できる"@),
{
}

/// The diplomacy panel tells whom it deals with, how they stand to the player, and what they have proposed.
pub proof fn the_diplomacy_panel_tells_of_the_counterpart(world: World, player: FactionId, target: FactionId, offer: Treaty)
    ensures
        status_text(world, player, target) == "対象: "@ + world.factions@[target.0 as int].name@ + "   関係: "@ + stance_text(
            world.relations@[player.0 as int]@[target.0 as int].stance,
        ) + "   感情: "@ + world.relations@[player.0 as int]@[target.0 as int].opinion.fixed(0),
        answer_text(Some(offer)) == "相手からの提案: "@ + treaty_text(offer),
        answer_text(None) == "相手からの提案がない"@,
        stance_text(Stance::War) == "交戦"@,
        stance_text(Stance::Ceasefire) == "停戦"@,
        stance_text(Stance::NonAggression) == "不可侵"@,
        stance_text(Stance::Alliance) == "同盟"@,
        treaty_text(Treaty::Ceasefire) == "停戦"@,
        treaty_text(Treaty::NonAggression) == "不可侵条約"@,
        treaty_text(Treaty::Alliance) == "同盟"@,
        treaty_text(Treaty::MilitaryAccess) == "通行権"@,
        treaty_text(Treaty::PortAccess) == "港湾利用"@,
        treaty_text(Treaty::TradeAgreement) == "貿易協定"@,
{
}

/// The letter that waits for an answer is the first one from the one faction to the other, and another can be
/// begun only where none waits.
pub proof fn one_letter_waits_at_a_time(ui: Ui, world: World, player: FactionId, target: FactionId, i: int, draft: Seq<char>)
    requires
        ui.player == Some(player),
        ui.diplomacy_target == Some(target),
        0 <= i < world.text_proposals@.len(),
        world.text_proposals@[i].from == player,
        world.text_proposals@[i].to == target,
        forall|k: int|
            0 <= k < i ==> !((#[trigger] world.text_proposals@[k]).from == player && world.text_proposals@[k].to == target),
    ensures
        pending_text(world, player, target) == Some(world.text_proposals@[i].text@),
        !click_begins_compose(ui, world, DiplomacyAction::Compose),
        !ui.composing ==> compose_text(ui, draft, pending_text(world, player, target)) == "送信済み（返答待ち）: 「"@
            + world.text_proposals@[i].text@ + "」"@,
        ui.composing ==> compose_text(ui, draft, pending_text(world, player, target)) == "入力中> "@ + draft
            + "_\n(Enter で送信, Esc でキャンセル)"@,
{
    lemma_first_letter(world.text_proposals@, player, target, i, 0);
}

proof fn lemma_first_letter(list: Seq<TextProposal>, from: FactionId, to: FactionId, i: int, k: nat)
    requires
        0 <= k <= i < list.len(),
        list[i].from == from,
        list[i].to == to,
        forall|k: int| 0 <= k < i ==> !((#[trigger] list[k]).from == from && list[k].to == to),
    ensures
        text_from(list, from, to, k) == Some(list[i].text@),
    decreases i - k,
{
    if k < i {
        let p = list[k as int];
        assert(!(p.from == from && p.to == to));
        lemma_first_letter(list, from, to, i, k + 1);
    }
}

/// The step buttons of the policy panel set the value that they are for, for the good that is shown, a step away
/// from where it stands, and held within its range; imports of food and energy only.
pub proof fn step_buttons_set_their_value(ui: Ui, world: World, player: FactionId, increase: bool)
    requires
        ui.player == Some(player),
    ensures
        ({
            let f = world.factions@[player.0 as int];
            let g = ui.active_good.position();
            let twentieth = Quantity { bits: 0x3d4c_cccd };
            let tenth = Quantity { bits: 0x3dcc_cccd };
            let five = Quantity { bits: 0x40a0_0000 };
            &&& step_click(ui, world, PolicyField::Conscription, increase) == Some(
                Command::Order(Action::SetConscription(held_between(moved(f.conscription, twentieth, increase), zero(), one()))),
            )
            &&& step_click(ui, world, PolicyField::Ration, increase) == Some(
                Command::Order(
                    Action::SetCivilianRation(
                        held_between(
                            moved(f.civilian_ration, twentieth, increase),
                            world.balance.civilian_ration_min,
                            world.balance.civilian_ration_max,
                        ),
                    ),
                ),
            )
            &&& step_click(ui, world, PolicyField::Industry, increase) == Some(
                Command::Order(
                    Action::SetIndustryPriority {
                        good: ui.active_good,
                        weight: held_between(moved(f.industry_priority@[g], tenth, increase), zero(), one()),
                    },
                ),
            )
            &&& step_click(ui, world, PolicyField::Logistics, increase) == Some(
                Command::Order(
                    Action::SetLogisticsPriority {
                        good: ui.active_good,
                        weight: held_between(moved(f.logistics_priority@[g], tenth, increase), zero(), one()),
                    },
                ),
            )
            &&& step_click(ui, world, PolicyField::Import, increase) == (if ui.active_good == Good::Food || ui.active_good
                == Good::Energy {
                Some(
                    Command::Order(
                        Action::SetImportPlan {
                            good: ui.active_good,
                            rate: larger(moved(f.import_plan@[g], five, increase), zero()),
                        },
                    ),
                )
            } else {
                None
            })
        }),
{
}

/// A value a step up or down.
pub open spec fn moved(value: Quantity, step: Quantity, increase: bool) -> Quantity {
    if increase {
        sum_of(value, step)
    } else {
        difference_of(value, step)
    }
}

/// A focus can be chosen exactly where no change of focus is under way, or where it is the present one; and the
/// order is for that focus.
pub proof fn foci_are_chosen_between_changes(ui: Ui, world: World, player: FactionId, focus: NationalFocus)
    requires
        ui.player == Some(player),
    ensures
        ({
            let f = world.factions@[player.0 as int];
            &&& focus_click(ui, world, focus) == (if focus == f.national_focus || f.focus_transition_days == 0 {
                Some(Command::Order(Action::SetNationalFocus(focus)))
            } else {
                None
            })
            &&& focus_look(f, focus) == ButtonLook::Active <==> focus == f.national_focus
        }),
{
}

/// The rows of the policy panel tell the value that their buttons change.
pub proof fn policy_rows_tell_their_value(world: World, faction: Faction, good: Good)
    ensures
        ({
            let about = " ("@ + world.labels.goods@[good.position()]@ + ")"@;
            let g = good.position();
            &&& policy_row(PolicyField::Conscription, world, faction, good).0 == "徴兵率 [-/=]"@ + ": "@
                + faction.conscription.fixed(2)
            &&& policy_row(PolicyField::Ration, world, faction, good).0 == "配給率 [[/]]"@ + ": "@
                + faction.civilian_ration.fixed(2)
            &&& policy_row(PolicyField::Industry, world, faction, good).0 == "生産優先度 [;/']"@ + ": "@ + (
            faction.industry_priority@[g].fixed(2) + about)
            &&& policy_row(PolicyField::Logistics, world, faction, good).0 == "物流優先度 [,/.]"@ + ": "@ + (
            faction.logistics_priority@[g].fixed(2) + about)
            &&& policy_row(PolicyField::Import, world, faction, good).0 == "輸入計画 [8/9]"@ + ": "@ + (
            faction.import_plan@[g].fixed(1) + about)
        }),
{
}

/// The panels show to a player alone: the diplomacy panel while it is open, the policy panel while it is open and the
/// diplomacy panel is not, and the panel of the units while any are selected.
pub proof fn panels_show_to_players(ui: Ui, units: Seq<u32>)
    ensures
        diplomacy_panel_shown(ui) <==> ui.player is Some && ui.diplomacy_open,
        policy_panel_shown(ui) <==> ui.player is Some && ui.policy_open && !ui.diplomacy_open,
        unit_panel_shown(ui, units) <==> ui.player is Some && units.len() != 0,
        !(diplomacy_panel_shown(ui) && policy_panel_shown(ui)),
{
}

/// The row of a living unit tells of it and holds its buttons, of which those that rebuild it go by what stands in the
/// way and the one that hands it over is marked while it is handed over; the row of a unit that is gone is hidden.
pub proof fn rows_show_their_unit(row: UnitRow, world: World, faction: FactionId, id: u32)
    requires
        shows_unit(row, world, faction, id),
    ensures
        row.id == id,
        row.shown <==> id < world.units@.len() && world.units@[id as int].alive,
        row.shown ==> {
            let u = world.units@[id as int];
            &&& row.text@ == unit_text(world, id)
            &&& row.hold == ButtonLook::Enabled
            &&& (row.rebuild == ButtonLook::Enabled <==> reinforce_obstacle(world, faction, u.station) is None)
            &&& (row.rebuild == ButtonLook::Disabled <==> reinforce_obstacle(world, faction, u.station) is Some)
            &&& (reinforce_obstacle(world, faction, u.station) matches Some(reason) ==> row.reason@ == reason)
            &&& (reinforce_obstacle(world, faction, u.station) is None ==> row.reason@.len() == 0)
            &&& (u.delegated ==> row.delegate == ButtonLook::Active && row.delegate_label@ == "操作を戻す [U]"@)
            &&& (!u.delegated ==> row.delegate == ButtonLook::Enabled && row.delegate_label@ == "AI委任 [U]"@)
        },
        !row.shown ==> {
            &&& row.text@.len() == 0 && row.reason@.len() == 0
            &&& row.hold == ButtonLook::Disabled && row.rebuild == ButtonLook::Disabled
            &&& row.delegate == ButtonLook::Disabled && row.delegate_label@ == "AI委任 [U]"@
        },
{
}

/// A change of focus under way says how many days it still takes and what holds until then.
pub proof fn changes_of_focus_are_announced(world: World, faction: Faction)
    ensures
        faction.focus_transition_days == 0 ==> focus_reason_text(world, faction) == Seq::<char>::empty(),
        faction.focus_transition_days > 0 ==> focus_reason_text(world, faction) == "方針転換中（あと"@ + decimal(
            faction.focus_transition_days as nat,
        ) + "日、現在: "@ + world.labels.foci@[faction.national_focus.position()]@ + "）"@,
{
}

/// The tab of the picked branch is marked, and no other.
pub proof fn the_picked_branch_is_marked(ui: Ui, branch: Branch)
    ensures
        branch_tab_look(ui, branch) == ButtonLook::Active <==> ui.active_branch == branch,
        branch_tab_look(ui, branch) == ButtonLook::Enabled <==> ui.active_branch != branch,
{
}

/// The lines beyond the eighth are counted.
pub proof fn lines_beyond_the_rows_are_counted(n: nat)
    ensures
        n <= 8 ==> line_overflow(n) == Seq::<char>::empty(),
        line_overflow(n + 9) == "ほか "@ + decimal(n + 1) + " 路線"@,
{
}

/// A button of the region panel names the digit of the menu that gives its order, and a proposal that waits for an answer
/// keeps the next from being written.
pub proof fn buttons_name_their_digits(kind: RegionActionKind, pending: Option<Seq<char>>)
    ensures
        kind.hint_text() == "(右クリック→"@ + decimal((kind.position() + 1) as nat) + ")"@,
        pending is Some ==> compose_reason_text(pending) == "返答待ちの提案がある"@,
        pending is None ==> compose_reason_text(pending) == Seq::<char>::empty(),
{
}

} // verus!
