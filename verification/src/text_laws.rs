//! What the panels tell: every number and name under its own heading.
use crate::arithmetic::{difference_of, held_between, hundred, product_of};
use crate::client::Ui;
use crate::faction_text::{
    acts_below, faction_panel_text, focus_name, group_event, group_items, group_note, manpower_mark,
    player_stats_text, regions_owned, relation_lines, stability_mark, stance_name, stock_items, stock_mark,
    suffers_by, top_bar_text, units_living,
};
use crate::info_text::{
    article_text, blockade_mark, capacity_items, construction_text, garrison_section, good_name, inspect_text,
    menu_lines, menu_section, newspaper_panel_text, occupier_line, player_panel_text, project_name, reason_lines,
    rejection_section, stationed, terrain_name, unit_lines,
};
use crate::newspaper::{Article, NewspaperState};
use crate::palette::one;
use crate::quantity::{zero, Quantity};
use crate::region_panel::RegionActionKind;
use crate::rejection::{action_error_text, Rejection};
use crate::text::{decimal, joined};
use crate::types::{
    FactionId, Good, NationalFocus, Project, RegionId, SeaZoneId, Station, TransportLineId, TransportNodeId,
};
use crate::unit_panel::{
    attrition_mark, branch_mark, delegate_text, reinforce_obstacle, station_text, unit_overflow, unit_text,
};
use crate::world::{Balance, Branch, Construction, Faction, Group, Region, Stance, Terrain, World};
use vstd::prelude::*;

verus! {

/// The row of a unit tells its number, its name, its branch and whether an agent leads it; its strength, its
/// organisation, its morale, its supply and its experience, each under its heading.
pub proof fn rows_of_units_tell_their_state(world: World, id: u32)
    ensures
        ({
            let u = world.units@[id as int];
            let head = "#"@ + decimal(id as nat) + " "@ + u.name@ + branch_mark(world, u.branch) + (if u.delegated {
                " [AI操作中]"@
            } else {
                Seq::empty()
            });
            let state = "\n兵力"@ + u.manpower.fixed(1) + " 装備"@ + u.equipment.fixed(1) + " 組織"@ + u.organization.fixed(0)
                + " 士気"@ + u.morale.fixed(2) + " 補給"@ + u.supply.fixed(2) + attrition_mark(world, u.supply) + " 経験"@
                + u.experience.fixed(1);
            let base = match u.station {
                Station::Airfield(_) => "\n"@ + station_text(world, u.station, u.in_transit),
                _ => Seq::empty(),
            };
            unit_text(world, id) == head + state + base
        }),
{
}

/// The marks of a unit: its branch by name, and a warning where its supply is below what wears it down.
pub proof fn marks_of_units(world: World, branch: Branch, supply: Quantity)
    ensures
        branch_mark(world, Some(branch)) == " ["@ + world.labels.branches@[branch.position()]@ + "]"@,
        branch_mark(world, None).len() == 0,
        supply.less(world.balance.attrition_supply_threshold) ==> attrition_mark(world, supply) == "※損耗中"@,
        !supply.less(world.balance.attrition_supply_threshold) ==> attrition_mark(world, supply).len() == 0,
        delegate_text(true) == "操作を戻す [U]"@,
        delegate_text(false) == "AI委任 [U]"@,
{
}

/// Where a unit is: an army in a region, a fleet in a sea zone, a squadron at the airfield of a region; and whether
/// it is on the move.
pub proof fn stations_are_named(world: World, region: RegionId, zone: SeaZoneId, node: TransportNodeId)
    ensures
        station_text(world, Station::Region(region), false) == "陸軍"@ + ": "@ + world.regions@[region.0 as int].name@,
        station_text(world, Station::Sea(zone), false) == "艦隊"@ + ": "@ + world.sea_zones@[zone.0 as int].name@,
        station_text(world, Station::Airfield(node), false) == "飛行隊"@ + ": "@
            + world.regions@[world.nodes@[node.0 as int].region.0 as int].name@,
        forall|station: Station| #[trigger]
            station_text(world, station, true) == station_text(world, station, false) + "（移動中）"@,
{
}

/// A unit cannot be reinforced exactly where enemies stand beside it.
pub proof fn enemies_keep_reinforcements_away(world: World, faction: FactionId, region: RegionId, zone: SeaZoneId, node: TransportNodeId)
    ensures
        reinforce_obstacle(world, faction, Station::Region(region)) is Some <==> world.regions@[region.0 as int].enemy_units@[faction.0 as int],
        reinforce_obstacle(world, faction, Station::Sea(zone)) is Some <==> world.sea_zones@[zone.0 as int].enemy_fleets@[faction.0 as int],
        reinforce_obstacle(world, faction, Station::Airfield(node)) is Some
            <==> world.regions@[world.nodes@[node.0 as int].region.0 as int].enemy_units@[faction.0 as int],
        forall|station: Station|
            (#[trigger] reinforce_obstacle(world, faction, station)) matches Some(text) ==> text == "地域が係争中（敵部隊がいる）"@,
{
}

/// The panel says how many units it has no room for.
pub proof fn the_rest_of_the_units_is_counted(n: nat)
    ensures
        n <= 6 ==> unit_overflow(n).len() == 0,
        n > 6 ==> unit_overflow(n) == "...ほか "@ + decimal((n - 6) as nat) + " 隊"@,
{
}

/// A faction's regions are counted: those it owns, and no others.
pub proof fn regions_are_counted_by_owner(world: World, faction: FactionId, n: nat)
    requires
        n <= world.regions@.len(),
    ensures
        regions_owned(world, faction, n) == Set::new(|i: int| 0 <= i < n && world.regions@[i].owner == faction).len(),
        Set::new(|i: int| 0 <= i < n && world.regions@[i].owner == faction).finite(),
    decreases n,
{
    let now = Set::new(|i: int| 0 <= i < n && world.regions@[i].owner == faction);
    if n == 0 {
        assert(now =~= Set::empty());
    } else {
        regions_are_counted_by_owner(world, faction, (n - 1) as nat);
        let before = Set::new(|i: int| 0 <= i < n - 1 && world.regions@[i].owner == faction);
        if world.regions@[n - 1].owner == faction {
            assert(now =~= before.insert(n - 1));
        } else {
            assert(now =~= before);
        }
    }
}

/// A faction's units are counted: the living ones that it owns, and no others.
pub proof fn units_are_counted_by_owner(world: World, faction: FactionId, n: nat)
    requires
        n <= world.units@.len(),
    ensures
        units_living(world, faction, n) == Set::new(
            |i: int| 0 <= i < n && world.units@[i].alive && world.units@[i].owner == faction,
        ).len(),
        Set::new(|i: int| 0 <= i < n && world.units@[i].alive && world.units@[i].owner == faction).finite(),
    decreases n,
{
    let now = Set::new(|i: int| 0 <= i < n && world.units@[i].alive && world.units@[i].owner == faction);
    if n == 0 {
        assert(now =~= Set::empty());
    } else {
        units_are_counted_by_owner(world, faction, (n - 1) as nat);
        let before = Set::new(|i: int| 0 <= i < n - 1 && world.units@[i].alive && world.units@[i].owner == faction);
        if world.units@[n - 1].alive && world.units@[n - 1].owner == faction {
            assert(now =~= before.insert(n - 1));
        } else {
            assert(now =~= before);
        }
    }
}

/// The panel of a faction tells what it holds and how it stands, each number under its heading.
pub proof fn the_panel_of_a_faction_tells_its_state(world: World, id: FactionId, own: bool)
    ensures
        ({
            let f = world.factions@[id.0 as int];
            let b = world.balance;
            let holds = (if own {
                "【あなたの国】 "@
            } else {
                ""@
            }) + (if f.alive {
                ""@
            } else {
                "(eliminated) "@
            }) + f.name@ + "  [Tab で他勢力に切替]\nterritory: "@ + decimal(regions_owned(world, id, world.regions@.len()))
                + " regions\nunits: "@ + decimal(units_living(world, id, world.units@.len())) + "\nmanpower: "@
                + f.manpower.fixed(1) + manpower_mark(f.manpower, b) + "\nstock: "@ + joined(stock_items(f.stock@), ", "@);
            let stands = "\nstability: "@ + f.stability.fixed(0) + stability_mark(f.stability, b) + "   war support: "@
                + f.war_support.fixed(0) + "\ncivilian ration: "@ + f.civilian_ration.fixed(2) + "   shortage: "@
                + f.shortage.fixed(2) + "\ngroup support: "@ + joined(group_items(world, f), "  "@) + "\nnational focus: "@
                + focus_name(f.national_focus) + "\ndiplomacy:"@ + relation_lines(world, id, world.factions@.len());
            faction_panel_text(world, id, own) == holds + stands
        }),
{
}

/// The warnings of a faction: where it can raise nobody, where its government may fall, and where it has run out of
/// what its people need.
pub proof fn warnings_of_a_faction(q: Quantity, balance: Balance, good: Good)
    ensures
        q.less(balance.unit_manpower) ==> manpower_mark(q, balance) == "  ※徴兵不能"@,
        !q.less(balance.unit_manpower) ==> manpower_mark(q, balance) == ""@,
        q.less(balance.regime_change_threshold) ==> stability_mark(q, balance) == "  ※政権崩壊の危険"@,
        !q.less(balance.regime_change_threshold) ==> stability_mark(q, balance) == ""@,
        q.at_most(zero()) && (good == Good::Food || good == Good::Energy || good == Good::Machinery) ==> stock_mark(good, q)
            == "※枯渇"@,
        !q.at_most(zero()) || good == Good::Steel || good == Good::Munitions || good == Good::Arms ==> stock_mark(good, q) == ""@,
{
}

/// The stock of each good stands under that good's name.
pub proof fn stocks_stand_under_their_names(stock: Seq<Quantity>)
    ensures
        stock_items(stock).len() == 6,
        stock_items(stock)[0] == "food"@ + "="@ + stock[0].fixed(0) + stock_mark(Good::Food, stock[0]),
        stock_items(stock)[1] == "energy"@ + "="@ + stock[1].fixed(0) + stock_mark(Good::Energy, stock[1]),
        stock_items(stock)[2] == "steel"@ + "="@ + stock[2].fixed(0) + stock_mark(Good::Steel, stock[2]),
        stock_items(stock)[3] == "machinery"@ + "="@ + stock[3].fixed(0) + stock_mark(Good::Machinery, stock[3]),
        stock_items(stock)[4] == "munitions"@ + "="@ + stock[4].fixed(0) + stock_mark(Good::Munitions, stock[4]),
        stock_items(stock)[5] == "arms"@ + "="@ + stock[5].fixed(0) + stock_mark(Good::Arms, stock[5]),
        capacity_items(stock).len() == 6,
        capacity_items(stock)[0] == "food"@ + "="@ + stock[0].fixed(1),
        capacity_items(stock)[1] == "energy"@ + "="@ + stock[1].fixed(1),
        capacity_items(stock)[2] == "steel"@ + "="@ + stock[2].fixed(1),
        capacity_items(stock)[3] == "machinery"@ + "="@ + stock[3].fixed(1),
        capacity_items(stock)[4] == "munitions"@ + "="@ + stock[4].fixed(1),
        capacity_items(stock)[5] == "arms"@ + "="@ + stock[5].fixed(1),
{
}

/// A group acts below a threshold of its own, by an act of its own; the government and the bureaucracy never do.
pub proof fn groups_act_below_their_thresholds(balance: Balance)
    ensures
        acts_below(Group::Military, balance) == Some(balance.mutiny_threshold) && group_event(Group::Military) == "反乱"@,
        acts_below(Group::Labor, balance) == Some(balance.strike_threshold) && group_event(Group::Labor) == "ストライキ"@,
        acts_below(Group::Citizens, balance) == Some(balance.protest_threshold) && group_event(Group::Citizens) == "暴動"@,
        acts_below(Group::Business, balance) == Some(balance.capital_flight_threshold) && group_event(Group::Business)
            == "資本逃避"@,
        acts_below(Group::LocalGovernment, balance) == Some(balance.separatism_threshold) && group_event(
            Group::LocalGovernment,
        ) == "分離独立"@,
        acts_below(Group::Government, balance) is None && acts_below(Group::Bureaucracy, balance) is None,
        suffers_by(Group::Citizens, balance) == Some(balance.citizens_shortage_penalty),
        suffers_by(Group::Labor, balance) == Some(balance.labor_shortage_penalty),
        suffers_by(Group::Government, balance) == Some(balance.government_shortage_penalty),
        suffers_by(Group::Military, balance) is None && suffers_by(Group::Business, balance) is None && suffers_by(
            Group::Bureaucracy,
            balance,
        ) is None && suffers_by(Group::LocalGovernment, balance) is None,
{
}

/// The note of a group warns where its support is below its threshold, else tells how much is left; and it tells
/// what a shortage costs, where one does.
pub proof fn notes_of_groups_warn(group: Group, support: Quantity, shortage: Quantity, balance: Balance, threshold: Quantity)
    requires
        acts_below(group, balance) == Some(threshold),
        suffers_by(group, balance) is None,
    ensures
        difference_of(support, threshold).less(zero()) ==> group_note(group, support, shortage, balance) == "("@ + ("※"@
            + group_event(group) + "の危険"@) + ")"@,
        !difference_of(support, threshold).less(zero()) ==> group_note(group, support, shortage, balance) == "("@ + ("残"@
            + difference_of(support, threshold).fixed(0)) + ")"@,
{
}

/// The cost of a shortage is told for the groups that suffer by it, where there is one.
pub proof fn shortages_are_told(group: Group, support: Quantity, shortage: Quantity, balance: Balance, penalty: Quantity)
    requires
        acts_below(group, balance) is None,
        suffers_by(group, balance) == Some(penalty),
    ensures
        ({
            let cost = product_of(penalty, held_between(shortage, zero(), one()));
            &&& zero().less(cost) ==> group_note(group, support, shortage, balance) == "("@ + ("不足-"@ + cost.fixed(1)) + ")"@
            &&& !zero().less(cost) ==> group_note(group, support, shortage, balance) == ""@
        }),
{
}

/// A group that both acts and suffers is told both, in that order.
pub proof fn both_notes_of_groups_are_told(group: Group, support: Quantity, shortage: Quantity, balance: Balance, threshold: Quantity, penalty: Quantity)
    requires
        acts_below(group, balance) == Some(threshold),
        suffers_by(group, balance) == Some(penalty),
    ensures
        ({
            let cost = product_of(penalty, held_between(shortage, zero(), one()));
            let first = if difference_of(support, threshold).less(zero()) {
                "※"@ + group_event(group) + "の危険"@
            } else {
                "残"@ + difference_of(support, threshold).fixed(0)
            };
            &&& zero().less(cost) ==> group_note(group, support, shortage, balance) == "("@ + first + " "@ + ("不足-"@
                + cost.fixed(1)) + ")"@
            &&& !zero().less(cost) ==> group_note(group, support, shortage, balance) == "("@ + first + ")"@
        }),
{
}

/// The group at each place, and its item.
pub proof fn groups_stand_in_their_places(world: World, faction: Faction, i: int)
    requires
        0 <= i < 7,
    ensures
        Group::at(0) == Group::Government,
        Group::at(1) == Group::Bureaucracy,
        Group::at(2) == Group::Military,
        Group::at(3) == Group::Business,
        Group::at(4) == Group::Labor,
        Group::at(5) == Group::Citizens,
        Group::at(6) == Group::LocalGovernment,
        group_items(world, faction).len() == 7,
        group_items(world, faction)[i] == world.labels.groups@[i]@ + faction.group_support@[i].fixed(0) + group_note(
            Group::at(i),
            faction.group_support@[i],
            faction.shortage,
            world.balance,
        ),
{
}

/// How a faction stands to each other one that lives is told in a line of its own, in order; nothing is told of
/// itself, nor of the dead.
pub proof fn relations_are_told_one_by_one(world: World, faction: FactionId, n: nat)
    requires
        n < world.factions@.len() <= u32::MAX,
    ensures
        ({
            let other = FactionId(n as u32);
            let relation = world.relations@[faction.0 as int]@[n as int];
            let before = relation_lines(world, faction, n);
            relation_lines(world, faction, n + 1) == if n != faction.0 && world.factions@[n as int].alive {
                before + ("\n    vs "@ + world.factions@[n as int].name@ + ": "@ + stance_name(relation.stance) + " (opinion "@
                    + relation.opinion.fixed(0) + ")"@)
            } else {
                before
            }
        }),
        relation_lines(world, faction, 0).len() == 0,
        stance_name(Stance::War) == "War"@,
        stance_name(Stance::Ceasefire) == "Ceasefire"@,
        stance_name(Stance::NonAggression) == "NonAggression"@,
        stance_name(Stance::Alliance) == "Alliance"@,
{
}

/// What the foci are called in the panel of a faction.
pub proof fn foci_are_called_by_name()
    ensures
        focus_name(NationalFocus::MilitaryUnification) == "MilitaryUnification"@,
        focus_name(NationalFocus::EconomicSphere) == "EconomicSphere"@,
        focus_name(NationalFocus::AllianceNetwork) == "AllianceNetwork"@,
        focus_name(NationalFocus::MaritimeTrade) == "MaritimeTrade"@,
        focus_name(NationalFocus::Technocracy) == "Technocracy"@,
        focus_name(NationalFocus::DefensivePosture) == "DefensivePosture"@,
{
}

/// The top bar tells the scenario, the day out of all, and whether days pass and how fast; and of the player's
/// faction its stocks, its people and its standing.
pub proof fn the_top_bar_tells_the_day(scenario: Seq<char>, day: nat, max_days: nat, ui: Ui, faction: Faction, balance: Balance)
    ensures
        ui.paused ==> top_bar_text(scenario, day, max_days, ui) == scenario + "  —  day "@ + decimal(day) + " / "@ + decimal(
            max_days,
        ) + "  —  "@ + "paused"@,
        !ui.paused ==> top_bar_text(scenario, day, max_days, ui) == scenario + "  —  day "@ + decimal(day) + " / "@ + decimal(
            max_days,
        ) + "  —  "@ + ("running ("@ + ui.last_active.name_text() + ")"@),
        player_stats_text(faction, balance) == faction.name@ + "  |  在庫: "@ + joined(stock_items(faction.stock@), " "@)
            + "  |  人的資源"@ + faction.manpower.fixed(1) + manpower_mark(faction.manpower, balance) + "  安定度"@
            + faction.stability.fixed(0) + stability_mark(faction.stability, balance) + "  戦争支持"@
            + faction.war_support.fixed(0) + "  不足"@ + faction.shortage.fixed(2),
{
}

/// The panel of a region tells its state, each number under its heading.
pub proof fn the_panel_of_a_region_tells_its_state(world: World, region: Region)
    ensures
        inspect_text(world, region) == region.name@ + "  ("@ + terrain_name(region.terrain) + ")\nowner: "@
            + world.factions@[region.owner.0 as int].name@ + occupier_line(world, region) + "\npopulation: "@
            + region.population.fixed(0) + "\ncapacity: "@ + joined(capacity_items(region.capacity@), ", "@)
            + "\ninfrastructure: "@ + region.infrastructure.fixed(2) + "   port: "@ + region.port.fixed(2) + blockade_mark(
            region,
        ) + "\nunrest: "@ + region.unrest.fixed(2) + "   devastation: "@ + region.devastation.fixed(2) + "\nsupply: "@
            + region.supply.fixed(2) + "   import flow: "@ + region.import_flow.fixed(2) + "\nconstruction: "@
            + construction_text(region.construction),
        region.occupier matches Some(f) ==> occupier_line(world, region) == "\noccupied by "@
            + world.factions@[f.0 as int].name@ + " ("@ + product_of(region.occupation, hundred()).fixed(0) + "%)"@,
        region.occupier is None ==> occupier_line(world, region) == ""@,
        zero().less(region.port) && region.blockaded ==> blockade_mark(region) == "  (blockaded)"@,
        !zero().less(region.port) || !region.blockaded ==> blockade_mark(region) == ""@,
        terrain_name(Terrain::Plain) == "Plain"@,
        terrain_name(Terrain::Hill) == "Hill"@,
        terrain_name(Terrain::Mountain) == "Mountain"@,
        terrain_name(Terrain::Urban) == "Urban"@,
{
}

/// Construction work is told by its project, and by what is invested out of what it takes.
pub proof fn construction_is_told(work: Construction, good: Good, line: TransportLineId)
    ensures
        construction_text(Some(work)) == project_name(work.project) + " ("@ + work.invested.fixed(0) + "/"@
            + work.required.fixed(0) + ")"@,
        construction_text(None) == "none"@,
        project_name(Project::Infrastructure) == "Infrastructure"@,
        project_name(Project::Port) == "Port"@,
        project_name(Project::Repair) == "Repair"@,
        project_name(Project::Capacity(good)) == "Capacity("@ + good_name(good) + ")"@,
        project_name(Project::TransportLine(line)) == "TransportLine(TransportLineId("@ + decimal(line.0 as nat) + "))"@,
        good_name(Good::Food) == "Food"@,
        good_name(Good::Energy) == "Energy"@,
        good_name(Good::Steel) == "Steel"@,
        good_name(Good::Machinery) == "Machinery"@,
        good_name(Good::Munitions) == "Munitions"@,
        good_name(Good::Arms) == "Arms"@,
{
}

/// The garrison of a region lists the living units of the player that stand there, in order, and marks those that
/// are selected.
pub proof fn garrisons_are_listed_one_by_one(world: World, faction: FactionId, region: RegionId, selected: Seq<u32>, n: nat)
    requires
        n < world.units@.len() <= u32::MAX,
    ensures
        ({
            let u = world.units@[n as int];
            let before = unit_lines(world, faction, region, selected, n);
            unit_lines(world, faction, region, selected, n + 1) == if u.alive && u.owner == faction && u.station
                == Station::Region(region) {
                before + ("  "@ + (if selected.contains(n as u32) {
                    "*"@
                } else {
                    " "@
                }) + "#"@ + decimal(n) + " "@ + u.name@ + " 兵力"@ + u.manpower.fixed(0) + " 装備"@ + u.equipment.fixed(0)
                    + " 組織"@ + u.organization.fixed(0) + "\n"@)
            } else {
                before
            }
        }),
        unit_lines(world, faction, region, selected, 0).len() == 0,
{
}

/// The player's panel shows the garrison of a selected region of the player's own, and nothing of another's; how
/// many units are selected; the open menu; and all that was refused.
pub proof fn the_players_panel_tells_its_parts(world: World, player: FactionId, ui: Ui, units: Seq<u32>, rejections: Seq<Rejection>, region: RegionId)
    ensures
        player_panel_text(world, player, ui, units, rejections) == "== プレイヤー: "@ + world.factions@[player.0 as int].name@
            + " ==\n"@ + garrison_section(world, player, ui.selected_region, units) + "選択部隊: "@ + decimal(units.len())
            + " 隊 (地域/海域をクリックで移動)\n"@ + menu_section(world, ui.menu) + rejection_section(rejections),
        garrison_section(world, player, None, units) == ""@,
        world.regions@[region.0 as int].owner != player ==> garrison_section(world, player, Some(region), units) == ""@,
        world.regions@[region.0 as int].owner == player ==> garrison_section(world, player, Some(region), units) == (if exists|
            i: int,
        |
            0 <= i < world.units@.len() && stationed(#[trigger] world.units@[i], player, region) {
            "この地域の部隊（クリックで選択/解除）:\n"@ + unit_lines(world, player, region, units, world.units@.len())
        } else {
            "この地域に部隊はいない\n"@
        }),
        menu_section(world, None) == ""@,
        menu_section(world, Some(region)) == "-- 命令メニュー: "@ + world.regions@[region.0 as int].name@
            + " (Esc で閉じる) --\n"@ + menu_lines(8),
        rejection_section(Seq::empty()) == ""@,
        rejections.len() > 0 ==> rejection_section(rejections) == "!! 却下された命令（全パネル）!!\n"@ + reason_lines(rejections),
{
}

/// The menu of a region lists its orders by the digits that give them.
pub proof fn the_menu_lists_its_orders(n: nat)
    requires
        n < 8,
    ensures
        menu_lines(0).len() == 0,
        menu_lines(n + 1) == menu_lines(n) + (decimal(n + 1) + ": "@ + RegionActionKind::at(n as int).item_text() + "\n"@),
        RegionActionKind::at(0).item_text() == "陸軍を徴募"@,
        RegionActionKind::at(1).item_text() == "艦隊を徴募（要港湾）"@,
        RegionActionKind::at(2).item_text() == "飛行隊を徴募（要飛行場）"@,
        RegionActionKind::at(3).item_text() == "インフラ建設"@,
        RegionActionKind::at(4).item_text() == "港湾建設"@,
        RegionActionKind::at(5).item_text() == "生産設備建設（対象品目）"@,
        RegionActionKind::at(6).item_text() == "修復"@,
        RegionActionKind::at(7).item_text() == "建設中止"@,
{
}

/// All that was refused is listed, in order, by its reasons.
pub proof fn refusals_are_listed_in_order(rejections: Seq<Rejection>, next: Rejection)
    ensures
        reason_lines(Seq::empty()).len() == 0,
        reason_lines(rejections.push(next)) == reason_lines(rejections) + ("  - "@ + action_error_text(next.error) + "\n"@),
{
    assert(rejections.push(next).drop_last() =~= rejections);
}

/// The newspaper shows the issue that is turned to, the newest where none is, and of it the article on the faction
/// that is looked at.
pub proof fn the_newspaper_shows_an_issue(news: NewspaperState, ui: Ui, i: int)
    requires
        ui.newspaper_open,
        match ui.newspaper_viewing {
            Some(k) => i == k,
            None => i == news.history@.len() - 1,
        },
        0 <= i < news.history@.len(),
    ensures
        newspaper_panel_text(news, ui) == "-- 新聞 (N で閉じる, ←/→ で号を送る) -- 第"@ + decimal((i + 1) as nat)
            + "号 (day "@ + decimal(news.history@[i].period_start as nat) + "〜"@ + decimal(
            news.history@[i].period_end as nat,
        ) + ") --\n"@ + article_text(news.history@[i].articles@, ui.selected_faction),
{
}

/// A closed newspaper shows nothing; an open one without issues says so.
pub proof fn newspapers_without_issues_say_so(news: NewspaperState, ui: Ui)
    requires
        news.history@.len() == 0,
        ui.newspaper_viewing is None,
    ensures
        !ui.newspaper_open ==> newspaper_panel_text(news, ui).len() == 0,
        ui.newspaper_open ==> newspaper_panel_text(news, ui) == "-- 新聞 (N で閉じる) --\nまだ号外は発行されていない\n"@,
{
}

/// The article on a faction is the first one about it.
pub proof fn articles_are_found_by_faction(articles: Seq<Article>, faction: FactionId, i: int)
    requires
        0 <= i <= articles.len(),
        forall|k: int| 0 <= k < i ==> (#[trigger] articles[k]).faction != faction,
    ensures
        i < articles.len() && articles[i].faction == faction ==> article_text(articles, faction) == articles[i].text@ + "\n"@,
        i == articles.len() ==> article_text(articles, faction) == "この勢力の記事はない（脱落済み）\n"@,
    decreases i,
{
    if i > 0 {
        let rest = articles.skip(1);
        assert forall|k: int| 0 <= k < i - 1 implies (#[trigger] rest[k]).faction != faction by {
            assert(rest[k] == articles[k + 1]);
        }
        articles_are_found_by_faction(rest, faction, i - 1);
        assert(articles[0].faction != faction);
        if i < articles.len() {
            assert(rest[i - 1] == articles[i]);
        }
    }
}

} // verus!
