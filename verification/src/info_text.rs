//! The panels of the selected region, the player, the event log and the newspaper.
use crate::arithmetic::{hundred, product_of};
use crate::client::{Client, Ui};
use crate::newspaper::{Article, NewspaperState};
use crate::quantity::Quantity;
use crate::region_panel::{RegionActionKind, REGION_ACTION_COUNT};
use crate::rejection::{action_error_ja, action_error_text, Rejection};
use crate::text::{decimal, decimal_text, join, joined, texts};
use crate::types::{FactionId, Good, Project, RegionId, Station};
use crate::unit_set::UnitSet;
use crate::world::{Construction, Region, Terrain, Unit, World, GOOD_COUNT};
use vstd::prelude::*;

verus! {

/// Writes the event log, an entry a line.
pub fn update_event_log(log: &Vec<String>) -> (text: String)
    ensures
        text@ == joined(texts(log@), "\n"@),
{
    join(log, "\n")
}

/// A terrain by its name in the simulation.
pub open spec fn terrain_name(terrain: Terrain) -> Seq<char> {
    match terrain {
        Terrain::Plain => "Plain"@,
        Terrain::Hill => "Hill"@,
        Terrain::Mountain => "Mountain"@,
        Terrain::Urban => "Urban"@,
    }
}

fn terrain_label(terrain: Terrain) -> (name: &'static str)
    ensures
        name@ == terrain_name(terrain),
{
    match terrain {
        Terrain::Plain => "Plain",
        Terrain::Hill => "Hill",
        Terrain::Mountain => "Mountain",
        Terrain::Urban => "Urban",
    }
}

/// A good by its name in the simulation.
pub open spec fn good_name(good: Good) -> Seq<char> {
    match good {
        Good::Food => "Food"@,
        Good::Energy => "Energy"@,
        Good::Steel => "Steel"@,
        Good::Machinery => "Machinery"@,
        Good::Munitions => "Munitions"@,
        Good::Arms => "Arms"@,
    }
}

fn good_label(good: Good) -> (name: &'static str)
    ensures
        name@ == good_name(good),
{
    match good {
        Good::Food => "Food",
        Good::Energy => "Energy",
        Good::Steel => "Steel",
        Good::Machinery => "Machinery",
        Good::Munitions => "Munitions",
        Good::Arms => "Arms",
    }
}

/// A project by its name in the simulation.
pub open spec fn project_name(project: Project) -> Seq<char> {
    match project {
        Project::Infrastructure => "Infrastructure"@,
        Project::Port => "Port"@,
        Project::Repair => "Repair"@,
        Project::Capacity(good) => "Capacity("@ + good_name(good) + ")"@,
        Project::TransportLine(line) => "TransportLine(TransportLineId("@ + decimal(line.0 as nat) + "))"@,
    }
}

fn project_text(project: Project) -> (text: String)
    ensures
        text@ == project_name(project),
{
    match project {
        Project::Infrastructure => "Infrastructure".to_owned(),
        Project::Port => "Port".to_owned(),
        Project::Repair => "Repair".to_owned(),
        Project::Capacity(good) => {
            let mut text = "Capacity(".to_owned();
            text.append(good_label(good));
            text.append(")");
            text
        },
        Project::TransportLine(line) => {
            let mut text = "TransportLine(TransportLineId(".to_owned();
            text.append(decimal_text(line.0 as usize).as_str());
            text.append("))");
            text
        },
    }
}

/// The work under way in a region.
pub open spec fn construction_text(construction: Option<Construction>) -> Seq<char> {
    match construction {
        Some(c) => project_name(c.project) + " ("@ + c.invested.fixed(0) + "/"@ + c.required.fixed(0) + ")"@,
        None => "none"@,
    }
}

fn construction_label(construction: &Option<Construction>) -> (text: String)
    ensures
        text@ == construction_text(*construction),
{
    match construction {
        Some(c) => {
            let mut text = project_text(c.project);
            text.append(" (");
            text.append(c.invested.fixed_text(0).as_str());
            text.append("/");
            text.append(c.required.fixed_text(0).as_str());
            text.append(")");
            text
        },
        None => "none".to_owned(),
    }
}

/// Who occupies a region, and how far.
pub open spec fn occupier_line(world: World, region: Region) -> Seq<char> {
    match region.occupier {
        Some(f) => "\noccupied by "@ + world.faction_at(f).name@ + " ("@ + product_of(region.occupation, hundred()).fixed(0) + "%)"@,
        None => ""@,
    }
}

fn occupier_text(world: &World, region: &Region) -> (text: String)
    requires
        region.occupier matches Some(f) ==> world.has_faction(f),
    ensures
        text@ == occupier_line(*world, *region),
{
    match region.occupier {
        Some(f) => {
            let mut text = "\noccupied by ".to_owned();
            text.append(world.faction(f).name.as_str());
            text.append(" (");
            text.append(region.occupation.times(Quantity { bits: 0x42c8_0000 }).fixed_text(0).as_str());
            text.append("%)");
            text
        },
        None => "".to_owned(),
    }
}

/// The mark of a blockaded port.
pub open spec fn blockade_mark(region: Region) -> Seq<char> {
    if region.port.positive() && region.blockaded {
        "  (blockaded)"@
    } else {
        ""@
    }
}

/// The capacity of a region for a good.
pub open spec fn capacity_item(capacity: Seq<Quantity>, i: int) -> Seq<char> {
    Good::at(i).key_text() + "="@ + capacity[i].fixed(1)
}

/// The capacity of a region for all goods.
pub open spec fn capacity_items(capacity: Seq<Quantity>) -> Seq<Seq<char>> {
    Seq::new(GOOD_COUNT as nat, |i: int| capacity_item(capacity, i))
}

fn capacity_texts(capacity: &Vec<Quantity>) -> (items: Vec<String>)
    requires
        capacity@.len() == GOOD_COUNT,
    ensures
        texts(items@) == capacity_items(capacity@),
{
    let mut items: Vec<String> = Vec::new();
    let mut i: usize = 0;
    while i < GOOD_COUNT
        invariant
            i <= GOOD_COUNT,
            items.len() == i,
            capacity@.len() == GOOD_COUNT,
            forall|k: int| 0 <= k < i ==> (#[trigger] items@[k])@ == capacity_item(capacity@, k),
        decreases GOOD_COUNT - i,
    {
        let mut text = Good::nth(i).key().to_owned();
        text.append("=");
        text.append(capacity[i].fixed_text(1).as_str());
        items.push(text);
        i += 1;
    }
    assert(texts(items@) =~= capacity_items(capacity@));
    items
}

/// The panel of a region.
pub open spec fn inspect_text(world: World, region: Region) -> Seq<char> {
    region.name@ + "  ("@ + terrain_name(region.terrain) + ")\nowner: "@ + world.faction_at(region.owner).name@
        + occupier_line(world, region) + "\npopulation: "@ + region.population.fixed(0) + "\ncapacity: "@ + joined(
        capacity_items(region.capacity@),
        ", "@,
    ) + "\ninfrastructure: "@ + region.infrastructure.fixed(2) + "   port: "@ + region.port.fixed(2) + blockade_mark(region)
        + "\nunrest: "@ + region.unrest.fixed(2) + "   devastation: "@ + region.devastation.fixed(2) + "\nsupply: "@
        + region.supply.fixed(2) + "   import flow: "@ + region.import_flow.fixed(2) + "\nconstruction: "@
        + construction_text(region.construction)
}

/// Writes the panel of the selected region; nothing if none is selected or it does not exist.
pub fn update_inspect_panel(world: &World, selected: Option<RegionId>) -> (text: String)
    requires
        world.valid(),
    ensures
        text@ == match selected {
            Some(id) => if world.has_region(id) {
                inspect_text(*world, world.region_at(id))
            } else {
                Seq::empty()
            },
            None => Seq::empty(),
        },
{
    let id = match selected {
        Some(id) => id,
        None => return String::new(),
    };
    if id.0 as usize >= world.regions.len() {
        return String::new();
    }
    let region = world.region(id);
    assert(region.valid(world.regions@.len(), world.factions@.len(), world.nodes@.len()));
    let mut text = region.name.as_str().to_owned();
    text.append("  (");
    text.append(terrain_label(region.terrain));
    text.append(")\nowner: ");
    text.append(world.faction(region.owner).name.as_str());
    text.append(occupier_text(world, region).as_str());
    text.append("\npopulation: ");
    text.append(region.population.fixed_text(0).as_str());
    text.append("\ncapacity: ");
    text.append(join(&capacity_texts(&region.capacity), ", ").as_str());
    text.append("\ninfrastructure: ");
    text.append(region.infrastructure.fixed_text(2).as_str());
    text.append("   port: ");
    text.append(region.port.fixed_text(2).as_str());
    text.append(
        if region.port.is_positive() && region.blockaded {
            "  (blockaded)"
        } else {
            ""
        },
    );
    text.append("\nunrest: ");
    text.append(region.unrest.fixed_text(2).as_str());
    text.append("   devastation: ");
    text.append(region.devastation.fixed_text(2).as_str());
    text.append("\nsupply: ");
    text.append(region.supply.fixed_text(2).as_str());
    text.append("   import flow: ");
    text.append(region.import_flow.fixed_text(2).as_str());
    text.append("\nconstruction: ");
    text.append(construction_label(&region.construction).as_str());
    text
}

/// A unit in the player's list: a star if it is selected, its number, its name and its state.
pub open spec fn unit_line(id: u32, unit: Unit, selected: bool) -> Seq<char> {
    "  "@ + if selected {
        "*"@
    } else {
        " "@
    } + "#"@ + decimal(id as nat) + " "@ + unit.name@ + " 兵力"@ + unit.manpower.fixed(0) + " 装備"@
        + unit.equipment.fixed(0) + " 組織"@ + unit.organization.fixed(0) + "\n"@
}

fn unit_line_text(id: u32, unit: &Unit, selected: bool) -> (text: String)
    ensures
        text@ == unit_line(id, *unit, selected),
{
    let mut text = "  ".to_owned();
    text.append(
        if selected {
            "*"
        } else {
            " "
        },
    );
    text.append("#");
    text.append(decimal_text(id as usize).as_str());
    text.append(" ");
    text.append(unit.name.as_str());
    text.append(" 兵力");
    text.append(unit.manpower.fixed_text(0).as_str());
    text.append(" 装備");
    text.append(unit.equipment.fixed_text(0).as_str());
    text.append(" 組織");
    text.append(unit.organization.fixed_text(0).as_str());
    text.append("\n");
    text
}

/// Whether a unit is a living one of a faction in a region.
pub open spec fn stationed(unit: Unit, faction: FactionId, region: RegionId) -> bool {
    unit.alive && unit.owner == faction && unit.station == Station::Region(region)
}

/// The lines of a faction's units in a region, among the first `n` units.
pub open spec fn unit_lines(world: World, faction: FactionId, region: RegionId, selected: Seq<u32>, n: nat) -> Seq<char>
    decreases n,
{
    if n == 0 {
        Seq::empty()
    } else {
        let before = unit_lines(world, faction, region, selected, (n - 1) as nat);
        let id = (n - 1) as u32;
        if stationed(world.units@[n - 1], faction, region) {
            before + unit_line(id, world.units@[n - 1], selected.contains(id))
        } else {
            before
        }
    }
}

/// Whether a faction has a unit in a region.
pub open spec fn garrisoned(world: World, faction: FactionId, region: RegionId) -> bool {
    exists|i: int| 0 <= i < world.units@.len() && stationed(#[trigger] world.units@[i], faction, region)
}

/// What the player's panel says of the selected region, if the player owns it.
pub open spec fn garrison_section(world: World, faction: FactionId, region: Option<RegionId>, selected: Seq<u32>) -> Seq<char> {
    match region {
        Some(r) => if world.region_at(r).owner == faction {
            if garrisoned(world, faction, r) {
                "この地域の部隊（クリックで選択/解除）:\n"@ + unit_lines(world, faction, r, selected, world.units@.len())
            } else {
                "この地域に部隊はいない\n"@
            }
        } else {
            ""@
        },
        None => ""@,
    }
}

fn garrison_text(world: &World, faction: FactionId, region: Option<RegionId>, selected: &UnitSet) -> (text: String)
    requires
        world.units@.len() <= u32::MAX,
        region matches Some(r) ==> world.has_region(r),
    ensures
        text@ == garrison_section(*world, faction, region, selected@),
{
    let r = match region {
        Some(r) => r,
        None => return "".to_owned(),
    };
    if world.region(r).owner != faction {
        return "".to_owned();
    }
    let mut lines = String::new();
    let mut found = false;
    let mut i: usize = 0;
    while i < world.units.len()
        invariant
            i <= world.units.len() <= u32::MAX,
            lines@ == unit_lines(*world, faction, r, selected@, i as nat),
            found <==> exists|k: int| 0 <= k < i && stationed(#[trigger] world.units@[k], faction, r),
        decreases world.units.len() - i,
    {
        let unit = &world.units[i];
        if unit.alive && unit.owner == faction && unit.station == Station::Region(r) {
            assert(stationed(world.units@[i as int], faction, r));
            lines.append(unit_line_text(i as u32, unit, selected.contains(i as u32)).as_str());
            found = true;
        }
        i += 1;
    }
    if found {
        let mut text = "この地域の部隊（クリックで選択/解除）:\n".to_owned();
        text.append(lines.as_str());
        text
    } else {
        "この地域に部隊はいない\n".to_owned()
    }
}

/// The first `n` entries of the order menu.
pub open spec fn menu_lines(n: nat) -> Seq<char>
    decreases n,
{
    if n == 0 {
        Seq::empty()
    } else {
        menu_lines((n - 1) as nat) + (decimal(n) + ": "@ + RegionActionKind::at(n - 1).item_text() + "\n"@)
    }
}

/// The order menu, if it is open.
pub open spec fn menu_section(world: World, menu: Option<RegionId>) -> Seq<char> {
    match menu {
        Some(r) => "-- 命令メニュー: "@ + world.region_at(r).name@ + " (Esc で閉じる) --\n"@ + menu_lines(
            REGION_ACTION_COUNT as nat,
        ),
        None => ""@,
    }
}

fn menu_text(world: &World, menu: Option<RegionId>) -> (text: String)
    requires
        menu matches Some(r) ==> world.has_region(r),
    ensures
        text@ == menu_section(*world, menu),
{
    let r = match menu {
        Some(r) => r,
        None => return "".to_owned(),
    };
    let mut lines = String::new();
    let mut i: usize = 0;
    while i < REGION_ACTION_COUNT
        invariant
            i <= REGION_ACTION_COUNT,
            lines@ == menu_lines(i as nat),
        decreases REGION_ACTION_COUNT - i,
    {
        let mut line = decimal_text(i + 1);
        line.append(": ");
        line.append(RegionActionKind::nth(i).item());
        line.append("\n");
        lines.append(line.as_str());
        i += 1;
    }
    let mut text = "-- 命令メニュー: ".to_owned();
    text.append(world.region(r).name.as_str());
    text.append(" (Esc で閉じる) --\n");
    text.append(lines.as_str());
    text
}

/// The reasons of refused orders, one a line.
pub open spec fn reason_lines(rejections: Seq<Rejection>) -> Seq<char>
    decreases rejections.len(),
{
    if rejections.len() == 0 {
        Seq::empty()
    } else {
        reason_lines(rejections.drop_last()) + ("  - "@ + action_error_text(rejections.last().error) + "\n"@)
    }
}

/// What the player's panel says of refused orders.
pub open spec fn rejection_section(rejections: Seq<Rejection>) -> Seq<char> {
    if rejections.len() == 0 {
        ""@
    } else {
        "!! 却下された命令（全パネル）!!\n"@ + reason_lines(rejections)
    }
}

fn rejection_text(rejections: &Vec<Rejection>) -> (text: String)
    ensures
        text@ == rejection_section(rejections@),
{
    if rejections.len() == 0 {
        return "".to_owned();
    }
    let mut lines = String::new();
    let mut i: usize = 0;
    while i < rejections.len()
        invariant
            i <= rejections.len(),
            lines@ == reason_lines(rejections@.take(i as int)),
        decreases rejections.len() - i,
    {
        assert(rejections@.take(i + 1).drop_last() =~= rejections@.take(i as int));
        let mut line = "  - ".to_owned();
        line.append(action_error_ja(rejections[i].error));
        line.append("\n");
        lines.append(line.as_str());
        i += 1;
    }
    assert(rejections@.take(i as int) =~= rejections@);
    let mut text = "!! 却下された命令（全パネル）!!\n".to_owned();
    text.append(lines.as_str());
    text
}

/// The player's panel.
pub open spec fn player_panel_text(world: World, player: FactionId, ui: Ui, units: Seq<u32>, rejections: Seq<Rejection>) -> Seq<char> {
    "== プレイヤー: "@ + world.faction_at(player).name@ + " ==\n"@ + garrison_section(world, player, ui.selected_region, units)
        + "選択部隊: "@ + decimal(units.len()) + " 隊 (地域/海域をクリックで移動)\n"@ + menu_section(world, ui.menu)
        + rejection_section(rejections)
}

/// Writes the player's panel; nothing if nobody plays.
pub fn update_player_panel(world: &World, client: &Client, rejections: &Vec<Rejection>) -> (text: String)
    requires
        world.units@.len() <= u32::MAX,
        client.ui.player matches Some(f) ==> {
            &&& world.has_faction(f)
            &&& client.ui.selected_region matches Some(r) ==> world.has_region(r)
            &&& client.ui.menu matches Some(r) ==> world.has_region(r)
        },
    ensures
        text@ == match client.ui.player {
            Some(player) => player_panel_text(*world, player, client.ui, client.units@, rejections@),
            None => Seq::empty(),
        },
{
    let player = match client.ui.player {
        Some(player) => player,
        None => return String::new(),
    };
    let mut text = "== プレイヤー: ".to_owned();
    text.append(world.faction(player).name.as_str());
    text.append(" ==\n");
    text.append(garrison_text(world, player, client.ui.selected_region, &client.units).as_str());
    text.append("選択部隊: ");
    text.append(decimal_text(client.units.len()).as_str());
    text.append(" 隊 (地域/海域をクリックで移動)\n");
    text.append(menu_text(world, client.ui.menu).as_str());
    text.append(rejection_text(rejections).as_str());
    text
}

/// The issue that the newspaper panel shows: the chosen one, else the latest.
pub open spec fn issue_shown(viewing: Option<usize>, issues: nat) -> Option<int> {
    match viewing {
        Some(i) => Some(i as int),
        None => if issues == 0 {
            None
        } else {
            Some(issues - 1)
        },
    }
}

/// The first article of a faction.
pub open spec fn article_of(articles: Seq<Article>, faction: FactionId) -> Option<Seq<char>>
    decreases articles.len(),
{
    if articles.len() == 0 {
        None
    } else if articles[0].faction == faction {
        Some(articles[0].text@)
    } else {
        article_of(articles.skip(1), faction)
    }
}

/// What the newspaper panel shows of an issue for a faction.
pub open spec fn article_text(articles: Seq<Article>, faction: FactionId) -> Seq<char> {
    match article_of(articles, faction) {
        Some(text) => text + "\n"@,
        None => "この勢力の記事はない（脱落済み）\n"@,
    }
}

fn article(articles: &Vec<Article>, faction: FactionId) -> (text: String)
    ensures
        text@ == article_text(articles@, faction),
{
    let mut i: usize = 0;
    assert(articles@.skip(0) =~= articles@);
    while i < articles.len()
        invariant
            i <= articles.len(),
            article_of(articles@, faction) == article_of(articles@.skip(i as int), faction),
        decreases articles.len() - i,
    {
        assert(articles@.skip(i as int).skip(1) =~= articles@.skip(i + 1));
        if articles[i].faction == faction {
            let mut text = articles[i].text.as_str().to_owned();
            text.append("\n");
            return text;
        }
        i += 1;
    }
    "この勢力の記事はない（脱落済み）\n".to_owned()
}

/// The newspaper panel.
pub open spec fn newspaper_panel_text(news: NewspaperState, ui: Ui) -> Seq<char> {
    if !ui.newspaper_open {
        Seq::empty()
    } else {
        match issue_shown(ui.newspaper_viewing, news.history@.len()) {
            None => "-- 新聞 (N で閉じる) --\nまだ号外は発行されていない\n"@,
            Some(i) => "-- 新聞 (N で閉じる, ←/→ で号を送る) -- 第"@ + decimal((i + 1) as nat) + "号 (day "@ + decimal(
                news.history@[i].period_start as nat,
            ) + "〜"@ + decimal(news.history@[i].period_end as nat) + ") --\n"@ + article_text(
                news.history@[i].articles@,
                ui.selected_faction,
            ),
        }
    }
}

/// Writes the newspaper panel.
pub fn update_newspaper_panel(news: &NewspaperState, ui: &Ui) -> (text: String)
    requires
        ui.newspaper_open ==> (ui.newspaper_viewing matches Some(i) ==> i < news.history@.len()),
    ensures
        text@ == newspaper_panel_text(*news, *ui),
{
    if !ui.newspaper_open {
        return String::new();
    }
    let issues: usize = news.history.len();
    let i: usize = match ui.newspaper_viewing {
        Some(i) => i,
        None => if issues == 0 {
            return "-- 新聞 (N で閉じる) --\nまだ号外は発行されていない\n".to_owned();
        } else {
            issues - 1
        },
    };
    let issue = &news.history[i];
    let mut text = "-- 新聞 (N で閉じる, ←/→ で号を送る) -- 第".to_owned();
    text.append(decimal_text(i + 1).as_str());
    text.append("号 (day ");
    text.append(decimal_text(issue.period_start as usize).as_str());
    text.append("〜");
    text.append(decimal_text(issue.period_end as usize).as_str());
    text.append(") --\n");
    text.append(article(&issue.articles, ui.selected_faction).as_str());
    text
}

} // verus!
