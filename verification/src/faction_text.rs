//! What the top bar and the summary panel say of a faction.
use crate::arithmetic::{difference_of, held_between, product_of};
use crate::client::Ui;
use crate::palette::one;
use crate::quantity::{zero, Quantity};
use crate::text::{decimal, decimal_text, join, joined, texts};
use crate::types::{FactionId, Good, NationalFocus};
use crate::world::{Balance, Faction, Group, Stance, World, GOOD_COUNT, GROUP_COUNT};
use vstd::prelude::*;

verus! {

/// The mark of a faction whose government is about to fall.
pub open spec fn stability_mark(stability: Quantity, balance: Balance) -> Seq<char> {
    if stability.less(balance.regime_change_threshold) {
        "  ※政権崩壊の危険"@
    } else {
        ""@
    }
}

/// The mark of a faction whose government is about to fall.
pub fn stability_marker(stability: Quantity, balance: &Balance) -> (mark: &'static str)
    ensures
        mark@ == stability_mark(stability, *balance),
{
    if stability.is_less(balance.regime_change_threshold) {
        "  ※政権崩壊の危険"
    } else {
        ""
    }
}

/// The mark of a faction that cannot raise a unit.
pub open spec fn manpower_mark(manpower: Quantity, balance: Balance) -> Seq<char> {
    if manpower.less(balance.unit_manpower) {
        "  ※徴兵不能"@
    } else {
        ""@
    }
}

/// The mark of a faction that cannot raise a unit.
pub fn manpower_marker(manpower: Quantity, balance: &Balance) -> (mark: &'static str)
    ensures
        mark@ == manpower_mark(manpower, *balance),
{
    if manpower.is_less(balance.unit_manpower) {
        "  ※徴兵不能"
    } else {
        ""
    }
}

/// Whether a good is one that civilians live on.
pub open spec fn is_civilian(good: Good) -> bool {
    good == Good::Food || good == Good::Energy || good == Good::Machinery
}

/// The mark of a stock that civilians live on and that is used up.
pub open spec fn stock_mark(good: Good, stock: Quantity) -> Seq<char> {
    if is_civilian(good) && stock.at_most(zero()) {
        "※枯渇"@
    } else {
        ""@
    }
}

/// The mark of a stock that civilians live on and that is used up.
pub fn stock_marker(good: Good, stock: Quantity) -> (mark: &'static str)
    ensures
        mark@ == stock_mark(good, stock),
{
    let civilian = good == Good::Food || good == Good::Energy || good == Good::Machinery;
    if civilian && stock.is_at_most(Quantity { bits: 0 }) {
        "※枯渇"
    } else {
        ""
    }
}

/// What a group does when its support falls too low; nothing for a group that never acts.
pub open spec fn group_event(group: Group) -> Seq<char> {
    match group {
        Group::Military => "反乱"@,
        Group::Labor => "ストライキ"@,
        Group::Citizens => "暴動"@,
        Group::Business => "資本逃避"@,
        Group::LocalGovernment => "分離独立"@,
        Group::Government | Group::Bureaucracy => ""@,
    }
}

/// What a group does when its support falls too low.
pub fn group_event_name(group: Group) -> (name: &'static str)
    ensures
        name@ == group_event(group),
{
    match group {
        Group::Military => "反乱",
        Group::Labor => "ストライキ",
        Group::Citizens => "暴動",
        Group::Business => "資本逃避",
        Group::LocalGovernment => "分離独立",
        Group::Government | Group::Bureaucracy => "",
    }
}

/// The support below which a group acts, if it ever does.
pub open spec fn acts_below(group: Group, balance: Balance) -> Option<Quantity> {
    match group {
        Group::Military => Some(balance.mutiny_threshold),
        Group::Labor => Some(balance.strike_threshold),
        Group::Citizens => Some(balance.protest_threshold),
        Group::Business => Some(balance.capital_flight_threshold),
        Group::LocalGovernment => Some(balance.separatism_threshold),
        Group::Government | Group::Bureaucracy => None,
    }
}

/// The support below which a group acts, if it ever does.
pub fn group_threshold(group: Group, balance: &Balance) -> (threshold: Option<Quantity>)
    ensures
        threshold == acts_below(group, *balance),
{
    match group {
        Group::Military => Some(balance.mutiny_threshold),
        Group::Labor => Some(balance.strike_threshold),
        Group::Citizens => Some(balance.protest_threshold),
        Group::Business => Some(balance.capital_flight_threshold),
        Group::LocalGovernment => Some(balance.separatism_threshold),
        Group::Government | Group::Bureaucracy => None,
    }
}

/// What a complete shortage costs the support of a group, if it suffers from one.
pub open spec fn suffers_by(group: Group, balance: Balance) -> Option<Quantity> {
    match group {
        Group::Citizens => Some(balance.citizens_shortage_penalty),
        Group::Labor => Some(balance.labor_shortage_penalty),
        Group::Government => Some(balance.government_shortage_penalty),
        _ => None,
    }
}

/// What a complete shortage costs the support of a group, if it suffers from one.
pub fn group_shortage_penalty(group: Group, balance: &Balance) -> (penalty: Option<Quantity>)
    ensures
        penalty == suffers_by(group, *balance),
{
    match group {
        Group::Citizens => Some(balance.citizens_shortage_penalty),
        Group::Labor => Some(balance.labor_shortage_penalty),
        Group::Government => Some(balance.government_shortage_penalty),
        _ => None,
    }
}

/// How near a group is to acting: that it may act any day, or how many points are left.
pub open spec fn margin_note(group: Group, support: Quantity, balance: Balance) -> Option<Seq<char>> {
    match acts_below(group, balance) {
        Some(threshold) => {
            let margin = difference_of(support, threshold);
            Some(
                if margin.less(zero()) {
                    "※"@ + group_event(group) + "の危険"@
                } else {
                    "残"@ + margin.fixed(0)
                },
            )
        },
        None => None,
    }
}

/// What the shortage costs the support of a group.
pub open spec fn shortage_note(group: Group, shortage: Quantity, balance: Balance) -> Option<Seq<char>> {
    match suffers_by(group, balance) {
        Some(penalty) => {
            let cost = product_of(penalty, held_between(shortage, zero(), one()));
            if cost.positive() {
                Some("不足-"@ + cost.fixed(1))
            } else {
                None
            }
        },
        None => None,
    }
}

/// The notes on a group, in brackets, or nothing.
pub open spec fn group_note(group: Group, support: Quantity, shortage: Quantity, balance: Balance) -> Seq<char> {
    match (margin_note(group, support, balance), shortage_note(group, shortage, balance)) {
        (None, None) => ""@,
        (Some(a), None) => "("@ + a + ")"@,
        (None, Some(b)) => "("@ + b + ")"@,
        (Some(a), Some(b)) => "("@ + a + " "@ + b + ")"@,
    }
}

fn margin_text(group: Group, support: Quantity, balance: &Balance) -> (text: Option<String>)
    ensures
        match text {
            Some(t) => margin_note(group, support, *balance) == Some(t@),
            None => margin_note(group, support, *balance) is None,
        },
{
    match group_threshold(group, balance) {
        Some(threshold) => {
            let margin = support.minus(threshold);
            if margin.is_less(Quantity { bits: 0 }) {
                let mut text = "※".to_owned();
                text.append(group_event_name(group));
                text.append("の危険");
                Some(text)
            } else {
                let mut text = "残".to_owned();
                text.append(margin.fixed_text(0).as_str());
                Some(text)
            }
        },
        None => None,
    }
}

fn shortage_text(group: Group, shortage: Quantity, balance: &Balance) -> (text: Option<String>)
    ensures
        match text {
            Some(t) => shortage_note(group, shortage, *balance) == Some(t@),
            None => shortage_note(group, shortage, *balance) is None,
        },
{
    match group_shortage_penalty(group, balance) {
        Some(penalty) => {
            let cost = penalty.times(shortage.hold_between(Quantity { bits: 0 }, Quantity { bits: 0x3f80_0000 }));
            if cost.is_positive() {
                let mut text = "不足-".to_owned();
                text.append(cost.fixed_text(1).as_str());
                Some(text)
            } else {
                None
            }
        },
        None => None,
    }
}

/// Writes the notes on a group.
pub fn group_annotation(group: Group, support: Quantity, shortage: Quantity, balance: &Balance) -> (text: String)
    ensures
        text@ == group_note(group, support, shortage, *balance),
{
    match (margin_text(group, support, balance), shortage_text(group, shortage, balance)) {
        (None, None) => "".to_owned(),
        (Some(a), None) => {
            let mut text = "(".to_owned();
            text.append(a.as_str());
            text.append(")");
            text
        },
        (None, Some(b)) => {
            let mut text = "(".to_owned();
            text.append(b.as_str());
            text.append(")");
            text
        },
        (Some(a), Some(b)) => {
            let mut text = "(".to_owned();
            text.append(a.as_str());
            text.append(" ");
            text.append(b.as_str());
            text.append(")");
            text
        },
    }
}

/// Whether the game runs, and how fast.
pub open spec fn status_text(ui: Ui) -> Seq<char> {
    if ui.paused {
        "paused"@
    } else {
        "running ("@ + ui.last_active.name_text() + ")"@
    }
}

/// The top bar.
pub open spec fn top_bar_text(scenario: Seq<char>, day: nat, max_days: nat, ui: Ui) -> Seq<char> {
    scenario + "  —  day "@ + decimal(day) + " / "@ + decimal(max_days) + "  —  "@ + status_text(ui)
}

fn status(ui: &Ui) -> (text: String)
    ensures
        text@ == status_text(*ui),
{
    if ui.paused {
        "paused".to_owned()
    } else {
        let mut text = "running (".to_owned();
        text.append(ui.last_active.label());
        text.append(")");
        text
    }
}

/// Writes the top bar.
pub fn update_top_bar(scenario: &str, day: u32, max_days: u32, ui: &Ui) -> (text: String)
    ensures
        text@ == top_bar_text(scenario@, day as nat, max_days as nat, *ui),
{
    let mut text = scenario.to_owned();
    text.append("  —  day ");
    text.append(decimal_text(day as usize).as_str());
    text.append(" / ");
    text.append(decimal_text(max_days as usize).as_str());
    text.append("  —  ");
    text.append(status(ui).as_str());
    text
}

/// A stock: the name of the good, the amount and, where it is used up, a mark.
pub open spec fn stock_item(stock: Seq<Quantity>, i: int) -> Seq<char> {
    Good::at(i).key_text() + "="@ + stock[i].fixed(0) + stock_mark(Good::at(i), stock[i])
}

/// The stocks of all goods.
pub open spec fn stock_items(stock: Seq<Quantity>) -> Seq<Seq<char>> {
    Seq::new(GOOD_COUNT as nat, |i: int| stock_item(stock, i))
}

fn stock_texts(stock: &Vec<Quantity>) -> (items: Vec<String>)
    requires
        stock@.len() == GOOD_COUNT,
    ensures
        texts(items@) == stock_items(stock@),
{
    let mut items: Vec<String> = Vec::new();
    let mut i: usize = 0;
    while i < GOOD_COUNT
        invariant
            i <= GOOD_COUNT,
            items.len() == i,
            stock@.len() == GOOD_COUNT,
            forall|k: int| 0 <= k < i ==> (#[trigger] items@[k])@ == stock_item(stock@, k),
        decreases GOOD_COUNT - i,
    {
        let good = Good::nth(i);
        let mut text = good.key().to_owned();
        text.append("=");
        text.append(stock[i].fixed_text(0).as_str());
        text.append(stock_marker(good, stock[i]));
        items.push(text);
        i += 1;
    }
    assert(texts(items@) =~= stock_items(stock@));
    items
}

/// What the top bar says of the played faction.
pub open spec fn player_stats_text(faction: Faction, balance: Balance) -> Seq<char> {
    faction.name@ + "  |  在庫: "@ + joined(stock_items(faction.stock@), " "@) + "  |  人的資源"@ + faction.manpower.fixed(1)
        + manpower_mark(faction.manpower, balance) + "  安定度"@ + faction.stability.fixed(0) + stability_mark(
        faction.stability,
        balance,
    ) + "  戦争支持"@ + faction.war_support.fixed(0) + "  不足"@ + faction.shortage.fixed(2)
}

/// Writes what the top bar says of the played faction; nothing if none is played.
pub fn update_top_bar_player_stats(world: &World, player: Option<FactionId>) -> (text: String)
    requires
        world.valid(),
        player matches Some(f) ==> world.has_faction(f),
    ensures
        text@ == match player {
            Some(f) => player_stats_text(world.faction_at(f), world.balance),
            None => Seq::empty(),
        },
{
    let faction = match player {
        Some(f) => world.faction(f),
        None => return String::new(),
    };
    let mut text = faction.name.as_str().to_owned();
    text.append("  |  在庫: ");
    text.append(join(&stock_texts(&faction.stock), " ").as_str());
    text.append("  |  人的資源");
    text.append(faction.manpower.fixed_text(1).as_str());
    text.append(manpower_marker(faction.manpower, &world.balance));
    text.append("  安定度");
    text.append(faction.stability.fixed_text(0).as_str());
    text.append(stability_marker(faction.stability, &world.balance));
    text.append("  戦争支持");
    text.append(faction.war_support.fixed_text(0).as_str());
    text.append("  不足");
    text.append(faction.shortage.fixed_text(2).as_str());
    text
}

/// How many of the first `n` regions a faction owns.
pub open spec fn regions_owned(world: World, faction: FactionId, n: nat) -> nat
    decreases n,
{
    if n == 0 {
        0
    } else {
        regions_owned(world, faction, (n - 1) as nat) + if world.regions@[n - 1].owner == faction {
            1nat
        } else {
            0nat
        }
    }
}

/// How many of the first `n` units live and are a faction's.
pub open spec fn units_living(world: World, faction: FactionId, n: nat) -> nat
    decreases n,
{
    if n == 0 {
        0
    } else {
        units_living(world, faction, (n - 1) as nat) + if world.units@[n - 1].alive && world.units@[n - 1].owner == faction {
            1nat
        } else {
            0nat
        }
    }
}

fn count_regions(world: &World, faction: FactionId) -> (count: usize)
    ensures
        count == regions_owned(*world, faction, world.regions@.len()),
{
    let mut count: usize = 0;
    let mut i: usize = 0;
    while i < world.regions.len()
        invariant
            i <= world.regions.len(),
            count <= i,
            count == regions_owned(*world, faction, i as nat),
        decreases world.regions.len() - i,
    {
        if world.regions[i].owner == faction {
            count += 1;
        }
        i += 1;
    }
    count
}

fn count_units(world: &World, faction: FactionId) -> (count: usize)
    ensures
        count == units_living(*world, faction, world.units@.len()),
{
    let mut count: usize = 0;
    let mut i: usize = 0;
    while i < world.units.len()
        invariant
            i <= world.units.len(),
            count <= i,
            count == units_living(*world, faction, i as nat),
        decreases world.units.len() - i,
    {
        if world.units[i].alive && world.units[i].owner == faction {
            count += 1;
        }
        i += 1;
    }
    count
}

/// A stance by its name in the simulation.
pub open spec fn stance_name(stance: Stance) -> Seq<char> {
    match stance {
        Stance::War => "War"@,
        Stance::Ceasefire => "Ceasefire"@,
        Stance::NonAggression => "NonAggression"@,
        Stance::Alliance => "Alliance"@,
    }
}

fn stance_label(stance: Stance) -> (name: &'static str)
    ensures
        name@ == stance_name(stance),
{
    match stance {
        Stance::War => "War",
        Stance::Ceasefire => "Ceasefire",
        Stance::NonAggression => "NonAggression",
        Stance::Alliance => "Alliance",
    }
}

/// A national focus by its name in the simulation.
pub open spec fn focus_name(focus: NationalFocus) -> Seq<char> {
    match focus {
        NationalFocus::MilitaryUnification => "MilitaryUnification"@,
        NationalFocus::EconomicSphere => "EconomicSphere"@,
        NationalFocus::AllianceNetwork => "AllianceNetwork"@,
        NationalFocus::MaritimeTrade => "MaritimeTrade"@,
        NationalFocus::Technocracy => "Technocracy"@,
        NationalFocus::DefensivePosture => "DefensivePosture"@,
    }
}

fn focus_label(focus: NationalFocus) -> (name: &'static str)
    ensures
        name@ == focus_name(focus),
{
    match focus {
        NationalFocus::MilitaryUnification => "MilitaryUnification",
        NationalFocus::EconomicSphere => "EconomicSphere",
        NationalFocus::AllianceNetwork => "AllianceNetwork",
        NationalFocus::MaritimeTrade => "MaritimeTrade",
        NationalFocus::Technocracy => "Technocracy",
        NationalFocus::DefensivePosture => "DefensivePosture",
    }
}

/// How a faction stands to another one.
pub open spec fn relation_line(world: World, faction: FactionId, other: FactionId) -> Seq<char> {
    "\n    vs "@ + world.faction_at(other).name@ + ": "@ + stance_name(world.relation_of(faction, other).stance) + " (opinion "@
        + world.relation_of(faction, other).opinion.fixed(0) + ")"@
}

/// How a faction stands to the living ones among the first `n` others.
pub open spec fn relation_lines(world: World, faction: FactionId, n: nat) -> Seq<char>
    decreases n,
{
    if n == 0 {
        Seq::empty()
    } else {
        let before = relation_lines(world, faction, (n - 1) as nat);
        let other = FactionId((n - 1) as u32);
        if other != faction && world.factions@[n - 1].alive {
            before + relation_line(world, faction, other)
        } else {
            before
        }
    }
}

fn relation_text(world: &World, faction: FactionId, other: FactionId) -> (text: String)
    requires
        world.valid(),
        world.has_faction(faction),
        world.has_faction(other),
    ensures
        text@ == relation_line(*world, faction, other),
{
    let relation = world.relation(faction, other);
    let mut text = "\n    vs ".to_owned();
    text.append(world.faction(other).name.as_str());
    text.append(": ");
    text.append(stance_label(relation.stance));
    text.append(" (opinion ");
    text.append(relation.opinion.fixed_text(0).as_str());
    text.append(")");
    text
}

fn relations_text(world: &World, faction: FactionId) -> (text: String)
    requires
        world.valid(),
        world.has_faction(faction),
    ensures
        text@ == relation_lines(*world, faction, world.factions@.len()),
{
    let mut text = String::new();
    let mut i: usize = 0;
    while i < world.factions.len()
        invariant
            i <= world.factions.len(),
            world.valid(),
            world.has_faction(faction),
            text@ == relation_lines(*world, faction, i as nat),
        decreases world.factions.len() - i,
    {
        let other = FactionId(i as u32);
        if other != faction && world.factions[i].alive {
            text.append(relation_text(world, faction, other).as_str());
        }
        i += 1;
    }
    text
}

/// The support of a group, with notes.
pub open spec fn group_item(world: World, faction: Faction, i: int) -> Seq<char> {
    let support = faction.group_support@[i];
    world.labels.groups@[i]@ + support.fixed(0) + group_note(Group::at(i), support, faction.shortage, world.balance)
}

/// The support of all groups.
pub open spec fn group_items(world: World, faction: Faction) -> Seq<Seq<char>> {
    Seq::new(GROUP_COUNT as nat, |i: int| group_item(world, faction, i))
}

fn group_texts(world: &World, faction: &Faction) -> (items: Vec<String>)
    requires
        world.labels.groups@.len() == GROUP_COUNT,
        faction.group_support@.len() == GROUP_COUNT,
    ensures
        texts(items@) == group_items(*world, *faction),
{
    let mut items: Vec<String> = Vec::new();
    let mut i: usize = 0;
    while i < GROUP_COUNT
        invariant
            i <= GROUP_COUNT,
            items.len() == i,
            world.labels.groups@.len() == GROUP_COUNT,
            faction.group_support@.len() == GROUP_COUNT,
            forall|k: int| 0 <= k < i ==> (#[trigger] items@[k])@ == group_item(*world, *faction, k),
        decreases GROUP_COUNT - i,
    {
        let support = faction.group_support[i];
        let mut text = world.labels.groups[i].as_str().to_owned();
        text.append(support.fixed_text(0).as_str());
        text.append(group_annotation(Group::nth(i), support, faction.shortage, &world.balance).as_str());
        items.push(text);
        i += 1;
    }
    assert(texts(items@) =~= group_items(*world, *faction));
    items
}

/// The mark of the player's own faction.
pub open spec fn own_mark(own: bool) -> Seq<char> {
    if own {
        "【あなたの国】 "@
    } else {
        ""@
    }
}

/// The mark of a faction that is out of the game.
pub open spec fn gone_mark(alive: bool) -> Seq<char> {
    if alive {
        ""@
    } else {
        "(eliminated) "@
    }
}

/// The upper half of the summary panel: the name, what the faction holds and what it has.
pub open spec fn holdings_text(world: World, id: FactionId, own: bool) -> Seq<char> {
    let faction = world.faction_at(id);
    own_mark(own) + gone_mark(faction.alive) + faction.name@ + "  [Tab で他勢力に切替]\nterritory: "@ + decimal(
        regions_owned(world, id, world.regions@.len()),
    ) + " regions\nunits: "@ + decimal(units_living(world, id, world.units@.len())) + "\nmanpower: "@
        + faction.manpower.fixed(1) + manpower_mark(faction.manpower, world.balance) + "\nstock: "@ + joined(
        stock_items(faction.stock@),
        ", "@,
    )
}

/// The lower half of the summary panel: how the faction fares and how it stands to others.
pub open spec fn standing_text(world: World, id: FactionId) -> Seq<char> {
    let faction = world.faction_at(id);
    "\nstability: "@ + faction.stability.fixed(0) + stability_mark(faction.stability, world.balance) + "   war support: "@
        + faction.war_support.fixed(0) + "\ncivilian ration: "@ + faction.civilian_ration.fixed(2) + "   shortage: "@
        + faction.shortage.fixed(2) + "\ngroup support: "@ + joined(group_items(world, faction), "  "@)
        + "\nnational focus: "@ + focus_name(faction.national_focus) + "\ndiplomacy:"@ + relation_lines(
        world,
        id,
        world.factions@.len(),
    )
}

/// The summary panel of a faction.
pub open spec fn faction_panel_text(world: World, id: FactionId, own: bool) -> Seq<char> {
    holdings_text(world, id, own) + standing_text(world, id)
}

fn holdings(world: &World, id: FactionId, own: bool) -> (text: String)
    requires
        world.valid(),
        world.has_faction(id),
    ensures
        text@ == holdings_text(*world, id, own),
{
    let faction = world.faction(id);
    let mut text = if own {
        "【あなたの国】 ".to_owned()
    } else {
        "".to_owned()
    };
    assert(text@ == own_mark(own));
    text.append(
        if faction.alive {
            ""
        } else {
            "(eliminated) "
        },
    );
    text.append(faction.name.as_str());
    text.append("  [Tab で他勢力に切替]\nterritory: ");
    text.append(decimal_text(count_regions(world, id)).as_str());
    text.append(" regions\nunits: ");
    text.append(decimal_text(count_units(world, id)).as_str());
    text.append("\nmanpower: ");
    text.append(faction.manpower.fixed_text(1).as_str());
    text.append(manpower_marker(faction.manpower, &world.balance));
    text.append("\nstock: ");
    text.append(join(&stock_texts(&faction.stock), ", ").as_str());
    text
}

fn standing(world: &World, id: FactionId) -> (text: String)
    requires
        world.valid(),
        world.has_faction(id),
    ensures
        text@ == standing_text(*world, id),
{
    let faction = world.faction(id);
    let mut text = "\nstability: ".to_owned();
    text.append(faction.stability.fixed_text(0).as_str());
    text.append(stability_marker(faction.stability, &world.balance));
    text.append("   war support: ");
    text.append(faction.war_support.fixed_text(0).as_str());
    text.append("\ncivilian ration: ");
    text.append(faction.civilian_ration.fixed_text(2).as_str());
    text.append("   shortage: ");
    text.append(faction.shortage.fixed_text(2).as_str());
    text.append("\ngroup support: ");
    text.append(join(&group_texts(world, faction), "  ").as_str());
    text.append("\nnational focus: ");
    text.append(focus_label(faction.national_focus));
    text.append("\ndiplomacy:");
    text.append(relations_text(world, id).as_str());
    text
}

/// Writes the summary panel of the selected faction; nothing if there is no such faction.
pub fn update_faction_panel(world: &World, ui: &Ui) -> (text: String)
    requires
        world.valid(),
    ensures
        text@ == if world.has_faction(ui.selected_faction) {
            faction_panel_text(*world, ui.selected_faction, ui.player == Some(ui.selected_faction))
        } else {
            Seq::empty()
        },
{
    let id = ui.selected_faction;
    if id.0 as usize >= world.factions.len() {
        return String::new();
    }
    let own = match ui.player {
        Some(player) => player == id,
        None => false,
    };
    let mut text = holdings(world, id, own);
    text.append(standing(world, id).as_str());
    text
}

} // verus!
