//! Events of the simulation as lines of the event log, with names in place of numbers.
use crate::quantity::Quantity;
use crate::text::{decimal, decimal_text, join, joined, texts};
use crate::types::{FactionId, Good, RegionId, SeaZoneId, Station, TransportLineId, TransportNodeId, Treaty, TreatyTerm, UnitId};
use crate::world::{NodeKind, World};
use vstd::prelude::*;

verus! {

/// How an air strike on a transport node ended.
#[derive(Clone, Copy, Debug, PartialEq, Eq, Structural)]
pub enum StrikeOutcome {
    KnockedOut,
    StillOperational,
    AlreadyDown,
}

/// What happened on a day.
#[allow(inconsistent_fields)]
pub enum Event {
    Battle { region: RegionId, factions: Vec<FactionId>, casualties: Quantity },
    NavalBattle { zone: SeaZoneId, factions: Vec<FactionId>, casualties: Quantity },
    UnitDestroyed { unit: UnitId, station: Station, owner: FactionId },
    RegionCaptured { region: RegionId, from: FactionId, to: FactionId },
    FactionEliminated { faction: FactionId },
    Strike { faction: FactionId },
    Protest { faction: FactionId },
    Mutiny { faction: FactionId },
    CapitalFlight { faction: FactionId },
    RegimeChange { faction: FactionId },
    Separatism { region: RegionId, from: FactionId, to: FactionId },
    TreatyProposed { from: FactionId, to: FactionId, treaty: Treaty },
    TreatySigned { a: FactionId, b: FactionId, treaty: Treaty },
    TreatyRejected { from: FactionId, to: FactionId, treaty: Treaty },
    TreatyBroken { a: FactionId, b: FactionId, treaty: Treaty },
    WarDeclared { a: FactionId, b: FactionId },
    AllianceDragIn { faction: FactionId, into_war_with: FactionId },
    NaturalLanguageProposed { from: FactionId, to: FactionId, text: String },
    NaturalLanguageAccepted { from: FactionId, to: FactionId, terms: Vec<TreatyTerm> },
    NaturalLanguageRejected { from: FactionId, to: FactionId, terms: Vec<TreatyTerm> },
    NaturalLanguageTermsInvalid { from: FactionId, to: FactionId, terms: Vec<TreatyTerm> },
    NodeStruck { attacker: FactionId, defender: FactionId, node: TransportNodeId, node_kind: NodeKind, outcome: StrikeOutcome },
    LineInterdicted { attacker: FactionId, defender: FactionId, line: TransportLineId, capacity_cut: bool },
}

/// The name of a kind of transport node.
pub open spec fn node_kind_text(kind: NodeKind) -> Seq<char> {
    match kind {
        NodeKind::Airfield => "飛行場"@,
        NodeKind::Port => "港"@,
        NodeKind::Depot => "拠点"@,
        NodeKind::Junction => "拠点"@,
    }
}

/// The name of a kind of transport node.
pub fn node_kind_ja(kind: NodeKind) -> (text: &'static str)
    ensures
        text@ == node_kind_text(kind),
{
    match kind {
        NodeKind::Airfield => "飛行場",
        NodeKind::Port => "港",
        NodeKind::Depot => "拠点",
        NodeKind::Junction => "拠点",
    }
}

/// The name of a treaty in the event log.
pub open spec fn treaty_text(treaty: Treaty) -> Seq<char> {
    match treaty {
        Treaty::Ceasefire => "停戦"@,
        Treaty::NonAggression => "不可侵条約"@,
        Treaty::Alliance => "同盟"@,
        Treaty::MilitaryAccess => "通行権"@,
        Treaty::PortAccess => "港湾利用権"@,
        Treaty::TradeAgreement => "通商協定"@,
    }
}

/// The name of a treaty in the event log.
pub fn treaty_label(treaty: Treaty) -> (text: &'static str)
    ensures
        text@ == treaty_text(treaty),
{
    match treaty {
        Treaty::Ceasefire => "停戦",
        Treaty::NonAggression => "不可侵条約",
        Treaty::Alliance => "同盟",
        Treaty::MilitaryAccess => "通行権",
        Treaty::PortAccess => "港湾利用権",
        Treaty::TradeAgreement => "通商協定",
    }
}

/// The name of a good in the event log.
pub open spec fn good_text(good: Good) -> Seq<char> {
    match good {
        Good::Food => "食料"@,
        Good::Energy => "燃料"@,
        Good::Steel => "鋼材"@,
        Good::Machinery => "機械"@,
        Good::Munitions => "弾薬"@,
        Good::Arms => "兵器"@,
    }
}

/// The name of a good in the event log.
pub fn good_label(good: Good) -> (text: &'static str)
    ensures
        text@ == good_text(good),
{
    match good {
        Good::Food => "食料",
        Good::Energy => "燃料",
        Good::Steel => "鋼材",
        Good::Machinery => "機械",
        Good::Munitions => "弾薬",
        Good::Arms => "兵器",
    }
}

/// Whether the regions that a term names exist.
pub open spec fn term_is_known(world: World, term: TreatyTerm) -> bool {
    match term {
        TreatyTerm::Withdraw { from } => world.has_region(from),
        TreatyTerm::Cede { region } => world.has_region(region),
        _ => true,
    }
}

/// One treaty term, in the player's language.
pub open spec fn term_text(world: World, term: TreatyTerm) -> Seq<char> {
    match term {
        TreatyTerm::Sign(treaty) => treaty_text(treaty) + "を締結"@,
        TreatyTerm::Withdraw { from } => world.region_at(from).name@ + " から撤退"@,
        TreatyTerm::Cede { region } => world.region_at(region).name@ + " を割譲"@,
        TreatyTerm::Deliver { good, amount } => good_text(good) + " を"@ + amount.fixed(0) + "引き渡し"@,
    }
}

/// Writes one treaty term in the player's language.
pub fn treaty_term_ja(world: &World, term: TreatyTerm) -> (text: String)
    requires
        term_is_known(*world, term),
    ensures
        text@ == term_text(*world, term),
{
    match term {
        TreatyTerm::Sign(treaty) => {
            let mut text = treaty_label(treaty).to_owned();
            text.append("を締結");
            text
        },
        TreatyTerm::Withdraw { from } => {
            let mut text = world.region(from).name.as_str().to_owned();
            text.append(" から撤退");
            text
        },
        TreatyTerm::Cede { region } => {
            let mut text = world.region(region).name.as_str().to_owned();
            text.append(" を割譲");
            text
        },
        TreatyTerm::Deliver { good, amount } => {
            let mut text = good_label(good).to_owned();
            text.append(" を");
            text.append(amount.fixed_text(0).as_str());
            text.append("引き渡し");
            text
        },
    }
}

/// Whether the regions that a list of terms names exist.
pub open spec fn terms_are_known(world: World, terms: Seq<TreatyTerm>) -> bool {
    forall|i: int| 0 <= i < terms.len() ==> term_is_known(world, #[trigger] terms[i])
}

/// A list of treaty terms, in the player's language.
pub open spec fn terms_text(world: World, terms: Seq<TreatyTerm>) -> Seq<char> {
    if terms.len() == 0 {
        "(条件なし)"@
    } else {
        joined(Seq::new(terms.len(), |i: int| term_text(world, terms[i])), " / "@)
    }
}

fn terms_ja(world: &World, terms: &Vec<TreatyTerm>) -> (text: String)
    requires
        terms_are_known(*world, terms@),
    ensures
        text@ == terms_text(*world, terms@),
{
    if terms.len() == 0 {
        return "(条件なし)".to_owned();
    }
    let mut parts: Vec<String> = Vec::new();
    let mut i: usize = 0;
    while i < terms.len()
        invariant
            i <= terms.len(),
            parts.len() == i,
            terms_are_known(*world, terms@),
            forall|k: int| 0 <= k < i ==> (#[trigger] parts@[k])@ == term_text(*world, terms@[k]),
        decreases terms.len() - i,
    {
        parts.push(treaty_term_ja(world, terms[i]));
        i += 1;
    }
    assert(texts(parts@) =~= Seq::new(terms@.len(), |k: int| term_text(*world, terms@[k])));
    join(&parts, " / ")
}

/// Whether the factions of a list exist.
pub open spec fn factions_are_known(world: World, factions: Seq<FactionId>) -> bool {
    forall|i: int| 0 <= i < factions.len() ==> world.has_faction(#[trigger] factions[i])
}

/// The names of factions that fight each other.
pub open spec fn versus_text(world: World, factions: Seq<FactionId>) -> Seq<char> {
    joined(Seq::new(factions.len(), |i: int| world.faction_at(factions[i]).name@), " vs "@)
}

fn versus(world: &World, factions: &Vec<FactionId>) -> (text: String)
    requires
        factions_are_known(*world, factions@),
    ensures
        text@ == versus_text(*world, factions@),
{
    let mut names: Vec<String> = Vec::new();
    let mut i: usize = 0;
    while i < factions.len()
        invariant
            i <= factions.len(),
            names.len() == i,
            factions_are_known(*world, factions@),
            forall|k: int| 0 <= k < i ==> (#[trigger] names@[k])@ == world.faction_at(factions@[k]).name@,
        decreases factions.len() - i,
    {
        names.push(world.faction(factions[i]).name.as_str().to_owned());
        i += 1;
    }
    assert(texts(names@) =~= Seq::new(factions@.len(), |k: int| world.faction_at(factions@[k]).name@));
    join(&names, " vs ")
}

/// How an air strike ended, in the player's language.
pub open spec fn strike_outcome_text(outcome: StrikeOutcome) -> Seq<char> {
    match outcome {
        StrikeOutcome::KnockedOut => " (機能停止)"@,
        StrikeOutcome::StillOperational => " (稼働継続)"@,
        StrikeOutcome::AlreadyDown => " (既に停止)"@,
    }
}

fn strike_outcome_ja(outcome: StrikeOutcome) -> (text: &'static str)
    ensures
        text@ == strike_outcome_text(outcome),
{
    match outcome {
        StrikeOutcome::KnockedOut => " (機能停止)",
        StrikeOutcome::StillOperational => " (稼働継続)",
        StrikeOutcome::AlreadyDown => " (既に停止)",
    }
}

/// Whether everything that an event names exists in the world.
pub open spec fn event_is_known(world: World, event: Event) -> bool {
    match event {
        Event::UnitDestroyed { station, owner, .. } => world.has_station(station) && world.has_faction(owner),
        Event::LineInterdicted { attacker, defender, line, .. } => world.has_faction(attacker) && world.has_faction(
            defender,
        ) && world.has_line(line),
        Event::Battle { region, factions, .. } => world.has_region(region) && factions_are_known(world, factions@),
        Event::NavalBattle { zone, factions, .. } => world.has_sea_zone(zone) && factions_are_known(world, factions@),
        Event::RegionCaptured { region, from, to } => world.has_region(region) && world.has_faction(from) && world.has_faction(to),
        Event::FactionEliminated { faction } => world.has_faction(faction),
        Event::Strike { faction } => world.has_faction(faction),
        Event::Protest { faction } => world.has_faction(faction),
        Event::Mutiny { faction } => world.has_faction(faction),
        Event::CapitalFlight { faction } => world.has_faction(faction),
        Event::RegimeChange { faction } => world.has_faction(faction),
        Event::Separatism { region, from, to } => world.has_region(region) && world.has_faction(from) && world.has_faction(to),
        Event::TreatyProposed { from, to, .. } => world.has_faction(from) && world.has_faction(to),
        Event::TreatySigned { a, b, .. } => world.has_faction(a) && world.has_faction(b),
        Event::TreatyRejected { from, to, .. } => world.has_faction(from) && world.has_faction(to),
        Event::TreatyBroken { a, b, .. } => world.has_faction(a) && world.has_faction(b),
        Event::WarDeclared { a, b } => world.has_faction(a) && world.has_faction(b),
        Event::AllianceDragIn { faction, into_war_with } => world.has_faction(faction) && world.has_faction(into_war_with),
        Event::NaturalLanguageProposed { from, to, .. } => world.has_faction(from) && world.has_faction(to),
        Event::NaturalLanguageAccepted { from, to, terms } => world.has_faction(from) && world.has_faction(to) && terms_are_known(world, terms@),
        Event::NaturalLanguageRejected { from, to, terms } => world.has_faction(from) && world.has_faction(to) && terms_are_known(world, terms@),
        Event::NaturalLanguageTermsInvalid { from, to, terms } => world.has_faction(from) && world.has_faction(to) && terms_are_known(world, terms@),
        Event::NodeStruck { attacker, defender, node, .. } => world.has_faction(attacker) && world.has_faction(defender) && world.has_node(node),
    }
}

/// The line of the event log for an event.
pub open spec fn event_text(world: World, event: Event) -> Seq<char> {
    match event {
        Event::UnitDestroyed { unit, station, owner } => match station {
            Station::Region(region) => "部隊壊滅: "@ + world.faction_at(owner).name@ + " 軍 部隊#"@ + decimal(unit.0 as nat)
                + " が "@ + world.region_at(region).name@ + " で失われた"@,
            Station::Sea(zone) => "艦隊撃沈: "@ + world.faction_at(owner).name@ + " 軍 部隊#"@ + decimal(unit.0 as nat)
                + " が "@ + world.sea_zones@[zone.0 as int].name@ + " で撃沈された"@,
            Station::Airfield(node) => "部隊壊滅: "@ + world.faction_at(owner).name@ + " 軍 部隊#"@ + decimal(unit.0 as nat)
                + " が "@ + world.nodes@[node.0 as int].name@ + " で失われた"@,
        },
        Event::LineInterdicted { attacker, defender, line, capacity_cut } => {
            let l = world.lines@[line.0 as int];
            "阻止: "@ + world.faction_at(attacker).name@ + " 軍が "@ + world.faction_at(defender).name@ + " の輸送路線「"@
                + world.nodes@[l.from.0 as int].name@ + "⇔"@ + world.nodes@[l.to.0 as int].name@ + "」を攻撃"@ + (
            if capacity_cut {
                " (輸送力低下)"@
            } else {
                " (既に途絶)"@
            })
        },
        Event::Battle { region, factions, casualties } => "戦闘: "@ + world.region_at(region).name@ + " で "@ + versus_text(world, factions@) + " が交戦 (損耗 "@ + casualties.fixed(2) + "万人)"@,
        Event::NavalBattle { zone, factions, casualties } => "海戦: "@ + world.sea_zones@[zone.0 as int].name@ + " で "@ + versus_text(world, factions@) + " が交戦 (損耗 "@ + casualties.fixed(2) + "万人)"@,
        Event::RegionCaptured { region, from, to } => "占領: "@ + world.region_at(region).name@ + " を "@ + world.faction_at(to).name@ + " が "@ + world.faction_at(from).name@ + " から奪取"@,
        Event::FactionEliminated { faction } => "敗北: "@ + world.faction_at(faction).name@ + " が全領土を失い脱落"@,
        Event::Strike { faction } => "ストライキ: "@ + world.faction_at(faction).name@ + " で労働者がストライキ開始 (工業生産低下)"@,
        Event::Protest { faction } => "デモ: "@ + world.faction_at(faction).name@ + " で市民デモが拡大 (治安悪化)"@,
        Event::Mutiny { faction } => "軍部不服従: "@ + world.faction_at(faction).name@ + " で軍の統制が乱れる (組織率回復低下)"@,
        Event::CapitalFlight { faction } => "資本逃避: "@ + world.faction_at(faction).name@ + " で資本が流出 (建設・機械生産低下)"@,
        Event::RegimeChange { faction } => "政権交代: "@ + world.faction_at(faction).name@ + " で政権が崩壊、政策が既定値に戻る"@,
        Event::Separatism { region, from, to } => "地方独立運動: "@ + world.region_at(region).name@ + " が "@ + world.faction_at(from).name@ + " から "@ + world.faction_at(to).name@ + " へ復帰"@,
        Event::TreatyProposed { from, to, treaty } => "外交提案: "@ + world.faction_at(from).name@ + " が "@ + world.faction_at(to).name@ + " に "@ + treaty_text(treaty) + " を提案"@,
        Event::TreatySigned { a, b, treaty } => "条約締結: "@ + world.faction_at(a).name@ + " と "@ + world.faction_at(b).name@ + " が "@ + treaty_text(treaty) + " を締結"@,
        Event::TreatyRejected { from, to, treaty } => "外交拒否: "@ + world.faction_at(to).name@ + " が "@ + world.faction_at(from).name@ + " の "@ + treaty_text(treaty) + " 提案を拒否"@,
        Event::TreatyBroken { a, b, treaty } => "条約破棄: "@ + world.faction_at(a).name@ + " が "@ + world.faction_at(b).name@ + " との "@ + treaty_text(treaty) + " を破棄"@,
        Event::WarDeclared { a, b } => "宣戦布告: "@ + world.faction_at(a).name@ + " が "@ + world.faction_at(b).name@ + " に宣戦"@,
        Event::AllianceDragIn { faction, into_war_with } => "同盟参戦: "@ + world.faction_at(faction).name@ + " が同盟により "@ + world.faction_at(into_war_with).name@ + " との戦争に参戦"@,
        Event::NaturalLanguageProposed { from, to, text } => "自然言語外交: "@ + world.faction_at(from).name@ + " が "@ + world.faction_at(to).name@ + " に提案 「"@ + text@ + "」"@,
        Event::NaturalLanguageAccepted { from, to, terms } => "自然言語外交・成立: "@ + world.faction_at(to).name@ + " が "@ + world.faction_at(from).name@ + " の提案を受諾 ["@ + terms_text(world, terms@) + "]"@,
        Event::NaturalLanguageRejected { from, to, terms } => "自然言語外交・拒否: "@ + world.faction_at(to).name@ + " が "@ + world.faction_at(from).name@ + " の提案を拒否 ["@ + terms_text(world, terms@) + "]"@,
        Event::NaturalLanguageTermsInvalid { from, to, terms } => "自然言語外交・不成立: "@ + world.faction_at(to).name@ + " が "@ + world.faction_at(from).name@ + " の提案を受諾しようとしたが条件が満たせず不成立 ["@ + terms_text(world, terms@) + "]"@,
        Event::NodeStruck { attacker, defender, node, node_kind, outcome } => "空爆: "@ + world.faction_at(attacker).name@ + " 軍が "@ + world.faction_at(defender).name@ + " の"@ + node_kind_text(node_kind) + "「"@ + world.nodes@[node.0 as int].name@ + "」を空爆"@ + strike_outcome_text(outcome),
    }
}

/// Writes the line of the event log for an event.
pub fn format_event(world: &World, event: &Event) -> (text: String)
    requires
        world.valid(),
        event_is_known(*world, *event),
    ensures
        text@ == event_text(*world, *event),
{
    match event {
        Event::UnitDestroyed { unit, station, owner } => match station {
            Station::Region(region) => {
                let mut line = "部隊壊滅: ".to_owned();
                line.append(world.faction(*owner).name.as_str());
                line.append(" 軍 部隊#");
                line.append(decimal_text(unit.0 as usize).as_str());
                line.append(" が ");
                line.append(world.region(*region).name.as_str());
                line.append(" で失われた");
                line
            },
            Station::Sea(zone) => {
                let mut line = "艦隊撃沈: ".to_owned();
                line.append(world.faction(*owner).name.as_str());
                line.append(" 軍 部隊#");
                line.append(decimal_text(unit.0 as usize).as_str());
                line.append(" が ");
                line.append(world.sea_zone(*zone).name.as_str());
                line.append(" で撃沈された");
                line
            },
            Station::Airfield(node) => {
                let mut line = "部隊壊滅: ".to_owned();
                line.append(world.faction(*owner).name.as_str());
                line.append(" 軍 部隊#");
                line.append(decimal_text(unit.0 as usize).as_str());
                line.append(" が ");
                line.append(world.transport_node(*node).name.as_str());
                line.append(" で失われた");
                line
            },
        },
        Event::LineInterdicted { attacker, defender, line: id, capacity_cut } => {
            let l = world.transport_line(*id);
            let mut line = "阻止: ".to_owned();
            line.append(world.faction(*attacker).name.as_str());
            line.append(" 軍が ");
            line.append(world.faction(*defender).name.as_str());
            line.append(" の輸送路線「");
            line.append(world.transport_node(l.from).name.as_str());
            line.append("⇔");
            line.append(world.transport_node(l.to).name.as_str());
            line.append("」を攻撃");
            if *capacity_cut {
                line.append(" (輸送力低下)");
            } else {
                line.append(" (既に途絶)");
            }
            line
        },
        Event::Battle { region, factions, casualties } => {
            let mut line = "戦闘: ".to_owned();
            line.append(world.region(*region).name.as_str());
            line.append(" で ");
            line.append(versus(world, factions).as_str());
            line.append(" が交戦 (損耗 ");
            line.append(casualties.fixed_text(2).as_str());
            line.append("万人)");
            line
        },
        Event::NavalBattle { zone, factions, casualties } => {
            let mut line = "海戦: ".to_owned();
            line.append(world.sea_zone(*zone).name.as_str());
            line.append(" で ");
            line.append(versus(world, factions).as_str());
            line.append(" が交戦 (損耗 ");
            line.append(casualties.fixed_text(2).as_str());
            line.append("万人)");
            line
        },
        Event::RegionCaptured { region, from, to } => {
            let mut line = "占領: ".to_owned();
            line.append(world.region(*region).name.as_str());
            line.append(" を ");
            line.append(world.faction(*to).name.as_str());
            line.append(" が ");
            line.append(world.faction(*from).name.as_str());
            line.append(" から奪取");
            line
        },
        Event::FactionEliminated { faction } => {
            let mut line = "敗北: ".to_owned();
            line.append(world.faction(*faction).name.as_str());
            line.append(" が全領土を失い脱落");
            line
        },
        Event::Strike { faction } => {
            let mut line = "ストライキ: ".to_owned();
            line.append(world.faction(*faction).name.as_str());
            line.append(" で労働者がストライキ開始 (工業生産低下)");
            line
        },
        Event::Protest { faction } => {
            let mut line = "デモ: ".to_owned();
            line.append(world.faction(*faction).name.as_str());
            line.append(" で市民デモが拡大 (治安悪化)");
            line
        },
        Event::Mutiny { faction } => {
            let mut line = "軍部不服従: ".to_owned();
            line.append(world.faction(*faction).name.as_str());
            line.append(" で軍の統制が乱れる (組織率回復低下)");
            line
        },
        Event::CapitalFlight { faction } => {
            let mut line = "資本逃避: ".to_owned();
            line.append(world.faction(*faction).name.as_str());
            line.append(" で資本が流出 (建設・機械生産低下)");
            line
        },
        Event::RegimeChange { faction } => {
            let mut line = "政権交代: ".to_owned();
            line.append(world.faction(*faction).name.as_str());
            line.append(" で政権が崩壊、政策が既定値に戻る");
            line
        },
        Event::Separatism { region, from, to } => {
            let mut line = "地方独立運動: ".to_owned();
            line.append(world.region(*region).name.as_str());
            line.append(" が ");
            line.append(world.faction(*from).name.as_str());
            line.append(" から ");
            line.append(world.faction(*to).name.as_str());
            line.append(" へ復帰");
            line
        },
        Event::TreatyProposed { from, to, treaty } => {
            let mut line = "外交提案: ".to_owned();
            line.append(world.faction(*from).name.as_str());
            line.append(" が ");
            line.append(world.faction(*to).name.as_str());
            line.append(" に ");
            line.append(treaty_label(*treaty));
            line.append(" を提案");
            line
        },
        Event::TreatySigned { a, b, treaty } => {
            let mut line = "条約締結: ".to_owned();
            line.append(world.faction(*a).name.as_str());
            line.append(" と ");
            line.append(world.faction(*b).name.as_str());
            line.append(" が ");
            line.append(treaty_label(*treaty));
            line.append(" を締結");
            line
        },
        Event::TreatyRejected { from, to, treaty } => {
            let mut line = "外交拒否: ".to_owned();
            line.append(world.faction(*to).name.as_str());
            line.append(" が ");
            line.append(world.faction(*from).name.as_str());
            line.append(" の ");
            line.append(treaty_label(*treaty));
            line.append(" 提案を拒否");
            line
        },
        Event::TreatyBroken { a, b, treaty } => {
            let mut line = "条約破棄: ".to_owned();
            line.append(world.faction(*a).name.as_str());
            line.append(" が ");
            line.append(world.faction(*b).name.as_str());
            line.append(" との ");
            line.append(treaty_label(*treaty));
            line.append(" を破棄");
            line
        },
        Event::WarDeclared { a, b } => {
            let mut line = "宣戦布告: ".to_owned();
            line.append(world.faction(*a).name.as_str());
            line.append(" が ");
            line.append(world.faction(*b).name.as_str());
            line.append(" に宣戦");
            line
        },
        Event::AllianceDragIn { faction, into_war_with } => {
            let mut line = "同盟参戦: ".to_owned();
            line.append(world.faction(*faction).name.as_str());
            line.append(" が同盟により ");
            line.append(world.faction(*into_war_with).name.as_str());
            line.append(" との戦争に参戦");
            line
        },
        Event::NaturalLanguageProposed { from, to, text } => {
            let mut line = "自然言語外交: ".to_owned();
            line.append(world.faction(*from).name.as_str());
            line.append(" が ");
            line.append(world.faction(*to).name.as_str());
            line.append(" に提案 「");
            line.append(text.as_str());
            line.append("」");
            line
        },
        Event::NaturalLanguageAccepted { from, to, terms } => {
            let mut line = "自然言語外交・成立: ".to_owned();
            line.append(world.faction(*to).name.as_str());
            line.append(" が ");
            line.append(world.faction(*from).name.as_str());
            line.append(" の提案を受諾 [");
            line.append(terms_ja(world, terms).as_str());
            line.append("]");
            line
        },
        Event::NaturalLanguageRejected { from, to, terms } => {
            let mut line = "自然言語外交・拒否: ".to_owned();
            line.append(world.faction(*to).name.as_str());
            line.append(" が ");
            line.append(world.faction(*from).name.as_str());
            line.append(" の提案を拒否 [");
            line.append(terms_ja(world, terms).as_str());
            line.append("]");
            line
        },
        Event::NaturalLanguageTermsInvalid { from, to, terms } => {
            let mut line = "自然言語外交・不成立: ".to_owned();
            line.append(world.faction(*to).name.as_str());
            line.append(" が ");
            line.append(world.faction(*from).name.as_str());
            line.append(" の提案を受諾しようとしたが条件が満たせず不成立 [");
            line.append(terms_ja(world, terms).as_str());
            line.append("]");
            line
        },
        Event::NodeStruck { attacker, defender, node, node_kind, outcome } => {
            let mut line = "空爆: ".to_owned();
            line.append(world.faction(*attacker).name.as_str());
            line.append(" 軍が ");
            line.append(world.faction(*defender).name.as_str());
            line.append(" の");
            line.append(node_kind_ja(*node_kind));
            line.append("「");
            line.append(world.transport_node(*node).name.as_str());
            line.append("」を空爆");
            line.append(strike_outcome_ja(*outcome));
            line
        },
    }
}

} // verus!
