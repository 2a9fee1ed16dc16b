//! Who is told to have done what to whom in the event log.
use crate::event_text::{
    event_text, good_text, node_kind_text, strike_outcome_text, term_text, terms_text, treaty_text, versus_text, Event,
    StrikeOutcome,
};
use crate::quantity::Quantity;
use crate::text::{decimal, joined};
use crate::types::{FactionId, Good, RegionId, SeaZoneId, Station, TransportLineId, TransportNodeId, Treaty, TreatyTerm, UnitId};
use crate::world::{NodeKind, World};
use vstd::prelude::*;

verus! {

/// Whether a line is made of an opening and a closing, with nothing in between.
pub open spec fn reads(line: Seq<char>, opening: Seq<char>, closing: Seq<char>) -> bool {
    &&& opening.is_prefix_of(line)
    &&& closing.is_suffix_of(line)
    &&& line.len() == opening.len() + closing.len()
}

proof fn lemma_reads(opening: Seq<char>, closing: Seq<char>)
    ensures
        reads(opening + closing, opening, closing),
{
    let line = opening + closing;
    assert(line.subrange(0, opening.len() as int) =~= opening);
    assert(line.subrange(line.len() - closing.len(), line.len() as int) =~= closing);
}

/// The line of a capture names the faction that takes the region before the one it is taken from: the
/// taker stands right before "が", the loser right before "から奪取".
pub proof fn captures_name_the_taker_first(world: World, region: RegionId, loser: FactionId, taker: FactionId)
    ensures
        reads(
            event_text(world, Event::RegionCaptured { region, from: loser, to: taker }),
            "占領: "@ + world.regions@[region.0 as int].name@ + " を "@ + world.factions@[taker.0 as int].name@ + " が "@,
            world.factions@[loser.0 as int].name@ + " から奪取"@,
        ),
{
    let opening = "占領: "@ + world.regions@[region.0 as int].name@ + " を "@ + world.factions@[taker.0 as int].name@ + " が "@;
    let closing = world.factions@[loser.0 as int].name@ + " から奪取"@;
    lemma_reads(opening, closing);
    assert(event_text(world, Event::RegionCaptured { region, from: loser, to: taker }) =~= opening + closing);
}

/// Two captures of one region, of the one faction by the other and the other way round, are told by
/// different lines, where the factions go by different names that do not hold the mark between them.
pub proof fn captures_tell_taker_from_loser(world: World, region: RegionId, a: FactionId, b: FactionId)
    requires
        world.factions@[a.0 as int].name@ != world.factions@[b.0 as int].name@,
        !world.factions@[a.0 as int].name@.contains('が'),
        !world.factions@[b.0 as int].name@.contains('が'),
    ensures
        event_text(world, Event::RegionCaptured { region, from: a, to: b }) != event_text(
            world,
            Event::RegionCaptured { region, from: b, to: a },
        ),
{
    let (x, y) = (world.factions@[a.0 as int].name@, world.factions@[b.0 as int].name@);
    let head = "占領: "@ + world.regions@[region.0 as int].name@ + " を "@;
    let (mid, tail) = (" が "@, " から奪取"@);
    let first = event_text(world, Event::RegionCaptured { region, from: a, to: b });
    let second = event_text(world, Event::RegionCaptured { region, from: b, to: a });
    assert(first =~= head + (y + (mid + (x + tail))));
    assert(second =~= head + (x + (mid + (y + tail))));
    reveal_strlit(" が ");
    assert(mid.len() == 3 && mid[0] == ' ' && mid[1] == 'が');
    if x.len() < y.len() {
        lemma_exchanged(head, x, y, mid, tail);
    } else if y.len() < x.len() {
        lemma_exchanged(head, y, x, mid, tail);
    } else if first == second {
        assert forall|k: int| 0 <= k < x.len() implies x[k] == y[k] by {
            assert(first[head.len() + k] == y[k]);
            assert(second[head.len() + k] == x[k]);
        }
        assert(x =~= y);
    }
}

proof fn lemma_exchanged(head: Seq<char>, x: Seq<char>, y: Seq<char>, mid: Seq<char>, tail: Seq<char>)
    requires
        x.len() < y.len(),
        !y.contains('が'),
        mid.len() == 3,
        mid[0] == ' ',
        mid[1] == 'が',
    ensures
        head + (y + (mid + (x + tail))) != head + (x + (mid + (y + tail))),
{
    let first = head + (y + (mid + (x + tail)));
    let second = head + (x + (mid + (y + tail)));
    let k = head.len() + x.len() + 1;
    assert(second[k as int] == 'が');
    if x.len() + 1 < y.len() {
        assert(first[k as int] == y[x.len() as int + 1]);
        assert(y.contains(y[x.len() as int + 1]));
    } else {
        assert(first[k as int] == mid[0]);
    }
}

/// The line of a separation names the faction that loses the region right before "から" and the one it
/// returns to right before "へ復帰".
pub proof fn separations_name_where_a_region_returns_to(world: World, region: RegionId, from: FactionId, to: FactionId)
    ensures
        reads(
            event_text(world, Event::Separatism { region, from, to }),
            "地方独立運動: "@ + world.regions@[region.0 as int].name@ + " が "@ + world.factions@[from.0 as int].name@ + " から "@,
            world.factions@[to.0 as int].name@ + " へ復帰"@,
        ),
{
    let opening = "地方独立運動: "@ + world.regions@[region.0 as int].name@ + " が "@ + world.factions@[from.0 as int].name@ + " から "@;
    let closing = world.factions@[to.0 as int].name@ + " へ復帰"@;
    lemma_reads(opening, closing);
    assert(event_text(world, Event::Separatism { region, from, to }) =~= opening + closing);
}

/// The line of a proposed treaty names the faction that proposes before "が", the one it is proposed to
/// before "に", and the treaty.
pub proof fn proposals_name_the_proposer_first(world: World, from: FactionId, to: FactionId, treaty: Treaty)
    ensures
        reads(
            event_text(world, Event::TreatyProposed { from, to, treaty }),
            "外交提案: "@ + world.factions@[from.0 as int].name@ + " が "@,
            world.factions@[to.0 as int].name@ + " に "@ + treaty_text(treaty) + " を提案"@,
        ),
{
    let opening = "外交提案: "@ + world.factions@[from.0 as int].name@ + " が "@;
    let closing = world.factions@[to.0 as int].name@ + " に "@ + treaty_text(treaty) + " を提案"@;
    lemma_reads(opening, closing);
    assert(event_text(world, Event::TreatyProposed { from, to, treaty }) =~= opening + closing);
}

/// The line of a signed treaty names both sides and the treaty.
pub proof fn signatures_name_both_sides(world: World, a: FactionId, b: FactionId, treaty: Treaty)
    ensures
        reads(
            event_text(world, Event::TreatySigned { a, b, treaty }),
            "条約締結: "@ + world.factions@[a.0 as int].name@ + " と "@,
            world.factions@[b.0 as int].name@ + " が "@ + treaty_text(treaty) + " を締結"@,
        ),
{
    let opening = "条約締結: "@ + world.factions@[a.0 as int].name@ + " と "@;
    let closing = world.factions@[b.0 as int].name@ + " が "@ + treaty_text(treaty) + " を締結"@;
    lemma_reads(opening, closing);
    assert(event_text(world, Event::TreatySigned { a, b, treaty }) =~= opening + closing);
}

/// The line of a refused treaty names the faction that was asked as the one that refuses, before "が", and
/// the one that had proposed as the one whose proposal is refused.
pub proof fn refusals_name_the_refuser_first(world: World, proposer: FactionId, asked: FactionId, treaty: Treaty)
    ensures
        reads(
            event_text(world, Event::TreatyRejected { from: proposer, to: asked, treaty }),
            "外交拒否: "@ + world.factions@[asked.0 as int].name@ + " が "@,
            world.factions@[proposer.0 as int].name@ + " の "@ + treaty_text(treaty) + " 提案を拒否"@,
        ),
{
    let opening = "外交拒否: "@ + world.factions@[asked.0 as int].name@ + " が "@;
    let closing = world.factions@[proposer.0 as int].name@ + " の "@ + treaty_text(treaty) + " 提案を拒否"@;
    lemma_reads(opening, closing);
    assert(event_text(world, Event::TreatyRejected { from: proposer, to: asked, treaty }) =~= opening + closing);
}

/// The line of a broken treaty names the faction that breaks it before "が" and the other before "との".
pub proof fn breaches_name_the_breaker_first(world: World, breaker: FactionId, other: FactionId, treaty: Treaty)
    ensures
        reads(
            event_text(world, Event::TreatyBroken { a: breaker, b: other, treaty }),
            "条約破棄: "@ + world.factions@[breaker.0 as int].name@ + " が "@,
            world.factions@[other.0 as int].name@ + " との "@ + treaty_text(treaty) + " を破棄"@,
        ),
{
    let opening = "条約破棄: "@ + world.factions@[breaker.0 as int].name@ + " が "@;
    let closing = world.factions@[other.0 as int].name@ + " との "@ + treaty_text(treaty) + " を破棄"@;
    lemma_reads(opening, closing);
    assert(event_text(world, Event::TreatyBroken { a: breaker, b: other, treaty }) =~= opening + closing);
}

/// The line of a declared war names the faction that declares it before "が" and the one it is declared on
/// before "に宣戦".
pub proof fn declarations_name_the_attacker_first(world: World, attacker: FactionId, attacked: FactionId)
    ensures
        reads(
            event_text(world, Event::WarDeclared { a: attacker, b: attacked }),
            "宣戦布告: "@ + world.factions@[attacker.0 as int].name@ + " が "@,
            world.factions@[attacked.0 as int].name@ + " に宣戦"@,
        ),
{
    let opening = "宣戦布告: "@ + world.factions@[attacker.0 as int].name@ + " が "@;
    let closing = world.factions@[attacked.0 as int].name@ + " に宣戦"@;
    lemma_reads(opening, closing);
    assert(event_text(world, Event::WarDeclared { a: attacker, b: attacked }) =~= opening + closing);
}

/// The line of an ally drawn into a war names the ally before the one it comes to be at war with.
pub proof fn allies_are_named_before_their_enemy(world: World, ally: FactionId, enemy: FactionId)
    ensures
        reads(
            event_text(world, Event::AllianceDragIn { faction: ally, into_war_with: enemy }),
            "同盟参戦: "@ + world.factions@[ally.0 as int].name@ + " が同盟により "@,
            world.factions@[enemy.0 as int].name@ + " との戦争に参戦"@,
        ),
{
    let opening = "同盟参戦: "@ + world.factions@[ally.0 as int].name@ + " が同盟により "@;
    let closing = world.factions@[enemy.0 as int].name@ + " との戦争に参戦"@;
    lemma_reads(opening, closing);
    assert(event_text(world, Event::AllianceDragIn { faction: ally, into_war_with: enemy }) =~= opening + closing);
}

/// The line of a proposal in natural language names its sender, then its receiver, and quotes it.
pub proof fn letters_name_their_sender_first(world: World, from: FactionId, to: FactionId, text: String)
    ensures
        reads(
            event_text(world, Event::NaturalLanguageProposed { from, to, text }),
            "自然言語外交: "@ + world.factions@[from.0 as int].name@ + " が "@,
            world.factions@[to.0 as int].name@ + " に提案 「"@ + text@ + "」"@,
        ),
{
    let opening = "自然言語外交: "@ + world.factions@[from.0 as int].name@ + " が "@;
    let closing = world.factions@[to.0 as int].name@ + " に提案 「"@ + text@ + "」"@;
    lemma_reads(opening, closing);
    assert(event_text(world, Event::NaturalLanguageProposed { from, to, text }) =~= opening + closing);
}

/// The line of a proposal in natural language that is accepted names its receiver before "が", its sender
/// after that, and the terms.
pub proof fn letters_accepted_name_the_receiver_first(world: World, sender: FactionId, receiver: FactionId, terms: Vec<TreatyTerm>)
    ensures
        reads(
            event_text(world, Event::NaturalLanguageAccepted { from: sender, to: receiver, terms }),
            "自然言語外交・成立: "@ + world.factions@[receiver.0 as int].name@ + " が "@,
            world.factions@[sender.0 as int].name@ + " の提案を受諾 ["@ + terms_text(world, terms@) + "]"@,
        ),
{
    let opening = "自然言語外交・成立: "@ + world.factions@[receiver.0 as int].name@ + " が "@;
    let closing = world.factions@[sender.0 as int].name@ + " の提案を受諾 ["@ + terms_text(world, terms@) + "]"@;
    lemma_reads(opening, closing);
    assert(event_text(world, Event::NaturalLanguageAccepted { from: sender, to: receiver, terms }) =~= opening + closing);
}

/// The line of a proposal in natural language that is refused names its receiver before "が", its sender
/// after that, and the terms.
pub proof fn letters_refused_name_the_receiver_first(world: World, sender: FactionId, receiver: FactionId, terms: Vec<TreatyTerm>)
    ensures
        reads(
            event_text(world, Event::NaturalLanguageRejected { from: sender, to: receiver, terms }),
            "自然言語外交・拒否: "@ + world.factions@[receiver.0 as int].name@ + " が "@,
            world.factions@[sender.0 as int].name@ + " の提案を拒否 ["@ + terms_text(world, terms@) + "]"@,
        ),
{
    let opening = "自然言語外交・拒否: "@ + world.factions@[receiver.0 as int].name@ + " が "@;
    let closing = world.factions@[sender.0 as int].name@ + " の提案を拒否 ["@ + terms_text(world, terms@) + "]"@;
    lemma_reads(opening, closing);
    assert(event_text(world, Event::NaturalLanguageRejected { from: sender, to: receiver, terms }) =~= opening + closing);
}

/// The line of a proposal in natural language that is accepted in vain names its receiver before "が", its sender
/// after that, and the terms.
pub proof fn letters_that_fail_name_the_receiver_first(world: World, sender: FactionId, receiver: FactionId, terms: Vec<TreatyTerm>)
    ensures
        reads(
            event_text(world, Event::NaturalLanguageTermsInvalid { from: sender, to: receiver, terms }),
            "自然言語外交・不成立: "@ + world.factions@[receiver.0 as int].name@ + " が "@,
            world.factions@[sender.0 as int].name@ + " の提案を受諾しようとしたが条件が満たせず不成立 ["@ + terms_text(world, terms@) + "]"@,
        ),
{
    let opening = "自然言語外交・不成立: "@ + world.factions@[receiver.0 as int].name@ + " が "@;
    let closing = world.factions@[sender.0 as int].name@ + " の提案を受諾しようとしたが条件が満たせず不成立 ["@ + terms_text(world, terms@) + "]"@;
    lemma_reads(opening, closing);
    assert(event_text(world, Event::NaturalLanguageTermsInvalid { from: sender, to: receiver, terms }) =~= opening + closing);
}

/// The line of an air strike names the attacker before "軍が", the defender before "の", and what was hit.
pub proof fn air_strikes_name_the_attacker_first(world: World, attacker: FactionId, defender: FactionId, node: TransportNodeId, node_kind: NodeKind, outcome: StrikeOutcome)
    ensures
        reads(
            event_text(world, Event::NodeStruck { attacker, defender, node, node_kind, outcome }),
            "空爆: "@ + world.factions@[attacker.0 as int].name@ + " 軍が "@,
            world.factions@[defender.0 as int].name@ + " の"@ + node_kind_text(node_kind) + "「"@ + world.nodes@[node.0 as int].name@ + "」を空爆"@ + strike_outcome_text(outcome),
        ),
{
    let opening = "空爆: "@ + world.factions@[attacker.0 as int].name@ + " 軍が "@;
    let closing = world.factions@[defender.0 as int].name@ + " の"@ + node_kind_text(node_kind) + "「"@ + world.nodes@[node.0 as int].name@ + "」を空爆"@ + strike_outcome_text(outcome);
    lemma_reads(opening, closing);
    assert(event_text(world, Event::NodeStruck { attacker, defender, node, node_kind, outcome }) =~= opening + closing);
}

/// The line of an interdiction names the attacker before "軍が", the defender before "の輸送路線", the two
/// ends of the line, and whether its capacity was cut.
pub proof fn interdictions_name_the_attacker_first(world: World, attacker: FactionId, defender: FactionId, line: TransportLineId, capacity_cut: bool)
    ensures
        reads(
            event_text(world, Event::LineInterdicted { attacker, defender, line, capacity_cut }),
            "阻止: "@ + world.factions@[attacker.0 as int].name@ + " 軍が "@,
            world.factions@[defender.0 as int].name@ + " の輸送路線「"@ + world.nodes@[world.lines@[line.0 as int].from.0 as int].name@ + "⇔"@
                + world.nodes@[world.lines@[line.0 as int].to.0 as int].name@ + "」を攻撃"@ + (if capacity_cut {
                " (輸送力低下)"@
            } else {
                " (既に途絶)"@
            }),
        ),
{
    let opening = "阻止: "@ + world.factions@[attacker.0 as int].name@ + " 軍が "@;
    let closing = world.factions@[defender.0 as int].name@ + " の輸送路線「"@ + world.nodes@[world.lines@[line.0 as int].from.0 as int].name@ + "⇔"@
                + world.nodes@[world.lines@[line.0 as int].to.0 as int].name@ + "」を攻撃"@ + (if capacity_cut {
                " (輸送力低下)"@
            } else {
                " (既に途絶)"@
            });
    lemma_reads(opening, closing);
    assert(event_text(world, Event::LineInterdicted { attacker, defender, line, capacity_cut }) =~= opening + closing);
}

/// The line of a battle names the region, then those that fight, then the losses.
pub proof fn battles_name_the_place_first(world: World, region: RegionId, factions: Vec<FactionId>, casualties: Quantity)
    ensures
        reads(
            event_text(world, Event::Battle { region, factions, casualties }),
            "戦闘: "@ + world.regions@[region.0 as int].name@ + " で "@,
            versus_text(world, factions@) + " が交戦 (損耗 "@ + casualties.fixed(2) + "万人)"@,
        ),
{
    let opening = "戦闘: "@ + world.regions@[region.0 as int].name@ + " で "@;
    let closing = versus_text(world, factions@) + " が交戦 (損耗 "@ + casualties.fixed(2) + "万人)"@;
    lemma_reads(opening, closing);
    assert(event_text(world, Event::Battle { region, factions, casualties }) =~= opening + closing);
}

/// The line of a battle at sea names the sea zone, then those that fight, then the losses.
pub proof fn sea_battles_name_the_place_first(world: World, zone: SeaZoneId, factions: Vec<FactionId>, casualties: Quantity)
    ensures
        reads(
            event_text(world, Event::NavalBattle { zone, factions, casualties }),
            "海戦: "@ + world.sea_zones@[zone.0 as int].name@ + " で "@,
            versus_text(world, factions@) + " が交戦 (損耗 "@ + casualties.fixed(2) + "万人)"@,
        ),
{
    let opening = "海戦: "@ + world.sea_zones@[zone.0 as int].name@ + " で "@;
    let closing = versus_text(world, factions@) + " が交戦 (損耗 "@ + casualties.fixed(2) + "万人)"@;
    lemma_reads(opening, closing);
    assert(event_text(world, Event::NavalBattle { zone, factions, casualties }) =~= opening + closing);
}

/// The line of a unit lost in a region names its owner and its number, then the place.
pub proof fn units_are_lost_in_a_region(world: World, unit: UnitId, owner: FactionId, region: RegionId)
    ensures
        reads(
            event_text(world, Event::UnitDestroyed { unit, station: Station::Region(region), owner }),
            "部隊壊滅: "@ + world.factions@[owner.0 as int].name@ + " 軍 部隊#"@ + decimal(unit.0 as nat) + " が "@,
            world.regions@[region.0 as int].name@ + " で失われた"@,
        ),
{
    let opening = "部隊壊滅: "@ + world.factions@[owner.0 as int].name@ + " 軍 部隊#"@ + decimal(unit.0 as nat) + " が "@;
    let closing = world.regions@[region.0 as int].name@ + " で失われた"@;
    lemma_reads(opening, closing);
    assert(event_text(world, Event::UnitDestroyed { unit, station: Station::Region(region), owner }) =~= opening + closing);
}

/// The line of a unit lost at an airfield names its owner and its number, then the place.
pub proof fn units_are_lost_at_an_airfield(world: World, unit: UnitId, owner: FactionId, node: TransportNodeId)
    ensures
        reads(
            event_text(world, Event::UnitDestroyed { unit, station: Station::Airfield(node), owner }),
            "部隊壊滅: "@ + world.factions@[owner.0 as int].name@ + " 軍 部隊#"@ + decimal(unit.0 as nat) + " が "@,
            world.nodes@[node.0 as int].name@ + " で失われた"@,
        ),
{
    let opening = "部隊壊滅: "@ + world.factions@[owner.0 as int].name@ + " 軍 部隊#"@ + decimal(unit.0 as nat) + " が "@;
    let closing = world.nodes@[node.0 as int].name@ + " で失われた"@;
    lemma_reads(opening, closing);
    assert(event_text(world, Event::UnitDestroyed { unit, station: Station::Airfield(node), owner }) =~= opening + closing);
}

/// The line of a unit lost at sea names its owner and its number, then the place.
pub proof fn fleets_are_sunk_at_sea(world: World, unit: UnitId, owner: FactionId, zone: SeaZoneId)
    ensures
        reads(
            event_text(world, Event::UnitDestroyed { unit, station: Station::Sea(zone), owner }),
            "艦隊撃沈: "@ + world.factions@[owner.0 as int].name@ + " 軍 部隊#"@ + decimal(unit.0 as nat) + " が "@,
            world.sea_zones@[zone.0 as int].name@ + " で撃沈された"@,
        ),
{
    let opening = "艦隊撃沈: "@ + world.factions@[owner.0 as int].name@ + " 軍 部隊#"@ + decimal(unit.0 as nat) + " が "@;
    let closing = world.sea_zones@[zone.0 as int].name@ + " で撃沈された"@;
    lemma_reads(opening, closing);
    assert(event_text(world, Event::UnitDestroyed { unit, station: Station::Sea(zone), owner }) =~= opening + closing);
}

/// The lines of what befalls one faction name it, and tell what it is: elimination, a strike, a protest, a
/// mutiny, capital in flight, another government.
pub proof fn troubles_name_the_faction(world: World, faction: FactionId)
    ensures
        reads(event_text(world, Event::FactionEliminated { faction }), "敗北: "@, world.factions@[faction.0 as int].name@ + " が全領土を失い脱落"@),
        reads(event_text(world, Event::Strike { faction }), "ストライキ: "@, world.factions@[faction.0 as int].name@ + " で労働者がストライキ開始 (工業生産低下)"@),
        reads(event_text(world, Event::Protest { faction }), "デモ: "@, world.factions@[faction.0 as int].name@ + " で市民デモが拡大 (治安悪化)"@),
        reads(event_text(world, Event::Mutiny { faction }), "軍部不服従: "@, world.factions@[faction.0 as int].name@ + " で軍の統制が乱れる (組織率回復低下)"@),
        reads(event_text(world, Event::CapitalFlight { faction }), "資本逃避: "@, world.factions@[faction.0 as int].name@ + " で資本が流出 (建設・機械生産低下)"@),
        reads(event_text(world, Event::RegimeChange { faction }), "政権交代: "@, world.factions@[faction.0 as int].name@ + " で政権が崩壊、政策が既定値に戻る"@),
{
    let name = world.factions@[faction.0 as int].name@;
    lemma_reads("敗北: "@, name + " が全領土を失い脱落"@);
    assert(event_text(world, Event::FactionEliminated { faction }) =~= "敗北: "@ + (name + " が全領土を失い脱落"@));
    lemma_reads("ストライキ: "@, name + " で労働者がストライキ開始 (工業生産低下)"@);
    assert(event_text(world, Event::Strike { faction }) =~= "ストライキ: "@ + (name + " で労働者がストライキ開始 (工業生産低下)"@));
    lemma_reads("デモ: "@, name + " で市民デモが拡大 (治安悪化)"@);
    assert(event_text(world, Event::Protest { faction }) =~= "デモ: "@ + (name + " で市民デモが拡大 (治安悪化)"@));
    lemma_reads("軍部不服従: "@, name + " で軍の統制が乱れる (組織率回復低下)"@);
    assert(event_text(world, Event::Mutiny { faction }) =~= "軍部不服従: "@ + (name + " で軍の統制が乱れる (組織率回復低下)"@));
    lemma_reads("資本逃避: "@, name + " で資本が流出 (建設・機械生産低下)"@);
    assert(event_text(world, Event::CapitalFlight { faction }) =~= "資本逃避: "@ + (name + " で資本が流出 (建設・機械生産低下)"@));
    lemma_reads("政権交代: "@, name + " で政権が崩壊、政策が既定値に戻る"@);
    assert(event_text(world, Event::RegimeChange { faction }) =~= "政権交代: "@ + (name + " で政権が崩壊、政策が既定値に戻る"@));
}

/// What the event log calls each treaty.
pub proof fn treaties_go_by_their_names()
    ensures
        treaty_text(Treaty::Ceasefire) == "停戦"@,
        treaty_text(Treaty::NonAggression) == "不可侵条約"@,
        treaty_text(Treaty::Alliance) == "同盟"@,
        treaty_text(Treaty::MilitaryAccess) == "通行権"@,
        treaty_text(Treaty::PortAccess) == "港湾利用権"@,
        treaty_text(Treaty::TradeAgreement) == "通商協定"@,
{
}

/// What the event log calls each good.
pub proof fn goods_go_by_their_names()
    ensures
        good_text(Good::Food) == "食料"@,
        good_text(Good::Energy) == "燃料"@,
        good_text(Good::Steel) == "鋼材"@,
        good_text(Good::Machinery) == "機械"@,
        good_text(Good::Munitions) == "弾薬"@,
        good_text(Good::Arms) == "兵器"@,
{
}

/// What the event log calls each kind of node, and how it tells the end of a strike.
pub proof fn targets_go_by_their_names()
    ensures
        node_kind_text(NodeKind::Airfield) == "飛行場"@,
        node_kind_text(NodeKind::Port) == "港"@,
        node_kind_text(NodeKind::Depot) == "拠点"@,
        node_kind_text(NodeKind::Junction) == "拠点"@,
        strike_outcome_text(StrikeOutcome::KnockedOut) == " (機能停止)"@,
        strike_outcome_text(StrikeOutcome::StillOperational) == " (稼働継続)"@,
        strike_outcome_text(StrikeOutcome::AlreadyDown) == " (既に停止)"@,
{
}

/// A term tells what is signed, which region is left or ceded, or how much of which good is handed over.
pub proof fn terms_tell_what_is_agreed(world: World, treaty: Treaty, region: RegionId, good: Good, amount: Quantity)
    ensures
        reads(term_text(world, TreatyTerm::Sign(treaty)), treaty_text(treaty), "を締結"@),
        reads(term_text(world, TreatyTerm::Withdraw { from: region }), world.regions@[region.0 as int].name@, " から撤退"@),
        reads(term_text(world, TreatyTerm::Cede { region }), world.regions@[region.0 as int].name@, " を割譲"@),
        reads(
            term_text(world, TreatyTerm::Deliver { good, amount }),
            good_text(good) + " を"@,
            amount.fixed(0) + "引き渡し"@,
        ),
{
    let name = world.regions@[region.0 as int].name@;
    lemma_reads(treaty_text(treaty), "を締結"@);
    lemma_reads(name, " から撤退"@);
    lemma_reads(name, " を割譲"@);
    lemma_reads(good_text(good) + " を"@, amount.fixed(0) + "引き渡し"@);
    assert(term_text(world, TreatyTerm::Deliver { good, amount }) =~= (good_text(good) + " を"@) + (amount.fixed(0)
        + "引き渡し"@));
}

/// Those that fight stand side by side in the order given, with "vs" between each and the next.
pub proof fn fighters_stand_side_by_side(world: World, factions: Seq<FactionId>, next: FactionId)
    ensures
        versus_text(world, seq![next]) == world.factions@[next.0 as int].name@,
        factions.len() > 0 ==> versus_text(world, factions.push(next)) == versus_text(world, factions) + " vs "@
            + world.factions@[next.0 as int].name@,
{
    let names = |list: Seq<FactionId>| Seq::new(list.len(), |i: int| world.faction_at(list[i]).name@);
    reveal_with_fuel(joined, 2);
    assert(names(factions.push(next)).drop_last() =~= names(factions));
}

/// Terms stand in the order given, with a stroke between each and the next; where there are none, the line
/// says so.
pub proof fn terms_stand_side_by_side(world: World, terms: Seq<TreatyTerm>, next: TreatyTerm)
    ensures
        terms_text(world, Seq::empty()) == "(条件なし)"@,
        terms_text(world, seq![next]) == term_text(world, next),
        terms.len() > 0 ==> terms_text(world, terms.push(next)) == terms_text(world, terms) + " / "@ + term_text(world, next),
{
    let parts = |list: Seq<TreatyTerm>| Seq::new(list.len(), |i: int| term_text(world, list[i]));
    reveal_with_fuel(joined, 2);
    assert(parts(terms.push(next)).drop_last() =~= parts(terms));
}

} // verus!
