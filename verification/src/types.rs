//! The vocabulary of orders: identifiers, goods, treaties, stations and the actions built from them.
use crate::quantity::Quantity;
use crate::text::same_text;
use vstd::prelude::*;

verus! {

/// A faction, by its position in the world's faction list.
#[derive(Clone, Copy, Debug, PartialEq, Eq, Structural)]
pub struct FactionId(pub u32);

/// A land region, by its position in the world's region list.
#[derive(Clone, Copy, Debug, PartialEq, Eq, Structural)]
pub struct RegionId(pub u32);

/// A sea zone, by its position in the world's sea zone list.
#[derive(Clone, Copy, Debug, PartialEq, Eq, Structural)]
pub struct SeaZoneId(pub u32);

/// A military unit, by its position in the world's unit list.
#[derive(Clone, Copy, Debug, PartialEq, Eq, Structural)]
pub struct UnitId(pub u32);

/// A transport line, by its position in the world's line list.
#[derive(Clone, Copy, Debug, PartialEq, Eq, Structural)]
pub struct TransportLineId(pub u32);

/// A transport node, by its position in the world's node list.
#[derive(Clone, Copy, Debug, PartialEq, Eq, Structural)]
pub struct TransportNodeId(pub u32);

/// A tradable good.
#[derive(Clone, Copy, Debug, PartialEq, Eq, Structural)]
pub enum Good {
    Food,
    Energy,
    Steel,
    Machinery,
    Munitions,
    Arms,
}

impl Good {
    /// The name under which recordings store this value.
    pub open spec fn key_text(self) -> Seq<char> {
        match self {
            Good::Food => "food"@,
            Good::Energy => "energy"@,
            Good::Steel => "steel"@,
            Good::Machinery => "machinery"@,
            Good::Munitions => "munitions"@,
            Good::Arms => "arms"@,
        }
    }

    /// The value that a name stands for, if any.
    pub open spec fn of_key(key: Seq<char>) -> Option<Good> {
        if key == "food"@ {
            Some(Good::Food)
        } else if key == "energy"@ {
            Some(Good::Energy)
        } else if key == "steel"@ {
            Some(Good::Steel)
        } else if key == "machinery"@ {
            Some(Good::Machinery)
        } else if key == "munitions"@ {
            Some(Good::Munitions)
        } else if key == "arms"@ {
            Some(Good::Arms)
        } else {
            None
        }
    }

    /// The name under which recordings store this value.
    pub fn key(self) -> (key: &'static str)
        ensures
            key@ == self.key_text(),
    {
        match self {
            Good::Food => "food",
            Good::Energy => "energy",
            Good::Steel => "steel",
            Good::Machinery => "machinery",
            Good::Munitions => "munitions",
            Good::Arms => "arms",
        }
    }

    /// Looks a name up.
    pub fn from_key(key: &str) -> (value: Option<Good>)
        ensures
            value == Good::of_key(key@),
    {
        if same_text(key, "food") {
            Some(Good::Food)
        } else if same_text(key, "energy") {
            Some(Good::Energy)
        } else if same_text(key, "steel") {
            Some(Good::Steel)
        } else if same_text(key, "machinery") {
            Some(Good::Machinery)
        } else if same_text(key, "munitions") {
            Some(Good::Munitions)
        } else if same_text(key, "arms") {
            Some(Good::Arms)
        } else {
            None
        }
    }

    /// Every value is found again under its own name.
    pub proof fn key_names_one_value(self)
        ensures
            Good::of_key(self.key_text()) == Some(self),
    {
        reveal_strlit("food");
        assert("food"@.len() == 4);
        reveal_strlit("energy");
        assert("energy"@.len() == 6);
        reveal_strlit("steel");
        assert("steel"@.len() == 5);
        reveal_strlit("machinery");
        assert("machinery"@.len() == 9);
        reveal_strlit("munitions");
        assert("munitions"@.len() == 9);
        reveal_strlit("arms");
        assert("arms"@.len() == 4);
        assert("machinery"@[1] != "munitions"@[1]);
        assert("food"@[0] != "arms"@[0]);
    }

    /// The position among all values.
    pub open spec fn position(self) -> int {
        match self {
            Good::Food => 0,
            Good::Energy => 1,
            Good::Steel => 2,
            Good::Machinery => 3,
            Good::Munitions => 4,
            Good::Arms => 5,
        }
    }

    /// The value at a position, counted round and round.
    pub open spec fn at(i: int) -> Good {
        if i % 6 == 0 {
            Good::Food
        } else if i % 6 == 1 {
            Good::Energy
        } else if i % 6 == 2 {
            Good::Steel
        } else if i % 6 == 3 {
            Good::Machinery
        } else if i % 6 == 4 {
            Good::Munitions
        } else {
            Good::Arms
        }
    }

    /// The position among all values.
    pub fn index(self) -> (i: usize)
        ensures
            i == self.position(),
            i < 6,
    {
        match self {
            Good::Food => 0,
            Good::Energy => 1,
            Good::Steel => 2,
            Good::Machinery => 3,
            Good::Munitions => 4,
            Good::Arms => 5,
        }
    }

    /// The value at a position, counted round and round.
    pub fn nth(i: usize) -> (value: Good)
        ensures
            value == Good::at(i as int),
    {
        match i % 6 {
            0 => Good::Food,
            1 => Good::Energy,
            2 => Good::Steel,
            3 => Good::Machinery,
            4 => Good::Munitions,
            _ => Good::Arms,
        }
    }

    /// The next value, after the last the first again.
    pub open spec fn following(self) -> Good {
        Good::at(self.position() + 1)
    }

    /// The next value, after the last the first again.
    pub fn next(self) -> (value: Good)
        ensures
            value == self.following(),
    {
        Good::nth(self.index() + 1)
    }
}

/// A treaty two factions can hold.
#[derive(Clone, Copy, Debug, PartialEq, Eq, Structural)]
pub enum Treaty {
    Ceasefire,
    NonAggression,
    Alliance,
    MilitaryAccess,
    PortAccess,
    TradeAgreement,
}

impl Treaty {
    /// The name under which recordings store this value.
    pub open spec fn key_text(self) -> Seq<char> {
        match self {
            Treaty::Ceasefire => "ceasefire"@,
            Treaty::NonAggression => "non_aggression"@,
            Treaty::Alliance => "alliance"@,
            Treaty::MilitaryAccess => "military_access"@,
            Treaty::PortAccess => "port_access"@,
            Treaty::TradeAgreement => "trade_agreement"@,
        }
    }

    /// The value that a name stands for, if any.
    pub open spec fn of_key(key: Seq<char>) -> Option<Treaty> {
        if key == "ceasefire"@ {
            Some(Treaty::Ceasefire)
        } else if key == "non_aggression"@ {
            Some(Treaty::NonAggression)
        } else if key == "alliance"@ {
            Some(Treaty::Alliance)
        } else if key == "military_access"@ {
            Some(Treaty::MilitaryAccess)
        } else if key == "port_access"@ {
            Some(Treaty::PortAccess)
        } else if key == "trade_agreement"@ {
            Some(Treaty::TradeAgreement)
        } else {
            None
        }
    }

    /// The name under which recordings store this value.
    pub fn key(self) -> (key: &'static str)
        ensures
            key@ == self.key_text(),
    {
        match self {
            Treaty::Ceasefire => "ceasefire",
            Treaty::NonAggression => "non_aggression",
            Treaty::Alliance => "alliance",
            Treaty::MilitaryAccess => "military_access",
            Treaty::PortAccess => "port_access",
            Treaty::TradeAgreement => "trade_agreement",
        }
    }

    /// Looks a name up.
    pub fn from_key(key: &str) -> (value: Option<Treaty>)
        ensures
            value == Treaty::of_key(key@),
    {
        if same_text(key, "ceasefire") {
            Some(Treaty::Ceasefire)
        } else if same_text(key, "non_aggression") {
            Some(Treaty::NonAggression)
        } else if same_text(key, "alliance") {
            Some(Treaty::Alliance)
        } else if same_text(key, "military_access") {
            Some(Treaty::MilitaryAccess)
        } else if same_text(key, "port_access") {
            Some(Treaty::PortAccess)
        } else if same_text(key, "trade_agreement") {
            Some(Treaty::TradeAgreement)
        } else {
            None
        }
    }

    /// Every value is found again under its own name.
    pub proof fn key_names_one_value(self)
        ensures
            Treaty::of_key(self.key_text()) == Some(self),
    {
        reveal_strlit("ceasefire");
        assert("ceasefire"@.len() == 9);
        reveal_strlit("non_aggression");
        assert("non_aggression"@.len() == 14);
        reveal_strlit("alliance");
        assert("alliance"@.len() == 8);
        reveal_strlit("military_access");
        assert("military_access"@.len() == 15);
        reveal_strlit("port_access");
        assert("port_access"@.len() == 11);
        reveal_strlit("trade_agreement");
        assert("trade_agreement"@.len() == 15);
        assert("military_access"@[0] != "trade_agreement"@[0]);
    }

    /// The position among all values.
    pub open spec fn position(self) -> int {
        match self {
            Treaty::Ceasefire => 0,
            Treaty::NonAggression => 1,
            Treaty::Alliance => 2,
            Treaty::MilitaryAccess => 3,
            Treaty::PortAccess => 4,
            Treaty::TradeAgreement => 5,
        }
    }

    /// The value at a position, counted round and round.
    pub open spec fn at(i: int) -> Treaty {
        if i % 6 == 0 {
            Treaty::Ceasefire
        } else if i % 6 == 1 {
            Treaty::NonAggression
        } else if i % 6 == 2 {
            Treaty::Alliance
        } else if i % 6 == 3 {
            Treaty::MilitaryAccess
        } else if i % 6 == 4 {
            Treaty::PortAccess
        } else {
            Treaty::TradeAgreement
        }
    }

    /// The position among all values.
    pub fn index(self) -> (i: usize)
        ensures
            i == self.position(),
            i < 6,
    {
        match self {
            Treaty::Ceasefire => 0,
            Treaty::NonAggression => 1,
            Treaty::Alliance => 2,
            Treaty::MilitaryAccess => 3,
            Treaty::PortAccess => 4,
            Treaty::TradeAgreement => 5,
        }
    }

    /// The value at a position, counted round and round.
    pub fn nth(i: usize) -> (value: Treaty)
        ensures
            value == Treaty::at(i as int),
    {
        match i % 6 {
            0 => Treaty::Ceasefire,
            1 => Treaty::NonAggression,
            2 => Treaty::Alliance,
            3 => Treaty::MilitaryAccess,
            4 => Treaty::PortAccess,
            _ => Treaty::TradeAgreement,
        }
    }

    /// The next value, after the last the first again.
    pub open spec fn following(self) -> Treaty {
        Treaty::at(self.position() + 1)
    }

    /// The next value, after the last the first again.
    pub fn next(self) -> (value: Treaty)
        ensures
            value == self.following(),
    {
        Treaty::nth(self.index() + 1)
    }
}

/// A faction's long-term national focus.
#[derive(Clone, Copy, Debug, PartialEq, Eq, Structural)]
pub enum NationalFocus {
    MilitaryUnification,
    EconomicSphere,
    AllianceNetwork,
    MaritimeTrade,
    Technocracy,
    DefensivePosture,
}

impl NationalFocus {
    /// The name under which recordings store this value.
    pub open spec fn key_text(self) -> Seq<char> {
        match self {
            NationalFocus::MilitaryUnification => "military_unification"@,
            NationalFocus::EconomicSphere => "economic_sphere"@,
            NationalFocus::AllianceNetwork => "alliance_network"@,
            NationalFocus::MaritimeTrade => "maritime_trade"@,
            NationalFocus::Technocracy => "technocracy"@,
            NationalFocus::DefensivePosture => "defensive_posture"@,
        }
    }

    /// The value that a name stands for, if any.
    pub open spec fn of_key(key: Seq<char>) -> Option<NationalFocus> {
        if key == "military_unification"@ {
            Some(NationalFocus::MilitaryUnification)
        } else if key == "economic_sphere"@ {
            Some(NationalFocus::EconomicSphere)
        } else if key == "alliance_network"@ {
            Some(NationalFocus::AllianceNetwork)
        } else if key == "maritime_trade"@ {
            Some(NationalFocus::MaritimeTrade)
        } else if key == "technocracy"@ {
            Some(NationalFocus::Technocracy)
        } else if key == "defensive_posture"@ {
            Some(NationalFocus::DefensivePosture)
        } else {
            None
        }
    }

    /// The name under which recordings store this value.
    pub fn key(self) -> (key: &'static str)
        ensures
            key@ == self.key_text(),
    {
        match self {
            NationalFocus::MilitaryUnification => "military_unification",
            NationalFocus::EconomicSphere => "economic_sphere",
            NationalFocus::AllianceNetwork => "alliance_network",
            NationalFocus::MaritimeTrade => "maritime_trade",
            NationalFocus::Technocracy => "technocracy",
            NationalFocus::DefensivePosture => "defensive_posture",
        }
    }

    /// Looks a name up.
    pub fn from_key(key: &str) -> (value: Option<NationalFocus>)
        ensures
            value == NationalFocus::of_key(key@),
    {
        if same_text(key, "military_unification") {
            Some(NationalFocus::MilitaryUnification)
        } else if same_text(key, "economic_sphere") {
            Some(NationalFocus::EconomicSphere)
        } else if same_text(key, "alliance_network") {
            Some(NationalFocus::AllianceNetwork)
        } else if same_text(key, "maritime_trade") {
            Some(NationalFocus::MaritimeTrade)
        } else if same_text(key, "technocracy") {
            Some(NationalFocus::Technocracy)
        } else if same_text(key, "defensive_posture") {
            Some(NationalFocus::DefensivePosture)
        } else {
            None
        }
    }

    /// Every value is found again under its own name.
    pub proof fn key_names_one_value(self)
        ensures
            NationalFocus::of_key(self.key_text()) == Some(self),
    {
        reveal_strlit("military_unification");
        assert("military_unification"@.len() == 20);
        reveal_strlit("economic_sphere");
        assert("economic_sphere"@.len() == 15);
        reveal_strlit("alliance_network");
        assert("alliance_network"@.len() == 16);
        reveal_strlit("maritime_trade");
        assert("maritime_trade"@.len() == 14);
        reveal_strlit("technocracy");
        assert("technocracy"@.len() == 11);
        reveal_strlit("defensive_posture");
        assert("defensive_posture"@.len() == 17);
    }

    /// The position among all values.
    pub open spec fn position(self) -> int {
        match self {
            NationalFocus::MilitaryUnification => 0,
            NationalFocus::EconomicSphere => 1,
            NationalFocus::AllianceNetwork => 2,
            NationalFocus::MaritimeTrade => 3,
            NationalFocus::Technocracy => 4,
            NationalFocus::DefensivePosture => 5,
        }
    }

    /// The value at a position, counted round and round.
    pub open spec fn at(i: int) -> NationalFocus {
        if i % 6 == 0 {
            NationalFocus::MilitaryUnification
        } else if i % 6 == 1 {
            NationalFocus::EconomicSphere
        } else if i % 6 == 2 {
            NationalFocus::AllianceNetwork
        } else if i % 6 == 3 {
            NationalFocus::MaritimeTrade
        } else if i % 6 == 4 {
            NationalFocus::Technocracy
        } else {
            NationalFocus::DefensivePosture
        }
    }

    /// The position among all values.
    pub fn index(self) -> (i: usize)
        ensures
            i == self.position(),
            i < 6,
    {
        match self {
            NationalFocus::MilitaryUnification => 0,
            NationalFocus::EconomicSphere => 1,
            NationalFocus::AllianceNetwork => 2,
            NationalFocus::MaritimeTrade => 3,
            NationalFocus::Technocracy => 4,
            NationalFocus::DefensivePosture => 5,
        }
    }

    /// The value at a position, counted round and round.
    pub fn nth(i: usize) -> (value: NationalFocus)
        ensures
            value == NationalFocus::at(i as int),
    {
        match i % 6 {
            0 => NationalFocus::MilitaryUnification,
            1 => NationalFocus::EconomicSphere,
            2 => NationalFocus::AllianceNetwork,
            3 => NationalFocus::MaritimeTrade,
            4 => NationalFocus::Technocracy,
            _ => NationalFocus::DefensivePosture,
        }
    }

    /// The next value, after the last the first again.
    pub open spec fn following(self) -> NationalFocus {
        NationalFocus::at(self.position() + 1)
    }

    /// The next value, after the last the first again.
    pub fn next(self) -> (value: NationalFocus)
        ensures
            value == self.following(),
    {
        NationalFocus::nth(self.index() + 1)
    }
}

/// A layer of a faction's decisions, which a recording may claim or leave to an agent.
#[derive(Clone, Copy, Debug, PartialEq, Eq, Structural)]
pub enum Layer {
    Military,
    Economy,
    Diplomacy,
}

impl Layer {
    /// The name under which recordings store this value.
    pub open spec fn key_text(self) -> Seq<char> {
        match self {
            Layer::Military => "military"@,
            Layer::Economy => "economy"@,
            Layer::Diplomacy => "diplomacy"@,
        }
    }

    /// The value that a name stands for, if any.
    pub open spec fn of_key(key: Seq<char>) -> Option<Layer> {
        if key == "military"@ {
            Some(Layer::Military)
        } else if key == "economy"@ {
            Some(Layer::Economy)
        } else if key == "diplomacy"@ {
            Some(Layer::Diplomacy)
        } else {
            None
        }
    }

    /// The name under which recordings store this value.
    pub fn key(self) -> (key: &'static str)
        ensures
            key@ == self.key_text(),
    {
        match self {
            Layer::Military => "military",
            Layer::Economy => "economy",
            Layer::Diplomacy => "diplomacy",
        }
    }

    /// Looks a name up.
    pub fn from_key(key: &str) -> (value: Option<Layer>)
        ensures
            value == Layer::of_key(key@),
    {
        if same_text(key, "military") {
            Some(Layer::Military)
        } else if same_text(key, "economy") {
            Some(Layer::Economy)
        } else if same_text(key, "diplomacy") {
            Some(Layer::Diplomacy)
        } else {
            None
        }
    }

    /// Every value is found again under its own name.
    pub proof fn key_names_one_value(self)
        ensures
            Layer::of_key(self.key_text()) == Some(self),
    {
        reveal_strlit("military");
        assert("military"@.len() == 8);
        reveal_strlit("economy");
        assert("economy"@.len() == 7);
        reveal_strlit("diplomacy");
        assert("diplomacy"@.len() == 9);
    }
}

/// Where a unit operates.
#[derive(Clone, Copy, Debug, PartialEq, Eq, Structural)]
pub enum Domain {
    Land,
    Sea,
    Air,
}

impl Domain {
    /// The name under which recordings store this value.
    pub open spec fn key_text(self) -> Seq<char> {
        match self {
            Domain::Land => "land"@,
            Domain::Sea => "sea"@,
            Domain::Air => "air"@,
        }
    }

    /// The value that a name stands for, if any.
    pub open spec fn of_key(key: Seq<char>) -> Option<Domain> {
        if key == "land"@ {
            Some(Domain::Land)
        } else if key == "sea"@ {
            Some(Domain::Sea)
        } else if key == "air"@ {
            Some(Domain::Air)
        } else {
            None
        }
    }

    /// The name under which recordings store this value.
    pub fn key(self) -> (key: &'static str)
        ensures
            key@ == self.key_text(),
    {
        match self {
            Domain::Land => "land",
            Domain::Sea => "sea",
            Domain::Air => "air",
        }
    }

    /// Looks a name up.
    pub fn from_key(key: &str) -> (value: Option<Domain>)
        ensures
            value == Domain::of_key(key@),
    {
        if same_text(key, "land") {
            Some(Domain::Land)
        } else if same_text(key, "sea") {
            Some(Domain::Sea)
        } else if same_text(key, "air") {
            Some(Domain::Air)
        } else {
            None
        }
    }

    /// Every value is found again under its own name.
    pub proof fn key_names_one_value(self)
        ensures
            Domain::of_key(self.key_text()) == Some(self),
    {
        reveal_strlit("land");
        assert("land"@.len() == 4);
        reveal_strlit("sea");
        assert("sea"@.len() == 3);
        reveal_strlit("air");
        assert("air"@.len() == 3);
        assert("sea"@[0] != "air"@[0]);
    }
}

/// Where a unit stands.
#[derive(Clone, Copy, Debug, PartialEq, Eq, Structural)]
pub enum Station {
    Region(RegionId),
    Sea(SeaZoneId),
    Airfield(TransportNodeId),
}

/// A construction project of a region.
#[derive(Clone, Copy, Debug, PartialEq, Eq, Structural)]
pub enum Project {
    Infrastructure,
    Port,
    Repair,
    Capacity(Good),
    TransportLine(TransportLineId),
}

/// One clause of a negotiated agreement.
#[derive(Clone, Copy, Debug, PartialEq, Eq, Structural)]
pub enum TreatyTerm {
    Sign(Treaty),
    Withdraw { from: RegionId },
    Cede { region: RegionId },
    Deliver { good: Good, amount: Quantity },
}

/// An order a faction gives for one day.
#[allow(inconsistent_fields)]
#[derive(Clone, Debug, PartialEq, Eq)]
pub enum Action {
    MoveUnit { unit: UnitId, to: Station },
    HoldUnit { unit: UnitId },
    DisbandUnit { unit: UnitId },
    RecruitUnit { region: RegionId, domain: Domain },
    ReinforceUnit { unit: UnitId },
    SetConscription(Quantity),
    SetIndustryPriority { good: Good, weight: Quantity },
    SetCivilianRation(Quantity),
    Build { region: RegionId, project: Project },
    CancelBuild { region: RegionId },
    SetImportPlan { good: Good, rate: Quantity },
    SetLogisticsPriority { good: Good, weight: Quantity },
    ProposeTreaty { to: FactionId, treaty: Treaty },
    AcceptTreaty { from: FactionId, treaty: Treaty },
    RejectTreaty { from: FactionId, treaty: Treaty },
    DeclareWar { to: FactionId },
    BreakTreaty { with: FactionId, treaty: Treaty },
    SetNationalFocus(NationalFocus),
    ProposeInNaturalLanguage { to: FactionId, text: String },
    RespondToNaturalLanguageProposal { from: FactionId, terms: Vec<TreatyTerm>, accept: bool },
    InterdictLine { line: TransportLineId },
    StrikeNode { node: TransportNodeId },
}

/// What an action orders, with its texts and lists as mathematical sequences.
pub ghost enum ActionView {
    /// An action made of plain values only.
    Order(Action),
    /// A proposal in natural language.
    Proposal { to: FactionId, text: Seq<char> },
    /// The reply to a proposal in natural language.
    Response { from: FactionId, terms: Seq<TreatyTerm>, accept: bool },
}

impl View for Action {
    type V = ActionView;

    open spec fn view(&self) -> ActionView {
        match *self {
            Action::ProposeInNaturalLanguage { to, text } => ActionView::Proposal { to, text: text@ },
            Action::RespondToNaturalLanguageProposal { from, terms, accept } => ActionView::Response {
                from,
                terms: terms@,
                accept,
            },
            plain => ActionView::Order(plain),
        }
    }
}

} // verus!
