//! Why an order was refused, and which panel is told.
use crate::text::{join, joined, texts};
use crate::types::{Action, RegionId};
use vstd::prelude::*;

verus! {

/// The reasons for which the simulation refuses an order.
#[derive(Clone, Copy, Debug, PartialEq, Eq, Structural)]
pub enum ActionError {
    NotOwner,
    UnitDead,
    NotAdjacent,
    Pinned,
    RegionNotOwned,
    RegionContested,
    InsufficientManpower,
    InsufficientEquipment,
    InvalidValue,
    AlreadyBuilding,
    NoConstruction,
    NoPort,
    NoAirfield,
    InsufficientMachinery,
    InvalidLine,
    LineNotOwned,
    LineNotHostile,
    InvalidNode,
    NodeNotStrikeable,
    NodeNotHostile,
    NoAircraftInRange,
    NoForceInRange,
}

/// The reason, in the player's language.
pub open spec fn action_error_text(e: ActionError) -> Seq<char> {
    match e {
        ActionError::NotOwner => "自分の部隊・地域ではない"@,
        ActionError::UnitDead => "その部隊は存在しない（すでに撃破された）"@,
        ActionError::NotAdjacent => "隣接していない、または輸送手段がない"@,
        ActionError::Pinned => "敵部隊がいるため移動できない"@,
        ActionError::RegionNotOwned => "自国の地域ではない"@,
        ActionError::RegionContested => "地域が係争中（敵部隊がいる）"@,
        ActionError::InsufficientManpower => "人的資源が不足している"@,
        ActionError::InsufficientEquipment => "装備が不足している"@,
        ActionError::InvalidValue => "指定した値が範囲外"@,
        ActionError::AlreadyBuilding => "この地域はすでに建設中"@,
        ActionError::NoConstruction => "この地域に建設中の工事がない"@,
        ActionError::NoPort => "この地域に港湾がない"@,
        ActionError::NoAirfield => "この地域に飛行場がない"@,
        ActionError::InsufficientMachinery => "機械が不足している"@,
        ActionError::InvalidLine => "指定した輸送路線が存在しない"@,
        ActionError::LineNotOwned => "自国の輸送路線ではない"@,
        ActionError::LineNotHostile => "交戦中の敵の輸送路線ではない"@,
        ActionError::InvalidNode => "指定した輸送ノードが存在しない"@,
        ActionError::NodeNotStrikeable => "飛行場・港以外は攻撃対象にできない"@,
        ActionError::NodeNotHostile => "交戦中の敵の拠点ではない"@,
        ActionError::NoAircraftInRange => "攻撃範囲に航空部隊がいない"@,
        ActionError::NoForceInRange => "攻撃範囲に部隊がいない"@,
    }
}

/// The reason, in the player's language.
pub fn action_error_ja(e: ActionError) -> (text: &'static str)
    ensures
        text@ == action_error_text(e),
{
    match e {
        ActionError::NotOwner => "自分の部隊・地域ではない",
        ActionError::UnitDead => "その部隊は存在しない（すでに撃破された）",
        ActionError::NotAdjacent => "隣接していない、または輸送手段がない",
        ActionError::Pinned => "敵部隊がいるため移動できない",
        ActionError::RegionNotOwned => "自国の地域ではない",
        ActionError::RegionContested => "地域が係争中（敵部隊がいる）",
        ActionError::InsufficientManpower => "人的資源が不足している",
        ActionError::InsufficientEquipment => "装備が不足している",
        ActionError::InvalidValue => "指定した値が範囲外",
        ActionError::AlreadyBuilding => "この地域はすでに建設中",
        ActionError::NoConstruction => "この地域に建設中の工事がない",
        ActionError::NoPort => "この地域に港湾がない",
        ActionError::NoAirfield => "この地域に飛行場がない",
        ActionError::InsufficientMachinery => "機械が不足している",
        ActionError::InvalidLine => "指定した輸送路線が存在しない",
        ActionError::LineNotOwned => "自国の輸送路線ではない",
        ActionError::LineNotHostile => "交戦中の敵の輸送路線ではない",
        ActionError::InvalidNode => "指定した輸送ノードが存在しない",
        ActionError::NodeNotStrikeable => "飛行場・港以外は攻撃対象にできない",
        ActionError::NodeNotHostile => "交戦中の敵の拠点ではない",
        ActionError::NoAircraftInRange => "攻撃範囲に航空部隊がいない",
        ActionError::NoForceInRange => "攻撃範囲に部隊がいない",
    }
}

/// The panel that issues an order, and shows why the order was refused.
#[derive(Clone, Copy, Debug, PartialEq, Eq, Structural)]
pub enum RejectionTarget {
    Region(RegionId),
    Unit,
    Policy,
    Diplomacy,
}

/// The panel that issues an action.
pub open spec fn target_of(action: Action) -> RejectionTarget {
    match action {
        Action::MoveUnit { .. } => RejectionTarget::Unit,
        Action::HoldUnit { .. } => RejectionTarget::Unit,
        Action::ReinforceUnit { .. } => RejectionTarget::Unit,
        Action::DisbandUnit { .. } => RejectionTarget::Unit,
        Action::RecruitUnit { region, .. } => RejectionTarget::Region(region),
        Action::Build { region, .. } => RejectionTarget::Region(region),
        Action::CancelBuild { region } => RejectionTarget::Region(region),
        Action::SetConscription(_) => RejectionTarget::Policy,
        Action::SetIndustryPriority { .. } => RejectionTarget::Policy,
        Action::SetCivilianRation(_) => RejectionTarget::Policy,
        Action::SetImportPlan { .. } => RejectionTarget::Policy,
        Action::SetLogisticsPriority { .. } => RejectionTarget::Policy,
        Action::SetNationalFocus(_) => RejectionTarget::Policy,
        Action::InterdictLine { .. } => RejectionTarget::Policy,
        Action::StrikeNode { .. } => RejectionTarget::Policy,
        Action::ProposeTreaty { .. } => RejectionTarget::Diplomacy,
        Action::AcceptTreaty { .. } => RejectionTarget::Diplomacy,
        Action::RejectTreaty { .. } => RejectionTarget::Diplomacy,
        Action::DeclareWar { .. } => RejectionTarget::Diplomacy,
        Action::BreakTreaty { .. } => RejectionTarget::Diplomacy,
        Action::ProposeInNaturalLanguage { .. } => RejectionTarget::Diplomacy,
        Action::RespondToNaturalLanguageProposal { .. } => RejectionTarget::Diplomacy,
    }
}

/// The panel that issues an action.
pub fn rejection_target_of(action: &Action) -> (target: RejectionTarget)
    ensures
        target == target_of(*action),
{
    match action {
        Action::MoveUnit { .. } => RejectionTarget::Unit,
        Action::HoldUnit { .. } => RejectionTarget::Unit,
        Action::ReinforceUnit { .. } => RejectionTarget::Unit,
        Action::DisbandUnit { .. } => RejectionTarget::Unit,
        Action::RecruitUnit { region, .. } => RejectionTarget::Region(*region),
        Action::Build { region, .. } => RejectionTarget::Region(*region),
        Action::CancelBuild { region } => RejectionTarget::Region(*region),
        Action::SetConscription(_) => RejectionTarget::Policy,
        Action::SetIndustryPriority { .. } => RejectionTarget::Policy,
        Action::SetCivilianRation(_) => RejectionTarget::Policy,
        Action::SetImportPlan { .. } => RejectionTarget::Policy,
        Action::SetLogisticsPriority { .. } => RejectionTarget::Policy,
        Action::SetNationalFocus(_) => RejectionTarget::Policy,
        Action::InterdictLine { .. } => RejectionTarget::Policy,
        Action::StrikeNode { .. } => RejectionTarget::Policy,
        _ => RejectionTarget::Diplomacy,
    }
}

/// The name of a panel, in the player's language.
pub open spec fn target_text(target: RejectionTarget) -> Seq<char> {
    match target {
        RejectionTarget::Region(_) => "地域"@,
        RejectionTarget::Unit => "部隊"@,
        RejectionTarget::Policy => "政策"@,
        RejectionTarget::Diplomacy => "外交"@,
    }
}

/// The name of a panel, in the player's language.
pub fn rejection_target_ja(target: RejectionTarget) -> (text: &'static str)
    ensures
        text@ == target_text(target),
{
    match target {
        RejectionTarget::Region(_) => "地域",
        RejectionTarget::Unit => "部隊",
        RejectionTarget::Policy => "政策",
        RejectionTarget::Diplomacy => "外交",
    }
}

/// A refused order: the panel that issued it and the reason.
#[derive(Clone, Copy, Debug, PartialEq, Eq, Structural)]
pub struct Rejection {
    pub target: RejectionTarget,
    pub error: ActionError,
}

/// The reasons of the rejections that one panel is to show, in order.
pub open spec fn reasons_for(rejections: Seq<Rejection>, target: RejectionTarget) -> Seq<Seq<char>>
    decreases rejections.len(),
{
    if rejections.len() == 0 {
        Seq::empty()
    } else {
        let before = reasons_for(rejections.drop_last(), target);
        if rejections.last().target == target {
            before.push(action_error_text(rejections.last().error))
        } else {
            before
        }
    }
}

/// What a panel shows of the refused orders it issued: nothing, or a heading and one reason a line.
pub open spec fn panel_rejection(rejections: Seq<Rejection>, target: RejectionTarget) -> Seq<char> {
    let reasons = reasons_for(rejections, target);
    if reasons.len() == 0 {
        Seq::empty()
    } else {
        "!! 却下 !!\n"@ + joined(reasons, "\n"@)
    }
}

/// Writes what a panel shows of the refused orders it issued.
pub fn panel_rejection_text(rejections: &Vec<Rejection>, target: RejectionTarget) -> (text: String)
    ensures
        text@ == panel_rejection(rejections@, target),
{
    let mut lines: Vec<String> = Vec::new();
    let mut i: usize = 0;
    assert(rejections@.take(0) =~= Seq::empty());
    assert(texts(lines@) =~= Seq::<Seq<char>>::empty());
    while i < rejections.len()
        invariant
            i <= rejections.len(),
            texts(lines@) == reasons_for(rejections@.take(i as int), target),
        decreases rejections.len() - i,
    {
        let ghost before = lines@;
        proof {
            assert(rejections@.take(i + 1).drop_last() =~= rejections@.take(i as int));
            assert(rejections@.take(i + 1).last() == rejections@[i as int]);
        }
        if rejections[i].target == target {
            let line = action_error_ja(rejections[i].error).to_owned();
            lines.push(line);
            assert(texts(lines@) =~= texts(before).push(line@));
        }
        i += 1;
    }
    assert(rejections@.take(rejections.len() as int) =~= rejections@);
    if lines.len() == 0 {
        String::new()
    } else {
        let mut text = "!! 却下 !!\n".to_owned();
        text.append(join(&lines, "\n").as_str());
        text
    }
}

} // verus!
