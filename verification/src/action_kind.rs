//! The kinds of actions and the names under which recordings store them.
use crate::text::same_text;
use vstd::prelude::*;

verus! {

/// The kind of an action.
#[derive(Clone, Copy, Debug, PartialEq, Eq, Structural)]
pub enum ActionKind {
    MoveUnit,
    HoldUnit,
    DisbandUnit,
    RecruitUnit,
    ReinforceUnit,
    SetConscription,
    SetIndustryPriority,
    SetCivilianRation,
    Build,
    CancelBuild,
    SetImportPlan,
    SetLogisticsPriority,
    ProposeTreaty,
    AcceptTreaty,
    RejectTreaty,
    DeclareWar,
    BreakTreaty,
    SetNationalFocus,
    ProposeInNaturalLanguage,
    RespondToNaturalLanguageProposal,
    InterdictLine,
    StrikeNode,
}

impl ActionKind {
    /// The name under which recordings store this kind.
    pub open spec fn key_text(self) -> Seq<char> {
        match self {
            ActionKind::MoveUnit => "move_unit"@,
            ActionKind::HoldUnit => "hold_unit"@,
            ActionKind::DisbandUnit => "disband_unit"@,
            ActionKind::RecruitUnit => "recruit_unit"@,
            ActionKind::ReinforceUnit => "reinforce_unit"@,
            ActionKind::SetConscription => "set_conscription"@,
            ActionKind::SetIndustryPriority => "set_industry_priority"@,
            ActionKind::SetCivilianRation => "set_civilian_ration"@,
            ActionKind::Build => "build"@,
            ActionKind::CancelBuild => "cancel_build"@,
            ActionKind::SetImportPlan => "set_import_plan"@,
            ActionKind::SetLogisticsPriority => "set_logistics_priority"@,
            ActionKind::ProposeTreaty => "propose_treaty"@,
            ActionKind::AcceptTreaty => "accept_treaty"@,
            ActionKind::RejectTreaty => "reject_treaty"@,
            ActionKind::DeclareWar => "declare_war"@,
            ActionKind::BreakTreaty => "break_treaty"@,
            ActionKind::SetNationalFocus => "set_national_focus"@,
            ActionKind::ProposeInNaturalLanguage => "propose_in_natural_language"@,
            ActionKind::RespondToNaturalLanguageProposal => "respond_to_natural_language_proposal"@,
            ActionKind::InterdictLine => "interdict_line"@,
            ActionKind::StrikeNode => "strike_node"@,
        }
    }

    /// The kind that a name stands for, if any.
    pub open spec fn of_key(key: Seq<char>) -> Option<ActionKind> {
        if key == "move_unit"@ {
            Some(ActionKind::MoveUnit)
        } else if key == "hold_unit"@ {
            Some(ActionKind::HoldUnit)
        } else if key == "disband_unit"@ {
            Some(ActionKind::DisbandUnit)
        } else if key == "recruit_unit"@ {
            Some(ActionKind::RecruitUnit)
        } else if key == "reinforce_unit"@ {
            Some(ActionKind::ReinforceUnit)
        } else if key == "set_conscription"@ {
            Some(ActionKind::SetConscription)
        } else if key == "set_industry_priority"@ {
            Some(ActionKind::SetIndustryPriority)
        } else if key == "set_civilian_ration"@ {
            Some(ActionKind::SetCivilianRation)
        } else if key == "build"@ {
            Some(ActionKind::Build)
        } else if key == "cancel_build"@ {
            Some(ActionKind::CancelBuild)
        } else if key == "set_import_plan"@ {
            Some(ActionKind::SetImportPlan)
        } else if key == "set_logistics_priority"@ {
            Some(ActionKind::SetLogisticsPriority)
        } else if key == "propose_treaty"@ {
            Some(ActionKind::ProposeTreaty)
        } else if key == "accept_treaty"@ {
            Some(ActionKind::AcceptTreaty)
        } else if key == "reject_treaty"@ {
            Some(ActionKind::RejectTreaty)
        } else if key == "declare_war"@ {
            Some(ActionKind::DeclareWar)
        } else if key == "break_treaty"@ {
            Some(ActionKind::BreakTreaty)
        } else if key == "set_national_focus"@ {
            Some(ActionKind::SetNationalFocus)
        } else if key == "propose_in_natural_language"@ {
            Some(ActionKind::ProposeInNaturalLanguage)
        } else if key == "respond_to_natural_language_proposal"@ {
            Some(ActionKind::RespondToNaturalLanguageProposal)
        } else if key == "interdict_line"@ {
            Some(ActionKind::InterdictLine)
        } else if key == "strike_node"@ {
            Some(ActionKind::StrikeNode)
        } else {
            None
        }
    }

    /// Looks a name up.
    pub fn from_key(key: &str) -> (kind: Option<ActionKind>)
        ensures
            kind == ActionKind::of_key(key@),
    {
        if same_text(key, "move_unit") {
            Some(ActionKind::MoveUnit)
        } else if same_text(key, "hold_unit") {
            Some(ActionKind::HoldUnit)
        } else if same_text(key, "disband_unit") {
            Some(ActionKind::DisbandUnit)
        } else if same_text(key, "recruit_unit") {
            Some(ActionKind::RecruitUnit)
        } else if same_text(key, "reinforce_unit") {
            Some(ActionKind::ReinforceUnit)
        } else if same_text(key, "set_conscription") {
            Some(ActionKind::SetConscription)
        } else if same_text(key, "set_industry_priority") {
            Some(ActionKind::SetIndustryPriority)
        } else if same_text(key, "set_civilian_ration") {
            Some(ActionKind::SetCivilianRation)
        } else if same_text(key, "build") {
            Some(ActionKind::Build)
        } else if same_text(key, "cancel_build") {
            Some(ActionKind::CancelBuild)
        } else if same_text(key, "set_import_plan") {
            Some(ActionKind::SetImportPlan)
        } else if same_text(key, "set_logistics_priority") {
            Some(ActionKind::SetLogisticsPriority)
        } else if same_text(key, "propose_treaty") {
            Some(ActionKind::ProposeTreaty)
        } else if same_text(key, "accept_treaty") {
            Some(ActionKind::AcceptTreaty)
        } else if same_text(key, "reject_treaty") {
            Some(ActionKind::RejectTreaty)
        } else if same_text(key, "declare_war") {
            Some(ActionKind::DeclareWar)
        } else if same_text(key, "break_treaty") {
            Some(ActionKind::BreakTreaty)
        } else if same_text(key, "set_national_focus") {
            Some(ActionKind::SetNationalFocus)
        } else if same_text(key, "propose_in_natural_language") {
            Some(ActionKind::ProposeInNaturalLanguage)
        } else if same_text(key, "respond_to_natural_language_proposal") {
            Some(ActionKind::RespondToNaturalLanguageProposal)
        } else if same_text(key, "interdict_line") {
            Some(ActionKind::InterdictLine)
        } else if same_text(key, "strike_node") {
            Some(ActionKind::StrikeNode)
        } else {
            None
        }
    }

    /// Every kind is found again under its own name.
    pub proof fn key_names_one_kind(self)
        ensures
            ActionKind::of_key(self.key_text()) == Some(self),
    {
        reveal_strlit("move_unit");
        assert("move_unit"@.len() == 9);
        reveal_strlit("hold_unit");
        assert("hold_unit"@.len() == 9);
        reveal_strlit("disband_unit");
        assert("disband_unit"@.len() == 12);
        reveal_strlit("recruit_unit");
        assert("recruit_unit"@.len() == 12);
        reveal_strlit("reinforce_unit");
        assert("reinforce_unit"@.len() == 14);
        reveal_strlit("set_conscription");
        assert("set_conscription"@.len() == 16);
        reveal_strlit("set_industry_priority");
        assert("set_industry_priority"@.len() == 21);
        reveal_strlit("set_civilian_ration");
        assert("set_civilian_ration"@.len() == 19);
        reveal_strlit("build");
        assert("build"@.len() == 5);
        reveal_strlit("cancel_build");
        assert("cancel_build"@.len() == 12);
        reveal_strlit("set_import_plan");
        assert("set_import_plan"@.len() == 15);
        reveal_strlit("set_logistics_priority");
        assert("set_logistics_priority"@.len() == 22);
        reveal_strlit("propose_treaty");
        assert("propose_treaty"@.len() == 14);
        reveal_strlit("accept_treaty");
        assert("accept_treaty"@.len() == 13);
        reveal_strlit("reject_treaty");
        assert("reject_treaty"@.len() == 13);
        reveal_strlit("declare_war");
        assert("declare_war"@.len() == 11);
        reveal_strlit("break_treaty");
        assert("break_treaty"@.len() == 12);
        reveal_strlit("set_national_focus");
        assert("set_national_focus"@.len() == 18);
        reveal_strlit("propose_in_natural_language");
        assert("propose_in_natural_language"@.len() == 27);
        reveal_strlit("respond_to_natural_language_proposal");
        assert("respond_to_natural_language_proposal"@.len() == 36);
        reveal_strlit("interdict_line");
        assert("interdict_line"@.len() == 14);
        reveal_strlit("strike_node");
        assert("strike_node"@.len() == 11);
        assert("move_unit"@[0] != "hold_unit"@[0]);
        assert("disband_unit"@[0] != "recruit_unit"@[0]);
        assert("disband_unit"@[0] != "cancel_build"@[0]);
        assert("recruit_unit"@[0] != "cancel_build"@[0]);
        assert("reinforce_unit"@[0] != "propose_treaty"@[0]);
        assert("accept_treaty"@[0] != "reject_treaty"@[0]);
        assert("disband_unit"@[0] != "break_treaty"@[0]);
        assert("recruit_unit"@[0] != "break_treaty"@[0]);
        assert("cancel_build"@[0] != "break_treaty"@[0]);
        assert("reinforce_unit"@[0] != "interdict_line"@[0]);
        assert("propose_treaty"@[0] != "interdict_line"@[0]);
        assert("declare_war"@[0] != "strike_node"@[0]);
    }
}

} // verus!
