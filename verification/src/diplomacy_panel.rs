//! The diplomacy panel.
use crate::client::{begin_compose, compose_begun, diplomacy_opened, open_diplomacy, Client, ClientView, Command, Ui};
use crate::keyboard::{breakable_treaty, current_breakable_treaty, incoming_treaty, pending_treaty};
use crate::region_panel::{button_look, ButtonLook};
use crate::rejection::{panel_rejection, panel_rejection_text, Rejection, RejectionTarget};
use crate::target_panels::{optional_str, reason_text};
use crate::types::{Action, FactionId, Treaty};
use crate::world::{Stance, TextProposal, World, TREATY_COUNT};
use vstd::prelude::*;

verus! {

/// The name of a treaty on this panel.
pub open spec fn treaty_text(t: Treaty) -> Seq<char> {
    match t {
        Treaty::Ceasefire => "停戦"@,
        Treaty::NonAggression => "不可侵条約"@,
        Treaty::Alliance => "同盟"@,
        Treaty::MilitaryAccess => "通行権"@,
        Treaty::PortAccess => "港湾利用"@,
        Treaty::TradeAgreement => "貿易協定"@,
    }
}

/// The name of a treaty on this panel.
pub fn treaty_label_ja(t: Treaty) -> (text: &'static str)
    ensures
        text@ == treaty_text(t),
{
    match t {
        Treaty::Ceasefire => "停戦",
        Treaty::NonAggression => "不可侵条約",
        Treaty::Alliance => "同盟",
        Treaty::MilitaryAccess => "通行権",
        Treaty::PortAccess => "港湾利用",
        Treaty::TradeAgreement => "貿易協定",
    }
}

/// The name of a stance on this panel.
pub open spec fn stance_text(stance: Stance) -> Seq<char> {
    match stance {
        Stance::War => "交戦"@,
        Stance::Ceasefire => "停戦"@,
        Stance::NonAggression => "不可侵"@,
        Stance::Alliance => "同盟"@,
    }
}

/// The name of a stance on this panel.
pub fn stance_label_ja(stance: Stance) -> (text: &'static str)
    ensures
        text@ == stance_text(stance),
{
    match stance {
        Stance::War => "交戦",
        Stance::Ceasefire => "停戦",
        Stance::NonAggression => "不可侵",
        Stance::Alliance => "同盟",
    }
}

/// Why a treaty cannot be proposed, if it cannot.
pub open spec fn propose_obstacle(world: World, faction: FactionId, target: FactionId, treaty: Treaty) -> Option<Seq<char>> {
    let relation = world.relation_of(faction, target);
    if relation.treaties@[treaty.position()] {
        Some("既に締結済み"@)
    } else if relation.cooldowns@[treaty.position()] > 0 {
        Some("クールダウン中"@)
    } else {
        None
    }
}

/// Why a treaty cannot be proposed, if it cannot.
pub fn treaty_propose_reason(world: &World, faction: FactionId, target: FactionId, treaty: Treaty) -> (reason: Option<&'static str>)
    requires
        world.valid(),
        world.has_faction(faction),
        world.has_faction(target),
    ensures
        optional_str(reason) == propose_obstacle(*world, faction, target, treaty),
{
    let relation = world.relation(faction, target);
    if relation.treaties[treaty.index()] {
        Some("既に締結済み")
    } else if relation.cooldowns[treaty.index()] > 0 {
        Some("クールダウン中")
    } else {
        None
    }
}

/// Why war cannot be declared, if it cannot: only a ceasefire can be ended that way.
pub open spec fn war_obstacle(stance: Stance) -> Option<Seq<char>> {
    match stance {
        Stance::War => Some("既に交戦中"@),
        Stance::NonAggression => Some("不可侵条約を破棄してから宣戦できる"@),
        Stance::Alliance => Some("同盟を破棄してから宣戦できる"@),
        Stance::Ceasefire => None,
    }
}

fn war_reason(stance: Stance) -> (reason: Option<&'static str>)
    ensures
        optional_str(reason) == war_obstacle(stance),
{
    match stance {
        Stance::War => Some("既に交戦中"),
        Stance::NonAggression => Some("不可侵条約を破棄してから宣戦できる"),
        Stance::Alliance => Some("同盟を破棄してから宣戦できる"),
        Stance::Ceasefire => None,
    }
}

/// The first text proposal of one faction to another, from the proposal `i` on.
pub open spec fn text_from(proposals: Seq<TextProposal>, from: FactionId, to: FactionId, i: nat) -> Option<Seq<char>>
    decreases proposals.len() - i,
{
    if i >= proposals.len() {
        None
    } else if proposals[i as int].from == from && proposals[i as int].to == to {
        Some(proposals[i as int].text@)
    } else {
        text_from(proposals, from, to, i + 1)
    }
}

/// The proposal in natural language that one faction has made to another, if any.
pub open spec fn pending_text(world: World, from: FactionId, to: FactionId) -> Option<Seq<char>> {
    text_from(world.text_proposals@, from, to, 0)
}

fn outgoing_text(world: &World, from: FactionId, to: FactionId) -> (text: Option<&str>)
    ensures
        match text {
            Some(s) => pending_text(*world, from, to) == Some(s@),
            None => pending_text(*world, from, to) is None,
        },
{
    let mut i: usize = 0;
    while i < world.text_proposals.len()
        invariant
            i <= world.text_proposals.len(),
            pending_text(*world, from, to) == text_from(world.text_proposals@, from, to, i as nat),
        decreases world.text_proposals.len() - i,
    {
        if world.text_proposals[i].from == from && world.text_proposals[i].to == to {
            return Some(world.text_proposals[i].text.as_str());
        }
        i += 1;
    }
    None
}

/// Whether the panel is open.
pub open spec fn diplomacy_panel_shown(ui: Ui) -> bool {
    ui.player is Some && ui.diplomacy_open
}

/// The row of a treaty: why it cannot be proposed, and how the button looks.
pub struct TreatyRow {
    pub reason: String,
    pub look: ButtonLook,
}

/// What the panel says about a counterpart.
pub struct Counterpart {
    pub status: String,
    pub treaties: Vec<TreatyRow>,
    /// The buttons to accept and to reject.
    pub answer: ButtonLook,
    pub answer_reason: String,
    pub declare_war: ButtonLook,
    pub war_reason: String,
    pub break_treaty: ButtonLook,
    pub compose: ButtonLook,
    pub compose_reason: String,
    pub compose_status: String,
    pub rejection: String,
}

/// The diplomacy panel.
pub enum DiplomacyPanel {
    Closed,
    /// Open, without a counterpart to deal with.
    NoCounterpart { status: String },
    Open(Counterpart),
}

/// How the parties stand, in a line.
pub open spec fn status_text(world: World, player: FactionId, target: FactionId) -> Seq<char> {
    let relation = world.relation_of(player, target);
    "対象: "@ + world.faction_at(target).name@ + "   関係: "@ + stance_text(relation.stance) + "   感情: "@
        + relation.opinion.fixed(0)
}

/// What is said about a proposal of the counterpart.
pub open spec fn answer_text(incoming: Option<Treaty>) -> Seq<char> {
    match incoming {
        Some(t) => "相手からの提案: "@ + treaty_text(t),
        None => "相手からの提案がない"@,
    }
}

/// What is said about the proposal being composed, or the one that waits for an answer.
pub open spec fn compose_text(ui: Ui, draft: Seq<char>, pending: Option<Seq<char>>) -> Seq<char> {
    if ui.composing {
        "入力中> "@ + draft + "_\n(Enter で送信, Esc でキャンセル)"@
    } else {
        match pending {
            Some(text) => "送信済み（返答待ち）: 「"@ + text + "」"@,
            None => Seq::empty(),
        }
    }
}

/// What is said about why no proposal can be composed.
pub open spec fn compose_reason_text(pending: Option<Seq<char>>) -> Seq<char> {
    if pending is Some {
        "返答待ちの提案がある"@
    } else {
        Seq::empty()
    }
}

/// Whether the panel says what it should about a counterpart.
pub open spec fn describes(
    c: Counterpart,
    ui: Ui,
    draft: Seq<char>,
    world: World,
    rejections: Seq<Rejection>,
    player: FactionId,
    target: FactionId,
) -> bool {
    let stance = world.relation_of(player, target).stance;
    let incoming = pending_treaty(world, target, player);
    let pending = pending_text(world, player, target);
    &&& c.status@ == status_text(world, player, target)
    &&& c.treaties@.len() == TREATY_COUNT
    &&& forall|i: int|
        0 <= i < TREATY_COUNT ==> {
            let obstacle = propose_obstacle(world, player, target, Treaty::at(i));
            (#[trigger] c.treaties@[i]).reason@ == reason_text(obstacle) && c.treaties@[i].look == button_look(
                obstacle is None,
                false,
            )
        }
    &&& c.answer == button_look(incoming is Some, false)
    &&& c.answer_reason@ == answer_text(incoming)
    &&& c.declare_war == button_look(war_obstacle(stance) is None, false)
    &&& c.war_reason@ == reason_text(war_obstacle(stance))
    &&& c.break_treaty == ButtonLook::Enabled
    &&& c.compose == button_look(pending is None, false)
    &&& c.compose_reason@ == compose_reason_text(pending)
    &&& c.compose_status@ == compose_text(ui, draft, pending)
    &&& c.rejection@ == panel_rejection(rejections, RejectionTarget::Diplomacy)
}

fn status_line(world: &World, player: FactionId, target: FactionId) -> (text: String)
    requires
        world.valid(),
        world.has_faction(player),
        world.has_faction(target),
    ensures
        text@ == status_text(*world, player, target),
{
    let relation = world.relation(player, target);
    let mut text = "対象: ".to_owned();
    text.append(world.faction(target).name.as_str());
    text.append("   関係: ");
    text.append(stance_label_ja(relation.stance));
    text.append("   感情: ");
    text.append(relation.opinion.fixed_text(0).as_str());
    text
}

fn treaty_rows(world: &World, player: FactionId, target: FactionId) -> (rows: Vec<TreatyRow>)
    requires
        world.valid(),
        world.has_faction(player),
        world.has_faction(target),
    ensures
        rows@.len() == TREATY_COUNT,
        forall|i: int|
            0 <= i < TREATY_COUNT ==> {
                let obstacle = propose_obstacle(*world, player, target, Treaty::at(i));
                (#[trigger] rows@[i]).reason@ == reason_text(obstacle) && rows@[i].look == button_look(obstacle is None, false)
            },
{
    let mut rows: Vec<TreatyRow> = Vec::new();
    let mut i: usize = 0;
    while i < TREATY_COUNT
        invariant
            world.valid(),
            world.has_faction(player),
            world.has_faction(target),
            i <= TREATY_COUNT,
            rows.len() == i,
            forall|k: int|
                0 <= k < i ==> {
                    let obstacle = propose_obstacle(*world, player, target, Treaty::at(k));
                    (#[trigger] rows@[k]).reason@ == reason_text(obstacle) && rows@[k].look == button_look(
                        obstacle is None,
                        false,
                    )
                },
        decreases TREATY_COUNT - i,
    {
        let (reason, look) = match treaty_propose_reason(world, player, target, Treaty::nth(i)) {
            Some(reason) => (reason.to_owned(), ButtonLook::Disabled),
            None => (String::new(), ButtonLook::Enabled),
        };
        rows.push(TreatyRow { reason, look });
        i += 1;
    }
    rows
}

fn compose_line(client: &Client, pending: Option<&str>) -> (text: String)
    ensures
        text@ == compose_text(
            client.ui,
            client.draft@,
            match pending {
                Some(s) => Some(s@),
                None => None,
            },
        ),
{
    if client.ui.composing {
        let mut text = "入力中> ".to_owned();
        text.append(client.draft.as_str());
        text.append("_\n(Enter で送信, Esc でキャンセル)");
        text
    } else {
        match pending {
            Some(s) => {
                let mut text = "送信済み（返答待ち）: 「".to_owned();
                text.append(s);
                text.append("」");
                text
            },
            None => String::new(),
        }
    }
}

fn counterpart(client: &Client, world: &World, rejections: &Vec<Rejection>, player: FactionId, target: FactionId) -> (c: Counterpart)
    requires
        world.valid(),
        world.has_faction(player),
        world.has_faction(target),
    ensures
        describes(c, client.ui, client.draft@, *world, rejections@, player, target),
{
    let incoming = incoming_treaty(world, target, player);
    let (answer, answer_reason) = match incoming {
        Some(t) => {
            let mut text = "相手からの提案: ".to_owned();
            text.append(treaty_label_ja(t));
            (ButtonLook::Enabled, text)
        },
        None => (ButtonLook::Disabled, "相手からの提案がない".to_owned()),
    };
    let (declare_war, war) = match war_reason(world.relation(player, target).stance) {
        Some(reason) => (ButtonLook::Disabled, reason.to_owned()),
        None => (ButtonLook::Enabled, String::new()),
    };
    let pending = outgoing_text(world, player, target);
    let (compose, compose_reason) = match pending {
        Some(_) => (ButtonLook::Disabled, "返答待ちの提案がある".to_owned()),
        None => (ButtonLook::Enabled, String::new()),
    };
    Counterpart {
        status: status_line(world, player, target),
        treaties: treaty_rows(world, player, target),
        answer,
        answer_reason,
        declare_war,
        war_reason: war,
        break_treaty: ButtonLook::Enabled,
        compose,
        compose_reason,
        compose_status: compose_line(client, pending),
        rejection: panel_rejection_text(rejections, RejectionTarget::Diplomacy),
    }
}

/// The diplomacy panel.
pub fn sync_diplomacy_panel(client: &Client, world: &World, rejections: &Vec<Rejection>) -> (panel: DiplomacyPanel)
    requires
        world.valid(),
        client.ui.known_in(*world),
    ensures
        match panel {
            DiplomacyPanel::Closed => !diplomacy_panel_shown(client.ui),
            DiplomacyPanel::NoCounterpart { status } => diplomacy_panel_shown(client.ui) && client.ui.diplomacy_target is None
                && status@ == "対象となる勢力がいない"@,
            DiplomacyPanel::Open(c) => diplomacy_panel_shown(client.ui) && client.ui.diplomacy_target is Some && describes(
                c,
                client.ui,
                client.draft@,
                *world,
                rejections@,
                client.ui.player->0,
                client.ui.diplomacy_target->0,
            ),
        },
{
    if !client.ui.diplomacy_open {
        return DiplomacyPanel::Closed;
    }
    match client.ui.player {
        None => DiplomacyPanel::Closed,
        Some(player) => match client.ui.diplomacy_target {
            None => DiplomacyPanel::NoCounterpart { status: "対象となる勢力がいない".to_owned() },
            Some(target) => DiplomacyPanel::Open(counterpart(client, world, rejections, player, target)),
        },
    }
}

/// How the button of a faction looks: the counterpart's is marked.
pub fn target_button(ui: &Ui, faction: FactionId) -> (look: ButtonLook)
    ensures
        look == button_look(true, ui.diplomacy_target == Some(faction)),
{
    match ui.diplomacy_target {
        Some(target) => if target == faction {
            ButtonLook::Active
        } else {
            ButtonLook::Enabled
        },
        None => ButtonLook::Enabled,
    }
}

/// The state after a click on the button that opens and closes the panel.
pub open spec fn after_toggle_click(ui: Ui, world: World) -> Ui {
    match ui.player {
        None => ui,
        Some(player) => if ui.diplomacy_open {
            Ui { diplomacy_open: false, ..ui }
        } else {
            diplomacy_opened(ui, player, world)
        },
    }
}

/// A click on the button that opens and closes the panel.
pub fn handle_diplomacy_toggle_click(ui: Ui, world: &World) -> (after: Ui)
    requires
        world.valid(),
    ensures
        after == after_toggle_click(ui, *world),
{
    match ui.player {
        None => ui,
        Some(player) => if ui.diplomacy_open {
            Ui { diplomacy_open: false, ..ui }
        } else {
            open_diplomacy(ui, player, world)
        },
    }
}

/// A click on the button of a faction makes it the counterpart.
pub fn handle_diplomacy_target_click(ui: Ui, faction: FactionId) -> (after: Ui)
    ensures
        after == (Ui { diplomacy_target: Some(faction), ..ui }),
{
    Ui { diplomacy_target: Some(faction), ..ui }
}

/// What a click on the button of a treaty asks for.
pub open spec fn treaty_click(ui: Ui, world: World, treaty: Treaty) -> Option<Command> {
    match (ui.player, ui.diplomacy_target) {
        (Some(player), Some(target)) => if propose_obstacle(world, player, target, treaty) is Some {
            None
        } else {
            Some(Command::Order(Action::ProposeTreaty { to: target, treaty }))
        },
        _ => None,
    }
}

/// What a click on the button of a treaty asks for.
pub fn handle_treaty_click(ui: &Ui, world: &World, treaty: Treaty) -> (command: Option<Command>)
    requires
        world.valid(),
        ui.known_in(*world),
    ensures
        command == treaty_click(*ui, *world, treaty),
{
    if let (Some(player), Some(target)) = (ui.player, ui.diplomacy_target) {
        if treaty_propose_reason(world, player, target, treaty).is_some() {
            None
        } else {
            Some(Command::Order(Action::ProposeTreaty { to: target, treaty }))
        }
    } else {
        None
    }
}

/// The other buttons of the panel.
#[derive(Clone, Copy, Debug, PartialEq, Eq, Structural)]
pub enum DiplomacyAction {
    Accept,
    Reject,
    DeclareWar,
    Break,
    Compose,
}

/// What a click on one of the other buttons asks for.
pub open spec fn action_click(ui: Ui, world: World, action: DiplomacyAction) -> Option<Command> {
    match (ui.player, ui.diplomacy_target) {
        (Some(player), Some(target)) => match action {
            DiplomacyAction::Accept => match pending_treaty(world, target, player) {
                Some(treaty) => Some(Command::Order(Action::AcceptTreaty { from: target, treaty })),
                None => None,
            },
            DiplomacyAction::Reject => match pending_treaty(world, target, player) {
                Some(treaty) => Some(Command::Order(Action::RejectTreaty { from: target, treaty })),
                None => None,
            },
            DiplomacyAction::DeclareWar => if world.relation_of(player, target).stance == Stance::Ceasefire {
                Some(Command::Order(Action::DeclareWar { to: target }))
            } else {
                None
            },
            DiplomacyAction::Break => Some(
                Command::Order(Action::BreakTreaty { with: target, treaty: breakable_treaty(world, player, target) }),
            ),
            DiplomacyAction::Compose => None,
        },
        _ => None,
    }
}

/// Whether a click begins to compose a proposal: one is composed at a time.
pub open spec fn click_begins_compose(ui: Ui, world: World, action: DiplomacyAction) -> bool {
    action == DiplomacyAction::Compose && ui.player is Some && ui.diplomacy_target is Some && pending_text(
        world,
        ui.player->0,
        ui.diplomacy_target->0,
    ) is None
}

/// A click on one of the other buttons.
pub fn handle_diplomacy_button_click(client: &mut Client, world: &World, action: DiplomacyAction) -> (command: Option<Command>)
    requires
        world.valid(),
        old(client).ui.known_in(*world),
    ensures
        command == action_click(old(client).ui, *world, action),
        final(client).units == old(client).units,
        final(client)@ == (if click_begins_compose(old(client).ui, *world, action) {
            ClientView { ui: compose_begun(old(client).ui), draft: Seq::empty(), ..old(client)@ }
        } else {
            old(client)@
        }),
{
    let (player, target) = match (client.ui.player, client.ui.diplomacy_target) {
        (Some(player), Some(target)) => (player, target),
        _ => return None,
    };
    match action {
        DiplomacyAction::Accept => match incoming_treaty(world, target, player) {
            Some(treaty) => Some(Command::Order(Action::AcceptTreaty { from: target, treaty })),
            None => None,
        },
        DiplomacyAction::Reject => match incoming_treaty(world, target, player) {
            Some(treaty) => Some(Command::Order(Action::RejectTreaty { from: target, treaty })),
            None => None,
        },
        DiplomacyAction::DeclareWar => if world.relation(player, target).stance == Stance::Ceasefire {
            Some(Command::Order(Action::DeclareWar { to: target }))
        } else {
            None
        },
        DiplomacyAction::Break => Some(
            Command::Order(Action::BreakTreaty { with: target, treaty: current_breakable_treaty(world, player, target) }),
        ),
        DiplomacyAction::Compose => {
            if outgoing_text(world, player, target).is_none() {
                begin_compose(client);
            }
            None
        },
    }
}

/// The buttons to accept, reject and declare war are open exactly where a click on them asks for
/// something.
pub proof fn open_buttons_act(
    c: Counterpart,
    ui: Ui,
    draft: Seq<char>,
    world: World,
    rejections: Seq<Rejection>,
    player: FactionId,
    target: FactionId,
)
    requires
        ui.player == Some(player),
        ui.diplomacy_target == Some(target),
        describes(c, ui, draft, world, rejections, player, target),
    ensures
        (c.answer == ButtonLook::Enabled) <==> action_click(ui, world, DiplomacyAction::Accept) is Some,
        (c.answer == ButtonLook::Enabled) <==> action_click(ui, world, DiplomacyAction::Reject) is Some,
        (c.declare_war == ButtonLook::Enabled) <==> action_click(ui, world, DiplomacyAction::DeclareWar) is Some,
        (c.compose == ButtonLook::Enabled) <==> click_begins_compose(ui, world, DiplomacyAction::Compose),
{
}

} // verus!
