//! The state of the client and what it asks of the simulation.
use crate::map_mode::MapMode;
use crate::types::{Action, Domain, FactionId, Good, RegionId, SeaZoneId, UnitId};
use crate::unit_set::UnitSet;
use crate::world::{Branch, World};
use vstd::prelude::*;

verus! {

/// How fast days pass.
#[derive(Clone, Copy, Debug, PartialEq, Eq, Structural)]
pub enum Speed {
    Paused,
    X1,
    X5,
    X20,
}

impl Speed {
    /// How many days pass in a frame.
    pub open spec fn days(self) -> nat {
        match self {
            Speed::Paused => 0,
            Speed::X1 => 1,
            Speed::X5 => 5,
            Speed::X20 => 20,
        }
    }

    /// How many days pass in a frame.
    pub fn ticks_per_frame(self) -> (n: u32)
        ensures
            n == self.days(),
    {
        match self {
            Speed::Paused => 0,
            Speed::X1 => 1,
            Speed::X5 => 5,
            Speed::X20 => 20,
        }
    }

    /// The name of a speed.
    pub open spec fn name_text(self) -> Seq<char> {
        match self {
            Speed::Paused => "paused"@,
            Speed::X1 => "1x"@,
            Speed::X5 => "5x"@,
            Speed::X20 => "20x"@,
        }
    }

    /// The name of a speed.
    pub fn label(self) -> (name: &'static str)
        ensures
            name@ == self.name_text(),
    {
        match self {
            Speed::Paused => "paused",
            Speed::X1 => "1x",
            Speed::X5 => "5x",
            Speed::X20 => "20x",
        }
    }
}

/// What the player has chosen, opened and picked, but for the selected units and the text being
/// composed.
#[derive(Clone, Copy, Debug, PartialEq, Eq, Structural)]
pub struct Ui {
    /// The speed to resume at; never `Paused`.
    pub last_active: Speed,
    pub paused: bool,
    /// The played faction, if there is one.
    pub player: Option<FactionId>,
    pub selected_region: Option<RegionId>,
    pub selected_sea_zone: Option<SeaZoneId>,
    /// The faction that the summary panel shows.
    pub selected_faction: FactionId,
    /// The region whose menu is open.
    pub menu: Option<RegionId>,
    pub diplomacy_open: bool,
    pub diplomacy_target: Option<FactionId>,
    pub policy_open: bool,
    /// Whether a proposal in natural language is being composed.
    pub composing: bool,
    /// Whether composing began in this very frame, with the key that began it still unread.
    pub just_activated: bool,
    pub newspaper_open: bool,
    /// The issue shown; the latest one if `None`.
    pub newspaper_viewing: Option<usize>,
    pub active_good: Good,
    pub active_branch: Branch,
    pub map_mode: MapMode,
}

/// The state of the client.
pub struct Client {
    pub ui: Ui,
    pub units: UnitSet,
    /// The proposal being composed.
    pub draft: String,
}

/// The state of the client, with the selection and the draft as sequences.
pub ghost struct ClientView {
    pub ui: Ui,
    pub units: Seq<u32>,
    pub draft: Seq<char>,
}

impl View for Client {
    type V = ClientView;

    open spec fn view(&self) -> ClientView {
        ClientView { ui: self.ui, units: self.units@, draft: self.draft@ }
    }
}

impl Ui {
    /// What holds of every state of the client: there is a speed to resume at, and no region is
    /// selected together with a sea zone.
    pub open spec fn consistent(self) -> bool {
        &&& self.last_active != Speed::Paused
        &&& (self.selected_region is None || self.selected_sea_zone is None)
    }

    /// Whether the played faction and the counterpart exist in a world.
    pub open spec fn known_in(self, world: World) -> bool {
        &&& (self.player matches Some(f) ==> world.has_faction(f))
        &&& (self.diplomacy_target matches Some(f) ==> world.has_faction(f))
    }
}

/// A policy value that goes up and down in steps.
#[derive(Clone, Copy, Debug, PartialEq, Eq, Structural)]
pub enum PolicyField {
    Conscription,
    Ration,
    Industry,
    Logistics,
    Import,
}

/// What the client asks for.
#[derive(Clone, Debug, PartialEq, Eq)]
pub enum Command {
    /// Queue an action for the played faction.
    Order(Action),
    /// Queue the recruitment of a unit of the given branch (which matters on land only).
    Recruit { region: RegionId, domain: Domain, branch: Branch },
    /// Hand a unit over to an agent.
    Delegate(UnitId),
    /// Take a unit back from an agent.
    Undelegate(UnitId),
}

/// A key of the keyboard that the client listens to.
#[derive(Clone, Copy, Debug, PartialEq, Eq, Structural)]
pub enum Key {
    M,
    N,
    Space,
    Digit1,
    Digit2,
    Digit3,
    Digit4,
    Digit5,
    Digit6,
    Digit7,
    Digit8,
    Digit9,
    Escape,
    Tab,
    D,
    P,
    H,
    J,
    K,
    U,
    G,
    C,
    F,
    V,
    T,
    A,
    R,
    W,
    B,
    Minus,
    Equal,
    BracketLeft,
    BracketRight,
    Semicolon,
    Quote,
    Comma,
    Period,
    ArrowLeft,
    ArrowRight,
    Enter,
    NumpadEnter,
    Backspace,
}

/// The keys that went down in a frame.
pub struct Keys {
    pub pressed: Vec<Key>,
    /// Whether a control key is held.
    pub ctrl: bool,
}

impl Keys {
    /// Whether a key went down.
    pub open spec fn down(&self, key: Key) -> bool {
        self.pressed@.contains(key)
    }

    /// Whether a key went down.
    pub fn has(&self, key: Key) -> (found: bool)
        ensures
            found == self.down(key),
    {
        let mut i: usize = 0;
        while i < self.pressed.len()
            invariant
                i <= self.pressed.len(),
                forall|k: int| 0 <= k < i ==> self.pressed@[k] != key,
            decreases self.pressed.len() - i,
        {
            if self.pressed[i] == key {
                return true;
            }
            i += 1;
        }
        false
    }
}

/// The living factions among the first `n`, but for one, in order.
pub open spec fn living_others(world: World, but: FactionId, n: nat) -> Seq<FactionId>
    decreases n,
{
    if n == 0 {
        Seq::empty()
    } else {
        let before = living_others(world, but, (n - 1) as nat);
        let id = FactionId((n - 1) as u32);
        if id != but && world.factions@[n - 1].alive {
            before.push(id)
        } else {
            before
        }
    }
}

/// The living factions but for one, in order.
pub open spec fn others_of(world: World, but: FactionId) -> Seq<FactionId> {
    living_others(world, but, world.factions@.len())
}

/// The living factions but for one come in ascending order, and each exists.
pub proof fn others_ascend(world: World, but: FactionId, n: nat)
    requires
        n <= world.factions@.len() <= u32::MAX,
    ensures
        forall|i: int, j: int|
            0 <= i < j < living_others(world, but, n).len() ==> (#[trigger] living_others(world, but, n)[i]).0
                < (#[trigger] living_others(world, but, n)[j]).0,
        forall|i: int|
            0 <= i < living_others(world, but, n).len() ==> (#[trigger] living_others(world, but, n)[i]).0 < n
                && living_others(world, but, n)[i] != but,
    decreases n,
{
    if n > 0 {
        others_ascend(world, but, (n - 1) as nat);
        let before = living_others(world, but, (n - 1) as nat);
        let list = living_others(world, but, n);
        let id = FactionId((n - 1) as u32);
        assert(list == before || list == before.push(id));
        assert forall|i: int| 0 <= i < list.len() implies (#[trigger] list[i]).0 < n && list[i] != but by {
            if i < before.len() {
                assert(list[i] == before[i]);
            }
        }
        assert forall|i: int, j: int| 0 <= i < j < list.len() implies (#[trigger] list[i]).0 < (#[trigger] list[j]).0 by {
            assert(list[i] == before[i]);
            if j < before.len() {
                assert(list[j] == before[j]);
            }
        }
    }
}

/// The living factions but for one, in order.
pub fn others(world: &World, but: FactionId) -> (list: Vec<FactionId>)
    requires
        world.valid(),
    ensures
        list@ == others_of(*world, but),
{
    let mut list: Vec<FactionId> = Vec::new();
    let mut i: usize = 0;
    while i < world.factions.len()
        invariant
            world.valid(),
            i <= world.factions.len(),
            list@ == living_others(*world, but, i as nat),
        decreases world.factions.len() - i,
    {
        let id = FactionId(i as u32);
        if id != but && world.factions[i].alive {
            list.push(id);
        }
        i += 1;
    }
    list
}

/// The first living faction but for one.
pub open spec fn first_other_of(world: World, but: FactionId) -> Option<FactionId> {
    let list = others_of(world, but);
    if list.len() == 0 {
        None
    } else {
        Some(list[0])
    }
}

/// The first living faction but for one.
pub fn first_other(world: &World, but: FactionId) -> (first: Option<FactionId>)
    requires
        world.valid(),
    ensures
        first == first_other_of(*world, but),
{
    let list = others(world, but);
    if list.len() == 0 {
        None
    } else {
        Some(list[0])
    }
}

/// The diplomacy panel opens: it takes the place of the policy panel, and picks a counterpart if it
/// has none.
pub open spec fn diplomacy_opened(ui: Ui, player: FactionId, world: World) -> Ui {
    Ui {
        diplomacy_open: true,
        policy_open: false,
        diplomacy_target: match ui.diplomacy_target {
            Some(target) => Some(target),
            None => first_other_of(world, player),
        },
        ..ui
    }
}

/// Opens the diplomacy panel.
pub fn open_diplomacy(ui: Ui, player: FactionId, world: &World) -> (after: Ui)
    requires
        world.valid(),
    ensures
        after == diplomacy_opened(ui, player, *world),
{
    let target = match ui.diplomacy_target {
        Some(target) => Some(target),
        None => first_other(world, player),
    };
    Ui { diplomacy_open: true, policy_open: false, diplomacy_target: target, ..ui }
}

/// The policy panel opens in place of the diplomacy panel, or closes.
pub open spec fn policy_toggled(ui: Ui) -> Ui {
    Ui { policy_open: !ui.policy_open, diplomacy_open: ui.diplomacy_open && ui.policy_open, ..ui }
}

/// Opens or closes the policy panel.
pub fn toggle_policy(ui: Ui) -> (after: Ui)
    ensures
        after == policy_toggled(ui),
{
    Ui { policy_open: !ui.policy_open, diplomacy_open: ui.diplomacy_open && ui.policy_open, ..ui }
}

/// Composing a proposal begins, with an empty draft.
pub open spec fn compose_begun(ui: Ui) -> Ui {
    Ui { composing: true, just_activated: true, ..ui }
}

/// Begins to compose a proposal.
pub fn begin_compose(client: &mut Client)
    ensures
        final(client)@ == (ClientView {
            ui: compose_begun(old(client).ui),
            units: old(client).units@,
            draft: Seq::empty(),
        }),
        final(client).units == old(client).units,
{
    client.ui.composing = true;
    client.ui.just_activated = true;
    client.draft = String::new();
}

} // verus!
