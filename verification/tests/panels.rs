use archipelago_game::client::{Client, Command, Key, Keys, PolicyField, Speed};
use archipelago_game::compose::nl_compose_text_input;
use archipelago_game::diplomacy_panel::{
    handle_diplomacy_button_click, handle_diplomacy_target_click, handle_diplomacy_toggle_click, handle_treaty_click,
    sync_diplomacy_panel, target_button, treaty_propose_reason, DiplomacyAction, DiplomacyPanel,
};
use archipelago_game::event_text::Event;
use archipelago_game::keyboard::{current_breakable_treaty, incoming_treaty, keyboard_input, UnitOrder};
use archipelago_game::mouse::{is_click, map_click_select, map_right_click_menu, unit_click_radius, MapClick, MapLayout, Marker};
use archipelago_game::policy_panel::{
    current_value, handle_focus_click, handle_good_tab_click, handle_policy_step_click, policy_step,
    sync_policy_panel,
};
use archipelago_game::quantity::Quantity;
use archipelago_game::region_panel::{
    handle_branch_tab_click, handle_region_action_click, sync_branch_tab, sync_region_action_buttons, ButtonLook,
    RegionActionKind,
};
use archipelago_game::rejection::{action_error_ja, panel_rejection_text, ActionError, Rejection, RejectionTarget};
use archipelago_game::screenshot::{sync_debug_selected_units, ScreenshotConfig, ScreenshotTrigger};
use archipelago_game::soundness::{are_known_events, is_known_event, ui_is_known, world_is_valid};
use archipelago_game::speed_panel::{handle_speed_button_click, speed_label, sync_speed_button};
use archipelago_game::startup::{greeting_text, start, start_journal, window_title, PlayConfig, Replay};
use archipelago_game::target_panels::{
    handle_interdict_click, handle_strike_click, interdict_reason, lines_touching, sync_interdict_panel, sync_strike_panel,
    StrikeKind,
};
use archipelago_game::types::{
    Action, Domain, FactionId, Good, NationalFocus, Project, RegionId, SeaZoneId, Station, TransportLineId, TransportNodeId,
    Treaty, TreatyTerm, UnitId,
};
use archipelago_game::unit_panel::{handle_unit_action_click, reinforce_disabled_reason, station_label, sync_unit_panel};
use archipelago_game::world::{
    Balance, Branch, Construction, EquipmentStock, Faction, Labels, Line, Link, LinkKind, Node, Point,
    Proposal, Region, Relation, SeaZone, Stance, Terrain, TextProposal, Unit, World,
};

fn q(x: f32) -> Quantity {
    Quantity { bits: x.to_bits() }
}

fn region(name: &str, owner: u32, index: u32) -> Region {
    Region {
        name: name.to_string(),
        owner: FactionId(owner),
        occupier: None,
        occupation: q(0.0),
        terrain: Terrain::Plain,
        position: Point { x: q(100.0 * index as f32), y: q(0.0) },
        links: Vec::new(),
        population: q(50.0 + 10.0 * index as f32),
        capacity: (0..6).map(|g| q(1.0 + index as f32 + 0.5 * g as f32)).collect(),
        infrastructure: q(0.5),
        port: q(1.0),
        blockaded: false,
        unrest: q(0.0),
        devastation: q(0.0),
        supply: q(1.0),
        throughput: q(8.0),
        import_flow: q(0.0),
        construction: None,
        airfield: Some(TransportNodeId(index)),
        port_node: Some(TransportNodeId(10 + index)),
        enemy_units: vec![false; 3],
        aircraft_reach: vec![false; 3],
        force_reach: vec![false; 3],
        air_superiority: vec![q(0.0); 3],
    }
}

const MUTINY_THRESHOLD: f32 = 35.0;
const STRIKE_THRESHOLD: f32 = 40.0;
const PROTEST_THRESHOLD: f32 = 38.0;
const OTHER_THRESHOLD: f32 = 30.0;

fn faction(name: &str, capital: u32) -> Faction {
    let stock_of = |label: &str| EquipmentStock { label: label.to_string(), stock: q(30.0) };
    Faction {
        name: name.to_string(),
        alive: true,
        capital: RegionId(capital),
        manpower: q(40.0),
        stock: vec![q(120.0); 6],
        equipment: vec![
            stock_of("歩兵装備"),
            stock_of("機甲装備"),
            stock_of("砲兵装備"),
            stock_of("艦艇装備"),
            stock_of("航空装備"),
        ],
        stability: q(60.0),
        war_support: q(55.0),
        shortage: q(0.0),
        conscription: q(0.3),
        civilian_ration: q(0.9),
        industry_priority: vec![q(0.5); 6],
        logistics_priority: vec![q(0.5); 6],
        import_plan: vec![q(0.0); 6],
        national_focus: NationalFocus::Technocracy,
        focus_transition_days: 0,
        group_support: vec![q(60.0); 7],
    }
}

fn unit(name: &str, owner: u32, station: Station) -> Unit {
    Unit {
        name: name.to_string(),
        owner: FactionId(owner),
        alive: true,
        station,
        branch: Some(Branch::Infantry),
        manpower: q(10.0),
        equipment: q(10.0),
        organization: q(50.0),
        morale: q(1.0),
        supply: q(1.0),
        experience: q(0.0),
        in_transit: false,
        delegated: false,
    }
}

fn relation(stance: Stance) -> Relation {
    Relation {
        stance,
        opinion: q(-20.0),
        treaties: vec![false; 6],
        cooldowns: vec![0; 6],
        military_access: false,
        port_access: false,
        trade_agreement: false,
    }
}

/// Three factions at war with each other on ten regions: faction 0 has regions 0 to 3, faction 1 has
/// regions 4 to 6, faction 2 the rest. Nobody has an air unit, and only regions 4 and 5 are in reach of
/// faction 0.
fn world() -> World {
    let names = ["北海道", "東北", "北関東", "関東", "信越・北陸", "東海", "近畿", "中国", "四国", "九州"];
    let owners = [0, 0, 0, 0, 1, 1, 1, 2, 2, 2];
    let mut regions: Vec<Region> = (0..10).map(|i| region(names[i], owners[i], i as u32)).collect();
    for i in 0..10u32 {
        if i > 0 {
            regions[i as usize].links.push(Link { to: RegionId(i - 1), kind: LinkKind::Rail });
        }
        if i < 9 {
            regions[i as usize].links.push(Link { to: RegionId(i + 1), kind: LinkKind::Rail });
        }
    }
    regions[4].force_reach[0] = true;
    regions[5].force_reach[0] = true;
    let mut nodes = Vec::new();
    for kind in ["飛行場", "港"] {
        for i in 0..10u32 {
            nodes.push(Node { name: format!("{}{kind}", names[i as usize]), region: RegionId(i) });
        }
    }
    let lines = (0..10)
        .map(|i| Line { from: TransportNodeId(i), to: TransportNodeId(10 + i), condition: q(1.0) })
        .collect();
    let relations = (0..3)
        .map(|a| (0..3).map(|b| relation(if a == b { Stance::Alliance } else { Stance::War })).collect())
        .collect();
    World {
        day: 0,
        regions,
        sea_zones: vec![
            SeaZone {
                name: "津軽海峡".to_string(),
                coast: vec![RegionId(0), RegionId(1)],
                control: vec![q(0.0); 3],
                enemy_fleets: vec![false; 3],
            },
            SeaZone {
                name: "瀬戸内海".to_string(),
                coast: vec![RegionId(7), RegionId(8), RegionId(9)],
                control: vec![q(0.0); 3],
                enemy_fleets: vec![false; 3],
            },
        ],
        factions: vec![faction("関東府", 3), faction("近畿連合", 6), faction("西国同盟", 9)],
        units: vec![
            unit("第一師団", 0, Station::Region(RegionId(3))),
            unit("第二師団", 0, Station::Region(RegionId(3))),
            unit("第三師団", 1, Station::Region(RegionId(6))),
            unit("第四師団", 2, Station::Region(RegionId(9))),
        ],
        nodes,
        lines,
        relations,
        proposals: Vec::new(),
        text_proposals: Vec::new(),
        balance: Balance {
            unit_manpower: q(10.0),
            unit_equipment: q(10.0),
            air_unit_machinery_cost: q(5.0),
            attrition_supply_threshold: q(0.5),
            regime_change_threshold: q(25.0),
            mutiny_threshold: q(MUTINY_THRESHOLD),
            strike_threshold: q(STRIKE_THRESHOLD),
            protest_threshold: q(PROTEST_THRESHOLD),
            capital_flight_threshold: q(OTHER_THRESHOLD),
            separatism_threshold: q(OTHER_THRESHOLD),
            citizens_shortage_penalty: q(20.0),
            labor_shortage_penalty: q(10.0),
            government_shortage_penalty: q(8.0),
            civilian_ration_min: q(0.4),
            civilian_ration_max: q(1.2),
            proposal_max_chars: 5,
            newspaper_interval_days: 30,
        },
        labels: Labels {
            goods: ["食料", "エネルギー", "鉄鋼", "機械", "弾薬", "装備"].map(String::from).to_vec(),
            branches: vec!["歩兵".to_string(), "機甲".to_string(), "砲兵".to_string()],
            foci: ["武力統一", "経済圏", "同盟網", "海洋貿易", "技術官僚", "専守防衛"].map(String::from).to_vec(),
            groups: ["中央政府", "官僚", "軍部", "財界", "労働者", "市民", "地方政府"].map(String::from).to_vec(),
        },
    }
}

fn number(x: Quantity) -> f32 {
    f32::from_bits(x.bits)
}

fn play(player: u32) -> Option<PlayConfig> {
    Some(PlayConfig { player: FactionId(player), record: None, replay: None, delegate_military: false })
}

/// A client that plays a faction.
fn client(world: &World, player: u32) -> Client {
    start(world, &None, &play(player))
}

/// A client that plays faction 0, with a region selected.
fn client_at(world: &World, region: u32) -> Client {
    let mut client = client(world, 0);
    client.ui.selected_region = Some(RegionId(region));
    client
}

fn keys(pressed: &[Key]) -> Keys {
    Keys { pressed: pressed.to_vec(), ctrl: false }
}

#[test]
fn speed_button_click_sets_active_speed_and_unpauses() {
    let mut ui = client(&world(), 0).ui;
    ui.last_active = Speed::X1;
    ui.paused = true;
    let after = handle_speed_button_click(ui, Speed::X20);
    assert_eq!(after.last_active, Speed::X20, "clicking the 20x button must select it");
    assert!(!after.paused, "clicking any active-speed button must unpause");
}

#[test]
fn speed_button_pause_click_sets_paused_without_changing_last_active() {
    let mut ui = client(&world(), 0).ui;
    ui.last_active = Speed::X5;
    ui.paused = false;
    let after = handle_speed_button_click(ui, Speed::Paused);
    assert!(after.paused, "clicking the pause button must pause");
    assert_eq!(after.last_active, Speed::X5, "pausing must not change the remembered active speed");
}

#[test]
fn every_speed_button_names_its_key() {
    assert_eq!(speed_label(Speed::Paused), "停止 [Space]");
    assert_eq!(speed_label(Speed::X1), "1x [1]");
    assert_eq!(speed_label(Speed::X5), "5x [2]");
    assert_eq!(speed_label(Speed::X20), "20x [3]");
}

#[test]
fn the_button_of_the_running_speed_is_marked() {
    let mut ui = client(&world(), 0).ui;
    ui.last_active = Speed::X5;
    ui.paused = false;
    assert_eq!(sync_speed_button(&ui, Speed::X5), ButtonLook::Active);
    assert_eq!(sync_speed_button(&ui, Speed::X1), ButtonLook::Enabled);
    ui.paused = true;
    assert_eq!(sync_speed_button(&ui, Speed::X5), ButtonLook::Enabled);
    assert_eq!(sync_speed_button(&ui, Speed::Paused), ButtonLook::Active);
}

#[test]
fn region_action_click_enqueues_recruit_for_the_players_own_region() {
    let world = world();
    let capital = world.factions[0].capital;
    let client = client_at(&world, capital.0);
    assert_eq!(
        handle_region_action_click(&client.ui, &world, RegionActionKind::RecruitLand),
        Some(Command::Recruit { region: capital, domain: Domain::Land, branch: Branch::Infantry }),
        "the click must have queued exactly one RecruitUnit(Land) for the player's capital"
    );
}

#[test]
fn region_action_click_enqueues_the_players_chosen_branch() {
    let mut world = world();
    world.factions[0].equipment[1].stock = q(100.0);
    let capital = world.factions[0].capital;
    let mut client = client_at(&world, capital.0);
    client.ui.active_branch = Branch::Armour;
    assert_eq!(
        handle_region_action_click(&client.ui, &world, RegionActionKind::RecruitLand),
        Some(Command::Recruit { region: capital, domain: Domain::Land, branch: Branch::Armour }),
        "the click must have queued a RecruitUnit(Land) for whichever branch ActiveBranch currently selects"
    );
}

#[test]
fn region_action_click_on_a_foreign_region_is_not_enqueued() {
    let world = world();
    let client = client_at(&world, world.factions[1].capital.0);
    assert_eq!(
        handle_region_action_click(&client.ui, &world, RegionActionKind::RecruitLand),
        None,
        "a click on a region the player doesn't own must never be queued"
    );
}

#[test]
fn insufficient_equipment_reason_names_the_short_branch() {
    let mut world = world();
    world.factions[0].equipment[1].stock = q(0.0);
    let capital = world.factions[0].capital;
    let reason = RegionActionKind::RecruitLand.reason(&world, FactionId(0), capital, Branch::Armour);
    let reason = reason.expect("armour equipment is exhausted, so RecruitLand must read as disabled");
    assert!(reason.contains("機甲装備"), "the reason must name the specific commodity that is actually short: {reason}");
    assert_eq!(RegionActionKind::RecruitLand.reason(&world, FactionId(0), capital, Branch::Infantry), None);
}

#[test]
fn region_action_click_enqueues_recruit_air_for_the_players_own_region() {
    let world = world();
    let capital = world.factions[0].capital;
    let client = client_at(&world, capital.0);
    assert_eq!(
        handle_region_action_click(&client.ui, &world, RegionActionKind::RecruitAir),
        Some(Command::Recruit { region: capital, domain: Domain::Air, branch: Branch::Infantry }),
        "the click must have queued exactly one RecruitUnit(Air) for the player's capital"
    );
}

#[test]
fn every_obstacle_to_a_region_order_has_its_reason() {
    let reason_in = |world: &World, kind: RegionActionKind| kind.reason(world, FactionId(0), RegionId(3), Branch::Infantry);
    let text = |e: ActionError| Some(action_error_ja(e).to_string());
    let mut w = world();
    assert_eq!(reason_in(&w, RegionActionKind::CancelBuild), text(ActionError::NoConstruction));
    assert_eq!(reason_in(&w, RegionActionKind::BuildInfra), None);
    w.regions[3].construction =
        Some(Construction { project: Project::Port, invested: q(1.0), required: q(4.0) });
    assert_eq!(reason_in(&w, RegionActionKind::BuildInfra), text(ActionError::AlreadyBuilding));
    assert_eq!(reason_in(&w, RegionActionKind::CancelBuild), None);
    w.regions[3].port = q(0.0);
    assert_eq!(reason_in(&w, RegionActionKind::RecruitSea), text(ActionError::NoPort));
    w.regions[3].airfield = None;
    assert_eq!(reason_in(&w, RegionActionKind::RecruitAir), text(ActionError::NoAirfield));
    w.regions[3].airfield = Some(TransportNodeId(3));
    w.factions[0].stock[Good::Machinery.index()] = q(4.9);
    assert_eq!(reason_in(&w, RegionActionKind::RecruitAir), text(ActionError::InsufficientMachinery));
    w.factions[0].manpower = q(9.5);
    assert_eq!(reason_in(&w, RegionActionKind::RecruitLand), text(ActionError::InsufficientManpower));
    w.regions[3].enemy_units[0] = true;
    assert_eq!(reason_in(&w, RegionActionKind::RecruitLand), text(ActionError::RegionContested));
    w.regions[3].owner = FactionId(1);
    assert_eq!(reason_in(&w, RegionActionKind::RecruitLand), text(ActionError::RegionNotOwned));
}

#[test]
fn an_enabled_region_button_is_one_that_acts() {
    let mut w = world();
    w.factions[0].equipment[3].stock = q(0.0);
    let client = client_at(&w, 3);
    let rows = sync_region_action_buttons(&client.ui, &w);
    assert_eq!(rows.len(), 8);
    for (i, row) in rows.iter().enumerate() {
        let command = handle_region_action_click(&client.ui, &w, RegionActionKind::nth(i));
        assert_eq!(row.look == ButtonLook::Enabled, command.is_some(), "{}", row.label);
        assert_eq!(row.reason.is_empty(), command.is_some(), "{}", row.reason);
    }
    assert_eq!(rows[1].reason, "艦艇装備が不足している");
}

#[test]
fn strike_panel_click_enqueues_strike_node_against_a_hostile_airfield() {
    let mut world = world();
    world.regions[4].aircraft_reach[0] = true;
    let client = client_at(&world, 4);
    assert_eq!(
        handle_strike_click(&client.ui, &world, StrikeKind::Airfield),
        Some(Command::Order(Action::StrikeNode { node: TransportNodeId(4) })),
        "the click must have queued exactly one StrikeNode against the enemy airfield"
    );
    assert_eq!(
        handle_strike_click(&client.ui, &world, StrikeKind::Port),
        Some(Command::Order(Action::StrikeNode { node: TransportNodeId(14) }))
    );
}

#[test]
fn strike_panel_targets_an_operational_node_when_the_first_is_wrecked() {
    let mut world = world();
    world.regions[4].aircraft_reach[0] = true;
    let intact = TransportNodeId(world.nodes.len() as u32);
    world.nodes.push(Node { name: "spare airfield".to_string(), region: RegionId(4) });
    world.regions[4].airfield = Some(intact);
    let client = client_at(&world, 4);
    assert_eq!(
        handle_strike_click(&client.ui, &world, StrikeKind::Airfield),
        Some(Command::Order(Action::StrikeNode { node: intact })),
        "the click must target the region's still-operational airfield"
    );
}

#[test]
fn strike_panel_click_on_the_players_own_region_is_not_enqueued() {
    let mut world = world();
    world.regions[3].aircraft_reach[0] = true;
    let client = client_at(&world, 3);
    assert_eq!(
        handle_strike_click(&client.ui, &world, StrikeKind::Airfield),
        None,
        "a strike click on the player's own region must never be queued"
    );
    assert_eq!(
        StrikeKind::Airfield.reason(&world, FactionId(0), RegionId(3)),
        Some(action_error_ja(ActionError::NodeNotHostile))
    );
}

#[test]
fn strike_panel_button_is_disabled_with_reason_when_no_aircraft_can_reach() {
    let world = world();
    let foreign = world.factions[1].capital;
    assert_eq!(
        StrikeKind::Airfield.reason(&world, FactionId(0), foreign),
        Some(action_error_ja(ActionError::NoAircraftInRange)),
        "with no reachable aircraft, the button must be disabled with exactly this reason"
    );
    let client = client_at(&world, foreign.0);
    assert_eq!(handle_strike_click(&client.ui, &world, StrikeKind::Airfield), None);
    let (reason, look) = sync_strike_panel(&client.ui, &world, StrikeKind::Airfield).unwrap();
    assert_eq!(reason, action_error_ja(ActionError::NoAircraftInRange));
    assert_eq!(look, ButtonLook::Disabled);
}

#[test]
fn a_region_without_a_target_cannot_be_struck() {
    let mut world = world();
    world.regions[4].airfield = None;
    world.regions[4].port_node = None;
    assert_eq!(
        StrikeKind::Airfield.reason(&world, FactionId(0), RegionId(4)),
        Some(action_error_ja(ActionError::NoAirfield))
    );
    assert_eq!(StrikeKind::Port.reason(&world, FactionId(0), RegionId(4)), Some(action_error_ja(ActionError::NoPort)));
}

#[test]
fn interdict_panel_button_is_disabled_with_reason_when_no_force_can_reach() {
    let world = world();
    let line = TransportLineId(9);
    assert_eq!(world.nodes[world.lines[9].from.0 as usize].region, RegionId(9));
    assert_eq!(
        interdict_reason(&world, FactionId(0), line),
        Some(action_error_ja(ActionError::NoForceInRange)),
        "with no force of any domain able to reach either endpoint, the button must be disabled with exactly this reason"
    );
    let client = client_at(&world, 9);
    assert_eq!(handle_interdict_click(&client.ui, &world, line), None);
}

#[test]
fn interdict_panel_click_enqueues_interdict_line_against_a_reachable_hostile_line() {
    let world = world();
    let line = TransportLineId(4);
    assert_eq!(world.regions[4].owner, FactionId(1), "line 4 must be faction 1's own");
    assert_eq!(interdict_reason(&world, FactionId(0), line), None);
    let client = client_at(&world, 4);
    assert_eq!(
        handle_interdict_click(&client.ui, &world, line),
        Some(Command::Order(Action::InterdictLine { line })),
        "the click must have queued exactly one InterdictLine against the reachable hostile line"
    );
}

#[test]
fn the_interdict_panel_lists_the_lines_of_others_only() {
    let mut world = world();
    for _ in 0..9 {
        world.lines.push(Line { from: TransportNodeId(4), to: TransportNodeId(5), condition: q(0.4) });
    }
    assert_eq!(lines_touching(&world, FactionId(0), RegionId(3)), Vec::new());
    assert_eq!(lines_touching(&world, FactionId(0), RegionId(4)).len(), 10);
    let client = client_at(&world, 4);
    let panel = sync_interdict_panel(&client.ui, &world).unwrap();
    assert!(panel.rows.len() < 10);
    assert!(!panel.overflow.is_empty());
    assert_eq!(panel.rows[0].line, TransportLineId(4));
    assert_eq!(
        interdict_reason(&world, FactionId(0), TransportLineId(500)),
        Some(action_error_ja(ActionError::InvalidLine))
    );
    assert_eq!(
        interdict_reason(&world, FactionId(0), TransportLineId(3)),
        Some(action_error_ja(ActionError::LineNotHostile))
    );
}

#[test]
fn unit_action_click_resolves_the_correct_slot_and_kind() {
    let world = world();
    let mut client = client(&world, 0);
    client.units.toggle(0);
    client.units.toggle(1);
    let panel = sync_unit_panel(&client, &world).unwrap();
    assert_eq!(
        handle_unit_action_click(&world, &panel.rows, 1, UnitOrder::Hold),
        Some(Command::Order(Action::HoldUnit { unit: UnitId(1) })),
        "the click must queue HoldUnit for exactly the unit in slot 1"
    );
}

#[test]
fn unit_action_click_disband_removes_the_unit() {
    let world = world();
    let mut client = client(&world, 0);
    client.units.toggle(0);
    client.units.toggle(1);
    let panel = sync_unit_panel(&client, &world).unwrap();
    assert_eq!(
        handle_unit_action_click(&world, &panel.rows, 1, UnitOrder::Disband),
        Some(Command::Order(Action::DisbandUnit { unit: UnitId(1) })),
        "the click must queue DisbandUnit for exactly the unit in slot 1"
    );
}

#[test]
fn unit_panel_marks_supply_below_the_attrition_threshold() {
    let mut world = world();
    let mut client = client(&world, 0);
    client.units.toggle(0);
    let before = sync_unit_panel(&client, &world).unwrap();
    assert!(!before.rows[0].text.contains("※損耗中"));
    world.units[0].supply = q(0.5 - 0.1);
    let panel = sync_unit_panel(&client, &world).unwrap();
    assert!(panel.rows[0].text.contains("※損耗中"), "supply below the threshold must be marked, got: {}", panel.rows[0].text);
    assert_eq!(
        panel.rows[0].text,
        "#0 第一師団 [歩兵]\n兵力10.0 装備10.0 組織50 士気1.00 補給0.40※損耗中 経験0.0"
    );
}

#[test]
fn the_unit_panel_shows_six_units_and_counts_the_rest() {
    let mut world = world();
    for i in 0..6 {
        world.units.push(unit(&format!("予備{i}"), 0, Station::Region(RegionId(2))));
    }
    let mut client = client(&world, 0);
    for id in [0, 1, 4, 5, 6, 7, 8, 9] {
        client.units.toggle(id);
    }
    let panel = sync_unit_panel(&client, &world).unwrap();
    assert_eq!(panel.rows.len(), 6);
    assert_eq!(panel.overflow, "...ほか 2 隊");
    world.units[1].alive = false;
    let panel = sync_unit_panel(&client, &world).unwrap();
    assert!(!panel.rows[1].shown);
    assert_eq!(panel.rows[1].hold, ButtonLook::Disabled);
}

#[test]
fn a_unit_among_enemies_cannot_be_reinforced() {
    let mut world = world();
    let station = Station::Region(RegionId(3));
    assert_eq!(reinforce_disabled_reason(&world, FactionId(0), station), None);
    world.regions[3].enemy_units[0] = true;
    assert_eq!(
        reinforce_disabled_reason(&world, FactionId(0), station),
        Some(action_error_ja(ActionError::RegionContested))
    );
}

#[test]
fn a_station_is_named_after_its_place() {
    let world = world();
    assert_eq!(station_label(&world, Station::Region(RegionId(3)), false), "陸軍: 関東");
    assert_eq!(station_label(&world, Station::Sea(SeaZoneId(1)), true), "艦隊: 瀬戸内海（移動中）");
    assert_eq!(station_label(&world, Station::Airfield(TransportNodeId(4)), false), "飛行隊: 信越・北陸");
}

#[test]
fn policy_step_button_click_enqueues_conscription_increase() {
    let world = world();
    let client = client(&world, 0);
    let before = number(world.factions[0].conscription);
    assert_eq!(
        handle_policy_step_click(&client.ui, &world, PolicyField::Conscription, true),
        Some(Command::Order(Action::SetConscription(q((before + 0.05).clamp(0.0, 1.0))))),
        "the click must queue SetConscription at exactly one step above the pre-click value"
    );
}

#[test]
fn a_step_stays_within_the_range_of_its_value() {
    let mut world = world();
    world.factions[0].conscription = q(0.98);
    world.factions[0].civilian_ration = q(0.42);
    world.factions[0].industry_priority[0] = q(0.05);
    world.factions[0].logistics_priority[0] = q(0.5);
    world.factions[0].import_plan[0] = q(3.0);
    let set = |field: PolicyField, up: bool| field.action(&world, FactionId(0), Good::Food, up);
    assert_eq!(set(PolicyField::Conscription, true), Action::SetConscription(q(1.0)));
    assert_eq!(set(PolicyField::Conscription, false), Action::SetConscription(q(0.98 - 0.05)));
    assert_eq!(set(PolicyField::Ration, false), Action::SetCivilianRation(q(0.4)));
    assert_eq!(set(PolicyField::Ration, true), Action::SetCivilianRation(q(0.42 + 0.05)));
    assert_eq!(set(PolicyField::Industry, false), Action::SetIndustryPriority { good: Good::Food, weight: q(0.0) });
    assert_eq!(set(PolicyField::Industry, true), Action::SetIndustryPriority { good: Good::Food, weight: q(0.05 + 0.1) });
    assert_eq!(set(PolicyField::Logistics, true), Action::SetLogisticsPriority { good: Good::Food, weight: q(0.5 + 0.1) });
    assert_eq!(set(PolicyField::Import, false), Action::SetImportPlan { good: Good::Food, rate: q(0.0) });
    assert_eq!(set(PolicyField::Import, true), Action::SetImportPlan { good: Good::Food, rate: q(8.0) });
    assert_eq!(number(current_value(PolicyField::Import, &world.factions[0], Good::Food)), 3.0);
    assert_eq!(number(policy_step(PolicyField::Ration)), 0.05);
    assert_eq!(number(policy_step(PolicyField::Logistics)), 0.1);
    assert_eq!(number(policy_step(PolicyField::Import)), 5.0);
}

#[test]
fn the_fixture_is_sound() {
    let mut broken = world();
    assert!(world_is_valid(&broken));
    broken.regions[2].links.push(Link { to: RegionId(10), kind: LinkKind::Sea });
    assert!(!world_is_valid(&broken));
    let mut broken = world();
    broken.relations[1][2].cooldowns.pop();
    assert!(!world_is_valid(&broken));
    let mut broken = world();
    broken.units[0].station = Station::Airfield(TransportNodeId(20));
    assert!(!world_is_valid(&broken));
    let world = world();
    let mut ui = client(&world, 0).ui;
    assert!(ui_is_known(&ui, &world));
    ui.diplomacy_target = Some(FactionId(3));
    assert!(!ui_is_known(&ui, &world));
    let told = Event::NaturalLanguageAccepted {
        from: FactionId(0),
        to: FactionId(1),
        terms: vec![TreatyTerm::Cede { region: RegionId(10) }],
    };
    assert!(!is_known_event(&world, &told));
    assert!(is_known_event(&world, &Event::WarDeclared { a: FactionId(0), b: FactionId(2) }));
    assert!(!are_known_events(&world, &vec![Event::Mutiny { faction: FactionId(3) }]));
}

#[test]
fn imports_of_other_goods_than_food_and_energy_are_closed() {
    let world = world();
    let mut client = client(&world, 0);
    client.ui.policy_open = true;
    assert_eq!(handle_policy_step_click(&client.ui, &world, PolicyField::Import, true), None);
    client.ui = handle_good_tab_click(client.ui, Good::Food);
    assert_eq!(
        handle_policy_step_click(&client.ui, &world, PolicyField::Import, true),
        Some(Command::Order(Action::SetImportPlan { good: Good::Food, rate: q(5.0) }))
    );
    let panel = sync_policy_panel(&client.ui, &world, &Vec::new()).unwrap();
    assert_eq!(panel.rows[0].text, "徴兵率 [-/=]: 0.30");
    assert_eq!(panel.rows.len(), 5);
    assert_eq!(panel.tabs[Good::Food.index()], ButtonLook::Active);
    assert_eq!(panel.tabs[Good::Steel.index()], ButtonLook::Enabled);
}

#[test]
fn a_change_of_focus_closes_the_other_foci() {
    let mut world = world();
    let mut client = client(&world, 0);
    client.ui.policy_open = true;
    assert_eq!(
        handle_focus_click(&client.ui, &world, NationalFocus::MaritimeTrade),
        Some(Command::Order(Action::SetNationalFocus(NationalFocus::MaritimeTrade)))
    );
    world.factions[0].focus_transition_days = 12;
    let panel = sync_policy_panel(&client.ui, &world, &Vec::new()).unwrap();
    assert_eq!(panel.focus_reason, "方針転換中（あと12日、現在: 技術官僚）");
    assert_eq!(panel.foci[NationalFocus::MaritimeTrade.index()], ButtonLook::Disabled);
    assert_eq!(panel.foci[NationalFocus::Technocracy.index()], ButtonLook::Active);
}

#[test]
fn diplomacy_target_button_click_sets_the_clicked_faction() {
    let world = world();
    let mut client = client(&world, 0);
    client.ui.diplomacy_open = true;
    client.ui.diplomacy_target = Some(FactionId(1));
    let after = handle_diplomacy_target_click(client.ui, FactionId(2));
    assert_eq!(
        after.diplomacy_target,
        Some(FactionId(2)),
        "clicking faction 2's tab must retarget the panel to faction 2, not leave/guess another faction"
    );
    assert_eq!(target_button(&after, FactionId(2)), ButtonLook::Active);
    assert_eq!(target_button(&after, FactionId(1)), ButtonLook::Enabled);
}

#[test]
fn diplomacy_treaty_button_click_enqueues_propose_for_the_clicked_treaty() {
    let world = world();
    let mut client = client(&world, 0);
    client.ui.diplomacy_open = true;
    client.ui.diplomacy_target = Some(FactionId(1));
    assert_eq!(
        handle_treaty_click(&client.ui, &world, Treaty::NonAggression),
        Some(Command::Order(Action::ProposeTreaty { to: FactionId(1), treaty: Treaty::NonAggression }))
    );
}

#[test]
fn diplomacy_accept_click_with_no_pending_proposal_is_not_enqueued() {
    let mut world = world();
    let mut client = client(&world, 0);
    client.ui.diplomacy_open = true;
    client.ui.diplomacy_target = Some(FactionId(1));
    assert_eq!(
        handle_diplomacy_button_click(&mut client, &world, DiplomacyAction::Accept),
        None,
        "accepting with nothing pending must not queue AcceptTreaty"
    );
    world.proposals.push(Proposal { from: FactionId(1), to: FactionId(0), treaty: Treaty::Ceasefire });
    assert_eq!(
        handle_diplomacy_button_click(&mut client, &world, DiplomacyAction::Accept),
        Some(Command::Order(Action::AcceptTreaty { from: FactionId(1), treaty: Treaty::Ceasefire }))
    );
    assert_eq!(
        handle_diplomacy_button_click(&mut client, &world, DiplomacyAction::Reject),
        Some(Command::Order(Action::RejectTreaty { from: FactionId(1), treaty: Treaty::Ceasefire }))
    );
}

#[test]
fn a_treaty_in_force_or_refused_lately_cannot_be_proposed() {
    let mut world = world();
    world.relations[0][1].treaties[Treaty::Alliance.index()] = true;
    world.relations[0][1].cooldowns[Treaty::PortAccess.index()] = 3;
    assert_eq!(treaty_propose_reason(&world, FactionId(0), FactionId(1), Treaty::Alliance), Some("既に締結済み"));
    assert_eq!(treaty_propose_reason(&world, FactionId(0), FactionId(1), Treaty::PortAccess), Some("クールダウン中"));
    assert_eq!(treaty_propose_reason(&world, FactionId(0), FactionId(1), Treaty::Ceasefire), None);
}

#[test]
fn the_diplomacy_panel_describes_the_counterpart() {
    let mut world = world();
    world.relations[0][2].stance = Stance::Ceasefire;
    world.text_proposals.push(TextProposal { from: FactionId(0), to: FactionId(2), text: "和平を".to_string() });
    let mut client = client(&world, 0);
    assert!(matches!(sync_diplomacy_panel(&client, &world, &Vec::new()), DiplomacyPanel::Closed));
    client.ui = handle_diplomacy_toggle_click(client.ui, &world);
    assert_eq!(client.ui.diplomacy_target, Some(FactionId(1)));
    client.ui.diplomacy_target = Some(FactionId(2));
    let refused = vec![Rejection { target: RejectionTarget::Diplomacy, error: ActionError::InvalidValue }];
    match sync_diplomacy_panel(&client, &world, &refused) {
        DiplomacyPanel::Open(c) => {
            assert_eq!(c.status, "対象: 西国同盟   関係: 停戦   感情: -20");
            assert_eq!(c.declare_war, ButtonLook::Enabled);
            assert_eq!(c.compose, ButtonLook::Disabled);
            assert_eq!(c.compose_status, "送信済み（返答待ち）: 「和平を」");
            assert_eq!(c.answer_reason, "相手からの提案がない");
            assert_eq!(c.rejection, "!! 却下 !!\n指定した値が範囲外");
        }
        _ => panic!("the panel must be open"),
    }
    client.ui.diplomacy_target = None;
    assert!(matches!(sync_diplomacy_panel(&client, &world, &refused), DiplomacyPanel::NoCounterpart { .. }));
}

#[test]
fn war_is_declared_from_a_ceasefire_only() {
    let mut world = world();
    let mut client = client(&world, 0);
    client.ui.diplomacy_open = true;
    client.ui.diplomacy_target = Some(FactionId(1));
    assert_eq!(handle_diplomacy_button_click(&mut client, &world, DiplomacyAction::DeclareWar), None);
    world.relations[0][1].stance = Stance::Ceasefire;
    assert_eq!(
        handle_diplomacy_button_click(&mut client, &world, DiplomacyAction::DeclareWar),
        Some(Command::Order(Action::DeclareWar { to: FactionId(1) }))
    );
}

#[test]
fn the_most_binding_treaty_is_broken_first() {
    let mut world = world();
    assert_eq!(current_breakable_treaty(&world, FactionId(0), FactionId(1)), Treaty::Alliance);
    world.relations[0][1].trade_agreement = true;
    assert_eq!(current_breakable_treaty(&world, FactionId(0), FactionId(1)), Treaty::TradeAgreement);
    world.relations[0][1].port_access = true;
    assert_eq!(current_breakable_treaty(&world, FactionId(0), FactionId(1)), Treaty::PortAccess);
    world.relations[0][1].stance = Stance::NonAggression;
    assert_eq!(current_breakable_treaty(&world, FactionId(0), FactionId(1)), Treaty::NonAggression);
}

#[test]
fn branch_tab_click_selects_that_branch() {
    let client = client(&world(), 0);
    let after = handle_branch_tab_click(client.ui, Branch::Armour);
    assert_eq!(after.active_branch, Branch::Armour, "a click on the Armour tab must select Branch::Armour");
}

#[test]
fn branch_tab_highlights_the_active_branch() {
    let mut client = client(&world(), 0);
    client.ui.active_branch = Branch::Artillery;
    for branch in [Branch::Infantry, Branch::Armour, Branch::Artillery] {
        let expected = if branch == Branch::Artillery { ButtonLook::Active } else { ButtonLook::Enabled };
        assert_eq!(sync_branch_tab(&client.ui, branch), expected, "tab {branch:?}");
    }
}

#[test]
fn a_panel_shows_its_own_rejections() {
    let refused = vec![
        Rejection { target: RejectionTarget::Policy, error: ActionError::InvalidValue },
        Rejection { target: RejectionTarget::Unit, error: ActionError::Pinned },
        Rejection { target: RejectionTarget::Policy, error: ActionError::NotOwner },
    ];
    assert_eq!(
        panel_rejection_text(&refused, RejectionTarget::Policy),
        "!! 却下 !!\n指定した値が範囲外\n自分の部隊・地域ではない"
    );
    assert_eq!(panel_rejection_text(&refused, RejectionTarget::Diplomacy), "");
}

#[test]
fn nl_compose_activation_key_is_not_collected_as_text() {
    let world = world();
    let mut client = client(&world, 0);
    client.ui.diplomacy_open = true;
    client.ui.diplomacy_target = Some(FactionId(1));
    client.ui.composing = true;
    client.ui.just_activated = true;
    let none = nl_compose_text_input(&mut client, &keys(&[]), &vec!["t".to_string()], 200);
    assert_eq!(none, None);
    assert_eq!(client.draft, "", "the activation keypress must not be collected as text");
    assert!(!client.ui.just_activated, "the activation flag must be consumed after one run");
    nl_compose_text_input(&mut client, &keys(&[]), &vec!["h".to_string()], 200);
    assert_eq!(client.draft, "h", "a real keystroke after activation must still be collected");
}

#[test]
fn a_draft_is_edited_limited_and_sent() {
    let world = world();
    let mut client = client(&world, 0);
    client.ui.diplomacy_target = Some(FactionId(2));
    client.ui.composing = true;
    let max = world.balance.proposal_max_chars;
    nl_compose_text_input(&mut client, &keys(&[]), &vec!["港湾".to_string(), "利用を認めて".to_string()], max);
    assert_eq!(client.draft, "港湾利用を");
    nl_compose_text_input(&mut client, &keys(&[Key::Backspace]), &Vec::new(), max);
    assert_eq!(client.draft, "港湾利用");
    assert_eq!(
        nl_compose_text_input(&mut client, &keys(&[Key::Enter]), &Vec::new(), max),
        Some(Command::Order(Action::ProposeInNaturalLanguage { to: FactionId(2), text: "港湾利用".to_string() }))
    );
    assert!(!client.ui.composing);
    assert_eq!(client.draft, "");
}

#[test]
fn escape_ends_composing_without_sending() {
    let world = world();
    let mut client = client(&world, 0);
    client.ui.diplomacy_target = Some(FactionId(2));
    client.ui.composing = true;
    client.draft = "和平".to_string();
    assert_eq!(nl_compose_text_input(&mut client, &keys(&[Key::Escape, Key::Enter]), &Vec::new(), 10), None);
    assert!(!client.ui.composing);
    assert_eq!(client.draft, "");
}

#[test]
fn keys_set_the_pace() {
    let world = world();
    let mut client = client(&world, 0);
    assert!(client.ui.paused);
    keyboard_input(&mut client, &keys(&[Key::Space]), 0, &world);
    assert!(!client.ui.paused);
    keyboard_input(&mut client, &keys(&[Key::Digit3]), 0, &world);
    assert_eq!(client.ui.last_active, Speed::X20);
    keyboard_input(&mut client, &keys(&[Key::Space]), 0, &world);
    assert!(client.ui.paused);
    assert_eq!(client.ui.last_active, Speed::X20);
}

#[test]
fn one_panel_opens_at_a_time() {
    let world = world();
    let mut client = client(&world, 0);
    keyboard_input(&mut client, &keys(&[Key::P]), 0, &world);
    assert!(client.ui.policy_open && !client.ui.diplomacy_open);
    keyboard_input(&mut client, &keys(&[Key::D]), 0, &world);
    assert!(!client.ui.policy_open && client.ui.diplomacy_open);
    assert_eq!(client.ui.diplomacy_target, Some(FactionId(1)));
}

#[test]
fn the_counterparts_come_round_without_the_dead() {
    let mut world = world();
    world.factions.push(faction("残党", 0));
    world.factions[2].alive = false;
    for r in &mut world.regions {
        r.enemy_units.push(false);
        r.aircraft_reach.push(false);
        r.force_reach.push(false);
    }
    for z in &mut world.sea_zones {
        z.enemy_fleets.push(false);
    }
    world.relations = (0..4).map(|_| (0..4).map(|_| relation(Stance::War)).collect()).collect();
    let mut client = client(&world, 0);
    client.ui = handle_diplomacy_toggle_click(client.ui, &world);
    assert_eq!(client.ui.diplomacy_target, Some(FactionId(1)));
    keyboard_input(&mut client, &keys(&[Key::V]), 0, &world);
    assert_eq!(client.ui.diplomacy_target, Some(FactionId(3)));
    keyboard_input(&mut client, &keys(&[Key::V]), 0, &world);
    assert_eq!(client.ui.diplomacy_target, Some(FactionId(1)));
}

#[test]
fn digits_order_from_the_open_menu_and_close_it() {
    let world = world();
    let mut client = client(&world, 0);
    client.ui.menu = Some(RegionId(3));
    let commands = keyboard_input(&mut client, &keys(&[Key::Digit4]), 0, &world);
    assert_eq!(
        commands,
        vec![Command::Order(Action::Build { region: RegionId(3), project: Project::Infrastructure })]
    );
    assert_eq!(client.ui.menu, None);
    assert!(client.ui.paused, "a digit of the menu sets no speed");
    client.ui.menu = Some(RegionId(3));
    assert_eq!(keyboard_input(&mut client, &keys(&[Key::Escape]), 0, &world), Vec::new());
    assert_eq!(client.ui.menu, None);
}

#[test]
fn keys_of_the_diplomacy_panel_give_orders() {
    let mut world = world();
    world.proposals.push(Proposal { from: FactionId(1), to: FactionId(0), treaty: Treaty::TradeAgreement });
    assert_eq!(incoming_treaty(&world, FactionId(1), FactionId(0)), Some(Treaty::TradeAgreement));
    assert_eq!(incoming_treaty(&world, FactionId(0), FactionId(1)), None);
    let mut client = client(&world, 0);
    client.ui = handle_diplomacy_toggle_click(client.ui, &world);
    assert_eq!(
        keyboard_input(&mut client, &keys(&[Key::A]), 0, &world),
        vec![Command::Order(Action::AcceptTreaty { from: FactionId(1), treaty: Treaty::TradeAgreement })]
    );
    assert_eq!(
        keyboard_input(&mut client, &keys(&[Key::Digit1]), 0, &world),
        vec![Command::Order(Action::ProposeTreaty { to: FactionId(1), treaty: Treaty::nth(0) })]
    );
    assert_eq!(
        keyboard_input(&mut client, &keys(&[Key::W]), 0, &world),
        vec![Command::Order(Action::DeclareWar { to: FactionId(1) })]
    );
    keyboard_input(&mut client, &keys(&[Key::T]), 0, &world);
    assert!(client.ui.composing && client.ui.just_activated);
    assert_eq!(keyboard_input(&mut client, &keys(&[Key::W, Key::Space, Key::M]), 0, &world), Vec::new());
    assert!(client.ui.paused, "while a text is composed, no other key works");
}

#[test]
fn an_observer_watches_only() {
    let world = world();
    let mut client = start(&world, &None, &None);
    let all = [Key::H, Key::J, Key::K, Key::U, Key::Minus, Key::Equal, Key::F, Key::D, Key::P];
    assert_eq!(keyboard_input(&mut client, &keys(&all), 0, &world), Vec::new());
    assert!(!client.ui.diplomacy_open);
}

#[test]
fn keys_order_the_selected_units() {
    let mut world = world();
    world.units[1].delegated = true;
    let mut client = client(&world, 0);
    client.units.toggle(1);
    client.units.toggle(0);
    assert_eq!(
        keyboard_input(&mut client, &keys(&[Key::H]), 0, &world),
        vec![
            Command::Order(Action::HoldUnit { unit: UnitId(0) }),
            Command::Order(Action::HoldUnit { unit: UnitId(1) }),
        ]
    );
    assert_eq!(
        keyboard_input(&mut client, &keys(&[Key::U]), 0, &world),
        vec![Command::Delegate(UnitId(0)), Command::Undelegate(UnitId(1))]
    );
}

#[test]
fn control_leaves_the_minus_key_to_the_camera() {
    let world = world();
    let mut client = client(&world, 0);
    let step = Command::Order(Action::SetConscription(q(0.3 - 0.05)));
    assert_eq!(keyboard_input(&mut client, &keys(&[Key::Minus]), 0, &world), vec![step]);
    let held = Keys { pressed: vec![Key::Minus], ctrl: true };
    assert_eq!(keyboard_input(&mut client, &held, 0, &world), Vec::new());
}

#[test]
fn the_newspaper_is_turned_page_by_page() {
    let world = world();
    let mut client = client(&world, 0);
    keyboard_input(&mut client, &keys(&[Key::N]), 3, &world);
    assert!(client.ui.newspaper_open);
    keyboard_input(&mut client, &keys(&[Key::ArrowLeft]), 3, &world);
    assert_eq!(client.ui.newspaper_viewing, Some(1));
    keyboard_input(&mut client, &keys(&[Key::ArrowLeft]), 3, &world);
    keyboard_input(&mut client, &keys(&[Key::ArrowLeft]), 3, &world);
    assert_eq!(client.ui.newspaper_viewing, Some(0));
    keyboard_input(&mut client, &keys(&[Key::ArrowRight]), 3, &world);
    assert_eq!(client.ui.newspaper_viewing, Some(1));
    keyboard_input(&mut client, &keys(&[Key::ArrowRight]), 3, &world);
    assert_eq!(client.ui.newspaper_viewing, None, "the newest issue is followed");
}

#[test]
fn the_good_turns_on_unless_a_panel_key_comes_first() {
    let world = world();
    let mut player = client(&world, 0);
    keyboard_input(&mut player, &keys(&[Key::D, Key::G]), 0, &world);
    assert_eq!((player.ui.diplomacy_open, player.ui.active_good), (true, Good::Steel));
    let mut player = client(&world, 0);
    keyboard_input(&mut player, &keys(&[Key::P, Key::G]), 0, &world);
    assert_eq!((player.ui.policy_open, player.ui.active_good), (true, Good::Steel));
    let mut player = client(&world, 0);
    let commands = keyboard_input(&mut player, &keys(&[Key::G, Key::Quote]), 0, &world);
    assert_eq!(player.ui.active_good, Good::Steel.next());
    assert_eq!(
        commands,
        vec![Command::Order(Action::SetIndustryPriority { good: Good::Steel.next(), weight: q(0.5 + 0.1) })],
        "the step is for the good turned to"
    );
    let mut observer = start(&world, &None, &None);
    keyboard_input(&mut observer, &keys(&[Key::D, Key::G]), 0, &world);
    assert_eq!(observer.ui.active_good, Good::Steel.next());
}

#[test]
fn tab_goes_through_all_factions() {
    let world = world();
    let mut client = client(&world, 2);
    assert_eq!(client.ui.selected_faction, FactionId(2));
    keyboard_input(&mut client, &keys(&[Key::Tab]), 0, &world);
    assert_eq!(client.ui.selected_faction, FactionId(0));
    keyboard_input(&mut client, &keys(&[Key::Tab]), 0, &world);
    assert_eq!(client.ui.selected_faction, FactionId(1));
}

#[test]
fn buttons_are_a_second_way_to_what_keys_do() {
    let world = world();
    let mut region = client_at(&world, 3);
    for (kind, key) in [
        (RegionActionKind::RecruitLand, Key::Digit1),
        (RegionActionKind::BuildInfra, Key::Digit4),
        (RegionActionKind::BuildCapacity, Key::Digit6),
    ] {
        let clicked = handle_region_action_click(&region.ui, &world, kind);
        assert!(clicked.is_some(), "{kind:?}");
        region.ui.menu = Some(RegionId(3));
        assert_eq!(keyboard_input(&mut region, &keys(&[key]), 0, &world), vec![clicked.unwrap()]);
    }
    let mut client = client(&world, 0);
    let stepped = handle_policy_step_click(&client.ui, &world, PolicyField::Industry, true).unwrap();
    assert_eq!(keyboard_input(&mut client, &keys(&[Key::Quote]), 0, &world), vec![stepped]);
    let sped = handle_speed_button_click(client.ui, Speed::X20);
    keyboard_input(&mut client, &keys(&[Key::Digit3]), 0, &world);
    assert_eq!((client.ui.last_active, client.ui.paused), (sped.last_active, sped.paused));
    client.ui.diplomacy_open = true;
    client.ui.diplomacy_target = Some(FactionId(1));
    let proposed = handle_treaty_click(&client.ui, &world, Treaty::Ceasefire).unwrap();
    assert_eq!(keyboard_input(&mut client, &keys(&[Key::Digit1]), 0, &world), vec![proposed]);
}

/// Where the map of `world()` puts everything: the regions in a row, the sea zones below it.
fn layout(world: &World) -> MapLayout {
    MapLayout {
        regions: world.regions.iter().map(|r| r.position).collect(),
        radii: vec![q(20.0); 10],
        zones: vec![at(50.0, -100.0), at(800.0, -100.0)],
    }
}

fn at(x: f32, y: f32) -> Point {
    Point { x: q(x), y: q(y) }
}

fn click(x: f32, y: f32, units: &[(u32, f32, f32)]) -> MapClick {
    let units = units.iter().map(|&(id, x, y)| Marker { id, at: at(x, y) }).collect();
    MapClick { over_ui: false, at: at(x, y), zoom: q(1.0), units }
}

#[test]
fn a_click_selects_the_nearest_own_unit() {
    let world = world();
    let mut client = client(&world, 0);
    let click = click(302.0, 0.0, &[(0, 311.0, 0.0), (1, 305.0, 4.0), (2, 302.0, 1.0)]);
    assert_eq!(map_click_select(&mut client, &world, &layout(&world), &click), Vec::new());
    assert_eq!(client.units.len(), 1);
    assert!(client.units.contains(1));
    map_click_select(&mut client, &world, &layout(&world), &click);
    assert_eq!(client.units.len(), 0, "a second click takes the unit out again");
}

#[test]
fn a_click_on_the_ground_selects_it_or_sends_the_units_there() {
    let world = world();
    let mut client = client(&world, 0);
    let ground = click(402.0, 0.0, &[(0, 417.0, 0.0)]);
    assert_eq!(map_click_select(&mut client, &world, &layout(&world), &ground), Vec::new());
    assert_eq!(client.ui.selected_region, Some(RegionId(4)));
    let sea = click(801.0, -100.0, &[]);
    map_click_select(&mut client, &world, &layout(&world), &sea);
    assert_eq!(client.ui.selected_region, None);
    assert_eq!(client.ui.selected_sea_zone, Some(SeaZoneId(1)));
    let nothing = click(800.0, -124.0, &[]);
    map_click_select(&mut client, &world, &layout(&world), &nothing);
    assert_eq!(client.ui.selected_sea_zone, None, "a zone of three coasts reaches 23 far");
    client.units.toggle(0);
    client.units.toggle(1);
    assert_eq!(
        map_click_select(&mut client, &world, &layout(&world), &ground),
        vec![
            Command::Order(Action::MoveUnit { unit: UnitId(0), to: Station::Region(RegionId(4)) }),
            Command::Order(Action::MoveUnit { unit: UnitId(1), to: Station::Region(RegionId(4)) }),
        ]
    );
}

#[test]
fn a_click_on_a_panel_is_no_click_on_the_map() {
    let world = world();
    let mut client = client(&world, 0);
    let click = MapClick { over_ui: true, ..click(402.0, 0.0, &[]) };
    assert_eq!(map_click_select(&mut client, &world, &layout(&world), &click), Vec::new());
    assert_eq!(client.ui.selected_region, None);
}

#[test]
fn the_menu_opens_on_own_regions_only() {
    let world = world();
    let client = client(&world, 0);
    let own = at(302.0, 0.0);
    let foreign = at(502.0, 0.0);
    assert_eq!(map_right_click_menu(client.ui, &world, false, &layout(&world), own).menu, Some(RegionId(3)));
    assert_eq!(map_right_click_menu(client.ui, &world, true, &layout(&world), own).menu, None);
    assert_eq!(map_right_click_menu(client.ui, &world, false, &layout(&world), foreign).menu, None);
}

#[test]
fn a_short_way_of_the_mouse_is_a_click() {
    assert!(is_click(at(7.0, 7.0), at(7.0, 7.0)));
    assert!(is_click(at(7.0, 7.0), at(7.0, 11.0)));
    assert!(!is_click(at(7.0, 7.0), at(10.0, 10.0)));
}

#[test]
fn the_unit_click_radius_tracks_the_drawn_marker_size() {
    for zoom in [0.5f32, 1.0, 3.3, 8.0] {
        let click_radius = number(unit_click_radius(q(zoom)));
        assert!(
            (click_radius - 14.0 * zoom).abs() < 1e-4,
            "the click radius must scale with zoom exactly as the marker does: at zoom {zoom} expected {}, got {click_radius}",
            14.0 * zoom
        );
    }
    let world = world();
    let mut client = client(&world, 0);
    let far = MapClick { zoom: q(3.3), ..click(302.0, 0.0, &[(0, 347.0, 0.0)]) };
    map_click_select(&mut client, &world, &layout(&world), &far);
    assert!(client.units.contains(0), "a marker that can be seen can be clicked");
}

fn picture(trigger: ScreenshotTrigger) -> ScreenshotConfig {
    ScreenshotConfig {
        path: "shot.png".to_string(),
        trigger,
        open_diplomacy: true,
        open_newspaper: true,
        open_policy: false,
        map_mode: None,
        industry_good: Some(Good::Arms),
        select_region: Some(RegionId(2)),
        select_units: true,
        camera_focus_region: None,
        camera_zoom: q(1.0),
        debug_force_blank: false,
    }
}

#[test]
fn a_player_starts_paused_and_an_observer_running() {
    let world = world();
    assert!(client(&world, 1).ui.paused);
    assert!(!start(&world, &None, &None).ui.paused);
    assert_eq!(start(&world, &None, &None).ui.selected_faction, FactionId(0));
    assert_eq!(client(&world, 1).ui.selected_faction, FactionId(1));
    let replayed = Some(PlayConfig {
        player: FactionId(1),
        record: None,
        replay: Some(Replay { layers: Vec::new(), days: Vec::new() }),
        delegate_military: false,
    });
    assert!(!start(&world, &None, &replayed).ui.paused);
    assert_eq!(start(&world, &None, &None).ui.active_good, Good::Steel);
}

#[test]
fn a_picture_sets_the_client_up() {
    let world = world();
    let day = start(&world, &Some(picture(ScreenshotTrigger::AtDay(9))), &play(0)).ui;
    assert!(!day.paused);
    assert_eq!(day.last_active, Speed::X20);
    assert!(day.diplomacy_open && day.newspaper_open && !day.policy_open);
    assert_eq!(day.diplomacy_target, Some(FactionId(1)));
    assert_eq!(day.active_good, Good::Arms);
    assert_eq!(day.selected_region, Some(RegionId(2)));
    let frames = start(&world, &Some(picture(ScreenshotTrigger::AfterFrames(9))), &play(0)).ui;
    assert!(frames.paused);
    assert_eq!(frames.last_active, Speed::X1);
}

#[test]
fn a_picture_selects_the_living_units_of_the_player() {
    let mut world = world();
    world.units[0].alive = false;
    let wanted = Some(picture(ScreenshotTrigger::AtDay(9)));
    let mut client = client(&world, 0);
    sync_debug_selected_units(&wanted, None, &world, &mut client.units);
    assert_eq!(client.units.len(), 0);
    sync_debug_selected_units(&wanted, Some(FactionId(0)), &world, &mut client.units);
    assert_eq!(client.units.len(), 1);
    assert!(client.units.contains(1));
    sync_debug_selected_units(&None, Some(FactionId(0)), &world, &mut client.units);
    assert_eq!(client.units.len(), 1);
}

#[test]
fn a_recording_starts_only_where_a_file_is_named() {
    assert!(start_journal(7, &play(0)).record.is_none());
    let recorded = Some(PlayConfig {
        player: FactionId(0),
        record: Some("run.json".to_string()),
        replay: None,
        delegate_military: true,
    });
    let journal = start_journal(7, &recorded);
    assert_eq!(journal.record.map(|days| days.len()), Some(0));
    assert_eq!(journal.news.period_start, 7);
}

#[test]
fn the_start_is_announced() {
    assert_eq!(window_title("mvp"), "Archipelago — mvp");
    assert_eq!(
        greeting_text(&world()),
        "archipelago-game: starting with 10 regions, 2 sea zones, 3 factions, 4 initial units"
    );
}
