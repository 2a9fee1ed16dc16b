use archipelago_game::client::{Client, Key, Keys, Speed, Ui};
use archipelago_game::event_text::{format_event, node_kind_ja, Event, StrikeOutcome};
use archipelago_game::faction_text::{group_annotation, update_faction_panel, update_top_bar, update_top_bar_player_stats};
use archipelago_game::info_text::{
    update_event_log, update_inspect_panel, update_newspaper_panel, update_player_panel,
};
use archipelago_game::layout::region_positions;
use archipelago_game::map_geometry::{compute_region_radii, sea_zone_centers};
use archipelago_game::map_mode::{
    band_of, format_cut_points, good_hue, industry_fill, industry_thresholds, legend_entries, legend_header,
    legend_row_click, legend_row_text, mode_button, population_fill, population_thresholds, terrain_fill, unrest_fill,
    MapMode, Mix, Share, MODE_LEGEND_ROWS,
};
use archipelago_game::keyboard::keyboard_input;
use archipelago_game::map_setup::{
    is_dense, links_to_draw, sea_zone_radius, significant_regions, station_position, DrawnLink,
};
use archipelago_game::newspaper::{issue_due, publish_issue, Article, NewspaperState};
use archipelago_game::overlay::{
    blockade_revealed, blockades_need_redraw, construction_marker, link_look, link_style, ring_color, supply_ring,
    BlockadeState, Depth, Flow, Paint, PortBlockade, Route,
};
use archipelago_game::palette::{faction_color, neutral, Rgb, Unit01};
use archipelago_game::quantity::Quantity;
use archipelago_game::rejection::{action_error_ja, rejection_target_ja, rejection_target_of, ActionError, Rejection, RejectionTarget};
use archipelago_game::screenshot::{ScreenshotConfig, ScreenshotTrigger};
use archipelago_game::sim_control::{
    begin_frame, day_target, end_day, keep_day, next_step, trim_log, DayOrders, DayReport, Refusal, Step,
};
use archipelago_game::startup::{start, start_journal, PlayConfig};
use archipelago_game::types::{
    Action, FactionId, Good, NationalFocus, Project, RegionId, SeaZoneId, Station, TransportLineId, TransportNodeId, Treaty,
    TreatyTerm, UnitId,
};
use archipelago_game::visuals::{
    air_superiority_fill, owner_border, political_fill_color, region_label_visible, sea_zone_fill, sync_region_visuals,
    unit_look, unit_marker_shape, Holding, RegionFill, Shape, Slot,
};
use archipelago_game::world::{
    Balance, Branch, Construction, EquipmentStock, Faction, Group, Labels, Line, Link, LinkKind, Node, NodeKind,
    Point, Region, Relation, SeaZone, Stance, Terrain, Unit, World,
};

fn q(x: f32) -> Quantity {
    Quantity { bits: x.to_bits() }
}

fn region(name: &str, owner: u32, index: u32) -> Region {
    Region {
        name: name.to_string(),
        owner: FactionId(owner),
        occupier: None,
        occupation: q(0.0),
        terrain: Terrain::Plain,
        position: Point { x: q(100.0 * index as f32), y: q(0.0) },
        links: Vec::new(),
        population: q(50.0 + 10.0 * index as f32),
        capacity: (0..6).map(|g| q(1.0 + index as f32 + 0.5 * g as f32)).collect(),
        infrastructure: q(0.5),
        port: q(1.0),
        blockaded: false,
        unrest: q(0.0),
        devastation: q(0.0),
        supply: q(1.0),
        throughput: q(8.0),
        import_flow: q(0.0),
        construction: None,
        airfield: Some(TransportNodeId(index)),
        port_node: Some(TransportNodeId(10 + index)),
        enemy_units: vec![false; 3],
        aircraft_reach: vec![false; 3],
        force_reach: vec![false; 3],
        air_superiority: vec![q(0.0); 3],
    }
}

const MUTINY_THRESHOLD: f32 = 35.0;
const STRIKE_THRESHOLD: f32 = 40.0;
const PROTEST_THRESHOLD: f32 = 38.0;
const OTHER_THRESHOLD: f32 = 30.0;

fn faction(name: &str, capital: u32) -> Faction {
    let stock_of = |label: &str| EquipmentStock { label: label.to_string(), stock: q(30.0) };
    Faction {
        name: name.to_string(),
        alive: true,
        capital: RegionId(capital),
        manpower: q(40.0),
        stock: vec![q(120.0); 6],
        equipment: vec![
            stock_of("歩兵装備"),
            stock_of("機甲装備"),
            stock_of("砲兵装備"),
            stock_of("艦艇装備"),
            stock_of("航空装備"),
        ],
        stability: q(60.0),
        war_support: q(55.0),
        shortage: q(0.0),
        conscription: q(0.3),
        civilian_ration: q(0.9),
        industry_priority: vec![q(0.5); 6],
        logistics_priority: vec![q(0.5); 6],
        import_plan: vec![q(0.0); 6],
        national_focus: NationalFocus::Technocracy,
        focus_transition_days: 0,
        group_support: vec![q(60.0); 7],
    }
}

fn unit(name: &str, owner: u32, station: Station) -> Unit {
    Unit {
        name: name.to_string(),
        owner: FactionId(owner),
        alive: true,
        station,
        branch: Some(Branch::Infantry),
        manpower: q(10.0),
        equipment: q(10.0),
        organization: q(50.0),
        morale: q(1.0),
        supply: q(1.0),
        experience: q(0.0),
        in_transit: false,
        delegated: false,
    }
}

fn relation(stance: Stance) -> Relation {
    Relation {
        stance,
        opinion: q(-20.0),
        treaties: vec![false; 6],
        cooldowns: vec![0; 6],
        military_access: false,
        port_access: false,
        trade_agreement: false,
    }
}

/// Three factions at war with each other on ten regions: faction 0 has regions 0 to 3, faction 1 has
/// regions 4 to 6, faction 2 the rest. Nobody has an air unit, and only regions 4 and 5 are in reach of
/// faction 0.
fn world() -> World {
    let names = ["北海道", "東北", "北関東", "関東", "信越・北陸", "東海", "近畿", "中国", "四国", "九州"];
    let owners = [0, 0, 0, 0, 1, 1, 1, 2, 2, 2];
    let mut regions: Vec<Region> = (0..10).map(|i| region(names[i], owners[i], i as u32)).collect();
    for i in 0..10u32 {
        if i > 0 {
            regions[i as usize].links.push(Link { to: RegionId(i - 1), kind: LinkKind::Rail });
        }
        if i < 9 {
            regions[i as usize].links.push(Link { to: RegionId(i + 1), kind: LinkKind::Rail });
        }
    }
    regions[4].force_reach[0] = true;
    regions[5].force_reach[0] = true;
    let mut nodes = Vec::new();
    for kind in ["飛行場", "港"] {
        for i in 0..10u32 {
            nodes.push(Node { name: format!("{}{kind}", names[i as usize]), region: RegionId(i) });
        }
    }
    let lines = (0..10)
        .map(|i| Line { from: TransportNodeId(i), to: TransportNodeId(10 + i), condition: q(1.0) })
        .collect();
    let relations = (0..3)
        .map(|a| (0..3).map(|b| relation(if a == b { Stance::Alliance } else { Stance::War })).collect())
        .collect();
    World {
        day: 0,
        regions,
        sea_zones: vec![
            SeaZone {
                name: "津軽海峡".to_string(),
                coast: vec![RegionId(0), RegionId(1)],
                control: vec![q(0.0); 3],
                enemy_fleets: vec![false; 3],
            },
            SeaZone {
                name: "瀬戸内海".to_string(),
                coast: vec![RegionId(7), RegionId(8), RegionId(9)],
                control: vec![q(0.0); 3],
                enemy_fleets: vec![false; 3],
            },
        ],
        factions: vec![faction("関東府", 3), faction("近畿連合", 6), faction("西国同盟", 9)],
        units: vec![
            unit("第一師団", 0, Station::Region(RegionId(3))),
            unit("第二師団", 0, Station::Region(RegionId(3))),
            unit("第三師団", 1, Station::Region(RegionId(6))),
            unit("第四師団", 2, Station::Region(RegionId(9))),
        ],
        nodes,
        lines,
        relations,
        proposals: Vec::new(),
        text_proposals: Vec::new(),
        balance: Balance {
            unit_manpower: q(10.0),
            unit_equipment: q(10.0),
            air_unit_machinery_cost: q(5.0),
            attrition_supply_threshold: q(0.5),
            regime_change_threshold: q(25.0),
            mutiny_threshold: q(MUTINY_THRESHOLD),
            strike_threshold: q(STRIKE_THRESHOLD),
            protest_threshold: q(PROTEST_THRESHOLD),
            capital_flight_threshold: q(OTHER_THRESHOLD),
            separatism_threshold: q(OTHER_THRESHOLD),
            citizens_shortage_penalty: q(20.0),
            labor_shortage_penalty: q(10.0),
            government_shortage_penalty: q(8.0),
            civilian_ration_min: q(0.4),
            civilian_ration_max: q(1.2),
            proposal_max_chars: 5,
            newspaper_interval_days: 30,
        },
        labels: Labels {
            goods: ["食料", "エネルギー", "鉄鋼", "機械", "弾薬", "装備"].map(String::from).to_vec(),
            branches: vec!["歩兵".to_string(), "機甲".to_string(), "砲兵".to_string()],
            foci: ["武力統一", "経済圏", "同盟網", "海洋貿易", "技術官僚", "専守防衛"].map(String::from).to_vec(),
            groups: ["中央政府", "官僚", "軍部", "財界", "労働者", "市民", "地方政府"].map(String::from).to_vec(),
        },
    }
}

fn play(player: u32) -> Option<PlayConfig> {
    Some(PlayConfig { player: FactionId(player), record: None, replay: None, delegate_military: false })
}

/// A client that plays a faction.
fn client(world: &World, player: u32) -> Client {
    start(world, &None, &play(player))
}

/// A client that plays faction 0, with a region selected.
fn client_at(world: &World, region: u32) -> Client {
    let mut client = client(world, 0);
    client.ui.selected_region = Some(RegionId(region));
    client
}

fn keys(pressed: &[Key]) -> Keys {
    Keys { pressed: pressed.to_vec(), ctrl: false }
}

const ALL_MODES: [MapMode; 6] =
    [MapMode::Political, MapMode::Terrain, MapMode::Population, MapMode::Industry, MapMode::Unrest, MapMode::Supply];

fn number(x: Quantity) -> f32 {
    f32::from_bits(x.bits)
}

#[test]
fn all_keys_matches_every_modes_own_key() {
    for (i, &mode) in ALL_MODES.iter().enumerate() {
        assert_eq!(mode.key(), MapMode::ALL_KEYS[i], "ALL_KEYS must list every MapMode's own key() in ALL_MODES order");
    }
    assert_eq!(MapMode::from_key(MapMode::Terrain.key()), Some(MapMode::Terrain));
    assert_eq!(MapMode::from_key("not-a-mode"), None, "an unknown key must not resolve to any mode");
}

#[test]
fn cycling_every_mode_returns_to_political() {
    let mut mode = MapMode::Political;
    for _ in 0..ALL_MODES.len() {
        mode = mode.next();
    }
    assert_eq!(mode, MapMode::Political, "cycling through every mode once must land back on Political");
}

#[test]
fn terrain_colors_are_pairwise_distinct() {
    let colors = [Terrain::Plain, Terrain::Hill, Terrain::Mountain, Terrain::Urban].map(terrain_fill);
    for i in 0..colors.len() {
        for j in (i + 1)..colors.len() {
            assert_ne!(colors[i], colors[j], "every terrain must render as a visually distinct color");
        }
    }
}

#[test]
fn population_thresholds_are_drawn_from_the_scenarios_own_regions() {
    let world = world();
    let cuts = population_thresholds(&world);
    let list = [cuts.first, cuts.second, cuts.third, cuts.fourth];
    for cut in list {
        assert!(world.regions.iter().any(|r| r.population == cut), "cut point {cut:?} must be a region's own population");
    }
    for pair in list.windows(2) {
        assert!(number(pair[0]) <= number(pair[1]), "cut points must be non-decreasing, got {cuts:?}");
    }
    assert_eq!(list.map(number), [70.0, 90.0, 110.0, 130.0]);
}

#[test]
fn population_fill_gives_the_top_band_to_the_scenarios_largest_region() {
    let world = world();
    let cuts = population_thresholds(&world);
    let max_pop = q(140.0);
    let min_pop = q(50.0);
    assert_eq!(band_of(max_pop, cuts), 4, "the scenario's own most populous region must land in the top band");
    assert!(band_of(min_pop, cuts) < 4, "the scenario's own least populous region must not land in the top band");
    assert_ne!(
        population_fill(min_pop, cuts),
        population_fill(max_pop, cuts),
        "the least and most populous regions must render as visually different colors"
    );
}

#[test]
fn industry_fill_uses_only_the_selected_goods_own_capacity_and_hue() {
    let world = world();
    let none = Rgb { r: 14, g: 14, b: 16 };
    let nothing = Mix { from: none, to: none, share: Share::Percent(0) };
    let mut region = region("工業地", 0, 0);
    region.capacity = vec![q(0.0); 6];
    region.capacity[Good::Steel.index()] = q(100.0);
    let steel_cuts = industry_thresholds(&world, Good::Steel);
    assert_eq!(
        industry_fill(&region, Good::Munitions, industry_thresholds(&world, Good::Munitions)),
        nothing,
        "a region with zero capacity in the selected good must render as 'no industry'"
    );
    let steel = industry_fill(&region, Good::Steel, steel_cuts);
    assert_ne!(steel, nothing);
    assert_eq!(
        steel,
        Mix { from: none, to: good_hue(Good::Steel), share: Share::Percent(100) },
        "the fill must be the selected good's own hue, mixed by its own band"
    );
    region.capacity[Good::Steel.index()] = q(0.0);
    let devastated = industry_fill(&region, Good::Steel, steel_cuts);
    assert_eq!(devastated, nothing, "full devastation must read as 'no industry'");
    assert_ne!(devastated, steel, "war damage must change the rendered color");
}

#[test]
fn industry_thresholds_are_drawn_from_the_scenarios_own_regions_for_the_selected_good() {
    let world = world();
    for i in 0..6 {
        let good = Good::nth(i);
        let cuts = industry_thresholds(&world, good);
        let list = [cuts.first, cuts.second, cuts.third, cuts.fourth];
        for cut in list {
            assert!(world.regions.iter().any(|r| r.capacity[i] == cut), "{good:?}'s cut point must be a region's own");
        }
        for pair in list.windows(2) {
            assert!(number(pair[0]) <= number(pair[1]), "{good:?}'s cut points must be non-decreasing");
        }
    }
}

#[test]
fn unrest_fill_uses_whichever_of_unrest_or_devastation_is_worse() {
    let share = |region: &Region| match unrest_fill(region).share {
        Share::Of(share) => number(share.get()),
        Share::Percent(_) => panic!("unrest is no band"),
    };
    let mut region = region("平穏", 0, 0);
    assert_eq!(share(&region), 0.0);
    region.unrest = q(100.0);
    assert_eq!(share(&region), 1.0);
    region.unrest = q(0.0);
    region.devastation = q(1.0);
    assert_eq!(share(&region), 1.0, "high devastation alone must also read as full alarm");
    region.unrest = q(25.0);
    region.devastation = q(0.5);
    assert_eq!(share(&region), 0.5);
}

#[test]
fn legend_entries_row_counts_match_what_setups_pool_can_hold() {
    let world = world();
    for mode in ALL_MODES {
        let entries = legend_entries(mode, &world, Good::Steel);
        assert!(entries.len() <= MODE_LEGEND_ROWS, "{mode:?} needs {} rows", entries.len());
    }
    assert!(legend_entries(MapMode::Political, &world, Good::Steel).is_empty(), "Political carries no swatches of its own");
    assert_eq!(legend_entries(MapMode::Terrain, &world, Good::Steel).len(), 4);
    assert_eq!(legend_entries(MapMode::Industry, &world, Good::Steel).len(), 6);
}

#[test]
fn legend_entries_marks_exactly_the_selected_goods_row_and_prints_its_cut_points() {
    let world = world();
    let entries = legend_entries(MapMode::Industry, &world, Good::Munitions);
    assert_eq!(entries.len(), 6);
    let cuts = format_cut_points(industry_thresholds(&world, Good::Munitions));
    for (i, row) in entries.iter().enumerate() {
        let selected = i == Good::Munitions.index();
        assert_eq!(row.selected, selected, "exactly the selected good's own row must be marked selected");
        if selected {
            assert!(row.label.contains(&cuts), "the selected row's label must carry its cut points, got: {}", row.label);
        } else {
            assert!(!row.label.contains('/'), "an unselected row must not carry cut-point numbers, got: {}", row.label);
        }
    }
}

#[test]
fn switching_mode_changes_the_legend_header_and_row_count() {
    let world = world();
    assert_eq!(legend_entries(MapMode::Political, &world, Good::Steel).len(), 0, "Political has no swatch rows of its own");
    let political = legend_header(MapMode::Political, &world, Good::Steel);
    assert!(political.contains("所属勢力"), "header must explain Political's own coloring, got: {political}");
    assert_eq!(legend_entries(MapMode::Terrain, &world, Good::Steel).len(), 4, "Terrain must show exactly its 4 rows");
    let terrain = legend_header(MapMode::Terrain, &world, Good::Steel);
    assert!(terrain.contains("防御力"), "header must update to explain Terrain's own coloring, got: {terrain}");
    assert_ne!(political, terrain);
}

#[test]
fn sync_mode_legend_marks_the_selected_goods_row_in_industry_mode() {
    let world = world();
    let header = legend_header(MapMode::Industry, &world, Good::Machinery);
    assert!(header.contains("機械"), "Industry's header must name the selected good, got: {header}");
    for (i, row) in legend_entries(MapMode::Industry, &world, Good::Machinery).iter().enumerate() {
        let text = legend_row_text(row);
        assert_eq!(text.starts_with('▶'), i == Good::Machinery.index(), "row {i}: {text}");
    }
}

#[test]
fn clicking_a_legend_row_selects_that_rows_good_in_industry_mode() {
    assert_eq!(
        legend_row_click(MapMode::Industry, Good::Steel, Good::Munitions.index()),
        Good::Munitions,
        "a click on a legend row must select that row's own good"
    );
    assert_eq!(legend_row_click(MapMode::Industry, Good::Steel, 6), Good::Steel);
}

#[test]
fn clicking_a_legend_row_does_nothing_outside_industry_mode() {
    assert_eq!(
        legend_row_click(MapMode::Terrain, Good::Steel, Good::Munitions.index()),
        Good::Steel,
        "a legend row click must do nothing outside Industry mode"
    );
}

#[test]
fn map_mode_button_click_advances_to_the_next_mode() {
    assert_eq!(MapMode::Political.next(), MapMode::Terrain, "a click must advance from Political to Terrain");
    let world = world();
    let mut client = client(&world, 0);
    keyboard_input(&mut client, &keys(&[Key::M]), 0, &world);
    assert_eq!(client.ui.map_mode, MapMode::Terrain);
}

#[test]
fn map_mode_button_label_names_the_active_mode() {
    let label = mode_button(MapMode::Population);
    assert!(label.contains("人口"), "the button label must name the active mode, got: {label}");
    assert!(label.contains('M'), "the button label must keep the M hotkey hint visible, got: {label}");
}

#[test]
fn every_map_mode_paints_the_color_its_own_function_computes() {
    let world = world();
    let mut ui = client(&world, 0).ui;
    let region = &world.regions[0];
    let population_cuts = population_thresholds(&world);
    let industry_cuts = industry_thresholds(&world, Good::Steel);
    for mode in ALL_MODES {
        ui.map_mode = mode;
        let got = sync_region_visuals(&ui, &world)[0];
        let expected = match mode {
            MapMode::Political | MapMode::Supply => RegionFill::Political(political_fill_color(region)),
            MapMode::Terrain => RegionFill::Solid(terrain_fill(region.terrain)),
            MapMode::Population => RegionFill::Solid(population_fill(region.population, population_cuts)),
            MapMode::Industry => RegionFill::Mixed(industry_fill(region, Good::Steel, industry_cuts)),
            MapMode::Unrest => RegionFill::Mixed(unrest_fill(region)),
        };
        assert_eq!(got, expected, "mode {mode:?} did not paint the color its own function computes");
    }
    ui.map_mode = MapMode::Political;
    let political = sync_region_visuals(&ui, &world)[0];
    ui.map_mode = MapMode::Terrain;
    assert_ne!(political, sync_region_visuals(&ui, &world)[0]);
}

#[test]
fn air_superiority_fill_tints_toward_the_dominant_factions_own_color() {
    let mut region = region("空", 0, 0);
    assert_eq!(
        air_superiority_fill(&region),
        Holding { color: neutral(), fade: None },
        "no faction's air power reaching this region must render as plain NEUTRAL"
    );
    region.air_superiority[1] = q(1.0);
    assert_eq!(
        air_superiority_fill(&region),
        Holding { color: faction_color(1), fade: Some(q(0.0)) },
        "full one-faction air dominance must render as that faction's own full-strength color"
    );
    region.air_superiority[1] = q(0.5);
    let partial = air_superiority_fill(&region);
    assert_ne!(partial, Holding { color: neutral(), fade: None }, "a contested share must not read as fully neutral");
    assert_ne!(partial.fade, Some(q(0.0)), "a contested share must read differently from full dominance");
}

#[test]
fn the_first_of_equals_holds_a_sea_zone() {
    assert_eq!(
        sea_zone_fill(&vec![q(0.2), q(0.4), q(0.4)]),
        Holding { color: faction_color(1), fade: Some(q(1.0 - 0.4)) }
    );
    assert_eq!(sea_zone_fill(&Vec::new()), Holding { color: neutral(), fade: None });
}

#[test]
fn owner_border_tracks_the_regions_current_owner() {
    let mut region = region("境", 2, 0);
    assert_eq!(owner_border(&region), faction_color(2), "the border must match the region's current owner color");
    region.owner = FactionId(1);
    assert_eq!(owner_border(&region), faction_color(1));
}

#[test]
fn an_occupier_shows_once_the_occupation_has_begun() {
    let mut region = region("前線", 0, 0);
    region.occupier = Some(FactionId(1));
    assert_eq!(political_fill_color(&region).occupier, None);
    region.occupation = q(0.25);
    region.devastation = q(0.5);
    let fill = political_fill_color(&region);
    assert_eq!(fill.owner, faction_color(0));
    let tint = fill.occupier.unwrap();
    assert_eq!((tint.color, number(tint.share)), (faction_color(1), 0.25));
    assert_eq!(number(fill.scorch.get()), 0.5 * 0.8);
    region.occupation = q(3.0);
    assert_eq!(number(political_fill_color(&region).occupier.unwrap().share), 1.0);
}

#[test]
fn units_of_one_place_stand_in_a_ring() {
    let mut world = world();
    world.units[1].delegated = true;
    world.units.push(unit("第五師団", 0, Station::Region(RegionId(3))));
    let first = unit_look(&world, UnitId(0)).unwrap();
    assert_eq!(first.slot, Slot { place: 0, count: 3 });
    assert_eq!(first.tint, None);
    let second = unit_look(&world, UnitId(1)).unwrap();
    assert_eq!(second.slot, Slot { place: 1, count: 3 });
    assert!(second.tint.is_some());
    assert_eq!(unit_look(&world, UnitId(4)).unwrap().slot, Slot { place: 2, count: 3 });
    assert_eq!(unit_look(&world, UnitId(2)).unwrap().color, faction_color(1));
    world.units[0].alive = false;
    assert!(unit_look(&world, UnitId(0)).is_none());
    assert_eq!(unit_look(&world, UnitId(1)).unwrap().slot, Slot { place: 0, count: 2 });
}

#[test]
fn a_unit_is_as_large_as_its_strength() {
    let mut world = world();
    world.units[0].manpower = q(7.0);
    world.units[0].equipment = q(9.0);
    assert_eq!(number(unit_look(&world, UnitId(0)).unwrap().size), (7.0f32 / 10.0 + 9.0f32 / 10.0) / 2.0);
    world.units[0].manpower = q(0.0);
    assert_eq!(number(unit_look(&world, UnitId(0)).unwrap().size), 0.6);
    world.units[0].manpower = q(90.0);
    assert_eq!(number(unit_look(&world, UnitId(0)).unwrap().size), 1.25);
}

#[test]
fn regions_of_a_sparse_map_differ_in_size() {
    let mut world = world();
    world.regions[0].population = q(2500.0);
    let radii = compute_region_radii(&world, &region_positions(&world));
    assert_eq!(radii.len(), 10);
    assert_eq!(number(radii[0]), 2500.0f32.sqrt() * 0.4);
    assert_eq!(number(radii[1]), 9.0);
}

#[test]
fn regions_of_a_dense_map_lie_side_by_side() {
    let mut world = world();
    while world.regions.len() < 110 {
        let i = world.regions.len() as u32;
        world.regions.push(region("村", 0, i));
    }
    for (i, region) in world.regions.iter_mut().enumerate() {
        region.position = Point { x: q(30.0 * i as f32), y: q(0.0) };
    }
    let radii = compute_region_radii(&world, &region_positions(&world));
    assert_eq!(number(radii[7]), 30.0 / 3.0f32.sqrt() * 0.92);
    assert!(radii.iter().all(|r| *r == radii[0]));
}

#[test]
fn sea_zones_lie_off_their_coasts() {
    let mut world = world();
    world.sea_zones[1].coast = vec![RegionId(9)];
    world.sea_zones.push(SeaZone {
        name: "外海".to_string(),
        coast: Vec::new(),
        control: vec![q(0.0); 3],
        enemy_fleets: vec![false; 3],
    });
    let centers: Vec<[f32; 2]> =
        sea_zone_centers(&world, &region_positions(&world)).iter().map(|c| [number(c.x), number(c.y)]).collect();
    // The map is a row from 0 to 900, so its middle is at 450, and zones lie 108 off their coasts.
    let off = 900.0f32 * 0.12;
    assert_eq!(centers, vec![[50.0 - off, 0.0], [900.0 + off, 0.0], [450.0, 0.0]]);
}

#[test]
fn a_group_shows_what_it_lacks() {
    let balance = world().balance;
    let note = |group: Group, support: f32, shortage: f32| group_annotation(group, q(support), q(shortage), &balance);
    assert_eq!(note(Group::Bureaucracy, 1.0, 0.5), "");
    assert_eq!(note(Group::Military, 40.0, 0.5), "(残5)");
    assert_eq!(note(Group::Military, 34.0, 0.5), "(※反乱の危険)");
    assert_eq!(note(Group::Government, 34.0, 0.5), "(不足-4.0)");
    assert_eq!(note(Group::Labor, 50.0, 0.5), "(残10 不足-5.0)");
}

#[test]
fn branches_have_shapes() {
    assert_eq!(unit_marker_shape(Some(Branch::Armour)), Shape::Square);
    assert_eq!(unit_marker_shape(Some(Branch::Artillery)), Shape::Disc);
    assert_eq!(unit_marker_shape(Some(Branch::Infantry)), Shape::Triangle);
    assert_eq!(unit_marker_shape(None), Shape::Triangle);
}

#[test]
fn a_label_shows_for_a_reason() {
    let mut world = world();
    let far = Some(q(3.0));
    assert!(!region_label_visible(&world, RegionId(1), false, far, None));
    assert!(region_label_visible(&world, RegionId(1), true, far, None));
    assert!(region_label_visible(&world, RegionId(1), false, Some(q(1.5)), None));
    assert!(region_label_visible(&world, RegionId(1), false, far, Some(RegionId(1))));
    assert!(!region_label_visible(&world, RegionId(1), false, None, Some(RegionId(2))));
    world.regions[1].occupier = Some(FactionId(2));
    assert!(region_label_visible(&world, RegionId(1), false, far, None));
}

fn blockade() -> PortBlockade {
    PortBlockade { region: RegionId(0), causes: vec![SeaZoneId(0)] }
}

fn drawn(ui: &Ui) -> Option<BlockadeState> {
    Some(BlockadeState {
        blockades: vec![blockade()],
        selected_region: ui.selected_region,
        selected_sea_zone: ui.selected_sea_zone,
    })
}

#[test]
fn unchanged_blockade_state_does_not_respawn_entities() {
    let ui = client(&world(), 0).ui;
    assert!(blockades_need_redraw(&None, &vec![blockade()], &ui));
    assert!(
        !blockades_need_redraw(&drawn(&ui), &vec![blockade()], &ui),
        "an unchanged blockade/selection state must not despawn or respawn any entity"
    );
    assert!(blockades_need_redraw(&drawn(&ui), &Vec::new(), &ui));
    let other = vec![PortBlockade { region: RegionId(0), causes: vec![SeaZoneId(1)] }];
    assert!(blockades_need_redraw(&drawn(&ui), &other, &ui));
}

#[test]
fn changed_selection_does_respawn_entities() {
    let mut ui = client(&world(), 0).ui;
    let last = drawn(&ui);
    assert!(!blockade_revealed(&blockade(), &ui));
    ui.selected_region = Some(RegionId(0));
    assert!(
        blockades_need_redraw(&last, &vec![blockade()], &ui),
        "selecting the blockaded region must rebuild the blockade visuals"
    );
    assert!(blockade_revealed(&blockade(), &ui), "revealing the causal line should add entities");
    ui.selected_region = None;
    ui.selected_sea_zone = Some(SeaZoneId(0));
    assert!(blockade_revealed(&blockade(), &ui));
    ui.selected_sea_zone = Some(SeaZoneId(1));
    assert!(!blockade_revealed(&blockade(), &ui));
}

fn flow(from: u32, to: u32, saturated: bool, capacity: f32, ratio: f32) -> Flow {
    Flow { from: RegionId(from), to: RegionId(to), saturated, capacity: q(capacity), ratio: q(ratio) }
}

fn route(region: u32, contested: bool, cap: f32, relay: Option<u32>) -> Route {
    Route { region: RegionId(region), contested, cap: q(cap), relay: relay.map(RegionId) }
}

#[test]
fn the_most_pressing_state_of_a_link_shows() {
    let world = world();
    let look = |routes: Vec<Route>, flows: Vec<Flow>| {
        link_look(MapMode::Supply, &world, &routes, &flows, RegionId(0), RegionId(1), LinkKind::Rail)
    };
    let dead = look(Vec::new(), Vec::new());
    assert_eq!(dead.paint, Paint::Solid(Rgb { r: 30, g: 30, b: 33 }));
    assert_eq!(dead.depth, Depth::Ordinary);
    let used = look(Vec::new(), vec![flow(0, 1, false, 5.0, 0.25), flow(1, 0, false, 5.0, 0.75)]);
    match used.paint {
        Paint::Between { share, .. } => assert_eq!(number(share.get()), 0.75),
        other => panic!("{other:?}"),
    }
    let active = look(vec![route(1, false, 1.0, Some(0))], vec![flow(0, 1, false, 5.0, 0.5)]);
    assert_eq!(active.paint, Paint::Solid(Rgb { r: 58, g: 52, b: 36 }));
    assert_eq!(active.depth, Depth::Highlight);
    let cut = look(vec![route(1, false, 1.0, Some(0))], vec![flow(0, 1, false, 0.0005, 0.5)]);
    assert_eq!(cut.paint, Paint::Solid(Rgb { r: 80, g: 35, b: 10 }));
    assert!(cut.cut && !cut.chokepoint && !cut.widened);
    let full = look(Vec::new(), vec![flow(1, 0, true, 0.0, 1.0)]);
    assert_eq!(full.paint, Paint::Solid(Rgb { r: 100, g: 8, b: 5 }));
    assert_eq!(full.depth, Depth::Chokepoint);
    assert!(full.chokepoint && full.cut && full.widened);
}

#[test]
fn links_of_two_owners_and_of_other_modes_look_ordinary() {
    let world = world();
    let flows = vec![flow(3, 4, true, 1.0, 1.0)];
    let border = link_look(MapMode::Supply, &world, &Vec::new(), &flows, RegionId(3), RegionId(4), LinkKind::Road);
    assert_eq!(border.paint, Paint::Solid(Rgb { r: 60, g: 60, b: 62 }));
    assert!(!border.chokepoint);
    let other = link_look(MapMode::Terrain, &world, &Vec::new(), &flows, RegionId(0), RegionId(1), LinkKind::Sea);
    assert_eq!(other.paint, Paint::Nothing);
    assert_eq!(link_style(LinkKind::Tunnel), (3, Some(Rgb { r: 70, g: 55, b: 35 }), true));
}

#[test]
fn rings_show_the_supply_of_a_region() {
    let mut world = world();
    let routes = vec![route(2, false, 4.0, None), route(3, true, 4.0, None)];
    assert_eq!(supply_ring(MapMode::Political, &world, &routes, RegionId(2)), None);
    assert_eq!(supply_ring(MapMode::Supply, &world, &routes, RegionId(9)), Some(None));
    assert_eq!(
        supply_ring(MapMode::Supply, &world, &routes, RegionId(2)),
        Some(Some(Paint::Between {
            from: Rgb { r: 85, g: 20, b: 45 },
            to: Rgb { r: 20, g: 85, b: 55 },
            share: Unit01::new(q(0.5)),
        }))
    );
    assert_eq!(ring_color(&routes[1], q(8.0)), Paint::Solid(Rgb { r: 65, g: 25, b: 80 }));
    world.regions[2].throughput = q(0.0);
    match supply_ring(MapMode::Supply, &world, &routes, RegionId(2)) {
        Some(Some(Paint::Between { share, .. })) => assert_eq!(number(share.get()), 0.0),
        other => panic!("{other:?}"),
    }
}

#[test]
fn a_construction_site_is_marked() {
    let mut region = region("現場", 0, 0);
    assert_eq!(construction_marker(&region), None);
    let work = Construction { project: Project::Repair, invested: q(0.0), required: q(4.0) };
    region.construction = Some(work);
    assert_eq!(construction_marker(&region), Some(q(0.35)), "work that has not begun shows too");
    region.construction = Some(Construction { invested: q(3.0), ..work });
    assert_eq!(construction_marker(&region), Some(q(0.35 + 0.55 * 0.75)));
    region.construction = Some(Construction { required: q(0.0), ..work });
    assert_eq!(construction_marker(&region), Some(q(0.35)));
}

#[test]
fn region_positions_reads_every_region_verbatim() {
    let mut world = world();
    world.regions.truncate(5);
    let authored = [[7.0f32, 9.0], [-120.0, 140.0], [0.0, 140.0], [120.0, 140.0], [0.0, 280.0]];
    for (region, at) in world.regions.iter_mut().zip(authored) {
        region.position = Point { x: q(at[0]), y: q(at[1]) };
    }
    let found: Vec<[f32; 2]> = region_positions(&world).iter().map(|p| [number(p.x), number(p.y)]).collect();
    assert_eq!(found, authored.to_vec(), "region_positions must return each region's own position, unchanged");
}

#[test]
fn each_pair_of_regions_is_joined_once() {
    let mut world = world();
    world.regions[9].links.push(Link { to: RegionId(0), kind: LinkKind::Sea });
    let links = links_to_draw(&world);
    assert_eq!(links.len(), 10);
    assert_eq!(links[0], DrawnLink { a: RegionId(0), b: RegionId(1), kind: LinkKind::Rail });
    assert_eq!(links[9], DrawnLink { a: RegionId(9), b: RegionId(0), kind: LinkKind::Sea });
}

#[test]
fn names_show_all_the_time_on_a_sparse_map() {
    let world = world();
    assert!(!is_dense(&world));
    assert_eq!(significant_regions(&world), vec![true; 10]);
}

#[test]
fn only_significant_names_show_on_a_dense_map() {
    let mut world = world();
    while world.regions.len() < 110 {
        let i = world.regions.len() as u32;
        let mut more = region("村", 0, 0);
        more.population = q(1.0 + i as f32 / 1000.0);
        world.regions.push(more);
    }
    assert!(is_dense(&world));
    let always = significant_regions(&world);
    assert_eq!(always.len(), 110);
    assert_eq!(always.iter().filter(|a| **a).count(), 11, "the upper tenth, with the three capitals among it");
    assert!(always[3] && always[6] && always[9]);
    assert!(!always[50]);
}

#[test]
fn stations_have_places() {
    let world = world();
    let regions = region_positions(&world);
    let zones = vec![Point { x: q(1.0), y: q(2.0) }, Point { x: q(3.0), y: q(4.0) }];
    assert_eq!(station_position(&world, Station::Region(RegionId(2)), &regions, &zones), regions[2]);
    assert_eq!(station_position(&world, Station::Sea(SeaZoneId(1)), &regions, &zones), zones[1]);
    assert_eq!(station_position(&world, Station::Airfield(TransportNodeId(15)), &regions, &zones), regions[5]);
}

#[test]
fn a_sea_zone_grows_with_its_coast() {
    assert_eq!(sea_zone_radius(0), 14);
    assert_eq!(sea_zone_radius(3), 23);
    assert_eq!(sea_zone_radius(5), 29);
    assert_eq!(sea_zone_radius(6), 32);
    assert_eq!(sea_zone_radius(1000), 32);
}

#[test]
fn faction_panel_shows_the_players_own_faction_with_a_you_marker() {
    let world = world();
    let mut client = client(&world, 1);
    let text = update_faction_panel(&world, &client.ui);
    assert!(text.contains("【あなたの国】"), "selecting the player's own faction must show the marker, got: {text}");
    assert!(text.contains("近畿連合"), "must show the player's own faction's name, got: {text}");
    client.ui.selected_faction = FactionId(0);
    let text = update_faction_panel(&world, &client.ui);
    assert!(!text.contains("【あなたの国】"), "a Tab-cycled-away faction must not carry the player marker, got: {text}");
    assert!(text.contains("関東府"), "must still show whichever faction is actually selected, got: {text}");
}

#[test]
fn faction_panel_marks_values_that_cross_their_balance_rs_threshold() {
    let mut world = world();
    let client = client(&world, 0);
    let baseline = update_faction_panel(&world, &client.ui);
    assert!(!baseline.contains("危険"), "a freshly-built scenario must start with no marker at all, got: {baseline}");
    assert!(!baseline.contains("徴兵不能"), "a freshly-built scenario must start able to recruit, got: {baseline}");
    world.factions[0].stability = q(25.0 - 1.0);
    world.factions[0].manpower = q(10.0 - 0.1);
    world.factions[0].group_support[Group::Military.index()] = q(MUTINY_THRESHOLD - 1.0);
    let text = update_faction_panel(&world, &client.ui);
    assert!(text.contains("※政権崩壊の危険"), "stability below the threshold must be marked, got: {text}");
    assert!(text.contains("※徴兵不能"), "manpower below the threshold must be marked, got: {text}");
    assert!(text.contains("軍部") && text.contains("※反乱の危険"), "support below the threshold must be marked, got: {text}");
}

#[test]
fn depleted_civilian_stock_is_flagged_distinctly_from_a_depleted_industrial_one() {
    let mut world = world();
    world.factions[0].stock[Good::Food.index()] = q(0.0);
    world.factions[0].stock[Good::Steel.index()] = q(0.0);
    let client = client(&world, 0);
    let top_bar = update_top_bar_player_stats(&world, client.ui.player);
    assert!(top_bar.contains("food=0※枯渇"), "a depleted civilian good must be flagged in the top bar, got: {top_bar}");
    assert!(!top_bar.contains("steel=0※枯渇"), "a depleted non-civilian good must not be flagged, got: {top_bar}");
    let panel = update_faction_panel(&world, &client.ui);
    assert!(panel.contains("food=0※枯渇"), "the faction detail panel must also flag the depleted good, got: {panel}");
    assert!(!panel.contains("steel=0※枯渇"), "the faction detail panel must not flag it either, got: {panel}");
}

fn set_shortage(world: &mut World, shortage: f32) {
    world.factions[0].shortage = q(shortage);
}

#[test]
fn group_support_names_its_own_shortage_cost() {
    let mut world = world();
    set_shortage(&mut world, 0.10);
    let client = client(&world, 0);
    let text = update_faction_panel(&world, &client.ui);
    assert!(text.contains("市民") && text.contains("不足-2.0"), "Citizens' shortage cost must be shown, got: {text}");
    assert!(text.contains("労働者") && text.contains("不足-1.0"), "Labor's shortage cost must be shown, got: {text}");
    assert!(text.contains("中央政府") && text.contains("不足-0.8"), "Government's shortage cost must be shown, got: {text}");
    assert!(!text.contains("軍部(不足"), "Military support carries no shortage penalty, got: {text}");
}

#[test]
fn faction_panel_shows_margin_to_threshold_before_it_is_crossed() {
    let mut world = world();
    world.factions[0].group_support[Group::Labor.index()] = q(STRIKE_THRESHOLD + 5.0);
    world.factions[0].group_support[Group::Citizens.index()] = q(PROTEST_THRESHOLD + 5.0);
    set_shortage(&mut world, 0.10);
    let client = client(&world, 0);
    let text = update_faction_panel(&world, &client.ui);
    assert!(!text.contains("危険"), "a group still above its threshold must not show the marker, got: {text}");
    assert!(text.contains("残5"), "a group 5 points above its threshold must show the remaining margin, got: {text}");
    assert!(text.contains("不足-1.0"), "Labor's shortage cost must be shown alongside its margin, got: {text}");
    assert!(text.contains("不足-2.0"), "Citizens' shortage cost must be shown alongside its margin, got: {text}");
}

#[test]
fn faction_panel_marks_an_eliminated_faction_as_eliminated_not_silently_frozen() {
    let mut world = world();
    world.factions[2].alive = false;
    let mut client = client(&world, 0);
    client.ui.selected_faction = FactionId(2);
    let text = update_faction_panel(&world, &client.ui);
    assert!(text.contains("(eliminated)"), "an eliminated faction's panel must say so plainly, got: {text}");
    assert!(text.contains("西国同盟"), "must still name which faction this is, not go blank, got: {text}");
}

#[test]
fn the_faction_panel_is_written_out() {
    let world = world();
    let client = client(&world, 0);
    assert_eq!(
        update_faction_panel(&world, &client.ui),
        "【あなたの国】 関東府  [Tab で他勢力に切替]\n\
         territory: 4 regions\n\
         units: 2\n\
         manpower: 40.0\n\
         stock: food=120, energy=120, steel=120, machinery=120, munitions=120, arms=120\n\
         stability: 60   war support: 55\n\
         civilian ration: 0.90   shortage: 0.00\n\
         group support: 中央政府60  官僚60  軍部60(残25)  財界60(残30)  労働者60(残20)  市民60(残22)  地方政府60(残30)\n\
         national focus: Technocracy\n\
         diplomacy:\n    vs 近畿連合: War (opinion -20)\n    vs 西国同盟: War (opinion -20)"
    );
    let nobody = Ui { selected_faction: FactionId(7), ..client.ui };
    assert_eq!(update_faction_panel(&world, &nobody), "");
}

#[test]
fn the_top_bar_shows_the_day_and_the_pace() {
    let mut ui = client(&world(), 0).ui;
    assert_eq!(update_top_bar("mvp", 12, 720, &ui), "mvp  —  day 12 / 720  —  paused");
    ui.paused = false;
    ui.last_active = Speed::X20;
    assert_eq!(update_top_bar("mvp", 12, 720, &ui), "mvp  —  day 12 / 720  —  running (20x)");
}

#[test]
fn the_players_stats_are_written_out() {
    let mut world = world();
    world.factions[0].manpower = q(3.25);
    assert_eq!(
        update_top_bar_player_stats(&world, Some(FactionId(0))),
        "関東府  |  在庫: food=120 energy=120 steel=120 machinery=120 munitions=120 arms=120  |  \
         人的資源3.2  ※徴兵不能  安定度60  戦争支持55  不足0.00"
    );
    assert_eq!(update_top_bar_player_stats(&world, None), "");
}

#[test]
fn the_region_panel_is_written_out() {
    let mut world = world();
    world.regions[3].occupier = Some(FactionId(1));
    world.regions[3].occupation = q(0.42);
    world.regions[3].blockaded = true;
    world.regions[3].construction =
        Some(Construction { project: Project::Capacity(Good::Steel), invested: q(3.0), required: q(8.0) });
    assert_eq!(
        update_inspect_panel(&world, Some(RegionId(3))),
        "関東  (Plain)\n\
         owner: 関東府\n\
         occupied by 近畿連合 (42%)\n\
         population: 80\n\
         capacity: food=4.0, energy=4.5, steel=5.0, machinery=5.5, munitions=6.0, arms=6.5\n\
         infrastructure: 0.50   port: 1.00  (blockaded)\n\
         unrest: 0.00   devastation: 0.00\n\
         supply: 1.00   import flow: 0.00\n\
         construction: Capacity(Steel) (3/8)"
    );
    world.regions[4].construction =
        Some(Construction { project: Project::TransportLine(TransportLineId(3)), invested: q(0.0), required: q(1.0) });
    assert!(update_inspect_panel(&world, Some(RegionId(4))).ends_with("construction: TransportLine(TransportLineId(3)) (0/1)"));
    assert!(update_inspect_panel(&world, Some(RegionId(5))).ends_with("construction: none"));
    assert_eq!(update_inspect_panel(&world, Some(RegionId(99))), "");
    assert_eq!(update_inspect_panel(&world, None), "");
}

#[test]
fn the_players_panel_is_written_out() {
    let world = world();
    let mut client = client(&world, 0);
    client.units.toggle(1);
    client.ui.selected_region = Some(RegionId(3));
    client.ui.menu = Some(RegionId(2));
    let refused = vec![Rejection { target: RejectionTarget::Unit, error: ActionError::Pinned }];
    assert_eq!(
        update_player_panel(&world, &client, &refused),
        "== プレイヤー: 関東府 ==\n\
         この地域の部隊（クリックで選択/解除）:\n  \
         \u{20}#0 第一師団 兵力10 装備10 組織50\n  \
         *#1 第二師団 兵力10 装備10 組織50\n\
         選択部隊: 1 隊 (地域/海域をクリックで移動)\n\
         -- 命令メニュー: 北関東 (Esc で閉じる) --\n\
         1: 陸軍を徴募\n2: 艦隊を徴募（要港湾）\n3: 飛行隊を徴募（要飛行場）\n4: インフラ建設\n5: 港湾建設\n\
         6: 生産設備建設（対象品目）\n7: 修復\n8: 建設中止\n\
         !! 却下された命令（全パネル）!!\n  - 敵部隊がいるため移動できない\n"
    );
    client.ui.selected_region = Some(RegionId(0));
    client.ui.menu = None;
    assert_eq!(
        update_player_panel(&world, &client, &Vec::new()),
        "== プレイヤー: 関東府 ==\nこの地域に部隊はいない\n選択部隊: 1 隊 (地域/海域をクリックで移動)\n"
    );
    client.ui.player = None;
    assert_eq!(update_player_panel(&world, &client, &refused), "");
}

#[test]
fn the_newspaper_shows_the_article_of_the_selected_faction() {
    let mut ui = client(&world(), 0).ui;
    let mut news = NewspaperState::new(0);
    assert_eq!(update_newspaper_panel(&news, &ui), "");
    ui.newspaper_open = true;
    assert_eq!(update_newspaper_panel(&news, &ui), "-- 新聞 (N で閉じる) --\nまだ号外は発行されていない\n");
    publish_issue(&mut news, 30, vec![Article { faction: FactionId(0), text: "開戦".to_string() }]);
    publish_issue(&mut news, 60, Vec::new());
    assert_eq!(
        update_newspaper_panel(&news, &ui),
        "-- 新聞 (N で閉じる, ←/→ で号を送る) -- 第2号 (day 30〜60) --\nこの勢力の記事はない（脱落済み）\n"
    );
    ui.newspaper_viewing = Some(0);
    assert_eq!(
        update_newspaper_panel(&news, &ui),
        "-- 新聞 (N で閉じる, ←/→ で号を送る) -- 第1号 (day 0〜30) --\n開戦\n"
    );
}

#[test]
fn issues_follow_each_other_without_a_gap() {
    let mut news = NewspaperState::new(5);
    news.period_events.push(Event::Protest { faction: FactionId(0) });
    publish_issue(&mut news, 30, Vec::new());
    publish_issue(&mut news, 60, Vec::new());
    assert_eq!((news.history[0].period_start, news.history[0].period_end), (5, 30));
    assert_eq!((news.history[1].period_start, news.history[1].period_end), (30, 60));
    assert_eq!(news.period_start, 60);
    assert!(news.period_events.is_empty());
    assert!(issue_due(60, 30) && !issue_due(61, 30));
}

fn day_picture(day: u32) -> ScreenshotConfig {
    ScreenshotConfig {
        path: "/dev/null".to_string(),
        trigger: ScreenshotTrigger::AtDay(day),
        open_diplomacy: false,
        open_newspaper: false,
        open_policy: false,
        map_mode: None,
        industry_good: None,
        select_region: None,
        select_units: false,
        camera_focus_region: None,
        camera_zoom: q(1.0),
        debug_force_blank: false,
    }
}

/// Runs a frame of a simulation that ends on the day `end`; the day after it, and the text of a
/// failure.
fn run_frame(ui: &mut Ui, start_day: u32, target: Option<u32>, end: Option<u32>) -> (u32, Option<String>) {
    let mut day = start_day;
    let mut frame = begin_frame(ui, day, target);
    loop {
        let ended = match end {
            Some(e) if day >= e => Some("Victory(FactionId(0))".to_string()),
            _ => None,
        };
        match next_step(&mut frame, day, &ended) {
            Step::Tick => {
                day += 1;
                end_day(&mut frame, ui, day);
            }
            Step::Done => return (day, None),
            Step::Fail(text) => return (day, Some(text)),
        }
    }
}

#[test]
fn a_day_zero_screenshot_target_does_not_tick_past_it() {
    let mut ui = start(&world(), &None, &None).ui;
    ui.last_active = Speed::X20;
    let target = day_target(&Some(day_picture(0)));
    let (day, _) = run_frame(&mut ui, 0, target, None);
    assert_eq!(day, 0, "a day-0 screenshot target must hold the world at day 0, not tick past it and pause on day 1");
    assert!(ui.paused, "reaching the target must pause, so the status text matches the captured day");
}

#[test]
fn a_frame_runs_at_its_speed_and_stops_at_its_day() {
    let mut ui = start(&world(), &None, &None).ui;
    assert_eq!(run_frame(&mut ui, 10, None, None), (11, None));
    ui.last_active = Speed::X20;
    assert_eq!(run_frame(&mut ui, 10, None, None), (30, None));
    assert_eq!(run_frame(&mut ui, 10, None, Some(15)), (15, None));
    assert!(!ui.paused);
    assert_eq!(run_frame(&mut ui, 10, Some(17), None), (17, None));
    assert!(ui.paused);
    assert_eq!(run_frame(&mut ui, 17, None, None), (17, None), "a paused game stands still");
}

#[test]
fn a_day_that_never_comes_is_reported() {
    let mut ui = start(&world(), &None, &None).ui;
    ui.last_active = Speed::X20;
    let (day, failure) = run_frame(&mut ui, 10, Some(40), Some(15));
    assert_eq!(day, 15);
    assert_eq!(
        failure.unwrap(),
        "archipelago-game: error: --screenshot-at-day 40 was requested, but the simulation reached a terminal outcome \
         (Victory(FactionId(0))) at day 15 - day 40 is never reached, so no screenshot was captured."
    );
}

fn misorder() -> Action {
    Action::MoveUnit { unit: UnitId(4), to: Station::Airfield(TransportNodeId(5)) }
}

fn report(refused: Vec<Refusal>) -> DayReport {
    DayReport { events: Vec::new(), orders: Some(DayOrders { given: vec![misorder()], refused }) }
}

#[test]
fn illegal_air_redeploy_surfaces_its_rejection_reason() {
    let world = world();
    let mut journal = start_journal(0, &play(0));
    keep_day(&mut journal, &world, report(vec![Refusal { action: misorder(), error: ActionError::RegionNotOwned }]));
    assert_eq!(
        journal.rejections,
        vec![Rejection { target: RejectionTarget::Unit, error: ActionError::RegionNotOwned }],
        "the rejection must surface the real reason to the player"
    );
}

#[test]
fn rejection_survives_past_the_tick_it_happened() {
    let mut world = world();
    let mut journal = start_journal(0, &play(0));
    world.day = 1;
    keep_day(&mut journal, &world, report(vec![Refusal { action: misorder(), error: ActionError::RegionNotOwned }]));
    world.day = 2;
    keep_day(&mut journal, &world, report(Vec::new()));
    assert!(journal.rejections.is_empty(), "with no human action submitted this tick, the per-tick box must go back to empty");
    assert!(
        journal.log.iter().any(|line| line.contains(action_error_ja(ActionError::RegionNotOwned))),
        "the rejection from tick 1 must still be visible in the durable event log on tick 2, got {:?}",
        journal.log
    );
    assert_eq!(journal.log, vec!["1日目: 却下（部隊）: 自国の地域ではない".to_string()]);
}

#[test]
fn the_latest_entry_of_the_log_stands_on_top() {
    let mut world = world();
    world.day = 9;
    let mut journal = start_journal(0, &play(0));
    journal.log.push("earlier".to_string());
    keep_day(
        &mut journal,
        &world,
        DayReport {
            events: vec![Event::Strike { faction: FactionId(0) }, Event::FactionEliminated { faction: FactionId(2) }],
            orders: Some(DayOrders {
                given: Vec::new(),
                refused: vec![Refusal { action: Action::SetConscription(q(2.0)), error: ActionError::InvalidValue }],
            }),
        },
    );
    let strike = format_event(&world, &Event::Strike { faction: FactionId(0) });
    let gone = format_event(&world, &Event::FactionEliminated { faction: FactionId(2) });
    assert_eq!(
        journal.log,
        vec![
            "9日目: 却下（政策）: 指定した値が範囲外".to_string(),
            format!("9日目: {gone}"),
            format!("9日目: {strike}"),
            "earlier".to_string(),
        ]
    );
    assert_eq!(journal.news.period_events.len(), 2);
    assert_eq!(update_event_log(&vec!["b".to_string(), "a".to_string()]), "b\na");
}

#[test]
fn the_log_holds_fourteen_entries() {
    let mut log: Vec<String> = (0..20).map(|i| format!("{i}")).collect();
    trim_log(&mut log);
    assert_eq!(log.len(), 14);
    assert_eq!(log[13], "13");
}

#[test]
fn the_orders_of_each_day_are_recorded() {
    let world = world();
    let recorded = Some(PlayConfig {
        player: FactionId(0),
        record: Some("run.json".to_string()),
        replay: None,
        delegate_military: false,
    });
    let mut journal = start_journal(0, &recorded);
    keep_day(&mut journal, &world, report(Vec::new()));
    keep_day(&mut journal, &world, DayReport { events: Vec::new(), orders: None });
    keep_day(&mut journal, &world, DayReport { events: Vec::new(), orders: Some(DayOrders { given: Vec::new(), refused: Vec::new() }) });
    assert_eq!(journal.record, Some(vec![vec![misorder()], Vec::new()]));
}

#[test]
fn orders_belong_to_the_panel_that_gave_them() {
    assert_eq!(rejection_target_of(&misorder()), RejectionTarget::Unit);
    assert_eq!(rejection_target_of(&Action::CancelBuild { region: RegionId(4) }), RejectionTarget::Region(RegionId(4)));
    assert_eq!(rejection_target_of(&Action::StrikeNode { node: TransportNodeId(1) }), RejectionTarget::Policy);
    assert_eq!(rejection_target_of(&Action::DeclareWar { to: FactionId(1) }), RejectionTarget::Diplomacy);
    assert_eq!(rejection_target_ja(RejectionTarget::Region(RegionId(0))), "地域");
}

#[test]
fn events_are_told() {
    let world = world();
    let told = |event: Event| format_event(&world, &event);
    assert!(told(Event::RegionCaptured { region: RegionId(4), from: FactionId(1), to: FactionId(0) }).contains("信越・北陸"));
    assert!(told(Event::TreatySigned { a: FactionId(0), b: FactionId(1), treaty: Treaty::Alliance }).contains("近畿連合"));
    assert_eq!(
        told(Event::NaturalLanguageAccepted {
            from: FactionId(0),
            to: FactionId(1),
            terms: vec![TreatyTerm::Deliver { good: Good::Steel, amount: q(3.0) }, TreatyTerm::Sign(Treaty::PortAccess)],
        }),
        format!(
            "自然言語外交・成立: {} が {} の提案を受諾 [鋼材 を3引き渡し / 港湾利用権を締結]",
            world.factions[1].name, world.factions[0].name
        )
    );
    assert_eq!(
        told(Event::NodeStruck {
            attacker: FactionId(0),
            defender: FactionId(1),
            node: TransportNodeId(4),
            node_kind: NodeKind::Airfield,
            outcome: StrikeOutcome::KnockedOut,
        })
        .contains(node_kind_ja(NodeKind::Airfield)),
        true
    );
}
