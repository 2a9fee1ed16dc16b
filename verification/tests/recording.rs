use archipelago_game::action_codec::{action_from_value, action_to_value};
use archipelago_game::quantity::Quantity;
use archipelago_game::recording::{decode_days, decode_replay, encode_days, encode_scoped_days};
use archipelago_game::types::{
    Action, Domain, FactionId, Good, Layer, NationalFocus, Project, RegionId, SeaZoneId, Station, TransportLineId,
    TransportNodeId, Treaty, TreatyTerm, UnitId,
};
use archipelago_game::value::{object1, object2, object3, Value};

fn q(x: f32) -> Quantity {
    Quantity { bits: x.to_bits() }
}

fn text(s: &str) -> Value {
    Value::String(s.to_string())
}

fn error_of(v: &Value) -> String {
    match action_from_value(v) {
        Ok(action) => panic!("decoded to {action:?}"),
        Err(e) => e,
    }
}

#[test]
fn every_action_variant_round_trips() {
    let samples = vec![
        Action::MoveUnit { unit: UnitId(3), to: Station::Region(RegionId(5)) },
        Action::MoveUnit { unit: UnitId(3), to: Station::Sea(SeaZoneId(1)) },
        Action::HoldUnit { unit: UnitId(2) },
        Action::DisbandUnit { unit: UnitId(2) },
        Action::RecruitUnit { region: RegionId(1), domain: Domain::Land },
        Action::RecruitUnit { region: RegionId(1), domain: Domain::Sea },
        Action::ReinforceUnit { unit: UnitId(4) },
        Action::SetConscription(q(0.42)),
        Action::SetIndustryPriority { good: Good::Steel, weight: q(0.6) },
        Action::SetCivilianRation(q(0.8)),
        Action::Build { region: RegionId(2), project: Project::Infrastructure },
        Action::Build { region: RegionId(2), project: Project::Capacity(Good::Munitions) },
        Action::CancelBuild { region: RegionId(2) },
        Action::SetImportPlan { good: Good::Food, rate: q(12.5) },
        Action::SetLogisticsPriority { good: Good::Arms, weight: q(0.3) },
        Action::ProposeTreaty { to: FactionId(1), treaty: Treaty::Alliance },
        Action::AcceptTreaty { from: FactionId(1), treaty: Treaty::Ceasefire },
        Action::RejectTreaty { from: FactionId(1), treaty: Treaty::NonAggression },
        Action::DeclareWar { to: FactionId(2) },
        Action::BreakTreaty { with: FactionId(2), treaty: Treaty::Alliance },
        Action::SetNationalFocus(NationalFocus::MaritimeTrade),
        Action::ProposeInNaturalLanguage { to: FactionId(1), text: "港湾利用を認めてほしい".to_string() },
        Action::RespondToNaturalLanguageProposal {
            from: FactionId(1),
            terms: vec![TreatyTerm::Sign(Treaty::PortAccess), TreatyTerm::Deliver { good: Good::Steel, amount: q(3.0) }],
            accept: true,
        },
        Action::InterdictLine { line: TransportLineId(4) },
        Action::Build { region: RegionId(2), project: Project::TransportLine(TransportLineId(4)) },
        Action::MoveUnit { unit: UnitId(3), to: Station::Airfield(TransportNodeId(7)) },
        Action::RecruitUnit { region: RegionId(1), domain: Domain::Air },
        Action::StrikeNode { node: TransportNodeId(9) },
        Action::RespondToNaturalLanguageProposal {
            from: FactionId(0),
            terms: vec![TreatyTerm::Withdraw { from: RegionId(8) }, TreatyTerm::Cede { region: RegionId(6) }],
            accept: false,
        },
    ];
    for action in samples {
        let value = action_to_value(&action);
        let decoded = match action_from_value(&value) {
            Ok(decoded) => decoded,
            Err(e) => panic!("failed to decode {value:?}: {e}"),
        };
        assert_eq!(decoded, action, "round-trip mismatch for {action:?}");
    }
}

#[test]
fn decode_days_rejects_malformed_input() {
    assert!(decode_days(Ok(Value::Object(Vec::new()))).is_err(), "a top-level object (not an array) must be rejected");
    let nonsense = Value::Array(vec![Value::Array(vec![object1("type", text("nonsense"))])]);
    assert!(decode_days(Ok(nonsense)).is_err(), "an unknown action type must be rejected");
    assert!(decode_days(Err("unexpected character".to_string())).is_err());
}

#[test]
fn empty_days_round_trip() {
    let days: Vec<Vec<Action>> = vec![vec![], vec![Action::HoldUnit { unit: UnitId(0) }], vec![]];
    let decoded = decode_days(Ok(encode_days(&days))).unwrap();
    assert_eq!(decoded, days, "an empty day must still occupy a slot, not collapse away");
}

#[test]
fn decode_replay_treats_a_bare_array_as_full_scope() {
    let days: Vec<Vec<Action>> = vec![vec![Action::SetConscription(q(0.4))]];
    let (layers, decoded) = decode_replay(Ok(encode_days(&days))).unwrap();
    assert_eq!(
        layers,
        vec![Layer::Military, Layer::Economy, Layer::Diplomacy],
        "a bare-array replay file must claim every layer"
    );
    assert_eq!(decoded, days);
}

#[test]
fn scoped_replay_round_trips_its_declared_layers() {
    let layers = vec![Layer::Economy, Layer::Diplomacy];
    let days: Vec<Vec<Action>> = vec![vec![Action::SetConscription(q(0.1))], vec![]];
    let (decoded_layers, decoded_days) = decode_replay(Ok(encode_scoped_days(&layers, &days))).unwrap();
    assert_eq!(decoded_layers, layers, "the declared layer set must come back exactly as written");
    assert_eq!(decoded_days, days);
}

#[test]
fn decode_replay_rejects_a_scoped_file_missing_layers_or_days() {
    let no_days = || Value::Array(Vec::new());
    assert!(
        decode_replay(Ok(object1("days", no_days()))).is_err(),
        "a scoped object with no `layers` field must be rejected, not defaulted to full scope"
    );
    assert!(
        decode_replay(Ok(object1("layers", Value::Array(vec![text("economy")])))).is_err(),
        "a scoped object with no `days` field must be rejected"
    );
    assert!(
        decode_replay(Ok(object2("layers", Value::Array(vec![text("not_a_real_layer")]), "days", no_days()))).is_err(),
        "an unknown layer key must be rejected"
    );
    assert!(
        decode_replay(Ok(object2("layers", Value::Array(vec![text("economy"), text("economy")]), "days", no_days())))
            .is_err(),
        "a layer named twice in `layers` must be rejected rather than silently deduplicated"
    );
}

#[test]
fn a_number_is_read_either_way() {
    let of = |value: Value| action_from_value(&object2("type", text("set_conscription"), "value", value));
    assert_eq!(of(Value::num(1)), Ok(Action::SetConscription(q(1.0))));
    assert_eq!(of(Value::num(16_777_217)), Ok(Action::SetConscription(q(16_777_216.0))));
    let hold = |value: Value| action_from_value(&object2("type", text("hold_unit"), "unit", value));
    assert_eq!(hold(Value::f32num(q(7.0))), Ok(Action::HoldUnit { unit: UnitId(7) }));
    assert_eq!(hold(Value::f32num(q(-0.0))), Ok(Action::HoldUnit { unit: UnitId(0) }));
    for bad in [7.5f32, -1.0, 4_294_967_296.0, 1e-40, f32::INFINITY, f32::NAN] {
        assert!(hold(Value::f32num(q(bad))).is_err(), "{bad}");
    }
}

#[test]
fn whole_quantities_are_integers() {
    for n in [0u32, 1, 2, 3, 255, 65_536, 8_388_607, 8_388_608, 16_777_215, 16_777_216, 2_147_483_648, 4_294_967_040] {
        assert_eq!(q(n as f32).to_whole(), Some(n));
    }
    for x in [0.5f32, 1.25, 8_388_607.5, 4_294_967_296.0, -2.0, f32::MAX, f32::MIN_POSITIVE] {
        assert_eq!(q(x).to_whole(), None, "{x}");
    }
}

#[test]
fn an_action_is_an_object_with_its_type_first() {
    assert_eq!(
        action_to_value(&Action::HoldUnit { unit: UnitId(2) }),
        object2("type", text("hold_unit"), "unit", Value::num(2))
    );
    assert_eq!(
        action_to_value(&Action::MoveUnit { unit: UnitId(3), to: Station::Sea(SeaZoneId(1)) }),
        object3(
            "type",
            text("move_unit"),
            "unit",
            Value::num(3),
            "to",
            object2("kind", text("sea"), "id", Value::num(1))
        )
    );
}

#[test]
fn a_day_is_a_list_and_a_run_is_a_list_of_days() {
    let days: Vec<Vec<Action>> = vec![vec![], vec![Action::DisbandUnit { unit: UnitId(9) }]];
    assert_eq!(
        encode_days(&days),
        Value::Array(vec![
            Value::Array(Vec::new()),
            Value::Array(vec![object2("type", text("disband_unit"), "unit", Value::num(9))]),
        ])
    );
}

#[test]
fn a_value_without_a_type_is_no_action() {
    assert!(action_from_value(&Value::Null).is_err());
    assert!(action_from_value(&Value::Object(Vec::new())).is_err());
    assert!(error_of(&object1("type", text("nonsense"))).contains("nonsense"));
}

#[test]
fn a_field_of_the_wrong_kind_is_refused() {
    assert!(action_from_value(&object2("type", text("hold_unit"), "unit", text("2"))).is_err());
    assert!(action_from_value(&object1("type", text("hold_unit"))).is_err());
    let nowhere = object3("type", text("move_unit"), "unit", Value::num(1), "to", object2("kind", text("moon"), "id", Value::num(1)));
    assert_eq!(error_of(&nowhere), "unknown station kind `moon`");
    let nothing = object3("type", text("build"), "region", Value::num(1), "project", text("palace"));
    assert_eq!(error_of(&nothing), "unknown project `palace`");
    let unknown = object3("type", text("propose_treaty"), "to", Value::num(1), "treaty", text("friendship"));
    assert_eq!(error_of(&unknown), "unknown treaty `friendship`");
    let focus = object2("type", text("set_national_focus"), "focus", text("leisure"));
    assert_eq!(error_of(&focus), "unknown national focus `leisure`");
}

#[test]
fn keys_name_one_value_each() {
    for layer in [Layer::Military, Layer::Economy, Layer::Diplomacy] {
        assert_eq!(Layer::from_key(layer.key()), Some(layer));
    }
    for domain in [Domain::Land, Domain::Sea, Domain::Air] {
        assert_eq!(Domain::from_key(domain.key()), Some(domain));
    }
    for i in 0..6 {
        assert_eq!(Good::from_key(Good::nth(i).key()), Some(Good::nth(i)));
        assert_eq!(Treaty::from_key(Treaty::nth(i).key()), Some(Treaty::nth(i)));
        assert_eq!(NationalFocus::from_key(NationalFocus::nth(i).key()), Some(NationalFocus::nth(i)));
    }
    assert_eq!(Good::from_key("gold"), None);
    assert_eq!(Layer::from_key("nonsense"), None);
}

#[test]
fn a_number_that_is_no_number_is_not_read_back() {
    let value = action_to_value(&Action::SetConscription(q(f32::NAN)));
    assert!(action_from_value(&value).is_err());
}

#[test]
fn a_later_field_of_the_same_name_does_not_count() {
    let value = Value::Object(vec![
        ("type".to_string(), text("hold_unit")),
        ("unit".to_string(), Value::num(1)),
        ("unit".to_string(), Value::num(2)),
    ]);
    assert_eq!(action_from_value(&value), Ok(Action::HoldUnit { unit: UnitId(1) }));
}
