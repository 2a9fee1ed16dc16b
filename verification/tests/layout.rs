use archipelago_game::geometry::{bounds, centroid};
use archipelago_game::layout::{label_push_directions, nearest_neighbor_pitch};
use archipelago_game::map_geometry::{owner_border_radius, region_radius};
use archipelago_game::quantity::Quantity;
use archipelago_game::world::Point;

fn q(x: f32) -> Quantity {
    Quantity { bits: x.to_bits() }
}

fn number(x: Quantity) -> f32 {
    f32::from_bits(x.bits)
}

fn points(positions: &[[f32; 2]]) -> Vec<Point> {
    positions.iter().map(|p| Point { x: q(p[0]), y: q(p[1]) }).collect()
}

fn directions(positions: &[[f32; 2]]) -> Vec<[f32; 2]> {
    label_push_directions(&points(positions)).iter().map(|d| [number(d.x), number(d.y)]).collect()
}

fn pitch(positions: &[[f32; 2]]) -> f32 {
    number(nearest_neighbor_pitch(&points(positions)))
}

#[test]
fn label_push_direction_defaults_to_up_for_a_single_region() {
    assert_eq!(directions(&[[5.0, -3.0]]), vec![[0.0, 1.0]]);
}

#[test]
fn label_push_direction_points_away_from_a_symmetric_pair() {
    let center = directions(&[[-10.0, 0.0], [0.0, 0.0], [10.0, 0.0]])[1];
    assert!(center[0].abs() < 1e-4, "a region flanked symmetrically must not push sideways, got {center:?}");
    assert!(center[1].abs() > 0.99, "a region flanked symmetrically must push straight up or down, got {center:?}");
}

#[test]
fn label_push_direction_is_dominated_by_the_nearest_cluster() {
    let subject = directions(&[[0.0, 0.0], [8.0, 6.0], [8.0, -6.0], [10.0, 0.0], [-500.0, 0.0]])[0];
    assert!(subject[0] < -0.9, "expected a push dominated by the close +x cluster (away from it, i.e. -x), got {subject:?}");
}

#[test]
fn label_push_direction_stays_finite_for_coincident_regions() {
    for d in directions(&[[3.0, 3.0], [3.0, 3.0], [0.0, 0.0]]) {
        assert!(d[0].is_finite() && d[1].is_finite(), "push direction must stay finite, got {d:?}");
    }
}

#[test]
fn two_labels_go_apart() {
    assert_eq!(directions(&[[0.0, 0.0], [4.0, 0.0]]), vec![[-1.0, 0.0], [1.0, 0.0]]);
    let aslant = directions(&[[0.0, 0.0], [30.0, 40.0]]);
    assert!((aslant[0][0] + 0.6).abs() < 1e-6 && (aslant[0][1] + 0.8).abs() < 1e-6, "got {aslant:?}");
}

#[test]
fn nearest_neighbor_pitch_is_zero_for_fewer_than_two_regions() {
    assert_eq!(pitch(&[]), 0.0);
    assert_eq!(pitch(&[[5.0, -3.0]]), 0.0);
}

#[test]
fn nearest_neighbor_pitch_reads_a_regular_grid_exactly() {
    assert_eq!(pitch(&[[0.0, 0.0], [10.0, 0.0], [0.0, 10.0], [10.0, 10.0]]), 10.0);
}

#[test]
fn nearest_neighbor_pitch_is_robust_to_a_single_outlier() {
    assert_eq!(pitch(&[[0.0, 0.0], [10.0, 0.0], [0.0, 10.0], [10.0, 10.0], [1000.0, 1000.0]]), 10.0);
}

#[test]
fn the_pitch_is_the_middle_of_the_nearest_distances() {
    // The nearest others are 1, 1, 4 and 5 away.
    assert_eq!(pitch(&[[0.0, 0.0], [1.0, 0.0], [5.0, 0.0], [10.0, 0.0]]), 4.0);
    assert_eq!(pitch(&[[0.0, 0.0], [3.0, 4.0]]), 5.0);
    assert_eq!(pitch(&[[0.0, 0.0], [1.0, 0.0], [3.0, 0.0], [6.0, 0.0]]), 2.0, "the upper one of two in the middle");
    assert_eq!(pitch(&[[3.0, 0.0], [6.0, 0.0], [0.0, 0.0], [1.0, 0.0]]), 2.0, "in whichever order");
}

#[test]
fn labels_go_one_unit_of_length() {
    let scattered: Vec<[f32; 2]> =
        (0..40).map(|i| [((i * 37) % 101) as f32 * 13.7 - 600.0, ((i * 53) % 97) as f32 * 21.3 - 900.0]).collect();
    for scale in [1.0f32, 1e-3, 1e15] {
        let places: Vec<[f32; 2]> = scattered.iter().map(|p| [p[0] * scale, p[1] * scale]).collect();
        for d in directions(&places) {
            let square = f64::from(d[0]) * f64::from(d[0]) + f64::from(d[1]) * f64::from(d[1]);
            assert!((square - 1.0).abs() <= 2.0f64.powi(-18), "{d:?}");
        }
    }
}

#[test]
fn coincident_places_are_no_distance_apart() {
    assert_eq!(pitch(&[[2.0, 2.0], [2.0, 2.0]]), 0.0);
}

#[test]
fn a_box_and_a_middle_of_some_points() {
    let some = points(&[[1.0, 8.0], [-3.0, 2.0], [5.0, 5.0]]);
    let around = bounds(&some);
    assert_eq!([number(around.min.x), number(around.min.y)], [-3.0, 2.0]);
    assert_eq!([number(around.max.x), number(around.max.y)], [5.0, 8.0]);
    let middle = centroid(&some);
    assert_eq!([number(middle.x), number(middle.y)], [1.0, 5.0]);
}

#[test]
fn lengths_are_those_of_the_plane() {
    let a = Point { x: q(3.0), y: q(-4.0) };
    let b = Point { x: q(0.0), y: q(0.0) };
    assert_eq!(number(a.length()), 5.0);
    assert_eq!(number(a.square()), 25.0);
    assert_eq!(number(b.distance(a)), 5.0);
    let unit = a.normalize();
    assert_eq!([number(unit.x), number(unit.y)], [3.0 * (1.0 / 5.0f32), -4.0 * (1.0 / 5.0f32)]);
}

#[test]
fn a_region_is_as_large_as_its_population() {
    assert_eq!(number(region_radius(q(900.0))), 900.0f32.sqrt() * 0.4);
    assert_eq!(number(region_radius(q(4.0))), 9.0);
    assert_eq!(number(region_radius(q(-1.0))), 9.0);
    assert_eq!(number(region_radius(q(1e6))), 22.0);
    assert_eq!(number(region_radius(q(f32::NAN))), 9.0);
    let mut last = 0.0;
    for population in [0.0f32, 1.0, 500.0, 600.0, 600.1, 900.0, 3000.0, f32::INFINITY] {
        let radius = number(region_radius(q(population)));
        assert!(last <= radius, "{population}");
        last = radius;
    }
}

#[test]
fn a_border_lies_around_its_region() {
    assert_eq!(number(owner_border_radius(q(20.0), false)), 20.0 + 20.0 * 0.18);
    assert_eq!(number(owner_border_radius(q(9.0), false)), 11.0);
    assert_eq!(number(owner_border_radius(q(40.0), false)), 45.0);
    assert_eq!(number(owner_border_radius(q(18.4), true)), 18.4 / 0.92);
}
