use archipelago_game::camera::{
    fit_camera_to_map, handle_right_column_scroll, keyboard_pan, keyboard_zoom, mouse_pan_zoom, mouse_scroll, window_height_for_layout,
    zoom_by, Arrows, Buttons, Camera, Gestures, Scrolling, Wheel,
};
use archipelago_game::quantity::Quantity;
use archipelago_game::world::Point;

fn q(x: f32) -> Quantity {
    Quantity { bits: x.to_bits() }
}

fn number(x: Quantity) -> f32 {
    f32::from_bits(x.bits)
}

fn at(x: f32, y: f32) -> Point {
    Point { x: q(x), y: q(y) }
}

fn camera() -> Camera {
    Camera { at: at(0.0, 0.0), scale: q(1.0) }
}

fn place(camera: Camera) -> [f32; 2] {
    [number(camera.at.x), number(camera.at.y)]
}

const NONE: Arrows = Arrows { up: false, down: false, left: false, right: false };

const RELEASED: Buttons = Buttons { left: false, middle: false, right: false };

fn gestures() -> Gestures {
    Gestures { buttons: RELEASED, ctrl: false, motions: Vec::new(), wheel: Vec::new(), pinches: Vec::new() }
}

fn lines(x: f32, y: f32) -> Wheel {
    Wheel { pixels: false, by: at(x, y) }
}

#[test]
fn keyboard_pan_moves_camera_with_arrow_up() {
    let after = keyboard_pan(camera(), Arrows { up: true, ..NONE }, q(1.0));
    assert_eq!(place(after), [0.0, 900.0], "one second of ArrowUp must move the camera up by exactly 900 world units");
    assert_eq!(number(after.scale), 1.0, "arrow-key panning must never touch zoom");
}

#[test]
fn keyboard_pan_is_a_noop_with_no_keys_held() {
    assert_eq!(keyboard_pan(camera(), NONE, q(1.0)), camera(), "no key held must never move the camera");
}

#[test]
fn keyboard_pan_cancels_opposite_arrow_keys() {
    let all = Arrows { up: true, down: true, left: true, right: true };
    assert_eq!(keyboard_pan(camera(), all, q(1.0)), camera(), "opposite held arrow keys must cancel out, not stack");
}

#[test]
fn each_arrow_leads_its_own_way() {
    let go = |arrows: Arrows| place(keyboard_pan(Camera { at: at(10.0, 20.0), scale: q(2.0) }, arrows, q(0.5)));
    assert_eq!(go(Arrows { down: true, ..NONE }), [10.0, -880.0]);
    assert_eq!(go(Arrows { left: true, ..NONE }), [-890.0, 20.0]);
    assert_eq!(go(Arrows { right: true, up: true, down: true, ..NONE }), [910.0, 20.0]);
    let aslant = go(Arrows { right: true, up: true, ..NONE });
    let by = 1.0f32 / 2.0f32.sqrt() * 900.0 * 2.0 * 0.5;
    assert_eq!(aslant, [10.0 + by, 20.0 + by], "two keys together are no faster than one");
}

#[test]
fn mouse_wheel_scroll_pans_without_ctrl() {
    let after = mouse_pan_zoom(camera(), &Gestures { wheel: vec![lines(0.0, 1.0)], ..gestures() });
    assert_eq!(place(after), [0.0, -60.0], "one line of unmodified scroll must pan by exactly -60 world units");
    assert_eq!(number(after.scale), 1.0, "unmodified scroll must never touch zoom");
}

#[test]
fn ctrl_scroll_zooms_instead_of_panning() {
    let after = mouse_pan_zoom(camera(), &Gestures { ctrl: true, wheel: vec![lines(0.0, 1.0)], ..gestures() });
    assert_eq!(place(after), [0.0, 0.0], "Ctrl+scroll must never pan");
    assert_eq!(number(after.scale), 0.9, "Ctrl+scroll must zoom the projection scale to exactly 0.9");
}

#[test]
fn pinch_gesture_zooms() {
    let after = mouse_pan_zoom(camera(), &Gestures { pinches: vec![q(0.2)], ..gestures() });
    assert_eq!(place(after), [0.0, 0.0], "a pinch gesture must never pan");
    assert_eq!(number(after.scale), 0.8, "a positive pinch delta (magnify) must zoom the projection scale to exactly 0.8");
}

#[test]
fn middle_button_drag_pans() {
    let held = Buttons { middle: true, ..RELEASED };
    let after = mouse_pan_zoom(camera(), &Gestures { buttons: held, motions: vec![at(10.0, 20.0)], ..gestures() });
    assert_eq!(place(after), [-10.0, 20.0], "a middle-button drag must pan by its motion delta");
}

#[test]
fn left_button_drag_does_not_pan_camera() {
    let held = Buttons { left: true, ..RELEASED };
    let after = mouse_pan_zoom(camera(), &Gestures { buttons: held, motions: vec![at(50.0, 50.0)], ..gestures() });
    assert_eq!(place(after), [0.0, 0.0], "a left-button drag must never pan the camera");
    assert_eq!(number(after.scale), 1.0, "a left-button drag must never zoom the camera either");
}

#[test]
fn all_gestures_of_a_frame_add_up() {
    let after = mouse_pan_zoom(
        Camera { at: at(5.0, 5.0), scale: q(2.0) },
        &Gestures {
            buttons: Buttons { middle: true, ..RELEASED },
            ctrl: false,
            motions: vec![at(1.0, 2.0), at(3.0, 4.0)],
            wheel: vec![lines(1.0, 0.0), Wheel { pixels: true, by: at(100.0, 200.0) }],
            pinches: vec![q(0.5), q(0.5)],
        },
    );
    assert_eq!(place(after), [5.0 - 2.0 - 6.0 + 240.0, 5.0 + 4.0 + 8.0 - 240.0]);
    assert_eq!(number(after.scale), 0.5);
}

#[test]
fn scrolling_pans_and_with_control_zooms() {
    assert_eq!(mouse_scroll(false, at(0.0, 1.0)), Scrolling::Pan);
    assert_eq!(mouse_scroll(false, at(-2.0, 0.0)), Scrolling::Pan);
    assert_eq!(mouse_scroll(false, at(0.0, -0.0)), Scrolling::Nothing);
    assert_eq!(mouse_scroll(true, at(0.0, 1.0)), Scrolling::Zoom);
    assert_eq!(mouse_scroll(true, at(5.0, 0.0)), Scrolling::Nothing);
}

#[test]
fn the_camera_stays_within_its_limits() {
    assert_eq!(number(zoom_by(q(0.3), q(0.9))), 0.25);
    assert_eq!(number(zoom_by(q(3.0), q(-2.0))), 4.0);
    assert_eq!(number(zoom_by(q(2.0), q(0.5))), 1.0);
}

#[test]
fn keys_zoom_while_control_is_held() {
    let zoom = |ctrl: bool, minus: bool, equal: bool| number(keyboard_zoom(q(2.0), ctrl, minus, equal, q(0.5)));
    assert_eq!(zoom(true, false, true), 1.0);
    assert_eq!(zoom(true, true, false), 3.0);
    assert_eq!(zoom(true, true, true), 1.5);
    assert_eq!(zoom(true, false, false), 2.0);
    assert_eq!(zoom(false, true, true), 2.0);
}

#[test]
fn zooming_in_comes_nearer() {
    for scale in [0.25f32, 0.3, 1.0, 3.3, 4.0] {
        for by in [0.0f32, 1e-9, 0.1, 1.0, 7.0, f32::INFINITY] {
            assert!(number(zoom_by(q(scale), q(by))) <= scale, "{scale} {by}");
            assert!(number(zoom_by(q(scale), q(-by))) >= scale, "{scale} {by}");
        }
    }
}

fn positions(list: &[[f32; 2]]) -> Vec<Point> {
    list.iter().map(|p| at(p[0], p[1])).collect()
}

fn height(list: &[[f32; 2]]) -> f32 {
    number(window_height_for_layout(&positions(list)))
}

#[test]
fn mvp_shaped_layout_stays_close_to_the_default_height() {
    let height = height(&[[0.0, 0.0], [520.0, 0.0], [0.0, 400.0], [520.0, 400.0]]);
    assert!(height >= 800.0, "must never go below the floor, got {height}");
    assert!(height <= 800.0 + 100.0, "a landscape-ish map like mvp must stay close to the default height, got {height}");
}

#[test]
fn tall_narrow_layout_grows_the_window_within_the_ceiling() {
    let height = height(&[[0.0, 0.0], [1580.0, 0.0], [0.0, 2113.0], [1580.0, 2113.0]]);
    assert!(height > 800.0, "a tall map must grow the window, got {height}");
    assert!(height <= 1300.0, "must never exceed the ceiling, got {height}");
}

#[test]
fn degenerate_layout_falls_back_to_the_default() {
    assert_eq!(height(&[]), 800.0);
    assert_eq!(height(&[[3.0, 4.0]]), 800.0);
    assert_eq!(height(&[[3.0, 4.0], [3.0, 9.0]]), 800.0);
}

#[test]
fn the_room_between_the_panels_takes_the_shape_of_the_map() {
    assert_eq!(height(&[[0.0, 0.0], [520.0, 600.0]]), 620.0f32 * (600.0f32 / 520.0) + 70.0 + 230.0);
    assert_eq!(height(&[[0.0, 0.0], [100.0, 500.0]]), 1300.0);
    assert_eq!(height(&[[0.0, 0.0], [1e-30, 1e30]]), 1300.0, "too narrow for its shape to be a quantity");
}

#[test]
fn the_whole_map_fits_between_the_panels() {
    assert_eq!(fit_camera_to_map(&Vec::new(), at(1280.0, 800.0)), None);
    let fitted = fit_camera_to_map(&positions(&[[0.0, 0.0], [1076.0, 336.0]]), at(1280.0, 800.0)).unwrap();
    // The room is 620 by 500, the map with its margin 1240 by 500: two to one.
    assert_eq!(number(fitted.scale), 2.0);
    assert_eq!(place(fitted), [538.0, 168.0 + (70.0 + 250.0 - 400.0) * 2.0]);
    let small = fit_camera_to_map(&positions(&[[1.0, 2.0]]), at(10000.0, 10000.0)).unwrap();
    assert_eq!(number(small.scale), 0.05);
}

#[test]
fn the_page_keys_scroll_the_column() {
    let scroll = |from: f32, down: bool, up: bool| number(handle_right_column_scroll(q(from), down, up, q(0.5)));
    assert_eq!(scroll(10.0, true, false), 310.0);
    assert_eq!(scroll(400.0, false, true), 100.0);
    assert_eq!(scroll(10.0, false, true), 0.0, "never above its top");
    assert_eq!(scroll(10.0, false, false), 10.0);
    assert_eq!(scroll(10.0, true, true), 10.0);
}
