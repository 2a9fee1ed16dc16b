use archipelago_game::quantity::Quantity;
use archipelago_game::screenshot::{
    debug_camera, handle_screenshot_captured, is_blank, maybe_capture_screenshot, report_format, save_failure_text,
    screenshot_format, ScreenshotAttempts, ScreenshotConfig, ScreenshotTrigger, Verdict, MAX_BLANK_CAPTURE_ATTEMPTS,
    MIN_RENDER_WARMUP_FRAMES,
};
use archipelago_game::types::RegionId;
use archipelago_game::world::Point;

fn q(x: f32) -> Quantity {
    Quantity { bits: x.to_bits() }
}

fn config(trigger: ScreenshotTrigger) -> ScreenshotConfig {
    ScreenshotConfig {
        path: "shot.png".to_string(),
        trigger,
        open_diplomacy: false,
        open_newspaper: false,
        open_policy: false,
        map_mode: None,
        industry_good: None,
        select_region: None,
        select_units: false,
        camera_focus_region: None,
        camera_zoom: q(1.0),
        debug_force_blank: false,
    }
}

/// The frame in which the first picture is asked for.
fn first_capture(config: &ScreenshotConfig, day: u32) -> u32 {
    let mut attempts = ScreenshotAttempts::default();
    for frame in 1..1000 {
        if maybe_capture_screenshot(&mut attempts, config, day) {
            return frame;
        }
    }
    panic!("no picture was asked for");
}

#[test]
fn a_picture_waits_for_its_frame_and_for_the_renderer() {
    assert_eq!(first_capture(&config(ScreenshotTrigger::AfterFrames(50)), 0), 50);
    assert_eq!(first_capture(&config(ScreenshotTrigger::AfterFrames(2)), 0), MIN_RENDER_WARMUP_FRAMES);
    assert_eq!(first_capture(&config(ScreenshotTrigger::AtDay(5)), 5), MIN_RENDER_WARMUP_FRAMES);
}

#[test]
fn a_picture_of_a_day_waits_for_the_day() {
    let config = config(ScreenshotTrigger::AtDay(5));
    let mut attempts = ScreenshotAttempts { frames: 100, in_flight: false, blank_count: 0 };
    assert!(!maybe_capture_screenshot(&mut attempts, &config, 4));
    assert!(maybe_capture_screenshot(&mut attempts, &config, 5));
    assert!(attempts.in_flight);
    assert!(!maybe_capture_screenshot(&mut attempts, &config, 6), "one picture at a time");
}

#[test]
fn a_forced_blank_picture_is_taken_at_once_and_refused_at_once() {
    let mut config = config(ScreenshotTrigger::AfterFrames(0));
    config.debug_force_blank = true;
    assert_eq!(first_capture(&config, 0), 1);
    let mut attempts = ScreenshotAttempts { frames: 1, in_flight: true, blank_count: 0 };
    let verdict = handle_screenshot_captured(&mut attempts, &config, &[1, 2, 3, 4, 5, 6]);
    assert!(matches!(verdict, Verdict::GiveUp(_)));
}

#[test]
fn a_picture_of_one_colour_is_blank() {
    assert!(is_blank(&[]));
    assert!(is_blank(&[7, 8, 9]));
    assert!(is_blank(&[7, 8, 9, 7, 8, 9]));
    assert!(!is_blank(&[7, 8, 9, 7, 8, 10]));
    assert!(!is_blank(&[7, 7, 7, 7, 7, 7, 7, 7, 8]));
}

#[test]
fn a_blank_picture_is_never_saved_and_given_up_in_the_end() {
    let config = config(ScreenshotTrigger::AfterFrames(10));
    let mut attempts = ScreenshotAttempts::default();
    for _ in 1..MAX_BLANK_CAPTURE_ATTEMPTS {
        attempts.in_flight = true;
        assert_eq!(handle_screenshot_captured(&mut attempts, &config, &[0; 12]), Verdict::Retry);
        assert!(!attempts.in_flight);
    }
    match handle_screenshot_captured(&mut attempts, &config, &[0; 12]) {
        Verdict::GiveUp(text) => {
            assert!(text.contains("30 time(s) in a row (limit 30)"), "{text}");
            assert!(text.ends_with("no screenshot was saved to shot.png."), "{text}");
        }
        other => panic!("{other:?}"),
    }
    assert_eq!(attempts.blank_count, MAX_BLANK_CAPTURE_ATTEMPTS);
}

#[test]
fn a_picture_with_something_on_it_is_saved() {
    let config = config(ScreenshotTrigger::AfterFrames(10));
    let mut attempts = ScreenshotAttempts { frames: 12, in_flight: true, blank_count: 3 };
    assert_eq!(handle_screenshot_captured(&mut attempts, &config, &[0, 0, 0, 1, 0, 0]), Verdict::Save);
    assert_eq!(attempts, ScreenshotAttempts { frames: 12, in_flight: true, blank_count: 3 });
}

#[test]
fn the_extension_names_the_format() {
    assert_eq!(screenshot_format("out/shot.png"), Ok("png".to_string()));
    assert_eq!(screenshot_format("SHOT.PNG"), Ok("png".to_string()));
    assert_eq!(screenshot_format("shot.jpeg"), Ok("jpg".to_string()));
}

#[test]
fn a_path_without_a_known_extension_is_refused() {
    let nothing = screenshot_format("shot").unwrap_err();
    assert_eq!(
        nothing,
        "archipelago-game: error: could not save screenshot to shot: The image format could not be determined"
    );
    let unknown = screenshot_format("shot.xyz").unwrap_err();
    assert_eq!(
        unknown,
        "archipelago-game: error: could not save screenshot to shot.xyz: The file extension `.\"xyz\"` was not recognized as an image format"
    );
}

#[test]
fn a_found_format_is_handed_on() {
    assert_eq!(report_format("a.png", Ok("png".to_string())), Ok("png".to_string()));
    assert_eq!(
        report_format("a.b", Err("no".to_string())),
        Err("archipelago-game: error: could not save screenshot to a.b: no".to_string())
    );
    assert_eq!(save_failure_text("a", "b"), "archipelago-game: error: could not save screenshot to a: b");
}

#[test]
fn the_camera_is_centred_on_a_region_that_exists() {
    let layout = vec![Point { x: q(1.0), y: q(2.0) }, Point { x: q(3.0), y: q(4.0) }];
    let mut wanted = config(ScreenshotTrigger::AfterFrames(10));
    assert_eq!(debug_camera(&None, &layout), None);
    assert_eq!(debug_camera(&Some(wanted.clone()), &layout), None);
    wanted.camera_focus_region = Some(RegionId(1));
    wanted.camera_zoom = q(0.5);
    assert_eq!(debug_camera(&Some(wanted.clone()), &layout), Some((Point { x: q(3.0), y: q(4.0) }, q(0.5))));
    wanted.camera_focus_region = Some(RegionId(2));
    assert_eq!(debug_camera(&Some(wanted), &layout), None);
}
