use issen::config::DisplayTarget;
use issen::display::{
    centered_position, first_monitor, resolve_show_target, Monitor, Position, WorkArea,
};

fn position(p: Position) -> (f32, f32) {
    (p.x_halves as f32 / 2.0, p.y_thirds as f32 / 3.0)
}

#[test]
fn centers_horizontally_and_sits_in_upper_third_vertically() {
    let work = WorkArea {
        left: 0,
        top: 0,
        right: 1920,
        bottom: 1080,
    };
    let (x, y) = position(centered_position(work, 640, 60));
    assert_eq!(x, 640.0);
    assert_eq!(y, 340.0);
}

#[test]
fn accounts_for_a_non_primary_monitors_offset() {
    // A secondary display sitting to the right of the primary one.
    let work = WorkArea {
        left: 1920,
        top: 0,
        right: 1920 + 1280,
        bottom: 1024,
    };
    let (x, y) = position(centered_position(work, 640, 60));
    assert_eq!(x, 1920.0 + 320.0);
    assert_eq!(y, (1024.0 - 60.0) / 3.0);
}

#[test]
fn pixels_are_rounded_toward_zero() {
    assert_eq!(Position { x_halves: 5, y_thirds: 5 }.pixels(), (2, 1));
    assert_eq!(Position { x_halves: -5, y_thirds: -5 }.pixels(), (-2, -1));
    let far = Position { x_halves: i64::MAX, y_thirds: -i64::MAX };
    assert_eq!(far.pixels(), (i32::MAX, i32::MIN));
}

#[test]
fn the_first_display_that_answers_is_used() {
    let left = WorkArea { left: 0, top: 0, right: 100, bottom: 90 };
    let right = WorkArea { left: 100, top: 0, right: 200, bottom: 90 };
    assert_eq!(
        resolve_show_target(Some(right), Some(left), 20, 30),
        centered_position(right, 20, 30)
    );
    assert_eq!(
        resolve_show_target(None, Some(left), 20, 30),
        centered_position(left, 20, 30)
    );
    assert_eq!(resolve_show_target(None, None, 20, 30).pixels(), (100, 100));
}

#[test]
fn each_target_has_its_display() {
    assert_eq!(first_monitor(DisplayTarget::Cursor), Monitor::UnderCursor);
    assert_eq!(first_monitor(DisplayTarget::Primary), Monitor::Primary);
    assert_eq!(first_monitor(DisplayTarget::FocusedWindow), Monitor::OfForegroundWindow);
}
