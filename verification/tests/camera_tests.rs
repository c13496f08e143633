use moonlit::camera::{apply_displacement, displacement, CameraConfig, MoveInput};
use moonlit::coords::{WorldPos, VIEW_LIMIT};

fn cfg(normalize: bool) -> CameraConfig {
    CameraConfig { speed: 200, normalize_diagonal: normalize }
}

#[test]
fn axis_movement_scales_by_speed_and_time() {
    // 200 units per second over a full second moves one axis by 200.
    let d = displacement(MoveInput { dx: 1, dy: 0 }, cfg(true), 1000);
    assert_eq!(d, (200, 0));
    let d = displacement(MoveInput { dx: 0, dy: -1 }, cfg(true), 1000);
    assert_eq!(d, (0, -200));
}

#[test]
fn movement_scales_by_tick_time() {
    // A 16 ms tick at 200 units per second moves 3 whole units.
    let d = displacement(MoveInput { dx: 1, dy: 0 }, cfg(true), 16);
    assert_eq!(d, (3, 0));
}

#[test]
fn idle_input_does_not_move() {
    let d = displacement(MoveInput { dx: 0, dy: 0 }, cfg(true), 1000);
    assert_eq!(d, (0, 0));
}

#[test]
fn diagonal_movement_is_normalized() {
    // 200 * 707 / 1000 = 141 per axis when normalization is on.
    let d = displacement(MoveInput { dx: 1, dy: 1 }, cfg(true), 1000);
    assert_eq!(d, (141, 141));
    // Squared length stays within the axis-aligned squared step.
    assert!(d.0 * d.0 + d.1 * d.1 <= 200 * 200);
}

#[test]
fn diagonal_movement_without_normalization_is_per_axis() {
    let d = displacement(MoveInput { dx: -1, dy: 1 }, cfg(false), 1000);
    assert_eq!(d, (-200, 200));
}

#[test]
fn apply_displacement_moves_the_viewpoint() {
    let vp = apply_displacement(WorldPos { x: 10, y: -10 }, (141, -141));
    assert_eq!((vp.x, vp.y), (151, -151));
}

#[test]
fn apply_displacement_saturates_at_the_world_limit() {
    let vp = apply_displacement(WorldPos { x: VIEW_LIMIT, y: -VIEW_LIMIT }, (100, -100));
    assert_eq!((vp.x, vp.y), (VIEW_LIMIT, -VIEW_LIMIT));
}
