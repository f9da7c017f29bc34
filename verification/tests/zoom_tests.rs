use texture_ripper::geometry::{ScreenPoint, WorldPoint, PLACEMENT_LIMIT, UNITS_PER_WORLD};
use texture_ripper::viewport::{ViewportState, MAX_ZOOM_LEVEL, MIN_ZOOM_LEVEL};
use texture_ripper::zoom::{zoom_step, zoom_ticks, ZoomDirection, ZoomTick};

const U: i128 = UNITS_PER_WORLD;

fn sp(x: i32, y: i32) -> ScreenPoint {
    ScreenPoint { x, y }
}

fn tick(direction: ZoomDirection, x: i32, y: i32) -> ZoomTick {
    ZoomTick { direction, cursor: Some(sp(x, y)) }
}

#[test]
fn zoom_in_multiplies_scale_by_four_fifths() {
    let mut v = ViewportState::new();
    assert!(zoom_step(&mut v, ZoomDirection::In, Some(sp(400, 300)), sp(400, 300)));
    assert_eq!(v.level, 1);
    assert_eq!(v.scale() * 5, U * 4);
    assert_eq!(v.translation, WorldPoint { x: 0, y: 0 });
}

#[test]
fn zoom_out_multiplies_scale_by_five_fourths() {
    let mut v = ViewportState::new();
    assert!(zoom_step(&mut v, ZoomDirection::Out, Some(sp(400, 300)), sp(400, 300)));
    assert_eq!(v.level, -1);
    assert_eq!(v.scale() * 4, U * 5);
}

#[test]
fn zoom_shifts_translation_toward_an_off_centre_cursor() {
    let mut v = ViewportState::new();
    let half = sp(400, 300);
    assert!(zoom_step(&mut v, ZoomDirection::In, Some(sp(500, 250)), half));
    // (cursor - half) * (old scale - new scale)
    assert_eq!(v.translation.x, 100 * (U - U / 5 * 4));
    assert_eq!(v.translation.y, -50 * (U - U / 5 * 4));
    assert_eq!(v.translation, WorldPoint { x: 512_000_000_000, y: -256_000_000_000 });
}

#[test]
fn zoom_keeps_the_world_point_under_the_cursor() {
    let half = sp(400, 300);
    let cursors = [sp(0, 0), sp(400, 300), sp(799, 599), sp(13, 577), sp(-20, 1000)];
    let mut level = MIN_ZOOM_LEVEL;
    while level <= MAX_ZOOM_LEVEL {
        for c in cursors {
            for direction in [ZoomDirection::In, ZoomDirection::Out] {
                let mut v =
                    ViewportState::from_parts(WorldPoint { x: 3 * U + 17, y: -9 * U }, level).unwrap();
                let before = v.screen_to_world(c, half);
                zoom_step(&mut v, direction, Some(c), half);
                assert_eq!(v.screen_to_world(c, half), before);
                assert!(v.is_valid());
            }
        }
        level += 1;
    }
}

#[test]
fn zoom_in_then_out_restores_the_scale() {
    let half = sp(400, 300);
    let mut v = ViewportState::new();
    let start = v.scale();
    zoom_step(&mut v, ZoomDirection::In, Some(sp(10, 20)), half);
    zoom_step(&mut v, ZoomDirection::Out, Some(sp(700, 90)), half);
    assert_eq!(v.scale(), start);
    assert_eq!(v.level, 0);
}

#[test]
fn zoom_in_then_out_at_one_cursor_restores_the_view() {
    let half = sp(400, 300);
    let mut v = ViewportState::from_parts(WorldPoint { x: 5 * U, y: 6 * U }, -3).unwrap();
    let start = v;
    zoom_step(&mut v, ZoomDirection::In, Some(sp(123, 456)), half);
    assert_ne!(v, start);
    zoom_step(&mut v, ZoomDirection::Out, Some(sp(123, 456)), half);
    assert_eq!(v, start);
}

#[test]
fn balanced_runs_restore_the_scale() {
    let half = sp(400, 300);
    let mut v = ViewportState::new();
    let ticks = vec![
        tick(ZoomDirection::In, 1, 2),
        tick(ZoomDirection::In, 300, 40),
        tick(ZoomDirection::Out, 50, 60),
        tick(ZoomDirection::In, 7, 8),
        tick(ZoomDirection::Out, 9, 10),
        tick(ZoomDirection::Out, 11, 12),
    ];
    let applied = zoom_ticks(&mut v, &ticks, half);
    assert_eq!(applied, 6);
    assert_eq!(v.level, 0);
    assert_eq!(v.scale(), U);
}

#[test]
fn zoom_without_cursor_changes_nothing() {
    let mut v = ViewportState::from_parts(WorldPoint { x: U, y: U }, 2).unwrap();
    let start = v;
    assert!(!zoom_step(&mut v, ZoomDirection::In, None, sp(400, 300)));
    assert_eq!(v, start);
    assert!(!zoom_step(&mut v, ZoomDirection::Out, None, sp(400, 300)));
    assert_eq!(v, start);
}

#[test]
fn zoom_stops_at_the_last_level() {
    let half = sp(400, 300);
    let mut v = ViewportState::from_parts(WorldPoint { x: 0, y: 0 }, MAX_ZOOM_LEVEL).unwrap();
    let start = v;
    assert!(!zoom_step(&mut v, ZoomDirection::In, Some(sp(1, 1)), half));
    assert_eq!(v, start);
    assert!(zoom_step(&mut v, ZoomDirection::Out, Some(sp(1, 1)), half));
    assert_eq!(v.level, MAX_ZOOM_LEVEL - 1);

    let mut v = ViewportState::from_parts(WorldPoint { x: 0, y: 0 }, MIN_ZOOM_LEVEL).unwrap();
    let start = v;
    assert!(!zoom_step(&mut v, ZoomDirection::Out, Some(sp(1, 1)), half));
    assert_eq!(v, start);
    assert!(v.scale() > 0);
}

#[test]
fn zoom_in_at_the_last_level_then_out_does_not_restore() {
    let half = sp(400, 300);
    let mut v = ViewportState::from_parts(WorldPoint { x: 0, y: 0 }, MAX_ZOOM_LEVEL).unwrap();
    let ticks = vec![tick(ZoomDirection::In, 400, 300), tick(ZoomDirection::Out, 400, 300)];
    assert_eq!(zoom_ticks(&mut v, &ticks, half), 1);
    assert_eq!(v.level, MAX_ZOOM_LEVEL - 1);
}

#[test]
fn zoom_past_the_placement_limit_changes_nothing() {
    let half = sp(0, 0);
    let mut v =
        ViewportState::from_parts(WorldPoint { x: PLACEMENT_LIMIT, y: 0 }, 0).unwrap();
    let start = v;
    assert!(!zoom_step(&mut v, ZoomDirection::In, Some(sp(1, 0)), half));
    assert_eq!(v, start);
    assert!(zoom_step(&mut v, ZoomDirection::In, Some(sp(-1, 0)), half));
    assert_eq!(v.translation.x, PLACEMENT_LIMIT - U / 5);
}

#[test]
fn ticks_apply_in_arrival_order() {
    let half = sp(0, 0);
    let ticks = vec![tick(ZoomDirection::In, 100, 0), tick(ZoomDirection::Out, -100, 0)];
    let mut batch = ViewportState::new();
    assert_eq!(zoom_ticks(&mut batch, &ticks, half), 2);
    let mut single = ViewportState::new();
    zoom_step(&mut single, ZoomDirection::In, Some(sp(100, 0)), half);
    zoom_step(&mut single, ZoomDirection::Out, Some(sp(-100, 0)), half);
    assert_eq!(batch, single);
    // 100 * (U - 0.8 U) + (-100) * (0.8 U - U)
    assert_eq!(batch.translation.x, 40 * U);

    let reversed = vec![tick(ZoomDirection::Out, -100, 0), tick(ZoomDirection::In, 100, 0)];
    let mut other = ViewportState::new();
    zoom_ticks(&mut other, &reversed, half);
    assert_eq!(other.translation.x, 50 * U);
}

#[test]
fn empty_run_of_ticks_changes_nothing() {
    let mut v = ViewportState::from_parts(WorldPoint { x: 4, y: 5 }, -2).unwrap();
    let start = v;
    assert_eq!(zoom_ticks(&mut v, &Vec::new(), sp(400, 300)), 0);
    assert_eq!(v, start);
}
