use texture_ripper::geometry::{ScreenPoint, WorldPoint, PLACEMENT_LIMIT, UNITS_PER_WORLD};
use texture_ripper::pan::{handle_pan, is_panning, pan_press, pan_release, PanSession};
use texture_ripper::viewport::ViewportState;

const U: i128 = UNITS_PER_WORLD;

fn sp(x: i32, y: i32) -> ScreenPoint {
    ScreenPoint { x, y }
}

#[test]
fn press_anchors_at_the_cursor_world_point() {
    let v = ViewportState::from_parts(WorldPoint { x: U, y: 2 * U }, 0).unwrap();
    let mut s = PanSession::Idle;
    pan_press(&mut s, &v, Some(sp(410, 290)), sp(400, 300));
    assert_eq!(s, PanSession::Panning { anchor: WorldPoint { x: 11 * U, y: -8 * U } });
    assert!(is_panning(&s));
}

#[test]
fn press_without_cursor_keeps_the_session() {
    let v = ViewportState::new();
    let mut s = PanSession::Idle;
    pan_press(&mut s, &v, None, sp(400, 300));
    assert_eq!(s, PanSession::Idle);
    assert!(!is_panning(&s));
    let held = PanSession::Panning { anchor: WorldPoint { x: 1, y: 2 } };
    let mut s = held;
    pan_press(&mut s, &v, None, sp(400, 300));
    assert_eq!(s, held);
}

#[test]
fn release_ends_the_drag() {
    let mut s = PanSession::Panning { anchor: WorldPoint { x: 1, y: 2 } };
    pan_release(&mut s);
    assert_eq!(s, PanSession::Idle);
    pan_release(&mut s);
    assert_eq!(s, PanSession::Idle);
}

#[test]
fn idle_pan_never_moves_the_view() {
    let half = sp(400, 300);
    let mut v = ViewportState::from_parts(WorldPoint { x: 7 * U, y: -3 * U }, 4).unwrap();
    let start = v;
    for c in [Some(sp(0, 0)), Some(sp(799, 599)), None, Some(sp(-5, 10_000))] {
        assert!(!handle_pan(&PanSession::Idle, &mut v, c, half));
        assert_eq!(v, start);
    }
}

#[test]
fn drag_moves_translation_by_the_screen_delta_times_scale() {
    let half = sp(400, 300);
    let mut v = ViewportState::from_parts(WorldPoint { x: 5 * U, y: 5 * U }, 1).unwrap();
    let scale = v.scale();
    let start = v.translation;
    let mut s = PanSession::Idle;
    pan_press(&mut s, &v, Some(sp(100, 100)), half);
    assert!(handle_pan(&s, &mut v, Some(sp(130, 60)), half));
    assert_eq!(v.translation.x - start.x, (100 - 130) * scale);
    assert_eq!(v.translation.y - start.y, (100 - 60) * scale);
    assert_eq!(v.level, 1);
}

#[test]
fn drag_is_independent_of_the_number_of_steps() {
    let half = sp(400, 300);
    let start = ViewportState::from_parts(WorldPoint { x: -2 * U, y: 9 * U }, -2).unwrap();
    let from = sp(200, 200);
    let to = sp(260, 170);

    let mut one = start;
    let mut s = PanSession::Idle;
    pan_press(&mut s, &one, Some(from), half);
    handle_pan(&s, &mut one, Some(to), half);

    let mut many = start;
    let mut s = PanSession::Idle;
    pan_press(&mut s, &many, Some(from), half);
    let path = [
        Some(sp(200, 200)),
        Some(sp(210, 195)),
        Some(sp(210, 195)),
        None,
        Some(sp(500, -40)),
        Some(sp(240, 180)),
        Some(to),
        Some(to),
        Some(to),
    ];
    for c in path {
        handle_pan(&s, &mut many, c, half);
    }
    assert_eq!(many, one);
    assert_eq!(one.translation.x, start.translation.x + (-60) * start.scale());
    assert_eq!(one.translation.y, start.translation.y + 30 * start.scale());
}

#[test]
fn tracking_puts_the_anchor_back_under_the_cursor() {
    let half = sp(400, 300);
    let mut v = ViewportState::from_parts(WorldPoint { x: 11, y: 13 }, 3).unwrap();
    let mut s = PanSession::Idle;
    pan_press(&mut s, &v, Some(sp(321, 123)), half);
    let anchor = v.screen_to_world(sp(321, 123), half);
    for c in [sp(0, 0), sp(700, 500), sp(321, 123)] {
        assert!(handle_pan(&s, &mut v, Some(c), half));
        assert_eq!(v.screen_to_world(c, half), anchor);
    }
    assert_eq!(v.translation, WorldPoint { x: 11, y: 13 });
}

#[test]
fn tracking_with_the_cursor_at_rest_moves_nothing() {
    let half = sp(400, 300);
    let mut v = ViewportState::new();
    let mut s = PanSession::Idle;
    pan_press(&mut s, &v, Some(sp(10, 10)), half);
    let start = v;
    assert!(handle_pan(&s, &mut v, Some(sp(10, 10)), half));
    assert_eq!(v, start);
}

#[test]
fn tracking_without_cursor_moves_nothing() {
    let half = sp(400, 300);
    let mut v = ViewportState::new();
    let s = PanSession::Panning { anchor: WorldPoint { x: 99 * U, y: 0 } };
    assert!(!handle_pan(&s, &mut v, None, half));
    assert_eq!(v, ViewportState::new());
}

#[test]
fn tracking_past_the_placement_limit_moves_nothing() {
    let half = sp(0, 0);
    let mut v = ViewportState::new();
    let start = v;
    let s = PanSession::Panning { anchor: WorldPoint { x: PLACEMENT_LIMIT + 1, y: 0 } };
    assert!(!handle_pan(&s, &mut v, Some(sp(0, 0)), half));
    assert_eq!(v, start);
    let s = PanSession::Panning { anchor: WorldPoint { x: i128::MAX, y: i128::MIN } };
    assert!(!handle_pan(&s, &mut v, Some(sp(0, 0)), half));
    assert_eq!(v, start);
    let s = PanSession::Panning { anchor: WorldPoint { x: PLACEMENT_LIMIT, y: -PLACEMENT_LIMIT } };
    assert!(handle_pan(&s, &mut v, Some(sp(0, 0)), half));
    assert_eq!(v.translation, WorldPoint { x: PLACEMENT_LIMIT, y: -PLACEMENT_LIMIT });
}
