//! Drag-to-pan.
//!
//! A press records the world point under the cursor as the drag's anchor.
//! While the drag lasts, each tracking step moves the translation so that
//! the anchor is under the cursor again. The step works from the view as it
//! is now, so after it the cursor's world point is the anchor, and a step
//! repeated with the cursor at rest moves nothing. A step that has no
//! cursor, or that would push the translation past the placement limit,
//! leaves the view as it was.

use crate::geometry::{coord_placeable, ScreenPoint, WorldPoint, PLACEMENT_LIMIT};
use crate::viewport::{lemma_world_bounds, ViewportState};
use vstd::prelude::*;

verus! {

/// The state of the drag gesture.
#[derive(Clone, Copy, Debug, PartialEq, Eq, Structural)]
pub enum PanSession {
    /// No drag is in progress.
    Idle,
    /// A drag is in progress; `anchor` is the world point that the cursor
    /// was over when the button went down.
    Panning { anchor: WorldPoint },
}

/// The session after a button press.
pub open spec fn press_result(
    session: PanSession,
    view: ViewportState,
    cursor: Option<ScreenPoint>,
    half: ScreenPoint,
) -> PanSession {
    match cursor {
        Some(c) => PanSession::Panning {
            anchor: WorldPoint { x: view.world_x(c, half) as i128, y: view.world_y(c, half) as i128 },
        },
        None => session,
    }
}

/// The translation's x coordinate after a tracking step: the translation
/// plus the anchor less the cursor's world position.
pub open spec fn tracked_x(
    anchor: WorldPoint,
    view: ViewportState,
    cursor: ScreenPoint,
    half: ScreenPoint,
) -> int {
    view.translation.x + (anchor.x - view.world_x(cursor, half))
}

/// The translation's y coordinate after a tracking step.
pub open spec fn tracked_y(
    anchor: WorldPoint,
    view: ViewportState,
    cursor: ScreenPoint,
    half: ScreenPoint,
) -> int {
    view.translation.y + (anchor.y - view.world_y(cursor, half))
}

/// Whether a tracking step applies: a drag is in progress, there is a
/// cursor, and the new translation is within the placement limit.
pub open spec fn track_applies(
    session: PanSession,
    view: ViewportState,
    cursor: Option<ScreenPoint>,
    half: ScreenPoint,
) -> bool {
    match (session, cursor) {
        (PanSession::Panning { anchor }, Some(c)) => coord_placeable(tracked_x(anchor, view, c, half))
            && coord_placeable(tracked_y(anchor, view, c, half)),
        _ => false,
    }
}

/// The view after a tracking step.
pub open spec fn track_result(
    session: PanSession,
    view: ViewportState,
    cursor: Option<ScreenPoint>,
    half: ScreenPoint,
) -> ViewportState {
    match (session, cursor) {
        (PanSession::Panning { anchor }, Some(c)) => if track_applies(session, view, cursor, half) {
            ViewportState {
                translation: WorldPoint {
                    x: tracked_x(anchor, view, c, half) as i128,
                    y: tracked_y(anchor, view, c, half) as i128,
                },
                level: view.level,
            }
        } else {
            view
        },
        _ => view,
    }
}

/// The view after a run of tracking steps, one for each cursor sample.
pub open spec fn drag(
    session: PanSession,
    view: ViewportState,
    samples: Seq<Option<ScreenPoint>>,
    half: ScreenPoint,
) -> ViewportState
    decreases samples.len(),
{
    if samples.len() == 0 {
        view
    } else {
        track_result(session, drag(session, view, samples.drop_last(), half), samples.last(), half)
    }
}

/// Button press: with a cursor, a drag begins, anchored at the world point
/// under the cursor; without one, the session stays as it is.
pub fn pan_press(
    session: &mut PanSession,
    view: &ViewportState,
    cursor: Option<ScreenPoint>,
    half: ScreenPoint,
)
    requires
        view.wf(),
    ensures
        *final(session) == press_result(*old(session), *view, cursor, half),
        match cursor {
            Some(c) => match *final(session) {
                PanSession::Panning { anchor } => view.maps_to(c, half, anchor),
                PanSession::Idle => false,
            },
            None => *final(session) == *old(session),
        },
{
    match cursor {
        Some(c) => {
            let anchor = view.screen_to_world(c, half);
            *session = PanSession::Panning { anchor };
        },
        None => {},
    }
}

/// Button release: the drag ends, wherever the cursor is.
pub fn pan_release(session: &mut PanSession)
    ensures
        *final(session) == PanSession::Idle,
{
    *session = PanSession::Idle;
}

/// Decides whether a drag is in progress.
pub fn is_panning(session: &PanSession) -> (active: bool)
    ensures
        active == (*session != PanSession::Idle),
{
    match session {
        PanSession::Idle => false,
        PanSession::Panning { .. } => true,
    }
}

/// The new translation along one axis, if it is within the placement limit.
fn follow_axis(translation: i128, anchor: i128, current: i128) -> (r: Option<i128>)
    requires
        coord_placeable(translation as int),
        -32 * PLACEMENT_LIMIT <= current <= 32 * PLACEMENT_LIMIT,
    ensures
        r.is_some() <==> coord_placeable(translation + (anchor - current)),
        r.is_some() ==> r.unwrap() == translation + (anchor - current),
{
    if anchor > 64 * PLACEMENT_LIMIT || anchor < -64 * PLACEMENT_LIMIT {
        return None;
    }
    let moved: i128 = translation + (anchor - current);
    if -PLACEMENT_LIMIT <= moved && moved <= PLACEMENT_LIMIT {
        Some(moved)
    } else {
        None
    }
}

/// One tracking step, run on every frame. While a drag is in progress and
/// there is a cursor, the translation moves by the anchor less the cursor's
/// world position. Returns whether the step applied.
pub fn handle_pan(
    session: &PanSession,
    view: &mut ViewportState,
    cursor: Option<ScreenPoint>,
    half: ScreenPoint,
) -> (applied: bool)
    requires
        old(view).wf(),
    ensures
        final(view).wf(),
        *final(view) == track_result(*session, *old(view), cursor, half),
        applied == track_applies(*session, *old(view), cursor, half),
        *session == PanSession::Idle ==> *final(view) == *old(view),
        final(view).level == old(view).level,
        applied ==> match *session {
            PanSession::Panning { anchor } => final(view).maps_to(cursor.unwrap(), half, anchor),
            PanSession::Idle => false,
        },
{
    let anchor = match session {
        PanSession::Idle => {
            return false;
        },
        PanSession::Panning { anchor } => *anchor,
    };
    let c = match cursor {
        Some(c) => c,
        None => {
            return false;
        },
    };
    proof {
        lemma_world_bounds(*view, c, half);
    }
    let current = view.screen_to_world(c, half);
    let x = match follow_axis(view.translation.x, anchor.x, current.x) {
        Some(x) => x,
        None => {
            return false;
        },
    };
    let y = match follow_axis(view.translation.y, anchor.y, current.y) {
        Some(y) => y,
        None => {
            return false;
        },
    };
    view.translation = WorldPoint { x, y };
    true
}

/// A run of tracking steps keeps the view's invariant and its zoom level.
pub proof fn lemma_drag_keeps_level(
    session: PanSession,
    view: ViewportState,
    samples: Seq<Option<ScreenPoint>>,
    half: ScreenPoint,
)
    requires
        view.wf(),
    ensures
        drag(session, view, samples, half).wf(),
        drag(session, view, samples, half).level == view.level,
    decreases samples.len(),
{
    if samples.len() > 0 {
        lemma_drag_keeps_level(session, view, samples.drop_last(), half);
    }
}

/// Idle pan: while no drag is in progress, no run of tracking steps changes
/// the view.
pub proof fn lemma_idle_drag_is_identity(
    view: ViewportState,
    samples: Seq<Option<ScreenPoint>>,
    half: ScreenPoint,
)
    ensures
        drag(PanSession::Idle, view, samples, half) == view,
    decreases samples.len(),
{
    if samples.len() > 0 {
        lemma_idle_drag_is_identity(view, samples.drop_last(), half);
    }
}

/// Pan linearity: a drag that begins with the cursor at `start` and ends with
/// it at `end` changes the translation by `(start - end) * scale`, whatever
/// cursor samples the tracking steps in between were given, provided that
/// this translation is within the placement limit.
pub proof fn lemma_pan_linearity(
    view: ViewportState,
    start: ScreenPoint,
    between: Seq<Option<ScreenPoint>>,
    end: ScreenPoint,
    half: ScreenPoint,
)
    requires
        view.wf(),
        coord_placeable(view.translation.x + (start.x - end.x) * view.scale_spec()),
        coord_placeable(view.translation.y + (start.y - end.y) * view.scale_spec()),
    ensures
        ({
            let session = press_result(PanSession::Idle, view, Some(start), half);
            let after = drag(session, view, between.push(Some(end)), half);
            &&& after.translation.x == view.translation.x + (start.x - end.x) * view.scale_spec()
            &&& after.translation.y == view.translation.y + (start.y - end.y) * view.scale_spec()
            &&& after.level == view.level
        }),
{
    let session = press_result(PanSession::Idle, view, Some(start), half);
    let samples = between.push(Some(end));
    assert(samples.drop_last() =~= between);
    assert(samples.last() == Some(end));
    lemma_drag_keeps_level(session, view, between, half);
    lemma_world_bounds(view, start, half);
    let before = drag(session, view, between, half);
    let s = view.scale_spec();
    assert(before.scale_spec() == s);
    let hx = half.x as int;
    let hy = half.y as int;
    assert((start.x - hx) * s - (end.x - hx) * s == (start.x - end.x) * s) by (nonlinear_arith);
    assert((start.y - hy) * s - (end.y - hy) * s == (start.y - end.y) * s) by (nonlinear_arith);
}

} // verus!
