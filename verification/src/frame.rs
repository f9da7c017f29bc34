//! One frame of pointer input, applied to the view and the drag session.
//!
//! The steps run in a fixed order: the wheel ticks in the order of arrival,
//! then the button press with the click's resolution, then the button
//! release, then the drag's tracking step.

use crate::geometry::ScreenPoint;
use crate::pan::{handle_pan, pan_press, pan_release, press_result, track_result, PanSession};
use crate::resolver::{resolve_click, resolves_to, PixelHit, PlacedImage};
use crate::viewport::ViewportState;
use crate::zoom::{lemma_zoom_all_level, zoom_all, zoom_ticks, ZoomTick};
use vstd::prelude::*;

verus! {

/// The pointer input of one frame.
#[derive(Debug)]
pub struct FrameInput {
    /// The wheel ticks of the frame, in the order of arrival.
    pub wheel: Vec<ZoomTick>,
    /// The cursor's position, if the cursor is inside the window.
    pub cursor: Option<ScreenPoint>,
    /// Half the window's size.
    pub half: ScreenPoint,
    /// Whether the button went down in this frame.
    pub pressed: bool,
    /// Whether the button went up in this frame.
    pub released: bool,
}

/// The view once the frame's wheel ticks are applied.
pub open spec fn view_after_wheel(view: ViewportState, input: FrameInput) -> ViewportState {
    zoom_all(view, input.wheel@, input.half)
}

/// The session at the end of the frame. A press begins a drag at the cursor,
/// a release ends the drag, and a release in the frame of the press wins.
pub open spec fn session_after(session: PanSession, view: ViewportState, input: FrameInput) -> PanSession {
    if input.released {
        PanSession::Idle
    } else if input.pressed {
        press_result(session, view_after_wheel(view, input), input.cursor, input.half)
    } else {
        session
    }
}

/// The view at the end of the frame: the wheel ticks, then one tracking step
/// of the session as it is at the end of the frame.
pub open spec fn view_after(session: PanSession, view: ViewportState, input: FrameInput) -> ViewportState {
    track_result(
        session_after(session, view, input),
        view_after_wheel(view, input),
        input.cursor,
        input.half,
    )
}

/// Whether `hit` is the frame's click outcome: on a press with a cursor, the
/// resolution of the cursor's world point in the view after the wheel ticks;
/// otherwise nothing.
pub open spec fn click_outcome(
    view: ViewportState,
    input: FrameInput,
    images: Seq<PlacedImage>,
    hit: Option<PixelHit>,
) -> bool {
    match input.cursor {
        Some(c) if input.pressed => resolves_to(
            images,
            view_after_wheel(view, input).world_x(c, input.half),
            view_after_wheel(view, input).world_y(c, input.half),
            hit,
        ),
        _ => hit.is_none(),
    }
}

/// Applies one frame of pointer input and returns the texel that a press hit,
/// if any.
pub fn handle_pointer_input(
    view: &mut ViewportState,
    session: &mut PanSession,
    input: &FrameInput,
    images: &Vec<PlacedImage>,
) -> (hit: Option<PixelHit>)
    requires
        old(view).wf(),
    ensures
        final(view).wf(),
        *final(session) == session_after(*old(session), *old(view), *input),
        *final(view) == view_after(*old(session), *old(view), *input),
        click_outcome(*old(view), *input, images@, hit),
{
    zoom_ticks(view, &input.wheel, input.half);
    let mut hit: Option<PixelHit> = None;
    if input.pressed {
        pan_press(session, view, input.cursor, input.half);
        hit = resolve_click(view, input.cursor, input.half, images);
    }
    if input.released {
        pan_release(session);
    }
    handle_pan(session, view, input.cursor, input.half);
    hit
}

/// A frame without wheel ticks, in which no drag is in progress and no button
/// goes down, leaves the view as it was.
pub proof fn lemma_idle_frame_keeps_view(view: ViewportState, input: FrameInput)
    requires
        input.wheel@.len() == 0,
        !input.pressed,
    ensures
        view_after(PanSession::Idle, view, input) == view,
{
}

/// Every frame keeps the view's invariant.
pub proof fn lemma_frame_keeps_invariant(session: PanSession, view: ViewportState, input: FrameInput)
    requires
        view.wf(),
    ensures
        view_after(session, view, input).wf(),
{
    lemma_zoom_all_level(view, input.wheel@, input.half);
}

} // verus!
