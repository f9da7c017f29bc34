//! Cursor-anchored zoom.
//!
//! A wheel tick moves the view one zoom level and shifts the translation so
//! that the world point under the cursor stays under the cursor. A tick that
//! has no cursor, that would leave the range of zoom levels, or that would
//! push the translation past the placement limit leaves the view as it was.

use crate::geometry::{coord_placeable, ScreenPoint, WorldPoint};
use crate::viewport::{
    lemma_scale_bounds,
    lemma_scale_step,
    level_in_range,
    scale_at,
    scale_units,
    scaled,
    ViewportState,
    MAX_ZOOM_LEVEL,
    MIN_ZOOM_LEVEL,
    SCALE_LIMIT,
};
use vstd::prelude::*;

verus! {

/// The direction of a wheel tick.
#[derive(Clone, Copy, Debug, PartialEq, Eq, Structural)]
pub enum ZoomDirection {
    /// Multiplies the scale by 0.8.
    In,
    /// Multiplies the scale by 1.25.
    Out,
}

/// A wheel tick with the cursor position at which it arrived, if the cursor
/// was inside the window.
#[derive(Clone, Copy, Debug, PartialEq, Eq, Structural)]
pub struct ZoomTick {
    pub direction: ZoomDirection,
    pub cursor: Option<ScreenPoint>,
}

/// The zoom level one tick away from `level`.
pub open spec fn level_after(level: int, direction: ZoomDirection) -> int {
    match direction {
        ZoomDirection::In => level + 1,
        ZoomDirection::Out => level - 1,
    }
}

/// The translation that keeps the cursor's world point in place when the
/// scale changes, along one axis:
/// `translation + (cursor - half) * (old_scale - new_scale)`.
pub open spec fn anchored_translation(
    translation: int,
    cursor: int,
    half: int,
    old_scale: int,
    new_scale: int,
) -> int {
    translation + (cursor - half) * (old_scale - new_scale)
}

/// The translation's x coordinate after a tick at `cursor`.
pub open spec fn zoomed_x(
    view: ViewportState,
    direction: ZoomDirection,
    cursor: ScreenPoint,
    half: ScreenPoint,
) -> int {
    anchored_translation(
        view.translation.x as int,
        cursor.x as int,
        half.x as int,
        view.scale_spec(),
        scale_units(level_after(view.level as int, direction)),
    )
}

/// The translation's y coordinate after a tick at `cursor`.
pub open spec fn zoomed_y(
    view: ViewportState,
    direction: ZoomDirection,
    cursor: ScreenPoint,
    half: ScreenPoint,
) -> int {
    anchored_translation(
        view.translation.y as int,
        cursor.y as int,
        half.y as int,
        view.scale_spec(),
        scale_units(level_after(view.level as int, direction)),
    )
}

/// Whether a tick at `cursor` changes the view: the new level is in range and
/// the new translation is within the placement limit.
pub open spec fn zoom_applies(
    view: ViewportState,
    direction: ZoomDirection,
    cursor: ScreenPoint,
    half: ScreenPoint,
) -> bool {
    &&& level_in_range(level_after(view.level as int, direction))
    &&& coord_placeable(zoomed_x(view, direction, cursor, half))
    &&& coord_placeable(zoomed_y(view, direction, cursor, half))
}

/// The view after one tick.
pub open spec fn zoom_result(
    view: ViewportState,
    direction: ZoomDirection,
    cursor: Option<ScreenPoint>,
    half: ScreenPoint,
) -> ViewportState {
    match cursor {
        Some(c) => if zoom_applies(view, direction, c, half) {
            ViewportState {
                translation: WorldPoint {
                    x: zoomed_x(view, direction, c, half) as i128,
                    y: zoomed_y(view, direction, c, half) as i128,
                },
                level: level_after(view.level as int, direction) as i32,
            }
        } else {
            view
        },
        None => view,
    }
}

/// The view after a run of ticks, applied in the order of arrival.
pub open spec fn zoom_all(view: ViewportState, ticks: Seq<ZoomTick>, half: ScreenPoint) -> ViewportState
    decreases ticks.len(),
{
    if ticks.len() == 0 {
        view
    } else {
        zoom_result(
            zoom_all(view, ticks.drop_last(), half),
            ticks.last().direction,
            ticks.last().cursor,
            half,
        )
    }
}

/// Whether every tick of the run changes the view.
pub open spec fn all_apply(view: ViewportState, ticks: Seq<ZoomTick>, half: ScreenPoint) -> bool
    decreases ticks.len(),
{
    if ticks.len() == 0 {
        true
    } else {
        &&& all_apply(view, ticks.drop_last(), half)
        &&& ticks.last().cursor.is_some()
        &&& zoom_applies(
            zoom_all(view, ticks.drop_last(), half),
            ticks.last().direction,
            ticks.last().cursor.unwrap(),
            half,
        )
    }
}

/// The number of ticks inward less the number of ticks outward.
pub open spec fn net_ticks(ticks: Seq<ZoomTick>) -> int
    decreases ticks.len(),
{
    if ticks.len() == 0 {
        0
    } else {
        level_after(net_ticks(ticks.drop_last()), ticks.last().direction)
    }
}

/// Computes `anchored_translation`.
fn anchored(translation: i128, cursor: i32, half: i32, old_scale: i128, new_scale: i128) -> (r: i128)
    requires
        coord_placeable(translation as int),
        0 < old_scale <= SCALE_LIMIT,
        0 < new_scale <= SCALE_LIMIT,
    ensures
        r == anchored_translation(
            translation as int,
            cursor as int,
            half as int,
            old_scale as int,
            new_scale as int,
        ),
{
    let offset: i128 = cursor as i128 - half as i128;
    let before: i128 = scaled(offset, old_scale);
    let after: i128 = scaled(offset, new_scale);
    assert(offset * (old_scale - new_scale) == offset * old_scale - offset * new_scale)
        by (nonlinear_arith);
    translation + before - after
}

/// Applies one wheel tick. Returns whether the view changed.
pub fn zoom_step(
    view: &mut ViewportState,
    direction: ZoomDirection,
    cursor: Option<ScreenPoint>,
    half: ScreenPoint,
) -> (applied: bool)
    requires
        old(view).wf(),
    ensures
        final(view).wf(),
        *final(view) == zoom_result(*old(view), direction, cursor, half),
        applied == (cursor.is_some() && zoom_applies(*old(view), direction, cursor.unwrap(), half)),
        !applied ==> *final(view) == *old(view),
        applied ==> final(view).level == level_after(old(view).level as int, direction),
        applied && direction == ZoomDirection::In ==> 5 * final(view).scale_spec() == 4 * old(
            view,
        ).scale_spec(),
        applied && direction == ZoomDirection::Out ==> 4 * final(view).scale_spec() == 5 * old(
            view,
        ).scale_spec(),
        cursor.is_some() ==> final(view).world_x(cursor.unwrap(), half) == old(view).world_x(
            cursor.unwrap(),
            half,
        ) && final(view).world_y(cursor.unwrap(), half) == old(view).world_y(cursor.unwrap(), half),
{
    proof {
        if cursor.is_some() {
            lemma_zoom_keeps_anchor(*view, direction, cursor.unwrap(), half);
            if zoom_applies(*view, direction, cursor.unwrap(), half) {
                lemma_zoom_factor(*view, direction, cursor.unwrap(), half);
            }
        }
    }
    let c = match cursor {
        Some(c) => c,
        None => {
            return false;
        },
    };
    let level: i32 = match direction {
        ZoomDirection::In => view.level + 1,
        ZoomDirection::Out => view.level - 1,
    };
    if level < MIN_ZOOM_LEVEL || level > MAX_ZOOM_LEVEL {
        return false;
    }
    let old_scale: i128 = scale_at(view.level);
    let new_scale: i128 = scale_at(level);
    let translation = WorldPoint {
        x: anchored(view.translation.x, c.x, half.x, old_scale, new_scale),
        y: anchored(view.translation.y, c.y, half.y, old_scale, new_scale),
    };
    if !translation.is_placeable() {
        return false;
    }
    view.translation = translation;
    view.level = level;
    true
}

/// Applies a run of wheel ticks, each in turn, in the order of arrival.
/// Returns the number of ticks that changed the view.
pub fn zoom_ticks(view: &mut ViewportState, ticks: &Vec<ZoomTick>, half: ScreenPoint) -> (applied: usize)
    requires
        old(view).wf(),
    ensures
        final(view).wf(),
        *final(view) == zoom_all(*old(view), ticks@, half),
        applied <= ticks.len(),
        applied == ticks.len() <==> all_apply(*old(view), ticks@, half),
{
    let ghost start = *view;
    let mut applied: usize = 0;
    let mut i: usize = 0;
    while i < ticks.len()
        invariant
            0 <= i <= ticks.len(),
            view.wf(),
            *view == zoom_all(start, ticks@.take(i as int), half),
            applied <= i,
            applied == i <==> all_apply(start, ticks@.take(i as int), half),
        decreases ticks.len() - i,
    {
        proof {
            assert(ticks@.take(i + 1).drop_last() =~= ticks@.take(i as int));
        }
        let tick = ticks[i];
        if zoom_step(view, tick.direction, tick.cursor, half) {
            applied = applied + 1;
        }
        i = i + 1;
    }
    proof {
        assert(ticks@.take(i as int) =~= ticks@);
    }
    applied
}

/// Zoom anchor invariance: whatever the view, the window's size, the cursor
/// and the direction, the world point under the cursor is the same after the
/// tick as before it.
pub proof fn lemma_zoom_keeps_anchor(
    view: ViewportState,
    direction: ZoomDirection,
    cursor: ScreenPoint,
    half: ScreenPoint,
)
    requires
        view.wf(),
    ensures
        zoom_result(view, direction, Some(cursor), half).world_x(cursor, half) == view.world_x(
            cursor,
            half,
        ),
        zoom_result(view, direction, Some(cursor), half).world_y(cursor, half) == view.world_y(
            cursor,
            half,
        ),
        zoom_result(view, direction, Some(cursor), half).wf(),
{
    if zoom_applies(view, direction, cursor, half) {
        let s0 = view.scale_spec();
        let s1 = scale_units(level_after(view.level as int, direction));
        let px = cursor.x - half.x;
        let py = cursor.y - half.y;
        assert(px * s1 + px * (s0 - s1) == px * s0) by (nonlinear_arith);
        assert(py * s1 + py * (s0 - s1) == py * s0) by (nonlinear_arith);
    }
}

/// A tick that changes the view multiplies the scale by exactly 4/5 inward
/// and by exactly 5/4 outward.
pub proof fn lemma_zoom_factor(
    view: ViewportState,
    direction: ZoomDirection,
    cursor: ScreenPoint,
    half: ScreenPoint,
)
    requires
        view.wf(),
        zoom_applies(view, direction, cursor, half),
    ensures
        direction == ZoomDirection::In ==> 5 * zoom_result(
            view,
            direction,
            Some(cursor),
            half,
        ).scale_spec() == 4 * view.scale_spec(),
        direction == ZoomDirection::Out ==> 4 * zoom_result(
            view,
            direction,
            Some(cursor),
            half,
        ).scale_spec() == 5 * view.scale_spec(),
        zoom_result(view, direction, Some(cursor), half).scale_spec() > 0,
{
    match direction {
        ZoomDirection::In => lemma_scale_step(view.level as int),
        ZoomDirection::Out => lemma_scale_step(view.level - 1),
    }
    lemma_scale_bounds(level_after(view.level as int, direction));
}

/// A run of ticks keeps the view's invariant, and where each tick changes the
/// view, the level moves by the number of ticks inward less the number of
/// ticks outward.
pub proof fn lemma_zoom_all_level(view: ViewportState, ticks: Seq<ZoomTick>, half: ScreenPoint)
    requires
        view.wf(),
    ensures
        zoom_all(view, ticks, half).wf(),
        all_apply(view, ticks, half) ==> zoom_all(view, ticks, half).level == view.level
            + net_ticks(ticks),
    decreases ticks.len(),
{
    if ticks.len() > 0 {
        lemma_zoom_all_level(view, ticks.drop_last(), half);
        let before = zoom_all(view, ticks.drop_last(), half);
        if ticks.last().cursor.is_some() {
            lemma_zoom_keeps_anchor(before, ticks.last().direction, ticks.last().cursor.unwrap(), half);
        }
    }
}

/// Zoom reciprocity: a run of ticks, each of which changes the view, with as
/// many ticks inward as outward, returns the scale to its value before the
/// run.
pub proof fn lemma_zoom_reciprocity(view: ViewportState, ticks: Seq<ZoomTick>, half: ScreenPoint)
    requires
        view.wf(),
        all_apply(view, ticks, half),
        net_ticks(ticks) == 0,
    ensures
        zoom_all(view, ticks, half).level == view.level,
        zoom_all(view, ticks, half).scale_spec() == view.scale_spec(),
{
    lemma_zoom_all_level(view, ticks, half);
}

} // verus!
