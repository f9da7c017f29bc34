//! Points of screen space and of world space.

use vstd::prelude::*;

verus! {

/// Number of world sub-units in one world unit: 20 to the 8th power.
pub const UNITS_PER_WORLD: i128 = 25_600_000_000;

/// Largest magnitude of a coordinate that a viewport or an image may be
/// placed at, in world sub-units: 2 to the 100th power.
pub const PLACEMENT_LIMIT: i128 = 1_267_650_600_228_229_401_496_703_205_376;

/// A position in screen space, in whole screen units.
#[derive(Clone, Copy, Debug, PartialEq, Eq, Structural)]
pub struct ScreenPoint {
    pub x: i32,
    pub y: i32,
}

/// A position or displacement in world space, in world sub-units.
#[derive(Clone, Copy, Debug, PartialEq, Eq, Structural)]
pub struct WorldPoint {
    pub x: i128,
    pub y: i128,
}

/// Whether a single coordinate lies within the placement limit.
pub open spec fn coord_placeable(c: int) -> bool {
    -PLACEMENT_LIMIT <= c <= PLACEMENT_LIMIT
}

impl WorldPoint {
    /// Whether both coordinates lie within the placement limit.
    pub open spec fn placeable(self) -> bool {
        coord_placeable(self.x as int) && coord_placeable(self.y as int)
    }

    /// Decides `placeable`.
    pub fn is_placeable(&self) -> (ok: bool)
        ensures
            ok == self.placeable(),
    {
        -PLACEMENT_LIMIT <= self.x && self.x <= PLACEMENT_LIMIT && -PLACEMENT_LIMIT <= self.y
            && self.y <= PLACEMENT_LIMIT
    }

    /// The point whose coordinates are whole world units.
    pub fn from_world_units(x: i32, y: i32) -> (p: WorldPoint)
        ensures
            p.x == x * UNITS_PER_WORLD,
            p.y == y * UNITS_PER_WORLD,
            p.placeable(),
    {
        let wx: i128 = x as i128;
        let wy: i128 = y as i128;
        WorldPoint { x: wx * UNITS_PER_WORLD, y: wy * UNITS_PER_WORLD }
    }
}

} // verus!
