//! Viewport transform and pointer-resolution engine for an image canvas.
//!
//! All coordinates are exact integers. World space is measured in sub-units,
//! `UNITS_PER_WORLD` of them to one world unit, so that every zoom level has
//! an integral scale and no operation rounds.

pub mod frame;
pub mod geometry;
pub mod pan;
pub mod resolver;
pub mod viewport;
pub mod zoom;
