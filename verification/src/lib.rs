//! A fixed-point motion engine for a highlight that travels along the edges
//! of a regular polygon while the labels of the edges pulse in turn.
//!
//! Everything here is whole-number arithmetic: lengths in the caller's unit,
//! fractions in millionths, angles in millionths of a degree, times in the
//! caller's unit. What needs trigonometry or an easing curve is computed by
//! the caller between two calls.
//!
//! - `units`: the fraction scale, clamping and the whole square root.
//! - `geometry`: points and the length of the line between two of them.
//! - `classifier`: bearings and the direction signs of the four quadrants.
//! - `interpolator`: positions along a line and the travelling band.
//! - `polygon`: vertex angles, vertex placement and the table of edges.
//! - `pulse`: the steps of the pulse of a label.
//! - `scheduler`: the cycle through the edges, tick by tick.

pub mod classifier;
pub mod geometry;
pub mod interpolator;
pub mod polygon;
pub mod pulse;
pub mod scheduler;
pub mod units;
