//! The extreme coordinates of the projection surface.

use vstd::prelude::*;

verus! {

/// Extreme right.
pub const MAX_X: i16 = 32767;

/// Extreme left.
pub const MIN_X: i16 = -32768;

/// Maximum height.
pub const MAX_Y: i16 = 32767;

/// Minimum height.
pub const MIN_Y: i16 = -32768;

/// Total width of the projection surface.
pub const WIDTH: u16 = 65535;

/// Total height of the projection surface.
pub const HEIGHT: u16 = 65535;

} // verus!
