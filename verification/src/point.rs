//! The simple RGB point that frames are made of.

use vstd::prelude::*;

verus! {

/// A point with an assigned RGB color.
#[derive(Clone, Copy, Debug, Default, PartialEq, Eq, Structural)]
pub struct SimplePoint {
    /// X coordinate.
    pub x: i16,
    /// Y coordinate.
    pub y: i16,
    /// Red.
    pub r: u8,
    /// Green.
    pub g: u8,
    /// Blue.
    pub b: u8,
    /// If the laser should treat this as a blanking point.
    pub is_blank: bool,
}

} // verus!
