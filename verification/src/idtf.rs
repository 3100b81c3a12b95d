//! An older, frame-oriented view of the ILDA data model, kept for
//! compatibility: whole headers carrying their points.

use vstd::prelude::*;

verus! {

/// A point with an assigned RGB color.
#[derive(Debug)]
pub struct TrueColorPoint {
    /// X coordinate.
    pub x: i16,
    /// Y coordinate.
    pub y: i16,
    /// Z coordinate.
    pub z: i16,
    /// Whether this is the last point in the image.
    pub is_last_point: bool,
    /// If the laser should treat this as a blanking point.
    pub is_blank: bool,
    /// Red.
    pub r: u8,
    /// Green.
    pub g: u8,
    /// Blue.
    pub b: u8,
}

/// A point with a color palette lookup index.
#[derive(Debug)]
pub struct IndexedPoint {
    /// X coordinate.
    pub x: i16,
    /// Y coordinate.
    pub y: i16,
    /// Z coordinate.
    pub z: i16,
    /// Whether this is the last point in the image.
    pub is_last_point: bool,
    /// If the laser should treat this as a blanking point.
    pub is_blank: bool,
    /// Index into the governing color palette.
    pub color_index: u8,
}

/// A color within a palette header.
#[derive(Debug)]
pub struct Color {
    /// Red.
    pub r: u8,
    /// Green.
    pub g: u8,
    /// Blue.
    pub b: u8,
}

/// A whole header together with the records that followed it.
#[derive(Debug)]
pub enum OldHeader {
    /// A 2D or 3D frame where each point is assigned an RGB color.
    TrueColorFrame {
        /// The name of the frame.
        frame_name: Option<String>,
        /// The name of the company.
        company_name: Option<String>,
        /// The number of point records following this header.
        /// If 0, this is the EOF header.
        records: u16,
        /// If the frame is part of an animation, this is the frame number
        /// within the animation sequence.
        frame_number: u16,
        /// The number of frames within this sequence.
        total_frames: u16,
        /// Whether the z-coordinate is used.
        is_3d: bool,
        /// The projector to display this frame on.
        projector_number: u8,
        /// The frame's points.
        points: Vec<TrueColorPoint>,
    },
    /// A 2D or 3D frame with indexed colors.
    IndexedFrame {
        /// The name of the frame.
        frame_name: Option<String>,
        /// The name of the company.
        company_name: Option<String>,
        /// The number of point records following this header.
        /// If 0, this is the EOF header.
        records: u16,
        /// If the frame is part of an animation, this is the frame number
        /// within the animation sequence.
        frame_number: u16,
        /// The number of frames within this sequence.
        total_frames: u16,
        /// Whether the z-coordinate is used.
        is_3d: bool,
        /// The projector to display this frame on.
        projector_number: u8,
        /// The frame's points.
        points: Vec<IndexedPoint>,
    },
    /// A color palette that is used for indexed frames and points.
    ColorPalette {
        /// The name of the palette.
        palette_name: Option<String>,
        /// The name of the company.
        company_name: Option<String>,
        /// The number of color records following this header.
        /// If 0, this is the EOF header.
        records: u16,
        /// The palette number.
        palette_number: u16,
        /// The projector to display on.
        projector_number: u8,
        /// The palette's colors.
        colors: Vec<Color>,
    },
}

} // verus!
