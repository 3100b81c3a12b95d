//! A library for reading and writing International Laser Display Association
//! (ILDA) display files. An ILDA byte stream is a sequence of 32-byte headers,
//! each followed by the header-declared count of fixed-width point or palette
//! records, terminated by a header whose record count is zero.
//!
//! The binary codec (header and record layouts, the streaming entry decoder
//! and the entry encoder) is specified and verified down to the byte level;
//! file access lives outside this crate and hands byte buffers in and out.

use vstd::prelude::*;

pub mod animation;
pub mod color;
pub mod data;
pub mod error;
pub mod idtf;
pub mod limit;
pub mod parser;
mod point;
pub mod reader;
pub mod writer;

verus! {

pub use error::IldaError;

pub use point::SimplePoint;

} // verus!
