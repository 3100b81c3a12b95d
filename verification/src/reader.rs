//! An older reading interface kept for compatibility: its error type and the
//! primitive field readers it shares with the streaming parser.

use vstd::prelude::*;

use crate::data::read_i16_be;
use crate::data::read_u16_be;
use crate::data::spec_i16_be;
use crate::data::spec_name_view;
use crate::data::spec_read_name;
use crate::data::spec_u16_be;

verus! {

/// Errors of the older reading interface.
#[derive(Debug)]
pub enum Error {
    /// The file could not be read.
    FileReadError,
    /// The bytes do not form an ILDA file.
    InvalidFile {
        /// Why the file was rejected.
        reason: String,
    },
    /// An unrecognized header or format code.
    InvalidFormat,
}

/// Read an optional name from a name field: reading stops at the first zero
/// byte, skips bytes below 31 as unprintable, and an empty result yields no
/// name rather than an empty string.
pub fn read_name(bytes: &[u8]) -> (r: Option<String>)
    ensures
        spec_name_view(r) == spec_read_name(bytes@),
{
    crate::parser::read_name(bytes)
}

/// Read a signed 16-bit integer from the first two bytes, big-endian, in
/// two's complement.
pub fn read_i16(bytes: &[u8]) -> (r: i16)
    requires
        bytes@.len() >= 2,
    ensures
        r == spec_i16_be(bytes@[0], bytes@[1]),
{
    read_i16_be(bytes[0], bytes[1])
}

/// Read an unsigned 16-bit integer from the first two bytes, big-endian.
pub fn read_u16(bytes: &[u8]) -> (r: u16)
    requires
        bytes@.len() >= 2,
    ensures
        r == spec_u16_be(bytes@[0], bytes@[1]),
{
    read_u16_be(bytes[0], bytes[1])
}

} // verus!
