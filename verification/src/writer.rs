//! Low level writing of ILDA entries: the entry encoder, which mirrors the
//! decoder's byte layout exactly, appending to an in-memory byte sink.

use vstd::prelude::*;

use crate::data::Header;
use crate::data::IldaEntry;
use crate::data::spec_encode_entry;
use crate::data::spec_encode_i16_be;
use crate::data::spec_encode_u16_be;
use crate::data::spec_name_bytes;
use crate::data::spec_name_field;
use crate::data::spec_name_view;
use crate::error::IldaError;

verus! {

/// Append the two big-endian bytes of an unsigned 16-bit integer.
pub fn push_u16_be(buf: &mut Vec<u8>, value: u16)
    ensures
        final(buf)@ == old(buf)@ + spec_encode_u16_be(value),
{
    buf.push((value / 256) as u8);
    buf.push((value % 256) as u8);
    proof {
        assert(final(buf)@ =~= old(buf)@ + spec_encode_u16_be(value));
    }
}

/// Append the two big-endian bytes of a signed 16-bit integer, in two's
/// complement.
pub fn push_i16_be(buf: &mut Vec<u8>, value: i16)
    ensures
        final(buf)@ == old(buf)@ + spec_encode_i16_be(value),
{
    let unsigned: u16 = if value < 0 {
        ((value as i32) + 65536) as u16
    } else {
        value as u16
    };
    push_u16_be(buf, unsigned);
}

/// Append the 8-byte name field of an optional name: its UTF-8 bytes,
/// truncated or zero-padded to exactly 8 bytes.
fn push_name_8(buf: &mut Vec<u8>, value: &Option<String>)
    ensures
        final(buf)@ == old(buf)@ + spec_name_field(spec_name_view(*value)),
{
    let ghost field = spec_name_field(spec_name_view(*value));
    match value {
        None => {
            let mut i: usize = 0;
            while i < 8
                invariant
                    i <= 8,
                    spec_name_view(*value) is None,
                    field == spec_name_field(spec_name_view(*value)),
                    buf@ == old(buf)@ + field.take(i as int),
                decreases 8 - i,
            {
                buf.push(0);
                proof {
                    assert(field[i as int] == 0);
                    assert(field.take(i as int).push(0) =~= field.take(i as int + 1));
                }
                i = i + 1;
            }
        },
        Some(s) => {
            let bytes = s.as_str().as_bytes();
            let n = bytes.len();
            proof {
                assert(bytes@ == spec_name_bytes(spec_name_view(*value)));
            }
            let mut i: usize = 0;
            while i < 8
                invariant
                    i <= 8,
                    n == bytes@.len(),
                    bytes@ == spec_name_bytes(spec_name_view(*value)),
                    field == spec_name_field(spec_name_view(*value)),
                    buf@ == old(buf)@ + field.take(i as int),
                decreases 8 - i,
            {
                let b: u8 = if i < n {
                    bytes[i]
                } else {
                    0
                };
                buf.push(b);
                proof {
                    assert(field[i as int] == b);
                    assert(field.take(i as int).push(b) =~= field.take(i as int + 1));
                }
                i = i + 1;
            }
        },
    }
    proof {
        assert(field.take(8) =~= field);
    }
}

/// A struct that writes entries, byte-exactly encoded, onto the end of an
/// owned byte buffer.
pub struct IldaWriter {
    inner: Vec<u8>,
}

impl View for IldaWriter {
    type V = Seq<u8>;

    /// The bytes written so far.
    closed spec fn view(&self) -> Seq<u8> {
        self.inner@
    }
}

impl IldaWriter {
    /// Create a new IldaWriter appending to the given buffer.
    pub fn new(inner: Vec<u8>) -> (r: IldaWriter)
        ensures
            r@ == inner@,
    {
        IldaWriter { inner }
    }

    /// Take the written bytes back out of the writer.
    pub fn into_inner(self) -> (r: Vec<u8>)
        ensures
            r@ == self@,
    {
        self.inner
    }

    /// Write one entry to the underlying buffer, in its byte-exact encoding.
    pub fn write(&mut self, entry: IldaEntry) -> (r: Result<(), IldaError>)
        ensures
            r is Ok,
            final(self)@ == old(self)@ + spec_encode_entry(entry@),
    {
        let ghost start = self.inner@;
        match entry {
            IldaEntry::HeaderEntry(header) => {
                let Header {
                    reserved: _,
                    format_code,
                    name,
                    company_name,
                    record_count,
                    number,
                    total_frames,
                    projector_number,
                    reserved_2: _,
                } = header;
                self.inner.push(73);
                self.inner.push(76);
                self.inner.push(68);
                self.inner.push(65);
                self.inner.push(0);
                self.inner.push(0);
                self.inner.push(0);
                self.inner.push(format_code);
                push_name_8(&mut self.inner, &name);
                push_name_8(&mut self.inner, &company_name);
                push_u16_be(&mut self.inner, record_count);
                push_u16_be(&mut self.inner, number);
                push_u16_be(&mut self.inner, total_frames);
                self.inner.push(projector_number);
                self.inner.push(0);
                proof {
                    assert(self.inner@ =~= start + spec_encode_entry(entry@));
                }
            },
            IldaEntry::TcPoint3dEntry(point) => {
                push_i16_be(&mut self.inner, point.x);
                push_i16_be(&mut self.inner, point.y);
                push_i16_be(&mut self.inner, point.z);
                self.inner.push(point.status_code);
                self.inner.push(point.b);
                self.inner.push(point.g);
                self.inner.push(point.r);
                proof {
                    assert(self.inner@ =~= start + spec_encode_entry(entry@));
                }
            },
            IldaEntry::TcPoint2dEntry(point) => {
                push_i16_be(&mut self.inner, point.x);
                push_i16_be(&mut self.inner, point.y);
                self.inner.push(point.status_code);
                self.inner.push(point.b);
                self.inner.push(point.g);
                self.inner.push(point.r);
                proof {
                    assert(self.inner@ =~= start + spec_encode_entry(entry@));
                }
            },
            IldaEntry::ColorPaletteEntry(palette) => {
                self.inner.push(palette.r);
                self.inner.push(palette.g);
                self.inner.push(palette.b);
                proof {
                    assert(self.inner@ =~= start + spec_encode_entry(entry@));
                }
            },
            IldaEntry::IdxPoint3dEntry(point) => {
                push_i16_be(&mut self.inner, point.x);
                push_i16_be(&mut self.inner, point.y);
                push_i16_be(&mut self.inner, point.z);
                self.inner.push(point.status_code);
                self.inner.push(point.color_index);
                proof {
                    assert(self.inner@ =~= start + spec_encode_entry(entry@));
                }
            },
            IldaEntry::IdxPoint2dEntry(point) => {
                push_i16_be(&mut self.inner, point.x);
                push_i16_be(&mut self.inner, point.y);
                self.inner.push(point.status_code);
                self.inner.push(point.color_index);
                proof {
                    assert(self.inner@ =~= start + spec_encode_entry(entry@));
                }
            },
        };
        Ok(())
    }
}

} // verus!
