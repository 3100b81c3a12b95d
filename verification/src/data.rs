//! Structures in the ILDA data model, together with the byte-exact layout of
//! each section: the width of each record, the big-endian integer fields, and
//! the decode and encode maps that the streaming codec mirrors.

use vstd::prelude::*;

use crate::error::IldaError;

verus! {

/// Size of an ILDA header section in bytes.
pub const HEADER_SIZE: usize = 32;

/// Size of an ILDA color palette data section in bytes.
pub const COLOR_PALETTE_SIZE: usize = 3;

/// Size of an ILDA Indexed 2D point data section in bytes.
pub const INDEXED_2D_DATA_SIZE: usize = 6;

/// Size of an ILDA Indexed 3D point data section in bytes.
pub const INDEXED_3D_DATA_SIZE: usize = 8;

/// Size of an ILDA True Color 2D point data section in bytes.
pub const TRUE_COLOR_2D_DATA_SIZE: usize = 8;

/// Size of an ILDA True Color 3D point data section in bytes.
pub const TRUE_COLOR_3D_DATA_SIZE: usize = 10;

/// The 4-byte magic sequence that opens every header: "ILDA" in ASCII.
pub open spec fn spec_ilda_magic() -> Seq<u8> {
    seq![73u8, 76u8, 68u8, 65u8]
}

/// The value of an unsigned 16-bit integer stored as two big-endian bytes.
pub open spec fn spec_u16_be(hi: u8, lo: u8) -> u16 {
    (hi * 256 + lo) as u16
}

/// The value of a signed 16-bit integer stored as two big-endian bytes, in
/// two's complement.
pub open spec fn spec_i16_be(hi: u8, lo: u8) -> int {
    if hi * 256 + lo >= 32768 {
        hi * 256 + lo - 65536
    } else {
        hi * 256 + lo
    }
}

/// The unsigned 16-bit integer with the same two's-complement bytes as `v`.
pub open spec fn spec_u16_of_i16(v: i16) -> u16 {
    if v < 0 {
        (v + 65536) as u16
    } else {
        v as u16
    }
}

/// The two big-endian bytes of an unsigned 16-bit integer.
pub open spec fn spec_encode_u16_be(v: u16) -> Seq<u8> {
    seq![(v / 256) as u8, (v % 256) as u8]
}

/// The two big-endian bytes of a signed 16-bit integer, in two's complement.
pub open spec fn spec_encode_i16_be(v: i16) -> Seq<u8> {
    spec_encode_u16_be(spec_u16_of_i16(v))
}

/// Read a signed 16-bit integer from two big-endian bytes.
pub fn read_i16_be(hi: u8, lo: u8) -> (r: i16)
    ensures
        r == spec_i16_be(hi, lo),
{
    let v: i32 = (hi as i32) * 256 + (lo as i32);
    if v >= 32768 {
        (v - 65536) as i16
    } else {
        v as i16
    }
}

/// Read an unsigned 16-bit integer from two big-endian bytes.
pub fn read_u16_be(hi: u8, lo: u8) -> (r: u16)
    ensures
        r == spec_u16_be(hi, lo),
{
    (hi as u16) * 256 + (lo as u16)
}

/// A 16-bit big-endian decode undoes a 16-bit big-endian encode.
pub proof fn lemma_u16_be_roundtrip(v: u16)
    ensures
        spec_encode_u16_be(v).len() == 2,
        spec_u16_be(spec_encode_u16_be(v)[0], spec_encode_u16_be(v)[1]) == v,
{
}

/// A signed 16-bit big-endian decode undoes a signed 16-bit big-endian encode.
pub proof fn lemma_i16_be_roundtrip(v: i16)
    ensures
        spec_encode_i16_be(v).len() == 2,
        spec_i16_be(spec_encode_i16_be(v)[0], spec_encode_i16_be(v)[1]) == v,
{
}

/// The payload encoding formats currently supported.
#[allow(missing_docs)]
#[derive(Clone, Copy, Debug, PartialEq, Eq, Structural)]
pub enum Format {
    ColorPalette,
    Indexed2d,
    Indexed3d,
    TrueColor2d,
    TrueColor3d,
}

/// The format code that announces `f` in a header.
pub open spec fn spec_format_code(f: Format) -> u8 {
    match f {
        Format::Indexed3d => 0u8,
        Format::Indexed2d => 1u8,
        Format::ColorPalette => 2u8,
        Format::TrueColor3d => 4u8,
        Format::TrueColor2d => 5u8,
    }
}

/// The format a header's format code announces, if the code is recognized.
pub open spec fn spec_format_of_code(code: u8) -> Option<Format> {
    if code == 0 {
        Some(Format::Indexed3d)
    } else if code == 1 {
        Some(Format::Indexed2d)
    } else if code == 2 {
        Some(Format::ColorPalette)
    } else if code == 4 {
        Some(Format::TrueColor3d)
    } else if code == 5 {
        Some(Format::TrueColor2d)
    } else {
        None
    }
}

/// The fixed byte width of one payload record of format `f`.
pub open spec fn spec_record_size(f: Format) -> nat {
    match f {
        Format::ColorPalette => 3,
        Format::Indexed2d => 6,
        Format::Indexed3d => 8,
        Format::TrueColor2d => 8,
        Format::TrueColor3d => 10,
    }
}

/// The fixed byte width of one payload record of format `f`.
pub fn record_size(f: Format) -> (r: usize)
    ensures
        r == spec_record_size(f),
{
    match f {
        Format::ColorPalette => COLOR_PALETTE_SIZE,
        Format::Indexed2d => INDEXED_2D_DATA_SIZE,
        Format::Indexed3d => INDEXED_3D_DATA_SIZE,
        Format::TrueColor2d => TRUE_COLOR_2D_DATA_SIZE,
        Format::TrueColor3d => TRUE_COLOR_3D_DATA_SIZE,
    }
}

/// A Raw ILDA header.
#[derive(Clone, Debug, PartialEq)]
pub struct Header {
    /// The first reserved portion of the ILDA header.
    pub reserved: u16,
    /// The format, or type, of the header.
    pub format_code: u8,
    /// The name of the frame or color palette.
    pub name: Option<String>,
    /// The name of the company.
    pub company_name: Option<String>,
    /// The number of records (eg. points) following this header.
    /// If 0, this is the EOF header.
    pub record_count: u16,
    /// If the frame is part of an animation, this is the frame number
    /// within the animation sequence. If this is a color palette header,
    /// it's the palette number.
    pub number: u16,
    /// The total number of frames within this sequence. If this is a
    /// color palette, this shall be `0`.
    pub total_frames: u16,
    /// The projector to display this frame on.
    pub projector_number: u8,
    /// The final reserved portion.
    pub reserved_2: u8,
}

/// The mathematical value of a [`Header`]: the same fields, with each optional
/// name abstracted to its character sequence.
#[verifier::ext_equal]
pub struct HeaderV {
    /// The first reserved portion of the ILDA header.
    pub reserved: u16,
    /// The format code.
    pub format_code: u8,
    /// The name of the frame or color palette.
    pub name: Option<Seq<char>>,
    /// The name of the company.
    pub company_name: Option<Seq<char>>,
    /// The number of records following this header.
    pub record_count: u16,
    /// The frame or palette number.
    pub number: u16,
    /// The total number of frames in the sequence.
    pub total_frames: u16,
    /// The projector to display this frame on.
    pub projector_number: u8,
    /// The final reserved portion.
    pub reserved_2: u8,
}

/// The character sequence of an optional name.
pub open spec fn spec_name_view(name: Option<String>) -> Option<Seq<char>> {
    match name {
        Some(s) => Some(s@),
        None => None,
    }
}

impl View for Header {
    type V = HeaderV;

    open spec fn view(&self) -> HeaderV {
        HeaderV {
            reserved: self.reserved,
            format_code: self.format_code,
            name: spec_name_view(self.name),
            company_name: spec_name_view(self.company_name),
            record_count: self.record_count,
            number: self.number,
            total_frames: self.total_frames,
            projector_number: self.projector_number,
            reserved_2: self.reserved_2,
        }
    }
}

impl Header {
    /// Returns the format of the header, or `InvalidHeader` if the format
    /// code is not one of the five recognized codes.
    pub fn get_format(&self) -> (r: Result<Format, IldaError>)
        ensures
            match r {
                Ok(f) => spec_format_of_code(self.format_code) == Some(f),
                Err(e) => e == IldaError::InvalidHeader && spec_format_of_code(self.format_code)
                    is None,
            },
    {
        Ok(
            match self.format_code {
                0u8 => Format::Indexed3d,
                1u8 => Format::Indexed2d,
                2u8 => Format::ColorPalette,
                4u8 => Format::TrueColor3d,
                5u8 => Format::TrueColor2d,
                _ => { return Err(IldaError::InvalidHeader) },
            },
        )
    }

    /// Create a new Header announcing `record_count` records of format
    /// `format`, with zeroed reserved portions.
    pub fn new(
        format: Format,
        name: Option<String>,
        company_name: Option<String>,
        record_count: u16,
        number: u16,
        total_frames: u16,
        projector_number: u8,
    ) -> (r: Header)
        ensures
            r@ == (HeaderV {
                reserved: 0u16,
                format_code: spec_format_code(format),
                name: spec_name_view(name),
                company_name: spec_name_view(company_name),
                record_count,
                number,
                total_frames,
                projector_number,
                reserved_2: 0u8,
            }),
    {
        Header {
            reserved: 0,
            format_code: match format {
                Format::Indexed3d => 0u8,
                Format::Indexed2d => 1u8,
                Format::ColorPalette => 2u8,
                Format::TrueColor3d => 4u8,
                Format::TrueColor2d => 5u8,
            },
            name,
            company_name,
            record_count,
            number,
            total_frames,
            projector_number,
            reserved_2: 0,
        }
    }
}

/// The status byte built from the blanking bit (value 64) and the last-point
/// bit (value 128).
pub open spec fn spec_status_code(is_blank: bool, is_last: bool) -> u8 {
    (if is_last {
        128u8
    } else {
        0u8
    } + if is_blank {
        64u8
    } else {
        0u8
    }) as u8
}

/// Build a status byte from the blanking and last-point flags.
fn build_status_code(is_blank: bool, is_last: bool) -> (r: u8)
    ensures
        r == spec_status_code(is_blank, is_last),
        r & 64 != 0 <==> is_blank,
        r & 128 != 0 <==> is_last,
{
    let last: u8 = if is_last {
        128
    } else {
        0
    };
    let blank: u8 = if is_blank {
        64
    } else {
        0
    };
    proof {
        lemma_status_bits(is_blank, is_last);
    }
    last + blank
}

/// The blanking and last-point bits of a built status byte read back as the
/// flags it was built from.
pub proof fn lemma_status_bits(is_blank: bool, is_last: bool)
    ensures
        spec_status_code(is_blank, is_last) & 64 != 0 <==> is_blank,
        spec_status_code(is_blank, is_last) & 128 != 0 <==> is_last,
{
    assert((0u8 & 64u8 == 0) && (64u8 & 64u8 != 0) && (128u8 & 64u8 == 0) && (192u8 & 64u8 != 0)
        && (0u8 & 128u8 == 0) && (64u8 & 128u8 == 0) && (128u8 & 128u8 != 0) && (192u8 & 128u8
        != 0)) by (bit_vector);
}

/// Testing a status byte for `== 64` under the blanking mask is the same as
/// testing it for `!= 0`: the mask keeps a single bit.
pub proof fn lemma_blank_mask(status_code: u8)
    ensures
        (status_code & 64 == 64) <==> (status_code & 64 != 0),
{
    assert((status_code & 64 == 64) <==> (status_code & 64 != 0)) by (bit_vector);
}

/// 3D Coordinates with Indexed Color (format 0)
#[derive(Clone, Debug, Default, PartialEq, Eq)]
pub struct IndexedPoint3d {
    /// X coordinate
    pub x: i16,
    /// Y coordinate
    pub y: i16,
    /// Z coordinate
    pub z: i16,
    /// Last point bit and blanking bit.
    pub status_code: u8,
    /// Index into color palette (if provided), or default color index.
    pub color_index: u8,
}

/// The indexed 3D point stored in one 8-byte record.
pub open spec fn spec_decode_indexed_3d(b: Seq<u8>) -> IndexedPoint3d {
    IndexedPoint3d {
        x: spec_i16_be(b[0], b[1]) as i16,
        y: spec_i16_be(b[2], b[3]) as i16,
        z: spec_i16_be(b[4], b[5]) as i16,
        status_code: b[6],
        color_index: b[7],
    }
}

/// The 8-byte record that stores an indexed 3D point.
pub open spec fn spec_encode_indexed_3d(p: IndexedPoint3d) -> Seq<u8> {
    spec_encode_i16_be(p.x) + spec_encode_i16_be(p.y) + spec_encode_i16_be(p.z) + seq![
        p.status_code,
        p.color_index,
    ]
}

impl IndexedPoint3d {
    /// Read multiple `IndexedPoint3d` from raw bytes. The byte length must be
    /// an exact multiple of the 8-byte record width.
    pub fn read_bytes(bytes: &[u8]) -> (r: Result<Vec<IndexedPoint3d>, IldaError>)
        ensures
            match r {
                Ok(v) => bytes@.len() % 8 == 0 && v@.len() == bytes@.len() / 8 && forall|i: int|
                    0 <= i < v@.len() ==> #[trigger] v@[i] == spec_decode_indexed_3d(
                        bytes@.subrange(8 * i, 8 * i + 8),
                    ),
                Err(e) => e == IldaError::InvalidData && bytes@.len() % 8 != 0,
            },
    {
        if bytes.len() % INDEXED_3D_DATA_SIZE != 0 {
            return Err(IldaError::InvalidData);
        }
        let size = bytes.len() / INDEXED_3D_DATA_SIZE;
        let mut out: Vec<IndexedPoint3d> = Vec::with_capacity(size);
        for i in 0..size
            invariant
                bytes@.len() <= usize::MAX,
                bytes@.len() % 8 == 0,
                size == bytes@.len() / 8,
                out@.len() == i,
                forall|k: int| 0 <= k < i ==> #[trigger] out@[k] == spec_decode_indexed_3d(
                    bytes@.subrange(8 * k, 8 * k + 8),
                ),
        {
            let j = i * INDEXED_3D_DATA_SIZE;
            let p = IndexedPoint3d {
                x: read_i16_be(bytes[j], bytes[j + 1]),
                y: read_i16_be(bytes[j + 2], bytes[j + 3]),
                z: read_i16_be(bytes[j + 4], bytes[j + 5]),
                status_code: bytes[j + 6],
                color_index: bytes[j + 7],
            };
            assert(p == spec_decode_indexed_3d(bytes@.subrange(8 * i, 8 * i + 8)));
            out.push(p);
        }
        Ok(out)
    }

    /// Whether the point is a blanking point: bit 6 (value 64) of the status
    /// byte is set.
    pub fn is_blank(&self) -> (r: bool)
        ensures
            r <==> self.status_code & 64 != 0,
    {
        proof {
            lemma_blank_mask(self.status_code);
        }
        self.status_code & 64 == 64
    }

    /// Create a new IndexedPoint3d point.
    pub fn new(x: i16, y: i16, z: i16, color_index: u8, is_last: bool, is_blank: bool) -> (r:
        IndexedPoint3d)
        ensures
            r == (IndexedPoint3d {
                x,
                y,
                z,
                status_code: spec_status_code(is_blank, is_last),
                color_index,
            }),
    {
        IndexedPoint3d { x, y, z, status_code: build_status_code(is_blank, is_last), color_index }
    }
}

/// 2D Coordinates with Indexed Color (format 1)
#[derive(Clone, Debug, Default, PartialEq, Eq)]
pub struct IndexedPoint2d {
    /// X coordinate
    pub x: i16,
    /// Y coordinate
    pub y: i16,
    /// Last point bit and blanking bit.
    pub status_code: u8,
    /// Index into color palette (if provided), or default color index.
    pub color_index: u8,
}

/// The indexed 2D point stored in one 6-byte record.
pub open spec fn spec_decode_indexed_2d(b: Seq<u8>) -> IndexedPoint2d {
    IndexedPoint2d {
        x: spec_i16_be(b[0], b[1]) as i16,
        y: spec_i16_be(b[2], b[3]) as i16,
        status_code: b[4],
        color_index: b[5],
    }
}

/// The 6-byte record that stores an indexed 2D point.
pub open spec fn spec_encode_indexed_2d(p: IndexedPoint2d) -> Seq<u8> {
    spec_encode_i16_be(p.x) + spec_encode_i16_be(p.y) + seq![p.status_code, p.color_index]
}

impl IndexedPoint2d {
    /// Read multiple `IndexedPoint2d` from raw bytes. The byte length must be
    /// an exact multiple of the 6-byte record width.
    pub fn read_bytes(bytes: &[u8]) -> (r: Result<Vec<IndexedPoint2d>, IldaError>)
        ensures
            match r {
                Ok(v) => bytes@.len() % 6 == 0 && v@.len() == bytes@.len() / 6 && forall|i: int|
                    0 <= i < v@.len() ==> #[trigger] v@[i] == spec_decode_indexed_2d(
                        bytes@.subrange(6 * i, 6 * i + 6),
                    ),
                Err(e) => e == IldaError::InvalidData && bytes@.len() % 6 != 0,
            },
    {
        if bytes.len() % INDEXED_2D_DATA_SIZE != 0 {
            return Err(IldaError::InvalidData);
        }
        let size = bytes.len() / INDEXED_2D_DATA_SIZE;
        let mut out: Vec<IndexedPoint2d> = Vec::with_capacity(size);
        for i in 0..size
            invariant
                bytes@.len() <= usize::MAX,
                bytes@.len() % 6 == 0,
                size == bytes@.len() / 6,
                out@.len() == i,
                forall|k: int| 0 <= k < i ==> #[trigger] out@[k] == spec_decode_indexed_2d(
                    bytes@.subrange(6 * k, 6 * k + 6),
                ),
        {
            let j = i * INDEXED_2D_DATA_SIZE;
            let p = IndexedPoint2d {
                x: read_i16_be(bytes[j], bytes[j + 1]),
                y: read_i16_be(bytes[j + 2], bytes[j + 3]),
                status_code: bytes[j + 4],
                color_index: bytes[j + 5],
            };
            assert(p == spec_decode_indexed_2d(bytes@.subrange(6 * i, 6 * i + 6)));
            out.push(p);
        }
        Ok(out)
    }

    /// Whether the point is a blanking point: bit 6 (value 64) of the status
    /// byte is set.
    pub fn is_blank(&self) -> (r: bool)
        ensures
            r <==> self.status_code & 64 != 0,
    {
        proof {
            lemma_blank_mask(self.status_code);
        }
        self.status_code & 64 == 64
    }

    /// Create a new IndexedPoint2d point.
    pub fn new(x: i16, y: i16, color_index: u8, is_last: bool, is_blank: bool) -> (r:
        IndexedPoint2d)
        ensures
            r == (IndexedPoint2d {
                x,
                y,
                status_code: spec_status_code(is_blank, is_last),
                color_index,
            }),
    {
        IndexedPoint2d { x, y, status_code: build_status_code(is_blank, is_last), color_index }
    }
}

/// Color Palette (format 2)
#[derive(Clone, Debug, Default, PartialEq, Eq)]
pub struct ColorPalette {
    /// Red.
    pub r: u8,
    /// Green.
    pub g: u8,
    /// Blue.
    pub b: u8,
}

/// The palette color stored in one 3-byte record.
pub open spec fn spec_decode_color_palette(b: Seq<u8>) -> ColorPalette {
    ColorPalette { r: b[0], g: b[1], b: b[2] }
}

/// The 3-byte record that stores a palette color.
pub open spec fn spec_encode_color_palette(p: ColorPalette) -> Seq<u8> {
    seq![p.r, p.g, p.b]
}

impl ColorPalette {
    /// Read multiple `ColorPalette` from raw bytes. The byte length must be
    /// an exact multiple of the 3-byte record width.
    pub fn read_bytes(bytes: &[u8]) -> (r: Result<Vec<ColorPalette>, IldaError>)
        ensures
            match r {
                Ok(v) => bytes@.len() % 3 == 0 && v@.len() == bytes@.len() / 3 && forall|i: int|
                    0 <= i < v@.len() ==> #[trigger] v@[i] == spec_decode_color_palette(
                        bytes@.subrange(3 * i, 3 * i + 3),
                    ),
                Err(e) => e == IldaError::InvalidData && bytes@.len() % 3 != 0,
            },
    {
        if bytes.len() % COLOR_PALETTE_SIZE != 0 {
            return Err(IldaError::InvalidData);
        }
        let size = bytes.len() / COLOR_PALETTE_SIZE;
        let mut out: Vec<ColorPalette> = Vec::with_capacity(size);
        for i in 0..size
            invariant
                bytes@.len() <= usize::MAX,
                bytes@.len() % 3 == 0,
                size == bytes@.len() / 3,
                out@.len() == i,
                forall|k: int| 0 <= k < i ==> #[trigger] out@[k] == spec_decode_color_palette(
                    bytes@.subrange(3 * k, 3 * k + 3),
                ),
        {
            let j = i * COLOR_PALETTE_SIZE;
            let p = ColorPalette { r: bytes[j], g: bytes[j + 1], b: bytes[j + 2] };
            assert(p == spec_decode_color_palette(bytes@.subrange(3 * i, 3 * i + 3)));
            out.push(p);
        }
        Ok(out)
    }

    /// Create a new ColorPalette point.
    pub fn new(r: u8, g: u8, b: u8) -> (p: ColorPalette)
        ensures
            p == (ColorPalette { r, g, b }),
    {
        ColorPalette { r, g, b }
    }
}

/// 3D Coordinates with True Color (format 4)
#[derive(Clone, Debug, Default, PartialEq, Eq)]
pub struct TrueColorPoint3d {
    /// X coordinate
    pub x: i16,
    /// Y coordinate
    pub y: i16,
    /// Z coordinate
    pub z: i16,
    /// Last point bit and blanking bit.
    pub status_code: u8,
    /// Blue
    pub b: u8,
    /// Green
    pub g: u8,
    /// Red
    pub r: u8,
}

/// The true-color 3D point stored in one 10-byte record.
pub open spec fn spec_decode_true_color_3d(b: Seq<u8>) -> TrueColorPoint3d {
    TrueColorPoint3d {
        x: spec_i16_be(b[0], b[1]) as i16,
        y: spec_i16_be(b[2], b[3]) as i16,
        z: spec_i16_be(b[4], b[5]) as i16,
        status_code: b[6],
        b: b[7],
        g: b[8],
        r: b[9],
    }
}

/// The 10-byte record that stores a true-color 3D point.
pub open spec fn spec_encode_true_color_3d(p: TrueColorPoint3d) -> Seq<u8> {
    spec_encode_i16_be(p.x) + spec_encode_i16_be(p.y) + spec_encode_i16_be(p.z) + seq![
        p.status_code,
        p.b,
        p.g,
        p.r,
    ]
}

impl TrueColorPoint3d {
    /// Read multiple `TrueColorPoint3d` from raw bytes. The byte length must
    /// be an exact multiple of the 10-byte record width.
    pub fn read_bytes(bytes: &[u8]) -> (r: Result<Vec<TrueColorPoint3d>, IldaError>)
        ensures
            match r {
                Ok(v) => bytes@.len() % 10 == 0 && v@.len() == bytes@.len() / 10 && forall|i: int|
                    0 <= i < v@.len() ==> #[trigger] v@[i] == spec_decode_true_color_3d(
                        bytes@.subrange(10 * i, 10 * i + 10),
                    ),
                Err(e) => e == IldaError::InvalidData && bytes@.len() % 10 != 0,
            },
    {
        if bytes.len() % TRUE_COLOR_3D_DATA_SIZE != 0 {
            return Err(IldaError::InvalidData);
        }
        let size = bytes.len() / TRUE_COLOR_3D_DATA_SIZE;
        let mut out: Vec<TrueColorPoint3d> = Vec::with_capacity(size);
        for i in 0..size
            invariant
                bytes@.len() <= usize::MAX,
                bytes@.len() % 10 == 0,
                size == bytes@.len() / 10,
                out@.len() == i,
                forall|k: int| 0 <= k < i ==> #[trigger] out@[k] == spec_decode_true_color_3d(
                    bytes@.subrange(10 * k, 10 * k + 10),
                ),
        {
            let j = i * TRUE_COLOR_3D_DATA_SIZE;
            let p = TrueColorPoint3d {
                x: read_i16_be(bytes[j], bytes[j + 1]),
                y: read_i16_be(bytes[j + 2], bytes[j + 3]),
                z: read_i16_be(bytes[j + 4], bytes[j + 5]),
                status_code: bytes[j + 6],
                b: bytes[j + 7],
                g: bytes[j + 8],
                r: bytes[j + 9],
            };
            assert(p == spec_decode_true_color_3d(bytes@.subrange(10 * i, 10 * i + 10)));
            out.push(p);
        }
        Ok(out)
    }

    /// Whether the point is a blanking point: bit 6 (value 64) of the status
    /// byte is set.
    pub fn is_blank(&self) -> (r: bool)
        ensures
            r <==> self.status_code & 64 != 0,
    {
        proof {
            lemma_blank_mask(self.status_code);
        }
        self.status_code & 64 == 64
    }

    /// Create a new TrueColorPoint3d point.
    pub fn new(x: i16, y: i16, z: i16, r: u8, g: u8, b: u8, is_last: bool, is_blank: bool) -> (p:
        TrueColorPoint3d)
        ensures
            p == (TrueColorPoint3d {
                x,
                y,
                z,
                status_code: spec_status_code(is_blank, is_last),
                b,
                g,
                r,
            }),
    {
        TrueColorPoint3d { x, y, z, status_code: build_status_code(is_blank, is_last), b, g, r }
    }
}

/// 2D Coordinates with True Color (format 5)
#[derive(Clone, Debug, Default, PartialEq, Eq)]
pub struct TrueColorPoint2d {
    /// X coordinate
    pub x: i16,
    /// Y coordinate
    pub y: i16,
    /// Last point bit and blanking bit.
    pub status_code: u8,
    /// Blue
    pub b: u8,
    /// Green
    pub g: u8,
    /// Red
    pub r: u8,
}

/// The true-color 2D point stored in one 8-byte record.
pub open spec fn spec_decode_true_color_2d(b: Seq<u8>) -> TrueColorPoint2d {
    TrueColorPoint2d {
        x: spec_i16_be(b[0], b[1]) as i16,
        y: spec_i16_be(b[2], b[3]) as i16,
        status_code: b[4],
        b: b[5],
        g: b[6],
        r: b[7],
    }
}

/// The 8-byte record that stores a true-color 2D point.
pub open spec fn spec_encode_true_color_2d(p: TrueColorPoint2d) -> Seq<u8> {
    spec_encode_i16_be(p.x) + spec_encode_i16_be(p.y) + seq![p.status_code, p.b, p.g, p.r]
}

impl TrueColorPoint2d {
    /// Read multiple `TrueColorPoint2d` from raw bytes. The byte length must
    /// be an exact multiple of the 8-byte record width.
    pub fn read_bytes(bytes: &[u8]) -> (r: Result<Vec<TrueColorPoint2d>, IldaError>)
        ensures
            match r {
                Ok(v) => bytes@.len() % 8 == 0 && v@.len() == bytes@.len() / 8 && forall|i: int|
                    0 <= i < v@.len() ==> #[trigger] v@[i] == spec_decode_true_color_2d(
                        bytes@.subrange(8 * i, 8 * i + 8),
                    ),
                Err(e) => e == IldaError::InvalidData && bytes@.len() % 8 != 0,
            },
    {
        if bytes.len() % TRUE_COLOR_2D_DATA_SIZE != 0 {
            return Err(IldaError::InvalidData);
        }
        let size = bytes.len() / TRUE_COLOR_2D_DATA_SIZE;
        let mut out: Vec<TrueColorPoint2d> = Vec::with_capacity(size);
        for i in 0..size
            invariant
                bytes@.len() <= usize::MAX,
                bytes@.len() % 8 == 0,
                size == bytes@.len() / 8,
                out@.len() == i,
                forall|k: int| 0 <= k < i ==> #[trigger] out@[k] == spec_decode_true_color_2d(
                    bytes@.subrange(8 * k, 8 * k + 8),
                ),
        {
            let j = i * TRUE_COLOR_2D_DATA_SIZE;
            let p = TrueColorPoint2d {
                x: read_i16_be(bytes[j], bytes[j + 1]),
                y: read_i16_be(bytes[j + 2], bytes[j + 3]),
                status_code: bytes[j + 4],
                b: bytes[j + 5],
                g: bytes[j + 6],
                r: bytes[j + 7],
            };
            assert(p == spec_decode_true_color_2d(bytes@.subrange(8 * i, 8 * i + 8)));
            out.push(p);
        }
        Ok(out)
    }

    /// Whether the point is a blanking point: bit 6 (value 64) of the status
    /// byte is set.
    pub fn is_blank(&self) -> (r: bool)
        ensures
            r <==> self.status_code & 64 != 0,
    {
        proof {
            lemma_blank_mask(self.status_code);
        }
        self.status_code & 64 == 64
    }

    /// Create a new TrueColorPoint2d point.
    pub fn new(x: i16, y: i16, r: u8, g: u8, b: u8, is_last: bool, is_blank: bool) -> (p:
        TrueColorPoint2d)
        ensures
            p == (TrueColorPoint2d {
                x,
                y,
                status_code: spec_status_code(is_blank, is_last),
                b,
                g,
                r,
            }),
    {
        TrueColorPoint2d { x, y, status_code: build_status_code(is_blank, is_last), b, g, r }
    }
}

/// ILDA header and data records.
#[allow(missing_docs)]
#[derive(Clone, Debug, PartialEq)]
pub enum IldaEntry {
    HeaderEntry(Header),
    TcPoint3dEntry(TrueColorPoint3d),
    TcPoint2dEntry(TrueColorPoint2d),
    ColorPaletteEntry(ColorPalette),
    IdxPoint3dEntry(IndexedPoint3d),
    IdxPoint2dEntry(IndexedPoint2d),
}

/// The mathematical value of an [`IldaEntry`]: the header abstracted to its
/// [`HeaderV`], the point records carried as they are.
#[allow(missing_docs)]
#[verifier::ext_equal]
pub enum IldaEntryV {
    HeaderEntry(HeaderV),
    TcPoint3dEntry(TrueColorPoint3d),
    TcPoint2dEntry(TrueColorPoint2d),
    ColorPaletteEntry(ColorPalette),
    IdxPoint3dEntry(IndexedPoint3d),
    IdxPoint2dEntry(IndexedPoint2d),
}

impl View for IldaEntry {
    type V = IldaEntryV;

    open spec fn view(&self) -> IldaEntryV {
        match self {
            IldaEntry::HeaderEntry(h) => IldaEntryV::HeaderEntry(h@),
            IldaEntry::TcPoint3dEntry(p) => IldaEntryV::TcPoint3dEntry(*p),
            IldaEntry::TcPoint2dEntry(p) => IldaEntryV::TcPoint2dEntry(*p),
            IldaEntry::ColorPaletteEntry(p) => IldaEntryV::ColorPaletteEntry(*p),
            IldaEntry::IdxPoint3dEntry(p) => IldaEntryV::IdxPoint3dEntry(*p),
            IldaEntry::IdxPoint2dEntry(p) => IldaEntryV::IdxPoint2dEntry(*p),
        }
    }
}

/// The payload record of format `f` stored in one record-width slice of
/// bytes, as a stream entry.
pub open spec fn spec_decode_record(f: Format, b: Seq<u8>) -> IldaEntryV {
    match f {
        Format::ColorPalette => IldaEntryV::ColorPaletteEntry(spec_decode_color_palette(b)),
        Format::Indexed2d => IldaEntryV::IdxPoint2dEntry(spec_decode_indexed_2d(b)),
        Format::Indexed3d => IldaEntryV::IdxPoint3dEntry(spec_decode_indexed_3d(b)),
        Format::TrueColor2d => IldaEntryV::TcPoint2dEntry(spec_decode_true_color_2d(b)),
        Format::TrueColor3d => IldaEntryV::TcPoint3dEntry(spec_decode_true_color_3d(b)),
    }
}

/// The characters of a name field: reading stops at the first zero byte and
/// skips every byte below 31 as unprintable.
pub open spec fn spec_name_chars(bytes: Seq<u8>) -> Seq<char>
    decreases bytes.len(),
{
    if bytes.len() == 0 {
        Seq::empty()
    } else if bytes[0] == 0 {
        Seq::empty()
    } else if bytes[0] < 31 {
        spec_name_chars(bytes.drop_first())
    } else {
        seq![bytes[0] as char] + spec_name_chars(bytes.drop_first())
    }
}

/// The optional name stored in a name field: a name that is empty after
/// filtering reads back as no name at all.
pub open spec fn spec_read_name(bytes: Seq<u8>) -> Option<Seq<char>> {
    if spec_name_chars(bytes).len() == 0 {
        None
    } else {
        Some(spec_name_chars(bytes))
    }
}

/// The UTF-8 bytes of an optional name; no name has no bytes.
pub open spec fn spec_name_bytes(name: Option<Seq<char>>) -> Seq<u8> {
    match name {
        Some(s) => vstd::utf8::encode_utf8(s),
        None => Seq::empty(),
    }
}

/// The 8-byte name field that stores an optional name: its UTF-8 bytes,
/// truncated or zero-padded to exactly 8 bytes.
pub open spec fn spec_name_field(name: Option<Seq<char>>) -> Seq<u8> {
    Seq::new(
        8,
        |i: int|
            if i < spec_name_bytes(name).len() {
                spec_name_bytes(name)[i]
            } else {
                0u8
            },
    )
}

/// Whether a 32-byte slice opens with the 4-byte magic sequence.
pub open spec fn spec_magic_ok(b: Seq<u8>) -> bool {
    b.len() >= 4 && b[0] == 73 && b[1] == 76 && b[2] == 68 && b[3] == 65
}

/// The header stored in a 32-byte slice, or nothing if the slice is not
/// exactly 32 bytes or does not open with the magic sequence. The reserved
/// portions read back as zero.
pub open spec fn spec_decode_header(b: Seq<u8>) -> Option<HeaderV> {
    if b.len() == 32 && spec_magic_ok(b) {
        Some(
            HeaderV {
                reserved: 0u16,
                format_code: b[7],
                name: spec_read_name(b.subrange(8, 16)),
                company_name: spec_read_name(b.subrange(16, 24)),
                record_count: spec_u16_be(b[24], b[25]),
                number: spec_u16_be(b[26], b[27]),
                total_frames: spec_u16_be(b[28], b[29]),
                projector_number: b[30],
                reserved_2: 0u8,
            },
        )
    } else {
        None
    }
}

/// The 32 bytes that store a header: magic, three reserved zero bytes, the
/// format code, the two 8-byte name fields, three big-endian 16-bit counters,
/// the projector number, and a final reserved zero byte.
pub open spec fn spec_encode_header(h: HeaderV) -> Seq<u8> {
    spec_ilda_magic() + seq![0u8, 0u8, 0u8, h.format_code] + spec_name_field(h.name)
        + spec_name_field(h.company_name) + spec_encode_u16_be(h.record_count)
        + spec_encode_u16_be(h.number) + spec_encode_u16_be(h.total_frames) + seq![
        h.projector_number,
        0u8,
    ]
}

/// The bytes that store one stream entry.
pub open spec fn spec_encode_entry(e: IldaEntryV) -> Seq<u8> {
    match e {
        IldaEntryV::HeaderEntry(h) => spec_encode_header(h),
        IldaEntryV::TcPoint3dEntry(p) => spec_encode_true_color_3d(p),
        IldaEntryV::TcPoint2dEntry(p) => spec_encode_true_color_2d(p),
        IldaEntryV::ColorPaletteEntry(p) => spec_encode_color_palette(p),
        IldaEntryV::IdxPoint3dEntry(p) => spec_encode_indexed_3d(p),
        IldaEntryV::IdxPoint2dEntry(p) => spec_encode_indexed_2d(p),
    }
}

/// A name that reads back from its own name field byte for byte: absent, or
/// between 1 and 8 printable one-byte characters (codes 31 to 127).
pub open spec fn spec_valid_name(name: Option<Seq<char>>) -> bool {
    match name {
        None => true,
        Some(s) => 0 < s.len() <= 8 && forall|i: int|
            0 <= i < s.len() ==> 31 <= ((#[trigger] s[i]) as u32) && (s[i] as u32) < 128,
    }
}

/// A header that decodes back from its own 32-byte encoding field for field:
/// the reserved portions are zero and both names are valid.
pub open spec fn spec_valid_header(h: HeaderV) -> bool {
    h.reserved == 0 && h.reserved_2 == 0 && spec_valid_name(h.name) && spec_valid_name(
        h.company_name,
    )
}

/// A printable one-byte character (code 31 to 127) is ASCII, survives the
/// cast to its single byte, and that byte is itself printable.
pub proof fn lemma_printable_char(c: char)
    requires
        31 <= (c as u32),
        (c as u32) < 128,
    ensures
        '\0' <= c && c <= '\u{7f}',
        ((c as u8) as char) == c,
        31 <= (c as u8),
{
    vstd::utf8::char_is_scalar(c);
    vstd::utf8::char_u32_cast(c, c as u32);
    assert((c as u8) as u32 == c as u32);
    assert(((c as u8) as char) == ((c as u32) as char));
}

/// Reading a name field whose bytes are a run of printable bytes followed by
/// either nothing or a zero byte yields exactly the printable run.
proof fn lemma_name_chars_printable_prefix(prefix: Seq<u8>, suffix: Seq<u8>)
    requires
        forall|i: int| 0 <= i < prefix.len() ==> 31 <= #[trigger] prefix[i],
        suffix.len() == 0 || suffix[0] == 0,
    ensures
        spec_name_chars(prefix + suffix) == prefix.map_values(|b: u8| b as char),
    decreases prefix.len(),
{
    let all = prefix + suffix;
    if prefix.len() == 0 {
        assert(all =~= suffix);
        assert(spec_name_chars(suffix) =~= Seq::<char>::empty());
        assert(prefix.map_values(|b: u8| b as char) =~= Seq::<char>::empty());
    } else {
        assert(all[0] == prefix[0]);
        assert(all[0] >= 31);
        lemma_name_chars_printable_prefix(prefix.drop_first(), suffix);
        assert(all.drop_first() =~= prefix.drop_first() + suffix);
        assert(spec_name_chars(all) =~= seq![prefix[0] as char] + prefix.drop_first().map_values(
            |b: u8| b as char,
        ));
        assert(prefix.map_values(|b: u8| b as char) =~= seq![prefix[0] as char]
            + prefix.drop_first().map_values(|b: u8| b as char));
    }
}

/// Reading an 8-byte name field back yields the valid name it was built from.
pub proof fn lemma_name_roundtrip(name: Option<Seq<char>>)
    requires
        spec_valid_name(name),
    ensures
        spec_read_name(spec_name_field(name)) == name,
{
    match name {
        None => {
            let zeros = Seq::<u8>::empty();
            assert(spec_name_field(name) =~= zeros + spec_name_field(name));
            assert(spec_name_field(name)[0] == 0);
            lemma_name_chars_printable_prefix(zeros, spec_name_field(name));
            assert(spec_name_chars(spec_name_field(name)) =~= Seq::<char>::empty());
        },
        Some(s) => {
            assert forall|i: int| 0 <= i < s.len() implies '\0' <= #[trigger] s[i] && s[i]
                <= '\u{7f}' by {
                lemma_printable_char(s[i]);
            }
            assert(vstd::utf8::is_ascii_chars(s));
            vstd::utf8::is_ascii_chars_encode_utf8(s);
            let bytes = spec_name_bytes(name);
            assert(bytes.len() == s.len());
            assert forall|i: int| 0 <= i < bytes.len() implies 31 <= #[trigger] bytes[i] by {
                assert(bytes[i] == s[i] as u8);
                lemma_printable_char(s[i]);
            }
            let field = spec_name_field(name);
            let pad = field.skip(s.len() as int);
            assert(field =~= bytes + pad);
            if s.len() < 8 {
                assert(pad[0] == 0);
            }
            lemma_name_chars_printable_prefix(bytes, pad);
            assert(spec_name_chars(field) == bytes.map_values(|b: u8| b as char));
            assert(bytes.map_values(|b: u8| b as char) =~= s) by {
                assert forall|i: int| 0 <= i < s.len() implies bytes.map_values(
                    |b: u8| b as char,
                )[i] == s[i] by {
                    assert(bytes[i] == s[i] as u8);
                    lemma_printable_char(s[i]);
                }
            }
            assert(spec_name_chars(field).len() > 0);
        },
    }
}

/// Decoding the 32-byte encoding of a valid header yields that header: the
/// byte-exact header round trip.
pub proof fn lemma_header_roundtrip(h: HeaderV)
    requires
        spec_valid_header(h),
    ensures
        spec_encode_header(h).len() == 32,
        spec_decode_header(spec_encode_header(h)) == Some(h),
{
    let b = spec_encode_header(h);
    assert(b.len() == 32);
    assert(b[0] == 73 && b[1] == 76 && b[2] == 68 && b[3] == 65);
    assert(b[7] == h.format_code);
    assert(b.subrange(8, 16) =~= spec_name_field(h.name));
    assert(b.subrange(16, 24) =~= spec_name_field(h.company_name));
    lemma_name_roundtrip(h.name);
    lemma_name_roundtrip(h.company_name);
    assert(b[24] == spec_encode_u16_be(h.record_count)[0]);
    assert(b[25] == spec_encode_u16_be(h.record_count)[1]);
    lemma_u16_be_roundtrip(h.record_count);
    lemma_u16_be_roundtrip(h.number);
    lemma_u16_be_roundtrip(h.total_frames);
    assert(b[30] == h.projector_number);
    assert(spec_decode_header(b) matches Some(d) && d =~= h);
}

/// Decoding the 8-byte encoding of an indexed 3D point yields that point.
pub proof fn lemma_indexed_3d_roundtrip(p: IndexedPoint3d)
    ensures
        spec_encode_indexed_3d(p).len() == 8,
        spec_decode_indexed_3d(spec_encode_indexed_3d(p)) == p,
{
    lemma_i16_be_roundtrip(p.x);
    lemma_i16_be_roundtrip(p.y);
    lemma_i16_be_roundtrip(p.z);
}

/// Decoding the 6-byte encoding of an indexed 2D point yields that point.
pub proof fn lemma_indexed_2d_roundtrip(p: IndexedPoint2d)
    ensures
        spec_encode_indexed_2d(p).len() == 6,
        spec_decode_indexed_2d(spec_encode_indexed_2d(p)) == p,
{
    lemma_i16_be_roundtrip(p.x);
    lemma_i16_be_roundtrip(p.y);
}

/// Decoding the 3-byte encoding of a palette color yields that color.
pub proof fn lemma_color_palette_roundtrip(p: ColorPalette)
    ensures
        spec_encode_color_palette(p).len() == 3,
        spec_decode_color_palette(spec_encode_color_palette(p)) == p,
{
}

/// Decoding the 10-byte encoding of a true-color 3D point yields that point.
pub proof fn lemma_true_color_3d_roundtrip(p: TrueColorPoint3d)
    ensures
        spec_encode_true_color_3d(p).len() == 10,
        spec_decode_true_color_3d(spec_encode_true_color_3d(p)) == p,
{
    lemma_i16_be_roundtrip(p.x);
    lemma_i16_be_roundtrip(p.y);
    lemma_i16_be_roundtrip(p.z);
}

/// Decoding the 8-byte encoding of a true-color 2D point yields that point.
pub proof fn lemma_true_color_2d_roundtrip(p: TrueColorPoint2d)
    ensures
        spec_encode_true_color_2d(p).len() == 8,
        spec_decode_true_color_2d(spec_encode_true_color_2d(p)) == p,
{
    lemma_i16_be_roundtrip(p.x);
    lemma_i16_be_roundtrip(p.y);
}

/// Decoding the fixed-width encoding of a payload record of any supported
/// format yields that record: the record round trip.
pub proof fn lemma_record_roundtrip(f: Format, e: IldaEntryV)
    requires
        match e {
            IldaEntryV::HeaderEntry(_) => false,
            IldaEntryV::TcPoint3dEntry(_) => f == Format::TrueColor3d,
            IldaEntryV::TcPoint2dEntry(_) => f == Format::TrueColor2d,
            IldaEntryV::ColorPaletteEntry(_) => f == Format::ColorPalette,
            IldaEntryV::IdxPoint3dEntry(_) => f == Format::Indexed3d,
            IldaEntryV::IdxPoint2dEntry(_) => f == Format::Indexed2d,
        },
    ensures
        spec_encode_entry(e).len() == spec_record_size(f),
        spec_decode_record(f, spec_encode_entry(e)) == e,
{
    match e {
        IldaEntryV::HeaderEntry(_) => {},
        IldaEntryV::TcPoint3dEntry(p) => lemma_true_color_3d_roundtrip(p),
        IldaEntryV::TcPoint2dEntry(p) => lemma_true_color_2d_roundtrip(p),
        IldaEntryV::ColorPaletteEntry(p) => lemma_color_palette_roundtrip(p),
        IldaEntryV::IdxPoint3dEntry(p) => lemma_indexed_3d_roundtrip(p),
        IldaEntryV::IdxPoint2dEntry(p) => lemma_indexed_2d_roundtrip(p),
    }
}

} // verus!
