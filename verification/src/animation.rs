//! A higher-level representation of ILDA data, organizing the entry stream
//! into "frames". Frames contain points. It's a simple representation that
//! doesn't expose color palettes, indexed colors, and so forth.

use vstd::prelude::*;

use crate::color::default_color_index;
use crate::color::spec_default_color;
use crate::data::Format;
use crate::data::Header;
use crate::data::HeaderV;
use crate::data::IldaEntry;
use crate::data::IldaEntryV;
use crate::data::IndexedPoint2d;
use crate::data::TrueColorPoint2d;
use crate::data::spec_encode_header;
use crate::data::spec_encode_true_color_2d;
use crate::data::spec_name_view;
use crate::data::spec_status_code;
use crate::error::IldaError;
use crate::parser::IldaEntryIteratorWithError;
use crate::parser::stream_with_error;
use crate::parser::spec_decode_stream;
use crate::point::SimplePoint;
use crate::writer::IldaWriter;

verus! {

/// An animation is comprised of one or more frames.
#[derive(Clone)]
pub struct Animation {
    frames: Vec<Frame>,
}

/// A single frame of animation, comprised of many points.
#[derive(Clone)]
pub struct Frame {
    points: Vec<SimplePoint>,
    frame_name: Option<String>,
    company_name: Option<String>,
}

/// The mathematical value of a [`Frame`]: its points and its optional names,
/// each name abstracted to its character sequence.
#[verifier::ext_equal]
pub struct FrameV {
    /// The frame's points, in order.
    pub points: Seq<SimplePoint>,
    /// The name of the frame.
    pub frame_name: Option<Seq<char>>,
    /// The name of the company.
    pub company_name: Option<Seq<char>>,
}

impl View for Frame {
    type V = FrameV;

    closed spec fn view(&self) -> FrameV {
        FrameV {
            points: self.points@,
            frame_name: spec_name_view(self.frame_name),
            company_name: spec_name_view(self.company_name),
        }
    }
}

impl View for Animation {
    type V = Seq<FrameV>;

    closed spec fn view(&self) -> Seq<FrameV> {
        self.frames@.map_values(|f: Frame| f@)
    }
}

/// The signed color index with the same byte as `b`, in two's complement.
pub open spec fn spec_i8_of_u8(b: u8) -> i8 {
    if b >= 128 {
        (b - 256) as i8
    } else {
        b as i8
    }
}

/// Reinterpret a color index byte as a signed index.
fn i8_of_u8(b: u8) -> (r: i8)
    ensures
        r == spec_i8_of_u8(b),
{
    if b >= 128 {
        ((b as i16) - 256) as i8
    } else {
        b as i8
    }
}

/// The animation point an entry converts to: true-color points keep their
/// color, indexed points resolve theirs through the default color table, and
/// the z coordinate of 3D points is dropped. Headers are the caller's to
/// handle and palettes are not supported.
pub open spec fn spec_entry_to_point(e: IldaEntryV) -> Result<SimplePoint, IldaError> {
    match e {
        IldaEntryV::HeaderEntry(_) => Err(IldaError::InvalidData),
        IldaEntryV::ColorPaletteEntry(_) => Err(IldaError::Unsupported),
        IldaEntryV::TcPoint2dEntry(p) => Ok(
            SimplePoint {
                x: p.x,
                y: p.y,
                r: p.r,
                g: p.g,
                b: p.b,
                is_blank: p.status_code & 64 != 0,
            },
        ),
        IldaEntryV::TcPoint3dEntry(p) => Ok(
            SimplePoint {
                x: p.x,
                y: p.y,
                r: p.r,
                g: p.g,
                b: p.b,
                is_blank: p.status_code & 64 != 0,
            },
        ),
        IldaEntryV::IdxPoint2dEntry(p) => {
            let color = spec_default_color(spec_i8_of_u8(p.color_index));
            Ok(
                SimplePoint {
                    x: p.x,
                    y: p.y,
                    r: color.r,
                    g: color.g,
                    b: color.b,
                    is_blank: p.status_code & 64 != 0,
                },
            )
        },
        IldaEntryV::IdxPoint3dEntry(p) => {
            let color = spec_default_color(spec_i8_of_u8(p.color_index));
            Ok(
                SimplePoint {
                    x: p.x,
                    y: p.y,
                    r: color.r,
                    g: color.g,
                    b: color.b,
                    is_blank: p.status_code & 64 != 0,
                },
            )
        },
    }
}

/// Convert an IldaEntry containing a point into a respective animation point.
/// Color palettes and headers will return errors.
pub fn ilda_entry_to_point(entry: IldaEntry) -> (r: Result<SimplePoint, IldaError>)
    ensures
        r == spec_entry_to_point(entry@),
{
    match entry {
        IldaEntry::HeaderEntry(_) => {
            // Already handled by caller.
            Err(IldaError::InvalidData)
        },
        IldaEntry::ColorPaletteEntry(_) => Err(IldaError::Unsupported),
        IldaEntry::TcPoint2dEntry(point) => Ok(
            SimplePoint {
                x: point.x,
                y: point.y,
                r: point.r,
                g: point.g,
                b: point.b,
                is_blank: point.is_blank(),
            },
        ),
        IldaEntry::TcPoint3dEntry(point) => Ok(
            SimplePoint {
                x: point.x,
                y: point.y,
                r: point.r,
                g: point.g,
                b: point.b,
                is_blank: point.is_blank(),
            },
        ),
        IldaEntry::IdxPoint2dEntry(point) => {
            let color = default_color_index(i8_of_u8(point.color_index));
            Ok(
                SimplePoint {
                    x: point.x,
                    y: point.y,
                    r: color.r,
                    g: color.g,
                    b: color.b,
                    is_blank: point.is_blank(),
                },
            )
        },
        IldaEntry::IdxPoint3dEntry(point) => {
            let color = default_color_index(i8_of_u8(point.color_index));
            Ok(
                SimplePoint {
                    x: point.x,
                    y: point.y,
                    r: color.r,
                    g: color.g,
                    b: color.b,
                    is_blank: point.is_blank(),
                },
            )
        },
    }
}

impl Frame {
    /// Create a new frame from points.
    pub fn new(
        points: Vec<SimplePoint>,
        frame_name: Option<String>,
        company_name: Option<String>,
    ) -> (r: Frame)
        ensures
            r@ == (FrameV {
                points: points@,
                frame_name: spec_name_view(frame_name),
                company_name: spec_name_view(company_name),
            }),
    {
        Frame { points, frame_name, company_name }
    }

    /// Get a reference to the points in the frame.
    pub fn get_points(&self) -> (r: &Vec<SimplePoint>)
        ensures
            r@ == self@.points,
    {
        &self.points
    }

    /// Get the number of points in the frame.
    pub fn point_count(&self) -> (r: usize)
        ensures
            r == self@.points.len(),
    {
        self.points.len()
    }

    /// Get a reference to the point at the given offset, if it exists.
    pub fn get_point(&self, position: usize) -> (r: Option<&SimplePoint>)
        ensures
            match r {
                Some(p) => position < self@.points.len() && *p == self@.points[position as int],
                None => position >= self@.points.len(),
            },
    {
        if position < self.points.len() {
            Some(&self.points[position])
        } else {
            None
        }
    }
}

impl Animation {
    /// Creates a new animation from frames.
    pub fn new(frames: Vec<Frame>) -> (r: Animation)
        ensures
            r@ == frames@.map_values(|f: Frame| f@),
    {
        Animation { frames }
    }

    /// Return a reference to the frames.
    pub fn get_frames(&self) -> (r: &Vec<Frame>)
        ensures
            r@.map_values(|f: Frame| f@) == self@,
    {
        &self.frames
    }

    /// Return the number of frames in the animation.
    pub fn frame_count(&self) -> (r: usize)
        ensures
            r == self@.len(),
    {
        self.frames.len()
    }

    /// Get a reference to the frame at the given offset, if it exists.
    pub fn get_frame(&self, position: usize) -> (r: Option<&Frame>)
        ensures
            match r {
                Some(f) => position < self@.len() && f@ == self@[position as int],
                None => position >= self@.len(),
            },
    {
        if position < self.frames.len() {
            Some(&self.frames[position])
        } else {
            None
        }
    }
}

/// The true-color 2D record that stores an animation point, with the
/// last-point bit set on the final point of a frame.
pub open spec fn spec_point_to_tc2d(p: SimplePoint, is_last: bool) -> TrueColorPoint2d {
    TrueColorPoint2d {
        x: p.x,
        y: p.y,
        status_code: spec_status_code(p.is_blank, is_last),
        b: p.b,
        g: p.g,
        r: p.r,
    }
}

/// The header that announces a frame: true-color 2D, the frame's names, and
/// one record per point.
pub open spec fn spec_frame_header(frame: FrameV, number: u16, total_frames: u16) -> HeaderV {
    HeaderV {
        reserved: 0u16,
        format_code: 5u8,
        name: frame.frame_name,
        company_name: frame.company_name,
        record_count: frame.points.len() as u16,
        number,
        total_frames,
        projector_number: 0u8,
        reserved_2: 0u8,
    }
}

/// The bytes that store the first `i` points of a frame, each a true-color
/// 2D record, the frame's final point carrying the last-point bit.
pub open spec fn spec_encode_frame_points(points: Seq<SimplePoint>, i: int) -> Seq<u8>
    decreases i,
{
    if i <= 0 {
        Seq::empty()
    } else {
        spec_encode_frame_points(points, i - 1) + spec_encode_true_color_2d(
            spec_point_to_tc2d(points[i - 1], i == points.len()),
        )
    }
}

/// The bytes that store one whole frame: its header, then its points.
pub open spec fn spec_encode_frame(frame: FrameV, number: u16, total_frames: u16) -> Seq<u8> {
    spec_encode_header(spec_frame_header(frame, number, total_frames)) + spec_encode_frame_points(
        frame.points,
        frame.points.len() as int,
    )
}

/// The terminal header that ends every well-formed stream: record count
/// zero, no names, every counter zero.
pub open spec fn spec_terminal_header() -> HeaderV {
    HeaderV {
        reserved: 0u16,
        format_code: 5u8,
        name: None,
        company_name: None,
        record_count: 0u16,
        number: 0u16,
        total_frames: 0u16,
        projector_number: 0u8,
        reserved_2: 0u8,
    }
}

/// The bytes that store the first `i` frames of an animation, each numbered
/// by its position.
pub open spec fn spec_encode_animation_frames(frames: Seq<FrameV>, i: int, total: u16) -> Seq<u8>
    decreases i,
{
    if i <= 0 {
        Seq::empty()
    } else {
        spec_encode_animation_frames(frames, i - 1, total) + spec_encode_frame(
            frames[i - 1],
            (i - 1) as u16,
            total,
        )
    }
}

/// Copy an optional name.
fn clone_name(name: &Option<String>) -> (r: Option<String>)
    ensures
        spec_name_view(r) == spec_name_view(*name),
{
    match name {
        None => None,
        Some(s) => Some(s.clone()),
    }
}

/// Output ILDA frames into an owned byte buffer. Every byte stream taken
/// back out of it, through `finalize`, ends with the terminal header.
pub struct AnimationStreamWriter {
    inner: IldaWriter,
}

impl View for AnimationStreamWriter {
    type V = Seq<u8>;

    /// The bytes written so far.
    closed spec fn view(&self) -> Seq<u8> {
        self.inner@
    }
}

impl AnimationStreamWriter {
    /// Create a new AnimationStreamWriter instance appending to the given
    /// buffer.
    pub fn new(inner: Vec<u8>) -> (r: AnimationStreamWriter)
        ensures
            r@ == inner@,
    {
        AnimationStreamWriter { inner: IldaWriter::new(inner) }
    }

    /// Write a frame into the stream. (Simple version for pseudo streaming)
    /// This will set the frame number and total_frames value of the header
    /// to 0. To specify these values, use `write_frame_ext` instead.
    pub fn write_frame(&mut self, frame: &Frame) -> (r: Result<(), IldaError>)
        ensures
            match r {
                Ok(_) => frame@.points.len() <= 65535 && final(self)@ == old(self)@
                    + spec_encode_frame(frame@, 0, 0),
                Err(e) => frame@.points.len() > 65535 && (e matches IldaError::TooManyPoints(n)
                    && n == frame@.points.len()) && final(self)@ == old(self)@,
            },
    {
        self.write_frame_ext(frame, 0, 0)
    }

    /// Write a frame into the stream: its header, then one true-color 2D
    /// record per point. A frame with more points than the header's 16-bit
    /// record count can announce is refused, not truncated.
    pub fn write_frame_ext(&mut self, frame: &Frame, number: u16, total_frames: u16) -> (r: Result<
        (),
        IldaError,
    >)
        ensures
            match r {
                Ok(_) => frame@.points.len() <= 65535 && final(self)@ == old(self)@
                    + spec_encode_frame(frame@, number, total_frames),
                Err(e) => frame@.points.len() > 65535 && (e matches IldaError::TooManyPoints(n)
                    && n == frame@.points.len()) && final(self)@ == old(self)@,
            },
    {
        let len = frame.points.len();
        if len > 65535 {
            return Err(IldaError::TooManyPoints(len));
        }
        let header = Header::new(
            Format::TrueColor2d,
            clone_name(&frame.frame_name),
            clone_name(&frame.company_name),
            len as u16,
            number,
            total_frames,
            0,
        );
        proof {
            assert(header@ =~= spec_frame_header(frame@, number, total_frames));
        }
        let ghost start = self.inner@;
        match self.inner.write(IldaEntry::HeaderEntry(header)) {
            Ok(_) => (),
            Err(e) => {
                return Err(e);
            },
        }
        let ghost headered = self.inner@;
        let mut i: usize = 0;
        while i < len
            invariant
                i <= len,
                len == frame@.points.len(),
                len <= 65535,
                headered == start + spec_encode_header(spec_frame_header(frame@, number,
                total_frames)),
                self.inner@ == headered + spec_encode_frame_points(frame@.points, i as int),
            decreases len - i,
        {
            let p = frame.points[i];
            let ilda_point = TrueColorPoint2d::new(p.x, p.y, p.r, p.g, p.b, i + 1 == len,
            p.is_blank);
            proof {
                assert(ilda_point == spec_point_to_tc2d(frame@.points[i as int], i + 1 == len));
            }
            match self.inner.write(IldaEntry::TcPoint2dEntry(ilda_point)) {
                Ok(_) => (),
                Err(e) => {
                    return Err(e);
                },
            }
            proof {
                assert(spec_encode_frame_points(frame@.points, i as int + 1)
                    == spec_encode_frame_points(frame@.points, i as int) + spec_encode_true_color_2d(
                    ilda_point,
                ));
                assert(headered + (spec_encode_frame_points(frame@.points, i as int)
                    + spec_encode_true_color_2d(ilda_point)) =~= (headered
                    + spec_encode_frame_points(frame@.points, i as int))
                    + spec_encode_true_color_2d(ilda_point));
            }
            i = i + 1;
        }
        proof {
            assert(start + (spec_encode_header(spec_frame_header(frame@, number, total_frames))
                + spec_encode_frame_points(frame@.points, len as int)) =~= (start
                + spec_encode_header(spec_frame_header(frame@, number, total_frames)))
                + spec_encode_frame_points(frame@.points, len as int));
        }
        Ok(())
    }

    /// Write the terminal header that marks the end of the stream.
    fn write_finishing_header(&mut self) -> (r: Result<(), IldaError>)
        ensures
            r is Ok,
            final(self)@ == old(self)@ + spec_encode_header(spec_terminal_header()),
    {
        let header = Header::new(Format::TrueColor2d, None, None, 0, 0, 0, 0);
        proof {
            assert(header@ =~= spec_terminal_header());
        }
        self.inner.write(IldaEntry::HeaderEntry(header))
    }

    /// Consume the writer and finish the byte stream by writing the terminal
    /// header. This is the only way to take the bytes back out, so every
    /// stream this writer produces is well terminated.
    pub fn finalize(self) -> (r: Vec<u8>)
        ensures
            r@ == self@ + spec_encode_header(spec_terminal_header()),
    {
        let mut this = self;
        match this.write_finishing_header() {
            Ok(_) => (),
            Err(_) => (),
        }
        this.inner.into_inner()
    }
}

impl Animation {
    /// Write the animation as one byte stream: every frame in order, each
    /// numbered by its position, then the terminal header.
    pub fn write(&self) -> (r: Result<Vec<u8>, IldaError>)
        ensures
            match r {
                Ok(v) => self@.len() <= 65535 && (forall|k: int|
                    0 <= k < self@.len() ==> (#[trigger] self@[k]).points.len() <= 65535) && v@
                    == spec_encode_animation_frames(self@, self@.len() as int, self@.len() as u16)
                    + spec_encode_header(spec_terminal_header()),
                Err(e) => match e {
                    IldaError::TooManyFrames(n) => n == self@.len() && self@.len() > 65535,
                    IldaError::TooManyPoints(n) => self@.len() <= 65535 && exists|k: int|
                        0 <= k < self@.len() && (#[trigger] self@[k]).points.len() == n
                            && self@[k].points.len() > 65535 && forall|j: int|
                            0 <= j < k ==> (#[trigger] self@[j]).points.len() <= 65535,
                    _ => false,
                },
            },
    {
        let mut streamer = AnimationStreamWriter::new(Vec::new());
        let len = self.frames.len();
        if len > 65535 {
            return Err(IldaError::TooManyFrames(len));
        }
        let mut i: usize = 0;
        while i < len
            invariant
                i <= len,
                len == self@.len(),
                len <= 65535,
                streamer@ == spec_encode_animation_frames(self@, i as int, len as u16),
                forall|j: int| 0 <= j < i ==> (#[trigger] self@[j]).points.len() <= 65535,
                len == self.frames@.len(),
            decreases len - i,
        {
            proof {
                assert(self.frames@[i as int]@ == self@[i as int]);
            }
            match streamer.write_frame_ext(&self.frames[i], i as u16, len as u16) {
                Ok(_) => (),
                Err(e) => {
                    proof {
                        let bad = i as int;
                        assert(0 <= bad < self@.len() && (#[trigger] self@[bad]).points.len()
                            == self@[bad].points.len() && self@[bad].points.len() > 65535 && forall|
                            j: int,
                        | 0 <= j < bad ==> (#[trigger] self@[j]).points.len() <= 65535);
                    }
                    return Err(e);
                },
            }
            i = i + 1;
        }
        Ok(streamer.finalize())
    }
}

/// What bucketing an entry stream into frames yields: the frames produced in
/// order, and either a clean end (`None`) or the error that aborted it.
#[verifier::ext_equal]
pub struct FramesOutcome {
    /// The frames produced, in stream order.
    pub frames: Seq<FrameV>,
    /// `None` for a clean end, or the aborting error.
    pub error: Option<IldaError>,
}

/// The error reported when the entry stream ends while a frame still owes
/// points: the stream's own error if it failed, else a premature end.
pub open spec fn spec_stream_end_error(serr: Option<IldaError>) -> IldaError {
    match serr {
        Some(e) => e,
        None => IldaError::InvalidData,
    }
}

/// The points of one frame, taken one entry at a time from the available
/// entries: the first entry that fails to convert, or the end of the entries
/// before `n` points are taken, aborts the frame.
pub open spec fn spec_take_points(
    entries: Seq<IldaEntryV>,
    n: nat,
    serr: Option<IldaError>,
) -> Result<Seq<SimplePoint>, IldaError>
    decreases n,
{
    if n == 0 {
        Ok(Seq::empty())
    } else if entries.len() == 0 {
        Err(spec_stream_end_error(serr))
    } else {
        match spec_entry_to_point(entries[0]) {
            Err(e) => Err(e),
            Ok(p) => match spec_take_points(entries.drop_first(), (n - 1) as nat, serr) {
                Err(e) => Err(e),
                Ok(ps) => Ok(seq![p] + ps),
            },
        }
    }
}

/// The error a failed point run carries; taking points from too few entries
/// always fails, so the fallback is never reached there.
pub open spec fn spec_take_err(r: Result<Seq<SimplePoint>, IldaError>) -> IldaError {
    match r {
        Err(e) => e,
        Ok(_) => IldaError::InvalidData,
    }
}

/// The frame built from a header and the points that followed it.
pub open spec fn spec_frame_of(h: HeaderV, points: Seq<SimplePoint>) -> FrameV {
    FrameV { points, frame_name: h.name, company_name: h.company_name }
}

/// The outcome of bucketing an entry stream into frames.
///
/// Each frame is one header entry followed by its announced number of point
/// entries. A terminal header ends the bucketing cleanly. A payload entry
/// where a header is due, a header or palette entry where a point is due,
/// and an entry stream that ends or fails mid-frame all abort it.
pub open spec fn spec_frames(entries: Seq<IldaEntryV>, serr: Option<IldaError>) -> FramesOutcome
    decreases entries.len(),
{
    if entries.len() == 0 {
        FramesOutcome { frames: Seq::empty(), error: serr }
    } else {
        match entries[0] {
            IldaEntryV::HeaderEntry(h) => {
                if h.record_count == 0 {
                    FramesOutcome { frames: Seq::empty(), error: None }
                } else if entries.len() < 1 + h.record_count {
                    FramesOutcome {
                        frames: Seq::empty(),
                        error: Some(
                            spec_take_err(
                                spec_take_points(entries.skip(1), h.record_count as nat, serr),
                            ),
                        ),
                    }
                } else {
                    match spec_take_points(entries.skip(1), h.record_count as nat, serr) {
                        Err(e) => FramesOutcome { frames: Seq::empty(), error: Some(e) },
                        Ok(ps) => {
                            let rest = spec_frames(
                                entries.skip(1 + h.record_count as int),
                                serr,
                            );
                            FramesOutcome {
                                frames: seq![spec_frame_of(h, ps)] + rest.frames,
                                error: rest.error,
                            }
                        },
                    }
                }
            },
            _ => FramesOutcome { frames: Seq::empty(), error: Some(IldaError::InvalidData) },
        }
    }
}

/// What the rest of an entry iterator's stream buckets into.
pub open spec fn frames_outcome<'a>(it: IldaEntryIteratorWithError<'a>) -> FramesOutcome {
    spec_frames(it.outcome().entries, it.outcome().error)
}

/// The frames stored in a byte stream.
pub open spec fn spec_frames_of_bytes(bytes: Seq<u8>) -> FramesOutcome {
    spec_frames(spec_decode_stream(bytes).entries, spec_decode_stream(bytes).error)
}

/// Read the next frame from the entry stream: one header entry, then the
/// point entries it announces.
fn next_frame<'a>(iter: &mut IldaEntryIteratorWithError<'a>) -> (r: Result<Option<Frame>, IldaError>)
    requires
        old(iter).wf(),
    ensures
        final(iter).wf(),
        final(iter).bytes@ == old(iter).bytes@,
        match r {
            Ok(Some(f)) => {
                &&& frames_outcome(*old(iter)).frames.len() > 0
                &&& f@ == frames_outcome(*old(iter)).frames[0]
                &&& frames_outcome(*final(iter)).frames =~= frames_outcome(
                    *old(iter),
                ).frames.skip(1)
                &&& frames_outcome(*final(iter)).error == frames_outcome(*old(iter)).error
            },
            Ok(None) => frames_outcome(*old(iter)).frames.len() == 0 && frames_outcome(
                *old(iter),
            ).error is None,
            Err(e) => frames_outcome(*old(iter)).frames.len() == 0 && frames_outcome(
                *old(iter),
            ).error == Some(e),
        },
{
    let ghost e0 = iter.outcome().entries;
    let ghost s0 = iter.outcome().error;
    let ghost bytes0 = iter.bytes@;
    let entry = match iter.next() {
        None => {
            return Ok(None);
        },
        Some(Err(e)) => {
            return Err(e);
        },
        Some(Ok(entry)) => entry,
    };
    let ghost b0 = iter.outcome().entries;
    proof {
        assert(b0 =~= e0.skip(1));
    }
    let header = match entry {
        IldaEntry::HeaderEntry(header) => header,
        _ => {
            return Err(IldaError::InvalidData);
        },
    };
    if header.record_count == 0 {
        // EOF header
        return Ok(None);
    }
    let n = header.record_count;
    let ghost h = header@;
    let mut points: Vec<SimplePoint> = Vec::new();
    let mut points_to_read: u16 = n;
    while points_to_read > 0
        invariant
            iter.wf(),
            iter.bytes@ == bytes0,
            bytes0 == old(iter).bytes@,
            e0 == old(iter).outcome().entries,
            s0 == old(iter).outcome().error,
            points_to_read <= n,
            n == h.record_count,
            n > 0,
            e0.len() >= 1,
            e0[0] == IldaEntryV::HeaderEntry(h),
            b0 == e0.skip(1),
            iter.outcome().error == s0,
            points@.len() == n - points_to_read,
            n as int - points_to_read as int <= b0.len(),
            iter.outcome().entries =~= b0.skip(n as int - points_to_read as int),
            spec_take_points(b0, n as nat, s0) == (match spec_take_points(
                iter.outcome().entries,
                points_to_read as nat,
                s0,
            ) {
                Ok(ps) => Ok::<Seq<SimplePoint>, IldaError>(points@ + ps),
                Err(e) => Err::<Seq<SimplePoint>, IldaError>(e),
            }),
        decreases points_to_read,
    {
        let ghost cur = iter.outcome().entries;
        let entry = match iter.next() {
            None => {
                // premature end of stream
                proof {
                    assert(spec_take_points(b0, n as nat, s0) == Err::<
                        Seq<SimplePoint>,
                        IldaError,
                    >(IldaError::InvalidData));
                }
                return Err(IldaError::InvalidData);
            },
            Some(Err(e)) => {
                proof {
                    assert(spec_take_points(b0, n as nat, s0) == Err::<Seq<SimplePoint>, IldaError>(
                        e,
                    ));
                }
                return Err(e);
            },
            Some(Ok(entry)) => entry,
        };
        let point = match ilda_entry_to_point(entry) {
            Ok(p) => p,
            Err(e) => {
                proof {
                    assert(spec_take_points(cur, points_to_read as nat, s0) == Err::<
                        Seq<SimplePoint>,
                        IldaError,
                    >(e));
                    assert(spec_take_points(b0, n as nat, s0) == Err::<Seq<SimplePoint>, IldaError>(
                        e,
                    ));
                }
                return Err(e);
            },
        };
        proof {
            assert(cur.drop_first() =~= b0.skip(n as int - points_to_read as int + 1));
            let rest = spec_take_points(cur.drop_first(), (points_to_read - 1) as nat, s0);
            match rest {
                Ok(ps2) => {
                    assert(points@ + (seq![point] + ps2) =~= points@.push(point) + ps2);
                },
                Err(_) => {},
            }
        }
        points_to_read = points_to_read - 1;
        points.push(point);
    }
    proof {
        assert(spec_take_points(iter.outcome().entries, 0nat, s0) == Ok::<
            Seq<SimplePoint>,
            IldaError,
        >(Seq::<SimplePoint>::empty()));
        assert(points@ + Seq::<SimplePoint>::empty() =~= points@);
        assert(spec_take_points(b0, n as nat, s0) == Ok::<Seq<SimplePoint>, IldaError>(points@));
        assert(e0.len() >= 1 + n);
        assert(e0.skip(1 + n as int) =~= b0.skip(n as int));
        assert(iter.outcome().entries =~= b0.skip(n as int));
    }
    let frame = Frame {
        points,
        frame_name: header.name,
        company_name: header.company_name,
    };
    proof {
        assert(frame@ =~= spec_frame_of(h, frame.points@));
        assert(spec_frames(e0, s0).frames =~= seq![spec_frame_of(h, frame.points@)] + spec_frames(
            e0.skip(1 + n as int),
            s0,
        ).frames);
    }
    Ok(Some(frame))
}

} // verus!

verus! {

/// Iterator over animation `Result<Frame, IldaError>` items decoded from a
/// byte slice.
pub struct AnimationFrameIteratorWithError<'a> {
    /// The entry stream being bucketed into frames.
    pub inner: IldaEntryIteratorWithError<'a>,
    /// Whether iteration has ended, cleanly or by a delivered error.
    pub done: bool,
}

/// Iterator over animation `Frame` items, for callers that have asserted
/// well-formed input; its `next` demands an error-free stream instead of
/// panicking.
pub struct AnimationFrameIterator<'a> {
    /// The failure-observing iterator this one unwraps.
    pub inner: AnimationFrameIteratorWithError<'a>,
}

impl<'a> AnimationFrameIteratorWithError<'a> {
    /// The iterator is consistent.
    pub open spec fn wf(self) -> bool {
        self.inner.wf()
    }

    /// What the rest of the iteration yields: nothing once done, otherwise
    /// the frames of the remaining entry stream.
    pub open spec fn foutcome(self) -> FramesOutcome {
        if self.done {
            FramesOutcome { frames: Seq::empty(), error: None }
        } else {
            frames_outcome(self.inner)
        }
    }

    /// Yield the next frame, the error that aborts the stream, or `None` at
    /// a clean end.
    pub fn next(&mut self) -> (r: Option<Result<Frame, IldaError>>)
        requires
            old(self).wf(),
        ensures
            final(self).wf(),
            final(self).inner.bytes@ == old(self).inner.bytes@,
            match r {
                Some(Ok(f)) => {
                    &&& old(self).foutcome().frames.len() > 0
                    &&& f@ == old(self).foutcome().frames[0]
                    &&& final(self).foutcome().frames =~= old(self).foutcome().frames.skip(1)
                    &&& final(self).foutcome().error == old(self).foutcome().error
                },
                Some(Err(e)) => {
                    &&& old(self).foutcome().frames.len() == 0
                    &&& old(self).foutcome().error == Some(e)
                    &&& final(self).foutcome().frames.len() == 0
                    &&& final(self).foutcome().error is None
                },
                None => {
                    &&& old(self).foutcome().frames.len() == 0
                    &&& old(self).foutcome().error is None
                    &&& final(self).foutcome().frames.len() == 0
                    &&& final(self).foutcome().error is None
                },
            },
    {
        if self.done {
            return None;
        }
        match next_frame(&mut self.inner) {
            Ok(Some(frame)) => Some(Ok(frame)),
            Ok(None) => {
                self.done = true;
                None
            },
            Err(e) => {
                self.done = true;
                Some(Err(e))
            },
        }
    }
}

impl<'a> AnimationFrameIterator<'a> {
    /// Yield the next frame, or `None` at the clean end of the stream. The
    /// caller must have asserted that the whole stream buckets into frames
    /// without error.
    pub fn next(&mut self) -> (r: Option<Frame>)
        requires
            old(self).inner.wf(),
            old(self).inner.foutcome().error is None,
        ensures
            final(self).inner.wf(),
            final(self).inner.foutcome().error is None,
            final(self).inner.inner.bytes@ == old(self).inner.inner.bytes@,
            match r {
                Some(f) => {
                    &&& old(self).inner.foutcome().frames.len() > 0
                    &&& f@ == old(self).inner.foutcome().frames[0]
                    &&& final(self).inner.foutcome().frames =~= old(
                        self,
                    ).inner.foutcome().frames.skip(1)
                },
                None => {
                    &&& old(self).inner.foutcome().frames.len() == 0
                    &&& final(self).inner.foutcome().frames.len() == 0
                },
            },
    {
        match self.inner.next() {
            Some(Ok(frame)) => Some(frame),
            Some(Err(_)) => None,
            None => None,
        }
    }
}

impl Animation {
    /// Read an animation from raw ILDA bytes.
    pub fn read_bytes(ilda_bytes: &[u8]) -> (r: Result<Animation, IldaError>)
        ensures
            match r {
                Ok(a) => spec_frames_of_bytes(ilda_bytes@).error is None && a@
                    =~= spec_frames_of_bytes(ilda_bytes@).frames,
                Err(e) => spec_frames_of_bytes(ilda_bytes@).error == Some(e),
            },
    {
        let mut iter = Self::stream_with_error(ilda_bytes);
        let mut frames: Vec<Frame> = Vec::new();
        loop
            invariant
                iter.wf(),
                iter.inner.bytes@ == ilda_bytes@,
                spec_frames_of_bytes(ilda_bytes@).frames =~= frames@.map_values(|f: Frame| f@)
                    + iter.foutcome().frames,
                spec_frames_of_bytes(ilda_bytes@).error == iter.foutcome().error,
            decreases iter.foutcome().frames.len(),
        {
            match iter.next() {
                Some(Ok(frame)) => {
                    proof {
                        assert(frames@.push(frame).map_values(|f: Frame| f@) =~= frames@.map_values(
                            |f: Frame| f@,
                        ).push(frame@));
                        assert(frames@.map_values(|f: Frame| f@).push(frame@)
                            + iter.foutcome().frames =~= frames@.map_values(|f: Frame| f@) + (seq![
                            frame@,
                        ] + iter.foutcome().frames));
                    }
                    frames.push(frame);
                },
                Some(Err(e)) => {
                    return Err(e);
                },
                None => {
                    proof {
                        assert(frames@.map_values(|f: Frame| f@) + iter.foutcome().frames
                            =~= frames@.map_values(|f: Frame| f@));
                    }
                    return Ok(Animation { frames });
                },
            }
        }
    }

    /// Stream animation frames from a byte slice. The returned iterator
    /// demands an error-free stream; use `stream_with_error` to observe
    /// failures.
    pub fn stream<'a>(ilda_bytes: &'a [u8]) -> (r: AnimationFrameIterator<'a>)
        ensures
            r.inner.wf(),
            r.inner.inner.bytes@ == ilda_bytes@,
            r.inner.foutcome() == spec_frames_of_bytes(ilda_bytes@),
    {
        AnimationFrameIterator { inner: Self::stream_with_error(ilda_bytes) }
    }

    /// Stream animation frames (with error handling) from a byte slice.
    pub fn stream_with_error<'a>(ilda_bytes: &'a [u8]) -> (r: AnimationFrameIteratorWithError<'a>)
        ensures
            r.wf(),
            r.inner.bytes@ == ilda_bytes@,
            r.foutcome() == spec_frames_of_bytes(ilda_bytes@),
    {
        AnimationFrameIteratorWithError { inner: stream_with_error(ilda_bytes), done: false }
    }
}

} // verus!

verus! {

/// Iterator over the frames of a consumed animation.
pub struct AnimationFrameIntoIter {
    rev_frames: Vec<Frame>,
}

impl AnimationFrameIntoIter {
    /// The frames not yet yielded, in order.
    pub closed spec fn remaining(self) -> Seq<FrameV> {
        self.rev_frames@.map_values(|f: Frame| f@).reverse()
    }

    /// Yield the next frame, or `None` when every frame has been yielded.
    pub fn next(&mut self) -> (r: Option<Frame>)
        ensures
            match r {
                Some(f) => {
                    &&& old(self).remaining().len() > 0
                    &&& f@ == old(self).remaining()[0]
                    &&& final(self).remaining() =~= old(self).remaining().skip(1)
                },
                None => {
                    &&& old(self).remaining().len() == 0
                    &&& final(self).remaining().len() == 0
                },
            },
    {
        if self.rev_frames.len() == 0 {
            return None;
        }
        let frame = match self.rev_frames.pop() {
            Some(frame) => frame,
            None => {
                return None;
            },
        };
        proof {
            let before = old(self).rev_frames@.map_values(|f: Frame| f@);
            let after = self.rev_frames@.map_values(|f: Frame| f@);
            assert(after =~= before.drop_last());
            assert(frame@ == before.last());
            assert(before.reverse()[0] == before.last());
            assert(after.reverse() =~= before.reverse().skip(1));
        }
        Some(frame)
    }
}

/// The points served after the current frame: whole frames in order, ending
/// early at the first empty frame, where point iteration pauses.
pub open spec fn spec_points_from(frames: Seq<FrameV>, fi: int) -> Seq<SimplePoint>
    decreases frames.len() - fi,
{
    if fi < 0 || fi >= frames.len() {
        Seq::empty()
    } else if frames[fi].points.len() == 0 {
        Seq::empty()
    } else {
        frames[fi].points + spec_points_from(frames, fi + 1)
    }
}

/// All the points a fresh animation point iterator serves: the first frame's
/// points, then following frames up to the first empty one.
pub open spec fn spec_points_of_animation(frames: Seq<FrameV>) -> Seq<SimplePoint> {
    if frames.len() == 0 {
        Seq::empty()
    } else {
        frames[0].points + spec_points_from(frames, 1)
    }
}

/// Iterator over all the points from all of the frames in the animation.
#[derive(Clone, Copy)]
pub struct AnimationPointIterator<'a> {
    animation: &'a Animation,
    current_frame: Option<&'a Frame>,  // Iteration ends when None.
    frame_index: usize,
    point_index: usize,
}

impl<'a> AnimationPointIterator<'a> {
    /// The iterator is consistent: the current frame is the indexed frame of
    /// the animation and the point cursor is inside it.
    pub closed spec fn wf(self) -> bool {
        match self.current_frame {
            Some(f) => self.frame_index < self.animation@.len() && f@ == self.animation@[
                self.frame_index as int
            ] && self.point_index <= f@.points.len(),
            None => true,
        }
    }

    /// The points not yet yielded: the rest of the current frame, then
    /// following frames up to the first empty one.
    pub closed spec fn remaining(self) -> Seq<SimplePoint> {
        match self.current_frame {
            None => Seq::empty(),
            Some(f) => f@.points.skip(self.point_index as int) + spec_points_from(
                self.animation@,
                self.frame_index + 1,
            ),
        }
    }

    /// Yield the next point, or `None` when none remain.
    pub fn next(&mut self) -> (r: Option<&'a SimplePoint>)
        requires
            old(self).wf(),
        ensures
            final(self).wf(),
            match r {
                Some(p) => {
                    &&& old(self).remaining().len() > 0
                    &&& *p == old(self).remaining()[0]
                    &&& final(self).remaining() =~= old(self).remaining().skip(1)
                },
                None => old(self).remaining().len() == 0,
            },
    {
        let frame = match self.current_frame {
            None => {
                return None;
            },
            Some(frame) => frame,
        };
        if self.point_index < frame.point_count() {
            let point = match frame.get_point(self.point_index) {
                Some(point) => point,
                None => {
                    return None;
                },
            };
            proof {
                assert(frame@.points.skip(old(self).point_index as int)[0] == frame@.points[
                    old(self).point_index as int
                ]);
                assert(frame@.points.skip(old(self).point_index as int + 1) =~= frame@.points.skip(
                    old(self).point_index as int,
                ).skip(1));
                assert((frame@.points.skip(old(self).point_index as int) + spec_points_from(
                    self.animation@,
                    self.frame_index + 1,
                )).skip(1) =~= frame@.points.skip(old(self).point_index as int + 1)
                    + spec_points_from(self.animation@, self.frame_index + 1));
            }
            self.point_index = self.point_index + 1;
            return Some(point);
        }
        // The current frame is exhausted: advance one frame and try once.
        proof {
            assert(frame@.points.skip(old(self).point_index as int) =~= Seq::<
                SimplePoint,
            >::empty());
            assert(old(self).remaining() =~= spec_points_from(
                self.animation@,
                old(self).frame_index + 1,
            ));
        }
        let total = self.animation.frame_count();
        assert(self.frame_index < total);
        self.frame_index = self.frame_index + 1;
        self.point_index = 0;
        self.current_frame = self.animation.get_frame(self.frame_index);
        let frame2 = match self.current_frame {
            None => {
                return None;
            },
            Some(frame2) => frame2,
        };
        if frame2.point_count() == 0 {
            proof {
                assert(old(self).remaining() =~= Seq::<SimplePoint>::empty());
            }
            return None;
        }
        let point = match frame2.get_point(0) {
            Some(point) => point,
            None => {
                return None;
            },
        };
        proof {
            assert(old(self).remaining() =~= frame2@.points + spec_points_from(
                self.animation@,
                self.frame_index + 1,
            ));
            assert(frame2@.points.skip(1) =~= (frame2@.points + spec_points_from(
                self.animation@,
                self.frame_index + 1,
            )).skip(1).take(frame2@.points.len() - 1));
            assert((frame2@.points + spec_points_from(self.animation@, self.frame_index + 1)).skip(
                1,
            ) =~= frame2@.points.skip(1) + spec_points_from(self.animation@, self.frame_index + 1));
        }
        self.point_index = 1;
        Some(point)
    }
}

/// Iterator over all of the points in a single frame.
pub struct FramePointIterator<'a> {
    frame: &'a Frame,
    index: usize,
}

impl<'a> FramePointIterator<'a> {
    /// The cursor is inside the frame.
    pub closed spec fn wf(self) -> bool {
        self.index <= self.frame@.points.len()
    }

    /// The points not yet yielded.
    pub closed spec fn remaining(self) -> Seq<SimplePoint> {
        self.frame@.points.skip(self.index as int)
    }

    /// Yield the next point, or `None` when none remain.
    pub fn next(&mut self) -> (r: Option<&'a SimplePoint>)
        requires
            old(self).wf(),
        ensures
            final(self).wf(),
            match r {
                Some(p) => {
                    &&& old(self).remaining().len() > 0
                    &&& *p == old(self).remaining()[0]
                    &&& final(self).remaining() =~= old(self).remaining().skip(1)
                },
                None => {
                    &&& old(self).remaining().len() == 0
                    &&& final(self).remaining().len() == 0
                },
            },
    {
        if self.index >= self.frame.point_count() {
            return None;
        }
        let item = self.frame.get_point(self.index);
        match item {
            Some(point) => {
                proof {
                    assert(self.frame@.points.skip(self.index as int)[0] == self.frame@.points[
                        self.index as int
                    ]);
                    assert(self.frame@.points.skip(self.index as int + 1)
                        =~= self.frame@.points.skip(self.index as int).skip(1));
                }
                self.index = self.index + 1;
                Some(point)
            },
            None => None,
        }
    }
}

impl Frame {
    /// Get a point iterator over the frame.
    pub fn into_iter<'a>(&'a self) -> (r: FramePointIterator<'a>)
        ensures
            r.wf(),
            r.remaining() == self@.points,
    {
        let r = FramePointIterator { frame: self, index: 0 };
        proof {
            assert(self@.points.skip(0) =~= self@.points);
        }
        r
    }
}

impl Animation {
    /// Get a frame iterator for the animation, consuming it.
    pub fn into_frame_iter(self) -> (r: AnimationFrameIntoIter)
        ensures
            r.remaining() =~= self@,
    {
        let ghost all = self.frames@.map_values(|f: Frame| f@);
        let mut frames = self.frames;
        let mut rev_frames: Vec<Frame> = Vec::new();
        while frames.len() > 0
            invariant
                frames@.map_values(|f: Frame| f@) + rev_frames@.map_values(
                    |f: Frame| f@,
                ).reverse() =~= all,
            decreases frames.len(),
        {
            let ghost frames_before = frames@.map_values(|f: Frame| f@);
            let ghost rev_before = rev_frames@.map_values(|f: Frame| f@);
            let frame = frames.pop().unwrap();
            rev_frames.push(frame);
            proof {
                assert(frames@.map_values(|f: Frame| f@) =~= frames_before.drop_last());
                assert(rev_frames@.map_values(|f: Frame| f@) =~= rev_before.push(frame@));
                assert(rev_before.push(frame@).reverse() =~= seq![frame@] + rev_before.reverse());
                assert(frames_before.drop_last() + (seq![frame@] + rev_before.reverse())
                    =~= frames_before + rev_before.reverse());
            }
        }
        proof {
            assert(frames@.map_values(|f: Frame| f@).len() == frames@.len());
            assert(frames@.map_values(|f: Frame| f@) =~= Seq::<FrameV>::empty());
        }
        AnimationFrameIntoIter { rev_frames }
    }

    /// Get a point iterator for the animation, which will iterate over all
    /// points from all frames.
    pub fn into_point_iter<'a>(&'a self) -> (r: AnimationPointIterator<'a>)
        ensures
            r.wf(),
            r.remaining() == spec_points_of_animation(self@),
    {
        let r = AnimationPointIterator {
            animation: self,
            current_frame: self.get_frame(0),
            frame_index: 0,
            point_index: 0,
        };
        proof {
            if self@.len() > 0 {
                assert(self@[0].points.skip(0) =~= self@[0].points);
            }
        }
        r
    }
}

} // verus!

verus! {

/// Encoding N indexed 2D points under one header announcing exactly N
/// records, with the terminal header the stream writer appends, then
/// decoding, reproduces exactly the header, the N point entries, and the
/// terminal header, with a clean end.
pub proof fn lemma_indexed_2d_stream_roundtrip(h: HeaderV, points: Seq<IndexedPoint2d>)
    requires
        crate::data::spec_valid_header(h),
        h.format_code == 1,
        h.record_count == points.len(),
        points.len() > 0,
    ensures
        spec_decode_stream(
            spec_encode_header(h) + crate::parser::spec_encode_records(
                points.map_values(|p: IndexedPoint2d| IldaEntryV::IdxPoint2dEntry(p)),
            ) + spec_encode_header(spec_terminal_header()),
        ) == (crate::parser::StreamOutcome {
            entries: seq![IldaEntryV::HeaderEntry(h)] + points.map_values(
                |p: IndexedPoint2d| IldaEntryV::IdxPoint2dEntry(p),
            ) + seq![IldaEntryV::HeaderEntry(spec_terminal_header())],
            error: None,
        }),
{
    let records = points.map_values(|p: IndexedPoint2d| IldaEntryV::IdxPoint2dEntry(p));
    assert(crate::parser::spec_records_match(Format::Indexed2d, records)) by {
        assert(forall|i: int| 0 <= i < records.len() ==> #[trigger] records[i]
            == IldaEntryV::IdxPoint2dEntry(points[i]));
    }
    crate::parser::lemma_stream_roundtrip(h, Format::Indexed2d, records, spec_terminal_header());
}

} // verus!
