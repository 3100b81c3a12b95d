//! Low level parsing that returns headers and data fields closer to the
//! underlying ILDA data model: the streaming entry decoder and its state
//! machine, specified against a byte-exact model of the whole stream.

use vstd::prelude::*;

use crate::data::ColorPalette;
use crate::data::Format;
use crate::data::HEADER_SIZE;
use crate::data::Header;
use crate::data::HeaderV;
use crate::data::IldaEntry;
use crate::data::IldaEntryV;
use crate::data::IndexedPoint2d;
use crate::data::IndexedPoint3d;
use crate::data::TrueColorPoint2d;
use crate::data::TrueColorPoint3d;
use crate::data::record_size;
use crate::data::read_u16_be;
use crate::data::spec_decode_header;
use crate::data::spec_decode_record;
use crate::data::spec_format_of_code;
use crate::data::spec_name_chars;
use crate::data::spec_name_view;
use crate::data::spec_read_name;
use crate::data::spec_record_size;
use crate::data::spec_u16_be;
use crate::error::IldaError;

verus! {

/// What decoding a byte stream yields: the entries produced in order, and
/// either a clean end (`None`) or the error that aborted the stream.
#[verifier::ext_equal]
pub struct StreamOutcome {
    /// The entries produced, in stream order.
    pub entries: Seq<IldaEntryV>,
    /// `None` for a clean end of stream, or the aborting error.
    pub error: Option<IldaError>,
}

/// The outcome of decoding `bytes` while awaiting a header.
///
/// Zero bytes end the stream cleanly. A partial header is an unexpected end
/// of input. A full header with a bad magic sequence, or one announcing
/// records under an unrecognized format code, aborts with `InvalidHeader`.
/// A header with a record count of zero is emitted and terminates the stream
/// immediately, whatever its format code. Any other header is emitted and
/// decoding continues with its announced records.
pub open spec fn spec_decode_stream(bytes: Seq<u8>) -> StreamOutcome
    decreases bytes.len(), 0int,
{
    if bytes.len() == 0 {
        StreamOutcome { entries: Seq::empty(), error: None }
    } else if bytes.len() < 32 {
        StreamOutcome { entries: Seq::empty(), error: Some(IldaError::IoError) }
    } else {
        match spec_decode_header(bytes.take(32)) {
            None => StreamOutcome { entries: Seq::empty(), error: Some(IldaError::InvalidHeader) },
            Some(h) => {
                if h.record_count == 0 {
                    StreamOutcome { entries: seq![IldaEntryV::HeaderEntry(h)], error: None }
                } else {
                    match spec_format_of_code(h.format_code) {
                        None => StreamOutcome {
                            entries: Seq::empty(),
                            error: Some(IldaError::InvalidHeader),
                        },
                        Some(f) => {
                            let rest = spec_decode_records(
                                bytes.skip(32),
                                f,
                                h.record_count as nat,
                            );
                            StreamOutcome {
                                entries: seq![IldaEntryV::HeaderEntry(h)] + rest.entries,
                                error: rest.error,
                            }
                        },
                    }
                }
            },
        }
    }
}

/// The outcome of decoding `bytes` while `remaining` records of format `f`
/// are still owed to the current header.
///
/// Each record takes exactly its fixed width; too few bytes for one record
/// is an unexpected end of input. When no record is owed, decoding returns
/// to awaiting a header.
pub open spec fn spec_decode_records(bytes: Seq<u8>, f: Format, remaining: nat) -> StreamOutcome
    decreases bytes.len(), 1int,
{
    if remaining == 0 {
        spec_decode_stream(bytes)
    } else if bytes.len() < spec_record_size(f) {
        StreamOutcome { entries: Seq::empty(), error: Some(IldaError::IoError) }
    } else {
        let w = spec_record_size(f) as int;
        let e = spec_decode_record(f, bytes.take(w));
        let rest = spec_decode_records(bytes.skip(w), f, (remaining - 1) as nat);
        StreamOutcome { entries: seq![e] + rest.entries, error: rest.error }
    }
}

/// Relies on String::push: appends exactly the given character to the string.
#[verifier::external_body]
fn push_char(s: &mut String, c: char)
    ensures
        final(s)@ == old(s)@ + seq![c],
{
    s.push(c);
}

/// Splitting a name field at a byte boundary before the first zero byte
/// splits its characters at the same place.
proof fn lemma_name_chars_split(bytes: Seq<u8>, i: int)
    requires
        0 <= i <= bytes.len(),
        forall|k: int| 0 <= k < i ==> bytes[k] != 0,
    ensures
        spec_name_chars(bytes) == spec_name_chars(bytes.take(i)) + spec_name_chars(bytes.skip(i)),
    decreases i,
{
    if i == 0 {
        assert(bytes.take(0) =~= Seq::<u8>::empty());
        assert(bytes.skip(0) =~= bytes);
        assert(spec_name_chars(bytes.take(0)) + spec_name_chars(bytes) =~= spec_name_chars(bytes));
    } else {
        let head = bytes[0];
        let rest = bytes.drop_first();
        lemma_name_chars_split(rest, i - 1);
        assert(rest.take(i - 1) =~= bytes.take(i).drop_first());
        assert(rest.skip(i - 1) =~= bytes.skip(i));
        if head < 31 {
            assert(spec_name_chars(bytes.take(i)) == spec_name_chars(bytes.take(i).drop_first()));
        } else {
            assert(spec_name_chars(bytes.take(i)) == seq![head as char] + spec_name_chars(
                bytes.take(i).drop_first(),
            ));
            assert(seq![head as char] + (spec_name_chars(rest.take(i - 1)) + spec_name_chars(
                rest.skip(i - 1),
            )) =~= (seq![head as char] + spec_name_chars(rest.take(i - 1))) + spec_name_chars(
                rest.skip(i - 1),
            ));
        }
    }
}

/// Appending a printable byte to a zero-free name field appends its
/// character; appending an unprintable one appends nothing.
proof fn lemma_name_chars_snoc(bytes: Seq<u8>, b: u8)
    requires
        forall|k: int| 0 <= k < bytes.len() ==> bytes[k] != 0,
        b != 0,
    ensures
        spec_name_chars(bytes.push(b)) == if b < 31 {
            spec_name_chars(bytes)
        } else {
            spec_name_chars(bytes).push(b as char)
        },
    decreases bytes.len(),
{
    assert(spec_name_chars(Seq::<u8>::empty()) == Seq::<char>::empty());
    if bytes.len() == 0 {
        assert(bytes.push(b) =~= seq![b]);
        assert(seq![b][0] == b);
        assert(seq![b].drop_first() =~= Seq::<u8>::empty());
        if b >= 31 {
            assert(spec_name_chars(seq![b]) == seq![b as char] + spec_name_chars(
                seq![b].drop_first(),
            ));
            assert(seq![b as char] + Seq::<char>::empty() =~= seq![b as char]);
            assert(bytes =~= Seq::<u8>::empty());
            assert(spec_name_chars(bytes).push(b as char) =~= seq![b as char]);
        } else {
            assert(spec_name_chars(seq![b]) == spec_name_chars(seq![b].drop_first()));
            assert(bytes =~= Seq::<u8>::empty());
        }
    } else {
        let head = bytes[0];
        lemma_name_chars_snoc(bytes.drop_first(), b);
        assert(bytes.push(b).drop_first() =~= bytes.drop_first().push(b));
        assert(bytes.push(b)[0] == head);
        if b < 31 {
        } else {
            if head < 31 {
            } else {
                assert(seq![head as char] + spec_name_chars(bytes.drop_first()).push(b as char)
                    =~= (seq![head as char] + spec_name_chars(bytes.drop_first())).push(
                    b as char,
                ));
            }
        }
    }
}

/// Read an optional name from a name field: reading stops at the first zero
/// byte, skips bytes below 31 as unprintable, and an empty result yields no
/// name rather than an empty string.
pub fn read_name(bytes: &[u8]) -> (r: Option<String>)
    ensures
        spec_name_view(r) == spec_read_name(bytes@),
{
    let mut name = String::new();
    let n = bytes.len();
    let mut i: usize = 0;
    while i < n && bytes[i] != 0
        invariant
            i <= n,
            n == bytes@.len(),
            forall|k: int| 0 <= k < i ==> bytes@[k] != 0,
            name@ == spec_name_chars(bytes@.take(i as int)),
        decreases n - i,
    {
        let b = bytes[i];
        proof {
            lemma_name_chars_snoc(bytes@.take(i as int), b);
            assert(bytes@.take(i as int).push(b) =~= bytes@.take(i as int + 1));
        }
        if b >= 31 {
            push_char(&mut name, b as char);
            proof {
                assert(name@ =~= spec_name_chars(bytes@.take(i as int)).push(b as char));
            }
        }
        i = i + 1;
    }
    proof {
        lemma_name_chars_split(bytes@, i as int);
        if i < n {
            assert(bytes@.skip(i as int)[0] == bytes@[i as int]);
            assert(spec_name_chars(bytes@.skip(i as int)) =~= Seq::<char>::empty());
        } else {
            assert(bytes@.skip(i as int) =~= Seq::<u8>::empty());
        }
        assert(spec_name_chars(bytes@.take(i as int)) + Seq::<char>::empty() =~= spec_name_chars(
            bytes@.take(i as int),
        ));
        assert(spec_name_chars(bytes@) == name@);
    }
    if name.as_str().is_empty() {
        None
    } else {
        Some(name)
    }
}

/// Read an unsigned 16-bit integer from the first two bytes, big-endian.
pub fn read_u16(bytes: &[u8]) -> (r: u16)
    requires
        bytes@.len() >= 2,
    ensures
        r == spec_u16_be(bytes@[0], bytes@[1]),
{
    read_u16_be(bytes[0], bytes[1])
}

/// Decode one 32-byte header. The slice must be exactly 32 bytes and open
/// with the magic sequence; anything else is an `InvalidHeader` error.
pub fn read_header(header_bytes: &[u8]) -> (r: Result<Header, IldaError>)
    ensures
        match r {
            Ok(h) => spec_decode_header(header_bytes@) == Some(h@),
            Err(e) => e == IldaError::InvalidHeader && spec_decode_header(header_bytes@) is None,
        },
{
    if header_bytes.len() != HEADER_SIZE || header_bytes[0] != 73 || header_bytes[1] != 76
        || header_bytes[2] != 68 || header_bytes[3] != 65 {
        return Err(IldaError::InvalidHeader);
    }
    let name_slice = &header_bytes[8..16];
    let company_slice = &header_bytes[16..24];
    let name = read_name(name_slice);
    let company_name = read_name(company_slice);
    let number_of_records = read_u16(&header_bytes[24..26]);
    let frame_number = read_u16(&header_bytes[26..28]);
    let total_frames = read_u16(&header_bytes[28..30]);
    let projector_number = header_bytes[30];
    let h = Header {
        reserved: 0,
        format_code: header_bytes[7],
        name,
        company_name,
        record_count: number_of_records,
        number: frame_number,
        total_frames,
        projector_number,
        reserved_2: 0,
    };
    proof {
        assert(name_slice@ =~= header_bytes@.subrange(8, 16));
        assert(company_slice@ =~= header_bytes@.subrange(16, 24));
        assert(spec_decode_header(header_bytes@) matches Some(d) && d =~= h@);
    }
    Ok(h)
}

/// Iterator over `Result<IldaEntry, IldaError>` items decoded from a byte
/// slice: one header, then the records it announces, repeating until a
/// terminal header, the end of the bytes, or an error.
pub struct IldaEntryIteratorWithError<'a> {
    /// The whole byte stream being decoded.
    pub bytes: &'a [u8],
    /// How many bytes have been consumed.
    pub pos: usize,
    /// The format the current header announced, while its records are read.
    pub current_format: Option<Format>,
    /// How many records the current header still owes.
    pub frames_to_read: u16,
    /// Whether the stream has ended, cleanly or by a delivered error.
    pub done: bool,
}

/// Iterator over `IldaEntry` items, for callers that have asserted
/// well-formed input; its `next` demands an error-free stream instead of
/// panicking.
pub struct IldaEntryIterator<'a>(pub IldaEntryIteratorWithError<'a>);

impl<'a> IldaEntryIteratorWithError<'a> {
    /// The iterator is consistent: the cursor is inside the bytes and a
    /// pending record run has a format to decode under.
    pub open spec fn wf(self) -> bool {
        &&& self.pos <= self.bytes@.len() <= usize::MAX
        &&& (self.frames_to_read > 0 && !self.done ==> self.current_format is Some)
    }

    /// What the rest of the iteration yields: nothing once done, otherwise
    /// the outcome of decoding the remaining bytes from the current state.
    pub open spec fn outcome(self) -> StreamOutcome {
        if self.done {
            StreamOutcome { entries: Seq::empty(), error: None }
        } else if self.frames_to_read == 0 {
            spec_decode_stream(self.bytes@.skip(self.pos as int))
        } else {
            match self.current_format {
                Some(f) => spec_decode_records(
                    self.bytes@.skip(self.pos as int),
                    f,
                    self.frames_to_read as nat,
                ),
                None => StreamOutcome { entries: Seq::empty(), error: None },
            }
        }
    }

    /// Decode the next entry: the next of the outcome's entries, the
    /// outcome's error once the entries are exhausted, or a clean end.
    fn next_result(&mut self) -> (r: Result<Option<IldaEntry>, IldaError>)
        requires
            old(self).wf(),
        ensures
            final(self).wf(),
            final(self).bytes@ == old(self).bytes@,
            match r {
                Ok(Some(e)) => {
                    &&& old(self).outcome().entries.len() > 0
                    &&& e@ == old(self).outcome().entries[0]
                    &&& final(self).outcome().entries =~= old(self).outcome().entries.skip(1)
                    &&& final(self).outcome().error == old(self).outcome().error
                },
                Ok(None) => {
                    &&& old(self).outcome().entries.len() == 0
                    &&& old(self).outcome().error is None
                    &&& final(self).outcome().entries.len() == 0
                    &&& final(self).outcome().error is None
                },
                Err(e) => {
                    &&& old(self).outcome().entries.len() == 0
                    &&& old(self).outcome().error == Some(e)
                    &&& final(self).outcome().entries.len() == 0
                    &&& final(self).outcome().error is None
                },
            },
    {
        if self.done {
            return Ok(None);
        }
        let n = self.bytes.len();
        let ghost rem = self.bytes@.skip(self.pos as int);
        if self.frames_to_read == 0 {
            // Currently no records are owed: read a new header.
            if self.pos == n {
                self.done = true;
                proof {
                    assert(rem =~= Seq::<u8>::empty());
                }
                return Ok(None);
            }
            if n - self.pos < HEADER_SIZE {
                self.done = true;
                return Err(IldaError::IoError);
            }
            let header_slice = &self.bytes[self.pos..self.pos + HEADER_SIZE];
            proof {
                assert(header_slice@ =~= rem.take(32));
            }
            let header = match read_header(header_slice) {
                Ok(h) => h,
                Err(e) => {
                    self.done = true;
                    return Err(e);
                },
            };
            self.pos = self.pos + HEADER_SIZE;
            if header.record_count == 0 {
                // The terminal header ends the stream, whatever its format.
                self.done = true;
                return Ok(Some(IldaEntry::HeaderEntry(header)));
            }
            let format = match header.get_format() {
                Ok(f) => f,
                Err(e) => {
                    self.done = true;
                    return Err(e);
                },
            };
            self.frames_to_read = header.record_count;
            self.current_format = Some(format);
            proof {
                assert(self.bytes@.skip(self.pos as int) =~= rem.skip(32));
            }
            return Ok(Some(IldaEntry::HeaderEntry(header)));
        }
        let format = self.current_format.unwrap();
        let width = record_size(format);
        if n - self.pos < width {
            self.done = true;
            return Err(IldaError::IoError);
        }
        let record_slice = &self.bytes[self.pos..self.pos + width];
        proof {
            assert(record_slice@ =~= rem.take(spec_record_size(format) as int));
        }
        let entry = match format {
            Format::Indexed3d => {
                let mut points = match IndexedPoint3d::read_bytes(record_slice) {
                    Ok(v) => v,
                    Err(_) => {
                        return Err(IldaError::InvalidData);
                    },
                };
                proof {
                    assert(record_slice@.subrange(0, 8) =~= record_slice@);
                }
                let e = IldaEntry::IdxPoint3dEntry(points.remove(0));
                assert(e@ == spec_decode_record(format, record_slice@));
                e
            },
            Format::ColorPalette => {
                let mut points = match ColorPalette::read_bytes(record_slice) {
                    Ok(v) => v,
                    Err(_) => {
                        return Err(IldaError::InvalidData);
                    },
                };
                proof {
                    assert(record_slice@.subrange(0, 3) =~= record_slice@);
                }
                let e = IldaEntry::ColorPaletteEntry(points.remove(0));
                assert(e@ == spec_decode_record(format, record_slice@));
                e
            },
            Format::Indexed2d => {
                let mut points = match IndexedPoint2d::read_bytes(record_slice) {
                    Ok(v) => v,
                    Err(_) => {
                        return Err(IldaError::InvalidData);
                    },
                };
                proof {
                    assert(record_slice@.subrange(0, 6) =~= record_slice@);
                }
                let e = IldaEntry::IdxPoint2dEntry(points.remove(0));
                assert(e@ == spec_decode_record(format, record_slice@));
                e
            },
            Format::TrueColor3d => {
                let mut points = match TrueColorPoint3d::read_bytes(record_slice) {
                    Ok(v) => v,
                    Err(_) => {
                        return Err(IldaError::InvalidData);
                    },
                };
                proof {
                    assert(record_slice@.subrange(0, 10) =~= record_slice@);
                }
                let e = IldaEntry::TcPoint3dEntry(points.remove(0));
                assert(e@ == spec_decode_record(format, record_slice@));
                e
            },
            Format::TrueColor2d => {
                let mut points = match TrueColorPoint2d::read_bytes(record_slice) {
                    Ok(v) => v,
                    Err(_) => {
                        return Err(IldaError::InvalidData);
                    },
                };
                proof {
                    assert(record_slice@.subrange(0, 8) =~= record_slice@);
                }
                let e = IldaEntry::TcPoint2dEntry(points.remove(0));
                assert(e@ == spec_decode_record(format, record_slice@));
                e
            },
        };
        self.pos = self.pos + width;
        self.frames_to_read = self.frames_to_read - 1;
        proof {
            assert(self.bytes@.skip(self.pos as int) =~= rem.skip(
                spec_record_size(format) as int,
            ));
        }
        Ok(Some(entry))
    }

    /// Yield the next decoded entry, the error that aborts the stream, or
    /// `None` at a clean end.
    pub fn next(&mut self) -> (r: Option<Result<IldaEntry, IldaError>>)
        requires
            old(self).wf(),
        ensures
            final(self).wf(),
            final(self).bytes@ == old(self).bytes@,
            match r {
                Some(Ok(e)) => {
                    &&& old(self).outcome().entries.len() > 0
                    &&& e@ == old(self).outcome().entries[0]
                    &&& final(self).outcome().entries =~= old(self).outcome().entries.skip(1)
                    &&& final(self).outcome().error == old(self).outcome().error
                },
                Some(Err(e)) => {
                    &&& old(self).outcome().entries.len() == 0
                    &&& old(self).outcome().error == Some(e)
                    &&& final(self).outcome().entries.len() == 0
                    &&& final(self).outcome().error is None
                },
                None => {
                    &&& old(self).outcome().entries.len() == 0
                    &&& old(self).outcome().error is None
                    &&& final(self).outcome().entries.len() == 0
                    &&& final(self).outcome().error is None
                },
            },
    {
        match self.next_result() {
            Ok(Some(e)) => Some(Ok(e)),
            Ok(None) => None,
            Err(e) => Some(Err(e)),
        }
    }
}

impl<'a> IldaEntryIterator<'a> {
    /// Yield the next decoded entry, or `None` at the clean end of the
    /// stream. The caller must have asserted that the whole stream decodes
    /// without error.
    pub fn next(&mut self) -> (r: Option<IldaEntry>)
        requires
            old(self).0.wf(),
            old(self).0.outcome().error is None,
        ensures
            final(self).0.wf(),
            final(self).0.outcome().error is None,
            final(self).0.bytes@ == old(self).0.bytes@,
            match r {
                Some(e) => {
                    &&& old(self).0.outcome().entries.len() > 0
                    &&& e@ == old(self).0.outcome().entries[0]
                    &&& final(self).0.outcome().entries =~= old(self).0.outcome().entries.skip(1)
                },
                None => {
                    &&& old(self).0.outcome().entries.len() == 0
                    &&& final(self).0.outcome().entries.len() == 0
                },
            },
    {
        match self.0.next_result() {
            Ok(r) => r,
            Err(_) => None,
        }
    }
}

/// Stream ILDA entries from a byte slice. The returned iterator demands an
/// error-free stream; use `stream_with_error` to observe failures.
pub fn stream<'a>(bytes: &'a [u8]) -> (r: IldaEntryIterator<'a>)
    ensures
        r.0.wf(),
        r.0.bytes@ == bytes@,
        r.0.outcome() == spec_decode_stream(bytes@),
{
    IldaEntryIterator(stream_with_error(bytes))
}

/// Stream ILDA entries (with error handling) from a byte slice.
pub fn stream_with_error<'a>(bytes: &'a [u8]) -> (r: IldaEntryIteratorWithError<'a>)
    ensures
        r.wf(),
        r.bytes@ == bytes@,
        r.outcome() == spec_decode_stream(bytes@),
{
    let n = bytes.len();
    assert(n == bytes@.len());
    let r = IldaEntryIteratorWithError {
        bytes,
        pos: 0,
        current_format: None,
        frames_to_read: 0,
        done: false,
    };
    proof {
        assert(r.bytes@.skip(0) =~= bytes@);
    }
    r
}

/// Read ILDA data from raw bytes: every entry of the stream, or the first
/// error the stream aborts with.
pub fn read_bytes(ilda_bytes: &[u8]) -> (r: Result<Vec<IldaEntry>, IldaError>)
    ensures
        match r {
            Ok(v) => spec_decode_stream(ilda_bytes@).error is None && v@.map_values(
                |e: IldaEntry| e@,
            ) =~= spec_decode_stream(ilda_bytes@).entries,
            Err(e) => spec_decode_stream(ilda_bytes@).error == Some(e),
        },
{
    let mut iter = stream_with_error(ilda_bytes);
    let mut out: Vec<IldaEntry> = Vec::new();
    loop
        invariant
            iter.wf(),
            iter.bytes@ == ilda_bytes@,
            spec_decode_stream(ilda_bytes@).entries =~= out@.map_values(|e: IldaEntry| e@)
                + iter.outcome().entries,
            spec_decode_stream(ilda_bytes@).error == iter.outcome().error,
        decreases iter.outcome().entries.len(),
    {
        match iter.next() {
            Some(Ok(entry)) => {
                proof {
                    assert(out@.push(entry).map_values(|e: IldaEntry| e@) =~= out@.map_values(
                        |e: IldaEntry| e@,
                    ).push(entry@));
                    assert(out@.map_values(|e: IldaEntry| e@).push(entry@) + iter.outcome().entries
                        =~= out@.map_values(|e: IldaEntry| e@) + (seq![entry@]
                        + iter.outcome().entries));
                    assert(seq![entry@] + iter.outcome().entries =~= seq![
                        entry@,
                    ] + iter.outcome().entries);
                }
                out.push(entry);
            },
            Some(Err(e)) => {
                return Err(e);
            },
            None => {
                proof {
                    assert(out@.map_values(|e: IldaEntry| e@) + iter.outcome().entries
                        =~= out@.map_values(|e: IldaEntry| e@));
                }
                return Ok(out);
            },
        }
    }
}

} // verus!

verus! {

/// The bytes that store a run of records, in order.
pub open spec fn spec_encode_records(entries: Seq<IldaEntryV>) -> Seq<u8>
    decreases entries.len(),
{
    if entries.len() == 0 {
        Seq::empty()
    } else {
        crate::data::spec_encode_entry(entries[0]) + spec_encode_records(entries.drop_first())
    }
}

/// Whether every entry of the run is a payload record of format `f`.
pub open spec fn spec_records_match(f: Format, entries: Seq<IldaEntryV>) -> bool {
    forall|i: int| 0 <= i < entries.len() ==> match #[trigger] entries[i] {
        IldaEntryV::HeaderEntry(_) => false,
        IldaEntryV::TcPoint3dEntry(_) => f == Format::TrueColor3d,
        IldaEntryV::TcPoint2dEntry(_) => f == Format::TrueColor2d,
        IldaEntryV::ColorPaletteEntry(_) => f == Format::ColorPalette,
        IldaEntryV::IdxPoint3dEntry(_) => f == Format::Indexed3d,
        IldaEntryV::IdxPoint2dEntry(_) => f == Format::Indexed2d,
    }
}

/// Decoding an empty byte source yields a clean empty sequence of entries.
pub proof fn lemma_empty_stream_is_clean()
    ensures
        spec_decode_stream(Seq::<u8>::empty()) == (StreamOutcome {
            entries: Seq::<IldaEntryV>::empty(),
            error: None,
        }),
{
}

/// Decoding a non-empty prefix shorter than one full header yields an
/// unexpected-end-of-input failure and no entries.
pub proof fn lemma_short_prefix_fails(bytes: Seq<u8>)
    requires
        0 < bytes.len() < 32,
    ensures
        spec_decode_stream(bytes) == (StreamOutcome {
            entries: Seq::<IldaEntryV>::empty(),
            error: Some(IldaError::IoError),
        }),
{
}

/// A header with a record count of zero terminates decoding immediately and
/// cleanly, whatever its format code and whatever bytes follow it.
pub proof fn lemma_terminal_header_ends_stream(h: HeaderV, tail: Seq<u8>)
    requires
        crate::data::spec_valid_header(h),
        h.record_count == 0,
    ensures
        spec_decode_stream(crate::data::spec_encode_header(h) + tail) == (StreamOutcome {
            entries: seq![IldaEntryV::HeaderEntry(h)],
            error: None,
        }),
{
    crate::data::lemma_header_roundtrip(h);
    let b = crate::data::spec_encode_header(h) + tail;
    assert(b.take(32) =~= crate::data::spec_encode_header(h));
}

/// Decoding the encoding of a record run of format `f`, while that many
/// records are owed, yields exactly those records and then continues with
/// whatever follows.
proof fn lemma_decode_encoded_records(f: Format, entries: Seq<IldaEntryV>, tail: Seq<u8>)
    requires
        spec_records_match(f, entries),
    ensures
        spec_decode_records(spec_encode_records(entries) + tail, f, entries.len() as nat)
            == (StreamOutcome {
            entries: entries + spec_decode_stream(tail).entries,
            error: spec_decode_stream(tail).error,
        }),
    decreases entries.len(),
{
    if entries.len() == 0 {
        assert(spec_encode_records(entries) + tail =~= tail);
        assert(entries + spec_decode_stream(tail).entries =~= spec_decode_stream(tail).entries);
        assert(spec_decode_records(tail, f, 0) =~= (StreamOutcome {
            entries: spec_decode_stream(tail).entries,
            error: spec_decode_stream(tail).error,
        }));
    } else {
        let e = entries[0];
        crate::data::lemma_record_roundtrip(f, e);
        let w = spec_record_size(f) as int;
        let b = spec_encode_records(entries) + tail;
        assert(b.take(w) =~= crate::data::spec_encode_entry(e));
        assert(b.skip(w) =~= spec_encode_records(entries.drop_first()) + tail);
        lemma_decode_encoded_records(f, entries.drop_first(), tail);
        assert(seq![e] + (entries.drop_first() + spec_decode_stream(tail).entries) =~= entries
            + spec_decode_stream(tail).entries);
    }
}

/// Encoding one header announcing a run of records, the records themselves,
/// and a terminal header, then decoding, reproduces exactly the header, the
/// records, and the terminal header, with a clean end: the stream round trip.
pub proof fn lemma_stream_roundtrip(
    h: HeaderV,
    f: Format,
    records: Seq<IldaEntryV>,
    term: HeaderV,
)
    requires
        crate::data::spec_valid_header(h),
        crate::data::spec_valid_header(term),
        term.record_count == 0,
        spec_format_of_code(h.format_code) == Some(f),
        spec_records_match(f, records),
        h.record_count == records.len(),
        records.len() > 0,
    ensures
        spec_decode_stream(
            crate::data::spec_encode_header(h) + spec_encode_records(records)
                + crate::data::spec_encode_header(term),
        ) == (StreamOutcome {
            entries: seq![IldaEntryV::HeaderEntry(h)] + records + seq![
                IldaEntryV::HeaderEntry(term),
            ],
            error: None,
        }),
{
    crate::data::lemma_header_roundtrip(h);
    crate::data::lemma_header_roundtrip(term);
    let b = crate::data::spec_encode_header(h) + spec_encode_records(records)
        + crate::data::spec_encode_header(term);
    assert(b.len() >= 32);
    assert(b.take(32) =~= crate::data::spec_encode_header(h));
    assert(b.skip(32) =~= spec_encode_records(records) + crate::data::spec_encode_header(term));
    lemma_decode_encoded_records(f, records, crate::data::spec_encode_header(term));
    lemma_terminal_header_ends_stream(term, Seq::<u8>::empty());
    assert(crate::data::spec_encode_header(term) + Seq::<u8>::empty()
        =~= crate::data::spec_encode_header(term));
    assert(records + seq![IldaEntryV::HeaderEntry(term)] =~= records + spec_decode_stream(
        crate::data::spec_encode_header(term),
    ).entries);
    assert(seq![IldaEntryV::HeaderEntry(h)] + (records + seq![IldaEntryV::HeaderEntry(term)]) =~= seq![
        IldaEntryV::HeaderEntry(h),
    ] + records + seq![IldaEntryV::HeaderEntry(term)]);
}

} // verus!
