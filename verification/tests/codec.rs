use ilda::data::ColorPalette;
use ilda::data::Header;
use ilda::data::IldaEntry;
use ilda::data::IndexedPoint2d;
use ilda::data::IndexedPoint3d;
use ilda::data::TrueColorPoint2d;
use ilda::data::TrueColorPoint3d;
use ilda::parser;
use ilda::reader;
use ilda::writer::IldaWriter;
use ilda::IldaError;

#[test]
fn parser_test_read_name() {
    assert_eq!(parser::read_name(&[0, 0, 0, 0]), None);
    assert_eq!(parser::read_name(&[0, 100, 100, 100]), None);
    assert_eq!(parser::read_name(&[102, 111, 111]), Some("foo".to_string()));
    assert_eq!(parser::read_name(&[102, 111, 111, 0, 111]), Some("foo".to_string()));
}

#[test]
fn test_read_name_skips_unprintable_bytes() {
    // Bytes below 31 are skipped, not kept and not terminators.
    assert_eq!(parser::read_name(&[102, 5, 111]), Some("fo".to_string()));
    assert_eq!(parser::read_name(&[1, 2, 30]), None);
    assert_eq!(parser::read_name(&[31, 0, 111]), Some("\u{1f}".to_string()));
}

#[test]
fn parser_test_read_u16() {
    assert_eq!(parser::read_u16(&[0u8, 0u8]), 0u16);
    assert_eq!(parser::read_u16(&[0u8, 100u8]), 100u16);
    assert_eq!(parser::read_u16(&[0u8, 255u8]), 255u16);
    assert_eq!(parser::read_u16(&[1u8, 0u8]), 256u16);
    assert_eq!(parser::read_u16(&[255u8, 0u8]), 65280u16);
    assert_eq!(parser::read_u16(&[255u8, 255u8]), 65535u16);
}

#[test]
fn reader_test_read_name() {
    assert_eq!(reader::read_name(&[0, 0, 0, 0]), None);
    assert_eq!(reader::read_name(&[0, 100, 100, 100]), None);
    assert_eq!(reader::read_name(&[102, 111, 111]), Some("foo".to_string()));
    assert_eq!(reader::read_name(&[102, 111, 111, 0, 111]), Some("foo".to_string()));
}

#[test]
fn test_read_i16() {
    assert_eq!(reader::read_i16(&[0u8, 0u8]), 0i16);
    assert_eq!(reader::read_i16(&[0u8, 255u8]), 255i16);
    assert_eq!(reader::read_i16(&[127u8, 255u8]), 32767i16);
    assert_eq!(reader::read_i16(&[128u8, 0u8]), -32768i16);
    assert_eq!(reader::read_i16(&[128u8, 255u8]), -32513i16);
    assert_eq!(reader::read_i16(&[255u8, 0u8]), -256);
    assert_eq!(reader::read_i16(&[255u8, 1u8]), -255);
    assert_eq!(reader::read_i16(&[255u8, 255u8]), -1);
}

#[test]
fn reader_test_read_u16() {
    assert_eq!(reader::read_u16(&[0u8, 0u8]), 0u16);
    assert_eq!(reader::read_u16(&[0u8, 100u8]), 100u16);
    assert_eq!(reader::read_u16(&[0u8, 255u8]), 255u16);
    assert_eq!(reader::read_u16(&[1u8, 0u8]), 256u16);
    assert_eq!(reader::read_u16(&[255u8, 0u8]), 65280u16);
    assert_eq!(reader::read_u16(&[255u8, 255u8]), 65535u16);
}

#[test]
fn test_indexed_2d_blanking_bit() {
    let mut point = IndexedPoint2d::default();
    point.status_code = 0;
    assert_eq!(false, point.is_blank());
    point.status_code = 128;
    assert_eq!(false, point.is_blank());
    point.status_code = 64;
    assert_eq!(true, point.is_blank());
    point.status_code = 255;
    assert_eq!(true, point.is_blank());
}

#[test]
fn test_indexed_3d_blanking_bit() {
    let mut point = IndexedPoint3d::default();
    point.status_code = 0;
    assert_eq!(false, point.is_blank());
    point.status_code = 128;
    assert_eq!(false, point.is_blank());
    point.status_code = 64;
    assert_eq!(true, point.is_blank());
    point.status_code = 255;
    assert_eq!(true, point.is_blank());
}

#[test]
fn test_truecolor_2d_blanking_bit() {
    let mut point = TrueColorPoint2d::default();
    point.status_code = 0;
    assert_eq!(false, point.is_blank());
    point.status_code = 128;
    assert_eq!(false, point.is_blank());
    point.status_code = 64;
    assert_eq!(true, point.is_blank());
    point.status_code = 255;
    assert_eq!(true, point.is_blank());
}

#[test]
fn test_truecolor_3d_blanking_bit() {
    let mut point = TrueColorPoint3d::default();
    point.status_code = 0;
    assert_eq!(false, point.is_blank());
    point.status_code = 128;
    assert_eq!(false, point.is_blank());
    point.status_code = 64;
    assert_eq!(true, point.is_blank());
    point.status_code = 255;
    assert_eq!(true, point.is_blank());
}

// The exact 32 bytes that store a header naming "TEST" and "ACME",
// format code 5, one record.
fn test_header_bytes() -> Vec<u8> {
    let mut bytes = vec![73, 76, 68, 65, 0, 0, 0, 5];
    bytes.extend_from_slice(&[84, 69, 83, 84, 0, 0, 0, 0]); // "TEST"
    bytes.extend_from_slice(&[65, 67, 77, 69, 0, 0, 0, 0]); // "ACME"
    bytes.extend_from_slice(&[0, 1, 0, 0, 0, 0, 0, 0]);
    bytes
}

#[test]
fn test_writer_header_byte_exact() {
    let header = Header::new(
        ilda::data::Format::TrueColor2d,
        Some("TEST".to_string()),
        Some("ACME".to_string()),
        1,
        0,
        0,
        0,
    );
    let mut writer = IldaWriter::new(Vec::new());
    writer.write(IldaEntry::HeaderEntry(header)).unwrap();
    assert_eq!(writer.into_inner(), test_header_bytes());
}

#[test]
fn test_header_roundtrip() {
    let header = Header::new(
        ilda::data::Format::Indexed3d,
        Some("TEST".to_string()),
        None,
        513,
        7,
        41,
        3,
    );
    let mut writer = IldaWriter::new(Vec::new());
    writer.write(IldaEntry::HeaderEntry(header.clone())).unwrap();
    let bytes = writer.into_inner();
    assert_eq!(bytes.len(), 32);
    let decoded = parser::read_header(&bytes).unwrap();
    assert_eq!(decoded, header);
}

#[test]
fn test_header_name_truncated_to_eight_bytes() {
    let header = Header::new(
        ilda::data::Format::TrueColor2d,
        Some("ABCDEFGHIJ".to_string()),
        None,
        0,
        0,
        0,
        0,
    );
    let mut writer = IldaWriter::new(Vec::new());
    writer.write(IldaEntry::HeaderEntry(header)).unwrap();
    let bytes = writer.into_inner();
    assert_eq!(bytes.len(), 32);
    let decoded = parser::read_header(&bytes).unwrap();
    assert_eq!(decoded.name, Some("ABCDEFGH".to_string()));
}

#[test]
fn test_record_roundtrips() {
    let mut writer = IldaWriter::new(Vec::new());
    let p = IndexedPoint2d::new(-12345, 702, 17, true, false);
    writer.write(IldaEntry::IdxPoint2dEntry(p.clone())).unwrap();
    let decoded = IndexedPoint2d::read_bytes(&writer.into_inner()).unwrap();
    assert_eq!(decoded, vec![p]);

    let mut writer = IldaWriter::new(Vec::new());
    let p = IndexedPoint3d::new(-1, 2, -3, 200, false, true);
    writer.write(IldaEntry::IdxPoint3dEntry(p.clone())).unwrap();
    let decoded = IndexedPoint3d::read_bytes(&writer.into_inner()).unwrap();
    assert_eq!(decoded, vec![p]);

    let mut writer = IldaWriter::new(Vec::new());
    let p = ColorPalette::new(9, 90, 200);
    writer.write(IldaEntry::ColorPaletteEntry(p.clone())).unwrap();
    let decoded = ColorPalette::read_bytes(&writer.into_inner()).unwrap();
    assert_eq!(decoded, vec![p]);

    let mut writer = IldaWriter::new(Vec::new());
    let p = TrueColorPoint2d::new(32767, -32768, 1, 2, 3, true, true);
    writer.write(IldaEntry::TcPoint2dEntry(p.clone())).unwrap();
    let decoded = TrueColorPoint2d::read_bytes(&writer.into_inner()).unwrap();
    assert_eq!(decoded, vec![p]);

    let mut writer = IldaWriter::new(Vec::new());
    let p = TrueColorPoint3d::new(-256, 255, 256, 4, 5, 6, false, false);
    writer.write(IldaEntry::TcPoint3dEntry(p.clone())).unwrap();
    let decoded = TrueColorPoint3d::read_bytes(&writer.into_inner()).unwrap();
    assert_eq!(decoded, vec![p]);
}

#[test]
fn test_record_length_not_a_multiple() {
    assert_eq!(IndexedPoint2d::read_bytes(&[0; 5]), Err(IldaError::InvalidData));
    assert_eq!(IndexedPoint3d::read_bytes(&[0; 9]), Err(IldaError::InvalidData));
    assert_eq!(ColorPalette::read_bytes(&[0; 4]), Err(IldaError::InvalidData));
    assert_eq!(TrueColorPoint2d::read_bytes(&[0; 7]), Err(IldaError::InvalidData));
    assert_eq!(TrueColorPoint3d::read_bytes(&[0; 11]), Err(IldaError::InvalidData));
}

#[test]
fn test_empty_stream_decodes_cleanly() {
    let entries = parser::read_bytes(&[]).unwrap();
    assert_eq!(entries.len(), 0);
}

#[test]
fn test_short_prefix_is_io_failure() {
    // Any non-empty prefix shorter than one full header.
    assert!(matches!(parser::read_bytes(&[73]), Err(IldaError::IoError)));
    let prefix = &test_header_bytes()[0..31];
    assert!(matches!(parser::read_bytes(prefix), Err(IldaError::IoError)));
}

#[test]
fn test_bad_magic_is_invalid_header() {
    let mut bytes = test_header_bytes();
    bytes[0] = 74;
    // The byte count is right, so the magic check is what fails.
    assert!(matches!(parser::read_bytes(&bytes), Err(IldaError::InvalidHeader)));
}

#[test]
fn test_unknown_format_with_records_is_invalid_header() {
    let mut bytes = test_header_bytes();
    bytes[7] = 3; // unrecognized format code, record count 1
    assert!(matches!(parser::read_bytes(&bytes), Err(IldaError::InvalidHeader)));
}

#[test]
fn test_zero_count_header_terminates_even_with_unknown_format() {
    // Record count 0 and an unrecognized format code, with trailing garbage:
    // decoding must end at the header, not raise InvalidHeader.
    let mut bytes = test_header_bytes();
    bytes[7] = 99;
    bytes[25] = 0;
    bytes.extend_from_slice(&[1, 2, 3]);
    let entries = parser::read_bytes(&bytes).unwrap();
    assert_eq!(entries.len(), 1);
    match &entries[0] {
        IldaEntry::HeaderEntry(h) => {
            assert_eq!(h.format_code, 99);
            assert_eq!(h.record_count, 0);
        }
        other => panic!("expected a header entry, got {:?}", other),
    }
}

#[test]
fn test_truncated_record_is_io_failure() {
    // Header announcing one true-color 2D record, but only 4 payload bytes.
    let mut bytes = test_header_bytes();
    bytes.extend_from_slice(&[0, 0, 0, 0]);
    assert!(matches!(parser::read_bytes(&bytes), Err(IldaError::IoError)));
}

#[test]
fn test_true_color_scenario() {
    // One header (format 5, one record, "TEST"/"ACME") followed by one
    // 8-byte true-color 2D record.
    let mut bytes = test_header_bytes();
    bytes.extend_from_slice(&[0, 0, 0, 0, 0, 10, 20, 30]);
    let entries = parser::read_bytes(&bytes).unwrap();
    assert_eq!(entries.len(), 2);
    match &entries[0] {
        IldaEntry::HeaderEntry(h) => {
            assert_eq!(h.format_code, 5);
            assert_eq!(h.record_count, 1);
            assert_eq!(h.name, Some("TEST".to_string()));
            assert_eq!(h.company_name, Some("ACME".to_string()));
        }
        other => panic!("expected a header entry, got {:?}", other),
    }
    match &entries[1] {
        IldaEntry::TcPoint2dEntry(p) => {
            assert_eq!(p.x, 0);
            assert_eq!(p.y, 0);
            assert_eq!(p.r, 30);
            assert_eq!(p.g, 20);
            assert_eq!(p.b, 10);
            assert_eq!(p.is_blank(), false);
        }
        other => panic!("expected a true-color 2D entry, got {:?}", other),
    }
}

#[test]
fn test_stream_iterator_over_valid_bytes() {
    let mut bytes = test_header_bytes();
    bytes.extend_from_slice(&[0, 0, 0, 0, 0, 10, 20, 30]);
    let mut iter = parser::stream(&bytes);
    assert!(matches!(iter.next(), Some(IldaEntry::HeaderEntry(_))));
    assert!(matches!(iter.next(), Some(IldaEntry::TcPoint2dEntry(_))));
    assert!(iter.next().is_none());
}

#[test]
fn test_stream_with_error_reports_failure() {
    let mut iter = parser::stream_with_error(&[73, 76]);
    assert!(matches!(iter.next(), Some(Err(IldaError::IoError))));
}

#[test]
fn test_error_descriptions() {
    assert_eq!(IldaError::InvalidHeader.description(), "InvalidHeader");
    assert_eq!(IldaError::IoError.description(), "IoError");
    assert_eq!(IldaError::TooManyPoints(9).description(), "TooManyPoints");
}
