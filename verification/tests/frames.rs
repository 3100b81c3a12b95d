use ilda::animation::Animation;
use ilda::animation::AnimationStreamWriter;
use ilda::animation::Frame;
use ilda::animation::ilda_entry_to_point;
use ilda::color::default_color_index;
use ilda::data::ColorPalette;
use ilda::data::Format;
use ilda::data::Header;
use ilda::data::IldaEntry;
use ilda::data::IndexedPoint2d;
use ilda::data::TrueColorPoint2d;
use ilda::parser;
use ilda::writer::IldaWriter;
use ilda::IldaError;
use ilda::SimplePoint;

// Create sentinel value points.
fn point(color: u8) -> SimplePoint {
    SimplePoint { x: 0, y: 0, r: color, g: color, b: color, is_blank: false }
}

// CTOR.
fn frame(points: Vec<SimplePoint>) -> Frame {
    Frame::new(points, None, None)
}

#[test]
fn test_animation_frame_iterator() {
    // Create sentinel value frames.
    fn frame_of_size(num_points: usize) -> Frame {
        let mut points = Vec::new();
        for _i in 0..num_points {
            points.push(SimplePoint::default());
        }
        Frame::new(points, None, None)
    }

    let animation = Animation::new(vec![frame_of_size(1), frame_of_size(2), frame_of_size(3)]);

    let mut iter = animation.into_frame_iter();

    let frame = iter.next();
    assert!(frame.is_some());
    assert_eq!(1, frame.unwrap().point_count());

    let frame = iter.next();
    assert!(frame.is_some());
    assert_eq!(2, frame.unwrap().point_count());

    let frame = iter.next();
    assert!(frame.is_some());
    assert_eq!(3, frame.unwrap().point_count());

    let frame = iter.next();
    assert!(frame.is_none());
}

#[test]
fn test_animation_point_iterator() {
    let frame1 = frame(vec![point(0), point(1), point(2)]);
    let frame2 = frame(vec![point(3), point(4)]);
    let frame3 = frame(vec![point(5)]);
    let frame4 = frame(vec![point(6), point(7)]);

    let animation = Animation::new(vec![frame1, frame2, frame3, frame4]);

    let mut values = Vec::new();
    let mut iter = animation.into_point_iter();
    while let Some(point) = iter.next() {
        values.push(point.r);
    }

    let expected = vec![0, 1, 2, 3, 4, 5, 6, 7];
    assert_eq!(expected, values);
}

#[test]
fn test_frame_point_iterator() {
    let frame = frame(vec![point(0), point(1), point(2), point(3), point(4)]);

    let mut values = Vec::new();
    let mut iter = frame.into_iter();
    while let Some(point) = iter.next() {
        values.push(point.r);
    }

    let expected = vec![0, 1, 2, 3, 4];
    assert_eq!(expected, values);
}

#[test]
fn test_ilda_entry_to_point_true_color() {
    let ilda_point = TrueColorPoint2d::default();
    let entry = IldaEntry::TcPoint2dEntry(ilda_point);
    let point = ilda_entry_to_point(entry).unwrap();

    assert_eq!(point.r, 0);
    assert_eq!(point.g, 0);
    assert_eq!(point.b, 0);
    assert_eq!(point.x, 0);
    assert_eq!(point.y, 0);
    assert_eq!(point.is_blank, false);

    let mut ilda_point = TrueColorPoint2d::default();
    ilda_point.r = 255;
    ilda_point.g = 127;
    ilda_point.b = 32;
    ilda_point.x = 10_000;
    ilda_point.y = -10_000;
    ilda_point.status_code = 64;

    let entry = IldaEntry::TcPoint2dEntry(ilda_point);
    let point = ilda_entry_to_point(entry).unwrap();

    assert_eq!(point.r, 255);
    assert_eq!(point.g, 127);
    assert_eq!(point.b, 32);
    assert_eq!(point.x, 10_000);
    assert_eq!(point.y, -10_000);
    assert_eq!(point.is_blank, true);
}

#[test]
fn test_ilda_entry_to_point_indexed() {
    let ilda_point = IndexedPoint2d::default();
    let entry = IldaEntry::IdxPoint2dEntry(ilda_point);
    let point = ilda_entry_to_point(entry).unwrap();

    assert_eq!(point.r, 255); // Red is on for indexed color "0"
    assert_eq!(point.g, 0);
    assert_eq!(point.b, 0);
    assert_eq!(point.x, 0);
    assert_eq!(point.y, 0);
    assert_eq!(point.is_blank, false);

    let mut ilda_point = IndexedPoint2d::default();
    ilda_point.x = 10_000;
    ilda_point.y = -10_000;
    ilda_point.status_code = 64;
    ilda_point.color_index = 57;

    let entry = IldaEntry::IdxPoint2dEntry(ilda_point);
    let point = ilda_entry_to_point(entry).unwrap();

    assert_eq!(point.r, 255);
    assert_eq!(point.g, 224);
    assert_eq!(point.b, 224);
    assert_eq!(point.x, 10_000);
    assert_eq!(point.y, -10_000);
    assert_eq!(point.is_blank, true);
}

#[test]
fn test_default_color_index() {
    // Known colors
    assert_eq!(ColorPalette { r: 255, g: 0, b: 0 }, default_color_index(0));
    assert_eq!(ColorPalette { r: 255, g: 255, b: 0 }, default_color_index(16));
    assert_eq!(ColorPalette { r: 0, g: 255, b: 0 }, default_color_index(24));
    assert_eq!(ColorPalette { r: 0, g: 255, b: 255 }, default_color_index(31));
    assert_eq!(ColorPalette { r: 0, g: 0, b: 255 }, default_color_index(40));
    assert_eq!(ColorPalette { r: 255, g: 0, b: 255 }, default_color_index(48));
    assert_eq!(ColorPalette { r: 255, g: 255, b: 255 }, default_color_index(56));

    // Unknown colors
    assert_eq!(ColorPalette { r: 255, g: 255, b: 255 }, default_color_index(64));
    assert_eq!(ColorPalette { r: 255, g: 255, b: 255 }, default_color_index(100));
    assert_eq!(ColorPalette { r: 255, g: 255, b: 255 }, default_color_index(-5));
}

#[test]
fn test_entry_to_point_rejects_header_and_palette() {
    let header = Header::new(Format::TrueColor2d, None, None, 0, 0, 0, 0);
    assert_eq!(
        ilda_entry_to_point(IldaEntry::HeaderEntry(header)),
        Err(IldaError::InvalidData)
    );
    assert_eq!(
        ilda_entry_to_point(IldaEntry::ColorPaletteEntry(ColorPalette::new(1, 2, 3))),
        Err(IldaError::Unsupported)
    );
}

#[test]
fn test_indexed_2d_stream_roundtrip() {
    // Encode N indexed 2D points under one header announcing exactly N
    // records, close the stream, and decode it back.
    let n: usize = 5;
    let header = Header::new(Format::Indexed2d, Some("TEST".to_string()), None, n as u16, 0, 0, 0);
    let mut writer = IldaWriter::new(Vec::new());
    writer.write(IldaEntry::HeaderEntry(header.clone())).unwrap();
    let mut points = Vec::new();
    for i in 0..n {
        let p = IndexedPoint2d::new(i as i16, -(i as i16), i as u8, i + 1 == n, false);
        writer.write(IldaEntry::IdxPoint2dEntry(p.clone())).unwrap();
        points.push(p);
    }
    let terminal = Header::new(Format::Indexed2d, None, None, 0, 0, 0, 0);
    writer.write(IldaEntry::HeaderEntry(terminal.clone())).unwrap();
    let bytes = writer.into_inner();

    let entries = parser::read_bytes(&bytes).unwrap();
    assert_eq!(entries.len(), n + 2);
    match &entries[0] {
        IldaEntry::HeaderEntry(h) => assert_eq!(*h, header),
        other => panic!("expected the leading header, got {:?}", other),
    }
    for i in 0..n {
        match &entries[1 + i] {
            IldaEntry::IdxPoint2dEntry(p) => assert_eq!(*p, points[i]),
            other => panic!("expected an indexed 2D entry, got {:?}", other),
        }
    }
    match &entries[n + 1] {
        IldaEntry::HeaderEntry(h) => assert_eq!(*h, terminal),
        other => panic!("expected the terminal header, got {:?}", other),
    }
}

#[test]
fn test_too_many_records() {
    // 65536 points exceed the 16-bit record count: a hard error, not a
    // wrapped count.
    let points = vec![SimplePoint::default(); 65536];
    let frame = Frame::new(points, None, None);
    let mut writer = AnimationStreamWriter::new(Vec::new());
    assert_eq!(writer.write_frame(&frame), Err(IldaError::TooManyPoints(65536)));
    // Nothing was written: finalizing yields only the terminal header.
    assert_eq!(writer.finalize().len(), 32);
}

#[test]
fn test_too_many_frames() {
    let frames = vec![frame(Vec::new()); 65536];
    let animation = Animation::new(frames);
    assert!(matches!(animation.write(), Err(IldaError::TooManyFrames(65536))));
}

#[test]
fn test_animation_write_read_roundtrip() {
    let frame1 = Frame::new(
        vec![
            SimplePoint { x: 1, y: 2, r: 3, g: 4, b: 5, is_blank: false },
            SimplePoint { x: -1, y: -2, r: 6, g: 7, b: 8, is_blank: true },
        ],
        Some("A".to_string()),
        Some("B".to_string()),
    );
    let frame2 = Frame::new(
        vec![SimplePoint { x: 100, y: -100, r: 9, g: 10, b: 11, is_blank: false }],
        None,
        None,
    );
    let animation = Animation::new(vec![frame1, frame2]);
    let bytes = animation.write().unwrap();

    let decoded = Animation::read_bytes(&bytes).unwrap();
    assert_eq!(decoded.frame_count(), 2);
    assert_eq!(decoded.get_frame(0).unwrap().point_count(), 2);
    assert_eq!(decoded.get_frame(1).unwrap().point_count(), 1);
    assert_eq!(
        decoded.get_frame(0).unwrap().get_points(),
        animation.get_frame(0).unwrap().get_points()
    );
    assert_eq!(
        decoded.get_frame(1).unwrap().get_points(),
        animation.get_frame(1).unwrap().get_points()
    );
}

#[test]
fn test_stream_writer_finalize_appends_terminal_header() {
    let frame = frame(vec![point(1)]);
    let mut writer = AnimationStreamWriter::new(Vec::new());
    writer.write_frame_ext(&frame, 0, 1).unwrap();
    let bytes = writer.finalize();
    // One header, one 8-byte record, one terminal header.
    assert_eq!(bytes.len(), 32 + 8 + 32);
    // The stream decodes back to one frame and ends cleanly.
    let animation = Animation::read_bytes(&bytes).unwrap();
    assert_eq!(animation.frame_count(), 1);
}

#[test]
fn test_palette_stream_is_unsupported_as_animation() {
    // A palette run decodes as entries but cannot become animation frames.
    let header = Header::new(Format::ColorPalette, None, None, 1, 0, 0, 0);
    let mut writer = IldaWriter::new(Vec::new());
    writer.write(IldaEntry::HeaderEntry(header)).unwrap();
    writer.write(IldaEntry::ColorPaletteEntry(ColorPalette::new(1, 2, 3))).unwrap();
    let bytes = writer.into_inner();
    assert!(parser::read_bytes(&bytes).is_ok());
    assert!(matches!(Animation::read_bytes(&bytes), Err(IldaError::Unsupported)));
}

#[test]
fn test_animation_stream_iterators() {
    let frame1 = frame(vec![point(1), point(2)]);
    let animation = Animation::new(vec![frame1]);
    let bytes = animation.write().unwrap();

    let mut iter = Animation::stream(&bytes);
    let first = iter.next().unwrap();
    assert_eq!(first.point_count(), 2);
    assert!(iter.next().is_none());

    let mut iter = Animation::stream_with_error(&bytes);
    assert!(matches!(iter.next(), Some(Ok(_))));
    assert!(iter.next().is_none());

    let mut iter = Animation::stream_with_error(&bytes[0..40]);
    assert!(matches!(iter.next(), Some(Err(IldaError::IoError))));
    assert!(iter.next().is_none());
}
