use obn_core::media::fragment_parser::{FragmentParser, Mp4ParseError, StreamType};
use obn_core::media::fragment_writer::FragmentWriter;

fn boxed(t: &[u8; 4], content: &[u8]) -> Vec<u8> {
    let mut v = Vec::new();
    v.extend_from_slice(&((8 + content.len()) as u32).to_be_bytes());
    v.extend_from_slice(t);
    v.extend_from_slice(content);
    v
}

#[test]
fn test_fragment_parser_reads_top_level_boxes() {
    let mut data = boxed(b"ftyp", b"isom\0\0\0\0");
    data.extend(boxed(b"moov", &[1, 2, 3]));
    let mut parser = FragmentParser::new();
    parser.parse(&data).unwrap();
    assert_eq!(parser.boxes.len(), 2);
    assert_eq!(parser.boxes[1].offset, 16);
    assert_eq!(parser.boxes[1].header.size, 11);
    assert!(parser.has_box("moov"));
    assert!(!parser.has_box("mdat"));
    assert!(!parser.is_fragmented());
    assert_eq!(parser.file_size, data.len() as u64);
    // A moov gives the assumed video track.
    assert_eq!(parser.get_tracks().len(), 1);
    assert_eq!(parser.get_tracks()[0].timescale, 30000);
    assert_eq!(parser.get_tracks()[0].codec, "H.264");
    assert_eq!(parser.get_summary(), "FragmentParser: 2 boxes, 1 tracks, fragmented: false");
}

#[test]
fn test_fragment_parser_detects_fragmented() {
    let mut data = boxed(b"moof", &[0; 4]);
    data.extend(boxed(b"mdat", &[7; 3]));
    let mut parser = FragmentParser::new();
    parser.parse(&data).unwrap();
    assert!(parser.is_fragmented());
    assert_eq!(parser.get_boxes("mdat").len(), 1);
    assert_eq!(parser.get_boxes("moof")[0].offset, 0);
    assert_eq!(parser.get_tracks().len(), 0);
}

#[test]
fn test_fragment_parser_small_box_is_error() {
    let mut data = boxed(b"ftyp", b"isom");
    data.extend_from_slice(&[0, 0, 0, 4]);
    data.extend_from_slice(b"free");
    let mut parser = FragmentParser::new();
    match parser.parse(&data) {
        Err(Mp4ParseError::InvalidBoxSize(n)) => assert_eq!(n, 4),
        _ => panic!("expected an invalid box size"),
    }
    // The box before the bad one is kept.
    assert_eq!(parser.boxes.len(), 1);
    assert_eq!(
        Mp4ParseError::InvalidBoxSize(4).to_string(),
        "Invalid box size: 4"
    );
}

#[test]
fn test_fragment_parser_box_past_end_stops() {
    let mut data = boxed(b"ftyp", b"isom");
    data.extend_from_slice(&[0, 0, 0, 100]);
    data.extend_from_slice(b"mdat");
    let mut parser = FragmentParser::new();
    parser.parse(&data).unwrap();
    assert_eq!(parser.boxes.len(), 1);
}

#[test]
fn test_stream_type_equality() {
    assert_eq!(StreamType::Video, StreamType::Video);
    assert_ne!(StreamType::Audio, StreamType::Subtitle);
}

#[test]
fn test_fragment_writer_fragmented_file() {
    let ftyp = boxed(b"ftyp", b"isom\0\0\0\0");
    let moof = boxed(b"moof", &[0; 8]);
    let mdat = boxed(b"mdat", &[5; 6]);
    let mut data = ftyp.clone();
    data.extend(moof.clone());
    data.extend(mdat.clone());
    let mut parser = FragmentParser::new();
    parser.parse(&data).unwrap();
    let mut writer = FragmentWriter::new();
    let segs = writer.generate_mse_segments(&parser.boxes, true).unwrap();
    assert_eq!(segs.len(), 2);
    assert_eq!(segs[0].segment_type, "initialization");
    assert_eq!(segs[0].data, ftyp);
    assert_eq!(segs[1].segment_type, "media");
    let mut media = moof.clone();
    media.extend(mdat.clone());
    assert_eq!(segs[1].data, media);
    assert_eq!(segs[1].timestamp, Some(0));
    assert_eq!(segs[1].duration, Some(1000));
    assert!(segs[1].is_keyframe);
    assert_eq!(segs[1].track_id, 1);
}

#[test]
fn test_fragment_writer_regular_file_chunks() {
    let ftyp = boxed(b"ftyp", b"isom\0\0\0\0");
    let payload = vec![3u8; 70_000];
    let mut data = ftyp.clone();
    data.extend(boxed(b"mdat", &payload));
    let mut parser = FragmentParser::new();
    parser.parse(&data).unwrap();
    let mut writer = FragmentWriter::default();
    let segs = writer.generate_mse_segments(&parser.boxes, false).unwrap();
    // Initialization, then two chunks of 65536 and 4464 bytes.
    assert_eq!(segs.len(), 3);
    assert_eq!(segs[0].data, ftyp);
    assert_eq!(segs[1].timestamp, Some(0));
    assert_eq!(segs[2].timestamp, Some(1000));
    assert!(segs[1].is_keyframe);
    // The minimal moof is 68 bytes; then the mdat with the chunk.
    assert_eq!(&segs[1].data[4..8], b"moof");
    assert_eq!(u32::from_be_bytes([segs[1].data[0], segs[1].data[1], segs[1].data[2], segs[1].data[3]]), 68);
    assert_eq!(&segs[1].data[72..76], b"mdat");
    assert_eq!(segs[1].data.len(), 68 + 8 + 65536);
    assert_eq!(segs[2].data.len(), 68 + 8 + 4464);
}
