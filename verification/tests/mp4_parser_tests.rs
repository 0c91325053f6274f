use obn_core::media::fmp4_converter::{FragmentedMp4Converter, FrameData};
use obn_core::media::mp4_parser::{BoxContent, Mp4Error, Mp4Parser};
use obn_core::media::sample_table::SampleTable;
use obn_core::media::mp4_codec::stsd_readable;
use obn_core::media::publisher::{publish_order, publisher_metadata, PublisherError};
use obn_core::media::segment::{MediaType, StreamId, StreamSegment};

fn be32(v: &mut Vec<u8>, x: u32) {
    v.extend_from_slice(&x.to_be_bytes());
}

fn full_box(v: &mut Vec<u8>, t: &[u8; 4], content: &[u8]) {
    be32(v, (8 + content.len()) as u32);
    v.extend_from_slice(t);
    v.extend_from_slice(content);
}

#[test]
fn test_mp4_parser_creation() {
    let parser = Mp4Parser::new();
    assert_eq!(parser.get_boxes().len(), 0);
    assert_eq!(parser.get_tracks().len(), 0);
    assert!(!parser.is_fragmented());
}

#[test]
fn test_ftyp_parsing() {
    let parser = Mp4Parser::new();
    let ftyp_data = b"mp41\x00\x00\x00\x00mp41isom";
    let content = parser.parse_ftyp_box(ftyp_data).unwrap();
    match content {
        BoxContent::FileType { major_brand, minor_version, compatible_brands } => {
            assert_eq!(major_brand, b"mp41".to_vec());
            assert_eq!(minor_version, 0);
            assert_eq!(compatible_brands, vec![b"mp41".to_vec(), b"isom".to_vec()]);
        }
        _ => panic!("Expected FileType content"),
    }
}

#[test]
fn test_ftyp_too_short_is_invalid() {
    let parser = Mp4Parser::new();
    assert!(matches!(parser.parse_ftyp_box(b"mp41"), Err(Mp4Error::InvalidData)));
}

#[test]
fn test_parse_stsz() {
    let mut data = vec![0, 0, 0, 0];
    be32(&mut data, 0);
    be32(&mut data, 3);
    be32(&mut data, 100);
    be32(&mut data, 200);
    be32(&mut data, 150);
    assert_eq!(Mp4Parser::parse_stsz(&data), vec![100, 200, 150]);
}

#[test]
fn test_parse_stsz_default_size() {
    let mut data = vec![0, 0, 0, 0];
    be32(&mut data, 512);
    be32(&mut data, 4);
    assert_eq!(Mp4Parser::parse_stsz(&data), vec![512, 512, 512, 512]);
}

#[test]
fn test_parse_stsz_truncated_gives_nothing() {
    assert_eq!(Mp4Parser::parse_stsz(&[0, 0, 0]), Vec::<u32>::new());
}

#[test]
fn test_parse_stts() {
    let mut data = vec![0, 0, 0, 0];
    be32(&mut data, 2);
    be32(&mut data, 10);
    be32(&mut data, 1000);
    be32(&mut data, 5);
    be32(&mut data, 2000);
    assert_eq!(Mp4Parser::parse_stts(&data), vec![(10, 1000), (5, 2000)]);
}

#[test]
fn test_parse_stsc() {
    let mut data = vec![0, 0, 0, 0];
    be32(&mut data, 2);
    for x in [1u32, 3, 1, 4, 2, 1] {
        be32(&mut data, x);
    }
    assert_eq!(Mp4Parser::parse_stsc(&data), vec![(1, 3, 1), (4, 2, 1)]);
}

#[test]
fn test_parse_stco() {
    let mut data = vec![0, 0, 0, 0];
    be32(&mut data, 3);
    be32(&mut data, 1000);
    be32(&mut data, 5000);
    be32(&mut data, 9000);
    assert_eq!(Mp4Parser::parse_stco(&data), vec![1000, 5000, 9000]);
}

#[test]
fn test_parse_co64() {
    let mut data = vec![0, 0, 0, 0];
    be32(&mut data, 2);
    data.extend_from_slice(&0x100000000u64.to_be_bytes());
    data.extend_from_slice(&0x200000000u64.to_be_bytes());
    assert_eq!(Mp4Parser::parse_co64(&data), vec![0x100000000, 0x200000000]);
}

#[test]
fn test_parse_stss() {
    let mut data = vec![0, 0, 0, 0];
    be32(&mut data, 3);
    be32(&mut data, 1);
    be32(&mut data, 15);
    be32(&mut data, 30);
    assert_eq!(Mp4Parser::parse_stss(&data), vec![1, 15, 30]);
}

#[test]
fn test_parse_ctts() {
    let mut data = vec![0, 0, 0, 0];
    be32(&mut data, 2);
    be32(&mut data, 5);
    data.extend_from_slice(&1024i32.to_be_bytes());
    be32(&mut data, 3);
    data.extend_from_slice(&(-512i32).to_be_bytes());
    assert_eq!(Mp4Parser::parse_ctts(&data), vec![(5, 1024), (3, -512)]);
}

#[test]
fn test_resolve_sample_offsets_basic() {
    let st = SampleTable {
        sample_sizes: vec![10, 20, 30, 40, 50],
        time_to_sample: vec![(5, 1000)],
        sample_to_chunk: vec![(1, 3, 1), (2, 2, 1)],
        chunk_offsets: vec![100, 200],
        sync_samples: vec![1, 4],
        composition_offsets: vec![],
    };
    let entries = st.resolve_sample_offsets();
    assert_eq!(entries.len(), 5);
    assert_eq!(entries[0].offset, 100);
    assert_eq!(entries[0].size, 10);
    assert!(entries[0].is_keyframe);
    assert_eq!(entries[1].offset, 110);
    assert_eq!(entries[1].size, 20);
    assert!(!entries[1].is_keyframe);
    assert_eq!(entries[2].offset, 130);
    assert_eq!(entries[2].size, 30);
    assert_eq!(entries[3].offset, 200);
    assert_eq!(entries[3].size, 40);
    assert!(entries[3].is_keyframe);
    assert_eq!(entries[4].offset, 240);
    assert_eq!(entries[4].size, 50);
    for e in &entries {
        assert_eq!(e.duration, 1000);
    }
}

#[test]
fn test_resolve_sample_offsets_no_stss() {
    let st = SampleTable {
        sample_sizes: vec![100, 200],
        time_to_sample: vec![(2, 512)],
        sample_to_chunk: vec![(1, 2, 1)],
        chunk_offsets: vec![0],
        sync_samples: vec![],
        composition_offsets: vec![],
    };
    let entries = st.resolve_sample_offsets();
    assert_eq!(entries.len(), 2);
    assert!(entries[0].is_keyframe);
    assert!(entries[1].is_keyframe);
}

#[test]
fn test_resolve_sample_offsets_with_ctts() {
    let st = SampleTable {
        sample_sizes: vec![100, 200, 300],
        time_to_sample: vec![(3, 1000)],
        sample_to_chunk: vec![(1, 3, 1)],
        chunk_offsets: vec![0],
        sync_samples: vec![],
        composition_offsets: vec![(1, 2000), (2, -1000)],
    };
    let entries = st.resolve_sample_offsets();
    assert_eq!(entries[0].composition_offset, 2000);
    assert_eq!(entries[1].composition_offset, -1000);
    assert_eq!(entries[2].composition_offset, -1000);
}

#[test]
fn test_resolve_sample_offsets_stsc_runlength() {
    let st = SampleTable {
        sample_sizes: vec![10, 20, 30, 40, 50],
        time_to_sample: vec![(5, 500)],
        sample_to_chunk: vec![(1, 2, 1), (3, 1, 1)],
        chunk_offsets: vec![0, 100, 200],
        sync_samples: vec![1],
        composition_offsets: vec![],
    };
    let entries = st.resolve_sample_offsets();
    assert_eq!(entries.len(), 5);
    assert_eq!(entries[0].offset, 0);
    assert_eq!(entries[1].offset, 10);
    assert_eq!(entries[2].offset, 100);
    assert_eq!(entries[3].offset, 130);
    assert_eq!(entries[4].offset, 200);
}

fn table_box(v: &mut Vec<u8>, t: &[u8; 4], words: &[u32]) {
    let mut c = vec![0, 0, 0, 0];
    for w in words {
        be32(&mut c, *w);
    }
    full_box(v, t, &c);
}

fn regular_mp4() -> Vec<u8> {
    let mut mp4 = Vec::new();
    full_box(&mut mp4, b"ftyp", b"isom\x00\x00\x00\x00isom");

    let mut tkhd = vec![0, 0, 0, 0];
    tkhd.extend_from_slice(&[0u8; 8]);
    be32(&mut tkhd, 1);
    tkhd.extend_from_slice(&[0u8; 68]);
    let mut trak_content = Vec::new();
    full_box(&mut trak_content, b"tkhd", &tkhd);

    let mut mdia_content = Vec::new();
    let mut mdhd = vec![0, 0, 0, 0];
    mdhd.extend_from_slice(&[0u8; 8]);
    be32(&mut mdhd, 1000);
    be32(&mut mdhd, 3000);
    mdhd.extend_from_slice(&[0u8; 4]);
    full_box(&mut mdia_content, b"mdhd", &mdhd);
    let mut hdlr = vec![0, 0, 0, 0];
    hdlr.extend_from_slice(&[0u8; 4]);
    hdlr.extend_from_slice(b"vide");
    hdlr.extend_from_slice(&[0u8; 12]);
    full_box(&mut mdia_content, b"hdlr", &hdlr);

    let mut stbl_content = Vec::new();
    let mut stsd = vec![0, 0, 0, 0];
    be32(&mut stsd, 1);
    be32(&mut stsd, 86);
    stsd.extend_from_slice(b"avc1");
    stsd.extend_from_slice(&[0u8; 78]);
    full_box(&mut stbl_content, b"stsd", &stsd);
    table_box(&mut stbl_content, b"stsz", &[0, 3, 10, 15, 20]);
    table_box(&mut stbl_content, b"stts", &[1, 3, 1000]);
    table_box(&mut stbl_content, b"stsc", &[1, 1, 3, 1]);
    table_box(&mut stbl_content, b"stss", &[1, 1]);
    let mut minf_content = Vec::new();
    full_box(&mut minf_content, b"stbl", &stbl_content);
    full_box(&mut mdia_content, b"minf", &minf_content);
    full_box(&mut trak_content, b"mdia", &mdia_content);
    let mut moov_content = Vec::new();
    full_box(&mut moov_content, b"trak", &trak_content);
    full_box(&mut mp4, b"moov", &moov_content);
    mp4
}

#[test]
fn test_full_regular_mp4_fragmentation() {
    let mp4 = regular_mp4();
    let mut parser = Mp4Parser::new();
    parser.parse(&mp4).unwrap();

    let tracks = parser.get_tracks();
    assert_eq!(tracks.len(), 1);
    let track = &tracks[0];
    assert_eq!(track.media_type, b"vide".to_vec());
    assert_eq!(track.timescale, 1000);

    let st = track.sample_table.as_ref().expect("sample table should exist");
    assert_eq!(st.sample_sizes, vec![10, 15, 20]);
    assert_eq!(st.time_to_sample, vec![(3, 1000)]);
    assert_eq!(st.sample_to_chunk, vec![(1, 3, 1)]);
    assert_eq!(st.sync_samples, vec![1]);
}

#[test]
fn test_parsed_track_codec_and_summary() {
    let mp4 = regular_mp4();
    let mut parser = Mp4Parser::new();
    parser.parse(&mp4).unwrap();
    assert!(parser.has_video_track());
    assert!(!parser.has_audio_track());
    assert_eq!(parser.get_boxes().len(), 2);
    assert!(parser.get_audio_codec_info().is_none());
    assert_eq!(
        parser.get_summary(),
        "MP4 Summary: 2 boxes, 1 tracks, fragmented: false, box types: [ftyp, moov]"
    );
}

#[test]
fn test_fragment_v2_box_structure() {
    let mut converter = FragmentedMp4Converter::new();
    let frames = vec![
        FrameData::new(vec![0xAA; 100], 1000, true, 0),
        FrameData::new(vec![0xBB; 50], 1000, false, 512),
    ];
    let fragment = converter.create_fragment_v2(&frames, 1, 90000).unwrap();
    assert_eq!(&fragment[4..8], b"moof");
    let moof_size = u32::from_be_bytes([fragment[0], fragment[1], fragment[2], fragment[3]]) as usize;
    assert_eq!(&fragment[moof_size + 4..moof_size + 8], b"mdat");
    let mdat_size = u32::from_be_bytes([
        fragment[moof_size],
        fragment[moof_size + 1],
        fragment[moof_size + 2],
        fragment[moof_size + 3],
    ]) as usize;
    assert_eq!(mdat_size, 8 + 100 + 50);
}

#[test]
fn test_create_mfhd() {
    let converter = FragmentedMp4Converter::new();
    let mfhd = converter.create_mfhd();
    assert_eq!(mfhd.len(), 16);
    assert_eq!(&mfhd[4..8], b"mfhd");
    assert_eq!(u32::from_be_bytes([mfhd[12], mfhd[13], mfhd[14], mfhd[15]]), 1);
}

#[test]
fn test_create_fragment() {
    let mut converter = FragmentedMp4Converter::new();
    let samples = vec![
        FrameData::new(vec![0x00, 0x01, 0x02, 0x03], 1000, true, 0),
        FrameData::new(vec![0x04, 0x05, 0x06, 0x07], 1000, false, 0),
    ];
    let fragment = converter.create_fragment(&samples, 1, 1000).unwrap();
    assert!(fragment.len() > 16);
    let moof_type = std::str::from_utf8(&fragment[4..8]).unwrap();
    assert_eq!(moof_type, "moof");
}

#[test]
fn test_fragment_sequence_numbers_advance() {
    // Each fragment carries the next sequence number in its mfhd.
    let mut converter = FragmentedMp4Converter::new();
    let frames = vec![FrameData::new(vec![1, 2, 3], 500, true, 0)];
    let first = converter.create_fragment(&frames, 1, 1000).unwrap();
    let second = converter.create_fragment(&frames, 1, 1000).unwrap();
    // moof header (8) + mfhd header (8) + version/flags (4) -> sequence at 20
    assert_eq!(u32::from_be_bytes([first[20], first[21], first[22], first[23]]), 1);
    assert_eq!(u32::from_be_bytes([second[20], second[21], second[22], second[23]]), 2);
}

#[test]
fn test_fragment_data_offset_points_into_mdat() {
    // The trun data offset equals the moof size plus the mdat header.
    let mut converter = FragmentedMp4Converter::new();
    let frames = vec![FrameData::new(vec![9; 10], 100, true, 0)];
    let fragment = converter.create_fragment(&frames, 1, 1000).unwrap();
    let moof_size = u32::from_be_bytes([fragment[0], fragment[1], fragment[2], fragment[3]]) as usize;
    let mdat_payload = moof_size + 8;
    assert_eq!(&fragment[mdat_payload..], &[9u8; 10][..]);
    let pos = fragment.windows(4).position(|w| w == b"trun").unwrap();
    let data_offset =
        u32::from_be_bytes([fragment[pos + 12], fragment[pos + 13], fragment[pos + 14], fragment[pos + 15]]);
    assert_eq!(data_offset as usize, mdat_payload);
}

fn av_trak(track_id: u32, handler: &[u8; 4], format: &[u8; 4], sizes: &[u32], chunk_offset: u32) -> Vec<u8> {
    let mut tkhd = vec![0, 0, 0, 0];
    tkhd.extend_from_slice(&[0u8; 8]);
    be32(&mut tkhd, track_id);
    tkhd.extend_from_slice(&[0u8; 68]);
    let mut trak_content = Vec::new();
    full_box(&mut trak_content, b"tkhd", &tkhd);

    let mut mdia_content = Vec::new();
    let mut mdhd = vec![0, 0, 0, 0];
    mdhd.extend_from_slice(&[0u8; 8]);
    be32(&mut mdhd, 1000);
    be32(&mut mdhd, 3000);
    mdhd.extend_from_slice(&[0u8; 4]);
    full_box(&mut mdia_content, b"mdhd", &mdhd);
    let mut hdlr = vec![0, 0, 0, 0];
    hdlr.extend_from_slice(&[0u8; 4]);
    hdlr.extend_from_slice(handler);
    hdlr.extend_from_slice(&[0u8; 12]);
    full_box(&mut mdia_content, b"hdlr", &hdlr);

    let mut stbl_content = Vec::new();
    let mut stsd = vec![0, 0, 0, 0];
    be32(&mut stsd, 1);
    be32(&mut stsd, 86);
    stsd.extend_from_slice(format);
    stsd.extend_from_slice(&[0u8; 78]);
    full_box(&mut stbl_content, b"stsd", &stsd);
    let mut stsz = vec![0, sizes.len() as u32];
    stsz.extend_from_slice(sizes);
    table_box(&mut stbl_content, b"stsz", &stsz);
    table_box(&mut stbl_content, b"stts", &[1, sizes.len() as u32, 1000]);
    table_box(&mut stbl_content, b"stsc", &[1, 1, sizes.len() as u32, 1]);
    table_box(&mut stbl_content, b"stco", &[1, chunk_offset]);
    table_box(&mut stbl_content, b"stss", &[1, 1]);
    let mut minf_content = Vec::new();
    full_box(&mut minf_content, b"stbl", &stbl_content);
    full_box(&mut mdia_content, b"minf", &minf_content);
    full_box(&mut trak_content, b"mdia", &mdia_content);
    let mut trak = Vec::new();
    full_box(&mut trak, b"trak", &trak_content);
    trak
}

fn contains(hay: &[u8], needle: &[u8]) -> bool {
    hay.windows(needle.len()).any(|w| w == needle)
}

/// A regular file with a video track (id 1) and an AC-3 audio track (id 2),
/// their samples one after the other in `mdat`.
fn video_and_ac3_mp4() -> Vec<u8> {
    let mut ftyp = Vec::new();
    full_box(&mut ftyp, b"ftyp", b"isom\x00\x00\x00\x00isom");
    // Sizes of the moov box do not depend on the chunk offsets.
    let build = |video_at: u32, audio_at: u32| {
        let mut moov_content = av_trak(1, b"vide", b"avc1", &[10, 15, 20], video_at);
        moov_content.extend(av_trak(2, b"soun", b"ac-3", &[8, 8, 8], audio_at));
        let mut moov = Vec::new();
        full_box(&mut moov, b"moov", &moov_content);
        moov
    };
    let moov_len = build(0, 0).len() as u32;
    let payload_at = ftyp.len() as u32 + moov_len + 8;
    let moov = build(payload_at, payload_at + 45);
    let mut payload = vec![0x11u8; 45];
    payload.extend(vec![0x22u8; 24]);
    let mut mp4 = ftyp;
    mp4.extend(moov);
    full_box(&mut mp4, b"mdat", &payload);
    mp4
}

#[test]
fn test_ac3_audio_gives_video_only_segments() {
    let mp4 = video_and_ac3_mp4();
    let mut parser = Mp4Parser::new();
    parser.parse(&mp4).unwrap();
    assert_eq!(parser.get_tracks().len(), 2);
    assert_eq!(parser.get_tracks()[1].codec, "AC-3");
    let segments = parser.generate_mse_segments().unwrap();
    assert_eq!(segments[0].segment_type, "initialization");
    assert!(segments.len() > 1);
    for s in &segments[1..] {
        assert_eq!(s.segment_type, "media");
        assert_ne!(s.track_id, 2);
    }
    // The initialization keeps the video track and drops the audio one.
    assert!(contains(&segments[0].data, b"vide"));
    assert!(!contains(&segments[0].data, b"soun"));
}

#[test]
fn test_fragment_decode_time_continues() {
    // The second fragment's tfdt (at byte 60) starts where the first ends.
    let mut converter = FragmentedMp4Converter::new();
    let first_frames = vec![
        FrameData::new(vec![1, 2, 3], 500, true, 0),
        FrameData::new(vec![4], 250, false, 0),
    ];
    let first = converter.create_fragment(&first_frames, 1, 1000).unwrap();
    let second = converter.create_fragment(&[FrameData::new(vec![5], 100, false, 0)], 1, 1000).unwrap();
    assert_eq!(u32::from_be_bytes([first[60], first[61], first[62], first[63]]), 0);
    assert_eq!(u32::from_be_bytes([second[60], second[61], second[62], second[63]]), 750);
}

#[test]
fn test_can_resolve_checks_tables() {
    let good = SampleTable {
        sample_sizes: vec![10, 20, 30, 40, 50],
        time_to_sample: vec![(5, 1000)],
        sample_to_chunk: vec![(1, 3, 1), (2, 2, 1)],
        chunk_offsets: vec![100, 200],
        sync_samples: vec![1, 4],
        composition_offsets: vec![],
    };
    assert!(good.can_resolve());
    let zero_chunk = SampleTable { sample_to_chunk: vec![(0, 3, 1)], ..good.clone() };
    assert!(!zero_chunk.can_resolve());
    let zero_sync = SampleTable { sync_samples: vec![0], ..good.clone() };
    assert!(!zero_sync.can_resolve());
    // The second sample of the last chunk would lie past 2^64.
    let past_end = SampleTable { chunk_offsets: vec![100, u64::MAX - 10], ..good.clone() };
    assert!(!past_end.can_resolve());
    let at_end = SampleTable { chunk_offsets: vec![100, u64::MAX - 40], ..good };
    assert!(at_end.can_resolve());
}

#[test]
fn test_stsd_readable() {
    let entry = |avcc_size: u32, tail: &[u8]| {
        let mut d = vec![0, 0, 0, 0, 0, 0, 0, 1, 0, 0, 0, 40];
        d.extend_from_slice(b"avc1");
        be32(&mut d, avcc_size);
        d.extend_from_slice(b"avcC");
        d.extend_from_slice(tail);
        d
    };
    // An avcC of 11 bytes has no level byte to read.
    assert!(!stsd_readable(&entry(11, &[1, 0x64, 0]), b"vide"));
    assert!(stsd_readable(&entry(12, &[1, 0x64, 0, 0x1f]), b"vide"));
    // Only video sample entries are read for a profile.
    assert!(stsd_readable(&entry(11, &[1, 0x64, 0]), b"soun"));
}

#[test]
fn test_can_parse_checks_input() {
    let parser = Mp4Parser::new();
    let mp4 = regular_mp4();
    assert!(parser.can_parse(&mp4));
    // A box smaller than its own header.
    let mut bad = Vec::new();
    be32(&mut bad, 4);
    bad.extend_from_slice(b"free");
    bad.extend_from_slice(&[0u8; 8]);
    assert!(!parser.can_parse(&bad));
    // An avcC of 11 bytes, one short of the level byte read from it.
    let mut short_avcc = mp4.clone();
    let at = short_avcc.windows(4).position(|w| w == b"avc1").unwrap() + 4;
    short_avcc[at..at + 11].copy_from_slice(&[0, 0, 0, 11, b'a', b'v', b'c', b'C', 1, 2, 3]);
    assert!(!parser.can_parse(&short_avcc));
    // Checking leaves the parser as it was, and a parse then succeeds.
    let mut p = Mp4Parser::new();
    assert!(p.can_parse(&mp4));
    assert_eq!(p.get_boxes().len(), 0);
    p.parse(&mp4).unwrap();
    assert_eq!(p.get_boxes().len(), 2);
}

#[test]
fn test_parse_resets_fragmented_flag() {
    let mut parser = Mp4Parser::new();
    let mut fragmented = Vec::new();
    full_box(&mut fragmented, b"moof", &[0u8; 8]);
    parser.parse(&fragmented).unwrap();
    assert!(parser.is_fragmented());
    parser.parse(&regular_mp4()).unwrap();
    assert!(!parser.is_fragmented());
}

#[test]
fn test_video_only_moov_drops_trak_with_short_hdlr() {
    let mp4 = video_and_ac3_mp4();
    // A third track whose hdlr ends before its handler type.
    let mut hdlr = Vec::new();
    full_box(&mut hdlr, b"hdlr", &[0u8; 8]);
    let mut mdia = Vec::new();
    full_box(&mut mdia, b"mdia", &hdlr);
    let mut odd = Vec::new();
    full_box(&mut odd, b"trak", &mdia);
    // Insert it at the end of moov, growing moov's size.
    let moov_at = mp4.windows(4).position(|w| w == b"moov").unwrap() - 4;
    let moov_size = u32::from_be_bytes([mp4[moov_at], mp4[moov_at + 1], mp4[moov_at + 2], mp4[moov_at + 3]]) as usize;
    let mut file = mp4[..moov_at].to_vec();
    be32(&mut file, (moov_size + odd.len()) as u32);
    file.extend_from_slice(&mp4[moov_at + 4..moov_at + moov_size]);
    file.extend_from_slice(&odd);
    // The mdat sits after moov: shift the chunk offsets by the inserted bytes.
    let shift = odd.len() as u32;
    let mut i = 0;
    while let Some(p) = file[i..].windows(4).position(|w| w == b"stco") {
        let at = i + p + 4 + 8;
        let v = u32::from_be_bytes([file[at], file[at + 1], file[at + 2], file[at + 3]]) + shift;
        file[at..at + 4].copy_from_slice(&v.to_be_bytes());
        i = at + 4;
    }
    file.extend_from_slice(&mp4[moov_at + moov_size..]);
    let mut parser = Mp4Parser::new();
    assert!(parser.can_parse(&file));
    parser.parse(&file).unwrap();
    let segments = parser.generate_mse_segments().unwrap();
    let init = &segments[0].data;
    assert_eq!(init.windows(4).filter(|w| *w == b"trak").count(), 1);
    assert!(contains(init, b"vide"));
}

#[test]
fn test_create_init_segment_refuses_non_moov() {
    let converter = FragmentedMp4Converter::new();
    // A huge size field on a box that is not moov is refused, not read.
    let mut not_moov = vec![0xff, 0xff, 0xff, 0xff];
    not_moov.extend_from_slice(b"free");
    assert!(matches!(converter.create_init_segment(b"ftyp", &not_moov, true), Err(Mp4Error::InvalidData)));
    assert_eq!(converter.create_init_segment(b"ftyp", &not_moov, false).unwrap(), [b"ftyp".to_vec(), not_moov].concat());
}

fn seg(media_type: MediaType, sequence: u64) -> StreamSegment {
    StreamSegment::new(StreamId::new("s"), sequence, 0, 0, media_type, vec![sequence as u8], false, 1)
}

#[test]
fn test_publish_order() {
    match publish_order(Vec::new()) {
        Err(e) => assert_eq!(e.to_string(), "Media error: No segments generated"),
        Ok(_) => panic!("expected an error"),
    }
    let segments = vec![
        seg(MediaType::Video, 1),
        seg(MediaType::Initialization, 0),
        seg(MediaType::Audio, 2),
        seg(MediaType::Initialization, 3),
    ];
    let (init, media) = publish_order(segments).unwrap();
    assert_eq!(init.iter().map(|s| s.sequence).collect::<Vec<_>>(), vec![0, 3]);
    assert_eq!(media.iter().map(|s| s.sequence).collect::<Vec<_>>(), vec![1, 2]);
    let _ = PublisherError::Media(String::new());
}

#[test]
fn test_publisher_metadata() {
    let mut parser = Mp4Parser::new();
    parser.parse(&video_and_ac3_mp4()).unwrap();
    let m = publisher_metadata(&parser, Some("clip.mp4".to_string()));
    assert_eq!(m.title, "clip.mp4");
    assert_eq!((m.video_width, m.video_height, m.video_fps), (1920, 1080, 30));
    assert_eq!((m.audio_sample_rate, m.audio_channels), (1000, 2));
    assert_eq!((m.video_codec.as_str(), m.audio_codec.as_str()), ("H.264", "AC-3"));
    let empty = publisher_metadata(&Mp4Parser::new(), None);
    assert_eq!(empty.title, "Unknown");
    assert_eq!((empty.video_width, empty.video_height, empty.audio_sample_rate), (0, 0, 48000));
    assert_eq!((empty.video_codec.as_str(), empty.audio_codec.as_str()), ("h264", "aac"));
}

#[test]
fn test_stream_id_from_number() {
    assert_eq!(StreamId::from_number(42).as_bytes(), b"stream_42");
    assert!(StreamId::generate().as_bytes().starts_with(b"stream_"));
}
