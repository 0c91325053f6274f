use obn_core::media::ffmpeg_reader::FFmpegSample;
use obn_core::media::fmp4_converter::Sample;
use obn_core::media::mp4_parser::MseSegment;
use obn_core::media::segment::{MediaType, SegmentBuilder, StreamId, StreamSegment};
use obn_core::media::stream_chunk::{ChunkBuilder, ChunkType, MediaChunk, StreamId as LegacyStreamId};
use obn_core::media::wire_format::{WireSegment, WireSegmentBatch, WIRE_FORMAT_VERSION};

#[test]
fn test_media_type_conversion() {
    for media_type in [MediaType::Video, MediaType::Audio, MediaType::Metadata, MediaType::Initialization] {
        let byte = media_type.to_u8();
        let converted = MediaType::from_u8(byte);
        assert_eq!(converted, Some(media_type));
    }
    assert_eq!(MediaType::from_u8(255), None);
}

#[test]
fn test_stream_id_from_string() {
    let id = StreamId::new("test_stream");
    assert_eq!(id.to_string(), "test_stream");
    assert_eq!(id.as_str(), Some("test_stream"));
}

#[test]
fn test_stream_id_from_bytes() {
    let bytes = vec![0x80, 0x81, 0x82, 0x83];
    let id = StreamId::from_vec(bytes.clone());
    assert_eq!(id.to_vec(), bytes);
    assert_eq!(id.to_string(), "80818283");
}

#[test]
fn test_stream_id_lossy_text() {
    let id = StreamId::from_vec(vec![b'a', 0xff, b'b']);
    assert_eq!(id.to_string_lossy(), "a\u{fffd}b");
    assert_eq!(id.as_str(), None);
}

#[test]
fn test_stream_id_generate() {
    let id1 = StreamId::generate();
    let id2 = StreamId::generate();
    assert_ne!(id1, id2);
    assert!(id1.to_string().starts_with("stream_"));
}

#[test]
fn publisher_test_stream_id_generation() {
    let id = StreamId::generate();
    assert!(id.as_str().unwrap_or("").starts_with("stream_"));
}

#[test]
fn test_stream_segment_video() {
    let stream_id = StreamId::new("test");
    let segment = StreamSegment::video(stream_id.clone(), 1, 1000000, 33333, vec![1, 2, 3], true);
    assert_eq!(segment.stream_id, stream_id);
    assert_eq!(segment.sequence, 1);
    assert_eq!(segment.pts_us, 1000000);
    assert_eq!(segment.pts_ms(), 1000);
    assert_eq!(segment.duration_us, 33333);
    assert_eq!(segment.duration_ms(), 33);
    assert_eq!(segment.media_type, MediaType::Video);
    assert!(segment.is_keyframe);
    assert!(segment.is_video());
    assert!(!segment.is_audio());
    assert_eq!(segment.track_id, 1);
}

#[test]
fn test_stream_segment_audio() {
    let stream_id = StreamId::new("test");
    let segment = StreamSegment::audio(stream_id.clone(), 5, 2000000, 20000, vec![4, 5, 6]);
    assert_eq!(segment.sequence, 5);
    assert_eq!(segment.media_type, MediaType::Audio);
    assert!(!segment.is_keyframe);
    assert!(segment.is_audio());
    assert_eq!(segment.track_id, 2);
}

#[test]
fn test_stream_segment_initialization() {
    let stream_id = StreamId::new("test");
    let segment = StreamSegment::initialization(stream_id, vec![0, 0, 0, 28, 102, 116, 121, 112]);
    assert_eq!(segment.sequence, 0);
    assert_eq!(segment.media_type, MediaType::Initialization);
    assert!(segment.is_keyframe);
    assert!(segment.is_init());
}

#[test]
fn test_segment_builder() {
    let mut builder = SegmentBuilder::new(StreamId::new("test"));
    let v1 = builder.next_video(0, 33333, vec![1], true);
    let v2 = builder.next_video(33333, 33333, vec![2], false);
    let a1 = builder.next_audio(0, 20000, vec![3]);
    let a2 = builder.next_audio(20000, 20000, vec![4]);
    assert_eq!(v1.sequence, 0);
    assert_eq!(v2.sequence, 1);
    assert_eq!(a1.sequence, 0);
    assert_eq!(a2.sequence, 1);
    assert_eq!(builder.video_sequence(), 2);
    assert_eq!(builder.audio_sequence(), 2);
}

#[test]
fn test_from_media_chunk() {
    let chunk = MediaChunk {
        stream_id: LegacyStreamId::new("test_stream".to_string()),
        sequence: 42,
        timestamp: 1000,
        chunk_type: ChunkType::Video,
        data: vec![1, 2, 3, 4, 5],
        duration_ms: 33,
        is_keyframe: true,
    };
    let segment = StreamSegment::from_chunk(&chunk);
    assert_eq!(segment.stream_id.to_string(), "test_stream");
    assert_eq!(segment.sequence, 42);
    assert_eq!(segment.pts_us, 1_000_000);
    assert_eq!(segment.duration_us, 33_000);
    assert_eq!(segment.media_type, MediaType::Video);
    assert!(segment.is_keyframe);
    assert_eq!(segment.track_id, 1);
}

#[test]
fn test_to_media_chunk() {
    let segment = StreamSegment::video(StreamId::new("test_stream"), 42, 1_000_000, 33_000, vec![1, 2, 3, 4, 5], true);
    let chunk: MediaChunk = segment.into();
    assert_eq!(chunk.stream_id.as_str(), "test_stream");
    assert_eq!(chunk.sequence, 42);
    assert_eq!(chunk.timestamp, 1000);
    assert_eq!(chunk.duration_ms, 33);
    assert_eq!(chunk.chunk_type, ChunkType::Video);
    assert!(chunk.is_keyframe);
}

#[test]
fn test_from_mse_segment() {
    let mse = MseSegment {
        segment_type: "media".to_string(),
        data: vec![1, 2, 3, 4, 5],
        timestamp: Some(1000),
        duration: Some(33),
        is_keyframe: true,
        track_id: 1,
    };
    let segment = StreamSegment::from_mse_segment(&mse, StreamId::new("test_stream"), 42);
    assert_eq!(segment.stream_id.to_string(), "test_stream");
    assert_eq!(segment.sequence, 42);
    assert_eq!(segment.pts_us, 1_000_000);
    assert_eq!(segment.duration_us, 33_000);
    assert_eq!(segment.media_type, MediaType::Video);
    assert!(segment.is_keyframe);
}

#[test]
fn test_from_mse_segment_init() {
    let mse = MseSegment {
        segment_type: "initialization".to_string(),
        data: vec![0, 0, 0, 28, 102, 116, 121, 112],
        timestamp: None,
        duration: None,
        is_keyframe: true,
        track_id: 0,
    };
    let segment = StreamSegment::from_mse_segment(&mse, StreamId::new("test_stream"), 0);
    assert_eq!(segment.media_type, MediaType::Initialization);
    assert_eq!(segment.track_id, 0);
}

#[test]
fn test_from_sample() {
    let sample = Sample::new(vec![1, 2, 3, 4, 5], 3000, true);
    let segment = StreamSegment::from_sample(&sample, StreamId::new("test_stream"), 42, 1_000_000, 90000, MediaType::Video);
    assert_eq!(segment.stream_id.to_string(), "test_stream");
    assert_eq!(segment.sequence, 42);
    assert_eq!(segment.pts_us, 1_000_000);
    assert_eq!(segment.duration_us, 33333);
    assert_eq!(segment.media_type, MediaType::Video);
    assert!(segment.is_keyframe);
    let same = sample.to_stream_segment(StreamId::new("test_stream"), 42, 1_000_000, 90000, MediaType::Video);
    assert_eq!(same.duration_us, 33333);
}

#[test]
fn stream_chunk_test_stream_id_generation() {
    let id1 = LegacyStreamId::generate();
    let id2 = LegacyStreamId::generate();
    assert_ne!(id1.as_str(), id2.as_str());
    assert!(id1.as_str().starts_with("stream_"));
}

#[test]
fn test_chunk_builder() {
    let mut builder = ChunkBuilder::new(LegacyStreamId::new("test".to_string()));
    let video1 = builder.next_video_chunk(vec![1, 2, 3], 33, true);
    let video2 = builder.next_video_chunk(vec![4, 5, 6], 33, false);
    let audio1 = builder.next_audio_chunk(vec![7, 8, 9], 20);
    assert_eq!(video1.sequence, 0);
    assert_eq!(video2.sequence, 1);
    assert_eq!(audio1.sequence, 0);
    assert_eq!(video1.chunk_type, ChunkType::Video);
    assert_eq!(audio1.chunk_type, ChunkType::Audio);
}

#[test]
fn test_stream_segment_to_wire_roundtrip() {
    let stream_id = StreamId::new("test_stream");
    let segment = StreamSegment::video(stream_id.clone(), 1, 1000000, 33333, vec![1, 2, 3, 4, 5], true);
    let wire: WireSegment = segment.clone().into();
    let restored: StreamSegment = wire.into();
    assert_eq!(restored.stream_id, segment.stream_id);
    assert_eq!(restored.sequence, segment.sequence);
    assert_eq!(restored.pts_us, segment.pts_us);
    assert_eq!(restored.duration_us, segment.duration_us);
    assert_eq!(restored.media_type, segment.media_type);
    assert_eq!(restored.track_id, segment.track_id);
    assert_eq!(restored.is_keyframe, segment.is_keyframe);
    assert_eq!(restored.data, segment.data);
}

#[test]
fn test_media_type_enum_recovery() {
    for media_type in [MediaType::Video, MediaType::Audio, MediaType::Metadata, MediaType::Initialization] {
        let wire = WireSegment::new(b"test".to_vec(), 0, 0, 0, media_type.to_u8(), 0, false, vec![]);
        assert_eq!(wire.media_type_enum(), Some(media_type));
    }
}

#[test]
fn test_wire_segment_integrity() {
    let mut wire = WireSegment::new(b"s".to_vec(), 1, 2, 3, 0, 1, true, vec![1, 2, 3]);
    assert!(wire.verify_integrity());
    assert_eq!(wire.content_hash.len(), 16);
    assert_ne!(wire.content_hash, vec![1, 2, 3]);
    assert!(wire.is_compatible());
    assert_eq!(wire.version, WIRE_FORMAT_VERSION);
    wire.data[0] = 9;
    assert!(!wire.verify_integrity());
    wire.version = WIRE_FORMAT_VERSION + 1;
    assert!(!wire.is_compatible());
    assert_eq!(WireSegment::new(b"s".to_vec(), 0, 0, 0, 7, 0, false, vec![]).media_type_enum(), None);
}

#[test]
fn test_wire_segment_batch_in_memory() {
    let segments: Vec<StreamSegment> = (0..5)
        .map(|i| StreamSegment::video(StreamId::new("test"), i, i * 33333, 33333, vec![i as u8; 100], i == 0))
        .collect();
    let batch = WireSegmentBatch::from_segments(segments);
    assert_eq!(batch.len(), 5);
    assert!(!batch.is_empty());
    let restored = batch.into_segments();
    assert_eq!(restored.len(), 5);
    assert_eq!(restored[0].sequence, 0);
    assert_eq!(restored[4].sequence, 4);
    assert!(WireSegmentBatch::new(vec![]).is_empty());
}

#[test]
fn test_chunk_segment_chunk_roundtrip() {
    let chunk = MediaChunk {
        stream_id: LegacyStreamId::new("cam".to_string()),
        sequence: 7,
        timestamp: 1234,
        chunk_type: ChunkType::Audio,
        data: vec![9, 8, 7],
        duration_ms: 20,
        is_keyframe: false,
    };
    let seg = StreamSegment::from_chunk(&chunk);
    let back = MediaChunk::from_segment(&seg);
    assert_eq!(back.stream_id.as_str(), "cam");
    assert_eq!(back.sequence, 7);
    assert_eq!(back.timestamp, 1234);
    assert_eq!(back.duration_ms, 20);
    assert_eq!(back.chunk_type, ChunkType::Audio);
    assert_eq!(back.data, vec![9, 8, 7]);
    assert!(!back.is_keyframe);
}

#[test]
fn test_initialization_segment_becomes_metadata_chunk() {
    let seg = StreamSegment::initialization(StreamId::new("s"), vec![1]);
    let chunk = MediaChunk::from_segment(&seg);
    assert_eq!(chunk.chunk_type, ChunkType::Metadata);
}

#[test]
fn test_from_ffmpeg_sample() {
    let sample = FFmpegSample { data: vec![1, 2], timestamp_us: 40_000, duration_us: 20_000, is_sync: true, stream_index: 3 };
    let v = StreamSegment::from_ffmpeg_sample(&sample, StreamId::new("x"), 1, MediaType::Video);
    assert_eq!(v.track_id, 1);
    assert_eq!(v.pts_us, 40_000);
    let m = StreamSegment::from_ffmpeg_sample(&sample, StreamId::new("x"), 2, MediaType::Metadata);
    assert_eq!(m.track_id, 3);
}

#[test]
fn test_wire_unknown_media_type_reads_as_video() {
    let wire = WireSegment::new(b"id".to_vec(), 3, 4, 5, 9, 2, true, vec![1]);
    let seg = wire.into_segment();
    assert_eq!(seg.media_type, MediaType::Video);
    assert_eq!(seg.track_id, 2);
    assert_eq!(seg.stream_id.to_vec(), b"id".to_vec());
}
