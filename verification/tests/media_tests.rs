use obn_core::media::ffmpeg_reader::{FFmpegReaderError, FFmpegSample, FFmpegVideoReader};
use obn_core::media::segment::{MediaType, StreamId};
use obn_core::media::transcoder::probe_reports_ac3;
use obn_core::media::source::MemorySource;
use obn_core::media::buffer::{BufferConfig, MediaBuffer};
use obn_core::media::codec::{AudioCodec, Codec, CodecError, OpenH264Codec, OpusChannels, OpusCodec, VideoCodec};
use obn_core::media::interface::{MediaError, MediaFormat, MediaSourceBuilder};
use obn_core::media::pipeline::PassThroughStage;
use obn_core::media::quality::{BandwidthMonitor, QualityConfig, QualityLevel, QualityManager};
use obn_core::media::sink::{MemorySink, NullSink};
use obn_core::media::transcoder::{MediaTranscoder, TranscoderError};
use obn_core::media::video_reader::{create_sample_video_script, MediaSample, VideoReader};

#[test]
fn it_works() {
    assert_eq!(2 + 2, 4);
}

#[test]
fn test_quality_levels() {
    assert!(QualityLevel::Low < QualityLevel::Medium);
    assert!(QualityLevel::Medium < QualityLevel::High);
    assert!(QualityLevel::High < QualityLevel::Highest);
}

#[test]
fn test_quality_rank_matches_order() {
    let levels = [QualityLevel::Low, QualityLevel::Medium, QualityLevel::High, QualityLevel::Highest];
    for (i, l) in levels.iter().enumerate() {
        assert_eq!(l.rank() as usize, i);
    }
}

#[test]
fn test_quality_manager_switching() {
    let mut m = QualityManager::new(QualityConfig::default());
    assert_eq!(m.current_quality(), QualityLevel::Low);
    // Healthy buffer: up to the recommended medium level.
    assert_eq!(m.update_quality(11_000), Some(QualityLevel::Medium));
    assert_eq!(m.target_quality(), QualityLevel::Medium);
    // Between the thresholds: unchanged.
    assert_eq!(m.update_quality(7_000), None);
    // Low buffer: already at the target, no change.
    assert_eq!(m.update_quality(1_000), None);
    let config = QualityConfig { min_quality: QualityLevel::Highest, ..QualityConfig::default() };
    let mut high = QualityManager::new(config);
    assert_eq!(high.update_quality(11_000), None);
    assert_eq!(high.update_quality(4_000), Some(QualityLevel::Medium));
}

#[test]
fn test_bandwidth_window() {
    let mut monitor = BandwidthMonitor::new(QualityConfig::default());
    assert_eq!(monitor.window_totals(), None);
    monitor.record_download_at(1000, 100_000_000);
    monitor.record_download_at(3000, 102_000_000);
    assert_eq!(monitor.window_totals(), Some((4000, 2_000_000)));
    // A download more than a minute later drops the older ones.
    monitor.record_download_at(500, 170_000_000);
    assert_eq!(monitor.window_totals(), None);
    monitor.record_download_at(100, 171_000_000);
    assert_eq!(monitor.window_totals(), Some((600, 1_000_000)));
    assert_eq!(monitor.recommended_quality(), QualityLevel::Medium);
}

#[test]
fn test_bandwidth_monitor_records() {
    let mut m = QualityManager::new(QualityConfig::default());
    m.record_download(1024 * 1024);
    m.record_download(1024 * 1024);
    assert_eq!(m.current_quality(), QualityLevel::Low);
}

#[test]
fn test_transcoder_creation() {
    let transcoder = MediaTranscoder::new();
    assert_eq!(transcoder.temp_dir(), "/tmp");
    assert_eq!(
        TranscoderError::ConversionFailed("x".into()).to_string(),
        "Conversion failed: x"
    );
}

#[test]
fn test_sample_script_generation() {
    let script = create_sample_video_script();
    assert!(script.contains("ffmpeg"));
    assert!(script.contains("libx264"));
    assert!(script.contains("aac"));
}

#[test]
fn test_media_buffer_fifo() {
    let mut b = MediaBuffer::new(BufferConfig::default());
    b.push(&[1, 2, 3]).unwrap();
    b.push(&[4, 5]).unwrap();
    assert_eq!(b.pop(2).unwrap(), vec![1, 2]);
    assert_eq!(b.pop(3).unwrap(), vec![3, 4, 5]);
    assert!(b.is_empty());
    assert_eq!(b.position(), 5);
    assert_eq!(b.total_bytes(), 5);
    assert_eq!(b.pop(1).unwrap_err().to_string(), "Buffer error: Not enough data in buffer");
}

#[test]
fn test_media_buffer_full() {
    let config = BufferConfig { max_size: 4, max_duration: 0, initial_buffer_target: 0 };
    let mut b = MediaBuffer::new(config);
    b.push(&[1, 2, 3]).unwrap();
    assert!(b.push(&[4, 5]).is_err());
    assert_eq!(b.size(), 3);
    assert!(b.has_enough_data());
    b.clear();
    assert_eq!(b.size(), 0);
    assert_eq!(b.position(), 0);
}

#[test]
fn test_media_source_builder() {
    let stream = MediaSourceBuilder::new("cam", MediaFormat::Hls)
        .duration(5000)
        .bitrate(128_000)
        .codec("h264")
        .build();
    assert_eq!(stream.id, "cam");
    assert!(matches!(stream.format, MediaFormat::Hls));
    assert_eq!(stream.duration_ms, Some(5000));
    assert_eq!(stream.bitrate, Some(128_000));
    assert_eq!(stream.codec.as_deref(), Some("h264"));
    assert!(matches!(MediaFormat::default(), MediaFormat::Raw));
    assert_eq!(MediaError::from("boom").to_string(), "Media error: boom");
}

#[test]
fn test_legacy_codecs() {
    let mut a = AudioCodec::default();
    assert_eq!(a.name(), "audio");
    assert_eq!(a.mime_type(), "audio/raw");
    assert_eq!(a.encode(&[1]).unwrap_err().to_string(), "Codec error: Use OpusCodec instead");
    let mut v = VideoCodec::default();
    assert_eq!(v.name(), "video");
    assert_eq!(v.mime_type(), "video/raw");
    assert!(v.decode(&[1]).is_err());
    assert_eq!(CodecError::from("x").to_string(), "Codec error: x");
}

#[test]
fn test_pass_through_and_null_sink() {
    let mut stage = PassThroughStage::new("test");
    assert_eq!(stage.name(), "test");
    assert_eq!(stage.process(b"test data".to_vec()).unwrap(), b"test data".to_vec());
    let mut sink = NullSink::default();
    assert!(sink.write_chunk(&[1, 2]).is_ok());
    assert!(sink.flush().is_ok());
}

#[test]
fn test_memory_sink() {
    let mut sink = MemorySink::new();
    let data = b"test data".to_vec();
    sink.write_chunk(&data).unwrap();
    sink.flush().unwrap();
    assert_eq!(sink.into_inner(), data);
}

#[test]
fn test_memory_sink_keeps_order() {
    let mut sink = MemorySink::default();
    sink.write_chunk(&[1, 2]).unwrap();
    sink.write_chunk(&[]).unwrap();
    sink.write_chunk(&[3]).unwrap();
    assert_eq!(sink.into_inner(), vec![1, 2, 3]);
}

#[test]
fn test_memory_source_chunks_and_seek() {
    let data: Vec<u8> = (0..5000u32).map(|i| (i % 251) as u8).collect();
    let mut src = MemorySource::new(data.clone(), MediaFormat::Raw);
    assert_eq!(src.stream_info().id, "memory");
    let first = src.next_chunk().unwrap();
    assert_eq!(first, data[..4096].to_vec());
    let second = src.next_chunk().unwrap();
    assert_eq!(second, data[4096..].to_vec());
    assert_eq!(src.next_chunk().unwrap_err().to_string(), "Media error: End of data");
    assert!(src.seek(6000).is_err());
    src.seek(4990).unwrap();
    assert_eq!(src.next_chunk().unwrap(), data[4990..].to_vec());
}

#[test]
fn test_probe_reports_ac3() {
    assert!(probe_reports_ac3("{\"streams\": [{\"codec_name\": \"ac3\"}]}"));
    assert!(probe_reports_ac3("{\"codec_name\": \"eac3\"}"));
    assert!(!probe_reports_ac3("{\"codec_name\": \"aac\"}"));
    assert!(!probe_reports_ac3(""));
}

#[test]
fn test_bandwidth_window_fits() {
    let mut monitor = BandwidthMonitor::new(QualityConfig::default());
    assert!(monitor.window_fits());
    monitor.record_download_at(u64::MAX, 100_000_000);
    assert!(monitor.window_fits());
    monitor.record_download_at(1, 100_000_001);
    assert!(!monitor.window_fits());
}

#[test]
fn test_memory_source() {
    let data = b"test data".to_vec();
    let mut source = MemorySource::new(data.clone(), MediaFormat::Raw);
    let chunk = source.next_chunk().unwrap();
    assert_eq!(chunk, data);
    assert!(source.next_chunk().is_err());
}

#[test]
fn test_video_reader_samples() {
    let data: Vec<u8> = (0..10_000u32).map(|i| (i % 251) as u8).collect();
    let reader = VideoReader::new(data.clone());
    assert_eq!(reader.duration(), 30_000_000);
    assert!(reader.audio_track().is_none());
    let samples = reader.read_all_samples(33_333);
    // 900 frames end at 29_999_700 us, so a 901st starts within 30 s.
    assert_eq!(samples.len(), 901);
    assert_eq!(samples[0].data, data[0..4096].to_vec());
    assert_eq!(samples[1].timestamp, 33_333);
    // Third piece stops at the end of the file.
    assert_eq!(samples[2].data, data[8192..10_000].to_vec());
    // Fourth piece wraps around to 12288 % 10000.
    assert_eq!(samples[3].data, data[2288..6384].to_vec());
    assert!(samples[0].is_sync);
    assert!(!samples[1].is_sync);
    assert!(samples[30].is_sync);
    assert_eq!(samples[900].timestamp, 29_999_700);
    assert!(samples.iter().all(|s| s.track_id == 0 && s.duration == 33_333));
}

#[test]
fn test_video_reader_segments() {
    let reader = VideoReader::new(vec![9u8; 16]);
    let key = MediaSample { data: vec![1, 2, 3], timestamp: 0, duration: 33_333, is_sync: true, track_id: 0 };
    let out = reader.prepare_h264_sample(&key);
    assert_eq!(out.len(), 60 + 32 + 8);
    assert_eq!(&out[4..8], b"ftyp");
    assert_eq!(&out[60..64], &[0, 0, 0, 24]);
    assert_eq!(&out[64..68], b"moof");
    assert_eq!(&out[84..88], &[0, 0, 0, 16]);
    assert_eq!(&out[88..92], b"mdat");
    assert_eq!(&out[92..], &[0, 0, 0, 1, 0x65, 1, 2, 3]);
    let delta = MediaSample { is_sync: false, ..key.clone() };
    let out = reader.prepare_h264_sample(&delta);
    assert_eq!(out.len(), 40);
    assert_eq!(&out[32..], &[0, 0, 0, 1, 0x41, 1, 2, 3]);
    assert_eq!(reader.prepare_audio_sample(&key), vec![1, 2, 3]);
}

#[test]
fn test_ffmpeg_init_segment_once() {
    let mut reader = FFmpegVideoReader::new("in.mp4".to_string(), None);
    assert_eq!(reader.input_path(), "in.mp4");
    assert!(reader.audio_track().is_none());
    let init = reader.generate_fmp4_init_segment().unwrap();
    assert_eq!(init.len(), 32 + 8 + 110);
    assert_eq!(&init[4..8], b"ftyp");
    assert_eq!(&init[32..40], &[0, 0, 0, 0x76, b'm', b'o', b'o', b'v']);
    assert_eq!(&init[44..48], b"mvhd");
    assert_eq!(init[149], 2);
    let again = reader.generate_fmp4_init_segment();
    assert!(matches!(again, Err(FFmpegReaderError::InvalidSample)));
    assert_eq!(FFmpegReaderError::InvalidSample.to_string(), "Invalid sample data");
    assert_eq!(FFmpegReaderError::Io("gone".to_string()).to_string(), "IO error: gone");
}

#[test]
fn test_ffmpeg_media_segment() {
    let reader = FFmpegVideoReader::new("in.mp4".to_string(), None);
    let sample = FFmpegSample { data: vec![7, 8, 9], timestamp_us: 0, duration_us: 40_000, is_sync: true, stream_index: 0 };
    let seg = reader.packet_to_fmp4_segment(&sample).unwrap();
    assert_eq!(seg.len(), 48 + 8 + 3);
    assert_eq!(&seg[0..8], &[0, 0, 0, 48, b'm', b'o', b'o', b'f']);
    assert_eq!(&seg[24..32], &[0, 0, 0, 24, b't', b'r', b'a', b'f']);
    assert_eq!(&seg[48..56], &[0, 0, 0, 11, b'm', b'd', b'a', b't']);
    assert_eq!(&seg[56..], &[7, 8, 9]);
    let s = FFmpegVideoReader::sample_to_stream_segment(&sample, StreamId::new("s"), 4, MediaType::Audio);
    assert_eq!(s.track_id, 2);
    assert_eq!(s.sequence, 4);
}

#[test]
fn test_opus_settings() {
    let c = OpusCodec::new();
    assert_eq!(c.sample_rate(), 48000);
    assert_eq!(c.channels(), 2);
    assert_eq!(c.name(), "opus");
    assert_eq!(c.mime_type(), "audio/opus");
    assert_eq!(c.frame_size(), 960);
    assert_eq!(c.channel_layout().unwrap(), OpusChannels::Stereo);
    assert_eq!(OpusCodec::with_params(16000, 1).channel_layout().unwrap(), OpusChannels::Mono);
    match OpusCodec::with_params(48000, 6).channel_layout() {
        Err(CodecError::InvalidParameters(m)) => assert_eq!(m, "Only mono and stereo supported"),
        other => panic!("unexpected {:?}", other),
    }
}

#[test]
fn test_opus_frame_samples() {
    let c = OpusCodec::with_params(48000, 1);
    match c.frame_samples(&[1, 2, 3], 1) {
        Err(CodecError::InvalidParameters(m)) => assert_eq!(m, "Frame length must be even for 16-bit samples"),
        other => panic!("unexpected {:?}", other),
    }
    match c.frame_samples(&[1, 2, 3, 4], 960) {
        Err(CodecError::InvalidParameters(m)) => assert_eq!(m, "Expected 960 samples, got 2"),
        other => panic!("unexpected {:?}", other),
    }
    let samples = c.frame_samples(&[0x01, 0x00, 0xff, 0xff, 0x00, 0x80], 3).unwrap();
    assert_eq!(samples, vec![1, -1, i16::MIN]);
    assert_eq!(OpusCodec::decoded_bytes(&[1, -1, 256], 2), vec![0x01, 0x00, 0xff, 0xff]);
    assert_eq!(OpusCodec::decoded_bytes(&[i16::MIN, 256], 2), vec![0x00, 0x80, 0x00, 0x01]);
}

#[test]
fn test_openh264_frame_checks() {
    let c = OpenH264Codec::with_dimensions(4, 2);
    assert_eq!((c.width(), c.height()), (4, 2));
    assert_eq!(c.name(), "openh264");
    assert_eq!(c.mime_type(), "video/h264");
    assert_eq!(OpenH264Codec::new().width(), 640);
    match c.split_frame(&[0; 12]) {
        Err(CodecError::EncodingFailed(m)) => assert_eq!(m, "Encoder not initialized"),
        other => panic!("unexpected {:?}", other.is_ok()),
    }
}

#[test]
fn test_openh264_encode_and_decode() {
    let mut c = OpenH264Codec::with_dimensions(16, 16);
    c.init_encoder().unwrap();
    assert!(c.has_encoder());
    match c.split_frame(&[0; 3]) {
        Err(CodecError::InvalidParameters(m)) => assert_eq!(m, "Expected frame size 384 bytes, got 3"),
        other => panic!("unexpected {:?}", other.is_ok()),
    }
    let frame: Vec<u8> = (0..384u32).map(|i| i as u8).collect();
    let (y, u, v) = c.split_frame(&frame).unwrap();
    assert_eq!(y, frame[0..256].to_vec());
    assert_eq!(u, frame[256..320].to_vec());
    assert_eq!(v, frame[320..384].to_vec());
    let rgb = vec![128u8; 16 * 16 * 3];
    let bitstream = c.encode_rgb(&rgb).unwrap();
    assert!(!bitstream.is_empty());
    assert_eq!(c.encoded_frames(), 1);

    match c.decode(&bitstream) {
        Err(CodecError::DecodingFailed(m)) => assert_eq!(m, "Decoder not initialized"),
        other => panic!("unexpected {:?}", other.is_ok()),
    }
    c.init_decoder().unwrap();
    let picture = c.decode(&bitstream).unwrap();
    // A decoded 16x16 picture is its Y plane and two quarter planes.
    assert!(picture.is_empty() || picture.len() >= 384);
}

#[test]
fn test_openh264_outputs() {
    let ok = OpenH264Codec::decoded_output(Ok(Some((vec![1, 2], vec![3], vec![4]))));
    assert_eq!(ok.unwrap(), vec![1, 2, 3, 4]);
    assert_eq!(OpenH264Codec::decoded_output(Ok(None)).unwrap(), Vec::<u8>::new());
    match OpenH264Codec::decoded_output(Err("bad".to_string())) {
        Err(CodecError::OpenH264Error(m)) => assert_eq!(m, "Decoding failed: bad"),
        other => panic!("unexpected {:?}", other.is_ok()),
    }
    match OpenH264Codec::encoded_output(Err("full".to_string())) {
        Err(CodecError::OpenH264Error(m)) => assert_eq!(m, "Encoding failed: full"),
        other => panic!("unexpected {:?}", other.is_ok()),
    }
    assert_eq!(OpenH264Codec::encoded_output(Ok(vec![9])).unwrap(), vec![9]);
}

#[test]
fn test_opus_pcm_roundtrip() {
    let c = OpusCodec::with_params(48000, 2);
    let frame: Vec<u8> = (0..16u8).map(|i| i.wrapping_mul(37)).collect();
    let samples = c.frame_samples(&frame, 4).unwrap();
    assert_eq!(OpusCodec::decoded_bytes(&samples, samples.len()), frame);
}
