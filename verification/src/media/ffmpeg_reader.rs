//! Samples and tracks as the FFmpeg reader reports them, and the fMP4
//! segments it packages them in.
use vstd::prelude::*;
use crate::bytes_be::{push_all, push_u32, u32_bytes, BOX_MDAT, BOX_MFHD, BOX_MOOF, BOX_TFHD, BOX_TRAF};
use crate::media::segment::{MediaType, StreamId, StreamSegment};

verus! {

/// Errors of the FFmpeg reader.
#[derive(Debug)]
pub enum FFmpegReaderError {
    /// FFmpeg reported an error, with its message.
    FFmpeg(String),
    /// Reading or writing a file failed, with the message.
    Io(String),
    NoVideoStream,
    NoAudioStream,
    /// Invalid sample data, or an init segment asked for twice.
    InvalidSample,
}

impl FFmpegReaderError {
    /// The error's message.
    pub fn to_string(&self) -> (r: String)
        ensures
            r@ == match self {
                FFmpegReaderError::FFmpeg(m) => "FFmpeg error: "@ + m@,
                FFmpegReaderError::Io(m) => "IO error: "@ + m@,
                FFmpegReaderError::NoVideoStream => "No video stream found"@,
                FFmpegReaderError::NoAudioStream => "No audio stream found"@,
                FFmpegReaderError::InvalidSample => "Invalid sample data"@,
            },
    {
        match self {
            FFmpegReaderError::FFmpeg(m) => {
                let mut s = String::from_str("FFmpeg error: ");
                s.append(m.as_str());
                s
            },
            FFmpegReaderError::Io(m) => {
                let mut s = String::from_str("IO error: ");
                s.append(m.as_str());
                s
            },
            FFmpegReaderError::NoVideoStream => String::from_str("No video stream found"),
            FFmpegReaderError::NoAudioStream => String::from_str("No audio stream found"),
            FFmpegReaderError::InvalidSample => String::from_str("Invalid sample data"),
        }
    }
}

/// A sample read from a file.
#[derive(Debug, Clone)]
pub struct FFmpegSample {
    /// The sample's bytes.
    pub data: Vec<u8>,
    /// Presentation time (microseconds).
    pub timestamp_us: u64,
    /// Duration (microseconds).
    pub duration_us: u64,
    /// Whether the sample is a sync sample (a key frame).
    pub is_sync: bool,
    /// Index of the stream the sample belongs to.
    pub stream_index: usize,
}

/// An audio track of a file.
#[derive(Debug, Clone)]
pub struct FFmpegAudioTrack {
    /// Index of the stream.
    pub stream_index: usize,
    /// Codec name.
    pub codec: String,
    /// Samples per second.
    pub sample_rate: u32,
    /// Number of channels.
    pub channels: u16,
    /// Duration (microseconds).
    pub duration_us: u64,
    /// Bitrate in bits per second.
    pub bitrate: u64,
}

/// The fMP4 initialization segment: an `ftyp` (isom, minor version 1,
/// brands isom, iso2, avc1, mp41) and a `moov` holding an `mvhd` with
/// timescale 1000, unity matrix and next track 2.
pub open spec fn fmp4_init_segment() -> Seq<u8> {
    seq![
        0x00u8, 0x00, 0x00, 0x20, 0x66, 0x74, 0x79, 0x70, 0x69, 0x73, 0x6f, 0x6d, 0x00, 0x00, 0x00, 0x01,
        0x69, 0x73, 0x6f, 0x6d, 0x69, 0x73, 0x6f, 0x32, 0x61, 0x76, 0x63, 0x31, 0x6d, 0x70, 0x34, 0x31,
    ] + seq![0x00u8, 0x00, 0x00, 0x76, 0x6d, 0x6f, 0x6f, 0x76] + mvhd_bytes()
}

/// The `mvhd` box of the initialization segment (110 bytes; its size
/// field says 108).
pub open spec fn mvhd_bytes() -> Seq<u8> {
    seq![
        0x00u8, 0x00, 0x00, 0x6C, 0x6d, 0x76, 0x68, 0x64, 0x00, 0x00, 0x00, 0x00, 0x00, 0x00, 0x00, 0x00,
        0x00, 0x00, 0x00, 0x00, 0x00, 0x00, 0x03, 0xE8, 0x00, 0x00, 0x00, 0x00, 0x00, 0x01, 0x00, 0x00,
        0x01, 0x00, 0x00, 0x00, 0x00, 0x00, 0x00, 0x00, 0x00, 0x00, 0x00, 0x00, 0x00, 0x00, 0x00, 0x01,
        0x00, 0x00, 0x00, 0x00, 0x00, 0x00, 0x00, 0x00, 0x00, 0x00, 0x00, 0x00, 0x00, 0x00, 0x00, 0x01,
        0x00, 0x00, 0x00, 0x00, 0x00, 0x00, 0x00, 0x00, 0x00, 0x00, 0x00, 0x00, 0x00, 0x00, 0x40, 0x00,
        0x00, 0x00, 0x00, 0x00, 0x00, 0x00, 0x00, 0x00, 0x00, 0x00, 0x00, 0x00, 0x00, 0x00, 0x00, 0x00,
        0x00, 0x00, 0x00, 0x00, 0x00, 0x00, 0x00, 0x00, 0x00, 0x00, 0x00, 0x00, 0x00, 0x02,
    ]
}

/// The media segment of a sample: a 48-byte `moof` (an `mfhd` of fragment
/// 1 and a `traf` with a `tfhd` of track 1), then the sample's bytes in an
/// `mdat` whose size counts them (cut to 32 bits).
pub open spec fn fmp4_media_segment(data: Seq<u8>) -> Seq<u8> {
    u32_bytes(48) + u32_bytes(BOX_MOOF) + u32_bytes(16) + u32_bytes(BOX_MFHD) + u32_bytes(0)
        + u32_bytes(1) + u32_bytes(24) + u32_bytes(BOX_TRAF) + u32_bytes(16) + u32_bytes(BOX_TFHD)
        + u32_bytes(0) + u32_bytes(1) + u32_bytes((8 + data.len() % 0x1_0000_0000) as u32)
        + u32_bytes(BOX_MDAT) + data
}

/// What the FFmpeg reader knows of a file once its streams are analysed,
/// and whether it has handed out the initialization segment.
pub struct FFmpegVideoReader {
    input_path: String,
    audio_track: Option<FFmpegAudioTrack>,
    init_segment_generated: bool,
}

impl FFmpegVideoReader {
    /// The path of the file read.
    pub closed spec fn path(&self) -> Seq<char> {
        self.input_path@
    }

    /// Whether the initialization segment was handed out.
    pub closed spec fn init_done(&self) -> bool {
        self.init_segment_generated
    }

    /// The audio track found in the file.
    pub closed spec fn audio(&self) -> Option<FFmpegAudioTrack> {
        self.audio_track
    }

    /// A reader of the file at `input_path` with the audio track found in
    /// it; no initialization segment handed out yet.
    pub fn new(input_path: String, audio_track: Option<FFmpegAudioTrack>) -> (r: Self)
        ensures
            r.path() == input_path@,
            r.audio() == audio_track,
            !r.init_done(),
    {
        FFmpegVideoReader { input_path, audio_track, init_segment_generated: false }
    }

    /// The path of the file read.
    pub fn input_path(&self) -> (r: &str)
        ensures
            r@ == self.path(),
    {
        self.input_path.as_str()
    }

    /// The audio track, if the file has one.
    pub fn audio_track(&self) -> (r: Option<&FFmpegAudioTrack>)
        ensures
            r == match self.audio() {
                Some(t) => Some(&t),
                None => None::<&FFmpegAudioTrack>,
            },
    {
        match &self.audio_track {
            Some(t) => Some(t),
            None => None,
        }
    }

    /// The fMP4 initialization segment, once: asked for again, it is an
    /// `InvalidSample` error and nothing changes.
    pub fn generate_fmp4_init_segment(&mut self) -> (r: Result<Vec<u8>, FFmpegReaderError>)
        ensures
            old(self).init_done() ==> r matches Err(FFmpegReaderError::InvalidSample),
            old(self).init_done() ==> *final(self) == *old(self),
            !old(self).init_done() ==> (r matches Ok(v) && v@ == fmp4_init_segment()),
            final(self).init_done(),
            final(self).path() == old(self).path(),
            final(self).audio() == old(self).audio(),
    {
        if self.init_segment_generated {
            return Err(FFmpegReaderError::InvalidSample);
        }
        let mut init: Vec<u8> = vec![
            0x00u8, 0x00, 0x00, 0x20, 0x66, 0x74, 0x79, 0x70, 0x69, 0x73, 0x6f, 0x6d, 0x00, 0x00, 0x00, 0x01,
            0x69, 0x73, 0x6f, 0x6d, 0x69, 0x73, 0x6f, 0x32, 0x61, 0x76, 0x63, 0x31, 0x6d, 0x70, 0x34, 0x31,
        ];
        let moov_start = init.len();
        let moov_head: Vec<u8> = vec![0x00u8, 0x00, 0x00, 0x00, 0x6d, 0x6f, 0x6f, 0x76];
        push_all(&mut init, moov_head.as_slice());
        let mvhd: Vec<u8> = vec![
            0x00u8, 0x00, 0x00, 0x6C, 0x6d, 0x76, 0x68, 0x64, 0x00, 0x00, 0x00, 0x00, 0x00, 0x00, 0x00, 0x00,
            0x00, 0x00, 0x00, 0x00, 0x00, 0x00, 0x03, 0xE8, 0x00, 0x00, 0x00, 0x00, 0x00, 0x01, 0x00, 0x00,
            0x01, 0x00, 0x00, 0x00, 0x00, 0x00, 0x00, 0x00, 0x00, 0x00, 0x00, 0x00, 0x00, 0x00, 0x00, 0x01,
            0x00, 0x00, 0x00, 0x00, 0x00, 0x00, 0x00, 0x00, 0x00, 0x00, 0x00, 0x00, 0x00, 0x00, 0x00, 0x01,
            0x00, 0x00, 0x00, 0x00, 0x00, 0x00, 0x00, 0x00, 0x00, 0x00, 0x00, 0x00, 0x00, 0x00, 0x40, 0x00,
            0x00, 0x00, 0x00, 0x00, 0x00, 0x00, 0x00, 0x00, 0x00, 0x00, 0x00, 0x00, 0x00, 0x00, 0x00, 0x00,
            0x00, 0x00, 0x00, 0x00, 0x00, 0x00, 0x00, 0x00, 0x00, 0x00, 0x00, 0x00, 0x00, 0x02,
        ];
        assert(mvhd@ =~= mvhd_bytes());
        push_all(&mut init, mvhd.as_slice());
        // The moov's size fits its last byte: the first three stay zero.
        let moov_size = init.len() - moov_start;
        assert(moov_size == 0x76);
        init.set(moov_start + 3, moov_size as u8);
        assert(init@ =~= fmp4_init_segment());
        self.init_segment_generated = true;
        Ok(init)
    }

    /// The fMP4 media segment of a sample.
    pub fn packet_to_fmp4_segment(&self, sample: &FFmpegSample) -> (r: Result<Vec<u8>, FFmpegReaderError>)
        requires
            8 + sample.data@.len() % 0x1_0000_0000 <= u32::MAX,
        ensures
            r matches Ok(v) && v@ == fmp4_media_segment(sample.data@),
    {
        let mut segment: Vec<u8> = Vec::new();
        push_u32(&mut segment, 48);
        push_u32(&mut segment, BOX_MOOF);
        push_u32(&mut segment, 16);
        push_u32(&mut segment, BOX_MFHD);
        push_u32(&mut segment, 0);
        push_u32(&mut segment, 1);
        push_u32(&mut segment, 24);
        push_u32(&mut segment, BOX_TRAF);
        push_u32(&mut segment, 16);
        push_u32(&mut segment, BOX_TFHD);
        push_u32(&mut segment, 0);
        push_u32(&mut segment, 1);
        let low = (sample.data.len() as u64 % 0x1_0000_0000) as u32;
        push_u32(&mut segment, 8 + low);
        push_u32(&mut segment, BOX_MDAT);
        push_all(&mut segment, sample.data.as_slice());
        assert(segment@ =~= fmp4_media_segment(sample.data@));
        Ok(segment)
    }

    /// A stream segment from a sample: see
    /// [`StreamSegment::from_ffmpeg_sample`].
    pub fn sample_to_stream_segment(
        sample: &FFmpegSample,
        stream_id: StreamId,
        sequence: u64,
        media_type: MediaType,
    ) -> (r: StreamSegment)
        ensures
            r.stream_id@ == stream_id@,
            r.sequence == sequence,
            r.pts_us == sample.timestamp_us,
            r.duration_us == sample.duration_us,
            r.media_type == media_type,
            r.data@ == sample.data@,
            r.is_keyframe == sample.is_sync,
            r.track_id == match media_type {
                MediaType::Video => 1u8,
                MediaType::Audio => 2u8,
                _ => sample.stream_index as u8,
            },
    {
        StreamSegment::from_ffmpeg_sample(sample, stream_id, sequence, media_type)
    }
}

} // verus!
