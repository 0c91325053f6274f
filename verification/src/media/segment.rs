//! Stream segments: the unit in which media moves through the system, with
//! its stream id, sequence number, timing and kind.
use vstd::prelude::*;
use crate::bytes_be::copy_range;
use crate::media::ffmpeg_reader::FFmpegSample;
use crate::media::fmp4_converter::Sample;
use crate::media::mp4_parser::{MseSegment, Mp4Error, Mp4Parser, SegView, seg_views};
use crate::media::stream_chunk::{ChunkType, MediaChunk};
use crate::media::video_reader::MediaSample;
use crate::text::{decimal, hex2, lossy_string, push_decimal, push_hex2, utf8_lossy};

verus! {

/// Kind of media in a segment.
#[derive(Debug, Clone, Copy, PartialEq, Eq, Structural)]
pub enum MediaType {
    /// Video data (such as H.264).
    Video,
    /// Audio data (such as AAC or Opus).
    Audio,
    /// Metadata (stream information, codec parameters).
    Metadata,
    /// Initialization segment (fMP4 init segment).
    Initialization,
}

/// The wire number of a media type.
pub open spec fn media_type_code(t: MediaType) -> u8 {
    match t {
        MediaType::Video => 0,
        MediaType::Audio => 1,
        MediaType::Metadata => 2,
        MediaType::Initialization => 3,
    }
}

impl MediaType {
    /// The number of the type in the wire format.
    pub fn to_u8(self) -> (r: u8)
        ensures
            r == media_type_code(self),
    {
        match self {
            MediaType::Video => 0,
            MediaType::Audio => 1,
            MediaType::Metadata => 2,
            MediaType::Initialization => 3,
        }
    }

    /// The type with this wire number, if any.
    pub fn from_u8(value: u8) -> (r: Option<MediaType>)
        ensures
            value <= 3 ==> r is Some && media_type_code(r->Some_0) == value,
            value > 3 ==> r is None,
    {
        match value {
            0 => Some(MediaType::Video),
            1 => Some(MediaType::Audio),
            2 => Some(MediaType::Metadata),
            3 => Some(MediaType::Initialization),
            _ => None,
        }
    }

    /// The name of the type, as it is printed.
    pub fn to_string(&self) -> (r: String)
        ensures
            r@ == match *self {
                MediaType::Video => "video"@,
                MediaType::Audio => "audio"@,
                MediaType::Metadata => "metadata"@,
                MediaType::Initialization => "init"@,
            },
    {
        match self {
            MediaType::Video => String::from_str("video"),
            MediaType::Audio => String::from_str("audio"),
            MediaType::Metadata => String::from_str("metadata"),
            MediaType::Initialization => String::from_str("init"),
        }
    }
}

/// Converting a media type to its number and back gives it back.
pub proof fn lemma_media_type_roundtrip(t: MediaType)
    ensures
        media_type_code(t) <= 3,
        forall|u: MediaType| media_type_code(u) == media_type_code(t) ==> u == t,
{
}

/// Stream identifier: the raw bytes of its name.
#[derive(Debug, Clone, PartialEq, Eq, Hash)]
pub struct StreamId(Vec<u8>);

impl View for StreamId {
    type V = Seq<u8>;

    closed spec fn view(&self) -> Seq<u8> {
        self.0@
    }
}


/// Draws a random `u64` from `rand::thread_rng()`; the value is chance and
/// is not stated.
#[verifier::external_body]
pub(crate) fn random_u64() -> (r: u64) {
    <rand::rngs::ThreadRng as rand::RngCore>::next_u64(&mut rand::thread_rng())
}

/// Checks bytes with `std::str::from_utf8`: valid exactly when they are
/// valid UTF-8, and then the text is their decoding.
#[verifier::external_body]
pub(crate) fn utf8_text(b: &[u8]) -> (r: Option<&str>)
    ensures
        r is Some <==> vstd::utf8::valid_utf8(b@),
        r matches Some(s) ==> s@ == vstd::utf8::decode_utf8(b@),
{
    std::str::from_utf8(b).ok()
}

/// Hexadecimal digits (lower case) of some bytes.
pub open spec fn hex_text(b: Seq<u8>) -> Seq<char>
    decreases b.len(),
{
    if b.len() == 0 {
        Seq::empty()
    } else {
        hex_text(b.drop_last()) + hex2(b.last(), false)
    }
}

/// `stream_` followed by a number.
pub open spec fn stream_name(n: u64) -> Seq<char> {
    "stream_"@ + decimal(n as nat)
}

impl StreamId {
    /// A stream id from a name: its UTF-8 bytes.
    pub fn new(id: &str) -> (r: StreamId)
        ensures
            r@ == vstd::utf8::encode_utf8(id@),
    {
        let b = id.as_bytes();
        StreamId(copy_range(b, 0, b.len()))
    }

    /// A stream id from raw bytes.
    pub fn from_vec(bytes: Vec<u8>) -> (r: StreamId)
        ensures
            r@ == bytes@,
    {
        StreamId(bytes)
    }

    /// A stream id from raw bytes.
    pub fn from_bytes(bytes: &[u8]) -> (r: StreamId)
        ensures
            r@ == bytes@,
    {
        StreamId(copy_range(bytes, 0, bytes.len()))
    }

    /// A random stream id: `stream_` and a random number (see
    /// [`Self::from_number`]).
    pub fn generate() -> (r: StreamId)
        ensures
            exists|n: u64| r@ == vstd::utf8::encode_utf8(#[trigger] stream_name(n)),
    {
        let n = random_u64();
        StreamId::from_number(n)
    }

    /// The stream id named by a number: `stream_` and its decimal digits.
    pub fn from_number(n: u64) -> (r: StreamId)
        ensures
            r@ == vstd::utf8::encode_utf8(stream_name(n)),
    {
        let mut name = String::from_str("stream_");
        push_decimal(&mut name, n);
        assert(name@ == stream_name(n));
        StreamId::new(name.as_str())
    }

    /// The bytes of the id.
    pub fn as_bytes(&self) -> (r: &[u8])
        ensures
            r@ == self@,
    {
        self.0.as_slice()
    }

    /// A copy of the bytes of the id.
    pub fn to_vec(&self) -> (r: Vec<u8>)
        ensures
            r@ == self@,
    {
        copy_range(self.0.as_slice(), 0, self.0.len())
    }

    /// A copy of the id.
    pub fn duplicate(&self) -> (r: StreamId)
        ensures
            r@ == self@,
    {
        StreamId(self.to_vec())
    }

    /// The id as text, when its bytes are valid UTF-8.
    pub fn as_str(&self) -> (r: Option<&str>)
        ensures
            r is Some <==> vstd::utf8::valid_utf8(self@),
            r matches Some(s) ==> s@ == vstd::utf8::decode_utf8(self@),
    {
        utf8_text(self.0.as_slice())
    }

    /// The id as text, invalid sequences replaced.
    pub fn to_string_lossy(&self) -> (r: String)
        ensures
            r@ == utf8_lossy(self@),
            vstd::utf8::valid_utf8(self@) ==> r@ == vstd::utf8::decode_utf8(self@),
    {
        lossy_string(self.0.as_slice())
    }

    /// The id as it is printed: its text when valid UTF-8, else its bytes
    /// in hexadecimal.
    pub fn to_string(&self) -> (r: String)
        ensures
            vstd::utf8::valid_utf8(self@) ==> r@ == vstd::utf8::decode_utf8(self@),
            !vstd::utf8::valid_utf8(self@) ==> r@ == hex_text(self@),
    {
        match utf8_text(self.0.as_slice()) {
            Some(s) => String::from_str(s),
            None => {
                let mut out = String::new();
                let mut i: usize = 0;
                while i < self.0.len()
                    invariant
                        i <= self.0@.len(),
                        out@ == hex_text(self.0@.subrange(0, i as int)),
                    decreases self.0@.len() - i,
                {
                    push_hex2(&mut out, self.0[i], false);
                    i = i + 1;
                    assert(self.0@.subrange(0, i as int).drop_last() =~= self.0@.subrange(0, i as int - 1));
                }
                assert(self.0@.subrange(0, self.0@.len() as int) =~= self.0@);
                out
            },
        }
    }
}

/// A media segment.
#[derive(Debug, Clone)]
pub struct StreamSegment {
    /// Stream this segment belongs to.
    pub stream_id: StreamId,
    /// Sequence number for ordering.
    pub sequence: u64,
    /// Presentation timestamp in microseconds.
    pub pts_us: u64,
    /// Duration in microseconds.
    pub duration_us: u64,
    /// Kind of media.
    pub media_type: MediaType,
    /// Segment data.
    pub data: Vec<u8>,
    /// Whether this is a key frame or sync point.
    pub is_keyframe: bool,
    /// Track: 0 combined, 1 video, 2 audio.
    pub track_id: u8,
}

impl StreamSegment {
    /// A segment with the given fields.
    pub fn new(
        stream_id: StreamId,
        sequence: u64,
        pts_us: u64,
        duration_us: u64,
        media_type: MediaType,
        data: Vec<u8>,
        is_keyframe: bool,
        track_id: u8,
    ) -> (r: StreamSegment)
        ensures
            r.stream_id@ == stream_id@,
            r.sequence == sequence,
            r.pts_us == pts_us,
            r.duration_us == duration_us,
            r.media_type == media_type,
            r.data@ == data@,
            r.is_keyframe == is_keyframe,
            r.track_id == track_id,
    {
        StreamSegment { stream_id, sequence, pts_us, duration_us, media_type, data, is_keyframe, track_id }
    }

    /// A video segment (track 1).
    pub fn video(
        stream_id: StreamId,
        sequence: u64,
        pts_us: u64,
        duration_us: u64,
        data: Vec<u8>,
        is_keyframe: bool,
    ) -> (r: StreamSegment)
        ensures
            r.stream_id@ == stream_id@,
            r.sequence == sequence,
            r.pts_us == pts_us,
            r.duration_us == duration_us,
            r.media_type == MediaType::Video,
            r.data@ == data@,
            r.is_keyframe == is_keyframe,
            r.track_id == 1,
    {
        StreamSegment::new(stream_id, sequence, pts_us, duration_us, MediaType::Video, data, is_keyframe, 1)
    }

    /// An audio segment (track 2, not a key frame).
    pub fn audio(stream_id: StreamId, sequence: u64, pts_us: u64, duration_us: u64, data: Vec<u8>) -> (r:
        StreamSegment)
        ensures
            r.stream_id@ == stream_id@,
            r.sequence == sequence,
            r.pts_us == pts_us,
            r.duration_us == duration_us,
            r.media_type == MediaType::Audio,
            r.data@ == data@,
            !r.is_keyframe,
            r.track_id == 2,
    {
        StreamSegment::new(stream_id, sequence, pts_us, duration_us, MediaType::Audio, data, false, 2)
    }

    /// A metadata segment stamped with the current time (track 0, no
    /// duration).
    pub fn metadata(stream_id: StreamId, sequence: u64, data: Vec<u8>) -> (r: StreamSegment)
        ensures
            r.stream_id@ == stream_id@,
            r.sequence == sequence,
            r.duration_us == 0,
            r.media_type == MediaType::Metadata,
            r.data@ == data@,
            !r.is_keyframe,
            r.track_id == 0,
    {
        let now = crate::clock::unix_time_micros();
        StreamSegment::new(stream_id, sequence, now, 0, MediaType::Metadata, data, false, 0)
    }

    /// An initialization segment: sequence 0, time 0, a key frame, track 0.
    pub fn initialization(stream_id: StreamId, data: Vec<u8>) -> (r: StreamSegment)
        ensures
            r.stream_id@ == stream_id@,
            r.sequence == 0,
            r.pts_us == 0,
            r.duration_us == 0,
            r.media_type == MediaType::Initialization,
            r.data@ == data@,
            r.is_keyframe,
            r.track_id == 0,
    {
        StreamSegment::new(stream_id, 0, 0, 0, MediaType::Initialization, data, true, 0)
    }

    /// Size of the data in bytes.
    pub fn size(&self) -> (r: usize)
        ensures
            r == self.data@.len(),
    {
        self.data.len()
    }

    /// Duration in milliseconds.
    pub fn duration_ms(&self) -> (r: u64)
        ensures
            r == self.duration_us / 1000,
    {
        self.duration_us / 1000
    }

    /// Presentation timestamp in milliseconds.
    pub fn pts_ms(&self) -> (r: u64)
        ensures
            r == self.pts_us / 1000,
    {
        self.pts_us / 1000
    }

    /// Whether this is a video segment.
    pub fn is_video(&self) -> (r: bool)
        ensures
            r == (self.media_type == MediaType::Video),
    {
        self.media_type == MediaType::Video
    }

    /// Whether this is an audio segment.
    pub fn is_audio(&self) -> (r: bool)
        ensures
            r == (self.media_type == MediaType::Audio),
    {
        self.media_type == MediaType::Audio
    }

    /// Whether this is an initialization segment.
    pub fn is_init(&self) -> (r: bool)
        ensures
            r == (self.media_type == MediaType::Initialization),
    {
        self.media_type == MediaType::Initialization
    }

    /// A segment from an MSE segment: initialization when so named, audio
    /// on track 2, else video; milliseconds become microseconds.
    pub fn from_mse_segment(mse: &MseSegment, stream_id: StreamId, sequence: u64) -> (r: StreamSegment)
        requires
            mse.timestamp matches Some(t) ==> t * 1000 <= u64::MAX,
            mse.duration matches Some(d) ==> d * 1000 <= u64::MAX,
        ensures
            r.stream_id@ == stream_id@,
            r.sequence == sequence,
            r.pts_us == match mse.timestamp {
                Some(t) => t * 1000,
                None => 0,
            },
            r.duration_us == match mse.duration {
                Some(d) => d * 1000,
                None => 0,
            },
            r.media_type == (if mse.segment_type@ == "initialization"@ {
                MediaType::Initialization
            } else if mse.track_id == 2 {
                MediaType::Audio
            } else {
                MediaType::Video
            }),
            r.data@ == mse.data@,
            r.is_keyframe == mse.is_keyframe,
            r.track_id == mse.track_id as u8,
    {
        let init = String::from_str("initialization");
        let media_type = if mse.segment_type == init {
            MediaType::Initialization
        } else if mse.track_id == 2 {
            MediaType::Audio
        } else {
            MediaType::Video
        };
        let pts = match mse.timestamp {
            Some(t) => t * 1000,
            None => 0,
        };
        let dur = match mse.duration {
            Some(d) => d * 1000,
            None => 0,
        };
        StreamSegment {
            stream_id,
            sequence,
            pts_us: pts,
            duration_us: dur,
            media_type,
            data: copy_range(mse.data.as_slice(), 0, mse.data.len()),
            is_keyframe: mse.is_keyframe,
            track_id: mse.track_id as u8,
        }
    }

    /// A segment from a sample: its duration in timescale units becomes
    /// microseconds (taken as milliseconds when the timescale is 0); track 1
    /// for video, 2 for audio, else 0.
    pub fn from_sample(
        sample: &Sample,
        stream_id: StreamId,
        sequence: u64,
        pts_us: u64,
        timescale: u32,
        media_type: MediaType,
    ) -> (r: StreamSegment)
        ensures
            r.stream_id@ == stream_id@,
            r.sequence == sequence,
            r.pts_us == pts_us,
            r.duration_us == (if timescale > 0 {
                (sample.duration * 1_000_000) / (timescale as int)
            } else {
                sample.duration * 1000
            }),
            r.media_type == media_type,
            r.data@ == sample.data@,
            r.is_keyframe == sample.is_keyframe,
            r.track_id == match media_type {
                MediaType::Video => 1u8,
                MediaType::Audio => 2u8,
                _ => 0u8,
            },
    {
        let duration_us = if timescale > 0 {
            (sample.duration as u64 * 1_000_000) / timescale as u64
        } else {
            sample.duration as u64 * 1000
        };
        let track_id: u8 = match media_type {
            MediaType::Video => 1,
            MediaType::Audio => 2,
            _ => 0,
        };
        StreamSegment {
            stream_id,
            sequence,
            pts_us,
            duration_us,
            media_type,
            data: copy_range(sample.data.as_slice(), 0, sample.data.len()),
            is_keyframe: sample.is_keyframe,
            track_id,
        }
    }

    /// A segment from a media sample: audio on track 2, else video.
    pub fn from_media_sample(sample: &MediaSample, stream_id: StreamId, sequence: u64) -> (r: StreamSegment)
        ensures
            r.stream_id@ == stream_id@,
            r.sequence == sequence,
            r.pts_us == sample.timestamp,
            r.duration_us == sample.duration,
            r.media_type == (if sample.track_id == 2 {
                MediaType::Audio
            } else {
                MediaType::Video
            }),
            r.data@ == sample.data@,
            r.is_keyframe == sample.is_sync,
            r.track_id == sample.track_id as u8,
    {
        let media_type = if sample.track_id == 2 {
            MediaType::Audio
        } else {
            MediaType::Video
        };
        StreamSegment {
            stream_id,
            sequence,
            pts_us: sample.timestamp,
            duration_us: sample.duration,
            media_type,
            data: copy_range(sample.data.as_slice(), 0, sample.data.len()),
            is_keyframe: sample.is_sync,
            track_id: sample.track_id as u8,
        }
    }

    /// A segment from a sample read by FFmpeg: track 1 for video, 2 for
    /// audio, else the stream index (its low byte).
    pub fn from_ffmpeg_sample(
        sample: &FFmpegSample,
        stream_id: StreamId,
        sequence: u64,
        media_type: MediaType,
    ) -> (r: StreamSegment)
        ensures
            r.stream_id@ == stream_id@,
            r.sequence == sequence,
            r.pts_us == sample.timestamp_us,
            r.duration_us == sample.duration_us,
            r.media_type == media_type,
            r.data@ == sample.data@,
            r.is_keyframe == sample.is_sync,
            r.track_id == match media_type {
                MediaType::Video => 1u8,
                MediaType::Audio => 2u8,
                _ => sample.stream_index as u8,
            },
    {
        let track_id: u8 = match media_type {
            MediaType::Video => 1,
            MediaType::Audio => 2,
            _ => sample.stream_index as u8,
        };
        let data = copy_range(sample.data.as_slice(), 0, sample.data.len());
        assert(data@ =~= sample.data@);
        StreamSegment {
            stream_id,
            sequence,
            pts_us: sample.timestamp_us,
            duration_us: sample.duration_us,
            media_type,
            data,
            is_keyframe: sample.is_sync,
            track_id,
        }
    }

    /// A segment from a media chunk: milliseconds become microseconds;
    /// track 1 for video, 2 for audio, 0 for metadata.
    pub fn from_chunk(chunk: &MediaChunk) -> (r: StreamSegment)
        requires
            chunk.timestamp * 1000 <= u64::MAX,
            chunk.duration_ms * 1000 <= u64::MAX,
        ensures
            r.stream_id@ == vstd::utf8::encode_utf8(chunk.stream_id.0@),
            r.sequence == chunk.sequence,
            r.pts_us == chunk.timestamp * 1000,
            r.duration_us == chunk.duration_ms * 1000,
            r.media_type == match chunk.chunk_type {
                ChunkType::Video => MediaType::Video,
                ChunkType::Audio => MediaType::Audio,
                ChunkType::Metadata => MediaType::Metadata,
            },
            r.data@ == chunk.data@,
            r.is_keyframe == chunk.is_keyframe,
            r.track_id == match chunk.chunk_type {
                ChunkType::Video => 1u8,
                ChunkType::Audio => 2u8,
                ChunkType::Metadata => 0u8,
            },
            is_chunk_segment(r, *chunk),
    {
        let (media_type, track_id) = match chunk.chunk_type {
            ChunkType::Video => (MediaType::Video, 1u8),
            ChunkType::Audio => (MediaType::Audio, 2u8),
            ChunkType::Metadata => (MediaType::Metadata, 0u8),
        };
        let data = copy_range(chunk.data.as_slice(), 0, chunk.data.len());
        assert(data@ =~= chunk.data@);
        StreamSegment {
            stream_id: StreamId::new(chunk.stream_id.0.as_str()),
            sequence: chunk.sequence,
            pts_us: chunk.timestamp * 1000,
            duration_us: chunk.duration_ms * 1000,
            media_type,
            data,
            is_keyframe: chunk.is_keyframe,
            track_id,
        }
    }
}

/// Numbers the segments of a stream, one sequence per kind.
pub struct SegmentBuilder {
    stream_id: StreamId,
    video_sequence: u64,
    audio_sequence: u64,
    meta_sequence: u64,
}

impl SegmentBuilder {
    /// The stream the builder numbers segments for.
    pub closed spec fn stream(&self) -> Seq<u8> {
        self.stream_id@
    }

    /// Next video sequence number.
    pub closed spec fn video_seq(&self) -> u64 {
        self.video_sequence
    }

    /// Next audio sequence number.
    pub closed spec fn audio_seq(&self) -> u64 {
        self.audio_sequence
    }

    /// Next metadata sequence number.
    pub closed spec fn meta_seq(&self) -> u64 {
        self.meta_sequence
    }

    /// A builder whose sequences all start at 0.
    pub fn new(stream_id: StreamId) -> (r: SegmentBuilder)
        ensures
            r.stream() == stream_id@,
            r.video_seq() == 0,
            r.audio_seq() == 0,
            r.meta_seq() == 0,
    {
        SegmentBuilder { stream_id, video_sequence: 0, audio_sequence: 0, meta_sequence: 0 }
    }

    /// The next video segment, numbered by the video sequence.
    pub fn next_video(&mut self, pts_us: u64, duration_us: u64, data: Vec<u8>, is_keyframe: bool) -> (r:
        StreamSegment)
        requires
            old(self).video_seq() < u64::MAX,
        ensures
            r.sequence == old(self).video_seq(),
            r.stream_id@ == old(self).stream(),
            r.pts_us == pts_us,
            r.duration_us == duration_us,
            r.media_type == MediaType::Video,
            r.data@ == data@,
            r.is_keyframe == is_keyframe,
            r.track_id == 1,
            final(self).video_seq() == old(self).video_seq() + 1,
            final(self).audio_seq() == old(self).audio_seq(),
            final(self).meta_seq() == old(self).meta_seq(),
            final(self).stream() == old(self).stream(),
    {
        let seq = self.video_sequence;
        self.video_sequence = self.video_sequence + 1;
        StreamSegment::video(self.stream_id.duplicate(), seq, pts_us, duration_us, data, is_keyframe)
    }

    /// The next audio segment, numbered by the audio sequence.
    pub fn next_audio(&mut self, pts_us: u64, duration_us: u64, data: Vec<u8>) -> (r: StreamSegment)
        requires
            old(self).audio_seq() < u64::MAX,
        ensures
            r.sequence == old(self).audio_seq(),
            r.stream_id@ == old(self).stream(),
            r.pts_us == pts_us,
            r.duration_us == duration_us,
            r.media_type == MediaType::Audio,
            r.data@ == data@,
            !r.is_keyframe,
            r.track_id == 2,
            final(self).video_seq() == old(self).video_seq(),
            final(self).audio_seq() == old(self).audio_seq() + 1,
            final(self).meta_seq() == old(self).meta_seq(),
            final(self).stream() == old(self).stream(),
    {
        let seq = self.audio_sequence;
        self.audio_sequence = self.audio_sequence + 1;
        StreamSegment::audio(self.stream_id.duplicate(), seq, pts_us, duration_us, data)
    }

    /// The next metadata segment, numbered by the metadata sequence.
    pub fn metadata(&mut self, data: Vec<u8>) -> (r: StreamSegment)
        requires
            old(self).meta_seq() < u64::MAX,
        ensures
            r.sequence == old(self).meta_seq(),
            r.stream_id@ == old(self).stream(),
            r.media_type == MediaType::Metadata,
            r.data@ == data@,
            final(self).video_seq() == old(self).video_seq(),
            final(self).audio_seq() == old(self).audio_seq(),
            final(self).meta_seq() == old(self).meta_seq() + 1,
            final(self).stream() == old(self).stream(),
    {
        let seq = self.meta_sequence;
        self.meta_sequence = self.meta_sequence + 1;
        StreamSegment::metadata(self.stream_id.duplicate(), seq, data)
    }

    /// An initialization segment of the stream.
    pub fn initialization(&self, data: Vec<u8>) -> (r: StreamSegment)
        ensures
            r.stream_id@ == self.stream(),
            r.sequence == 0,
            r.media_type == MediaType::Initialization,
            r.data@ == data@,
    {
        StreamSegment::initialization(self.stream_id.duplicate(), data)
    }

    /// The next video sequence number.
    pub fn video_sequence(&self) -> (r: u64)
        ensures
            r == self.video_seq(),
    {
        self.video_sequence
    }

    /// The next audio sequence number.
    pub fn audio_sequence(&self) -> (r: u64)
        ensures
            r == self.audio_seq(),
    {
        self.audio_sequence
    }
}

/// A stream id and sequence number for converting what has none.
pub struct ConversionContext {
    /// Stream id to give.
    pub stream_id: StreamId,
    /// Sequence number to give.
    pub sequence: u64,
}

impl ConversionContext {
    /// A context with the given stream id and sequence number.
    pub fn new(stream_id: StreamId, sequence: u64) -> (r: ConversionContext)
        ensures
            r.stream_id@ == stream_id@,
            r.sequence == sequence,
    {
        ConversionContext { stream_id, sequence }
    }
}

/// Whether `s` is MSE segment `w`, numbered `i`, as a stream segment: the
/// same data and key-frame mark, milliseconds as microseconds (0 when
/// absent), initialization when so named, audio on track 2, else video.
pub open spec fn stream_form_of(s: StreamSegment, w: crate::media::mp4_parser::SegView, i: int) -> bool {
    &&& s.sequence == i
    &&& s.data@ == w.data
    &&& s.is_keyframe == w.is_keyframe
    &&& s.pts_us == match w.timestamp {
        Some(t) => t * 1000,
        None => 0,
    }
    &&& s.duration_us == match w.duration {
        Some(d) => d * 1000,
        None => 0,
    }
    &&& s.media_type == (if w.segment_type == "initialization"@ {
        MediaType::Initialization
    } else if w.track_id == 2 {
        MediaType::Audio
    } else {
        MediaType::Video
    })
    &&& s.track_id == w.track_id as u8
}

impl Mp4Parser {
    /// The MSE segments as stream segments, numbered from 0 in order.
    pub fn generate_stream_segments(&mut self, stream_id: StreamId) -> (r: Result<Vec<StreamSegment>, Mp4Error>)
        requires
            old(self).generates(),
            times_convertible(
                crate::media::mp4_parser::mse_segments_spec(
                    old(self).fragmented(),
                    old(self).boxes_spec(),
                    old(self).tracks_view(),
                    old(self).mdat_offset(),
                    old(self).converter_state(),
                ),
            ),
        ensures
            match (r, crate::media::mp4_parser::mse_segments_spec(
                old(self).fragmented(),
                old(self).boxes_spec(),
                old(self).tracks_view(),
                old(self).mdat_offset(),
                old(self).converter_state(),
            )) {
                (Ok(v), Some(Ok((w, _)))) => v@.len() == w.len() && forall|i: int| 0 <= i < v@.len() ==> {
                    let s = #[trigger] v@[i];
                    &&& s.stream_id@ == stream_id@
                    &&& stream_form_of(s, w[i], i)
                },
                (Err(e), Some(Err(f))) => e == f,
                _ => false,
            },
    {
        let mse = match self.generate_mse_segments() {
            Ok(v) => v,
            Err(e) => {
                return Err(e);
            },
        };
        let ghost w = seg_views(mse@);
        let mut result: Vec<StreamSegment> = Vec::new();
        let mut i: usize = 0;
        while i < mse.len()
            invariant
                i <= mse@.len(),
                result@.len() == i,
                w == seg_views(mse@),
                forall|j: int|
                    0 <= j < w.len() ==> {
                        &&& (#[trigger] w[j]).timestamp matches Some(t) ==> t * 1000 <= u64::MAX
                        &&& w[j].duration matches Some(d) ==> d * 1000 <= u64::MAX
                    },
                forall|j: int| 0 <= j < i ==> {
                    let s = #[trigger] result@[j];
                    &&& s.stream_id@ == stream_id@
                    &&& stream_form_of(s, w[j], j)
                },
            decreases mse@.len() - i,
        {
            assert(w[i as int] == mse@[i as int]@);
            let seg = StreamSegment::from_mse_segment(&mse[i], stream_id.duplicate(), i as u64);
            result.push(seg);
            i = i + 1;
        }
        Ok(result)
    }
}

/// Whether the segments' times in milliseconds can be given in
/// microseconds.
pub open spec fn times_convertible(
    o: Option<Result<(Seq<SegView>, crate::media::mp4_parser::ConvState), Mp4Error>>,
) -> bool {
    match o {
        Some(Ok((v, _))) => forall|i: int|
            0 <= i < v.len() ==> {
                &&& (#[trigger] v[i]).timestamp matches Some(t) ==> t * 1000 <= u64::MAX
                &&& v[i].duration matches Some(d) ==> d * 1000 <= u64::MAX
            },
        _ => true,
    }
}

impl Sample {
    /// The sample as a stream segment, as [`StreamSegment::from_sample`]
    /// makes it.
    pub fn to_stream_segment(
        &self,
        stream_id: StreamId,
        sequence: u64,
        pts_us: u64,
        timescale: u32,
        media_type: MediaType,
    ) -> (r: StreamSegment)
        ensures
            r.stream_id@ == stream_id@,
            r.sequence == sequence,
            r.pts_us == pts_us,
            r.duration_us == (if timescale > 0 {
                (self.duration * 1_000_000) / (timescale as int)
            } else {
                self.duration * 1000
            }),
            r.media_type == media_type,
            r.data@ == self.data@,
            r.is_keyframe == self.is_keyframe,
            r.track_id == match media_type {
                MediaType::Video => 1u8,
                MediaType::Audio => 2u8,
                _ => 0u8,
            },
    {
        StreamSegment::from_sample(self, stream_id, sequence, pts_us, timescale, media_type)
    }
}

/// Whether `s` is the segment made from chunk `c`: the id's text as
/// bytes, milliseconds as microseconds, the chunk type as media type and
/// track.
pub open spec fn is_chunk_segment(s: StreamSegment, c: MediaChunk) -> bool {
    &&& s.stream_id@ == vstd::utf8::encode_utf8(c.stream_id.0@)
    &&& s.sequence == c.sequence
    &&& s.pts_us == c.timestamp * 1000
    &&& s.duration_us == c.duration_ms * 1000
    &&& s.media_type == match c.chunk_type {
        ChunkType::Video => MediaType::Video,
        ChunkType::Audio => MediaType::Audio,
        ChunkType::Metadata => MediaType::Metadata,
    }
    &&& s.data@ == c.data@
    &&& s.is_keyframe == c.is_keyframe
}

/// Whether `c` is the chunk made from segment `s`: the id read as text,
/// microseconds as milliseconds, initialization and metadata as metadata.
pub open spec fn is_segment_chunk(c: MediaChunk, s: StreamSegment) -> bool {
    &&& (vstd::utf8::valid_utf8(s.stream_id@) ==> c.stream_id.0@ == vstd::utf8::decode_utf8(s.stream_id@))
    &&& c.sequence == s.sequence
    &&& c.timestamp == s.pts_us / 1000
    &&& c.duration_ms == s.duration_us / 1000
    &&& c.chunk_type == match s.media_type {
        MediaType::Video => ChunkType::Video,
        MediaType::Audio => ChunkType::Audio,
        _ => ChunkType::Metadata,
    }
    &&& c.data@ == s.data@
    &&& c.is_keyframe == s.is_keyframe
}

/// A chunk turned into a segment and back keeps its stream, sequence,
/// time, duration, type, data and key-frame flag.
pub proof fn lemma_chunk_roundtrip(c: MediaChunk, s: StreamSegment, back: MediaChunk)
    requires
        is_chunk_segment(s, c),
        is_segment_chunk(back, s),
    ensures
        back.stream_id.0@ == c.stream_id.0@,
        back.sequence == c.sequence,
        back.timestamp == c.timestamp,
        back.duration_ms == c.duration_ms,
        back.chunk_type == c.chunk_type,
        back.data@ == c.data@,
        back.is_keyframe == c.is_keyframe,
{
    vstd::utf8::encode_utf8_valid_utf8(c.stream_id.0@);
    vstd::utf8::encode_utf8_decode_utf8(c.stream_id.0@);
}

impl MediaChunk {
    /// A media chunk from a segment: microseconds become milliseconds,
    /// initialization and metadata segments become metadata chunks, and the
    /// stream id is read as text.
    pub fn from_segment(segment: &StreamSegment) -> (r: MediaChunk)
        ensures
            r.stream_id.0@ == utf8_lossy(segment.stream_id@),
            is_segment_chunk(r, *segment),
            r.sequence == segment.sequence,
            r.timestamp == segment.pts_us / 1000,
            r.chunk_type == match segment.media_type {
                MediaType::Video => ChunkType::Video,
                MediaType::Audio => ChunkType::Audio,
                _ => ChunkType::Metadata,
            },
            r.data@ == segment.data@,
            r.duration_ms == segment.duration_us / 1000,
            r.is_keyframe == segment.is_keyframe,
    {
        let chunk_type = match segment.media_type {
            MediaType::Video => ChunkType::Video,
            MediaType::Audio => ChunkType::Audio,
            _ => ChunkType::Metadata,
        };
        let data = copy_range(segment.data.as_slice(), 0, segment.data.len());
        assert(data@ =~= segment.data@);
        MediaChunk {
            stream_id: crate::media::stream_chunk::StreamId::new(segment.stream_id.to_string_lossy()),
            sequence: segment.sequence,
            timestamp: segment.pts_us / 1000,
            chunk_type,
            data,
            duration_ms: segment.duration_us / 1000,
            is_keyframe: segment.is_keyframe,
        }
    }
}

impl From<StreamSegment> for MediaChunk {
    fn from(segment: StreamSegment) -> (r: MediaChunk)
        ensures
            r.stream_id.0@ == utf8_lossy(segment.stream_id@),
            r.sequence == segment.sequence,
            r.timestamp == segment.pts_us / 1000,
            r.data@ == segment.data@,
            r.duration_ms == segment.duration_us / 1000,
            r.is_keyframe == segment.is_keyframe,
    {
        MediaChunk::from_segment(&segment)
    }
}

impl vstd::std_specs::convert::FromSpecImpl<StreamSegment> for MediaChunk {
    open spec fn obeys_from_spec() -> bool {
        false
    }

    open spec fn from_spec(segment: StreamSegment) -> MediaChunk {
        arbitrary()
    }
}

} // verus!
