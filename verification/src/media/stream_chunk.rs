//! Media chunks: the earlier unit of streamed media, numbered per kind and
//! stamped with the time they were made.
use vstd::prelude::*;
use crate::clock::unix_time_micros;
use crate::media::segment::{random_u64, stream_name};
use crate::text::push_decimal;

verus! {

/// Stream identifier by name.
#[derive(Debug, Clone, PartialEq, Eq, Hash)]
pub struct StreamId(pub String);

impl StreamId {
    /// A stream id with this name.
    pub fn new(id: String) -> (r: StreamId)
        ensures
            r.0@ == id@,
    {
        StreamId(id)
    }

    /// A random stream id: `stream_` and a random number.
    pub fn generate() -> (r: StreamId)
        ensures
            exists|n: u64| r.0@ == #[trigger] stream_name(n),
    {
        let n = random_u64();
        let mut name = String::from_str("stream_");
        push_decimal(&mut name, n);
        assert(name@ == stream_name(n));
        StreamId(name)
    }

    /// The name.
    pub fn as_str(&self) -> (r: &str)
        ensures
            r@ == self.0@,
    {
        self.0.as_str()
    }

    /// The name, as it is printed.
    pub fn to_string(&self) -> (r: String)
        ensures
            r@ == self.0@,
    {
        String::from_str(self.0.as_str())
    }
}

/// Kind of a chunk.
#[derive(Debug, Clone, Copy, PartialEq, Eq, Structural)]
pub enum ChunkType {
    /// Video frame.
    Video,
    /// Audio samples.
    Audio,
    /// Stream metadata.
    Metadata,
}

/// A chunk of media.
#[derive(Debug, Clone)]
pub struct MediaChunk {
    /// Stream the chunk belongs to.
    pub stream_id: StreamId,
    /// Sequence number within its kind.
    pub sequence: u64,
    /// When the chunk was made, in milliseconds since the Unix epoch.
    pub timestamp: u64,
    /// Kind of chunk.
    pub chunk_type: ChunkType,
    /// The media data.
    pub data: Vec<u8>,
    /// Duration in milliseconds.
    pub duration_ms: u64,
    /// Whether this is a key frame.
    pub is_keyframe: bool,
}

/// Milliseconds since the Unix epoch, from the system clock.
fn current_timestamp_ms() -> u64 {
    unix_time_micros() / 1000
}

impl MediaChunk {
    /// A video chunk stamped with the current time.
    pub fn new_video(stream_id: StreamId, sequence: u64, data: Vec<u8>, duration_ms: u64, is_keyframe: bool) -> (r:
        MediaChunk)
        ensures
            r.stream_id == stream_id,
            r.sequence == sequence,
            r.chunk_type == ChunkType::Video,
            r.data@ == data@,
            r.duration_ms == duration_ms,
            r.is_keyframe == is_keyframe,
    {
        MediaChunk {
            stream_id,
            sequence,
            timestamp: current_timestamp_ms(),
            chunk_type: ChunkType::Video,
            data,
            duration_ms,
            is_keyframe,
        }
    }

    /// An audio chunk stamped with the current time; never a key frame.
    pub fn new_audio(stream_id: StreamId, sequence: u64, data: Vec<u8>, duration_ms: u64) -> (r: MediaChunk)
        ensures
            r.stream_id == stream_id,
            r.sequence == sequence,
            r.chunk_type == ChunkType::Audio,
            r.data@ == data@,
            r.duration_ms == duration_ms,
            !r.is_keyframe,
    {
        MediaChunk {
            stream_id,
            sequence,
            timestamp: current_timestamp_ms(),
            chunk_type: ChunkType::Audio,
            data,
            duration_ms,
            is_keyframe: false,
        }
    }

    /// A metadata chunk holding already encoded metadata, stamped with the
    /// current time.
    pub fn new_metadata(stream_id: StreamId, sequence: u64, data: Vec<u8>) -> (r: MediaChunk)
        ensures
            r.stream_id == stream_id,
            r.sequence == sequence,
            r.chunk_type == ChunkType::Metadata,
            r.data@ == data@,
            r.duration_ms == 0,
            !r.is_keyframe,
    {
        MediaChunk {
            stream_id,
            sequence,
            timestamp: current_timestamp_ms(),
            chunk_type: ChunkType::Metadata,
            data,
            duration_ms: 0,
            is_keyframe: false,
        }
    }

    /// Size of the data in bytes.
    pub fn size(&self) -> (r: usize)
        ensures
            r == self.data@.len(),
    {
        self.data.len()
    }
}

/// Stream metadata carried in metadata chunks.
#[derive(Debug, Clone)]
pub struct StreamMetadata {
    pub title: String,
    pub video_width: u32,
    pub video_height: u32,
    pub video_fps: u32,
    pub audio_sample_rate: u32,
    pub audio_channels: u16,
    pub video_codec: String,
    pub audio_codec: String,
}

impl StreamMetadata {
    /// Metadata of an OpenH264 + Opus stream.
    pub fn new_h264_opus(
        title: String,
        video_width: u32,
        video_height: u32,
        video_fps: u32,
        audio_sample_rate: u32,
        audio_channels: u16,
    ) -> (r: StreamMetadata)
        ensures
            r.title@ == title@,
            r.video_width == video_width,
            r.video_height == video_height,
            r.video_fps == video_fps,
            r.audio_sample_rate == audio_sample_rate,
            r.audio_channels == audio_channels,
            r.video_codec@ == "openh264"@,
            r.audio_codec@ == "opus"@,
    {
        StreamMetadata {
            title,
            video_width,
            video_height,
            video_fps,
            audio_sample_rate,
            audio_channels,
            video_codec: String::from_str("openh264"),
            audio_codec: String::from_str("opus"),
        }
    }
}

/// Numbers the video and audio chunks of a stream.
pub struct ChunkBuilder {
    stream_id: StreamId,
    video_sequence: u64,
    audio_sequence: u64,
}

impl ChunkBuilder {
    /// The stream's name.
    pub closed spec fn stream(&self) -> Seq<char> {
        self.stream_id.0@
    }

    /// Next video sequence number.
    pub closed spec fn video_seq(&self) -> u64 {
        self.video_sequence
    }

    /// Next audio sequence number.
    pub closed spec fn audio_seq(&self) -> u64 {
        self.audio_sequence
    }

    /// A builder whose sequences start at 0.
    pub fn new(stream_id: StreamId) -> (r: ChunkBuilder)
        ensures
            r.stream() == stream_id.0@,
            r.video_seq() == 0,
            r.audio_seq() == 0,
    {
        ChunkBuilder { stream_id, video_sequence: 0, audio_sequence: 0 }
    }

    /// The next video chunk.
    pub fn next_video_chunk(&mut self, data: Vec<u8>, duration_ms: u64, is_keyframe: bool) -> (r: MediaChunk)
        requires
            old(self).video_seq() < u64::MAX,
        ensures
            r.sequence == old(self).video_seq(),
            r.stream_id.0@ == old(self).stream(),
            r.chunk_type == ChunkType::Video,
            r.data@ == data@,
            r.duration_ms == duration_ms,
            r.is_keyframe == is_keyframe,
            final(self).video_seq() == old(self).video_seq() + 1,
            final(self).audio_seq() == old(self).audio_seq(),
            final(self).stream() == old(self).stream(),
    {
        let id = StreamId(String::from_str(self.stream_id.0.as_str()));
        let chunk = MediaChunk::new_video(id, self.video_sequence, data, duration_ms, is_keyframe);
        self.video_sequence = self.video_sequence + 1;
        chunk
    }

    /// The next audio chunk.
    pub fn next_audio_chunk(&mut self, data: Vec<u8>, duration_ms: u64) -> (r: MediaChunk)
        requires
            old(self).audio_seq() < u64::MAX,
        ensures
            r.sequence == old(self).audio_seq(),
            r.stream_id.0@ == old(self).stream(),
            r.chunk_type == ChunkType::Audio,
            r.data@ == data@,
            r.duration_ms == duration_ms,
            !r.is_keyframe,
            final(self).video_seq() == old(self).video_seq(),
            final(self).audio_seq() == old(self).audio_seq() + 1,
            final(self).stream() == old(self).stream(),
    {
        let id = StreamId(String::from_str(self.stream_id.0.as_str()));
        let chunk = MediaChunk::new_audio(id, self.audio_sequence, data, duration_ms);
        self.audio_sequence = self.audio_sequence + 1;
        chunk
    }

    /// A metadata chunk (sequence 0) holding already encoded metadata.
    pub fn metadata_chunk(&self, data: Vec<u8>) -> (r: MediaChunk)
        ensures
            r.sequence == 0,
            r.stream_id.0@ == self.stream(),
            r.chunk_type == ChunkType::Metadata,
            r.data@ == data@,
    {
        let id = StreamId(String::from_str(self.stream_id.0.as_str()));
        MediaChunk::new_metadata(id, 0, data)
    }
}

} // verus!
