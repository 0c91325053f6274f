//! The decisions taken when a file is published as a stream: the metadata
//! announced first, and the order in which segments go out.
use vstd::prelude::*;
use crate::bytes_be::{u32_bytes, HANDLER_SOUN, HANDLER_VIDE};
use crate::media::mp4_parser::{find_track, Mp4Parser};
use crate::media::segment::{MediaType, StreamSegment};
use crate::media::stream_chunk::StreamMetadata;

verus! {

/// Error of publishing a stream.
#[derive(Debug)]
pub enum PublisherError {
    /// The media could not be read or cut into segments.
    Media(String),
}

impl PublisherError {
    /// The error as text: `Media error: ` and its message.
    pub fn to_string(&self) -> (r: String)
        ensures
            match self {
                PublisherError::Media(m) => r@ == "Media error: "@ + m@,
            },
    {
        match self {
            PublisherError::Media(m) => {
                let mut s = String::from_str("Media error: ");
                s.append(m.as_str());
                s
            },
        }
    }
}

/// The metadata announced before a parsed file's segments: the file name
/// as title (`Unknown` without one), 1920x1080 when there is a video track
/// (0x0 without), 30 frames per second, the first audio track's timescale
/// as sample rate (48000 without one), two channels, and the first video
/// and audio tracks' codec names (`h264` and `aac` without them).
pub fn publisher_metadata(parser: &Mp4Parser, file_name: Option<String>) -> (r: StreamMetadata)
    ensures
        r.title@ == match file_name {
            Some(n) => n@,
            None => "Unknown"@,
        },
        ({
            let v = find_track(parser.tracks_view(), u32_bytes(HANDLER_VIDE), 0);
            let a = find_track(parser.tracks_view(), u32_bytes(HANDLER_SOUN), 0);
            &&& r.video_width == (if v is Some { 1920u32 } else { 0u32 })
            &&& r.video_height == (if v is Some { 1080u32 } else { 0u32 })
            &&& r.video_fps == 30
            &&& r.audio_sample_rate == match a {
                Some(i) => parser.tracks_view()[i].timescale,
                None => 48000u32,
            }
            &&& r.audio_channels == 2
            &&& r.video_codec@ == match v {
                Some(i) => parser.tracks_view()[i].codec.0,
                None => "h264"@,
            }
            &&& r.audio_codec@ == match a {
                Some(i) => parser.tracks_view()[i].codec.0,
                None => "aac"@,
            }
        }),
{
    let tracks = parser.get_tracks();
    let title = match file_name {
        Some(n) => n,
        None => String::from_str("Unknown"),
    };
    let (video_width, video_height, video_codec) = match parser.find_track_index(HANDLER_VIDE) {
        Some(i) => {
            assert(parser.tracks_view()[i as int] == tracks@[i as int]@);
            (1920u32, 1080u32, tracks[i].codec.clone())
        },
        None => (0u32, 0u32, String::from_str("h264")),
    };
    let (audio_sample_rate, audio_codec) = match parser.find_track_index(HANDLER_SOUN) {
        Some(i) => {
            assert(parser.tracks_view()[i as int] == tracks@[i as int]@);
            (tracks[i].timescale, tracks[i].codec.clone())
        },
        None => (48000u32, String::from_str("aac")),
    };
    StreamMetadata {
        title,
        video_width,
        video_height,
        video_fps: 30,
        audio_sample_rate,
        audio_channels: 2,
        video_codec,
        audio_codec,
    }
}

/// Among the first `k` segments, in order, those that are (`init` set) or
/// are not initialization segments.
pub open spec fn segments_where(s: Seq<StreamSegment>, init: bool, k: int) -> Seq<StreamSegment>
    decreases k,
{
    if k <= 0 {
        Seq::empty()
    } else if (s[k - 1].media_type == MediaType::Initialization) == init {
        segments_where(s, init, k - 1).push(s[k - 1])
    } else {
        segments_where(s, init, k - 1)
    }
}

/// The order in which a file's segments are published: its initialization
/// segments first, then its media segments, each kept in their order. An
/// error when there is no segment at all.
pub fn publish_order(segments: Vec<StreamSegment>) -> (r: Result<
    (Vec<StreamSegment>, Vec<StreamSegment>),
    PublisherError,
>)
    ensures
        segments@.len() == 0 ==> (r matches Err(PublisherError::Media(m)) && m@ == "No segments generated"@),
        segments@.len() > 0 ==> (r matches Ok(p) && p.0@ == segments_where(segments@, true, segments@.len() as int)
            && p.1@ == segments_where(segments@, false, segments@.len() as int)),
{
    if segments.len() == 0 {
        return Err(PublisherError::Media(String::from_str("No segments generated")));
    }
    let ghost all = segments@;
    let n = segments.len();
    let mut rest = segments;
    let mut init: Vec<StreamSegment> = Vec::new();
    let mut media: Vec<StreamSegment> = Vec::new();
    let mut i: usize = 0;
    while i < n
        invariant
            n == all.len(),
            i <= n,
            rest@ == all.subrange(i as int, n as int),
            init@ == segments_where(all, true, i as int),
            media@ == segments_where(all, false, i as int),
        decreases n - i,
    {
        let seg = rest.remove(0);
        assert(seg == all[i as int]);
        if seg.media_type == MediaType::Initialization {
            init.push(seg);
        } else {
            media.push(seg);
        }
        i = i + 1;
        assert(rest@ =~= all.subrange(i as int, n as int));
    }
    Ok((init, media))
}

} // verus!
