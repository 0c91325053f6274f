//! Media samples and track information from a video file, and the script
//! that prepares a sample video.
use vstd::prelude::*;
use crate::bytes_be::{push_all, push_u32, u32_bytes, BOX_MDAT, BOX_MFHD, BOX_MOOF};

verus! {

/// A media sample (video frame or audio frame).
#[derive(Debug, Clone)]
pub struct MediaSample {
    /// The sample's data.
    pub data: Vec<u8>,
    /// Presentation time, in microseconds.
    pub timestamp: u64,
    /// Duration, in microseconds.
    pub duration: u64,
    /// Key frame for video; always set for audio.
    pub is_sync: bool,
    /// Track the sample belongs to.
    pub track_id: u32,
}

/// A sample as values.
pub struct SampleView {
    pub data: Seq<u8>,
    pub timestamp: u64,
    pub duration: u64,
    pub is_sync: bool,
    pub track_id: u32,
}

impl View for MediaSample {
    type V = SampleView;

    open spec fn view(&self) -> SampleView {
        SampleView {
            data: self.data@,
            timestamp: self.timestamp,
            duration: self.duration,
            is_sync: self.is_sync,
            track_id: self.track_id,
        }
    }
}

/// Information about an audio track.
#[derive(Debug, Clone)]
pub struct AudioTrackInfo {
    pub track_id: u32,
    pub codec: String,
    pub sample_rate: u32,
    pub channels: u16,
    /// Duration, in microseconds.
    pub duration: u64,
    pub bitrate: u32,
}

/// The text of the preparation script.
pub const SAMPLE_VIDEO_SCRIPT: &'static str = "#!/bin/bash
# Script to prepare a sample video for OpenBroadcastNetwork streaming
# This converts any video to a format suitable for MSE streaming

INPUT_VIDEO=\"$1\"
OUTPUT_VIDEO=\"sample_video.mp4\"

if [ -z \"$INPUT_VIDEO\" ]; then
    echo \"Usage: $0 <input_video_file>\"
    echo \"Example: $0 my_video.mov\"
    exit 1
fi

echo \"Converting $INPUT_VIDEO to MSE-compatible format...\"

# Convert to H.264/AAC MP4 with proper settings for MSE
ffmpeg -i \"$INPUT_VIDEO\" \\
    -c:v libx264 \\
    -profile:v baseline \\
    -level 3.0 \\
    -pix_fmt yuv420p \\
    -c:a aac \\
    -ar 48000 \\
    -ac 2 \\
    -movflags +faststart \\
    -f mp4 \\
    -t 10 \\
    \"$OUTPUT_VIDEO\"

if [ $? -eq 0 ]; then
    echo \"\u{2705} Successfully created $OUTPUT_VIDEO\"
    echo \"Video info:\"
    ffprobe -v quiet -show_format -show_streams \"$OUTPUT_VIDEO\"
else
    echo \"\u{274c} Failed to convert video\"
    exit 1
fi
";

/// A shell script that converts a video into an MP4 fit for MSE streaming
/// (H.264 Baseline, AAC, fast start) with ffmpeg.
pub fn create_sample_video_script() -> (r: String)
    ensures
        r@ == SAMPLE_VIDEO_SCRIPT@,
{
    String::from_str(SAMPLE_VIDEO_SCRIPT)
}

/// Size of the pieces of a file that samples are cut from.
pub const READ_CHUNK: usize = 4096;

/// How long a file is taken to play (microseconds).
pub const FILE_DURATION_US: u64 = 30_000_000;

/// Number of frames of `frame_duration` that start before `duration`.
pub open spec fn frame_count(duration: u64, frame_duration: u64) -> int {
    (duration + frame_duration - 1) / (frame_duration as int)
}

/// The piece of the file for frame `k`: 4 KiB from `k` times 4 KiB, taken
/// around the file's length, cut at its end.
pub open spec fn frame_chunk(data: Seq<u8>, k: int) -> Seq<u8> {
    let start = (k * READ_CHUNK) % (data.len() as int);
    let end = if start + READ_CHUNK < data.len() {
        start + READ_CHUNK
    } else {
        data.len() as int
    };
    data.subrange(start, end)
}

/// Frame `k` of a file: its piece, at `k` frame durations, a key frame
/// every 30 frames, on track 0.
pub open spec fn frame_sample(data: Seq<u8>, k: int, frame_duration: u64) -> SampleView {
    SampleView {
        data: frame_chunk(data, k),
        timestamp: (k * frame_duration) as u64,
        duration: frame_duration,
        is_sync: k % 30 == 0,
        track_id: 0,
    }
}

/// The views of some samples.
pub open spec fn sample_views(v: Seq<MediaSample>) -> Seq<SampleView> {
    v.map_values(|s: MediaSample| s@)
}

/// The initialization segment put before key frames: an `ftyp` (brand
/// isom) and a `moov` holding only an `mvhd` (1000 units per second, 10 s).
pub open spec fn reader_init_segment() -> Seq<u8> {
    seq![
        0x00u8, 0x00, 0x00, 0x18, 0x66, 0x74, 0x79, 0x70, 0x69, 0x73, 0x6f, 0x6d, 0x00, 0x00, 0x02, 0x00,
        0x69, 0x73, 0x6f, 0x6d,
        0x00, 0x00, 0x00, 0x28, 0x6d, 0x6f, 0x6f, 0x76,
        0x00, 0x00, 0x00, 0x20, 0x6d, 0x76, 0x68, 0x64,
        0x00, 0x00, 0x00, 0x00, 0x00, 0x00, 0x00, 0x00, 0x00, 0x00, 0x00, 0x00,
        0x00, 0x00, 0x03, 0xE8, 0x00, 0x00, 0x27, 0x10, 0x00, 0x01, 0x00, 0x00,
    ]
}

/// The H.264 data of a sample: a start code, an IDR or P slice header,
/// then the sample's data.
pub open spec fn h264_payload(sample: SampleView) -> Seq<u8> {
    seq![0u8, 0, 0, 1, if sample.is_sync { 0x65u8 } else { 0x41u8 }] + sample.data
}

/// The media segment of a sample: a `moof` whose size counts the payload
/// (cut to 32 bits) and that holds an `mfhd` of fragment 1, then the
/// payload in an `mdat`.
pub open spec fn reader_media_segment(payload: Seq<u8>) -> Seq<u8> {
    let low = payload.len() % 0x1_0000_0000;
    u32_bytes((16 + low) as u32) + u32_bytes(BOX_MOOF) + u32_bytes(16) + u32_bytes(BOX_MFHD) + u32_bytes(0)
        + u32_bytes(1) + u32_bytes((8 + low) as u32) + u32_bytes(BOX_MDAT) + payload
}

/// Reads a file held in memory as synthetic samples of H.264 video.
pub struct VideoReader {
    audio_track: Option<AudioTrackInfo>,
    file_duration: u64,
    file_data: Vec<u8>,
}

impl VideoReader {
    /// The bytes of the file.
    pub closed spec fn contents(&self) -> Seq<u8> {
        self.file_data@
    }

    /// How long the file is taken to play (microseconds).
    pub closed spec fn play_time(&self) -> u64 {
        self.file_duration
    }

    /// A reader of the bytes of a file, taken to play for 30 seconds,
    /// with no audio track.
    pub fn new(file_data: Vec<u8>) -> (r: Self)
        ensures
            r.contents() == file_data@,
            r.play_time() == FILE_DURATION_US,
    {
        VideoReader { audio_track: None, file_duration: FILE_DURATION_US, file_data }
    }

    /// The audio track: there is none.
    pub fn audio_track(&self) -> (r: Option<&AudioTrackInfo>)
        ensures
            r is None,
    {
        None
    }

    /// How long the file is taken to play (microseconds).
    pub fn duration(&self) -> (r: u64)
        ensures
            r == self.play_time(),
    {
        self.file_duration
    }

    /// One sample per frame of `frame_duration` microseconds that starts
    /// within the play time; frame `k` holds the file's piece for `k`.
    pub fn read_all_samples(&self, frame_duration: u64) -> (r: Vec<MediaSample>)
        requires
            self.contents().len() > 0,
            frame_duration > 0,
            self.play_time() + frame_duration <= u64::MAX,
        ensures
            sample_views(r@) == Seq::new(
                frame_count(self.play_time(), frame_duration) as nat,
                |k: int| frame_sample(self.contents(), k, frame_duration),
            ),
    {
        let ghost data = self.file_data@;
        let ghost dur = self.file_duration;
        let len = self.file_data.len();
        let mut samples: Vec<MediaSample> = Vec::new();
        let mut current: u64 = 0;
        let mut frame: u64 = 0;
        let mut start: usize = 0;
        proof {
            vstd::arithmetic::div_mod::lemma_small_mod(0, len as nat);
        }
        while current < self.file_duration
            invariant
                data == self.file_data@,
                dur == self.file_duration,
                len == data.len(),
                len > 0,
                frame_duration > 0,
                dur + frame_duration <= u64::MAX,
                current == frame * frame_duration,
                frame == 0 || (frame - 1) * frame_duration < dur,
                start == (frame * READ_CHUNK) % (len as int),
                frame <= current,
                sample_views(samples@) == Seq::new(
                    frame as nat,
                    |k: int| frame_sample(data, k, frame_duration),
                ),
            decreases dur + frame_duration - current,
        {
            let end = if len - start > READ_CHUNK {
                start + READ_CHUNK
            } else {
                len
            };
            let chunk = crate::bytes_be::copy_range(self.file_data.as_slice(), start, end);
            let sample = MediaSample {
                data: chunk,
                timestamp: current,
                duration: frame_duration,
                is_sync: frame % 30 == 0,
                track_id: 0,
            };
            let ghost before = sample_views(samples@);
            proof {
                assert(sample@ == frame_sample(data, frame as int, frame_duration));
            }
            samples.push(sample);
            proof {
                let f = |k: int| frame_sample(data, k, frame_duration);
                assert(sample_views(samples@) =~= before.push(sample@));
                assert(Seq::new((frame + 1) as nat, f) =~= Seq::new(frame as nat, f).push(f(frame as int)));
                vstd::arithmetic::div_mod::lemma_add_mod_noop_right(READ_CHUNK as int, frame * READ_CHUNK, len as int);
                assert(READ_CHUNK + frame * READ_CHUNK == (frame + 1) * READ_CHUNK) by (nonlinear_arith);
                vstd::arithmetic::div_mod::lemma_mod_bound(READ_CHUNK as int, len as int);
                assert((frame + 1) * frame_duration == frame * frame_duration + frame_duration) by (nonlinear_arith);
                assert(frame + 1 <= (frame + 1) * frame_duration) by (nonlinear_arith)
                    requires
                        frame_duration >= 1,
                ;
            }
            start = ((start as u128 + READ_CHUNK as u128) % (len as u128)) as usize;
            current = current + frame_duration;
            frame = frame + 1;
        }
        proof {
            lemma_frame_count(dur, frame_duration, frame as int);
        }
        samples
    }

    /// A sample as MP4 for MSE: the initialization segment before a key
    /// frame, then the media segment of its H.264 data.
    pub fn prepare_h264_sample(&self, sample: &MediaSample) -> (r: Vec<u8>)
        requires
            (sample.data@.len() + 5) % 0x1_0000_0000 + 16 <= u32::MAX,
        ensures
            r@ == (if sample.is_sync {
                reader_init_segment()
            } else {
                Seq::empty()
            }) + reader_media_segment(h264_payload(sample@)),
    {
        let mut segment: Vec<u8> = Vec::new();
        if sample.is_sync {
            let init = self.generate_init_segment();
            push_all(&mut segment, init.as_slice());
        }
        let media = self.generate_media_segment(sample);
        push_all(&mut segment, media.as_slice());
        assert(segment@ =~= (if sample.is_sync {
            reader_init_segment()
        } else {
            Seq::empty()
        }) + reader_media_segment(h264_payload(sample@)));
        segment
    }

    /// The initialization segment put before key frames.
    fn generate_init_segment(&self) -> (r: Vec<u8>)
        ensures
            r@ == reader_init_segment(),
    {
        let r: Vec<u8> = vec![
            0x00u8, 0x00, 0x00, 0x18, 0x66, 0x74, 0x79, 0x70, 0x69, 0x73, 0x6f, 0x6d, 0x00, 0x00, 0x02, 0x00,
            0x69, 0x73, 0x6f, 0x6d,
            0x00, 0x00, 0x00, 0x28, 0x6d, 0x6f, 0x6f, 0x76,
            0x00, 0x00, 0x00, 0x20, 0x6d, 0x76, 0x68, 0x64,
            0x00, 0x00, 0x00, 0x00, 0x00, 0x00, 0x00, 0x00, 0x00, 0x00, 0x00, 0x00,
            0x00, 0x00, 0x03, 0xE8, 0x00, 0x00, 0x27, 0x10, 0x00, 0x01, 0x00, 0x00,
        ];
        assert(r@ =~= reader_init_segment());
        r
    }

    /// The media segment of a sample.
    fn generate_media_segment(&self, sample: &MediaSample) -> (r: Vec<u8>)
        requires
            (sample.data@.len() + 5) % 0x1_0000_0000 + 16 <= u32::MAX,
        ensures
            r@ == reader_media_segment(h264_payload(sample@)),
    {
        let mut payload: Vec<u8> = vec![0x00u8, 0x00, 0x00, 0x01];
        if sample.is_sync {
            payload.push(0x65);
        } else {
            payload.push(0x41);
        }
        push_all(&mut payload, sample.data.as_slice());
        assert(payload@ =~= h264_payload(sample@));
        let low = (payload.len() as u64 % 0x1_0000_0000) as u32;
        let mut segment: Vec<u8> = Vec::new();
        push_u32(&mut segment, 16 + low);
        push_u32(&mut segment, BOX_MOOF);
        push_u32(&mut segment, 16);
        push_u32(&mut segment, BOX_MFHD);
        push_u32(&mut segment, 0);
        push_u32(&mut segment, 1);
        push_u32(&mut segment, 8 + low);
        push_u32(&mut segment, BOX_MDAT);
        push_all(&mut segment, payload.as_slice());
        assert(segment@ =~= reader_media_segment(h264_payload(sample@)));
        segment
    }

    /// An audio sample as it is sent: its data unchanged.
    pub fn prepare_audio_sample(&self, sample: &MediaSample) -> (r: Vec<u8>)
        ensures
            r@ == sample.data@,
    {
        crate::bytes_be::copy_range(sample.data.as_slice(), 0, sample.data.len())
    }
}

/// The number of frames read is the number that start within the play
/// time.
proof fn lemma_frame_count(dur: u64, fd: u64, n: int)
    requires
        fd > 0,
        n >= 0,
        n * fd >= dur,
        n == 0 || (n - 1) * fd < dur,
    ensures
        n == frame_count(dur, fd),
{
    if n == 0 {
        assert(dur == 0);
        assert((fd - 1) / (fd as int) == 0) by (nonlinear_arith)
            requires
                fd > 0,
        ;
    } else {
        assert((dur + fd - 1) / (fd as int) == n) by (nonlinear_arith)
            requires
                fd > 0,
                n >= 1,
                n * fd >= dur,
                (n - 1) * fd < dur,
        ;
    }
}

} // verus!
