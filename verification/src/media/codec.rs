//! Media codecs: errors, the codec interface, and the parts of the Opus
//! and OpenH264 codecs that work on plain values.
use vstd::prelude::*;
use crate::bytes_be::{copy_range, push_all};
use crate::text::{decimal, push_decimal};
use openh264::decoder::Decoder as H264Decoder;
use openh264::encoder::Encoder as H264Encoder;
use openh264::encoder::{EncoderConfig as H264EncoderConfig, RateControlMode};
use openh264::formats::{YUVBuffer, YUVSource};

verus! {

/// Why a codec operation failed.
#[derive(Debug)]
pub enum CodecError {
    /// The OpenH264 library failed.
    OpenH264Error(String),
    /// The Opus library failed.
    OpusError(String),
    /// Another codec error.
    General(String),
    /// The codec could not be set up.
    InitializationFailed(String),
    /// Encoding failed.
    EncodingFailed(String),
    /// Decoding failed.
    DecodingFailed(String),
    /// The format is not supported.
    UnsupportedFormat(String),
    /// The parameters are not valid.
    InvalidParameters(String),
}

/// The message of a codec error.
pub open spec fn codec_error_text(e: CodecError) -> Seq<char> {
    match e {
        CodecError::OpenH264Error(m) => "OpenH264 error: "@ + m@,
        CodecError::OpusError(m) => "Opus error: "@ + m@,
        CodecError::General(m) => "Codec error: "@ + m@,
        CodecError::InitializationFailed(m) => "Initialization failed: "@ + m@,
        CodecError::EncodingFailed(m) => "Encoding failed: "@ + m@,
        CodecError::DecodingFailed(m) => "Decoding failed: "@ + m@,
        CodecError::UnsupportedFormat(m) => "Unsupported format: "@ + m@,
        CodecError::InvalidParameters(m) => "Invalid parameters: "@ + m@,
    }
}

impl CodecError {
    /// The message of the error.
    pub fn to_string(&self) -> (r: String)
        ensures
            r@ == codec_error_text(*self),
    {
        let (head, m) = match self {
            CodecError::OpenH264Error(m) => ("OpenH264 error: ", m),
            CodecError::OpusError(m) => ("Opus error: ", m),
            CodecError::General(m) => ("Codec error: ", m),
            CodecError::InitializationFailed(m) => ("Initialization failed: ", m),
            CodecError::EncodingFailed(m) => ("Encoding failed: ", m),
            CodecError::DecodingFailed(m) => ("Decoding failed: ", m),
            CodecError::UnsupportedFormat(m) => ("Unsupported format: ", m),
            CodecError::InvalidParameters(m) => ("Invalid parameters: ", m),
        };
        let mut s = String::from_str(head);
        s.append(m.as_str());
        s
    }
}

impl From<&str> for CodecError {
    fn from(err: &str) -> (r: CodecError)
        ensures
            r matches CodecError::General(m) && m@ == err@,
    {
        CodecError::General(String::from_str(err))
    }
}

impl From<String> for CodecError {
    fn from(err: String) -> (r: CodecError)
        ensures
            r matches CodecError::General(m) && m == err,
    {
        CodecError::General(err)
    }
}

impl vstd::std_specs::convert::FromSpecImpl<&str> for CodecError {
    open spec fn obeys_from_spec() -> bool {
        false
    }

    open spec fn from_spec(err: &str) -> CodecError {
        arbitrary()
    }
}

impl vstd::std_specs::convert::FromSpecImpl<String> for CodecError {
    open spec fn obeys_from_spec() -> bool {
        false
    }

    open spec fn from_spec(err: String) -> CodecError {
        arbitrary()
    }
}

/// A media codec.
pub trait Codec {
    /// The name the codec is registered under.
    fn name(&self) -> &'static str;

    /// The MIME type of the codec.
    fn mime_type(&self) -> &'static str;

    /// Encode a frame.
    fn encode(&mut self, frame: &[u8]) -> Result<Vec<u8>, CodecError>;

    /// Decode a frame.
    fn decode(&mut self, data: &[u8]) -> Result<Vec<u8>, CodecError>;
}

/// A codec kept for compatibility: named `audio`, it encodes and decodes
/// nothing.
#[derive(Debug, Default)]
pub struct AudioCodec {}

impl Codec for AudioCodec {
    fn name(&self) -> (r: &'static str)
        ensures
            r@ == "audio"@,
    {
        "audio"
    }

    fn mime_type(&self) -> (r: &'static str)
        ensures
            r@ == "audio/raw"@,
    {
        "audio/raw"
    }

    fn encode(&mut self, frame: &[u8]) -> (r: Result<Vec<u8>, CodecError>)
        ensures
            r matches Err(CodecError::General(m)) && m@ == "Use OpusCodec instead"@,
    {
        Err(CodecError::General(String::from_str("Use OpusCodec instead")))
    }

    fn decode(&mut self, data: &[u8]) -> (r: Result<Vec<u8>, CodecError>)
        ensures
            r matches Err(CodecError::General(m)) && m@ == "Use OpusCodec instead"@,
    {
        Err(CodecError::General(String::from_str("Use OpusCodec instead")))
    }
}

/// A codec kept for compatibility: named `video`, it encodes and decodes
/// nothing.
#[derive(Debug, Default)]
pub struct VideoCodec {}

impl Codec for VideoCodec {
    fn name(&self) -> (r: &'static str)
        ensures
            r@ == "video"@,
    {
        "video"
    }

    fn mime_type(&self) -> (r: &'static str)
        ensures
            r@ == "video/raw"@,
    {
        "video/raw"
    }

    fn encode(&mut self, frame: &[u8]) -> (r: Result<Vec<u8>, CodecError>)
        ensures
            r matches Err(CodecError::General(m)) && m@ == "Use H264Codec instead"@,
    {
        Err(CodecError::General(String::from_str("Use H264Codec instead")))
    }

    fn decode(&mut self, data: &[u8]) -> (r: Result<Vec<u8>, CodecError>)
        ensures
            r matches Err(CodecError::General(m)) && m@ == "Use H264Codec instead"@,
    {
        Err(CodecError::General(String::from_str("Use H264Codec instead")))
    }
}

/// A 16-bit sample from its two bytes, low byte first.
pub open spec fn le_i16(lo: u8, hi: u8) -> i16 {
    let v = lo + 256 * hi;
    (if v >= 32768 {
        v - 65536
    } else {
        v
    }) as i16
}

/// The samples of 16-bit PCM: two bytes each, low byte first.
pub open spec fn pcm_samples(b: Seq<u8>) -> Seq<i16> {
    Seq::new(b.len() / 2, |i: int| le_i16(b[2 * i], b[2 * i + 1]))
}

/// The two bytes of a sample, low byte first.
pub open spec fn i16_le(s: i16) -> Seq<u8> {
    let u: int = if s < 0 {
        s + 65536
    } else {
        s as int
    };
    seq![(u % 256) as u8, (u / 256) as u8]
}

/// The bytes of some samples, two each, low byte first.
pub open spec fn pcm_bytes(s: Seq<i16>) -> Seq<u8>
    decreases s.len(),
{
    if s.len() == 0 {
        Seq::empty()
    } else {
        pcm_bytes(s.drop_last()) + i16_le(s.last())
    }
}

/// A sample written as two bytes reads back as those bytes.
proof fn lemma_le_i16_bytes(lo: u8, hi: u8)
    ensures
        i16_le(le_i16(lo, hi)) == seq![lo, hi],
{
    let v: int = lo + 256 * hi;
    let s = le_i16(lo, hi);
    assert(s as int == if v >= 32768 { v - 65536 } else { v });
    let u: int = if s < 0 { s + 65536 } else { s as int };
    assert(u == v);
    assert(u % 256 == lo as int);
    assert(u / 256 == hi as int);
}

/// Reading 16-bit PCM into samples and writing the samples back gives the
/// same bytes.
pub proof fn lemma_pcm_roundtrip(b: Seq<u8>)
    requires
        b.len() % 2 == 0,
    ensures
        pcm_bytes(pcm_samples(b)) == b,
    decreases b.len(),
{
    if b.len() == 0 {
        assert(pcm_samples(b) =~= Seq::<i16>::empty());
        assert(pcm_bytes(pcm_samples(b)) =~= b);
    } else {
        let n = b.len() as int;
        let front = b.subrange(0, n - 2);
        lemma_pcm_roundtrip(front);
        assert(pcm_samples(b).drop_last() =~= pcm_samples(front));
        lemma_le_i16_bytes(b[n - 2], b[n - 1]);
        assert(pcm_samples(b).last() == le_i16(b[n - 2], b[n - 1]));
        assert(pcm_bytes(pcm_samples(b)) =~= front + seq![b[n - 2], b[n - 1]]);
        assert(front + seq![b[n - 2], b[n - 1]] =~= b);
    }
}

/// The channel layouts the Opus encoder and decoder take.
#[derive(Debug, Clone, Copy, PartialEq, Eq)]
pub enum OpusChannels {
    Mono,
    Stereo,
}

/// Settings of the Opus audio codec: sample rate and channel count.
#[derive(Debug)]
pub struct OpusCodec {
    sample_rate: u32,
    channels: u16,
}

impl OpusCodec {
    /// The sample rate (Hz).
    pub closed spec fn rate(&self) -> u32 {
        self.sample_rate
    }

    /// The number of channels.
    pub closed spec fn channel_count(&self) -> u16 {
        self.channels
    }

    /// The codec at 48 kHz, stereo.
    pub fn new() -> (r: Self)
        ensures
            r.rate() == 48000,
            r.channel_count() == 2,
    {
        Self::with_params(48000, 2)
    }

    /// The codec at a sample rate and channel count.
    pub fn with_params(sample_rate: u32, channels: u16) -> (r: Self)
        ensures
            r.rate() == sample_rate,
            r.channel_count() == channels,
    {
        OpusCodec { sample_rate, channels }
    }

    /// The name the codec is registered under.
    pub fn name(&self) -> (r: &'static str)
        ensures
            r@ == "opus"@,
    {
        "opus"
    }

    /// The MIME type of the codec.
    pub fn mime_type(&self) -> (r: &'static str)
        ensures
            r@ == "audio/opus"@,
    {
        "audio/opus"
    }

    /// The sample rate (Hz).
    pub fn sample_rate(&self) -> (r: u32)
        ensures
            r == self.rate(),
    {
        self.sample_rate
    }

    /// The number of channels.
    pub fn channels(&self) -> (r: u16)
        ensures
            r == self.channel_count(),
    {
        self.channels
    }

    /// The layout handed to the encoder and decoder: one channel is mono,
    /// two are stereo; any other count is refused.
    pub fn channel_layout(&self) -> (r: Result<OpusChannels, CodecError>)
        ensures
            self.channel_count() == 1 ==> r == Ok::<OpusChannels, CodecError>(OpusChannels::Mono),
            self.channel_count() == 2 ==> r == Ok::<OpusChannels, CodecError>(OpusChannels::Stereo),
            self.channel_count() != 1 && self.channel_count() != 2 ==> (r matches Err(
                CodecError::InvalidParameters(m),
            ) && m@ == "Only mono and stereo supported"@),
    {
        if self.channels == 1 {
            Ok(OpusChannels::Mono)
        } else if self.channels == 2 {
            Ok(OpusChannels::Stereo)
        } else {
            Err(CodecError::InvalidParameters(String::from_str("Only mono and stereo supported")))
        }
    }

    /// Samples per channel in a 20 ms frame.
    pub fn frame_size(&self) -> (r: usize)
        ensures
            r == self.rate() / 50,
    {
        (self.sample_rate / 50) as usize
    }

    /// The samples of a frame of 16-bit PCM for the encoder, which takes
    /// `frame_size` samples per channel: refused when the frame has an odd
    /// number of bytes or another number of samples.
    pub fn frame_samples(&self, frame: &[u8], frame_size: usize) -> (r: Result<Vec<i16>, CodecError>)
        requires
            frame_size * self.channel_count() <= usize::MAX,
        ensures
            frame@.len() % 2 != 0 ==> (r matches Err(CodecError::InvalidParameters(m)) && m@
                == "Frame length must be even for 16-bit samples"@),
            frame@.len() % 2 == 0 && frame@.len() / 2 != frame_size * self.channel_count() ==> (r matches Err(
                CodecError::InvalidParameters(m),
            ) && m@ == "Expected "@ + decimal((frame_size * self.channel_count()) as nat) + " samples, got "@
                + decimal(frame@.len() / 2)),
            frame@.len() % 2 == 0 && frame@.len() / 2 == frame_size * self.channel_count() ==> (r matches Ok(v)
                && v@ == pcm_samples(frame@)),
    {
        if frame.len() % 2 != 0 {
            return Err(
                CodecError::InvalidParameters(String::from_str("Frame length must be even for 16-bit samples")),
            );
        }
        let n = frame.len() / 2;
        let mut samples: Vec<i16> = Vec::new();
        let mut i: usize = 0;
        while i < n
            invariant
                n == frame@.len() / 2,
                2 * n <= frame@.len(),
                frame@.len() <= usize::MAX,
                i <= n,
                samples@ =~= pcm_samples(frame@).take(i as int),
            decreases n - i,
        {
            let lo = frame[2 * i];
            let hi = frame[2 * i + 1];
            let v: u32 = lo as u32 + 256 * hi as u32;
            let s: i16 = if v >= 32768 {
                (v as i32 - 65536) as i16
            } else {
                v as i16
            };
            samples.push(s);
            i = i + 1;
        }
        let expected = frame_size * self.channels as usize;
        if n != expected {
            let mut m = String::from_str("Expected ");
            push_decimal(&mut m, expected as u64);
            m.append(" samples, got ");
            push_decimal(&mut m, n as u64);
            proof {
                assert(m@ =~= "Expected "@ + decimal((frame_size * self.channel_count()) as nat) + " samples, got "@
                    + decimal(frame@.len() / 2));
            }
            return Err(CodecError::InvalidParameters(m));
        }
        Ok(samples)
    }

    /// The 16-bit PCM bytes of the first `count` decoded samples.
    pub fn decoded_bytes(samples: &[i16], count: usize) -> (r: Vec<u8>)
        requires
            count <= samples@.len(),
        ensures
            r@ == pcm_bytes(samples@.take(count as int)),
    {
        let mut out: Vec<u8> = Vec::new();
        let mut i: usize = 0;
        while i < count
            invariant
                count <= samples@.len(),
                i <= count,
                out@ == pcm_bytes(samples@.take(i as int)),
            decreases count - i,
        {
            let s = samples[i];
            let u: u32 = if s < 0 {
                (s as i32 + 65536) as u32
            } else {
                s as u32
            };
            out.push((u % 256) as u8);
            out.push((u / 256) as u8);
            proof {
                assert(samples@.take(i + 1).drop_last() =~= samples@.take(i as int));
            }
            i = i + 1;
            proof {
                assert(out@ =~= pcm_bytes(samples@.take(i as int)));
            }
        }
        out
    }
}

/// An OpenH264 encoder.
#[verifier::external_type_specification]
#[verifier::external_body]
pub struct ExH264Encoder(H264Encoder);

/// An OpenH264 decoder.
#[verifier::external_type_specification]
#[verifier::external_body]
pub struct ExH264Decoder(H264Decoder);

/// A YUV picture for the OpenH264 encoder.
#[verifier::external_type_specification]
#[verifier::external_body]
pub struct ExYUVBuffer(YUVBuffer);

/// Calls `Decoder::new`, the error given as its debug text.
#[verifier::external_body]
fn new_h264_decoder() -> (r: Result<H264Decoder, String>) {
    match H264Decoder::new() {
        Ok(d) => Ok(d),
        Err(e) => Err(format!("{:?}", e)),
    }
}

/// Calls `Decoder::decode` on a packet; a picture comes back as its Y, U
/// and V planes, the error as its debug text. What comes back depends on
/// the decoder's state and is not stated.
#[verifier::external_body]
fn h264_decode(decoder: &mut H264Decoder, packet: &[u8]) -> (r: Result<Option<(Vec<u8>, Vec<u8>, Vec<u8>)>, String>) {
    match decoder.decode(packet) {
        Ok(Some(yuv)) => Ok(Some((yuv.y().to_vec(), yuv.u().to_vec(), yuv.v().to_vec()))),
        Ok(None) => Ok(None),
        Err(e) => Err(format!("{:?}", e)),
    }
}

/// Target bitrate of the H.264 encoder (bits per second).
pub const H264_BITRATE_BPS: u32 = 2_000_000;

/// Highest frame rate the H.264 encoder is set up for.
pub const H264_MAX_FPS: u16 = 30;

/// An OpenH264 encoder with the picture size it was set up for.
pub struct SizedH264Encoder {
    encoder: H264Encoder,
    width: u32,
    height: u32,
}

impl SizedH264Encoder {
    /// The width of the pictures the encoder takes.
    pub closed spec fn picture_width(&self) -> u32 {
        self.width
    }

    /// The height of the pictures the encoder takes.
    pub closed spec fn picture_height(&self) -> u32 {
        self.height
    }
}

/// A YUV picture with its size.
pub struct SizedYuv {
    buffer: YUVBuffer,
    width: usize,
    height: usize,
}

impl SizedYuv {
    /// The width of the picture.
    pub closed spec fn picture_width(&self) -> usize {
        self.width
    }

    /// The height of the picture.
    pub closed spec fn picture_height(&self) -> usize {
        self.height
    }
}

/// How the H.264 encoder controls its rate: OpenH264's modes.
#[derive(Clone, Copy, Debug, PartialEq, Eq, Structural)]
pub enum H264RateControl {
    /// Quality mode.
    Quality,
    /// Bitrate mode.
    Bitrate,
    /// Adjust the quality by the buffer status, with no bitrate control.
    Bufferbased,
    /// Rate control by timestamp.
    Timestamp,
    /// Bitrate mode with frame skipping after the fact.
    BitrateModePostSkip,
    /// No rate control.
    Off,
}

/// The rate control of the H.264 encoder set up for streaming.
pub const H264_RATE_CONTROL: H264RateControl = H264RateControl::Bitrate;

/// OpenH264's rate control mode.
#[verifier::external_type_specification]
#[verifier::external_body]
pub struct ExRateControlMode(RateControlMode);

/// The `RateControlMode` of each mode, variant for variant.
#[verifier::external_body]
fn rate_control_mode(mode: H264RateControl) -> (r: RateControlMode) {
    match mode {
        H264RateControl::Quality => RateControlMode::Quality,
        H264RateControl::Bitrate => RateControlMode::Bitrate,
        H264RateControl::Bufferbased => RateControlMode::Bufferbased,
        H264RateControl::Timestamp => RateControlMode::Timestamp,
        H264RateControl::BitrateModePostSkip => RateControlMode::BitrateModePostSkip,
        H264RateControl::Off => RateControlMode::Off,
    }
}

/// Calls `Encoder::with_config` on `EncoderConfig::new(width, height)` with
/// a target bitrate, a highest frame rate (handed over as the float the
/// library takes), frame skipping on or off, and a rate control mode; the
/// encoder comes back with the size it was set up for, the error as its
/// debug text.
#[verifier::external_body]
fn new_h264_encoder(
    width: u32,
    height: u32,
    bitrate_bps: u32,
    max_fps: u16,
    skip_frames: bool,
    mode: RateControlMode,
) -> (r: Result<SizedH264Encoder, String>)
    ensures
        r matches Ok(e) ==> e.picture_width() == width && e.picture_height() == height,
{
    let config = H264EncoderConfig::new(width, height).set_bitrate_bps(bitrate_bps).max_frame_rate(
        max_fps.into(),
    ).enable_skip_frame(skip_frames).rate_control_mode(mode);
    match H264Encoder::with_config(config) {
        Ok(encoder) => Ok(SizedH264Encoder { encoder, width, height }),
        Err(e) => Err(format!("{:?}", e)),
    }
}

/// Calls `YUVBuffer::with_rgb`, which panics unless both sides are even
/// and there are three bytes per pixel; the picture comes back with its
/// size.
#[verifier::external_body]
fn yuv_from_rgb(width: usize, height: usize, rgb: &[u8]) -> (r: SizedYuv)
    requires
        width % 2 == 0,
        height % 2 == 0,
        rgb@.len() == width * height * 3,
    ensures
        r.picture_width() == width,
        r.picture_height() == height,
{
    SizedYuv { buffer: YUVBuffer::with_rgb(width, height, rgb), width, height }
}

/// Calls `Encoder::encode` on a picture of the size the encoder was set up
/// for (it panics on any other size); the bitstream comes back as its
/// bytes, the error as its debug text. The bitstream is not stated.
#[verifier::external_body]
fn h264_encode(encoder: &mut SizedH264Encoder, yuv: &SizedYuv) -> (r: Result<Vec<u8>, String>)
    requires
        old(encoder).picture_width() as int == yuv.picture_width() as int,
        old(encoder).picture_height() as int == yuv.picture_height() as int,
    ensures
        final(encoder).picture_width() == old(encoder).picture_width(),
        final(encoder).picture_height() == old(encoder).picture_height(),
{
    match encoder.encoder.encode(&yuv.buffer) {
        Ok(bitstream) => Ok(bitstream.to_vec()),
        Err(e) => Err(format!("{:?}", e)),
    }
}

/// An error of the OpenH264 library: a prefix, then the library's text.
fn openh264_error(prefix: &str, reason: String) -> (r: CodecError)
    ensures
        r matches CodecError::OpenH264Error(m) && m@ == prefix@ + reason@,
{
    let mut m = String::from_str(prefix);
    m.append(reason.as_str());
    CodecError::OpenH264Error(m)
}

/// An OpenH264 encoder and the number of frames it encoded.
pub struct H264EncoderState {
    encoder: SizedH264Encoder,
    frame_count: u64,
}

/// An OpenH264 decoder and the number of frames it decoded.
pub struct H264DecoderState {
    decoder: H264Decoder,
    frame_count: u64,
}

/// The H.264 codec over OpenH264, for pictures of a given size.
pub struct OpenH264Codec {
    encoder: Option<H264EncoderState>,
    decoder: Option<H264DecoderState>,
    width: u32,
    height: u32,
}

/// The Y, U and V planes of a YUV 4:2:0 frame of `w` by `h` pixels: the
/// first `w * h` bytes, then two quarters of that.
pub open spec fn yuv_planes(frame: Seq<u8>, w: int, h: int) -> (Seq<u8>, Seq<u8>, Seq<u8>) {
    let y = w * h;
    let uv = y / 4;
    (frame.subrange(0, y), frame.subrange(y, y + uv), frame.subrange(y + uv, y + 2 * uv))
}

impl OpenH264Codec {
    /// The width of the pictures.
    pub closed spec fn picture_width(&self) -> u32 {
        self.width
    }

    /// The height of the pictures.
    pub closed spec fn picture_height(&self) -> u32 {
        self.height
    }

    /// Whether an encoder is set up.
    pub closed spec fn encoder_ready(&self) -> bool {
        self.encoder is Some
    }

    /// Whether a decoder is set up.
    pub closed spec fn decoder_ready(&self) -> bool {
        self.decoder is Some
    }

    /// Whether the encoder, once set up, takes pictures of the codec's size.
    pub closed spec fn encoder_fits(&self) -> bool {
        match self.encoder {
            Some(e) => e.encoder.picture_width() == self.width && e.encoder.picture_height() == self.height,
            None => true,
        }
    }

    /// Frames encoded since the encoder was set up.
    pub closed spec fn frames_encoded(&self) -> u64 {
        match self.encoder {
            Some(e) => e.frame_count,
            None => 0,
        }
    }

    /// Frames decoded since the decoder was set up.
    pub closed spec fn frames_decoded(&self) -> u64 {
        match self.decoder {
            Some(d) => d.frame_count,
            None => 0,
        }
    }

    /// A codec for 640x480 pictures, with no encoder or decoder yet.
    pub fn new() -> (r: Self)
        ensures
            r.picture_width() == 640,
            r.picture_height() == 480,
            !r.encoder_ready(),
            !r.decoder_ready(),
            r.encoder_fits(),
    {
        Self::with_dimensions(640, 480)
    }

    /// A codec for pictures of a size, with no encoder or decoder yet.
    pub fn with_dimensions(width: u32, height: u32) -> (r: Self)
        ensures
            r.picture_width() == width,
            r.picture_height() == height,
            !r.encoder_ready(),
            !r.decoder_ready(),
            r.encoder_fits(),
    {
        OpenH264Codec { encoder: None, decoder: None, width, height }
    }

    /// The name the codec is registered under.
    pub fn name(&self) -> (r: &'static str)
        ensures
            r@ == "openh264"@,
    {
        "openh264"
    }

    /// The MIME type of the codec.
    pub fn mime_type(&self) -> (r: &'static str)
        ensures
            r@ == "video/h264"@,
    {
        "video/h264"
    }

    /// The width of the pictures.
    pub fn width(&self) -> (r: u32)
        ensures
            r == self.picture_width(),
    {
        self.width
    }

    /// The height of the pictures.
    pub fn height(&self) -> (r: u32)
        ensures
            r == self.picture_height(),
    {
        self.height
    }

    /// Whether an encoder is set up.
    pub fn has_encoder(&self) -> (r: bool)
        ensures
            r == self.encoder_ready(),
    {
        self.encoder.is_some()
    }

    /// Frames encoded since the encoder was set up.
    pub fn encoded_frames(&self) -> (r: u64)
        ensures
            r == self.frames_encoded(),
    {
        match &self.encoder {
            Some(e) => e.frame_count,
            None => 0,
        }
    }

    /// Frames decoded since the decoder was set up.
    pub fn decoded_frames(&self) -> (r: u64)
        ensures
            r == self.frames_decoded(),
    {
        match &self.decoder {
            Some(d) => d.frame_count,
            None => 0,
        }
    }

    /// Set up an encoder for real-time streaming of pictures of the codec's
    /// size: 2 Mbit/s at constant bitrate, at most 30 frames per second,
    /// frame skipping allowed; its count starts at 0. When OpenH264 cannot
    /// make one, the error says so and nothing changes.
    pub fn init_encoder(&mut self) -> (r: Result<(), CodecError>)
        ensures
            r is Ok ==> final(self).encoder_ready() && final(self).frames_encoded() == 0 && final(self).encoder_fits(),
            r matches Err(e) ==> (e matches CodecError::OpenH264Error(m) && "Failed to create encoder: "@.is_prefix_of(m@))
                && *final(self) == *old(self),
            final(self).decoder_ready() == old(self).decoder_ready(),
            final(self).frames_decoded() == old(self).frames_decoded(),
            final(self).picture_width() == old(self).picture_width(),
            final(self).picture_height() == old(self).picture_height(),
    {
        let mode = rate_control_mode(H264_RATE_CONTROL);
        match new_h264_encoder(self.width, self.height, H264_BITRATE_BPS, H264_MAX_FPS, true, mode) {
            Ok(encoder) => {
                self.encoder = Some(H264EncoderState { encoder, frame_count: 0 });
                Ok(())
            },
            Err(reason) => {
                let e = openh264_error("Failed to create encoder: ", reason);
                proof {
                    reveal_strlit("Failed to create encoder: ");
                }
                Err(e)
            },
        }
    }

    /// Set up a decoder; when OpenH264 cannot make one, the error says so
    /// and nothing changes.
    pub fn init_decoder(&mut self) -> (r: Result<(), CodecError>)
        ensures
            r is Ok ==> final(self).decoder_ready() && final(self).frames_decoded() == 0,
            r matches Err(e) ==> (e matches CodecError::OpenH264Error(m) && "Failed to create decoder: "@.is_prefix_of(m@))
                && *final(self) == *old(self),
            final(self).encoder_ready() == old(self).encoder_ready(),
            final(self).frames_encoded() == old(self).frames_encoded(),
            final(self).picture_width() == old(self).picture_width(),
            final(self).picture_height() == old(self).picture_height(),
            old(self).encoder_fits() ==> final(self).encoder_fits(),
    {
        match new_h264_decoder() {
            Ok(decoder) => {
                self.decoder = Some(H264DecoderState { decoder, frame_count: 0 });
                Ok(())
            },
            Err(reason) => {
                let e = openh264_error("Failed to create decoder: ", reason);
                proof {
                    reveal_strlit("Failed to create decoder: ");
                }
                Err(e)
            },
        }
    }

    /// The planes of a YUV 4:2:0 frame to encode: refused when no encoder
    /// is set up, or when the frame is not `width * height * 3 / 2` bytes.
    pub fn split_frame(&self, frame: &[u8]) -> (r: Result<(Vec<u8>, Vec<u8>, Vec<u8>), CodecError>)
        requires
            self.encoder_ready() ==> self.picture_width() * self.picture_height() * 3 <= u32::MAX,
        ensures
            !self.encoder_ready() ==> (r matches Err(CodecError::EncodingFailed(m)) && m@
                == "Encoder not initialized"@),
            self.encoder_ready() && frame@.len() != self.picture_width() * self.picture_height() * 3 / 2 ==> (
            r matches Err(CodecError::InvalidParameters(m)) && m@ == "Expected frame size "@ + decimal(
                (self.picture_width() * self.picture_height() * 3 / 2) as nat,
            ) + " bytes, got "@ + decimal(frame@.len())),
            self.encoder_ready() && frame@.len() == self.picture_width() * self.picture_height() * 3 / 2 ==> (
            r matches Ok(p) && (p.0@, p.1@, p.2@) == yuv_planes(
                frame@,
                self.picture_width() as int,
                self.picture_height() as int,
            )),
    {
        if self.encoder.is_none() {
            return Err(CodecError::EncodingFailed(String::from_str("Encoder not initialized")));
        }
        let expected = (self.width * self.height * 3 / 2) as usize;
        if frame.len() != expected {
            let mut m = String::from_str("Expected frame size ");
            push_decimal(&mut m, expected as u64);
            m.append(" bytes, got ");
            push_decimal(&mut m, frame.len() as u64);
            proof {
                assert(m@ =~= "Expected frame size "@ + decimal(
                    (self.picture_width() * self.picture_height() * 3 / 2) as nat,
                ) + " bytes, got "@ + decimal(frame@.len()));
            }
            return Err(CodecError::InvalidParameters(m));
        }
        let y_size = (self.width * self.height) as usize;
        let uv_size = y_size / 4;
        let y = copy_range(frame, 0, y_size);
        let u = copy_range(frame, y_size, y_size + uv_size);
        let v = copy_range(frame, y_size + uv_size, y_size + uv_size * 2);
        Ok((y, u, v))
    }

    /// What encoding gives from what OpenH264 returned: the bitstream, or
    /// `Encoding failed: ` and the library's text.
    pub fn encoded_output(result: Result<Vec<u8>, String>) -> (r: Result<Vec<u8>, CodecError>)
        ensures
            result matches Ok(b) ==> r == Ok::<Vec<u8>, CodecError>(b),
            result matches Err(t) ==> (r matches Err(CodecError::OpenH264Error(m)) && m@ == "Encoding failed: "@
                + t@),
    {
        match result {
            Ok(b) => Ok(b),
            Err(t) => Err(openh264_error("Encoding failed: ", t)),
        }
    }

    /// Encode a picture given as RGB, three bytes per pixel; the count of
    /// encoded frames goes up by one when it succeeds.
    pub fn encode_rgb(&mut self, rgb: &[u8]) -> (r: Result<Vec<u8>, CodecError>)
        requires
            old(self).picture_width() % 2 == 0,
            old(self).picture_height() % 2 == 0,
            rgb@.len() == old(self).picture_width() * old(self).picture_height() * 3,
            old(self).frames_encoded() < u64::MAX,
            old(self).encoder_fits(),
        ensures
            !old(self).encoder_ready() ==> (r matches Err(CodecError::EncodingFailed(m)) && m@
                == "Encoder not initialized"@),
            r is Ok || r matches Err(CodecError::OpenH264Error(_)) || !old(self).encoder_ready(),
            r is Ok ==> final(self).frames_encoded() == old(self).frames_encoded() + 1,
            r is Err ==> final(self).frames_encoded() == old(self).frames_encoded(),
            final(self).encoder_ready() == old(self).encoder_ready(),
            final(self).decoder_ready() == old(self).decoder_ready(),
            final(self).frames_decoded() == old(self).frames_decoded(),
            final(self).picture_width() == old(self).picture_width(),
            final(self).picture_height() == old(self).picture_height(),
            final(self).encoder_fits(),
    {
        let width = self.width as usize;
        let height = self.height as usize;
        match &mut self.encoder {
            None => Err(CodecError::EncodingFailed(String::from_str("Encoder not initialized"))),
            Some(state) => {
                let yuv = yuv_from_rgb(width, height, rgb);
                let out = Self::encoded_output(h264_encode(&mut state.encoder, &yuv));
                if out.is_ok() {
                    state.frame_count = state.frame_count + 1;
                }
                out
            },
        }
    }

    /// What decoding gives from what OpenH264 returned: a picture's Y, U and
    /// V planes one after the other, nothing while no picture is ready, or
    /// `Decoding failed: ` and the library's text.
    pub fn decoded_output(result: Result<Option<(Vec<u8>, Vec<u8>, Vec<u8>)>, String>) -> (r: Result<
        Vec<u8>,
        CodecError,
    >)
        ensures
            result matches Ok(Some(p)) ==> (r matches Ok(v) && v@ == p.0@ + p.1@ + p.2@),
            result matches Ok(None) ==> (r matches Ok(v) && v@.len() == 0),
            result matches Err(t) ==> (r matches Err(CodecError::OpenH264Error(m)) && m@ == "Decoding failed: "@
                + t@),
    {
        match result {
            Ok(Some(planes)) => {
                let (y, u, v) = planes;
                let mut out: Vec<u8> = Vec::new();
                push_all(&mut out, y.as_slice());
                push_all(&mut out, u.as_slice());
                push_all(&mut out, v.as_slice());
                assert(out@ =~= y@ + u@ + v@);
                Ok(out)
            },
            Ok(None) => Ok(Vec::new()),
            Err(t) => Err(openh264_error("Decoding failed: ", t)),
        }
    }

    /// Decode a packet; the count of decoded frames goes up by one when a
    /// picture comes out.
    pub fn decode(&mut self, data: &[u8]) -> (r: Result<Vec<u8>, CodecError>)
        requires
            old(self).frames_decoded() < u64::MAX,
        ensures
            !old(self).decoder_ready() ==> (r matches Err(CodecError::DecodingFailed(m)) && m@
                == "Decoder not initialized"@),
            r is Ok || r matches Err(CodecError::OpenH264Error(_)) || !old(self).decoder_ready(),
            final(self).frames_decoded() == old(self).frames_decoded() || final(self).frames_decoded()
                == old(self).frames_decoded() + 1,
            final(self).decoder_ready() == old(self).decoder_ready(),
            final(self).encoder_ready() == old(self).encoder_ready(),
            final(self).frames_encoded() == old(self).frames_encoded(),
            final(self).picture_width() == old(self).picture_width(),
            final(self).picture_height() == old(self).picture_height(),
            old(self).encoder_fits() ==> final(self).encoder_fits(),
    {
        match &mut self.decoder {
            None => Err(CodecError::DecodingFailed(String::from_str("Decoder not initialized"))),
            Some(state) => {
                let result = h264_decode(&mut state.decoder, data);
                let picture = matches!(result, Ok(Some(_)));
                let out = Self::decoded_output(result);
                if picture {
                    state.frame_count = state.frame_count + 1;
                }
                out
            },
        }
    }
}


} // verus!
