//! Descriptions of media streams and the errors of media operations.
use vstd::prelude::*;

verus! {

/// Error of a media operation.
#[derive(Debug)]
pub struct MediaError {
    message: String,
}

impl MediaError {
    /// The message of the error.
    pub closed spec fn message_text(&self) -> Seq<char> {
        self.message@
    }

    /// The error as text: `Media error: ` and its message.
    pub fn to_string(&self) -> (r: String)
        ensures
            r@ == "Media error: "@ + self.message_text(),
    {
        let mut s = String::from_str("Media error: ");
        s.append(self.message.as_str());
        s
    }
}

impl From<&str> for MediaError {
    fn from(err: &str) -> (r: MediaError)
        ensures
            r.message_text() == err@,
    {
        MediaError { message: String::from_str(err) }
    }
}

impl From<String> for MediaError {
    fn from(err: String) -> (r: MediaError)
        ensures
            r.message_text() == err@,
    {
        MediaError { message: err }
    }
}

impl vstd::std_specs::convert::FromSpecImpl<&str> for MediaError {
    open spec fn obeys_from_spec() -> bool {
        false
    }

    open spec fn from_spec(err: &str) -> MediaError {
        arbitrary()
    }
}

impl vstd::std_specs::convert::FromSpecImpl<String> for MediaError {
    open spec fn obeys_from_spec() -> bool {
        false
    }

    open spec fn from_spec(err: String) -> MediaError {
        arbitrary()
    }
}

/// Format of a media stream.
#[derive(Debug, Clone)]
pub enum MediaFormat {
    /// HTTP Live Streaming.
    Hls,
    /// Dynamic Adaptive Streaming over HTTP.
    Dash,
    /// WebRTC.
    WebRtc,
    /// Raw media data.
    Raw,
    /// Another format, named.
    Custom(String),
}

impl Default for MediaFormat {
    fn default() -> (r: Self)
        ensures
            r is Raw,
    {
        MediaFormat::Raw
    }
}

/// A media stream and what is known of it.
#[derive(Debug, Clone)]
pub struct MediaStream {
    /// Identifier of the stream.
    pub id: String,
    /// Format of the stream.
    pub format: MediaFormat,
    /// Duration in milliseconds, when known.
    pub duration_ms: Option<u64>,
    /// Bitrate in bits per second, when known.
    pub bitrate: Option<u64>,
    /// Codec, when known.
    pub codec: Option<String>,
}

/// Builds the description of a media stream.
#[derive(Debug)]
pub struct MediaSourceBuilder {
    stream: MediaStream,
}

impl MediaSourceBuilder {
    /// The stream being built.
    pub closed spec fn built(&self) -> MediaStream {
        self.stream
    }

    /// A builder for stream `id` in `format`, with nothing else known.
    pub fn new(id: &str, format: MediaFormat) -> (r: Self)
        ensures
            r.built().id@ == id@,
            r.built().format == format,
            r.built().duration_ms is None,
            r.built().bitrate is None,
            r.built().codec is None,
    {
        MediaSourceBuilder {
            stream: MediaStream {
                id: String::from_str(id),
                format,
                duration_ms: None,
                bitrate: None,
                codec: None,
            },
        }
    }

    /// Set the duration (milliseconds).
    pub fn duration(self, duration_ms: u64) -> (r: Self)
        ensures
            r.built() == (MediaStream { duration_ms: Some(duration_ms), ..self.built() }),
    {
        let mut b = self;
        b.stream.duration_ms = Some(duration_ms);
        b
    }

    /// Set the bitrate (bits per second).
    pub fn bitrate(self, bitrate: u64) -> (r: Self)
        ensures
            r.built() == (MediaStream { bitrate: Some(bitrate), ..self.built() }),
    {
        let mut b = self;
        b.stream.bitrate = Some(bitrate);
        b
    }

    /// Set the codec.
    pub fn codec(self, codec: &str) -> (r: Self)
        ensures
            r.built().codec matches Some(c) && c@ == codec@,
            r.built().id == self.built().id,
            r.built().format == self.built().format,
            r.built().duration_ms == self.built().duration_ms,
            r.built().bitrate == self.built().bitrate,
    {
        let mut b = self;
        b.stream.codec = Some(String::from_str(codec));
        b
    }

    /// The description built.
    pub fn build(self) -> (r: MediaStream)
        ensures
            r == self.built(),
    {
        self.stream
    }
}

} // verus!
