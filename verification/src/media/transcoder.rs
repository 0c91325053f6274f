//! The converter of codecs browsers cannot play, and its errors.
use vstd::prelude::*;
use crate::text::{contains_text, has_substring};

verus! {

/// Converts codecs browsers cannot play (such as AC-3 audio) by running
/// FFmpeg on files kept in a temporary directory.
#[derive(Debug)]
pub struct MediaTranscoder {
    temp_dir: String,
}

impl MediaTranscoder {
    /// The directory for temporary files.
    pub closed spec fn temp_dir_text(&self) -> Seq<char> {
        self.temp_dir@
    }

    /// A converter using `/tmp` for temporary files.
    pub fn new() -> (r: Self)
        ensures
            r.temp_dir_text() == "/tmp"@,
    {
        MediaTranscoder { temp_dir: String::from_str("/tmp") }
    }

    /// The directory for temporary files.
    pub fn temp_dir(&self) -> (r: &str)
        ensures
            r@ == self.temp_dir_text(),
    {
        self.temp_dir.as_str()
    }
}

impl Default for MediaTranscoder {
    fn default() -> (r: Self)
        ensures
            r.temp_dir_text() == "/tmp"@,
    {
        Self::new()
    }
}

/// Whether the stream list that `ffprobe -print_format json
/// -show_streams` printed names an AC-3 or E-AC-3 audio codec, which
/// browsers cannot play.
pub fn probe_reports_ac3(probe_output: &str) -> (r: bool)
    ensures
        r == (has_substring(probe_output@, "\"codec_name\": \"ac3\""@) || has_substring(
            probe_output@,
            "\"codec_name\": \"eac3\""@,
        ) || has_substring(probe_output@, "\"codec_name\": \"ac-3\""@)),
{
    contains_text(probe_output, "\"codec_name\": \"ac3\"") || contains_text(
        probe_output,
        "\"codec_name\": \"eac3\"",
    ) || contains_text(probe_output, "\"codec_name\": \"ac-3\"")
}

/// Why a conversion failed.
#[derive(Debug)]
pub enum TranscoderError {
    /// Reading or writing a file failed.
    Io(String),
    /// FFmpeg failed.
    ConversionFailed(String),
    /// Probing the file failed.
    ProbeError(String),
}

impl TranscoderError {
    /// The message of the error.
    pub fn to_string(&self) -> (r: String)
        ensures
            r@ == match self {
                TranscoderError::Io(m) => "IO error: "@ + m@,
                TranscoderError::ConversionFailed(m) => "Conversion failed: "@ + m@,
                TranscoderError::ProbeError(m) => "Probe error: "@ + m@,
            },
    {
        let (head, m) = match self {
            TranscoderError::Io(m) => ("IO error: ", m),
            TranscoderError::ConversionFailed(m) => ("Conversion failed: ", m),
            TranscoderError::ProbeError(m) => ("Probe error: ", m),
        };
        let mut s = String::from_str(head);
        s.append(m.as_str());
        s
    }
}

} // verus!
