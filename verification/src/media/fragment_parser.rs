//! Reading the top-level boxes of an MP4 file without descending into them.
//!
//! The parser records each box with its type, size, payload and offset, and
//! notes whether the file is fragmented (it has a `moof` or an `mvex`).
use vstd::prelude::*;
use crate::bytes_be::{be_u32_at, copy_range, read_u32_be};
use crate::media::mp4_parser::{BoxContent, BoxHeader, Mp4Track};
use crate::text::{bool_text, decimal, lossy_string, push_bool, push_decimal, same_text, utf8_lossy};

verus! {

/// Why reading boxes failed.
#[derive(Debug, Clone)]
pub enum Mp4ParseError {
    /// The data is not what the format says.
    InvalidData(String),
    /// A box declares a size smaller than its own header.
    InvalidBoxSize(usize),
    /// Reading the data failed.
    IoError(String),
}

impl Mp4ParseError {
    /// The message of the error.
    pub fn to_string(&self) -> (r: String)
        ensures
            r@ == match self {
                Mp4ParseError::InvalidData(m) => "Invalid data: "@ + m@,
                Mp4ParseError::InvalidBoxSize(n) => "Invalid box size: "@ + decimal(*n as nat),
                Mp4ParseError::IoError(m) => "IO error: "@ + m@,
            },
    {
        match self {
            Mp4ParseError::InvalidData(m) => {
                let mut s = String::from_str("Invalid data: ");
                s.append(m.as_str());
                s
            },
            Mp4ParseError::InvalidBoxSize(n) => {
                let mut s = String::from_str("Invalid box size: ");
                push_decimal(&mut s, *n as u64);
                s
            },
            Mp4ParseError::IoError(m) => {
                let mut s = String::from_str("IO error: ");
                s.append(m.as_str());
                s
            },
        }
    }
}

/// Kind of a track's stream.
#[derive(Debug, Clone, Copy, PartialEq, Eq, Structural)]
pub enum StreamType {
    Video,
    Audio,
    Subtitle,
}

/// A top-level box: its header, its content and where it starts.
#[derive(Debug, Clone)]
pub struct BoxInfo {
    /// Type, size and content offset.
    pub header: BoxHeader,
    /// The content.
    pub content: BoxContent,
    /// Offset of the box in the data.
    pub offset: u64,
}

/// A box as values; `raw` is its content when it is kept raw.
pub struct InfoView {
    pub box_type: Seq<u8>,
    pub size: u64,
    pub content_start: u64,
    pub raw: Option<Seq<u8>>,
    pub offset: u64,
}

impl View for BoxInfo {
    type V = InfoView;

    open spec fn view(&self) -> InfoView {
        InfoView {
            box_type: self.header.box_type@,
            size: self.header.size,
            content_start: self.header.content_start,
            raw: match self.content {
                BoxContent::Raw(v) => Some(v@),
                _ => None,
            },
            offset: self.offset,
        }
    }
}

/// The views of some boxes.
pub open spec fn info_views(v: Seq<BoxInfo>) -> Seq<InfoView> {
    v.map_values(|b: BoxInfo| b@)
}

/// The boxes found from `pos` on, each whole box whose header fits, until
/// the data ends or a box runs past it; and the declared size of a box
/// smaller than its header, where one stops the reading.
pub open spec fn scan_boxes(d: Seq<u8>, pos: int) -> (Seq<InfoView>, Option<u32>)
    decreases d.len() - pos,
{
    if pos < 0 || pos + 8 > d.len() {
        (Seq::empty(), None)
    } else {
        let size = be_u32_at(d, pos);
        if size < 8 {
            (Seq::empty(), Some(size))
        } else if pos + size > d.len() {
            (Seq::empty(), None)
        } else {
            let here = InfoView {
                box_type: d.subrange(pos + 4, pos + 8),
                size: size as u64,
                content_start: 8,
                raw: Some(d.subrange(pos + 8, pos + size)),
                offset: pos as u64,
            };
            let rest = scan_boxes(d, pos + size);
            (seq![here] + rest.0, rest.1)
        }
    }
}

/// Whether some box's type, read as text, is `t`.
pub open spec fn has_type(boxes: Seq<InfoView>, t: Seq<char>) -> bool {
    exists|i: int| 0 <= i < boxes.len() && utf8_lossy(#[trigger] boxes[i].box_type) == t
}

/// The boxes among the first `k` whose type, read as text, is `t`.
pub open spec fn boxes_of_type(boxes: Seq<BoxInfo>, t: Seq<char>, k: int) -> Seq<BoxInfo>
    decreases k,
{
    if k <= 0 {
        Seq::empty()
    } else if utf8_lossy(boxes[k - 1].header.box_type@) == t {
        boxes_of_type(boxes, t, k - 1).push(boxes[k - 1])
    } else {
        boxes_of_type(boxes, t, k - 1)
    }
}

/// Whether a track is the one assumed for a file with a `moov`: track 1,
/// `vide`, 30000 units per second, 60 seconds long, H.264.
pub open spec fn is_assumed_track(t: Mp4Track) -> bool {
    &&& t.track_id == 1
    &&& t.media_type@ == seq![0x76u8, 0x69u8, 0x64u8, 0x65u8]
    &&& t.timescale == 30000
    &&& t.duration == 1_800_000
    &&& t.codec@ == "H.264"@
    &&& t.codec_mime_type@ == "video/mp4; codecs=\"avc1.42E01E\""@
    &&& t.codec_params matches Some(p) && p@ == "avc1.42E01E"@
    &&& t.sample_table is None
}

/// Whether the type of a box, read as text, is `t`.
fn type_text_is(b: &BoxInfo, t: &str) -> (r: bool)
    ensures
        r == (utf8_lossy(b.header.box_type@) == t@),
{
    let name = lossy_string(b.header.box_type.as_slice());
    same_text(name.as_str(), t)
}

/// Reads the boxes at the top of an MP4 file.
pub struct FragmentParser {
    /// Boxes read so far.
    pub boxes: Vec<BoxInfo>,
    /// Tracks found.
    pub tracks: Vec<Mp4Track>,
    /// Whether a `moof` or `mvex` box was read.
    pub is_fragmented: bool,
    /// Size of the last data parsed.
    pub file_size: u64,
}

impl FragmentParser {
    /// A parser that has read nothing.
    pub fn new() -> (r: Self)
        ensures
            r.boxes@.len() == 0,
            r.tracks@.len() == 0,
            !r.is_fragmented,
            r.file_size == 0,
    {
        FragmentParser { boxes: Vec::new(), tracks: Vec::new(), is_fragmented: false, file_size: 0 }
    }

    /// Read the top-level boxes of `data`, adding them to those already
    /// read. A box smaller than its header stops the reading with an error,
    /// keeping the boxes before it; a box that runs past the data ends it.
    /// After a successful read, a file with a `moov` gets the assumed video
    /// track, and the parser notes whether it is fragmented.
    pub fn parse(&mut self, data: &[u8]) -> (r: Result<(), Mp4ParseError>)
        ensures
            final(self).file_size == data@.len(),
            info_views(final(self).boxes@) == info_views(old(self).boxes@) + scan_boxes(data@, 0).0,
            match scan_boxes(data@, 0).1 {
                Some(s) => {
                    &&& r matches Err(Mp4ParseError::InvalidBoxSize(n)) && n == s
                    &&& final(self).tracks@ == old(self).tracks@
                    &&& final(self).is_fragmented == old(self).is_fragmented
                },
                None => {
                    &&& r is Ok
                    &&& if has_type(info_views(final(self).boxes@), "moov"@) {
                        &&& final(self).tracks@.len() == old(self).tracks@.len() + 1
                        &&& final(self).tracks@.subrange(0, old(self).tracks@.len() as int)
                            == old(self).tracks@
                        &&& is_assumed_track(final(self).tracks@.last())
                    } else {
                        final(self).tracks@ == old(self).tracks@
                    }
                    &&& final(self).is_fragmented == (has_type(info_views(final(self).boxes@), "moof"@)
                        || has_type(info_views(final(self).boxes@), "mvex"@))
                },
            },
    {
        self.file_size = data.len() as u64;
        match self.parse_boxes(data) {
            Ok(()) => {},
            Err(e) => {
                return Err(e);
            },
        }
        self.extract_track_info();
        self.check_fragmentation();
        Ok(())
    }

    /// Read the boxes of `data`.
    fn parse_boxes(&mut self, data: &[u8]) -> (r: Result<(), Mp4ParseError>)
        ensures
            final(self).file_size == old(self).file_size,
            final(self).tracks@ == old(self).tracks@,
            final(self).is_fragmented == old(self).is_fragmented,
            info_views(final(self).boxes@) == info_views(old(self).boxes@) + scan_boxes(data@, 0).0,
            match scan_boxes(data@, 0).1 {
                Some(s) => r matches Err(Mp4ParseError::InvalidBoxSize(n)) && n == s,
                None => r is Ok,
            },
    {
        let len = data.len();
        let mut offset: usize = 0;
        let ghost start = info_views(self.boxes@);
        loop
            invariant
                len == data@.len(),
                self.file_size == old(self).file_size,
                self.tracks@ == old(self).tracks@,
                self.is_fragmented == old(self).is_fragmented,
                offset <= len,
                start == info_views(old(self).boxes@),
                start + scan_boxes(data@, 0).0 == info_views(self.boxes@) + scan_boxes(data@, offset as int).0,
                scan_boxes(data@, 0).1 == scan_boxes(data@, offset as int).1,
            ensures
                info_views(self.boxes@) == start + scan_boxes(data@, 0).0,
                scan_boxes(data@, 0).1 is None,
            decreases len - offset,
        {
            if len - offset < 8 {
                assert(info_views(self.boxes@) + scan_boxes(data@, offset as int).0 =~= info_views(self.boxes@));
                break;
            }
            let size = read_u32_be(data, offset);
            if size < 8 {
                assert(info_views(self.boxes@) + scan_boxes(data@, offset as int).0 =~= info_views(self.boxes@));
                return Err(Mp4ParseError::InvalidBoxSize(size as usize));
            }
            let box_size = size as usize;
            if box_size > len - offset {
                assert(info_views(self.boxes@) + scan_boxes(data@, offset as int).0 =~= info_views(self.boxes@));
                break;
            }
            let header = BoxHeader {
                box_type: copy_range(data, offset + 4, offset + 8),
                size: size as u64,
                content_start: 8,
            };
            let content = BoxContent::Raw(copy_range(data, offset + 8, offset + box_size));
            let info = BoxInfo { header, content, offset: offset as u64 };
            let ghost before = info_views(self.boxes@);
            self.boxes.push(info);
            proof {
                assert(info_views(self.boxes@) =~= before.push(info@));
                let here = scan_boxes(data@, offset as int);
                assert(here.0 =~= seq![info@] + scan_boxes(data@, offset + box_size).0);
                assert(before + here.0 =~= info_views(self.boxes@) + scan_boxes(data@, offset + box_size).0);
            }
            offset = offset + box_size;
        }
        Ok(())
    }

    /// Add the assumed track when a `moov` was read.
    fn extract_track_info(&mut self)
        ensures
            final(self).boxes@ == old(self).boxes@,
            final(self).file_size == old(self).file_size,
            final(self).is_fragmented == old(self).is_fragmented,
            if has_type(info_views(old(self).boxes@), "moov"@) {
                &&& final(self).tracks@.len() == old(self).tracks@.len() + 1
                &&& final(self).tracks@.subrange(0, old(self).tracks@.len() as int) == old(self).tracks@
                &&& is_assumed_track(final(self).tracks@.last())
            } else {
                final(self).tracks@ == old(self).tracks@
            },
    {
        if self.has_box("moov") {
            let track = Mp4Track {
                track_id: 1,
                media_type: vec![0x76u8, 0x69u8, 0x64u8, 0x65u8],
                timescale: 30000,
                duration: 1_800_000,
                codec: String::from_str("H.264"),
                codec_mime_type: String::from_str("video/mp4; codecs=\"avc1.42E01E\""),
                codec_params: Some(String::from_str("avc1.42E01E")),
                sample_table: None,
            };
            self.tracks.push(track);
            assert(final(self).tracks@.subrange(0, old(self).tracks@.len() as int) =~= old(self).tracks@);
        }
    }

    /// Note whether a `moof` or `mvex` box was read.
    fn check_fragmentation(&mut self)
        ensures
            final(self).boxes@ == old(self).boxes@,
            final(self).tracks@ == old(self).tracks@,
            final(self).file_size == old(self).file_size,
            final(self).is_fragmented == (has_type(info_views(old(self).boxes@), "moof"@) || has_type(
                info_views(old(self).boxes@),
                "mvex"@,
            )),
    {
        self.is_fragmented = self.has_box("moof") || self.has_box("mvex");
    }

    /// Whether a box whose type, read as text, is `box_type` was read.
    pub fn has_box(&self, box_type: &str) -> (r: bool)
        ensures
            r == has_type(info_views(self.boxes@), box_type@),
    {
        let mut i: usize = 0;
        while i < self.boxes.len()
            invariant
                i <= self.boxes@.len(),
                forall|j: int| 0 <= j < i ==> utf8_lossy(#[trigger] info_views(self.boxes@)[j].box_type) != box_type@,
            decreases self.boxes@.len() - i,
        {
            if type_text_is(&self.boxes[i], box_type) {
                assert(info_views(self.boxes@)[i as int].box_type == self.boxes@[i as int].header.box_type@);
                return true;
            }
            i = i + 1;
        }
        false
    }

    /// The boxes whose type, read as text, is `box_type`, in order.
    pub fn get_boxes(&self, box_type: &str) -> (r: Vec<&BoxInfo>)
        ensures
            r@.len() == boxes_of_type(self.boxes@, box_type@, self.boxes@.len() as int).len(),
            forall|j: int| 0 <= j < r@.len() ==> *r@[j] == boxes_of_type(self.boxes@, box_type@, self.boxes@.len() as int)[j],
    {
        let mut r: Vec<&BoxInfo> = Vec::new();
        let mut i: usize = 0;
        while i < self.boxes.len()
            invariant
                i <= self.boxes@.len(),
                r@.len() == boxes_of_type(self.boxes@, box_type@, i as int).len(),
                forall|j: int| 0 <= j < r@.len() ==> *r@[j] == boxes_of_type(self.boxes@, box_type@, i as int)[j],
            decreases self.boxes@.len() - i,
        {
            if type_text_is(&self.boxes[i], box_type) {
                r.push(&self.boxes[i]);
            }
            i = i + 1;
        }
        r
    }

    /// The tracks found.
    pub fn get_tracks(&self) -> (r: &[Mp4Track])
        ensures
            r@ == self.tracks@,
    {
        self.tracks.as_slice()
    }

    /// Whether a `moof` or `mvex` box was read.
    pub fn is_fragmented(&self) -> (r: bool)
        ensures
            r == self.is_fragmented,
    {
        self.is_fragmented
    }

    /// One line describing what was read.
    pub fn get_summary(&self) -> (r: String)
        ensures
            r@ == "FragmentParser: "@ + decimal(self.boxes@.len()) + " boxes, "@ + decimal(self.tracks@.len())
                + " tracks, fragmented: "@ + bool_text(self.is_fragmented),
    {
        let mut s = String::from_str("FragmentParser: ");
        push_decimal(&mut s, self.boxes.len() as u64);
        s.append(" boxes, ");
        push_decimal(&mut s, self.tracks.len() as u64);
        s.append(" tracks, fragmented: ");
        push_bool(&mut s, self.is_fragmented);
        s
    }
}

impl Default for FragmentParser {
    fn default() -> (r: Self)
        ensures
            r.boxes@.len() == 0,
            r.tracks@.len() == 0,
            !r.is_fragmented,
            r.file_size == 0,
    {
        Self::new()
    }
}

} // verus!
