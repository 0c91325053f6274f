//! MP4 parsing and generation of segments for Media Source Extensions.
//!
//! An MP4 file is a sequence of boxes; each box has a 4-byte big-endian
//! size, a 4-byte type and a payload. The parser walks `moov` to find the
//! tracks, their codecs and sample tables, and turns a file into an
//! initialization segment (`ftyp` + `moov`) and media segments
//! (`moof` + `mdat`).
//!
//! Box types and handler types are kept as their four raw bytes.
use vstd::prelude::*;
use crate::bytes_be::{
    be_u32_at, be_u64_at, copy_range, push_all, push_u32, read_u32_be, read_u64_be, u32_bytes,
    HANDLER_SOUN, HANDLER_VIDE, BOX_CO64, BOX_CTTS, BOX_HDLR,
    BOX_MDAT, BOX_MDHD, BOX_MDIA, BOX_MINF, BOX_MOOF, BOX_MOOV, BOX_STBL, BOX_STCO, BOX_STSC,
    BOX_STSD, BOX_STSS, BOX_STSZ, BOX_STTS, BOX_TKHD, BOX_TRAK, BOX_TFHD, BOX_TFDT, BOX_TRAF,
    BOX_MFHD, BOX_FTYP, BOX_MVEX, BOX_TREX, u64_bytes, push_u64, push_range,
};
use crate::media::fmp4_converter::{
    total_duration, duration_total, fits_v1, fits_v2, frame_views, mdat_spec, moof_v1_spec, moof_v2_spec, trex_spec,
    FrameData, FrameView, FragmentedMp4Converter,
};
use crate::media::mp4_codec::{
    codec_result_text, codec_text, default_codec, default_codec_for, is_audio_type,
    is_video_type, parse_stsd_box, stsd_codec, stsd_panics, CodecText,
};
use crate::text::{bool_text, decimal, lossy_string, push_bool, push_decimal, utf8_lossy};
use crate::media::sample_table::{
    resolved_entries, table_resolvable, SampleEntry,
    co64_spec, ctts_spec, stco_spec, stsc_spec, stss_spec, stsz_spec, stts_spec, SampleTable,
};

verus! {

/// Why parsing or generating a segment failed.
#[derive(Debug, Clone, Copy, PartialEq, Eq, Structural)]
pub enum Mp4Error {
    /// The data is not what the format says.
    InvalidData,
    /// Something required was not found.
    NotFound,
    /// The data ended early.
    UnexpectedEof,
}

/// Header of a box.
#[derive(Debug, Clone)]
pub struct BoxHeader {
    /// The four bytes of the box type.
    pub box_type: Vec<u8>,
    /// Total size of the box including its header.
    pub size: u64,
    /// Where the box content starts (after the header).
    pub content_start: u64,
}

/// Content of a box.
#[derive(Debug, Clone)]
pub enum BoxContent {
    /// File type box.
    FileType {
        /// Primary brand (four bytes, such as `isom`).
        major_brand: Vec<u8>,
        /// Minor version of the major brand.
        minor_version: u32,
        /// Compatible brands, four bytes each.
        compatible_brands: Vec<Vec<u8>>,
    },
    /// Movie header.
    MovieHeader {
        /// Creation time (seconds since 1904-01-01).
        creation_time: u64,
        /// Modification time (seconds since 1904-01-01).
        modification_time: u64,
        /// Time units per second.
        timescale: u32,
        /// Duration in timescale units.
        duration: u64,
    },
    /// Track information.
    Track {
        /// Track identifier.
        track_id: u32,
        /// Duration in timescale units.
        duration: u64,
        /// Handler type (four bytes, such as `vide`).
        media_type: Vec<u8>,
    },
    /// Raw box content.
    Raw(Vec<u8>),
}

/// A parsed box.
#[derive(Debug, Clone)]
pub struct Mp4Box {
    /// Type, size and content offset.
    pub header: BoxHeader,
    /// Parsed or raw content.
    pub content: BoxContent,
}

/// A track found in `moov`.
#[derive(Debug, Clone)]
pub struct Mp4Track {
    /// Track identifier.
    pub track_id: u32,
    /// Handler type: `vide` for video, `soun` for audio (four bytes).
    pub media_type: Vec<u8>,
    /// Time units per second.
    pub timescale: u32,
    /// Duration in timescale units.
    pub duration: u64,
    /// Short codec name (such as `H.264` or `AAC`).
    pub codec: String,
    /// MIME type for MSE (such as `video/mp4; codecs="avc1.42E01E"`).
    pub codec_mime_type: String,
    /// Codec parameters of the codec string.
    pub codec_params: Option<String>,
    /// Sample tables, when `stbl` lists samples.
    pub sample_table: Option<SampleTable>,
}

/// A segment for MSE.
#[derive(Debug, Clone)]
pub struct MseSegment {
    /// `initialization` or `media`.
    pub segment_type: String,
    /// The segment's bytes.
    pub data: Vec<u8>,
    /// Timestamp in milliseconds (media segments).
    pub timestamp: Option<u64>,
    /// Duration (media segments).
    pub duration: Option<u64>,
    /// Whether the segment starts at a key frame.
    pub is_keyframe: bool,
    /// Track the segment belongs to (0 for initialization).
    pub track_id: u32,
}

/// MP4 parser and segment generator.
pub struct Mp4Parser {
    boxes: Vec<Mp4Box>,
    tracks: Vec<Mp4Track>,
    is_fragmented: bool,
    fmp4_converter: FragmentedMp4Converter,
    mdat_payload_offset: u64,
}

// ---------------------------------------------------------------------------
// Views
// ---------------------------------------------------------------------------

/// The tables of a [`SampleTable`].
pub struct TableView {
    pub sizes: Seq<u32>,
    pub stts: Seq<(u32, u32)>,
    pub stsc: Seq<(u32, u32, u32)>,
    pub chunks: Seq<u64>,
    pub sync: Seq<u32>,
    pub ctts: Seq<(u32, i32)>,
}

impl View for SampleTable {
    type V = TableView;

    open spec fn view(&self) -> TableView {
        TableView {
            sizes: self.sample_sizes@,
            stts: self.time_to_sample@,
            stsc: self.sample_to_chunk@,
            chunks: self.chunk_offsets@,
            sync: self.sync_samples@,
            ctts: self.composition_offsets@,
        }
    }
}

/// A table with no entries.
pub open spec fn empty_table() -> TableView {
    TableView {
        sizes: Seq::empty(),
        stts: Seq::empty(),
        stsc: Seq::empty(),
        chunks: Seq::empty(),
        sync: Seq::empty(),
        ctts: Seq::empty(),
    }
}

/// The view of an optional table.
pub open spec fn opt_table_view(o: Option<SampleTable>) -> Option<TableView> {
    match o {
        Some(t) => Some(t@),
        None => None,
    }
}

/// A track as values.
pub struct TrackView {
    pub track_id: u32,
    pub media_type: Seq<u8>,
    pub timescale: u32,
    pub duration: u64,
    pub codec: CodecText,
    pub table: Option<TableView>,
}

impl View for Mp4Track {
    type V = TrackView;

    open spec fn view(&self) -> TrackView {
        TrackView {
            track_id: self.track_id,
            media_type: self.media_type@,
            timescale: self.timescale,
            duration: self.duration,
            codec: codec_text((self.codec, self.codec_mime_type, self.codec_params)),
            table: opt_table_view(self.sample_table),
        }
    }
}

/// A box as values; `raw` is its content when it is kept raw.
pub struct BoxView {
    pub box_type: Seq<u8>,
    pub size: u64,
    pub content_start: u64,
    pub raw: Option<Seq<u8>>,
}

impl View for Mp4Box {
    type V = BoxView;

    open spec fn view(&self) -> BoxView {
        BoxView {
            box_type: self.header.box_type@,
            size: self.header.size,
            content_start: self.header.content_start,
            raw: match self.content {
                BoxContent::Raw(v) => Some(v@),
                _ => None,
            },
        }
    }
}

// ---------------------------------------------------------------------------
// The walks over nested boxes
// ---------------------------------------------------------------------------

/// A table after reading one child box of `stbl`.
#[verifier::opaque]
pub open spec fn table_step(t: TableView, box_type: u32, c: Seq<u8>) -> TableView {
    if box_type == BOX_STSZ {
        TableView { sizes: stsz_spec(c), ..t }
    } else if box_type == BOX_STTS {
        TableView { stts: stts_spec(c), ..t }
    } else if box_type == BOX_STSC {
        TableView { stsc: stsc_spec(c), ..t }
    } else if box_type == BOX_STCO {
        TableView { chunks: stco_spec(c), ..t }
    } else if box_type == BOX_CO64 {
        TableView { chunks: co64_spec(c), ..t }
    } else if box_type == BOX_STSS {
        TableView { sync: stss_spec(c), ..t }
    } else if box_type == BOX_CTTS {
        TableView { ctts: ctts_spec(c), ..t }
    } else {
        t
    }
}

/// Whether a complete child box of at least 8 bytes starts at `pos`.
pub open spec fn child_at(d: Seq<u8>, pos: int) -> bool {
    &&& 0 <= pos
    &&& pos + 8 <= d.len()
    &&& be_u32_at(d, pos) >= 8
    &&& pos + be_u32_at(d, pos) <= d.len()
}

/// The payload of the child box at `pos`.
pub open spec fn child_content(d: Seq<u8>, pos: int) -> Seq<u8> {
    d.subrange(pos + 8, pos + be_u32_at(d, pos))
}

/// The `stbl` walk from `pos`: the codec of the last `stsd` and the last
/// table of each kind; `None` where reading the codec would fail.
pub open spec fn stbl_walk(
    d: Seq<u8>,
    media_type: Seq<u8>,
    pos: int,
    codec: Option<Result<CodecText, Mp4Error>>,
    t: TableView,
) -> Option<(Option<Result<CodecText, Mp4Error>>, TableView)>
    decreases d.len() - pos,
{
    if !child_at(d, pos) {
        Some((codec, t))
    } else {
        let next = pos + be_u32_at(d, pos);
        let ty = be_u32_at(d, pos + 4);
        let c = child_content(d, pos);
        if ty == BOX_STSD {
            if stsd_panics(c, media_type) {
                None
            } else {
                stbl_walk(d, media_type, next, Some(stsd_codec(c, media_type)), t)
            }
        } else {
            stbl_walk(d, media_type, next, codec, table_step(t, ty, c))
        }
    }
}

/// What `stbl` gives: its codec (an error when it has no `stsd`), and the
/// pending table, replaced when `stsz` lists samples.
#[verifier::opaque]
pub open spec fn stbl_result(d: Seq<u8>, media_type: Seq<u8>, pending: Option<TableView>) -> Option<
    (Result<CodecText, Mp4Error>, Option<TableView>),
> {
    match stbl_walk(d, media_type, 0, None, empty_table()) {
        None => None,
        Some((codec, t)) => Some(
            (
                match codec {
                    Some(r) => r,
                    None => Err(Mp4Error::NotFound),
                },
                if t.sizes.len() > 0 {
                    Some(t)
                } else {
                    pending
                },
            ),
        ),
    }
}

/// The content range of the first `stbl` child from `pos`.
pub open spec fn first_stbl(d: Seq<u8>, pos: int) -> Option<(int, int)>
    decreases d.len() - pos,
{
    if !child_at(d, pos) {
        None
    } else if be_u32_at(d, pos + 4) == BOX_STBL {
        Some((pos + 8, pos + be_u32_at(d, pos)))
    } else {
        first_stbl(d, pos + be_u32_at(d, pos))
    }
}

/// What `minf` gives: the result of its first `stbl`, else the default
/// codec of the media type.
#[verifier::opaque]
pub open spec fn minf_result(d: Seq<u8>, media_type: Seq<u8>, pending: Option<TableView>) -> Option<
    (Result<CodecText, Mp4Error>, Option<TableView>),
> {
    match first_stbl(d, 0) {
        Some((s, e)) => stbl_result(d.subrange(s, e), media_type, pending),
        None => Some((Ok(default_codec(media_type)), pending)),
    }
}

/// What the walk of `mdia` has found so far.
pub struct MdiaState {
    pub media_type: Seq<u8>,
    pub timescale: u32,
    pub duration: u64,
    pub codec: CodecText,
    pub pending: Option<TableView>,
}

/// The `mdia` walk from `pos`: `mdhd` gives timescale and duration, `hdlr`
/// the media type, `minf` the codec and tables.
pub open spec fn mdia_walk(d: Seq<u8>, pos: int, st: MdiaState) -> Option<MdiaState>
    decreases d.len() - pos,
{
    if !child_at(d, pos) {
        Some(st)
    } else {
        let next = pos + be_u32_at(d, pos);
        let ty = be_u32_at(d, pos + 4);
        let c = child_content(d, pos);
        if ty == BOX_MDHD {
            if c.len() >= 20 {
                mdia_walk(
                    d,
                    next,
                    MdiaState { timescale: be_u32_at(c, 12), duration: be_u32_at(c, 16) as u64, ..st },
                )
            } else {
                mdia_walk(d, next, st)
            }
        } else if ty == BOX_HDLR {
            if c.len() >= 12 {
                mdia_walk(d, next, MdiaState { media_type: c.subrange(8, 12), ..st })
            } else {
                mdia_walk(d, next, st)
            }
        } else if ty == BOX_MINF {
            match minf_result(c, st.media_type, st.pending) {
                None => None,
                Some((Ok(codec), p)) => mdia_walk(d, next, MdiaState { codec: codec, pending: p, ..st }),
                Some((Err(_), p)) => mdia_walk(d, next, MdiaState { pending: p, ..st }),
            }
        } else {
            mdia_walk(d, next, st)
        }
    }
}

/// Where an `mdia` walk starts.
pub open spec fn mdia_init(pending: Option<TableView>) -> MdiaState {
    MdiaState {
        media_type: Seq::empty(),
        timescale: 1000,
        duration: 0,
        codec: (Seq::empty(), Seq::empty(), None),
        pending: pending,
    }
}

/// What `mdia` gives, walked from its start.
#[verifier::opaque]
pub open spec fn mdia_result(d: Seq<u8>, pending: Option<TableView>) -> Option<MdiaState> {
    mdia_walk(d, 0, mdia_init(pending))
}

/// What the walk of `trak` has found so far.
pub struct TrakState {
    pub track_id: u32,
    pub mdia: MdiaState,
}

/// The `trak` walk from `pos`: `tkhd` gives the track id and each `mdia`
/// the media information. A `tkhd` payload of 12 to 15 bytes is read and
/// then skipped once more.
pub open spec fn trak_walk(d: Seq<u8>, pos: int, st: TrakState) -> Option<TrakState>
    decreases d.len() - pos,
{
    if !child_at(d, pos) {
        Some(st)
    } else {
        let size = be_u32_at(d, pos) as int;
        let next = pos + size;
        let ty = be_u32_at(d, pos + 4);
        let c = child_content(d, pos);
        if ty == BOX_TKHD {
            if c.len() < 12 {
                trak_walk(d, next, st)
            } else if c.len() >= 16 {
                trak_walk(d, next, TrakState { track_id: be_u32_at(c, 12), ..st })
            } else {
                if next + size - 8 <= d.len() {
                    trak_walk(d, next + size - 8, st)
                } else {
                    Some(st)
                }
            }
        } else if ty == BOX_MDIA {
            match mdia_result(c, st.mdia.pending) {
                None => None,
                Some(m) => trak_walk(d, next, TrakState { mdia: m, ..st }),
            }
        } else {
            trak_walk(d, next, st)
        }
    }
}

/// The track that a `trak` payload describes: `Some(None)` when it has no
/// track id or no media type, `None` where parsing would fail.
#[verifier::opaque]
pub open spec fn trak_track(d: Seq<u8>) -> Option<Option<TrackView>> {
    match trak_walk(d, 0, TrakState { track_id: 0, mdia: mdia_init(None) }) {
        None => None,
        Some(st) => Some(
            if st.track_id > 0 && st.mdia.media_type.len() > 0 {
                Some(
                    TrackView {
                        track_id: st.track_id,
                        media_type: st.mdia.media_type,
                        timescale: st.mdia.timescale,
                        duration: st.mdia.duration,
                        codec: st.mdia.codec,
                        table: st.mdia.pending,
                    },
                )
            } else {
                None
            },
        ),
    }
}

/// The `moov` walk from `pos`: each `trak` may add a track.
pub open spec fn moov_walk(d: Seq<u8>, pos: int, acc: Seq<TrackView>) -> Option<Seq<TrackView>>
    decreases d.len() - pos,
{
    if !child_at(d, pos) {
        Some(acc)
    } else {
        let next = pos + be_u32_at(d, pos);
        if be_u32_at(d, pos + 4) == BOX_TRAK {
            match trak_track(child_content(d, pos)) {
                None => None,
                Some(Some(t)) => moov_walk(d, next, acc.push(t)),
                Some(None) => moov_walk(d, next, acc),
            }
        } else {
            moov_walk(d, next, acc)
        }
    }
}

/// The tracks after walking `moov` from its start.
#[verifier::opaque]
pub open spec fn moov_result(d: Seq<u8>, acc: Seq<TrackView>) -> Option<Seq<TrackView>> {
    moov_walk(d, 0, acc)
}

/// What parsing a file has found so far.
pub struct TopState {
    pub boxes: Seq<BoxView>,
    pub tracks: Seq<TrackView>,
    pub fragmented: bool,
    pub mdat_offset: u64,
}

/// The walk over top-level boxes from `pos`. A size of 1 announces a 64-bit
/// size after the type. The walk ends at a header or content that runs past
/// the end; `None` where a box is smaller than its header or its content
/// too large to allocate.
pub open spec fn top_walk(d: Seq<u8>, pos: int, st: TopState) -> Option<TopState>
    decreases d.len() - pos,
{
    if pos < 0 || pos + 8 > d.len() {
        Some(st)
    } else {
        let size32 = be_u32_at(d, pos);
        if size32 == 1 && pos + 16 > d.len() {
            Some(st)
        } else {
            let hdr: int = if size32 == 1 {
                16
            } else {
                8
            };
            let actual: int = if size32 == 1 {
                be_u64_at(d, pos + 8) as int
            } else {
                size32 as int
            };
            if actual < hdr || actual - hdr > isize::MAX {
                None
            } else if pos + actual > d.len() {
                Some(st)
            } else {
                let ty = be_u32_at(d, pos + 4);
                let c = d.subrange(pos + hdr, pos + actual);
                let b = BoxView {
                    box_type: d.subrange(pos + 4, pos + 8),
                    size: actual as u64,
                    content_start: (pos + hdr) as u64,
                    raw: Some(c),
                };
                let tracks = if ty == BOX_MOOV {
                    moov_result(c, st.tracks)
                } else {
                    Some(st.tracks)
                };
                match tracks {
                    None => None,
                    Some(tr) => top_walk(
                        d,
                        pos + actual,
                        TopState {
                            boxes: st.boxes.push(b),
                            tracks: tr,
                            fragmented: st.fragmented || ty == BOX_MOOF,
                            mdat_offset: if ty == BOX_MDAT {
                                (pos + hdr) as u64
                            } else {
                                st.mdat_offset
                            },
                        },
                    ),
                }
            }
        }
    }
}

/// Whether some box has the type `moof`.
pub open spec fn has_moof(boxes: Seq<BoxView>) -> bool {
    exists|i: int| 0 <= i < boxes.len() && (#[trigger] boxes[i]).box_type == u32_bytes(BOX_MOOF)
}

/// The top-level walk keeps the fragmented flag equal to whether a `moof`
/// box has been found.
pub proof fn lemma_top_walk_moof(d: Seq<u8>, pos: int, st: TopState)
    requires
        st.fragmented <==> has_moof(st.boxes),
    ensures
        top_walk(d, pos, st) matches Some(fin) ==> (fin.fragmented <==> has_moof(fin.boxes)),
    decreases d.len() - pos,
{
    if pos < 0 || pos + 8 > d.len() {
    } else {
        let size32 = be_u32_at(d, pos);
        if size32 == 1 && pos + 16 > d.len() {
        } else {
            let hdr: int = if size32 == 1 {
                16
            } else {
                8
            };
            let actual: int = if size32 == 1 {
                be_u64_at(d, pos + 8) as int
            } else {
                size32 as int
            };
            if actual < hdr || actual - hdr > isize::MAX {
            } else if pos + actual > d.len() {
            } else {
                let ty = be_u32_at(d, pos + 4);
                let c = d.subrange(pos + hdr, pos + actual);
                let b = BoxView {
                    box_type: d.subrange(pos + 4, pos + 8),
                    size: actual as u64,
                    content_start: (pos + hdr) as u64,
                    raw: Some(c),
                };
                let tracks = if ty == BOX_MOOV {
                    moov_result(c, st.tracks)
                } else {
                    Some(st.tracks)
                };
                match tracks {
                    None => {},
                    Some(tr) => {
                        let next = TopState {
                            boxes: st.boxes.push(b),
                            tracks: tr,
                            fragmented: st.fragmented || ty == BOX_MOOF,
                            mdat_offset: if ty == BOX_MDAT {
                                (pos + hdr) as u64
                            } else {
                                st.mdat_offset
                            },
                        };
                        let t = d.subrange(pos + 4, pos + 8);
                        crate::bytes_be::lemma_fourcc_bytes(t);
                        crate::bytes_be::lemma_u32_bytes_roundtrip(BOX_MOOF);
                        assert(crate::bytes_be::be_u32_at(t, 0) == ty);
                        assert((b.box_type == u32_bytes(BOX_MOOF)) <==> (ty == BOX_MOOF));
                        assert(next.fragmented <==> has_moof(next.boxes)) by {
                            if has_moof(st.boxes) {
                                let i = choose|i: int| 0 <= i < st.boxes.len() && (#[trigger] st.boxes[i]).box_type
                                    == u32_bytes(BOX_MOOF);
                                assert(next.boxes[i] == st.boxes[i]);
                            }
                            if ty == BOX_MOOF {
                                assert(next.boxes[st.boxes.len() as int] == b);
                            }
                            if has_moof(next.boxes) {
                                let i = choose|i: int| 0 <= i < next.boxes.len() && (#[trigger] next.boxes[i]).box_type
                                    == u32_bytes(BOX_MOOF);
                                if i < st.boxes.len() {
                                    assert(st.boxes[i] == next.boxes[i]);
                                }
                            }
                        }
                        lemma_top_walk_moof(d, pos + actual, next);
                    },
                }
            }
        }
    }
}

// ---------------------------------------------------------------------------
// The walks, executed
// ---------------------------------------------------------------------------

/// The text of an optional codec result.
pub open spec fn opt_codec_text(o: Option<Result<(String, String, Option<String>), Mp4Error>>) -> Option<
    Result<CodecText, Mp4Error>,
> {
    match o {
        Some(r) => Some(codec_result_text(r)),
        None => None,
    }
}

/// Read the next child header: its size when a complete child box starts
/// at `pos`.
fn child_size(data: &[u8], pos: usize) -> (r: Option<usize>)
    requires
        pos <= data@.len(),
    ensures
        r is Some <==> child_at(data@, pos as int),
        r is Some ==> r->Some_0 == be_u32_at(data@, pos as int) && pos + r->Some_0 <= data@.len()
            && r->Some_0 >= 8,
{
    let len = data.len();
    if len - pos < 8 {
        return None;
    }
    let size = read_u32_be(data, pos) as usize;
    if size < 8 || size > len - pos {
        return None;
    }
    Some(size)
}

/// Read one child box of `stbl` into the tables.
fn apply_table_box(table: &mut SampleTable, ty: u32, content: &[u8])
    ensures
        final(table)@ == table_step(old(table)@, ty, content@),
{
    proof {
        reveal(table_step);
    }
    if ty == BOX_STSZ {
        table.sample_sizes = Mp4Parser::parse_stsz(content);
    } else if ty == BOX_STTS {
        table.time_to_sample = Mp4Parser::parse_stts(content);
    } else if ty == BOX_STSC {
        table.sample_to_chunk = Mp4Parser::parse_stsc(content);
    } else if ty == BOX_STCO {
        table.chunk_offsets = Mp4Parser::parse_stco(content);
    } else if ty == BOX_CO64 {
        table.chunk_offsets = Mp4Parser::parse_co64(content);
    } else if ty == BOX_STSS {
        table.sync_samples = Mp4Parser::parse_stss(content);
    } else if ty == BOX_CTTS {
        table.composition_offsets = Mp4Parser::parse_ctts(content);
    }
}

/// Parse `stbl`: its codec and, when `stsz` lists samples, its tables.
fn parse_stbl_box(data: &[u8], media_type: &[u8], pending: Option<SampleTable>) -> (r: Option<
    (Result<(String, String, Option<String>), Mp4Error>, Option<SampleTable>),
>)
    ensures
        match r {
            Some(x) => stbl_result(data@, media_type@, opt_table_view(pending)) == Some(
                (codec_result_text(x.0), opt_table_view(x.1)),
            ),
            None => stbl_result(data@, media_type@, opt_table_view(pending)) is None,
        },
{
    proof {
        reveal(stbl_result);
    }
    let mut codec: Option<Result<(String, String, Option<String>), Mp4Error>> = None;
    let mut table = SampleTable::default();
    proof {
        assert(table.sample_sizes@ =~= Seq::<u32>::empty());
        assert(table.time_to_sample@ =~= Seq::<(u32, u32)>::empty());
        assert(table.sample_to_chunk@ =~= Seq::<(u32, u32, u32)>::empty());
        assert(table.chunk_offsets@ =~= Seq::<u64>::empty());
        assert(table.sync_samples@ =~= Seq::<u32>::empty());
        assert(table.composition_offsets@ =~= Seq::<(u32, i32)>::empty());
        assert(table@ == empty_table());
    }
    let mut pos: usize = 0;
    loop
        invariant
            pos <= data@.len(),
            stbl_walk(data@, media_type@, 0, None, empty_table()) == stbl_walk(
                data@,
                media_type@,
                pos as int,
                opt_codec_text(codec),
                table@,
            ),
        ensures
            stbl_walk(data@, media_type@, 0, None, empty_table()) == Some(
                (opt_codec_text(codec), table@),
            ),
        decreases data@.len() - pos,
    {
        let len = data.len();
        let found = child_size(data, pos);
        if found.is_none() {
            break;
        }
        let size = found.unwrap();
        let ty = read_u32_be(data, pos + 4);
        let content = copy_range(data, pos + 8, pos + size);
        if ty == BOX_STSD {
            if !crate::media::mp4_codec::stsd_readable(content.as_slice(), media_type) {
                assert(content@ == child_content(data@, pos as int));
                assert(stbl_walk(data@, media_type@, pos as int, opt_codec_text(codec), table@) is None);
                assert(stbl_walk(data@, media_type@, 0, None, empty_table()) is None);
                assert(stbl_result(data@, media_type@, opt_table_view(pending)) is None) by {
                    reveal(stbl_result);
                }
                return None;
            }
            codec = Some(parse_stsd_box(content.as_slice(), media_type));
        } else {
            apply_table_box(&mut table, ty, content.as_slice());
        }
        pos = pos + size;
    }
    let result = match codec {
        Some(c) => c,
        None => Err(Mp4Error::NotFound),
    };
    if table.sample_sizes.len() > 0 {
        Some((result, Some(table)))
    } else {
        Some((result, pending))
    }
}

/// Parse `minf`: the result of its first `stbl`, else the default codec.
fn parse_minf_box(data: &[u8], media_type: &[u8], pending: Option<SampleTable>) -> (r: Option<
    (Result<(String, String, Option<String>), Mp4Error>, Option<SampleTable>),
>)
    ensures
        match r {
            Some(x) => minf_result(data@, media_type@, opt_table_view(pending)) == Some(
                (codec_result_text(x.0), opt_table_view(x.1)),
            ),
            None => minf_result(data@, media_type@, opt_table_view(pending)) is None,
        },
{
    proof {
        reveal(minf_result);
    }
    let mut pos: usize = 0;
    loop
        invariant
            pos <= data@.len(),
            first_stbl(data@, 0) == first_stbl(data@, pos as int),
        ensures
            first_stbl(data@, 0) is None,
        decreases data@.len() - pos,
    {
        let len = data.len();
        let found = child_size(data, pos);
        if found.is_none() {
            break;
        }
        let size = found.unwrap();
        if read_u32_be(data, pos + 4) == BOX_STBL {
            let content = copy_range(data, pos + 8, pos + size);
            proof {
                reveal(minf_result);
            }
            return parse_stbl_box(content.as_slice(), media_type, pending);
        }
        pos = pos + size;
    }
    Some((Ok(default_codec_for(media_type)), pending))
}

/// Parse `mdia`: media type, timescale, duration, codec and tables.
fn parse_mdia_box(data: &[u8], pending: Option<SampleTable>) -> (r: Option<
    (Vec<u8>, u32, u64, (String, String, Option<String>), Option<SampleTable>),
>)
    ensures
        match r {
            Some(x) => mdia_result(data@, opt_table_view(pending)) == Some(
                MdiaState {
                    media_type: x.0@,
                    timescale: x.1,
                    duration: x.2,
                    codec: codec_text(x.3),
                    pending: opt_table_view(x.4),
                },
            ),
            None => mdia_result(data@, opt_table_view(pending)) is None,
        },
{
    proof {
        reveal(mdia_result);
    }
    let ghost init = mdia_init(opt_table_view(pending));
    let mut media_type: Vec<u8> = Vec::new();
    let mut timescale: u32 = 1000;
    let mut duration: u64 = 0;
    let mut codec: (String, String, Option<String>) = (String::new(), String::new(), None);
    let mut pend = pending;
    let mut pos: usize = 0;
    loop
        invariant
            pos <= data@.len(),
            init == mdia_init(opt_table_view(pending)),
            mdia_walk(data@, 0, init) == mdia_walk(
                data@,
                pos as int,
                MdiaState {
                    media_type: media_type@,
                    timescale: timescale,
                    duration: duration,
                    codec: codec_text(codec),
                    pending: opt_table_view(pend),
                },
            ),
        ensures
            mdia_walk(data@, 0, init) == Some(
                MdiaState {
                    media_type: media_type@,
                    timescale: timescale,
                    duration: duration,
                    codec: codec_text(codec),
                    pending: opt_table_view(pend),
                },
            ),
        decreases data@.len() - pos,
    {
        let len = data.len();
        let found = child_size(data, pos);
        if found.is_none() {
            break;
        }
        let size = found.unwrap();
        let ty = read_u32_be(data, pos + 4);
        let content = copy_range(data, pos + 8, pos + size);
        if ty == BOX_MDHD {
            if content.len() >= 20 {
                timescale = read_u32_be(content.as_slice(), 12);
                duration = read_u32_be(content.as_slice(), 16) as u64;
            }
        } else if ty == BOX_HDLR {
            if content.len() >= 12 {
                media_type = copy_range(content.as_slice(), 8, 12);
            }
        } else if ty == BOX_MINF {
            let ghost st = MdiaState {
                media_type: media_type@,
                timescale: timescale,
                duration: duration,
                codec: codec_text(codec),
                pending: opt_table_view(pend),
            };
            let (result, p) = match parse_minf_box(content.as_slice(), media_type.as_slice(), pend) {
                Some(x) => x,
                None => {
                    assert(content@ == child_content(data@, pos as int));
                    assert(mdia_walk(data@, pos as int, st) is None);
                    assert(mdia_walk(data@, 0, init) is None);
                    assert(mdia_result(data@, opt_table_view(pending)) is None) by {
                        reveal(mdia_result);
                    }
                    return None;
                },
            };
            pend = p;
            match result {
                Ok(c) => {
                    codec = c;
                },
                Err(_) => {},
            }
        }
        pos = pos + size;
    }
    Some((media_type, timescale, duration, codec, pend))
}

/// Parse `trak`: the track it describes, if it has an id and a media type.
fn parse_trak_box(data: &[u8]) -> (r: Option<Option<Mp4Track>>)
    ensures
        match r {
            Some(o) => trak_track(data@) == Some(
                match o {
                    Some(t) => Some(t@),
                    None => None,
                },
            ),
            None => trak_track(data@) is None,
        },
{
    proof {
        reveal(trak_track);
    }
    let ghost init = TrakState { track_id: 0, mdia: mdia_init(None) };
    let mut track_id: u32 = 0;
    let mut media_type: Vec<u8> = Vec::new();
    let mut timescale: u32 = 1000;
    let mut duration: u64 = 0;
    let mut codec: (String, String, Option<String>) = (String::new(), String::new(), None);
    let mut pend: Option<SampleTable> = None;
    let mut pos: usize = 0;
    loop
        invariant
            pos <= data@.len(),
            init == (TrakState { track_id: 0, mdia: mdia_init(None) }),
            trak_walk(data@, 0, init) == trak_walk(
                data@,
                pos as int,
                TrakState {
                    track_id: track_id,
                    mdia: MdiaState {
                        media_type: media_type@,
                        timescale: timescale,
                        duration: duration,
                        codec: codec_text(codec),
                        pending: opt_table_view(pend),
                    },
                },
            ),
        ensures
            trak_walk(data@, 0, init) == Some(
                TrakState {
                    track_id: track_id,
                    mdia: MdiaState {
                        media_type: media_type@,
                        timescale: timescale,
                        duration: duration,
                        codec: codec_text(codec),
                        pending: opt_table_view(pend),
                    },
                },
            ),
        decreases data@.len() - pos,
    {
        let len = data.len();
        let found = child_size(data, pos);
        if found.is_none() {
            break;
        }
        let size = found.unwrap();
        let ty = read_u32_be(data, pos + 4);
        let content_size = size - 8;
        if ty == BOX_TKHD {
            if content_size >= 16 {
                track_id = read_u32_be(data, pos + 8 + 12);
                proof {
                    let c = child_content(data@, pos as int);
                    assert(be_u32_at(c, 12) == be_u32_at(data@, pos + 8 + 12));
                }
            } else if content_size >= 12 {
                let next = pos + size;
                if data.len() - next < content_size {
                    break;
                }
                pos = next + content_size;
                continue;
            }
        } else if ty == BOX_MDIA {
            let content = copy_range(data, pos + 8, pos + size);
            let ghost st = TrakState {
                track_id: track_id,
                mdia: MdiaState {
                    media_type: media_type@,
                    timescale: timescale,
                    duration: duration,
                    codec: codec_text(codec),
                    pending: opt_table_view(pend),
                },
            };
            let (mt, ts, dur, c, p) = match parse_mdia_box(content.as_slice(), pend) {
                Some(x) => x,
                None => {
                    assert(content@ == child_content(data@, pos as int));
                    assert(trak_walk(data@, pos as int, st) is None);
                    assert(trak_walk(data@, 0, init) is None);
                    assert(trak_track(data@) is None) by {
                        reveal(trak_track);
                    }
                    return None;
                },
            };
            media_type = mt;
            timescale = ts;
            duration = dur;
            codec = c;
            pend = p;
        }
        pos = pos + size;
    }
    if track_id > 0 && media_type.len() > 0 {
        let (codec_name, mime, params) = codec;
        Some(
            Some(
                Mp4Track {
                    track_id,
                    media_type,
                    timescale,
                    duration,
                    codec: codec_name,
                    codec_mime_type: mime,
                    codec_params: params,
                    sample_table: pend,
                },
            ),
        )
    } else {
        Some(None)
    }
}

/// Parse `moov`, appending the tracks found to `tracks`.
fn parse_moov_box(data: &[u8], tracks: &mut Vec<Mp4Track>) -> (r: bool)
    ensures
        r == moov_result(data@, old(tracks)@.map_values(|t: Mp4Track| t@)) is Some,
        r ==> moov_result(data@, old(tracks)@.map_values(|t: Mp4Track| t@)) == Some(
            final(tracks)@.map_values(|t: Mp4Track| t@),
        ),
{
    proof {
        reveal(moov_result);
    }
    let ghost start = old(tracks)@.map_values(|t: Mp4Track| t@);
    let mut pos: usize = 0;
    loop
        invariant
            pos <= data@.len(),
            start == old(tracks)@.map_values(|t: Mp4Track| t@),
            moov_walk(data@, 0, start) == moov_walk(
                data@,
                pos as int,
                tracks@.map_values(|t: Mp4Track| t@),
            ),
        ensures
            moov_walk(data@, 0, start) == Some(tracks@.map_values(|t: Mp4Track| t@)),
        decreases data@.len() - pos,
    {
        let len = data.len();
        let found = child_size(data, pos);
        if found.is_none() {
            break;
        }
        let size = found.unwrap();
        if read_u32_be(data, pos + 4) == BOX_TRAK {
            let content = copy_range(data, pos + 8, pos + size);
            let ghost before = tracks@;
            match parse_trak_box(content.as_slice()) {
                Some(Some(t)) => {
                    tracks.push(t);
                    assert(tracks@.map_values(|t: Mp4Track| t@) =~= before.map_values(
                        |t: Mp4Track| t@,
                    ).push(t@));
                },
                Some(None) => {},
                None => {
                    assert(content@ == child_content(data@, pos as int));
                    assert(moov_walk(data@, pos as int, before.map_values(|t: Mp4Track| t@)) is None);
                    assert(moov_walk(data@, 0, start) is None);
                    assert(moov_result(data@, start) is None) by {
                        reveal(moov_result);
                    }
                    return false;
                },
            }
        }
        pos = pos + size;
    }
    true
}

impl Mp4Parser {
    /// The boxes found by the last parse.
    pub closed spec fn boxes_view(&self) -> Seq<BoxView> {
        self.boxes@.map_values(|b: Mp4Box| b@)
    }

    /// The tracks found by the last parse.
    pub closed spec fn tracks_view(&self) -> Seq<TrackView> {
        self.tracks@.map_values(|t: Mp4Track| t@)
    }

    /// Whether a `moof` box has been seen.
    pub closed spec fn fragmented(&self) -> bool {
        self.is_fragmented
    }

    /// Where the payload of the last `mdat` starts.
    pub closed spec fn mdat_offset(&self) -> u64 {
        self.mdat_payload_offset
    }

    /// A parser that has found nothing yet.
    pub fn new() -> (r: Self)
        ensures
            r.boxes_view().len() == 0,
            r.tracks_view().len() == 0,
            !r.fragmented(),
            r.mdat_offset() == 0,
            r.converter_state() == (ConvState { seq: 1, time: 0 }),
    {
        Mp4Parser {
            boxes: Vec::new(),
            tracks: Vec::new(),
            is_fragmented: false,
            fmp4_converter: FragmentedMp4Converter::new(),
            mdat_payload_offset: 0,
        }
    }

    /// Whether parsing `data` gets through every box.
    pub open spec fn parses(&self, data: Seq<u8>) -> bool {
        top_walk(data, 0, self.parse_start()) is Some
    }

    /// Where a parse starts: nothing found yet, whatever earlier parses
    /// found.
    pub open spec fn parse_start(&self) -> TopState {
        TopState { boxes: Seq::empty(), tracks: Seq::empty(), fragmented: false, mdat_offset: 0 }
    }

    /// Parse an MP4 file: its top-level boxes, and the tracks of `moov`.
    /// Parsing stops quietly at a box that runs past the end of the data.
    pub fn parse(&mut self, data: &[u8]) -> (r: Result<(), Mp4Error>)
        requires
            old(self).parses(data@),
        ensures
            r is Ok,
            top_walk(data@, 0, old(self).parse_start()) == Some(
                TopState {
                    boxes: final(self).boxes_view(),
                    tracks: final(self).tracks_view(),
                    fragmented: final(self).fragmented(),
                    mdat_offset: final(self).mdat_offset(),
                },
            ),
            final(self).fragmented() <==> has_moof(final(self).boxes_view()),
    {
        self.parse_walk(data);
        proof {
            lemma_top_walk_moof(data@, 0, old(self).parse_start());
        }
        Ok(())
    }

    /// Whether [`Self::parse`] can parse `data` (see [`Self::parses`]): a
    /// test to run on untrusted input first. The parser is not changed.
    pub fn can_parse(&self, data: &[u8]) -> (r: bool)
        ensures
            r == self.parses(data@),
    {
        let mut scratch = Mp4Parser {
            boxes: Vec::new(),
            tracks: Vec::new(),
            is_fragmented: false,
            fmp4_converter: FragmentedMp4Converter::new(),
            mdat_payload_offset: 0,
        };
        assert(scratch.parse_start() == self.parse_start()) by {
            assert(scratch.boxes_view() =~= Seq::<BoxView>::empty());
        }
        scratch.parse_walk(data)
    }

    /// The walk of [`Self::parse`], stopping with `false` where parsing
    /// cannot go on.
    fn parse_walk(&mut self, data: &[u8]) -> (ok: bool)
        ensures
            ok == old(self).parses(data@),
            ok ==> top_walk(data@, 0, old(self).parse_start()) == Some(
                TopState {
                    boxes: final(self).boxes_view(),
                    tracks: final(self).tracks_view(),
                    fragmented: final(self).fragmented(),
                    mdat_offset: final(self).mdat_offset(),
                },
            ),
    {
        let ghost init = self.parse_start();
        self.boxes = Vec::new();
        self.tracks = Vec::new();
        self.is_fragmented = false;
        self.mdat_payload_offset = 0;
        proof {
            assert(self.boxes_view() =~= Seq::<BoxView>::empty());
            assert(self.tracks_view() =~= Seq::<TrackView>::empty());
        }
        let len = data.len();
        let mut pos: usize = 0;
        loop
            invariant
                len == data@.len(),
                pos <= len,
                init == old(self).parse_start(),
                top_walk(data@, 0, init) == top_walk(
                    data@,
                    pos as int,
                    TopState {
                        boxes: self.boxes_view(),
                        tracks: self.tracks_view(),
                        fragmented: self.fragmented(),
                        mdat_offset: self.mdat_offset(),
                    },
                ),
            ensures
                top_walk(data@, 0, init) == Some(
                    TopState {
                        boxes: self.boxes_view(),
                        tracks: self.tracks_view(),
                        fragmented: self.fragmented(),
                        mdat_offset: self.mdat_offset(),
                    },
                ),
            decreases len - pos,
        {
            if len - pos < 8 {
                break;
            }
            let size32 = read_u32_be(data, pos);
            if size32 == 1 && len - pos < 16 {
                break;
            }
            let hdr: usize = if size32 == 1 {
                16
            } else {
                8
            };
            let actual: u64 = if size32 == 1 {
                read_u64_be(data, pos + 8)
            } else {
                size32 as u64
            };
            if actual < hdr as u64 || actual - hdr as u64 > isize::MAX as u64 {
                return false;
            }
            if actual > (len - pos) as u64 {
                break;
            }
            let end = pos + actual as usize;
            let ty = read_u32_be(data, pos + 4);
            let content = copy_range(data, pos + hdr, end);
            if ty == BOX_MOOV {
                if !parse_moov_box(content.as_slice(), &mut self.tracks) {
                    return false;
                }
            }
            if ty == BOX_MOOF {
                self.is_fragmented = true;
            }
            if ty == BOX_MDAT {
                self.mdat_payload_offset = (pos + hdr) as u64;
            }
            let ghost before = self.boxes@;
            let b = Mp4Box {
                header: BoxHeader {
                    box_type: copy_range(data, pos + 4, pos + 8),
                    size: actual,
                    content_start: (pos + hdr) as u64,
                },
                content: BoxContent::Raw(content),
            };
            self.boxes.push(b);
            proof {
                assert(self.boxes@.map_values(|b: Mp4Box| b@) =~= before.map_values(
                    |b: Mp4Box| b@,
                ).push(b@));
            }
            pos = end;
        }
        true
    }

    /// Parse the payload of an `ftyp` box: major brand, minor version and
    /// the compatible brands (whole four-byte groups only).
    pub fn parse_ftyp_box(&self, data: &[u8]) -> (r: Result<BoxContent, Mp4Error>)
        ensures
            data@.len() < 8 ==> r == Err::<BoxContent, Mp4Error>(Mp4Error::InvalidData),
            data@.len() >= 8 ==> (r matches Ok(BoxContent::FileType { major_brand, minor_version, compatible_brands })
                && major_brand@ == data@.subrange(0, 4)
                && minor_version == be_u32_at(data@, 4)
                && compatible_brands@.len() == (data@.len() - 8) / 4
                && forall|i: int| 0 <= i < compatible_brands@.len()
                    ==> (#[trigger] compatible_brands@[i])@ == data@.subrange(8 + 4 * i, 12 + 4 * i)),
    {
        if data.len() < 8 {
            return Err(Mp4Error::InvalidData);
        }
        let major_brand = copy_range(data, 0, 4);
        let minor_version = read_u32_be(data, 4);
        let mut brands: Vec<Vec<u8>> = Vec::new();
        let len = data.len();
        let mut off: usize = 8;
        while len - off >= 4
            invariant
                len == data@.len(),
                8 <= off <= len,
                off == 8 + 4 * brands@.len(),
                forall|i: int| 0 <= i < brands@.len()
                    ==> (#[trigger] brands@[i])@ == data@.subrange(8 + 4 * i, 12 + 4 * i),
            decreases len - off,
        {
            brands.push(copy_range(data, off, off + 4));
            off = off + 4;
        }
        proof {
            let n = brands@.len() as int;
            vstd::arithmetic::div_mod::lemma_fundamental_div_mod_converse(
                len - 8,
                4,
                n,
                len - 8 - 4 * n,
            );
        }
        Ok(BoxContent::FileType { major_brand, minor_version, compatible_brands: brands })
    }

    /// The boxes found by the last parse.
    pub fn get_boxes(&self) -> (r: &[Mp4Box])
        ensures
            r@.map_values(|b: Mp4Box| b@) == self.boxes_view(),
    {
        self.boxes.as_slice()
    }

    /// The tracks found by the last parse.
    pub fn get_tracks(&self) -> (r: &[Mp4Track])
        ensures
            r@.map_values(|t: Mp4Track| t@) == self.tracks_view(),
    {
        self.tracks.as_slice()
    }

    /// Whether the file is already fragmented (a `moof` box was seen).
    pub fn is_fragmented(&self) -> (r: bool)
        ensures
            r == self.fragmented(),
    {
        self.is_fragmented
    }

    /// One line describing what the parse found.
    pub fn get_summary(&self) -> (r: String)
        ensures
            r@ == "MP4 Summary: "@ + decimal(self.boxes_view().len()) + " boxes, "@ + decimal(
                self.tracks_view().len(),
            ) + " tracks, fragmented: "@ + bool_text(self.fragmented()) + ", box types: ["@
                + joined_types(self.boxes_view(), self.boxes_view().len() as int) + "]"@,
    {
        let mut s = String::from_str("MP4 Summary: ");
        push_decimal(&mut s, self.boxes.len() as u64);
        s.append(" boxes, ");
        push_decimal(&mut s, self.tracks.len() as u64);
        s.append(" tracks, fragmented: ");
        push_bool(&mut s, self.is_fragmented);
        s.append(", box types: [");
        let ghost head = s@;
        let mut i: usize = 0;
        while i < self.boxes.len()
            invariant
                i <= self.boxes@.len(),
                s@ == head + joined_types(self.boxes_view(), i as int),
            decreases self.boxes@.len() - i,
        {
            if i > 0 {
                s.append(", ");
            }
            let name = lossy_string(self.boxes[i].header.box_type.as_slice());
            s.append(name.as_str());
            i = i + 1;
            assert(s@ =~= head + joined_types(self.boxes_view(), i as int));
        }
        s.append("]");
        s
    }

    /// Codec name and MIME type of the first video track.
    pub fn get_video_codec_info(&self) -> (r: Option<(&str, &str)>)
        ensures
            match (find_track(self.tracks_view(), u32_bytes(HANDLER_VIDE), 0), r) {
                (Some(i), Some((c, m))) => c@ == self.tracks_view()[i].codec.0 && m@
                    == self.tracks_view()[i].codec.1,
                (None, None) => true,
                _ => false,
            },
    {
        match self.find_track_index(HANDLER_VIDE) {
            Some(i) => {
                assert(self.tracks_view()[i as int] == self.tracks@[i as int]@);
                Some((self.tracks[i].codec.as_str(), self.tracks[i].codec_mime_type.as_str()))
            },
            None => None,
        }
    }

    /// Codec name and MIME type of the first audio track.
    pub fn get_audio_codec_info(&self) -> (r: Option<(&str, &str)>)
        ensures
            match (find_track(self.tracks_view(), u32_bytes(HANDLER_SOUN), 0), r) {
                (Some(i), Some((c, m))) => c@ == self.tracks_view()[i].codec.0 && m@
                    == self.tracks_view()[i].codec.1,
                (None, None) => true,
                _ => false,
            },
    {
        match self.find_track_index(HANDLER_SOUN) {
            Some(i) => {
                assert(self.tracks_view()[i as int] == self.tracks@[i as int]@);
                Some((self.tracks[i].codec.as_str(), self.tracks[i].codec_mime_type.as_str()))
            },
            None => None,
        }
    }

    /// Whether some track is an audio track.
    pub fn has_audio_track(&self) -> (r: bool)
        ensures
            r == (find_track(self.tracks_view(), u32_bytes(HANDLER_SOUN), 0) is Some),
    {
        self.find_track_index(HANDLER_SOUN).is_some()
    }

    /// Whether some track is a video track.
    pub fn has_video_track(&self) -> (r: bool)
        ensures
            r == (find_track(self.tracks_view(), u32_bytes(HANDLER_VIDE), 0) is Some),
    {
        self.find_track_index(HANDLER_VIDE).is_some()
    }

    /// Index of the first track with this handler type.
    pub(crate) fn find_track_index(&self, handler: u32) -> (r: Option<usize>)
        ensures
            match r {
                Some(i) => find_track(self.tracks_view(), u32_bytes(handler), 0) == Some(i as int) && i
                    < self.tracks_view().len(),
                None => find_track(self.tracks_view(), u32_bytes(handler), 0) is None,
            },
    {
        let mut i: usize = 0;
        while i < self.tracks.len()
            invariant
                i <= self.tracks@.len(),
                find_track(self.tracks_view(), u32_bytes(handler), 0) == find_track(
                    self.tracks_view(),
                    u32_bytes(handler),
                    i as int,
                ),
            decreases self.tracks@.len() - i,
        {
            if crate::bytes_be::is_fourcc(self.tracks[i].media_type.as_slice(), handler) {
                return Some(i);
            }
            i = i + 1;
        }
        None
    }

}


/// Box type names separated by ", ", for the first `k` boxes; each name is
/// the text that the four type bytes make.
pub open spec fn joined_types(boxes: Seq<BoxView>, k: int) -> Seq<char>
    decreases k,
{
    if k <= 0 {
        Seq::empty()
    } else if k == 1 {
        utf8_lossy(boxes[0].box_type)
    } else {
        joined_types(boxes, k - 1) + ", "@ + utf8_lossy(boxes[k - 1].box_type)
    }
}

/// Index of the first track from `from` with the given media type.
pub open spec fn find_track(tracks: Seq<TrackView>, media_type: Seq<u8>, from: int) -> Option<int>
    decreases tracks.len() - from,
{
    if from < 0 || from >= tracks.len() {
        None
    } else if tracks[from].media_type == media_type {
        Some(from)
    } else {
        find_track(tracks, media_type, from + 1)
    }
}


// ---------------------------------------------------------------------------
// Writing boxes back
// ---------------------------------------------------------------------------

/// A segment as values.
pub struct SegView {
    pub segment_type: Seq<char>,
    pub data: Seq<u8>,
    pub timestamp: Option<u64>,
    pub duration: Option<u64>,
    pub is_keyframe: bool,
    pub track_id: u32,
}

impl View for MseSegment {
    type V = SegView;

    open spec fn view(&self) -> SegView {
        SegView {
            segment_type: self.segment_type@,
            data: self.data@,
            timestamp: self.timestamp,
            duration: self.duration,
            is_keyframe: self.is_keyframe,
            track_id: self.track_id,
        }
    }
}

/// The brands' bytes, one after the other, for the first `k` brands.
pub open spec fn concat_brands(bs: Seq<Vec<u8>>, k: int) -> Seq<u8>
    decreases k,
{
    if k <= 0 {
        Seq::empty()
    } else {
        concat_brands(bs, k - 1) + bs[k - 1]@
    }
}

/// The payload bytes that a box's content writes: raw content as it is, a
/// file type as brand, version and brands; nothing for other content.
pub open spec fn content_bytes(c: BoxContent) -> Seq<u8> {
    match c {
        BoxContent::Raw(v) => v@,
        BoxContent::FileType { major_brand, minor_version, compatible_brands } => major_brand@
            + u32_bytes(minor_version) + concat_brands(compatible_brands@, compatible_brands@.len() as int),
        _ => Seq::empty(),
    }
}

/// A box written back: 32-bit size, the UTF-8 bytes of its type as text, and
/// its payload; nothing when the type text is not four bytes long or the box
/// would be over 100 000 000 bytes.
#[verifier::opaque]
pub open spec fn serialized(b: Mp4Box) -> Seq<u8> {
    let t = vstd::utf8::encode_utf8(utf8_lossy(b.header.box_type@));
    let c = content_bytes(b.content);
    if t.len() != 4 || 8 + c.len() > 100_000_000 {
        Seq::empty()
    } else {
        u32_bytes((8 + c.len()) as u32) + t + c
    }
}

/// The 32-bit size written for a payload of `len` bytes: 8 plus its length
/// taken modulo 2^32.
pub open spec fn size32(len: int) -> int {
    len % 0x1_0000_0000 + 8
}

/// A box of type `t` around `payload`, sized by [`size32`].
pub open spec fn wrapped_box(t: u32, payload: Seq<u8>) -> Seq<u8> {
    u32_bytes(size32(payload.len() as int) as u32) + u32_bytes(t) + payload
}

/// Wrap `payload` in a box of type `t`, sized by [`size32`].
fn make_box_sized(t: u32, payload: &[u8]) -> (r: Vec<u8>)
    requires
        size32(payload@.len() as int) <= u32::MAX,
    ensures
        r@ == wrapped_box(t, payload@),
{
    let low = (payload.len() as u64 % 0x1_0000_0000) as u32;
    let mut r: Vec<u8> = Vec::new();
    push_u32(&mut r, low + 8);
    push_u32(&mut r, t);
    push_all(&mut r, payload);
    r
}

impl Mp4Parser {
    /// Write a box back as bytes.
    fn serialize_box(&self, box_info: &Mp4Box) -> (r: Vec<u8>)
        ensures
            r@ == serialized(*box_info),
    {
        proof {
            reveal(serialized);
        }
        let name = lossy_string(box_info.header.box_type.as_slice());
        let type_bytes = name.as_str().as_bytes();
        if type_bytes.len() != 4 {
            return Vec::new();
        }
        let mut content: Vec<u8> = Vec::new();
        match &box_info.content {
            BoxContent::Raw(v) => {
                push_all(&mut content, v.as_slice());
            },
            BoxContent::FileType { major_brand, minor_version, compatible_brands } => {
                push_all(&mut content, major_brand.as_slice());
                push_u32(&mut content, *minor_version);
                let ghost head = content@;
                let mut i: usize = 0;
                while i < compatible_brands.len()
                    invariant
                        i <= compatible_brands@.len(),
                        content@ == head + concat_brands(compatible_brands@, i as int),
                    decreases compatible_brands@.len() - i,
                {
                    push_all(&mut content, compatible_brands[i].as_slice());
                    i = i + 1;
                    assert(content@ =~= head + concat_brands(compatible_brands@, i as int));
                }
            },
            _ => {},
        }
        assert(content@ =~= content_bytes(box_info.content));
        if content.len() > 100_000_000 - 8 {
            return Vec::new();
        }
        let mut data: Vec<u8> = Vec::new();
        push_u32(&mut data, 8 + content.len() as u32);
        push_all(&mut data, type_bytes);
        push_all(&mut data, content.as_slice());
        data
    }
}


// ---------------------------------------------------------------------------
// Fixing fragments for MSE
// ---------------------------------------------------------------------------

/// A `tfhd` at `off` with its flags fixed: base-data-offset-present cleared,
/// default-base-is-moof set.
pub open spec fn fix_one(d: Seq<u8>, off: int) -> Seq<u8> {
    d.update(off + 9, d[off + 9] | 2).update(off + 11, d[off + 11] & 0xfe)
}

/// Fixing a `tfhd` of at least 16 bytes at `off` changes only its 24-bit
/// flags (bytes 9 to 11 into it): base-data-offset-present (0x000001) is
/// cleared, default-base-is-moof (0x020000) is set, every other flag bit and
/// every other byte is kept; and the fixed box no longer needs fixing.
pub proof fn lemma_fix_one_flags(d: Seq<u8>, off: int)
    requires
        0 <= off,
        off + 16 <= d.len(),
    ensures
        ({
            let r = fix_one(d, off);
            let old_flags = (d[off + 9] as u32 * 0x1_0000 + d[off + 10] as u32 * 0x100 + d[off + 11] as u32) as u32;
            let new_flags = (r[off + 9] as u32 * 0x1_0000 + r[off + 10] as u32 * 0x100 + r[off + 11] as u32) as u32;
            &&& r.len() == d.len()
            &&& new_flags == ((old_flags & 0xff_fffe) | 0x02_0000)
            &&& forall|j: int| 0 <= j < d.len() && j != off + 9 && j != off + 11 ==> r[j] == d[j]
            &&& !tfhd_needs_fix(r, off, 16)
        }),
{
    let r = fix_one(d, off);
    let a = d[off + 9];
    let b = d[off + 10];
    let c = d[off + 11];
    assert(r[off + 9] == a | 2);
    assert(r[off + 10] == b);
    assert(r[off + 11] == c & 0xfe);
    assert(((a | 2) as u32 * 0x1_0000 + b as u32 * 0x100 + (c & 0xfe) as u32) as u32 == (((a as u32 * 0x1_0000
        + b as u32 * 0x100 + c as u32) as u32 & 0xff_fffe) | 0x02_0000)) by (bit_vector);
    assert(((a | 2) & 2) != 0 && ((c & 0xfe) & 1) == 0) by (bit_vector);
}

/// Fix every `tfhd` met walking boxes from `cursor` to the end of the
/// buffer, descending into `traf` and `mfhd` (where the inner walk also runs
/// on to the end of the buffer).
pub open spec fn fix_walk(d: Seq<u8>, cursor: int) -> Seq<u8>
    decreases d.len() - cursor,
{
    if !child_at(d, cursor) {
        d
    } else {
        let size = be_u32_at(d, cursor) as int;
        let ty = be_u32_at(d, cursor + 4);
        if ty == BOX_TFHD {
            let d2 = if size >= 16 {
                fix_one(d, cursor)
            } else {
                d
            };
            fix_walk(d2, cursor + size)
        } else if ty == BOX_TRAF || ty == BOX_MFHD {
            let d2 = fix_walk(d, cursor + 8);
            if d2.len() == d.len() {
                fix_walk(d2, cursor + size)
            } else {
                d2
            }
        } else {
            fix_walk(d, cursor + size)
        }
    }
}

/// Fixing flags keeps the length.
pub proof fn lemma_fix_walk_len(d: Seq<u8>, cursor: int)
    ensures
        fix_walk(d, cursor).len() == d.len(),
    decreases d.len() - cursor,
{
    if child_at(d, cursor) {
        let size = be_u32_at(d, cursor) as int;
        let ty = be_u32_at(d, cursor + 4);
        if ty == BOX_TFHD {
            let d2 = if size >= 16 {
                fix_one(d, cursor)
            } else {
                d
            };
            lemma_fix_walk_len(d2, cursor + size);
        } else if ty == BOX_TRAF || ty == BOX_MFHD {
            lemma_fix_walk_len(d, cursor + 8);
            lemma_fix_walk_len(fix_walk(d, cursor + 8), cursor + size);
        } else {
            lemma_fix_walk_len(d, cursor + size);
        }
    }
}

/// Whether the flags of a `tfhd` at `off` need fixing: it is big enough,
/// and base-data-offset-present is set or default-base-is-moof is not.
pub open spec fn tfhd_needs_fix(d: Seq<u8>, off: int, size: int) -> bool {
    size >= 16 && !((d[off + 9] & 2) != 0 && (d[off + 11] & 1) == 0)
}

/// Fix the flags of the `tfhd` box of `box_size` bytes at `box_offset` for
/// MSE: clear base-data-offset-present, set default-base-is-moof. Boxes
/// under 16 bytes are left alone. Whether the flags changed comes back.
fn fix_single_tfhd_flags(data: &mut Vec<u8>, box_offset: usize, box_size: usize) -> (r: bool)
    requires
        box_offset + box_size <= old(data)@.len(),
    ensures
        final(data)@ == if box_size >= 16 {
            fix_one(old(data)@, box_offset as int)
        } else {
            old(data)@
        },
        r == tfhd_needs_fix(old(data)@, box_offset as int, box_size as int),
{
    if box_size < 16 {
        return false;
    }
    let len = data.len();
    let flags_offset = box_offset + 9;
    if flags_offset + 3 > len {
        return false;
    }
    let f0 = data[box_offset + 9];
    let f2 = data[box_offset + 11];
    let needed = !((f0 & 2) != 0 && (f2 & 1) == 0);
    data.set(box_offset + 9, f0 | 2);
    data.set(box_offset + 11, f2 & 0xfe);
    needed
}

/// Fix the `tfhd` flags met walking from `start`.
fn fix_tfhd_flags_recursive(data: &mut Vec<u8>, start: usize)
    requires
        start <= old(data)@.len(),
    ensures
        final(data)@ == fix_walk(old(data)@, start as int),
    decreases old(data)@.len() - start,
{
    let ghost orig = data@;
    let len = data.len();
    let mut cursor = start;
    loop
        invariant
            len == data@.len(),
            len == orig.len(),
            orig == old(data)@,
            start <= cursor <= len,
            fix_walk(orig, start as int) == fix_walk(data@, cursor as int),
        ensures
            fix_walk(orig, start as int) == data@,
        decreases len - cursor,
    {
        let found = child_size(data.as_slice(), cursor);
        if found.is_none() {
            break;
        }
        let size = found.unwrap();
        let ty = read_u32_be(data.as_slice(), cursor + 4);
        if ty == BOX_TFHD {
            fix_single_tfhd_flags(data, cursor, size);
        } else if ty == BOX_TRAF || ty == BOX_MFHD {
            proof {
                lemma_fix_walk_len(data@, cursor as int + 8);
            }
            fix_tfhd_flags_recursive(data, cursor + 8);
        }
        cursor = cursor + size;
    }
}

/// What fixing the `tfhd` flags of a `moof` box gives: its payload with the
/// flags fixed, in a new `moof`; an error unless the content is raw.
#[verifier::opaque]
pub open spec fn fixed_moof(b: Mp4Box) -> Result<Seq<u8>, Mp4Error> {
    match b.content {
        BoxContent::Raw(v) => Ok(wrapped_box(BOX_MOOF, fix_walk(v@, 0))),
        _ => Err(Mp4Error::InvalidData),
    }
}

/// Whether fixing a `moof` box would overflow its 32-bit size.
pub open spec fn fixed_moof_overflows(b: Mp4Box) -> bool {
    match b.content {
        BoxContent::Raw(v) => size32(v@.len() as int) > u32::MAX,
        _ => false,
    }
}

/// Fix the `tfhd` flags of a `moof` box for MSE.
fn fix_moof_tfhd_flags(moof_box: &Mp4Box) -> (r: Result<Vec<u8>, Mp4Error>)
    requires
        !fixed_moof_overflows(*moof_box),
    ensures
        match (r, fixed_moof(*moof_box)) {
            (Ok(v), Ok(w)) => v@ == w,
            (Err(e), Err(f)) => e == f,
            _ => false,
        },
{
    proof {
        reveal(fixed_moof);
    }
    match &moof_box.content {
        BoxContent::Raw(v) => {
            let mut fixed = copy_range(v.as_slice(), 0, v.len());
            assert(fixed@ =~= v@);
            proof {
                lemma_fix_walk_len(v@, 0);
            }
            fix_tfhd_flags_recursive(&mut fixed, 0);
            Ok(make_box_sized(BOX_MOOF, fixed.as_slice()))
        },
        _ => Err(Mp4Error::InvalidData),
    }
}

/// A version-1 `tfdt` with a 64-bit decode time.
pub open spec fn tfdt_v1(t: u64) -> Seq<u8> {
    u32_bytes(20) + u32_bytes(BOX_TFDT) + seq![1u8, 0, 0, 0] + u64_bytes(t)
}

fn create_tfdt_box(t: u64) -> (r: Vec<u8>)
    ensures
        r@ == tfdt_v1(t),
{
    let mut r: Vec<u8> = Vec::new();
    push_u32(&mut r, 20);
    push_u32(&mut r, BOX_TFDT);
    r.push(1);
    r.push(0);
    r.push(0);
    r.push(0);
    push_u64(&mut r, t);
    assert(r@ =~= tfdt_v1(t));
    r
}

/// What a `traf` walk has kept: its `tfhd`, whether it held a `tfdt`, and
/// the other children (with each `tfdt` replaced).
pub struct TrafState {
    pub tfhd: Option<Seq<u8>>,
    pub has_tfdt: bool,
    pub rest: Seq<u8>,
}

/// The walk over the children of a `traf` (whole box in `d`) from `cursor`,
/// within the size its header declares. `None` where a header would be read
/// past the end.
pub open spec fn traf_walk(d: Seq<u8>, cursor: int, t: u64, st: TrafState) -> Option<TrafState>
    decreases d.len() - cursor,
{
    if cursor < 0 || cursor + 8 > be_u32_at(d, 0) || cursor >= d.len() {
        Some(st)
    } else if cursor + 8 > d.len() {
        None
    } else {
        let cs = be_u32_at(d, cursor) as int;
        if cs == 0 || cursor + cs > d.len() {
            Some(st)
        } else {
            let ty = be_u32_at(d, cursor + 4);
            let child = d.subrange(cursor, cursor + cs);
            let st2 = if ty == BOX_TFHD {
                TrafState { tfhd: Some(child), ..st }
            } else if ty == BOX_TFDT {
                TrafState { has_tfdt: true, rest: st.rest + tfdt_v1(t), ..st }
            } else {
                TrafState { rest: st.rest + child, ..st }
            };
            traf_walk(d, cursor + cs, t, st2)
        }
    }
}

/// A `traf` with a `tfdt` for decode time `t`: its `tfhd` first, then a new
/// `tfdt` if it had none, then its other children with any `tfdt`
/// replaced. `None` on input where building it panics.
#[verifier::opaque]
pub open spec fn ensured_traf(d: Seq<u8>, t: u64) -> Option<Result<Seq<u8>, Mp4Error>> {
    if d.len() < 8 {
        Some(Err(Mp4Error::InvalidData))
    } else {
        match traf_walk(d, 8, t, TrafState { tfhd: None, has_tfdt: false, rest: Seq::empty() }) {
            None => None,
            Some(st) => {
                let content = (match st.tfhd {
                    Some(h) => h,
                    None => Seq::empty(),
                }) + (if st.has_tfdt {
                    Seq::empty()
                } else {
                    tfdt_v1(t)
                }) + st.rest;
                if size32(content.len() as int) > u32::MAX {
                    None
                } else {
                    Some(Ok(wrapped_box(BOX_TRAF, content)))
                }
            },
        }
    }
}

/// The walk over the children of a `moof` (whole box in `d`) from `cursor`,
/// making sure each `traf` has a `tfdt`.
pub open spec fn moof_walk(d: Seq<u8>, cursor: int, t: u64, acc: Seq<u8>) -> Option<Result<Seq<u8>, Mp4Error>>
    decreases d.len() - cursor,
{
    if cursor < 0 || cursor + 8 > be_u32_at(d, 0) || cursor >= d.len() {
        Some(Ok(acc))
    } else if cursor + 8 > d.len() {
        None
    } else {
        let cs = be_u32_at(d, cursor) as int;
        if cs == 0 || cursor + cs > d.len() {
            Some(Ok(acc))
        } else {
            let child = d.subrange(cursor, cursor + cs);
            if be_u32_at(d, cursor + 4) == BOX_TRAF {
                match ensured_traf(child, t) {
                    None => None,
                    Some(Err(e)) => Some(Err(e)),
                    Some(Ok(traf)) => moof_walk(d, cursor + cs, t, acc + traf),
                }
            } else {
                moof_walk(d, cursor + cs, t, acc + child)
            }
        }
    }
}

/// A `moof` whose track fragments all carry a `tfdt` for decode time `t`.
#[verifier::opaque]
pub open spec fn ensured_moof(d: Seq<u8>, t: u64) -> Option<Result<Seq<u8>, Mp4Error>> {
    if d.len() < 8 || be_u32_at(d, 4) != BOX_MOOF {
        Some(Err(Mp4Error::InvalidData))
    } else {
        match moof_walk(d, 8, t, Seq::empty()) {
            None => None,
            Some(Err(e)) => Some(Err(e)),
            Some(Ok(content)) => if size32(content.len() as int) > u32::MAX {
                None
            } else {
                Some(Ok(wrapped_box(BOX_MOOF, content)))
            },
        }
    }
}

/// Make sure a `traf` box carries a `tfdt` for decode time `t`.
fn ensure_traf_has_tfdt(traf: &[u8], t: u64) -> (r: Result<Vec<u8>, Mp4Error>)
    requires
        ensured_traf(traf@, t) is Some,
    ensures
        match (r, ensured_traf(traf@, t)) {
            (Ok(v), Some(Ok(w))) => v@ == w,
            (Err(e), Some(Err(f))) => e == f,
            _ => false,
        },
{
    proof {
        reveal(ensured_traf);
    }
    let len = traf.len();
    if len < 8 {
        return Err(Mp4Error::InvalidData);
    }
    let traf_size = read_u32_be(traf, 0) as usize;
    let ghost init = TrafState { tfhd: None, has_tfdt: false, rest: Seq::empty() };
    let mut tfhd: Option<Vec<u8>> = None;
    let mut has_tfdt = false;
    let mut rest: Vec<u8> = Vec::new();
    let mut cursor: usize = 8;
    loop
        invariant
            len == traf@.len(),
            traf_size == be_u32_at(traf@, 0),
            8 <= cursor <= len,
            traf_walk(traf@, 8, t, init) is Some,
            traf_walk(traf@, 8, t, init) == traf_walk(
                traf@,
                cursor as int,
                t,
                TrafState {
                    tfhd: match tfhd {
                        Some(h) => Some(h@),
                        None => None,
                    },
                    has_tfdt: has_tfdt,
                    rest: rest@,
                },
            ),
        ensures
            traf_walk(traf@, 8, t, init) == Some(
                TrafState {
                    tfhd: match tfhd {
                        Some(h) => Some(h@),
                        None => None,
                    },
                    has_tfdt: has_tfdt,
                    rest: rest@,
                },
            ),
        decreases len - cursor,
    {
        if traf_size < 8 || cursor > traf_size - 8 || cursor >= len {
            break;
        }
        let cs = read_u32_be(traf, cursor) as usize;
        if cs == 0 || cs > len - cursor {
            break;
        }
        let ty = read_u32_be(traf, cursor + 4);
        if ty == BOX_TFHD {
            tfhd = Some(copy_range(traf, cursor, cursor + cs));
        } else if ty == BOX_TFDT {
            has_tfdt = true;
            let tfdt = create_tfdt_box(t);
            push_all(&mut rest, tfdt.as_slice());
        } else {
            push_range(&mut rest, traf, cursor, cursor + cs);
        }
        cursor = cursor + cs;
    }
    let mut content: Vec<u8> = Vec::new();
    match tfhd {
        Some(h) => {
            push_all(&mut content, h.as_slice());
        },
        None => {},
    }
    if !has_tfdt {
        let tfdt = create_tfdt_box(t);
        push_all(&mut content, tfdt.as_slice());
    }
    push_all(&mut content, rest.as_slice());
    Ok(make_box_sized(BOX_TRAF, content.as_slice()))
}

/// Make sure every track fragment of a `moof` box carries a `tfdt` for
/// decode time `t`.
fn ensure_moof_has_tfdt(moof: &[u8], t: u64) -> (r: Result<Vec<u8>, Mp4Error>)
    requires
        ensured_moof(moof@, t) is Some,
    ensures
        match (r, ensured_moof(moof@, t)) {
            (Ok(v), Some(Ok(w))) => v@ == w,
            (Err(e), Some(Err(f))) => e == f,
            _ => false,
        },
{
    proof {
        reveal(ensured_moof);
    }
    let len = moof.len();
    if len < 8 || read_u32_be(moof, 4) != BOX_MOOF {
        return Err(Mp4Error::InvalidData);
    }
    let moof_size = read_u32_be(moof, 0) as usize;
    let mut content: Vec<u8> = Vec::new();
    let mut failure: Option<Mp4Error> = None;
    let mut cursor: usize = 8;
    loop
        invariant_except_break
            failure is None,
        invariant
            len == moof@.len(),
            moof_size == be_u32_at(moof@, 0),
            8 <= cursor <= len,
            moof_walk(moof@, 8, t, Seq::empty()) is Some,
            moof_walk(moof@, 8, t, Seq::empty()) == moof_walk(moof@, cursor as int, t, content@),
        ensures
            match failure {
                Some(e) => moof_walk(moof@, 8, t, Seq::empty()) == Some(Err::<Seq<u8>, Mp4Error>(e)),
                None => moof_walk(moof@, 8, t, Seq::empty()) == Some(Ok::<Seq<u8>, Mp4Error>(content@)),
            },
        decreases len - cursor,
    {
        if moof_size < 8 || cursor > moof_size - 8 || cursor >= len {
            break;
        }
        let cs = read_u32_be(moof, cursor) as usize;
        if cs == 0 || cs > len - cursor {
            break;
        }
        if read_u32_be(moof, cursor + 4) == BOX_TRAF {
            let child = copy_range(moof, cursor, cursor + cs);
            match ensure_traf_has_tfdt(child.as_slice(), t) {
                Ok(traf) => {
                    push_all(&mut content, traf.as_slice());
                },
                Err(e) => {
                    failure = Some(e);
                    break;
                },
            }
        } else {
            push_range(&mut content, moof, cursor, cursor + cs);
        }
        cursor = cursor + cs;
    }
    match failure {
        Some(e) => {
            return Err(e);
        },
        None => {},
    }
    Ok(make_box_sized(BOX_MOOF, content.as_slice()))
}


// ---------------------------------------------------------------------------
// Track filtering
// ---------------------------------------------------------------------------

/// Walking the children of an `mdia` in `d[mc..end]`: the four bytes at
/// `off` into the first `hdlr` long enough to reach 16 bytes in.
pub open spec fn hdlr_bytes(d: Seq<u8>, mc: int, end: int, off: int) -> Option<Seq<u8>>
    decreases end - mc,
{
    if mc < 0 || mc + 8 > end {
        None
    } else {
        let isz = be_u32_at(d, mc) as int;
        if isz < 8 || mc + isz > end {
            None
        } else if be_u32_at(d, mc + 4) == BOX_HDLR && mc + 16 <= end {
            Some(d.subrange(mc + off, mc + off + 4))
        } else {
            hdlr_bytes(d, mc + isz, end, off)
        }
    }
}

/// The handler bytes read at `off` into the `hdlr` of the first `mdia` of a
/// `trak` box (whole box in `d`) that has one, walking from `cursor`.
pub open spec fn trak_handler(d: Seq<u8>, cursor: int, off: int) -> Option<Seq<u8>>
    decreases d.len() - cursor,
{
    if !child_at(d, cursor) {
        None
    } else {
        let size = be_u32_at(d, cursor) as int;
        if be_u32_at(d, cursor + 4) == BOX_MDIA {
            match hdlr_bytes(d, cursor + 8, cursor + size, off) {
                Some(h) => Some(h),
                None => trak_handler(d, cursor + size, off),
            }
        } else {
            trak_handler(d, cursor + size, off)
        }
    }
}

/// Whether reading the handler at `off` would run past the end of the data.
pub open spec fn hdlr_read_past(d: Seq<u8>, mc: int, end: int, off: int) -> bool
    decreases end - mc,
{
    if mc < 0 || mc + 8 > end {
        false
    } else {
        let isz = be_u32_at(d, mc) as int;
        if isz < 8 || mc + isz > end {
            false
        } else if be_u32_at(d, mc + 4) == BOX_HDLR && mc + 16 <= end {
            mc + off + 4 > d.len()
        } else {
            hdlr_read_past(d, mc + isz, end, off)
        }
    }
}

/// Whether the walk of [`trak_handler`] would read past the end of the data.
pub open spec fn trak_handler_past(d: Seq<u8>, cursor: int, off: int) -> bool
    decreases d.len() - cursor,
{
    if !child_at(d, cursor) {
        false
    } else {
        let size = be_u32_at(d, cursor) as int;
        if be_u32_at(d, cursor + 4) == BOX_MDIA {
            hdlr_read_past(d, cursor + 8, cursor + size, off) || (hdlr_bytes(
                d,
                cursor + 8,
                cursor + size,
                off,
            ) is None && trak_handler_past(d, cursor + size, off))
        } else {
            trak_handler_past(d, cursor + size, off)
        }
    }
}

/// Find the handler bytes at `off` into the first suitable `hdlr` among the
/// children in `trak[start..end]`.
fn find_hdlr_in_mdia(trak: &[u8], start: usize, end: usize, off: usize) -> (r: Option<Vec<u8>>)
    requires
        off == 12 || off == 16,
        start <= end <= trak@.len(),
        !hdlr_read_past(trak@, start as int, end as int, off as int),
    ensures
        match r {
            Some(h) => hdlr_bytes(trak@, start as int, end as int, off as int) == Some(h@),
            None => hdlr_bytes(trak@, start as int, end as int, off as int) is None,
        },
{
    let len = trak.len();
    let mut mc = start;
    loop
        invariant
            len == trak@.len(),
            start <= mc,
            end <= trak@.len(),
            off == 12 || off == 16,
            hdlr_bytes(trak@, start as int, end as int, off as int) == hdlr_bytes(
                trak@,
                mc as int,
                end as int,
                off as int,
            ),
            !hdlr_read_past(trak@, mc as int, end as int, off as int),
        ensures
            hdlr_bytes(trak@, start as int, end as int, off as int) is None,
        decreases end - mc,
    {
        if mc > end || end - mc < 8 {
            break;
        }
        let isz = read_u32_be(trak, mc) as usize;
        if isz < 8 || isz > end - mc {
            break;
        }
        if read_u32_be(trak, mc + 4) == BOX_HDLR && end - mc >= 16 {
            return Some(copy_range(trak, mc + off, mc + off + 4));
        }
        mc = mc + isz;
    }
    None
}

/// Find the handler bytes at `off` into the first suitable `hdlr` of a `trak`.
fn find_trak_handler(trak: &[u8], off: usize) -> (r: Option<Vec<u8>>)
    requires
        off == 12 || off == 16,
        !trak_handler_past(trak@, 8, off as int),
    ensures
        match r {
            Some(h) => trak_handler(trak@, 8, off as int) == Some(h@),
            None => trak_handler(trak@, 8, off as int) is None,
        },
{
    let len = trak.len();
    let mut cursor: usize = if len < 8 {
        len
    } else {
        8
    };
    proof {
        if len < 8 {
            assert(!child_at(trak@, 8));
            assert(!child_at(trak@, len as int));
        }
    }
    loop
        invariant
            len == trak@.len(),
            cursor <= len,
            off == 12 || off == 16,
            trak_handler(trak@, 8, off as int) == trak_handler(trak@, cursor as int, off as int),
            trak_handler_past(trak@, 8, off as int) == trak_handler_past(trak@, cursor as int, off as int),
            !trak_handler_past(trak@, cursor as int, off as int),
        ensures
            trak_handler(trak@, 8, off as int) is None,
        decreases len - cursor,
    {
        let found = child_size(trak, cursor);
        if found.is_none() {
            break;
        }
        let size = found.unwrap();
        if read_u32_be(trak, cursor + 4) == BOX_MDIA {
            match find_hdlr_in_mdia(trak, cursor + 8, cursor + size, off) {
                Some(h) => {
                    return Some(h);
                },
                None => {},
            }
        }
        cursor = cursor + size;
    }
    None
}

/// Whether reading the handler at `off` into the first suitable `hdlr`
/// among the children from `start` would run past the data.
fn hdlr_reads_past(trak: &[u8], start: usize, end: usize, off: usize) -> (r: bool)
    requires
        off == 12 || off == 16,
        start <= end <= trak@.len(),
    ensures
        r == hdlr_read_past(trak@, start as int, end as int, off as int),
{
    let len = trak.len();
    let mut mc = start;
    loop
        invariant
            len == trak@.len(),
            start <= mc,
            end <= trak@.len(),
            off == 12 || off == 16,
            hdlr_read_past(trak@, start as int, end as int, off as int) == hdlr_read_past(
                trak@,
                mc as int,
                end as int,
                off as int,
            ),
        decreases end - mc,
    {
        if mc > end || end - mc < 8 {
            return false;
        }
        let isz = read_u32_be(trak, mc) as usize;
        if isz < 8 || isz > end - mc {
            return false;
        }
        if read_u32_be(trak, mc + 4) == BOX_HDLR && end - mc >= 16 {
            return len - mc < off + 4;
        }
        mc = mc + isz;
    }
}

/// Whether reading the handler at `off` into the `hdlr` of a `trak` would
/// run past the data.
fn trak_handler_reads_past(trak: &[u8], off: usize) -> (r: bool)
    requires
        off == 12 || off == 16,
    ensures
        r == trak_handler_past(trak@, 8, off as int),
{
    let len = trak.len();
    let mut cursor: usize = if len < 8 {
        len
    } else {
        8
    };
    proof {
        if len < 8 {
            assert(!child_at(trak@, 8));
            assert(!child_at(trak@, len as int));
        }
    }
    loop
        invariant
            len == trak@.len(),
            cursor <= len,
            off == 12 || off == 16,
            trak_handler_past(trak@, 8, off as int) == trak_handler_past(trak@, cursor as int, off as int),
        decreases len - cursor,
    {
        let found = child_size(trak, cursor);
        if found.is_none() {
            return false;
        }
        let size = found.unwrap();
        if read_u32_be(trak, cursor + 4) == BOX_MDIA {
            if hdlr_reads_past(trak, cursor + 8, cursor + size, off) {
                return true;
            }
            if find_hdlr_in_mdia(trak, cursor + 8, cursor + size, off).is_some() {
                return false;
            }
        }
        cursor = cursor + size;
    }
}

/// Whether a `trak` box is a video track, by the handler type of its
/// `hdlr` box (the four bytes 16 into it); a handler that would be read
/// past the data is no video handler.
pub open spec fn is_video_trak(d: Seq<u8>) -> bool {
    !trak_handler_past(d, 8, 16) && trak_handler(d, 8, 16) == Some(u32_bytes(HANDLER_VIDE))
}

fn is_video_track(trak: &[u8]) -> (r: bool)
    ensures
        r == is_video_trak(trak@),
{
    if trak_handler_reads_past(trak, 16) {
        return false;
    }
    match find_trak_handler(trak, 16) {
        Some(h) => crate::bytes_be::is_fourcc(h.as_slice(), HANDLER_VIDE),
        None => false,
    }
}

/// The walk over `moov` content keeping every child but non-video `trak`s.
pub open spec fn video_only_walk(d: Seq<u8>, cursor: int, acc: Seq<u8>) -> Seq<u8>
    decreases d.len() - cursor,
{
    if !child_at(d, cursor) {
        acc
    } else {
        let size = be_u32_at(d, cursor) as int;
        let child = d.subrange(cursor, cursor + size);
        if be_u32_at(d, cursor + 4) == BOX_TRAK && !is_video_trak(child) {
            video_only_walk(d, cursor + size, acc)
        } else {
            video_only_walk(d, cursor + size, acc + child)
        }
    }
}

/// `moov` content without its non-video tracks.
fn create_video_only_moov(content: &[u8]) -> (r: Vec<u8>)
    ensures
        r@ == video_only_walk(content@, 0, Seq::empty()),
{
    let len = content.len();
    let mut out: Vec<u8> = Vec::new();
    let mut cursor: usize = 0;
    loop
        invariant
            len == content@.len(),
            cursor <= len,
            video_only_walk(content@, 0, Seq::empty()) == video_only_walk(content@, cursor as int, out@),
        ensures
            video_only_walk(content@, 0, Seq::empty()) == out@,
        decreases len - cursor,
    {
        let found = child_size(content, cursor);
        if found.is_none() {
            break;
        }
        let size = found.unwrap();
        let child = copy_range(content, cursor, cursor + size);
        if read_u32_be(content, cursor + 4) == BOX_TRAK && !is_video_track(child.as_slice()) {
        } else {
            push_all(&mut out, child.as_slice());
        }
        cursor = cursor + size;
    }
    out
}

/// Whether a window of four bytes holds an H.264 start code followed by an
/// SPS (7) or PPS (8) NAL unit.
pub open spec fn param_set_at(d: Seq<u8>, i: int) -> bool {
    &&& d[i] == 0
    &&& d[i + 1] == 0
    &&& d[i + 2] == 1
    &&& (d[i + 3] & 0x1f == 7 || d[i + 3] & 0x1f == 8)
}

/// Whether a media segment likely starts at a key frame: every fifth
/// segment, or one whose data holds an SPS or PPS.
#[verifier::opaque]
pub open spec fn likely_keyframe(d: Seq<u8>, index: int) -> bool {
    index % 5 == 0 || (d.len() > 4 && exists|i: int| 0 <= i && i + 4 <= d.len() && #[trigger] param_set_at(d, i))
}

/// Whether the four bytes at `i` are an H.264 start code `00 00 01`
/// followed by a NAL header whose low five bits are 7 (SPS) or 8 (PPS).
pub open spec fn sps_or_pps_at(d: Seq<u8>, i: int) -> bool {
    0 <= i && i + 4 <= d.len() && d[i] == 0 && d[i + 1] == 0 && d[i + 2] == 1 && ((d[i + 3] & 0x1f) == 7
        || (d[i + 3] & 0x1f) == 8)
}

/// A segment is taken to start at a key frame exactly when its number is a
/// multiple of five, or its data (longer than four bytes) holds an SPS or
/// PPS NAL unit after a start code, wherever it is.
pub proof fn lemma_likely_keyframe_law(d: Seq<u8>, index: int)
    ensures
        likely_keyframe(d, index) <==> (index % 5 == 0 || (d.len() > 4 && exists|i: int| #[trigger]
            sps_or_pps_at(d, i))),
{
    reveal(likely_keyframe);
    if exists|i: int| #[trigger] sps_or_pps_at(d, i) {
        let i = choose|i: int| #[trigger] sps_or_pps_at(d, i);
        assert(param_set_at(d, i));
    }
    if d.len() > 4 && exists|i: int| 0 <= i && i + 4 <= d.len() && #[trigger] param_set_at(d, i) {
        let i = choose|i: int| 0 <= i && i + 4 <= d.len() && #[trigger] param_set_at(d, i);
        assert(sps_or_pps_at(d, i));
    }
}

pub(crate) fn is_likely_keyframe(data: &[u8], segment_index: usize) -> (r: bool)
    ensures
        r == likely_keyframe(data@, segment_index as int),
        r <==> (segment_index % 5 == 0 || (data@.len() > 4 && exists|i: int| #[trigger] sps_or_pps_at(data@, i))),
{
    proof {
        reveal(likely_keyframe);
        lemma_likely_keyframe_law(data@, segment_index as int);
    }
    if segment_index % 5 == 0 {
        return true;
    }
    let len = data.len();
    if len > 4 {
        let mut i: usize = 0;
        while len - i >= 4
            invariant
                len == data@.len(),
                len > 4,
                i <= len,
                forall|j: int| 0 <= j < i ==> !#[trigger] param_set_at(data@, j),
            decreases len - i,
        {
            if data[i] == 0 && data[i + 1] == 0 && data[i + 2] == 1 {
                let nal_type = data[i + 3] & 0x1f;
                if nal_type == 7 || nal_type == 8 {
                    assert(param_set_at(data@, i as int));
                    assert(sps_or_pps_at(data@, i as int));
                    proof {
                        reveal(likely_keyframe);
                    }
                    return true;
                }
            }
            i = i + 1;
        }
    }
    false
}


// ---------------------------------------------------------------------------
// Segments of a fragmented file
// ---------------------------------------------------------------------------

/// Whether the box's type bytes are those of `t`.
pub open spec fn box_is(b: Mp4Box, t: u32) -> bool {
    b.header.box_type@ == u32_bytes(t)
}

/// Whether some audio track has the AC-3 codec.
pub open spec fn has_ac3_codec(tracks: Seq<TrackView>) -> bool {
    exists|i: int| 0 <= i < tracks.len() && is_audio_type(tracks[i].media_type) && #[trigger] tracks[i].codec.0 == "AC-3"@
}

/// The initialization data of a fragmented file, from the first `k` boxes:
/// each `ftyp` and `moov` written back (skipped when that gives nothing),
/// `moov` without its non-video tracks when `ac3` is set. `None` on input
/// where building it panics.
pub open spec fn frag_init(boxes: Seq<Mp4Box>, ac3: bool, k: int) -> Option<Seq<u8>>
    decreases k,
{
    if k <= 0 {
        Some(Seq::empty())
    } else {
        match frag_init(boxes, ac3, k - 1) {
            None => None,
            Some(acc) => {
                let b = boxes[k - 1];
                let s = serialized(b);
                let kept = if s.len() >= 8 {
                    acc + s
                } else {
                    acc
                };
                if box_is(b, BOX_FTYP) {
                    Some(kept)
                } else if box_is(b, BOX_MOOV) {
                    match b.content {
                        BoxContent::Raw(c) => if ac3 {
                            let vo = video_only_walk(c@, 0, Seq::empty());
                            if size32(vo.len() as int) > u32::MAX {
                                None
                            } else {
                                Some(acc + wrapped_box(BOX_MOOV, vo))
                            }
                        } else {
                            Some(kept)
                        },
                        _ => Some(kept),
                    }
                } else {
                    Some(acc)
                }
            },
        }
    }
}

/// Number of `moof` boxes among the first `k`.
pub open spec fn moof_count(boxes: Seq<Mp4Box>, k: int) -> int
    decreases k,
{
    if k <= 0 {
        0
    } else {
        moof_count(boxes, k - 1) + if box_is(boxes[k - 1], BOX_MOOF) {
            1int
        } else {
            0int
        }
    }
}

/// The media segment made of the `moof` at `i` and the `mdat` after it,
/// number `k`: the `moof` with its `tfhd` flags fixed and a `tfdt` at `k`
/// frame durations, then the `mdat`; its time and duration in
/// milliseconds. `None` on input where building it panics.
#[verifier::opaque]
pub open spec fn frag_segment(boxes: Seq<Mp4Box>, i: int, k: int, frame_duration: u64, timescale: u32) -> Option<
    Result<SegView, Mp4Error>,
> {
    if fixed_moof_overflows(boxes[i]) {
        None
    } else {
        match fixed_moof(boxes[i]) {
            Err(e) => Some(Err(e)),
            Ok(m) => {
                let t = k * frame_duration;
                if t > u64::MAX {
                    None
                } else {
                    match ensured_moof(m, t as u64) {
                        None => None,
                        Some(Err(e)) => Some(Err(e)),
                        Some(Ok(m2)) => {
                            let media = m2 + serialized(boxes[i + 1]);
                            if t * 1000 > u64::MAX || timescale == 0 || frame_duration * 1000 > u64::MAX {
                                None
                            } else {
                                Some(
                                    Ok(
                                        SegView {
                                            segment_type: "media"@,
                                            data: media,
                                            timestamp: Some(((t * 1000) / (timescale as int)) as u64),
                                            duration: Some(
                                                ((frame_duration * 1000) / (timescale as int)) as u64,
                                            ),
                                            is_keyframe: likely_keyframe(media, k),
                                            track_id: 1,
                                        },
                                    ),
                                )
                            }
                        },
                    }
                }
            },
        }
    }
}

/// The media segments of a fragmented file from box `i` on, numbered from
/// `k`: each `moof` followed by an `mdat` becomes one segment.
pub open spec fn frag_media(boxes: Seq<Mp4Box>, i: int, k: int, frame_duration: u64, timescale: u32) -> Option<
    Result<Seq<SegView>, Mp4Error>,
>
    decreases boxes.len() - i,
{
    if i < 0 || i >= boxes.len() {
        Some(Ok(Seq::empty()))
    } else if box_is(boxes[i], BOX_MOOF) && i + 1 < boxes.len() && box_is(boxes[i + 1], BOX_MDAT) {
        match frag_segment(boxes, i, k, frame_duration, timescale) {
            None => None,
            Some(Err(e)) => Some(Err(e)),
            Some(Ok(seg)) => match frag_media(boxes, i + 2, k + 1, frame_duration, timescale) {
                None => None,
                Some(Err(e)) => Some(Err(e)),
                Some(Ok(rest)) => Some(Ok(seq![seg] + rest)),
            },
        }
    } else {
        frag_media(boxes, i + 1, k, frame_duration, timescale)
    }
}

/// Each media segment of a fragmented file, from box `i` on, is a media
/// segment lasting the frame duration in milliseconds (at a non-zero
/// timescale), and one whose data (longer than four bytes) holds an SPS or
/// PPS NAL unit after a start code is marked as starting at a key frame;
/// there are no more of them than `moof` boxes from `i` on.
pub proof fn lemma_frag_media_segments(boxes: Seq<Mp4Box>, i: int, k: int, frame_duration: u64, timescale: u32)
    requires
        frag_media(boxes, i, k, frame_duration, timescale) matches Some(Ok(_)),
        0 <= i <= boxes.len(),
    ensures
        ({
            let v = frag_media(boxes, i, k, frame_duration, timescale)->Some_0->Ok_0;
            &&& v.len() <= moof_count(boxes, boxes.len() as int) - moof_count(boxes, i)
            &&& v.len() > 0 ==> timescale > 0 && frame_duration * 1000 <= u64::MAX
            &&& forall|j: int|
                0 <= j < v.len() ==> {
                    let s = #[trigger] v[j];
                    &&& s.segment_type == "media"@
                    &&& s.duration == Some(((frame_duration * 1000) / (timescale as int)) as u64)
                    &&& (s.data.len() > 4 && exists|x: int| sps_or_pps_at(s.data, x)) ==> s.is_keyframe
                }
        }),
    decreases boxes.len() - i,
{
    lemma_moof_count_mono(boxes, i, boxes.len() as int);
    if i >= boxes.len() {
    } else if box_is(boxes[i], BOX_MOOF) && i + 1 < boxes.len() && box_is(boxes[i + 1], BOX_MDAT) {
        reveal(frag_segment);
        let seg = frag_segment(boxes, i, k, frame_duration, timescale)->Some_0->Ok_0;
        lemma_likely_keyframe_law(seg.data, k);
        lemma_frag_media_segments(boxes, i + 2, k + 1, frame_duration, timescale);
        lemma_moof_count_mono(boxes, i + 2, boxes.len() as int);
        assert(moof_count(boxes, i + 1) == moof_count(boxes, i) + 1);
        assert(moof_count(boxes, i + 2) == moof_count(boxes, i + 1));
        let v = frag_media(boxes, i, k, frame_duration, timescale)->Some_0->Ok_0;
        let rest = frag_media(boxes, i + 2, k + 1, frame_duration, timescale)->Some_0->Ok_0;
        assert(v == seq![seg] + rest);
        assert forall|j: int| 0 <= j < v.len() implies {
            let s = #[trigger] v[j];
            &&& s.segment_type == "media"@
            &&& s.duration == Some(((frame_duration * 1000) / (timescale as int)) as u64)
            &&& (s.data.len() > 4 && exists|x: int| sps_or_pps_at(s.data, x)) ==> s.is_keyframe
        } by {
            if j > 0 {
                assert(v[j] == rest[j - 1]);
            }
        }
    } else {
        lemma_frag_media_segments(boxes, i + 1, k, frame_duration, timescale);
        lemma_moof_count_mono(boxes, i + 1, boxes.len() as int);
        assert(moof_count(boxes, i + 1) >= moof_count(boxes, i));
    }
}

/// `moof` counts grow with the number of boxes counted.
proof fn lemma_moof_count_mono(boxes: Seq<Mp4Box>, a: int, b: int)
    requires
        a <= b,
    ensures
        moof_count(boxes, a) <= moof_count(boxes, b),
    decreases b - a,
{
    if a < b {
        lemma_moof_count_mono(boxes, a, b - 1);
    }
}

/// In the segments of a fragmented file whose video track has a duration
/// `td` and that holds `n > 0` `moof` boxes, each fragment is given an equal
/// whole share of the track's duration (`share * n <= td < (share + 1) * n`),
/// and each media segment's duration in milliseconds, taken `n` times, is
/// no more than the track's duration in milliseconds: the media segments,
/// at most `n` of them, together last no longer than the track.
pub proof fn lemma_fragment_durations_share_track(boxes: Seq<Mp4Box>, tracks: Seq<TrackView>)
    requires
        extracted_segments(boxes, tracks) matches Some(Ok(_)),
        find_track(tracks, u32_bytes(HANDLER_VIDE), 0) matches Some(t) && tracks[t].duration > 0,
        moof_count(boxes, boxes.len() as int) > 0,
    ensures
        ({
            let v = extracted_segments(boxes, tracks)->Some_0->Ok_0;
            let n = moof_count(boxes, boxes.len() as int);
            let td = tracks[find_track(tracks, u32_bytes(HANDLER_VIDE), 0)->Some_0].duration;
            let ts = video_timescale(tracks);
            let share = frame_duration_estimate(boxes, tracks);
            &&& share * n <= td < (share + 1) * n
            &&& v.len() <= n + 1
            &&& forall|j: int|
                0 <= j < v.len() && (#[trigger] v[j]).segment_type == "media"@ ==> (v[j].duration matches Some(
                    d,
                ) && d * n * ts <= td * 1000)
        }),
{
    let n = moof_count(boxes, boxes.len() as int);
    let t = find_track(tracks, u32_bytes(HANDLER_VIDE), 0)->Some_0;
    let td = tracks[t].duration;
    let ts = video_timescale(tracks);
    let share = frame_duration_estimate(boxes, tracks);
    assert(share == (td as int) / n);
    assert(share * n <= td < (share + 1) * n) by (nonlinear_arith)
        requires
            n > 0,
            share == (td as int) / n,
    ;
    let init = frag_init(boxes, has_ac3_codec(tracks), boxes.len() as int)->Some_0;
    lemma_frag_media_segments(boxes, 0, 0, share, ts);
    let media = frag_media(boxes, 0, 0, share, ts)->Some_0->Ok_0;
    assert(moof_count(boxes, 0) == 0);
    let v = extracted_segments(boxes, tracks)->Some_0->Ok_0;
    let head: Seq<SegView> = if init.len() > 0 {
        seq![
            SegView {
                segment_type: "initialization"@,
                data: init,
                timestamp: None,
                duration: None,
                is_keyframe: true,
                track_id: 0,
            },
        ]
    } else {
        Seq::empty()
    };
    assert(v == head + media);
    reveal_strlit("initialization");
    reveal_strlit("media");
    assert forall|j: int|
        0 <= j < v.len() && (#[trigger] v[j]).segment_type == "media"@ implies (v[j].duration matches Some(d)
        && d * n * ts <= td * 1000) by {
        if j < head.len() {
            assert(v[j] == head[j]);
            assert(v[j].segment_type.len() != "media"@.len());
        } else {
            assert(v[j] == media[j - head.len()]);
            let d = ((share * 1000) / (ts as int)) as u64;
            assert(media.len() > 0);
            assert((share * 1000) / (ts as int) <= share * 1000) by (nonlinear_arith)
                requires
                    ts > 0,
                    share >= 0,
            ;
            assert(d * n * ts <= td * 1000) by (nonlinear_arith)
                requires
                    ts > 0,
                    n > 0,
                    d == (share * 1000) / (ts as int),
                    share * n <= td,
            ;
        }
    }
}

/// Timescale of the first video track, else 1000.
pub open spec fn video_timescale(tracks: Seq<TrackView>) -> u32 {
    match find_track(tracks, u32_bytes(HANDLER_VIDE), 0) {
        Some(i) => tracks[i].timescale,
        None => 1000,
    }
}

/// Duration per fragment: the video duration shared out over the `moof`
/// boxes, else a thirtieth of a second.
pub open spec fn frame_duration_estimate(boxes: Seq<Mp4Box>, tracks: Seq<TrackView>) -> u64 {
    let ts = video_timescale(tracks);
    let td: u64 = match find_track(tracks, u32_bytes(HANDLER_VIDE), 0) {
        Some(i) => tracks[i].duration,
        None => 0,
    };
    let fc = moof_count(boxes, boxes.len() as int);
    if fc > 0 && td > 0 {
        ((td as int) / fc) as u64
    } else {
        (ts / 30) as u64
    }
}

/// The segments of a fragmented file: the initialization segment (when
/// there is initialization data), then the media segments.
pub open spec fn extracted_segments(boxes: Seq<Mp4Box>, tracks: Seq<TrackView>) -> Option<
    Result<Seq<SegView>, Mp4Error>,
> {
    match frag_init(boxes, has_ac3_codec(tracks), boxes.len() as int) {
        None => None,
        Some(init) => {
            let head = if init.len() > 0 {
                seq![
                    SegView {
                        segment_type: "initialization"@,
                        data: init,
                        timestamp: None,
                        duration: None,
                        is_keyframe: true,
                        track_id: 0,
                    },
                ]
            } else {
                Seq::empty()
            };
            match frag_media(
                boxes,
                0,
                0,
                frame_duration_estimate(boxes, tracks),
                video_timescale(tracks),
            ) {
                None => None,
                Some(Err(e)) => Some(Err(e)),
                Some(Ok(media)) => Some(Ok(head + media)),
            }
        },
    }
}

/// Segments already made, put before what is still to come.
pub open spec fn prefixed(out: Seq<SegView>, x: Option<Result<Seq<SegView>, Mp4Error>>) -> Option<
    Result<Seq<SegView>, Mp4Error>,
> {
    match x {
        Some(Ok(rest)) => Some(Ok(out + rest)),
        other => other,
    }
}

proof fn lemma_prefixed_step(out: Seq<SegView>, s: SegView, x: Option<Result<Seq<SegView>, Mp4Error>>)
    ensures
        prefixed(
            out,
            match x {
                None => None,
                Some(Err(e)) => Some(Err(e)),
                Some(Ok(rest)) => Some(Ok(seq![s] + rest)),
            },
        ) == prefixed(out.push(s), x),
{
    match x {
        Some(Ok(rest)) => {
            assert(out + (seq![s] + rest) =~= out.push(s) + rest);
        },
        _ => {},
    }
}

/// The views of some segments.
pub open spec fn seg_views(v: Seq<MseSegment>) -> Seq<SegView> {
    v.map_values(|s: MseSegment| s@)
}

impl Mp4Parser {
    /// Whether an audio track has the AC-3 codec.
    fn has_ac3_audio(&self) -> (r: bool)
        ensures
            r == has_ac3_codec(self.tracks_view()),
    {
        let ac3 = String::from_str("AC-3");
        let mut i: usize = 0;
        while i < self.tracks.len()
            invariant
                i <= self.tracks@.len(),
                ac3@ == "AC-3"@,
                forall|j: int| 0 <= j < i ==> !(is_audio_type(#[trigger] self.tracks_view()[j].media_type)
                    && self.tracks_view()[j].codec.0 == "AC-3"@),
            decreases self.tracks@.len() - i,
        {
            assert(self.tracks_view()[i as int] == self.tracks@[i as int]@);
            if crate::bytes_be::is_fourcc(self.tracks[i].media_type.as_slice(), HANDLER_SOUN)
                && self.tracks[i].codec == ac3 {
                assert(self.tracks_view()[i as int].codec.0 == "AC-3"@);
                return true;
            }
            i = i + 1;
        }
        false
    }

    /// Number of `moof` boxes.
    fn count_moof(&self) -> (r: u64)
        ensures
            r == moof_count(self.boxes@, self.boxes@.len() as int),
    {
        let mut n: u64 = 0;
        let mut i: usize = 0;
        while i < self.boxes.len()
            invariant
                i <= self.boxes@.len(),
                n == moof_count(self.boxes@, i as int),
                n <= i,
            decreases self.boxes@.len() - i,
        {
            if crate::bytes_be::is_fourcc(self.boxes[i].header.box_type.as_slice(), BOX_MOOF) {
                n = n + 1;
            }
            i = i + 1;
        }
        n
    }

    /// The initialization data of a fragmented file.
    fn fragmented_init_data(&self, ac3: bool) -> (r: Vec<u8>)
        requires
            frag_init(self.boxes@, ac3, self.boxes@.len() as int) is Some,
        ensures
            frag_init(self.boxes@, ac3, self.boxes@.len() as int) == Some(r@),
    {
        let mut init: Vec<u8> = Vec::new();
        let mut k: usize = 0;
        while k < self.boxes.len()
            invariant
                k <= self.boxes@.len(),
                frag_init(self.boxes@, ac3, self.boxes@.len() as int) is Some,
                frag_init(self.boxes@, ac3, k as int) == Some(init@),
            decreases self.boxes@.len() - k,
        {
            proof {
                lemma_frag_init_prefix(self.boxes@, ac3, k as int + 1, self.boxes@.len() as int);
            }
            let b = &self.boxes[k];
            if crate::bytes_be::is_fourcc(b.header.box_type.as_slice(), BOX_FTYP) {
                let data = self.serialize_box(b);
                if data.len() >= 8 {
                    push_all(&mut init, data.as_slice());
                }
            } else if crate::bytes_be::is_fourcc(b.header.box_type.as_slice(), BOX_MOOV) {
                let mut done = false;
                if ac3 {
                    match &b.content {
                        BoxContent::Raw(c) => {
                            let vo = create_video_only_moov(c.as_slice());
                            let moov = make_box_sized(BOX_MOOV, vo.as_slice());
                            push_all(&mut init, moov.as_slice());
                            done = true;
                        },
                        _ => {},
                    }
                }
                if !done {
                    let data = self.serialize_box(b);
                    if data.len() >= 8 {
                        push_all(&mut init, data.as_slice());
                    }
                }
            }
            k = k + 1;
        }
        init
    }

    /// The media segment of the `moof` at `i` and the `mdat` after it.
    fn fragment_segment(&self, i: usize, k: u64, frame_duration: u64, timescale: u32) -> (r: Result<
        MseSegment,
        Mp4Error,
    >)
        requires
            i + 1 < self.boxes@.len(),
            k <= i,
            frag_segment(self.boxes@, i as int, k as int, frame_duration, timescale) is Some,
        ensures
            match (r, frag_segment(self.boxes@, i as int, k as int, frame_duration, timescale)) {
                (Ok(v), Some(Ok(w))) => v@ == w,
                (Err(e), Some(Err(f))) => e == f,
                _ => false,
            },
    {
        proof {
            reveal(frag_segment);
        }
        let n = self.boxes.len();
        let fixed = match fix_moof_tfhd_flags(&self.boxes[i]) {
            Ok(m) => m,
            Err(e) => {
                return Err(e);
            },
        };
        let t = k * frame_duration;
        let moof = match ensure_moof_has_tfdt(fixed.as_slice(), t) {
            Ok(m) => m,
            Err(e) => {
                return Err(e);
            },
        };
        let mut media: Vec<u8> = Vec::new();
        push_all(&mut media, moof.as_slice());
        let mdat = self.serialize_box(&self.boxes[i + 1]);
        push_all(&mut media, mdat.as_slice());
        let timestamp_ms = (t * 1000) / timescale as u64;
        let duration_ms = (frame_duration * 1000) / timescale as u64;
        let is_keyframe = is_likely_keyframe(media.as_slice(), k as usize);
        Ok(
            MseSegment {
                segment_type: String::from_str("media"),
                data: media,
                timestamp: Some(timestamp_ms),
                duration: Some(duration_ms),
                is_keyframe,
                track_id: 1,
            },
        )
    }

    /// Timescale of the video track and estimated duration per fragment.
    fn fragment_timing(&self) -> (r: (u32, u64))
        ensures
            r.0 == video_timescale(self.tracks_view()),
            r.1 == frame_duration_estimate(self.boxes@, self.tracks_view()),
    {
        let (timescale, total_duration) = match self.find_track_index(HANDLER_VIDE) {
            Some(i) => {
                assert(self.tracks_view()[i as int] == self.tracks@[i as int]@);
                (self.tracks[i].timescale, self.tracks[i].duration)
            },
            None => (1000u32, 0u64),
        };
        let fragment_count = self.count_moof();
        let frame_duration: u64 = if fragment_count > 0 && total_duration > 0 {
            total_duration / fragment_count
        } else {
            timescale as u64 / 30
        };
        (timescale, frame_duration)
    }

    /// Append the media segments of a fragmented file.
    fn fragmented_media(&self, frame_duration: u64, timescale: u32, segments: &mut Vec<MseSegment>) -> (r:
        Result<(), Mp4Error>)
        requires
            frag_media(self.boxes@, 0, 0, frame_duration, timescale) is Some,
        ensures
            match r {
                Ok(_) => frag_media(self.boxes@, 0, 0, frame_duration, timescale) == Some(
                    Ok::<Seq<SegView>, Mp4Error>(seg_views(final(segments)@).subrange(
                        old(segments)@.len() as int,
                        final(segments)@.len() as int,
                    )),
                ) && old(segments)@.len() <= final(segments)@.len() && final(segments)@.subrange(
                    0,
                    old(segments)@.len() as int,
                ) == old(segments)@,
                Err(e) => frag_media(self.boxes@, 0, 0, frame_duration, timescale) == Some(
                    Err::<Seq<SegView>, Mp4Error>(e),
                ),
            },
    {
        let ghost boxes = self.boxes@;
        let ghost start = segments@;
        let ghost h = start.len() as int;
        let n = self.boxes.len();
        let mut i: usize = 0;
        let mut k: u64 = 0;
        proof {
            assert(seg_views(segments@).subrange(h, segments@.len() as int) =~= Seq::<SegView>::empty());
            assert(segments@.subrange(0, h) =~= start);
        }
        loop
            invariant
                n == boxes.len(),
                boxes == self.boxes@,
                i <= n,
                k <= i,
                h == start.len(),
                h <= segments@.len(),
                segments@.subrange(0, h) == start,
                frag_media(boxes, 0, 0, frame_duration, timescale) is Some,
                frag_media(boxes, 0, 0, frame_duration, timescale) == prefixed(
                    seg_views(segments@).subrange(h, segments@.len() as int),
                    frag_media(boxes, i as int, k as int, frame_duration, timescale),
                ),
            ensures
                frag_media(boxes, 0, 0, frame_duration, timescale) == Some(
                    Ok::<Seq<SegView>, Mp4Error>(seg_views(segments@).subrange(h, segments@.len() as int)),
                ),
                h <= segments@.len(),
                segments@.subrange(0, h) == start,
            decreases n - i,
        {
            if i >= n {
                break;
            }
            if crate::bytes_be::is_fourcc(self.boxes[i].header.box_type.as_slice(), BOX_MOOF) && i + 1 < n
                && crate::bytes_be::is_fourcc(self.boxes[i + 1].header.box_type.as_slice(), BOX_MDAT) {
                let seg = match self.fragment_segment(i, k, frame_duration, timescale) {
                    Ok(sg) => sg,
                    Err(e) => {
                        return Err(e);
                    },
                };
                let ghost before = segments@;
                segments.push(seg);
                proof {
                    lemma_prefixed_step(
                        seg_views(before).subrange(h, before.len() as int),
                        seg@,
                        frag_media(boxes, i as int + 2, k as int + 1, frame_duration, timescale),
                    );
                    assert(seg_views(segments@).subrange(h, segments@.len() as int) =~= seg_views(
                        before,
                    ).subrange(h, before.len() as int).push(seg@));
                    assert(segments@.subrange(0, h) =~= before.subrange(0, h));
                }
                k = k + 1;
                i = i + 2;
            } else {
                i = i + 1;
            }
        }
        Ok(())
    }

    /// The segments of an already fragmented file.
    fn extract_fragmented_segments(&self) -> (r: Result<Vec<MseSegment>, Mp4Error>)
        requires
            extracted_segments(self.boxes@, self.tracks_view()) is Some,
        ensures
            match (r, extracted_segments(self.boxes@, self.tracks_view())) {
                (Ok(v), Some(Ok(w))) => seg_views(v@) == w,
                (Err(e), Some(Err(f))) => e == f,
                _ => false,
            },
    {
        let ac3 = self.has_ac3_audio();
        let init = self.fragmented_init_data(ac3);
        let mut segments: Vec<MseSegment> = Vec::new();
        if init.len() > 0 {
            segments.push(
                MseSegment {
                    segment_type: String::from_str("initialization"),
                    data: init,
                    timestamp: None,
                    duration: None,
                    is_keyframe: true,
                    track_id: 0,
                },
            );
        }
        let ghost head = seg_views(segments@);
        proof {
            if segments@.len() > 0 {
                assert(head =~= seq![segments@[0]@]);
            } else {
                assert(head =~= Seq::<SegView>::empty());
            }
        }
        let (timescale, frame_duration) = self.fragment_timing();
        let ghost h = segments@.len() as int;
        match self.fragmented_media(frame_duration, timescale, &mut segments) {
            Ok(_) => {
                proof {
                    assert forall|j: int| 0 <= j < h implies seg_views(segments@)[j] == head[j] by {
                        assert(segments@.subrange(0, h)[j] == segments@[j]);
                    }
                    assert(seg_views(segments@).subrange(0, h) =~= head);
                    assert(seg_views(segments@) =~= head + seg_views(segments@).subrange(
                        h,
                        segments@.len() as int,
                    ));
                }
                Ok(segments)
            },
            Err(e) => Err(e),
        }
    }
}

/// The initialization data of the first `c` boxes is known when that of
/// more boxes is.
proof fn lemma_frag_init_prefix(boxes: Seq<Mp4Box>, ac3: bool, c: int, m: int)
    requires
        0 <= c <= m,
        frag_init(boxes, ac3, m) is Some,
    ensures
        frag_init(boxes, ac3, c) is Some,
    decreases m - c,
{
    if c < m {
        lemma_frag_init_prefix(boxes, ac3, c, m - 1);
    }
}


// ---------------------------------------------------------------------------
// Segments of a regular file
// ---------------------------------------------------------------------------

/// The state of a fragment converter: next sequence number and decode time.
pub struct ConvState {
    pub seq: u32,
    pub time: u64,
}

/// The `trex` boxes of the first `k` tracks.
pub open spec fn trexes(tracks: Seq<TrackView>, k: int) -> Seq<u8>
    decreases k,
{
    if k <= 0 {
        Seq::empty()
    } else {
        trexes(tracks, k - 1) + trex_spec(tracks[k - 1].track_id)
    }
}

/// A `moov` fit for MSE: the box's own content (without its non-video
/// tracks when `ac3` is set) followed by an `mvex` with a `trex` per track.
/// `None` on input where building it panics.
pub open spec fn mse_moov(b: Mp4Box, tracks: Seq<TrackView>, ac3: bool) -> Option<Result<Seq<u8>, Mp4Error>> {
    match b.content {
        BoxContent::Raw(c) => {
            let modified = if ac3 {
                video_only_walk(c@, 0, Seq::empty())
            } else {
                c@
            };
            let tx = trexes(tracks, tracks.len() as int);
            if size32(tx.len() as int) > u32::MAX {
                None
            } else {
                let content = modified + wrapped_box(BOX_MVEX, tx);
                if size32(content.len() as int) > u32::MAX {
                    None
                } else {
                    Some(Ok(wrapped_box(BOX_MOOV, content)))
                }
            }
        },
        _ => Some(Err(Mp4Error::InvalidData)),
    }
}

/// The written-back `ftyp` boxes among the first `k`, one after the other.
pub open spec fn ftyp_bytes(boxes: Seq<Mp4Box>, k: int) -> Seq<u8>
    decreases k,
{
    if k <= 0 {
        Seq::empty()
    } else if box_is(boxes[k - 1], BOX_FTYP) {
        ftyp_bytes(boxes, k - 1) + serialized(boxes[k - 1])
    } else {
        ftyp_bytes(boxes, k - 1)
    }
}

/// Index of the last `moov` among the first `k` boxes.
pub open spec fn last_moov(boxes: Seq<Mp4Box>, k: int) -> Option<int>
    decreases k,
{
    if k <= 0 {
        None
    } else if box_is(boxes[k - 1], BOX_MOOV) {
        Some(k - 1)
    } else {
        last_moov(boxes, k - 1)
    }
}

/// The content of the last raw `mdat` among the first `k` boxes (empty when
/// there is none).
pub open spec fn last_mdat(boxes: Seq<Mp4Box>, k: int) -> Seq<u8>
    decreases k,
{
    if k <= 0 {
        Seq::empty()
    } else if box_is(boxes[k - 1], BOX_MDAT) && boxes[k - 1].content is Raw {
        match boxes[k - 1].content {
            BoxContent::Raw(v) => v@,
            _ => Seq::empty(),
        }
    } else {
        last_mdat(boxes, k - 1)
    }
}

/// The frames of samples `from..to`, cut out of the `mdat` payload that
/// starts at `mdat_offset` in the file: `Some(None)` at the first sample
/// that falls outside it, `None` on input where cutting them panics.
/// Audio frames are all sync frames without composition offset.
#[verifier::opaque]
pub open spec fn sample_frames(
    entries: Seq<SampleEntry>,
    from: int,
    to: int,
    mdat: Seq<u8>,
    mdat_offset: u64,
    audio: bool,
) -> Option<Option<Seq<FrameView>>>
    decreases to - from,
{
    if from >= to {
        Some(Some(Seq::empty()))
    } else {
        let e = entries[from];
        if e.offset < mdat_offset {
            None
        } else {
            let local = e.offset - mdat_offset;
            if local + e.size > usize::MAX {
                None
            } else if local + e.size > mdat.len() {
                Some(None)
            } else {
                let f = FrameView {
                    data: mdat.subrange(local, local + e.size),
                    duration: e.duration,
                    size: e.size,
                    is_keyframe: if audio {
                        true
                    } else {
                        e.is_keyframe
                    },
                    composition_offset: if audio {
                        0
                    } else {
                        e.composition_offset
                    },
                };
                match sample_frames(entries, from + 1, to, mdat, mdat_offset, audio) {
                    None => None,
                    Some(None) => Some(None),
                    Some(Some(rest)) => Some(Some(seq![f] + rest)),
                }
            }
        }
    }
}

/// One `moof` + `mdat` segment of the second layout for a group of frames,
/// starting at `decode_ms` milliseconds; `None` on input where building it
/// panics.
#[verifier::opaque]
pub open spec fn group_segment(
    frames: Seq<FrameView>,
    st: ConvState,
    track_id: u32,
    timescale: u32,
    decode_time: u64,
    duration_field: u64,
) -> Option<SegView> {
    let dur = duration_total(frames, frames.len() as int);
    if decode_time * 1000 > u64::MAX || timescale == 0 || !fits_v2(frames) || st.seq >= u32::MAX
        || st.time + dur > u64::MAX {
        None
    } else {
        Some(
            SegView {
                segment_type: "media"@,
                data: moof_v2_spec(st.seq, st.time, track_id, frames) + mdat_spec(frames),
                timestamp: Some(((decode_time * 1000) / (timescale as int)) as u64),
                duration: Some(duration_field),
                is_keyframe: true,
                track_id: track_id,
            },
        )
    }
}

/// The video segments of a regular file, one per group of pictures: samples
/// are grouped from each key frame to the next; a group with a sample
/// outside `mdat` is skipped.
pub open spec fn video_gops(
    entries: Seq<SampleEntry>,
    i: int,
    gop_start: int,
    mdat: Seq<u8>,
    mdat_offset: u64,
    timescale: u32,
    track_id: u32,
    st: ConvState,
    decode_time: u64,
) -> Option<(Seq<SegView>, ConvState)>
    decreases entries.len() + 1 - i,
{
    if i < 0 || i > entries.len() || gop_start < 0 || gop_start > i {
        Some((Seq::empty(), st))
    } else {
        let boundary = i == entries.len() || (i > 0 && entries[i].is_keyframe);
        if boundary && i > gop_start {
            match sample_frames(entries, gop_start, i, mdat, mdat_offset, false) {
                None => None,
                Some(Some(frames)) => if frames.len() > 0 {
                    let dur = duration_total(frames, frames.len() as int);
                    match group_segment(frames, st, track_id, timescale, decode_time, dur as u64) {
                        None => None,
                        Some(seg) => if decode_time + dur > u64::MAX {
                            None
                        } else {
                            match video_gops(
                                entries,
                                i + 1,
                                i,
                                mdat,
                                mdat_offset,
                                timescale,
                                track_id,
                                ConvState { seq: (st.seq + 1) as u32, time: (st.time + dur) as u64 },
                                (decode_time + dur) as u64,
                            ) {
                                None => None,
                                Some((rest, st2)) => Some((seq![seg] + rest, st2)),
                            }
                        },
                    }
                } else {
                    video_gops(entries, i + 1, i, mdat, mdat_offset, timescale, track_id, st, decode_time)
                },
                Some(None) => video_gops(
                    entries,
                    i + 1,
                    i,
                    mdat,
                    mdat_offset,
                    timescale,
                    track_id,
                    st,
                    decode_time,
                ),
            }
        } else {
            video_gops(entries, i + 1, gop_start, mdat, mdat_offset, timescale, track_id, st, decode_time)
        }
    }
}

/// Every segment in `v` is a media segment marked as starting at a key
/// frame, on track `track_id`, with a timestamp no earlier than `from`, and
/// the timestamps never decrease along `v`.
pub open spec fn ordered_gop_segments(v: Seq<SegView>, track_id: u32, from: int) -> bool {
    &&& forall|k: int| 0 <= k < v.len() ==> {
        &&& (#[trigger] v[k]).segment_type == "media"@
        &&& v[k].is_keyframe
        &&& v[k].track_id == track_id
        &&& v[k].timestamp matches Some(x) && x >= from
    }
    &&& forall|a: int, b: int| 0 <= a < b < v.len() ==> (#[trigger] v[a]).timestamp->0 <= (#[trigger] v[b]).timestamp->0
}

/// The video segments of a regular file, one per group of pictures, are
/// media segments that each start at a key frame, and their timestamps
/// never decrease, starting from the decode time the walk starts at.
pub proof fn lemma_video_gops_ordered(
    entries: Seq<SampleEntry>,
    i: int,
    gop_start: int,
    mdat: Seq<u8>,
    mdat_offset: u64,
    timescale: u32,
    track_id: u32,
    st: ConvState,
    decode_time: u64,
)
    requires
        video_gops(entries, i, gop_start, mdat, mdat_offset, timescale, track_id, st, decode_time) is Some,
        timescale > 0,
    ensures
        ordered_gop_segments(
            video_gops(entries, i, gop_start, mdat, mdat_offset, timescale, track_id, st, decode_time).unwrap().0,
            track_id,
            (decode_time * 1000) / (timescale as int),
        ),
    decreases entries.len() + 1 - i,
{
    let v = video_gops(entries, i, gop_start, mdat, mdat_offset, timescale, track_id, st, decode_time).unwrap().0;
    let from = (decode_time * 1000) / (timescale as int);
    if i < 0 || i > entries.len() || gop_start < 0 || gop_start > i {
    } else {
        let boundary = i == entries.len() || (i > 0 && entries[i].is_keyframe);
        if boundary && i > gop_start {
            match sample_frames(entries, gop_start, i, mdat, mdat_offset, false) {
                None => {},
                Some(Some(frames)) => if frames.len() > 0 {
                    let dur = duration_total(frames, frames.len() as int);
                    crate::media::fmp4_converter::lemma_duration_total_nonneg(frames, frames.len() as int);
                    assert(group_segment(frames, st, track_id, timescale, decode_time, dur as u64) is Some);
                    reveal(group_segment);
                    let seg = group_segment(frames, st, track_id, timescale, decode_time, dur as u64)->0;
                    let next = (decode_time + dur) as u64;
                    lemma_video_gops_ordered(
                        entries,
                        i + 1,
                        i,
                        mdat,
                        mdat_offset,
                        timescale,
                        track_id,
                        ConvState { seq: (st.seq + 1) as u32, time: (st.time + dur) as u64 },
                        next,
                    );
                    let rest = video_gops(
                        entries,
                        i + 1,
                        i,
                        mdat,
                        mdat_offset,
                        timescale,
                        track_id,
                        ConvState { seq: (st.seq + 1) as u32, time: (st.time + dur) as u64 },
                        next,
                    ).unwrap().0;
                    assert(decode_time * 1000 <= next * 1000) by (nonlinear_arith)
                        requires
                            decode_time <= next,
                    ;
                    vstd::arithmetic::div_mod::lemma_div_is_ordered(
                        decode_time * 1000,
                        next * 1000,
                        timescale as int,
                    );
                    assert(v == seq![seg] + rest);
                    assert(decode_time * 1000 <= u64::MAX);
                    assert(0 <= from <= decode_time * 1000) by (nonlinear_arith)
                        requires
                            timescale > 0,
                            from == (decode_time * 1000) / (timescale as int),
                    ;
                    assert(seg.timestamp == Some(from as u64));
                    assert(v[0] == seg);
                    let from_next = (next * 1000) / (timescale as int);
                    assert(from <= from_next);
                    assert forall|a: int, b: int| 0 <= a < b < v.len() implies (#[trigger] v[a]).timestamp->0
                        <= (#[trigger] v[b]).timestamp->0 by {
                        if a > 0 {
                            assert(v[a] == rest[a - 1]);
                            assert(v[b] == rest[b - 1]);
                        } else {
                            assert(v[b] == rest[b - 1]);
                            assert(rest[b - 1].timestamp matches Some(x) && x >= from_next);
                        }
                    }
                    assert forall|k: int| 0 <= k < v.len() implies {
                        &&& (#[trigger] v[k]).segment_type == "media"@
                        &&& v[k].is_keyframe
                        &&& v[k].track_id == track_id
                        &&& v[k].timestamp matches Some(x) && x >= from
                    } by {
                        if k > 0 {
                            assert(v[k] == rest[k - 1]);
                            assert(rest[k - 1].timestamp matches Some(x) && x >= from_next);
                        }
                    }
                } else {
                    lemma_video_gops_ordered(entries, i + 1, i, mdat, mdat_offset, timescale, track_id, st, decode_time);
                },
                Some(None) => {
                    lemma_video_gops_ordered(entries, i + 1, i, mdat, mdat_offset, timescale, track_id, st, decode_time);
                },
            }
        } else {
            lemma_video_gops_ordered(
                entries,
                i + 1,
                gop_start,
                mdat,
                mdat_offset,
                timescale,
                track_id,
                st,
                decode_time,
            );
        }
    }
}

/// The chunk of `mdat` at `start`: 64 KiB, or what is left.
pub open spec fn mdat_chunk(mdat: Seq<u8>, start: int) -> Seq<u8> {
    if start + 65536 < mdat.len() {
        mdat.subrange(start, start + 65536)
    } else {
        mdat.subrange(start, mdat.len() as int)
    }
}

/// The fragment of the first layout for chunk `k` of `mdat`, starting at
/// `start`, lasting `timescale` units; `None` on input where building it
/// panics.
#[verifier::opaque]
pub open spec fn chunk_segment(mdat: Seq<u8>, start: int, k: int, timescale: u32, track_id: u32, st: ConvState) -> Option<
    SegView,
> {
    let chunk = mdat_chunk(mdat, start);
    let frame = FrameView {
        data: chunk,
        duration: timescale,
        size: chunk.len() as u32,
        is_keyframe: k == 0,
        composition_offset: 0,
    };
    if st.seq >= u32::MAX || st.time + timescale > u64::MAX || k * 1000 > u64::MAX {
        None
    } else {
        Some(
            SegView {
                segment_type: "media"@,
                data: moof_v1_spec(st.seq, st.time, track_id, seq![frame]) + mdat_spec(seq![frame]),
                timestamp: Some((k * 1000) as u64),
                duration: Some(timescale as u64),
                is_keyframe: k == 0,
                track_id: track_id,
            },
        )
    }
}

/// The segments of `mdat` cut into 64 KiB chunks from chunk `k` (which
/// starts at byte `start`) on, one fragment each.
pub open spec fn chunk_segments(
    mdat: Seq<u8>,
    start: int,
    k: int,
    timescale: u32,
    track_id: u32,
    st: ConvState,
) -> Option<(Seq<SegView>, ConvState)>
    decreases mdat.len() - start,
{
    if start < 0 || start >= mdat.len() {
        Some((Seq::empty(), st))
    } else {
        match chunk_segment(mdat, start, k, timescale, track_id, st) {
            None => None,
            Some(seg) => {
                let next = ConvState { seq: (st.seq + 1) as u32, time: (st.time + timescale) as u64 };
                if start + 65536 < mdat.len() {
                    match chunk_segments(mdat, start + 65536, k + 1, timescale, track_id, next) {
                        None => None,
                        Some((rest, st2)) => Some((seq![seg] + rest, st2)),
                    }
                } else {
                    Some((seq![seg], next))
                }
            },
        }
    }
}

/// The audio segments of a regular file from sample `start` on, `spc`
/// samples (about half a second) each; a chunk with a sample outside
/// `mdat` is skipped.
pub open spec fn audio_chunks(
    samples: Seq<SampleEntry>,
    start: int,
    spc: int,
    mdat: Seq<u8>,
    mdat_offset: u64,
    timescale: u32,
    track_id: u32,
    st: ConvState,
    decode_time: u64,
) -> Option<Seq<SegView>>
    decreases samples.len() - start,
{
    if start < 0 || start >= samples.len() || spc < 1 {
        Some(Seq::empty())
    } else {
        let end = if start + spc < samples.len() {
            start + spc
        } else {
            samples.len() as int
        };
        match sample_frames(samples, start, end, mdat, mdat_offset, true) {
            None => None,
            Some(Some(frames)) => if frames.len() > 0 {
                let dur = duration_total(frames, frames.len() as int);
                match group_segment(frames, st, track_id, timescale, decode_time, dur as u64) {
                    None => None,
                    Some(seg) => if decode_time + dur > u64::MAX {
                        None
                    } else {
                        match audio_chunks(
                            samples,
                            end,
                            spc,
                            mdat,
                            mdat_offset,
                            timescale,
                            track_id,
                            ConvState { seq: (st.seq + 1) as u32, time: (st.time + dur) as u64 },
                            (decode_time + dur) as u64,
                        ) {
                            None => None,
                            Some(rest) => Some(seq![seg] + rest),
                        }
                    },
                }
            } else {
                audio_chunks(samples, end, spc, mdat, mdat_offset, timescale, track_id, st, decode_time)
            },
            Some(None) => audio_chunks(
                samples,
                end,
                spc,
                mdat,
                mdat_offset,
                timescale,
                track_id,
                st,
                decode_time,
            ),
        }
    }
}

/// Samples per audio chunk: about half a second of the first sample's
/// duration, at least one.
pub open spec fn audio_spc(timescale: u32, first_duration: u32) -> int {
    let d = if first_duration >= 1 {
        first_duration as int
    } else {
        1
    };
    let n = (timescale as int / 2) / d;
    if n >= 1 {
        n
    } else {
        1
    }
}

/// The video segments of a regular file: by groups of pictures when the
/// video track has a sample table, else by chunks of `mdat`.
pub open spec fn regular_video(
    tracks: Seq<TrackView>,
    mdat: Seq<u8>,
    mdat_offset: u64,
    conv: ConvState,
) -> Option<Result<(Seq<SegView>, ConvState), Mp4Error>> {
    let vt = find_track(tracks, u32_bytes(HANDLER_VIDE), 0);
    let ts: u32 = match vt {
        Some(i) => tracks[i].timescale,
        None => 1000,
    };
    let tid: u32 = match vt {
        Some(i) => tracks[i].track_id,
        None => 1,
    };
    let table: Option<TableView> = match vt {
        Some(i) => tracks[i].table,
        None => None,
    };
    match table {
        Some(t) => if !table_resolvable(t) {
            None
        } else if resolved_entries(t).len() == 0 {
            Some(Err(Mp4Error::InvalidData))
        } else {
            match video_gops(resolved_entries(t), 0, 0, mdat, mdat_offset, ts, tid, conv, 0) {
                None => None,
                Some(r) => Some(Ok(r)),
            }
        },
        None => match chunk_segments(mdat, 0, 0, ts, tid, conv) {
            None => None,
            Some(r) => Some(Ok(r)),
        },
    }
}

/// The audio segments of a regular file: none when an audio track has
/// AC-3 parameters or the audio track has no sample table.
pub open spec fn regular_audio(tracks: Seq<TrackView>, mdat: Seq<u8>, mdat_offset: u64) -> Option<Seq<SegView>> {
    if has_ac3_codec(tracks) {
        Some(Seq::empty())
    } else {
        match find_track(tracks, u32_bytes(HANDLER_SOUN), 0) {
            None => Some(Seq::empty()),
            Some(a) => match tracks[a].table {
                None => Some(Seq::empty()),
                Some(t) => if !table_resolvable(t) {
                    None
                } else if resolved_entries(t).len() == 0 {
                    Some(Seq::empty())
                } else {
                    let samples = resolved_entries(t);
                    audio_chunks(
                        samples,
                        0,
                        audio_spc(tracks[a].timescale, samples[0].duration),
                        mdat,
                        mdat_offset,
                        tracks[a].timescale,
                        tracks[a].track_id,
                        ConvState { seq: 1, time: 0 },
                        0,
                    )
                },
            },
        }
    }
}

/// The segments of a regular (not fragmented) file: the initialization
/// segment (`ftyp` boxes and an MSE-fit `moov`), then the video and audio
/// segments; and the converter's state afterwards. An error when there is no
/// `moov`, or the video sample table resolves to no sample.
pub open spec fn regular_segments(
    boxes: Seq<Mp4Box>,
    tracks: Seq<TrackView>,
    mdat_offset: u64,
    conv: ConvState,
) -> Option<Result<(Seq<SegView>, ConvState), Mp4Error>> {
    match last_moov(boxes, boxes.len() as int) {
        None => Some(Err(Mp4Error::InvalidData)),
        Some(m) => match mse_moov(boxes[m], tracks, has_ac3_codec(tracks)) {
            None => None,
            Some(Err(e)) => Some(Err(e)),
            Some(Ok(moov)) => {
                let init = SegView {
                    segment_type: "initialization"@,
                    data: ftyp_bytes(boxes, boxes.len() as int) + moov,
                    timestamp: None,
                    duration: None,
                    is_keyframe: true,
                    track_id: 0,
                };
                let mdat = last_mdat(boxes, boxes.len() as int);
                if mdat.len() == 0 {
                    Some(Ok((seq![init], conv)))
                } else {
                    match regular_video(tracks, mdat, mdat_offset, conv) {
                        None => None,
                        Some(Err(e)) => Some(Err(e)),
                        Some(Ok((video, conv2))) => match regular_audio(tracks, mdat, mdat_offset) {
                            None => None,
                            Some(audio) => Some(Ok((seq![init] + video + audio, conv2))),
                        },
                    }
                }
            },
        },
    }
}


/// Segments already made, put before what is still to come, with the
/// converter state at the end.
pub open spec fn prefixed_conv(out: Seq<SegView>, x: Option<(Seq<SegView>, ConvState)>) -> Option<
    (Seq<SegView>, ConvState),
> {
    match x {
        Some((rest, st)) => Some((out + rest, st)),
        None => None,
    }
}

/// Frames already cut, put before what is still to come.
pub open spec fn frames_prefixed(out: Seq<FrameView>, x: Option<Option<Seq<FrameView>>>) -> Option<
    Option<Seq<FrameView>>,
> {
    match x {
        Some(Some(rest)) => Some(Some(out + rest)),
        other => other,
    }
}

/// The state of a converter.
pub open spec fn conv_of(c: FragmentedMp4Converter) -> ConvState {
    ConvState { seq: c.next_sequence(), time: c.decode_time() }
}

/// Cut the frames of samples `from..to` out of `mdat`; `None` at the first
/// sample outside it.
fn cut_frames(
    entries: &Vec<SampleEntry>,
    from: usize,
    to: usize,
    mdat: &[u8],
    mdat_offset: u64,
    audio: bool,
) -> (r: Option<Vec<FrameData>>)
    requires
        from <= to <= entries@.len(),
        sample_frames(entries@, from as int, to as int, mdat@, mdat_offset, audio) is Some,
    ensures
        match r {
            Some(v) => sample_frames(entries@, from as int, to as int, mdat@, mdat_offset, audio) == Some(
                Some(frame_views(v@)),
            ),
            None => sample_frames(entries@, from as int, to as int, mdat@, mdat_offset, audio) == Some(
                None::<Seq<FrameView>>,
            ),
        },
{
    let mut frames: Vec<FrameData> = Vec::new();
    let mut j = from;
    let len = mdat.len();
    loop
        invariant
            from <= j <= to <= entries@.len(),
            len == mdat@.len(),
            sample_frames(entries@, from as int, to as int, mdat@, mdat_offset, audio) == frames_prefixed(
                frame_views(frames@),
                sample_frames(entries@, j as int, to as int, mdat@, mdat_offset, audio),
            ),
            sample_frames(entries@, j as int, to as int, mdat@, mdat_offset, audio) is Some,
        ensures
            sample_frames(entries@, from as int, to as int, mdat@, mdat_offset, audio) == Some(
                Some(frame_views(frames@)),
            ),
        decreases to - j,
    {
        proof {
            reveal(sample_frames);
        }
        if j >= to {
            proof {
                assert(frame_views(frames@) + Seq::<FrameView>::empty() =~= frame_views(frames@));
            }
            break;
        }
        let e = entries[j];
        let local = (e.offset - mdat_offset) as usize;
        if e.size as usize > len || local > len - e.size as usize {
            return None;
        }
        let data = copy_range(mdat, local, local + e.size as usize);
        let f = if audio {
            FrameData::new(data, e.duration, true, 0)
        } else {
            FrameData::new(data, e.duration, e.is_keyframe, e.composition_offset)
        };
        let ghost before = frames@;
        frames.push(f);
        proof {
            assert(frame_views(frames@) =~= frame_views(before).push(f@));
            let rest = sample_frames(entries@, j as int + 1, to as int, mdat@, mdat_offset, audio);
            match rest {
                Some(Some(r)) => {
                    assert(frame_views(before) + (seq![f@] + r) =~= frame_views(frames@) + r);
                },
                _ => {},
            }
        }
        j = j + 1;
    }
    Some(frames)
}

impl Mp4Parser {
    /// An `mvex` box with a `trex` for each track.
    fn create_mvex_box(&self) -> (r: Vec<u8>)
        requires
            size32(trexes(self.tracks_view(), self.tracks_view().len() as int).len() as int) <= u32::MAX,
        ensures
            r@ == wrapped_box(BOX_MVEX, trexes(self.tracks_view(), self.tracks_view().len() as int)),
    {
        let mut content: Vec<u8> = Vec::new();
        let mut i: usize = 0;
        while i < self.tracks.len()
            invariant
                i <= self.tracks@.len(),
                content@ == trexes(self.tracks_view(), i as int),
            decreases self.tracks@.len() - i,
        {
            assert(self.tracks_view()[i as int] == self.tracks@[i as int]@);
            let trex = create_trex_box(self.tracks[i].track_id);
            push_all(&mut content, trex.as_slice());
            i = i + 1;
        }
        make_box_sized(BOX_MVEX, content.as_slice())
    }

    /// A `moov` fit for MSE.
    fn create_mse_compatible_moov(&self, source_moov: &Mp4Box, ac3: bool) -> (r: Result<Vec<u8>, Mp4Error>)
        requires
            mse_moov(*source_moov, self.tracks_view(), ac3) is Some,
        ensures
            match (r, mse_moov(*source_moov, self.tracks_view(), ac3)) {
                (Ok(v), Some(Ok(w))) => v@ == w,
                (Err(e), Some(Err(f))) => e == f,
                _ => false,
            },
    {
        match &source_moov.content {
            BoxContent::Raw(c) => {
                let mut content = if ac3 {
                    create_video_only_moov(c.as_slice())
                } else {
                    copy_range(c.as_slice(), 0, c.len())
                };
                proof {
                    assert(c@.subrange(0, c@.len() as int) =~= c@);
                }
                let mvex = self.create_mvex_box();
                push_all(&mut content, mvex.as_slice());
                Ok(make_box_sized(BOX_MOOV, content.as_slice()))
            },
            _ => Err(Mp4Error::InvalidData),
        }
    }

    /// The written-back `ftyp` boxes, the last `moov`, and the content of
    /// the last raw `mdat`.
    fn collect_regular_boxes(&self) -> (r: (Vec<u8>, Option<usize>, Vec<u8>))
        ensures
            r.0@ == ftyp_bytes(self.boxes@, self.boxes@.len() as int),
            match r.1 {
                Some(m) => last_moov(self.boxes@, self.boxes@.len() as int) == Some(m as int)
                    && m < self.boxes@.len(),
                None => last_moov(self.boxes@, self.boxes@.len() as int) is None,
            },
            r.2@ == last_mdat(self.boxes@, self.boxes@.len() as int),
    {
        let mut ftyp: Vec<u8> = Vec::new();
        let mut moov: Option<usize> = None;
        let mut mdat: Vec<u8> = Vec::new();
        let mut k: usize = 0;
        while k < self.boxes.len()
            invariant
                k <= self.boxes@.len(),
                ftyp@ == ftyp_bytes(self.boxes@, k as int),
                match moov {
                    Some(m) => last_moov(self.boxes@, k as int) == Some(m as int) && m < k,
                    None => last_moov(self.boxes@, k as int) is None,
                },
                mdat@ == last_mdat(self.boxes@, k as int),
            decreases self.boxes@.len() - k,
        {
            let b = &self.boxes[k];
            if crate::bytes_be::is_fourcc(b.header.box_type.as_slice(), BOX_FTYP) {
                let data = self.serialize_box(b);
                push_all(&mut ftyp, data.as_slice());
            } else if crate::bytes_be::is_fourcc(b.header.box_type.as_slice(), BOX_MOOV) {
                moov = Some(k);
            } else if crate::bytes_be::is_fourcc(b.header.box_type.as_slice(), BOX_MDAT) {
                match &b.content {
                    BoxContent::Raw(v) => {
                        mdat = copy_range(v.as_slice(), 0, v.len());
                        proof {
                            assert(v@.subrange(0, v@.len() as int) =~= v@);
                        }
                    },
                    _ => {},
                }
            }
            k = k + 1;
        }
        (ftyp, moov, mdat)
    }
}

/// A `trex` box for a track.
fn create_trex_box(track_id: u32) -> (r: Vec<u8>)
    ensures
        r@ == trex_spec(track_id),
{
    let mut payload: Vec<u8> = Vec::new();
    payload.push(0);
    payload.push(0);
    payload.push(0);
    payload.push(0);
    push_u32(&mut payload, track_id);
    push_u32(&mut payload, 1);
    push_u32(&mut payload, 0);
    push_u32(&mut payload, 0);
    push_u32(&mut payload, 0);
    assert(payload@ =~= seq![0u8, 0, 0, 0] + u32_bytes(track_id) + u32_bytes(1) + u32_bytes(0)
        + u32_bytes(0) + u32_bytes(0));
    crate::bytes_be::make_box(BOX_TREX, payload.as_slice())
}


/// The segment of a group of frames, fragmented with `conv`, starting at
/// `decode_time` units.
fn fragment_group(
    conv: &mut FragmentedMp4Converter,
    frames: &Vec<FrameData>,
    track_id: u32,
    timescale: u32,
    decode_time: u64,
) -> (r: (MseSegment, u64))
    requires
        group_segment(
            frame_views(frames@),
            conv_of(*old(conv)),
            track_id,
            timescale,
            decode_time,
            duration_total(frame_views(frames@), frames@.len() as int) as u64,
        ) is Some,
    ensures
        group_segment(
            frame_views(frames@),
            conv_of(*old(conv)),
            track_id,
            timescale,
            decode_time,
            duration_total(frame_views(frames@), frames@.len() as int) as u64,
        ) == Some(r.0@),
        r.1 == duration_total(frame_views(frames@), frames@.len() as int),
        conv_of(*final(conv)) == (ConvState {
            seq: (conv_of(*old(conv)).seq + 1) as u32,
            time: (conv_of(*old(conv)).time + r.1) as u64,
        }),
{
    proof {
        reveal(group_segment);
    }
    let gop_duration = total_duration(frames.as_slice());
    let timestamp_ms = (decode_time * 1000) / timescale as u64;
    let fragment = match conv.create_fragment_v2(frames.as_slice(), track_id, timescale) {
        Ok(b) => b,
        Err(_) => Vec::new(),
    };
    (
        MseSegment {
            segment_type: String::from_str("media"),
            data: fragment,
            timestamp: Some(timestamp_ms),
            duration: Some(gop_duration),
            is_keyframe: true,
            track_id,
        },
        gop_duration,
    )
}

/// The segment of chunk `k` of `mdat`, starting at byte `start`, fragmented
/// with `conv`.
#[verifier::rlimit(100)]
fn fragment_chunk(
    conv: &mut FragmentedMp4Converter,
    mdat: &[u8],
    start: usize,
    k: u64,
    timescale: u32,
    track_id: u32,
) -> (r: MseSegment)
    requires
        start < mdat@.len(),
        chunk_segment(mdat@, start as int, k as int, timescale, track_id, conv_of(*old(conv))) is Some,
    ensures
        chunk_segment(mdat@, start as int, k as int, timescale, track_id, conv_of(*old(conv))) == Some(r@),
        conv_of(*final(conv)) == (ConvState {
            seq: (conv_of(*old(conv)).seq + 1) as u32,
            time: (conv_of(*old(conv)).time + timescale) as u64,
        }),
{
    let len = mdat.len();
    let end = if len - start > 65536 {
        start + 65536
    } else {
        len
    };
    let chunk = copy_range(mdat, start, end);
    let ghost fv = FrameView {
        data: mdat_chunk(mdat@, start as int),
        duration: timescale,
        size: mdat_chunk(mdat@, start as int).len() as u32,
        is_keyframe: k == 0,
        composition_offset: 0,
    };
    assert(chunk@ == mdat_chunk(mdat@, start as int));
    let frame = FrameData::new(chunk, timescale, k == 0, 0);
    assert(frame@ == fv);
    let frames = vec![frame];
    proof {
        assert(frame_views(frames@) =~= seq![fv]);
        assert(crate::media::fmp4_converter::size_total(seq![fv], 1) == fv.size) by {
            reveal_with_fuel(crate::media::fmp4_converter::size_total, 2);
        }
        assert(duration_total(seq![fv], 1) == timescale) by {
            reveal_with_fuel(duration_total, 2);
        }
        assert(conv.next_sequence() < u32::MAX && conv.decode_time() + timescale <= u64::MAX && k * 1000
            <= u64::MAX) by {
            reveal(chunk_segment);
        }
        assert(chunk_segment(mdat@, start as int, k as int, timescale, track_id, conv_of(*conv)) == Some(
            SegView {
                segment_type: "media"@,
                data: moof_v1_spec(conv.next_sequence(), conv.decode_time(), track_id, seq![fv])
                    + mdat_spec(seq![fv]),
                timestamp: Some((k * 1000) as u64),
                duration: Some(timescale as u64),
                is_keyframe: k == 0,
                track_id: track_id,
            },
        )) by {
            reveal(chunk_segment);
        }
    }
    let fragment = match conv.create_fragment(frames.as_slice(), track_id, timescale) {
        Ok(b) => b,
        Err(_) => Vec::new(),
    };
    MseSegment {
        segment_type: String::from_str("media"),
        data: fragment,
        timestamp: Some(k * 1000),
        duration: Some(timescale as u64),
        is_keyframe: k == 0,
        track_id,
    }
}

/// Append the segments of the groups of pictures, fragmenting with `conv`.
fn video_gop_segments(
    conv: &mut FragmentedMp4Converter,
    entries: &Vec<SampleEntry>,
    mdat: &[u8],
    mdat_offset: u64,
    timescale: u32,
    track_id: u32,
    segments: &mut Vec<MseSegment>,
)
    requires
        video_gops(entries@, 0, 0, mdat@, mdat_offset, timescale, track_id, conv_of(*old(conv)), 0) is Some,
    ensures
        video_gops(entries@, 0, 0, mdat@, mdat_offset, timescale, track_id, conv_of(*old(conv)), 0) == Some(
            (
                seg_views(final(segments)@).subrange(old(segments)@.len() as int, final(segments)@.len() as int),
                conv_of(*final(conv)),
            ),
        ),
        old(segments)@.len() <= final(segments)@.len(),
        final(segments)@.subrange(0, old(segments)@.len() as int) == old(segments)@,
{
    let ghost whole = video_gops(entries@, 0, 0, mdat@, mdat_offset, timescale, track_id, conv_of(*conv), 0);
    let ghost start = segments@;
    let ghost h = start.len() as int;
    let n = entries.len();
    let mut i: usize = 0;
    let mut gop_start: usize = 0;
    let mut decode_time: u64 = 0;
    proof {
        assert(seg_views(segments@).subrange(h, segments@.len() as int) =~= Seq::<SegView>::empty());
        assert(segments@.subrange(0, h) =~= start);
    }
    loop
        invariant
            n == entries@.len(),
            gop_start <= i <= n,
            h == start.len(),
            h <= segments@.len(),
            segments@.subrange(0, h) == start,
            whole is Some,
            video_gops(entries@, i as int, gop_start as int, mdat@, mdat_offset, timescale, track_id, conv_of(*conv), decode_time) is Some,
            whole == prefixed_conv(
                seg_views(segments@).subrange(h, segments@.len() as int),
                video_gops(entries@, i as int, gop_start as int, mdat@, mdat_offset, timescale, track_id, conv_of(*conv), decode_time),
            ),
        ensures
            whole == Some((seg_views(segments@).subrange(h, segments@.len() as int), conv_of(*conv))),
            h <= segments@.len(),
            segments@.subrange(0, h) == start,
        decreases n + 1 - i,
    {
        let boundary = i == n || (i > 0 && entries[i].is_keyframe);
        if boundary && i > gop_start {
            match cut_frames(entries, gop_start, i, mdat, mdat_offset, false) {
                Some(frames) => {
                    if frames.len() > 0 {
                        let (seg, gop_duration) = fragment_group(conv, &frames, track_id, timescale, decode_time);
                        let ghost before = segments@;
                        segments.push(seg);
                        proof {
                            let out = seg_views(before).subrange(h, before.len() as int);
                            let rest = video_gops(entries@, i as int + 1, i as int, mdat@, mdat_offset, timescale, track_id, conv_of(*conv), (decode_time + gop_duration) as u64);
                            assert(seg_views(segments@).subrange(h, segments@.len() as int) =~= out.push(seg@));
                            match rest {
                                Some((r, st2)) => {
                                    assert(out + (seq![seg@] + r) =~= out.push(seg@) + r);
                                },
                                None => {},
                            }
                            assert(segments@.subrange(0, h) =~= before.subrange(0, h));
                        }
                        decode_time = decode_time + gop_duration;
                    }
                },
                None => {},
            }
            gop_start = i;
        }
        if i == n {
            proof {
                assert(video_gops(entries@, n as int + 1, gop_start as int, mdat@, mdat_offset, timescale, track_id, conv_of(*conv), decode_time)
                    == Some((Seq::<SegView>::empty(), conv_of(*conv))));
                assert(seg_views(segments@).subrange(h, segments@.len() as int) + Seq::<SegView>::empty()
                    =~= seg_views(segments@).subrange(h, segments@.len() as int));
            }
            break;
        }
        i = i + 1;
    }
}

/// Append the segments of `mdat` cut into 64 KiB chunks, fragmenting with
/// `conv`.
fn chunk_fallback_segments(
    conv: &mut FragmentedMp4Converter,
    mdat: &[u8],
    timescale: u32,
    track_id: u32,
    segments: &mut Vec<MseSegment>,
)
    requires
        chunk_segments(mdat@, 0, 0, timescale, track_id, conv_of(*old(conv))) is Some,
    ensures
        chunk_segments(mdat@, 0, 0, timescale, track_id, conv_of(*old(conv))) == Some(
            (
                seg_views(final(segments)@).subrange(old(segments)@.len() as int, final(segments)@.len() as int),
                conv_of(*final(conv)),
            ),
        ),
        old(segments)@.len() <= final(segments)@.len(),
        final(segments)@.subrange(0, old(segments)@.len() as int) == old(segments)@,
{
    let ghost whole = chunk_segments(mdat@, 0, 0, timescale, track_id, conv_of(*conv));
    let ghost start_segs = segments@;
    let ghost h = start_segs.len() as int;
    let len = mdat.len();
    let mut start: usize = 0;
    let mut k: u64 = 0;
    proof {
        assert(seg_views(segments@).subrange(h, segments@.len() as int) =~= Seq::<SegView>::empty());
        assert(segments@.subrange(0, h) =~= start_segs);
    }
    loop
        invariant
            len == mdat@.len(),
            start <= len,
            start == len || start == k * 65536,
            h == start_segs.len(),
            h <= segments@.len(),
            segments@.subrange(0, h) == start_segs,
            whole is Some,
            chunk_segments(mdat@, start as int, k as int, timescale, track_id, conv_of(*conv)) is Some,
            whole == prefixed_conv(
                seg_views(segments@).subrange(h, segments@.len() as int),
                chunk_segments(mdat@, start as int, k as int, timescale, track_id, conv_of(*conv)),
            ),
        ensures
            whole == Some((seg_views(segments@).subrange(h, segments@.len() as int), conv_of(*conv))),
            h <= segments@.len(),
            segments@.subrange(0, h) == start_segs,
        decreases len - start,
    {
        if start >= len {
            proof {
                assert(seg_views(segments@).subrange(h, segments@.len() as int) + Seq::<SegView>::empty()
                    =~= seg_views(segments@).subrange(h, segments@.len() as int));
            }
            break;
        }
        let seg = fragment_chunk(conv, mdat, start, k, timescale, track_id);
        let end = if len - start > 65536 {
            start + 65536
        } else {
            len
        };
        let ghost before = segments@;
        segments.push(seg);
        proof {
            let out = seg_views(before).subrange(h, before.len() as int);
            assert(seg_views(segments@).subrange(h, segments@.len() as int) =~= out.push(seg@));
            if start + 65536 < len {
                let rest = chunk_segments(mdat@, start + 65536, k + 1, timescale, track_id, conv_of(*conv));
                match rest {
                    Some((r, st2)) => {
                        assert(out + (seq![seg@] + r) =~= out.push(seg@) + r);
                    },
                    None => {},
                }
            } else {
                assert(out + seq![seg@] =~= out.push(seg@));
                assert(out.push(seg@) + Seq::<SegView>::empty() =~= out.push(seg@));
            }
            assert(segments@.subrange(0, h) =~= before.subrange(0, h));
        }
        start = end;
        k = k + 1;
    }
}


/// Append the audio segments, fragmenting with a fresh converter.
fn audio_chunk_segments(
    samples: &Vec<SampleEntry>,
    spc: usize,
    mdat: &[u8],
    mdat_offset: u64,
    timescale: u32,
    track_id: u32,
    segments: &mut Vec<MseSegment>,
)
    requires
        spc >= 1,
        audio_chunks(samples@, 0, spc as int, mdat@, mdat_offset, timescale, track_id, ConvState { seq: 1, time: 0 }, 0) is Some,
    ensures
        audio_chunks(samples@, 0, spc as int, mdat@, mdat_offset, timescale, track_id, ConvState { seq: 1, time: 0 }, 0)
            == Some(seg_views(final(segments)@).subrange(old(segments)@.len() as int, final(segments)@.len() as int)),
        old(segments)@.len() <= final(segments)@.len(),
        final(segments)@.subrange(0, old(segments)@.len() as int) == old(segments)@,
{
    let ghost whole = audio_chunks(samples@, 0, spc as int, mdat@, mdat_offset, timescale, track_id, ConvState { seq: 1, time: 0 }, 0);
    let ghost start_segs = segments@;
    let ghost h = start_segs.len() as int;
    let mut conv = FragmentedMp4Converter::new();
    let n = samples.len();
    let mut start: usize = 0;
    let mut decode_time: u64 = 0;
    proof {
        assert(seg_views(segments@).subrange(h, segments@.len() as int) =~= Seq::<SegView>::empty());
        assert(segments@.subrange(0, h) =~= start_segs);
    }
    loop
        invariant
            n == samples@.len(),
            spc >= 1,
            start <= n,
            h == start_segs.len(),
            h <= segments@.len(),
            segments@.subrange(0, h) == start_segs,
            whole is Some,
            audio_chunks(samples@, start as int, spc as int, mdat@, mdat_offset, timescale, track_id, conv_of(conv), decode_time) is Some,
            whole == match audio_chunks(samples@, start as int, spc as int, mdat@, mdat_offset, timescale, track_id, conv_of(conv), decode_time) {
                Some(rest) => Some(seg_views(segments@).subrange(h, segments@.len() as int) + rest),
                None => None,
            },
        ensures
            whole == Some(seg_views(segments@).subrange(h, segments@.len() as int)),
            h <= segments@.len(),
            segments@.subrange(0, h) == start_segs,
        decreases n - start,
    {
        if start >= n {
            proof {
                assert(seg_views(segments@).subrange(h, segments@.len() as int) + Seq::<SegView>::empty()
                    =~= seg_views(segments@).subrange(h, segments@.len() as int));
            }
            break;
        }
        let end = if n - start > spc {
            start + spc
        } else {
            n
        };
        match cut_frames(samples, start, end, mdat, mdat_offset, true) {
            Some(frames) => {
                if frames.len() > 0 {
                    let (seg, dur) = fragment_group(&mut conv, &frames, track_id, timescale, decode_time);
                    let ghost before = segments@;
                    segments.push(seg);
                    proof {
                        let out = seg_views(before).subrange(h, before.len() as int);
                        let rest = audio_chunks(samples@, end as int, spc as int, mdat@, mdat_offset, timescale, track_id, conv_of(conv), (decode_time + dur) as u64);
                        assert(seg_views(segments@).subrange(h, segments@.len() as int) =~= out.push(seg@));
                        match rest {
                            Some(r) => {
                                assert(out + (seq![seg@] + r) =~= out.push(seg@) + r);
                            },
                            None => {},
                        }
                        assert(segments@.subrange(0, h) =~= before.subrange(0, h));
                    }
                    decode_time = decode_time + dur;
                }
            },
            None => {},
        }
        start = end;
    }
}

/// The segments of a regular file, and the state of the converter after
/// them, when the file is not fragmented.
pub open spec fn mse_segments_spec(
    fragmented: bool,
    boxes: Seq<Mp4Box>,
    tracks: Seq<TrackView>,
    mdat_offset: u64,
    conv: ConvState,
) -> Option<Result<(Seq<SegView>, ConvState), Mp4Error>> {
    if fragmented {
        match extracted_segments(boxes, tracks) {
            None => None,
            Some(Err(e)) => Some(Err(e)),
            Some(Ok(v)) => Some(Ok((v, conv))),
        }
    } else {
        regular_segments(boxes, tracks, mdat_offset, conv)
    }
}

/// Generation that succeeds puts the initialization segment first: always
/// for a regular file, and for a fragmented one whenever it has
/// initialization data (an `ftyp` or `moov` to write back).
pub proof fn lemma_init_segment_first(
    fragmented: bool,
    boxes: Seq<Mp4Box>,
    tracks: Seq<TrackView>,
    mdat_offset: u64,
    conv: ConvState,
)
    requires
        mse_segments_spec(fragmented, boxes, tracks, mdat_offset, conv) matches Some(Ok(_)),
        fragmented ==> (frag_init(boxes, has_ac3_codec(tracks), boxes.len() as int) matches Some(i) && i.len() > 0),
    ensures
        ({
            let w = mse_segments_spec(fragmented, boxes, tracks, mdat_offset, conv)->0->Ok_0.0;
            &&& w.len() > 0
            &&& w[0].segment_type == "initialization"@
            &&& w[0].track_id == 0
        }),
{
}

impl Mp4Parser {
    /// The state of the fragment converter.
    pub closed spec fn converter_state(&self) -> ConvState {
        conv_of(self.fmp4_converter)
    }

    /// Whether generating segments gets through without failing at run time.
    pub open spec fn generates(&self) -> bool {
        mse_segments_spec(
            self.fragmented(),
            self.boxes_spec(),
            self.tracks_view(),
            self.mdat_offset(),
            self.converter_state(),
        ) is Some
    }

    /// The boxes as parsed.
    pub closed spec fn boxes_spec(&self) -> Seq<Mp4Box> {
        self.boxes@
    }

    /// Append the audio segments of a regular file.
    fn append_audio(&self, mdat: &[u8], segments: &mut Vec<MseSegment>)
        requires
            regular_audio(self.tracks_view(), mdat@, self.mdat_payload_offset) is Some,
            !has_ac3_codec(self.tracks_view()),
        ensures
            regular_audio(self.tracks_view(), mdat@, self.mdat_payload_offset) == Some(
                seg_views(final(segments)@).subrange(old(segments)@.len() as int, final(segments)@.len() as int),
            ),
            old(segments)@.len() <= final(segments)@.len(),
            final(segments)@.subrange(0, old(segments)@.len() as int) == old(segments)@,
    {
        proof {
            assert(seg_views(segments@).subrange(segments@.len() as int, segments@.len() as int) =~= Seq::<SegView>::empty());
            assert(segments@.subrange(0, segments@.len() as int) =~= segments@);
        }
        let ai = match self.find_track_index(HANDLER_SOUN) {
            Some(a) => a,
            None => {
                return;
            },
        };
        assert(self.tracks_view()[ai as int] == self.tracks@[ai as int]@);
        let audio_timescale = self.tracks[ai].timescale;
        let audio_track_id = self.tracks[ai].track_id;
        let samples = match &self.tracks[ai].sample_table {
            Some(t) => t.resolve_sample_offsets(),
            None => {
                return;
            },
        };
        if samples.len() == 0 {
            return;
        }
        let first = samples[0].duration;
        let d: u64 = if first >= 1 {
            first as u64
        } else {
            1
        };
        let q = (audio_timescale as u64 / 2) / d;
        let spc: usize = if q >= 1 {
            q as usize
        } else {
            1
        };
        audio_chunk_segments(&samples, spc, mdat, self.mdat_payload_offset, audio_timescale, audio_track_id, segments);
    }

    /// Fragment a regular (not fragmented) file: an initialization segment
    /// with an MSE-fit `moov`, then a segment per group of pictures (or per
    /// 64 KiB of `mdat` without a sample table), then the audio segments.
    fn create_fragments_from_regular_mp4(&mut self) -> (r: Result<Vec<MseSegment>, Mp4Error>)
        requires
            regular_segments(old(self).boxes@, old(self).tracks_view(), old(self).mdat_offset(), old(self).converter_state()) is Some,
        ensures
            match (r, regular_segments(old(self).boxes@, old(self).tracks_view(), old(self).mdat_offset(), old(self).converter_state())) {
                (Ok(v), Some(Ok((w, st)))) => seg_views(v@) == w && final(self).converter_state() == st,
                (Err(e), Some(Err(f))) => e == f,
                _ => false,
            },
            final(self).boxes@ == old(self).boxes@,
            final(self).tracks_view() == old(self).tracks_view(),
            final(self).fragmented() == old(self).fragmented(),
            final(self).mdat_offset() == old(self).mdat_offset(),
    {
        let ac3 = self.has_ac3_audio();
        let (ftyp, moov_index, mdat) = self.collect_regular_boxes();
        let m = match moov_index {
            Some(m) => m,
            None => {
                return Err(Mp4Error::InvalidData);
            },
        };
        let moov = match self.create_mse_compatible_moov(&self.boxes[m], ac3) {
            Ok(v) => v,
            Err(e) => {
                return Err(e);
            },
        };
        let mut init = ftyp;
        push_all(&mut init, moov.as_slice());
        let mut segments: Vec<MseSegment> = Vec::new();
        segments.push(
            MseSegment {
                segment_type: String::from_str("initialization"),
                data: init,
                timestamp: None,
                duration: None,
                is_keyframe: true,
                track_id: 0,
            },
        );
        let ghost head = seg_views(segments@);
        proof {
            assert(head =~= seq![segments@[0]@]);
        }
        if mdat.len() == 0 {
            return Ok(segments);
        }
        let vi = self.find_track_index(HANDLER_VIDE);
        let (timescale, track_id) = match vi {
            Some(i) => {
                assert(self.tracks_view()[i as int] == self.tracks@[i as int]@);
                (self.tracks[i].timescale, self.tracks[i].track_id)
            },
            None => (1000u32, 1u32),
        };
        let entries: Option<Vec<SampleEntry>> = match vi {
            Some(i) => match &self.tracks[i].sample_table {
                Some(t) => Some(t.resolve_sample_offsets()),
                None => None,
            },
            None => None,
        };
        let mdat_offset = self.mdat_payload_offset;
        let ghost h = segments@.len() as int;
        match entries {
            Some(e) => {
                if e.len() == 0 {
                    return Err(Mp4Error::InvalidData);
                }
                video_gop_segments(&mut self.fmp4_converter, &e, mdat.as_slice(), mdat_offset, timescale, track_id, &mut segments);
            },
            None => {
                chunk_fallback_segments(&mut self.fmp4_converter, mdat.as_slice(), timescale, track_id, &mut segments);
            },
        }
        let ghost video = seg_views(segments@).subrange(h, segments@.len() as int);
        let ghost h2 = segments@.len() as int;
        if !ac3 {
            self.append_audio(mdat.as_slice(), &mut segments);
        } else {
            proof {
                assert(seg_views(segments@).subrange(h2, segments@.len() as int) =~= Seq::<SegView>::empty());
            }
        }
        proof {
            let audio = seg_views(segments@).subrange(h2, segments@.len() as int);
            assert forall|j: int| 0 <= j < h2 implies seg_views(segments@)[j] == (head + video)[j] by {
                assert(segments@.subrange(0, h2)[j] == segments@[j]);
            }
            assert(seg_views(segments@) =~= head + video + audio);
        }
        Ok(segments)
    }

    /// The segments for MSE: taken from the boxes of a fragmented file,
    /// else made by fragmenting a regular one.
    pub fn generate_mse_segments(&mut self) -> (r: Result<Vec<MseSegment>, Mp4Error>)
        requires
            old(self).generates(),
        ensures
            match (r, mse_segments_spec(old(self).fragmented(), old(self).boxes_spec(), old(self).tracks_view(), old(self).mdat_offset(), old(self).converter_state())) {
                (Ok(v), Some(Ok((w, st)))) => seg_views(v@) == w && final(self).converter_state() == st,
                (Err(e), Some(Err(f))) => e == f,
                _ => false,
            },
            final(self).boxes_spec() == old(self).boxes_spec(),
            final(self).tracks_view() == old(self).tracks_view(),
            final(self).fragmented() == old(self).fragmented(),
            final(self).mdat_offset() == old(self).mdat_offset(),
    {
        if self.is_fragmented {
            self.extract_fragmented_segments()
        } else {
            self.create_fragments_from_regular_mp4()
        }
    }
}


// ---------------------------------------------------------------------------
// Separate initialization segments
// ---------------------------------------------------------------------------

/// The track id in the first `tkhd` of a `trak` box (whole box in `d`),
/// walking from `cursor`.
pub open spec fn trak_track_id(d: Seq<u8>, cursor: int) -> Option<u32>
    decreases d.len() - cursor,
{
    if !child_at(d, cursor) {
        None
    } else if be_u32_at(d, cursor + 4) == BOX_TKHD && cursor + 24 <= d.len() {
        Some(be_u32_at(d, cursor + 20))
    } else {
        trak_track_id(d, cursor + be_u32_at(d, cursor))
    }
}

fn extract_track_id_from_trak(trak: &[u8]) -> (r: Option<u32>)
    ensures
        r == trak_track_id(trak@, 8),
{
    let len = trak.len();
    if len < 8 {
        proof {
            assert(!child_at(trak@, 8));
        }
        return None;
    }
    let mut cursor: usize = 8;
    loop
        invariant
            len == trak@.len(),
            cursor <= len,
            trak_track_id(trak@, 8) == trak_track_id(trak@, cursor as int),
        ensures
            trak_track_id(trak@, 8) is None,
        decreases len - cursor,
    {
        let found = child_size(trak, cursor);
        if found.is_none() {
            break;
        }
        let size = found.unwrap();
        if read_u32_be(trak, cursor + 4) == BOX_TKHD && len - cursor >= 24 {
            return Some(read_u32_be(trak, cursor + 20));
        }
        cursor = cursor + size;
    }
    None
}

/// The children of an `mvex` box (whole box in `d`) from `cursor` that are
/// kept: every child but the `trex` boxes of tracks not in `kept` (and
/// `trex` boxes too short to name a track).
pub open spec fn mvex_walk(d: Seq<u8>, cursor: int, kept: Seq<u32>, acc: Seq<u8>) -> Seq<u8>
    decreases d.len() - cursor,
{
    if !child_at(d, cursor) {
        acc
    } else {
        let size = be_u32_at(d, cursor) as int;
        let child = d.subrange(cursor, cursor + size);
        if be_u32_at(d, cursor + 4) == BOX_TREX {
            if cursor + 16 <= d.len() && kept.contains(be_u32_at(d, cursor + 12)) {
                mvex_walk(d, cursor + size, kept, acc + child)
            } else {
                mvex_walk(d, cursor + size, kept, acc)
            }
        } else {
            mvex_walk(d, cursor + size, kept, acc + child)
        }
    }
}

/// An `mvex` box keeping only the `trex` boxes of the kept tracks; nothing
/// when nothing is kept.
pub open spec fn filtered_mvex(d: Seq<u8>, kept: Seq<u32>) -> Seq<u8> {
    if d.len() < 8 {
        Seq::empty()
    } else {
        let content = mvex_walk(d, 8, kept, Seq::empty());
        if content.len() == 0 {
            Seq::empty()
        } else {
            wrapped_box(BOX_MVEX, content)
        }
    }
}

fn filter_mvex_for_tracks(mvex: &[u8], kept: &Vec<u32>) -> (r: Vec<u8>)
    requires
        mvex@.len() >= 8 ==> size32(mvex_walk(mvex@, 8, kept@, Seq::empty()).len() as int) <= u32::MAX,
    ensures
        r@ == filtered_mvex(mvex@, kept@),
{
    let len = mvex.len();
    if len < 8 {
        return Vec::new();
    }
    let mut content: Vec<u8> = Vec::new();
    let mut cursor: usize = 8;
    loop
        invariant
            len == mvex@.len(),
            cursor <= len,
            mvex_walk(mvex@, 8, kept@, Seq::empty()) == mvex_walk(mvex@, cursor as int, kept@, content@),
        ensures
            mvex_walk(mvex@, 8, kept@, Seq::empty()) == content@,
        decreases len - cursor,
    {
        let found = child_size(mvex, cursor);
        if found.is_none() {
            break;
        }
        let size = found.unwrap();
        if read_u32_be(mvex, cursor + 4) == BOX_TREX {
            if len - cursor >= 16 {
                let id = read_u32_be(mvex, cursor + 12);
                let mut present = false;
                let mut q: usize = 0;
                while q < kept.len()
                    invariant
                        q <= kept@.len(),
                        present == (exists|x: int| 0 <= x < q && kept@[x] == id),
                    decreases kept@.len() - q,
                {
                    if kept[q] == id {
                        present = true;
                    }
                    q = q + 1;
                }
                proof {
                    if present {
                        let x = choose|x: int| 0 <= x < q && kept@[x] == id;
                        assert(kept@.contains(id));
                    } else {
                        assert(!kept@.contains(id));
                    }
                }
                if present {
                    push_range(&mut content, mvex, cursor, cursor + size);
                }
            }
        } else {
            push_range(&mut content, mvex, cursor, cursor + size);
        }
        cursor = cursor + size;
    }
    if content.len() == 0 {
        return Vec::new();
    }
    make_box_sized(BOX_MVEX, content.as_slice())
}

/// What filtering `moov` content has gathered: the kept children, the ids
/// of the kept tracks, and where the last `mvex` is.
pub struct FilterState {
    pub out: Seq<u8>,
    pub kept: Seq<u32>,
    pub mvex: Option<(int, int)>,
}

/// The walk over `moov` content from `cursor` keeping the tracks whose
/// handler is `keep` (and the other children but `mvex`).
pub open spec fn filter_walk(d: Seq<u8>, cursor: int, keep: Seq<u8>, st: FilterState) -> FilterState
    decreases d.len() - cursor,
{
    if !child_at(d, cursor) {
        st
    } else {
        let size = be_u32_at(d, cursor) as int;
        let child = d.subrange(cursor, cursor + size);
        let ty = be_u32_at(d, cursor + 4);
        let st2 = if ty == BOX_TRAK {
            if trak_handler(child, 8, 16) == Some(keep) {
                FilterState {
                    out: st.out + child,
                    kept: match trak_track_id(child, 8) {
                        Some(id) => st.kept.push(id),
                        None => st.kept,
                    },
                    mvex: st.mvex,
                }
            } else {
                st
            }
        } else if ty == BOX_MVEX {
            FilterState { mvex: Some((cursor, cursor + size)), ..st }
        } else {
            FilterState { out: st.out + child, ..st }
        };
        filter_walk(d, cursor + size, keep, st2)
    }
}

/// Whether filtering would read a handler past the end of some `trak`.
pub open spec fn filter_past(d: Seq<u8>, cursor: int) -> bool
    decreases d.len() - cursor,
{
    if !child_at(d, cursor) {
        false
    } else {
        let size = be_u32_at(d, cursor) as int;
        (be_u32_at(d, cursor + 4) == BOX_TRAK && trak_handler_past(
            d.subrange(cursor, cursor + size),
            8,
            16,
        )) || filter_past(d, cursor + size)
    }
}

/// `moov` content keeping only the tracks whose handler is `keep`, with
/// `mvex` filtered to match and moved to the end.
pub open spec fn filtered_moov(d: Seq<u8>, keep: Seq<u8>) -> Seq<u8> {
    let st = filter_walk(d, 0, keep, FilterState { out: Seq::empty(), kept: Seq::empty(), mvex: None });
    match st.mvex {
        Some((a, b)) => st.out + filtered_mvex(d.subrange(a, b), st.kept),
        None => st.out,
    }
}

/// Whether filtering `moov` content would fail at run time.
pub open spec fn filter_fails(d: Seq<u8>, keep: Seq<u8>) -> bool {
    let st = filter_walk(d, 0, keep, FilterState { out: Seq::empty(), kept: Seq::empty(), mvex: None });
    filter_past(d, 0) || match st.mvex {
        Some((a, b)) => b - a >= 8 && size32(
            mvex_walk(d.subrange(a, b), 8, st.kept, Seq::empty()).len() as int,
        ) > u32::MAX,
        None => false,
    }
}

fn track_has_handler_type(trak: &[u8], handler: u32) -> (r: bool)
    requires
        !trak_handler_past(trak@, 8, 16),
    ensures
        r == (trak_handler(trak@, 8, 16) == Some(u32_bytes(handler))),
{
    match find_trak_handler(trak, 16) {
        Some(h) => crate::bytes_be::is_fourcc(h.as_slice(), handler),
        None => false,
    }
}

fn filter_moov_for_track_type(moov: &[u8], keep: u32) -> (r: Vec<u8>)
    requires
        !filter_fails(moov@, u32_bytes(keep)),
    ensures
        r@ == filtered_moov(moov@, u32_bytes(keep)),
{
    let ghost init = FilterState { out: Seq::empty(), kept: Seq::empty(), mvex: None };
    let len = moov.len();
    let mut out: Vec<u8> = Vec::new();
    let mut kept: Vec<u32> = Vec::new();
    let mut mvex_pos: Option<(usize, usize)> = None;
    let mut cursor: usize = 0;
    loop
        invariant
            len == moov@.len(),
            cursor <= len,
            !filter_past(moov@, cursor as int),
            !filter_past(moov@, 0),
            filter_walk(moov@, 0, u32_bytes(keep), init) == filter_walk(
                moov@,
                cursor as int,
                u32_bytes(keep),
                FilterState {
                    out: out@,
                    kept: kept@,
                    mvex: match mvex_pos {
                        Some((a, b)) => Some((a as int, b as int)),
                        None => None,
                    },
                },
            ),
            match mvex_pos {
                Some((a, b)) => a <= b <= len,
                None => true,
            },
        ensures
            filter_walk(moov@, 0, u32_bytes(keep), init) == (FilterState {
                out: out@,
                kept: kept@,
                mvex: match mvex_pos {
                    Some((a, b)) => Some((a as int, b as int)),
                    None => None,
                },
            }),
            match mvex_pos {
                Some((a, b)) => a <= b <= len,
                None => true,
            },
        decreases len - cursor,
    {
        let found = child_size(moov, cursor);
        if found.is_none() {
            break;
        }
        let size = found.unwrap();
        let ty = read_u32_be(moov, cursor + 4);
        if ty == BOX_TRAK {
            let trak = copy_range(moov, cursor, cursor + size);
            if track_has_handler_type(trak.as_slice(), keep) {
                match extract_track_id_from_trak(trak.as_slice()) {
                    Some(id) => {
                        kept.push(id);
                    },
                    None => {},
                }
                push_all(&mut out, trak.as_slice());
            }
        } else if ty == BOX_MVEX {
            mvex_pos = Some((cursor, cursor + size));
        } else {
            push_range(&mut out, moov, cursor, cursor + size);
        }
        cursor = cursor + size;
    }
    match mvex_pos {
        Some((a, b)) => {
            let mvex = copy_range(moov, a, b);
            let filtered = filter_mvex_for_tracks(mvex.as_slice(), &kept);
            push_all(&mut out, filtered.as_slice());
        },
        None => {},
    }
    out
}

/// The written-back last `ftyp` among the first `k` boxes.
pub open spec fn last_ftyp(boxes: Seq<Mp4Box>, k: int) -> Option<Seq<u8>>
    decreases k,
{
    if k <= 0 {
        None
    } else if box_is(boxes[k - 1], BOX_FTYP) {
        Some(serialized(boxes[k - 1]))
    } else {
        last_ftyp(boxes, k - 1)
    }
}

/// The content of the last raw `moov` among the first `k` boxes.
pub open spec fn last_moov_content(boxes: Seq<Mp4Box>, k: int) -> Option<Seq<u8>>
    decreases k,
{
    if k <= 0 {
        None
    } else if box_is(boxes[k - 1], BOX_MOOV) && boxes[k - 1].content is Raw {
        match boxes[k - 1].content {
            BoxContent::Raw(v) => Some(v@),
            _ => None,
        }
    } else {
        last_moov_content(boxes, k - 1)
    }
}

/// The initialization segment for one kind of track: `ftyp` and a `moov`
/// holding only the tracks of that kind.
pub open spec fn single_init(ftyp: Seq<u8>, moov: Seq<u8>, keep: Seq<u8>) -> Seq<u8> {
    ftyp + wrapped_box(BOX_MOOV, filtered_moov(moov, keep))
}

/// Whether building one kind's initialization segment would fail.
pub open spec fn single_init_fails(moov: Seq<u8>, keep: Seq<u8>) -> bool {
    filter_fails(moov, keep) || size32(filtered_moov(moov, keep).len() as int) > u32::MAX
}

/// Separate video and audio initialization segments: an error when there
/// is no `ftyp`, no raw `moov` or no video track; the audio one only when
/// there is an audio track.
pub open spec fn separate_inits(boxes: Seq<Mp4Box>, tracks: Seq<TrackView>) -> Option<
    Result<(Seq<u8>, Option<Seq<u8>>), Mp4Error>,
> {
    match (last_ftyp(boxes, boxes.len() as int), last_moov_content(boxes, boxes.len() as int)) {
        (Some(ftyp), Some(moov)) => {
            let vide = u32_bytes(HANDLER_VIDE);
            let soun = u32_bytes(HANDLER_SOUN);
            if find_track(tracks, vide, 0) is None {
                Some(Err(Mp4Error::InvalidData))
            } else if single_init_fails(moov, vide) {
                None
            } else if find_track(tracks, soun, 0) is Some {
                if single_init_fails(moov, soun) {
                    None
                } else {
                    Some(Ok((single_init(ftyp, moov, vide), Some(single_init(ftyp, moov, soun)))))
                }
            } else {
                Some(Ok((single_init(ftyp, moov, vide), None)))
            }
        },
        _ => Some(Err(Mp4Error::InvalidData)),
    }
}

impl Mp4Parser {
    /// Separate initialization segments for a video-only and an audio-only
    /// source buffer: `ftyp` and a `moov` with only the tracks of one kind.
    pub fn generate_separate_init_segments(&self) -> (r: Result<(Vec<u8>, Option<Vec<u8>>), Mp4Error>)
        requires
            separate_inits(self.boxes_spec(), self.tracks_view()) is Some,
        ensures
            match (r, separate_inits(self.boxes_spec(), self.tracks_view())) {
                (Ok((v, a)), Some(Ok((w, b)))) => v@ == w && match (a, b) {
                    (Some(x), Some(y)) => x@ == y,
                    (None, None) => true,
                    _ => false,
                },
                (Err(e), Some(Err(f))) => e == f,
                _ => false,
            },
    {
        let mut ftyp: Option<Vec<u8>> = None;
        let mut moov: Option<Vec<u8>> = None;
        let mut k: usize = 0;
        while k < self.boxes.len()
            invariant
                k <= self.boxes@.len(),
                match ftyp {
                    Some(f) => last_ftyp(self.boxes@, k as int) == Some(f@),
                    None => last_ftyp(self.boxes@, k as int) is None,
                },
                match moov {
                    Some(m) => last_moov_content(self.boxes@, k as int) == Some(m@),
                    None => last_moov_content(self.boxes@, k as int) is None,
                },
            decreases self.boxes@.len() - k,
        {
            let b = &self.boxes[k];
            if crate::bytes_be::is_fourcc(b.header.box_type.as_slice(), BOX_FTYP) {
                ftyp = Some(self.serialize_box(b));
            } else if crate::bytes_be::is_fourcc(b.header.box_type.as_slice(), BOX_MOOV) {
                match &b.content {
                    BoxContent::Raw(v) => {
                        moov = Some(copy_range(v.as_slice(), 0, v.len()));
                        proof {
                            assert(v@.subrange(0, v@.len() as int) =~= v@);
                        }
                    },
                    _ => {},
                }
            }
            k = k + 1;
        }
        let ftyp = match ftyp {
            Some(f) => f,
            None => {
                return Err(Mp4Error::InvalidData);
            },
        };
        let moov = match moov {
            Some(m) => m,
            None => {
                return Err(Mp4Error::InvalidData);
            },
        };
        if !self.has_video_track() {
            return Err(Mp4Error::InvalidData);
        }
        let video_content = filter_moov_for_track_type(moov.as_slice(), HANDLER_VIDE);
        let video_moov = make_box_sized(BOX_MOOV, video_content.as_slice());
        let mut video_init = copy_range(ftyp.as_slice(), 0, ftyp.len());
        proof {
            assert(ftyp@.subrange(0, ftyp@.len() as int) =~= ftyp@);
        }
        push_all(&mut video_init, video_moov.as_slice());
        if self.has_audio_track() {
            let audio_content = filter_moov_for_track_type(moov.as_slice(), HANDLER_SOUN);
            let audio_moov = make_box_sized(BOX_MOOV, audio_content.as_slice());
            let mut audio_init = copy_range(ftyp.as_slice(), 0, ftyp.len());
            push_all(&mut audio_init, audio_moov.as_slice());
            Ok((video_init, Some(audio_init)))
        } else {
            Ok((video_init, None))
        }
    }
}

} // verus!
