//! Writing segments for Media Source Extensions from boxes read by the
//! fragment parser.
//!
//! A fragmented file gives an initialization segment (its `ftyp` and `moov`
//! boxes) and one media segment per `moof` followed by an `mdat`. A regular
//! file gives its `ftyp` and `moov` as initialization segment and the
//! payload of its `mdat` cut into 64 KiB chunks, each behind a minimal
//! `moof`.
use vstd::prelude::*;
use crate::bytes_be::{
    box_bytes, make_box, push_all, push_u32, read_u32_be, u32_bytes, lemma_u32_bytes_roundtrip,
    BOX_FTYP, BOX_MDAT, BOX_MFHD, BOX_MOOF, BOX_MOOV, BOX_TFHD, BOX_TRAF, BOX_TRUN,
};
use crate::media::fragment_parser::BoxInfo;
use crate::media::mp4_parser::{
    is_likely_keyframe, lemma_likely_keyframe_law, likely_keyframe, sps_or_pps_at, seg_views, BoxContent, Mp4Track, MseSegment, SegView,
};
use crate::text::{lemma_ascii_valid_utf8, lossy_string, utf8_lossy};

verus! {

/// Size of the chunks a regular file's media data is cut into.
pub const CHUNK_SIZE: usize = 65536;

/// The content bytes that are written back: raw content, else nothing.
pub open spec fn raw_bytes(c: BoxContent) -> Seq<u8> {
    match c {
        BoxContent::Raw(v) => v@,
        _ => Seq::empty(),
    }
}

/// Whether the type bytes of a box are those of `t`.
pub open spec fn is_type(b: BoxInfo, t: u32) -> bool {
    b.header.box_type@ == u32_bytes(t)
}

/// A box written back: its declared size cut to 32 bits, its type and its
/// raw content.
pub open spec fn written(b: BoxInfo) -> Seq<u8> {
    u32_bytes(b.header.size as u32) + b.header.box_type@ + raw_bytes(b.content)
}

/// Whether a box goes into the initialization segment of a fragmented
/// file: an `ftyp` or `moov` whose declared size (cut to 32 bits) matches
/// what is written.
pub open spec fn init_kept(b: BoxInfo) -> bool {
    &&& (is_type(b, BOX_FTYP) || is_type(b, BOX_MOOV))
    &&& (b.header.size as u32) as int == 8 + raw_bytes(b.content).len()
}

/// The initialization data of a fragmented file from the first `k` boxes.
pub open spec fn fragmented_init(boxes: Seq<BoxInfo>, k: int) -> Seq<u8>
    decreases k,
{
    if k <= 0 {
        Seq::empty()
    } else if init_kept(boxes[k - 1]) {
        fragmented_init(boxes, k - 1) + written(boxes[k - 1])
    } else {
        fragmented_init(boxes, k - 1)
    }
}

/// Whether the box at `i` is a `moof` directly followed by an `mdat`.
pub open spec fn pair_at(boxes: Seq<BoxInfo>, i: int) -> bool {
    &&& 0 <= i
    &&& i + 1 < boxes.len()
    &&& is_type(boxes[i], BOX_MOOF)
    &&& is_type(boxes[i + 1], BOX_MDAT)
}

/// A media segment number `m`, one second long and starting at `m`
/// seconds.
pub open spec fn media_view(data: Seq<u8>, m: int) -> SegView {
    SegView {
        segment_type: "media"@,
        data,
        timestamp: Some((m * 1000) as u64),
        duration: Some(1000),
        is_keyframe: likely_keyframe(data, m),
        track_id: 1,
    }
}

/// The media segments of a fragmented file from box `i` on, numbered from
/// `m`: each `moof` directly followed by an `mdat` gives one.
pub open spec fn fragmented_media(boxes: Seq<BoxInfo>, i: int, m: int) -> Seq<SegView>
    decreases boxes.len() - i,
{
    if i < 0 || i >= boxes.len() {
        Seq::empty()
    } else if pair_at(boxes, i) {
        seq![media_view(written(boxes[i]) + written(boxes[i + 1]), m)] + fragmented_media(
            boxes,
            i + 2,
            m + 1,
        )
    } else {
        fragmented_media(boxes, i + 1, m)
    }
}

/// Each media segment of a fragmented file is a media segment, and one
/// whose data (longer than four bytes) holds an SPS or PPS NAL unit after a
/// start code is marked as starting at a key frame, whatever its number.
pub proof fn lemma_fragmented_media_keyframes(boxes: Seq<BoxInfo>, i: int, m: int)
    ensures
        forall|k: int|
            0 <= k < fragmented_media(boxes, i, m).len() ==> {
                let s = #[trigger] fragmented_media(boxes, i, m)[k];
                &&& s.segment_type == "media"@
                &&& (s.data.len() > 4 && exists|j: int| sps_or_pps_at(s.data, j)) ==> s.is_keyframe
            },
    decreases boxes.len() - i,
{
    if i < 0 || i >= boxes.len() {
    } else if pair_at(boxes, i) {
        lemma_fragmented_media_keyframes(boxes, i + 2, m + 1);
        let data = written(boxes[i]) + written(boxes[i + 1]);
        lemma_likely_keyframe_law(data, m);
        let v = fragmented_media(boxes, i, m);
        let rest = fragmented_media(boxes, i + 2, m + 1);
        assert forall|k: int| 0 <= k < v.len() implies {
            let s = #[trigger] v[k];
            &&& s.segment_type == "media"@
            &&& (s.data.len() > 4 && exists|j: int| sps_or_pps_at(s.data, j)) ==> s.is_keyframe
        } by {
            if k > 0 {
                assert(v[k] == rest[k - 1]);
            }
        }
    } else {
        lemma_fragmented_media_keyframes(boxes, i + 1, m);
    }
}

/// In the segments of a fragmented file, every segment whose data (longer
/// than four bytes) holds an SPS or PPS NAL unit after a start code is
/// marked as starting at a key frame.
pub proof fn lemma_fragmented_segments_keyframes(boxes: Seq<BoxInfo>)
    ensures
        forall|k: int|
            0 <= k < fragmented_segments(boxes).len() ==> {
                let s = #[trigger] fragmented_segments(boxes)[k];
                (s.data.len() > 4 && exists|j: int| sps_or_pps_at(s.data, j)) ==> s.is_keyframe
            },
{
    lemma_fragmented_media_keyframes(boxes, 0, 0);
    let head = init_part(fragmented_init(boxes, boxes.len() as int));
    let media = fragmented_media(boxes, 0, 0);
    let v = fragmented_segments(boxes);
    assert forall|k: int| 0 <= k < v.len() implies {
        let s = #[trigger] v[k];
        (s.data.len() > 4 && exists|j: int| sps_or_pps_at(s.data, j)) ==> s.is_keyframe
    } by {
        if k >= head.len() {
            assert(v[k] == media[k - head.len()]);
        } else {
            assert(v[k] == head[k]);
        }
    }
}

/// The initialization segment holding `data`.
pub open spec fn init_view(data: Seq<u8>) -> SegView {
    SegView {
        segment_type: "initialization"@,
        data,
        timestamp: None,
        duration: None,
        is_keyframe: true,
        track_id: 0,
    }
}

/// An initialization segment when there is initialization data.
pub open spec fn init_part(data: Seq<u8>) -> Seq<SegView> {
    if data.len() > 0 {
        seq![init_view(data)]
    } else {
        Seq::empty()
    }
}

/// The segments of a fragmented file.
pub open spec fn fragmented_segments(boxes: Seq<BoxInfo>) -> Seq<SegView> {
    init_part(fragmented_init(boxes, boxes.len() as int)) + fragmented_media(boxes, 0, 0)
}

/// Whether the segments of a fragmented file can be made: a file with a
/// `moof` directly followed by an `mdat` has initialization data, and the
/// segments' times fit in 64 bits.
pub open spec fn fragmented_ready(boxes: Seq<BoxInfo>) -> bool {
    &&& (exists|i: int| pair_at(boxes, i)) ==> fragmented_init(boxes, boxes.len() as int).len() > 0
    &&& boxes.len() <= u64::MAX / 1000
}

/// The initialization data of a regular file from the first `k` boxes:
/// each `ftyp` and `moov` written back.
pub open spec fn regular_init(boxes: Seq<BoxInfo>, k: int) -> Seq<u8>
    decreases k,
{
    if k <= 0 {
        Seq::empty()
    } else if is_type(boxes[k - 1], BOX_FTYP) || is_type(boxes[k - 1], BOX_MOOV) {
        regular_init(boxes, k - 1) + written(boxes[k - 1])
    } else {
        regular_init(boxes, k - 1)
    }
}

/// The media data of a regular file: the raw content of the last `mdat`
/// among the first `k` boxes that has raw content.
pub open spec fn regular_mdat(boxes: Seq<BoxInfo>, k: int) -> Seq<u8>
    decreases k,
{
    if k <= 0 {
        Seq::empty()
    } else if is_type(boxes[k - 1], BOX_MDAT) && boxes[k - 1].content is Raw {
        raw_bytes(boxes[k - 1].content)
    } else {
        regular_mdat(boxes, k - 1)
    }
}

/// A `moof` for one sample of media data: fragment number `sequence`,
/// track 1, and a `trun` data offset of 40 (the `tfhd` length plus 24),
/// counted from the start of `moof`; it does not point at the `mdat`
/// payload, which follows the whole `moof`.
pub open spec fn minimal_moof(sequence: u32) -> Seq<u8> {
    let mfhd = box_bytes(BOX_MFHD, seq![0u8, 0, 0, 0] + u32_bytes(sequence));
    let tfhd = box_bytes(BOX_TFHD, seq![0u8, 0, 0, 0, 0, 0, 0, 1]);
    let trun = box_bytes(BOX_TRUN, seq![0u8, 0, 0, 1, 0, 0, 0, 1] + u32_bytes((8 + tfhd.len() + 16) as u32));
    let traf = box_bytes(BOX_TRAF, tfhd + trun);
    box_bytes(BOX_MOOF, mfhd + traf)
}

/// Number of chunks that `len` bytes are cut into.
pub open spec fn chunk_count(len: int) -> int {
    (len + CHUNK_SIZE - 1) / (CHUNK_SIZE as int)
}

/// Chunk number `k` of `data`.
pub open spec fn chunk_of(data: Seq<u8>, k: int) -> Seq<u8> {
    let start = k * CHUNK_SIZE;
    let end = if start + CHUNK_SIZE < data.len() {
        start + CHUNK_SIZE
    } else {
        data.len() as int
    };
    data.subrange(start, end)
}

/// The media segment of chunk `k`: the minimal `moof`, then the chunk in
/// an `mdat`, starting at `k` seconds.
pub open spec fn chunk_view(chunk: Seq<u8>, k: int, sequence: u32) -> SegView {
    SegView {
        segment_type: "media"@,
        data: minimal_moof(sequence) + box_bytes(BOX_MDAT, chunk),
        timestamp: Some((k * 1000) as u64),
        duration: Some(1000),
        is_keyframe: k == 0 || likely_keyframe(chunk, k),
        track_id: 1,
    }
}

/// The segments of a regular file.
pub open spec fn regular_segments(boxes: Seq<BoxInfo>, sequence: u32) -> Seq<SegView> {
    let mdat = regular_mdat(boxes, boxes.len() as int);
    init_part(regular_init(boxes, boxes.len() as int)) + Seq::new(
        chunk_count(mdat.len() as int) as nat,
        |k: int| chunk_view(chunk_of(mdat, k), k, sequence),
    )
}

/// The type codes that segments are made of are valid UTF-8.
proof fn lemma_type_codes_ascii()
    ensures
        vstd::utf8::valid_utf8(u32_bytes(BOX_FTYP)),
        vstd::utf8::valid_utf8(u32_bytes(BOX_MOOV)),
        vstd::utf8::valid_utf8(u32_bytes(BOX_MOOF)),
        vstd::utf8::valid_utf8(u32_bytes(BOX_MDAT)),
{
    lemma_ascii_valid_utf8(u32_bytes(BOX_FTYP));
    lemma_ascii_valid_utf8(u32_bytes(BOX_MOOV));
    lemma_ascii_valid_utf8(u32_bytes(BOX_MOOF));
    lemma_ascii_valid_utf8(u32_bytes(BOX_MDAT));
}

/// Writes segments for Media Source Extensions.
pub struct FragmentWriter {
    tracks: Vec<Mp4Track>,
    sequence_number: u32,
}

impl FragmentWriter {
    /// The tracks added.
    pub closed spec fn track_list(&self) -> Seq<Mp4Track> {
        self.tracks@
    }

    /// The fragment number written into each `moof` made.
    pub closed spec fn sequence(&self) -> u32 {
        self.sequence_number
    }

    /// A writer with no tracks, writing fragment number 1.
    pub fn new() -> (r: Self)
        ensures
            r.track_list().len() == 0,
            r.sequence() == 1,
    {
        FragmentWriter { tracks: Vec::new(), sequence_number: 1 }
    }

    /// Add a track.
    pub fn add_track(&mut self, track: Mp4Track)
        ensures
            final(self).track_list() == old(self).track_list().push(track),
            final(self).sequence() == old(self).sequence(),
    {
        self.tracks.push(track);
    }

    /// The segments of a file from its boxes: those of a fragmented file
    /// when `is_fragmented`, else those of a regular file.
    pub fn generate_mse_segments(&mut self, boxes: &[BoxInfo], is_fragmented: bool) -> (r: Result<
        Vec<MseSegment>,
        crate::media::fragment_parser::Mp4ParseError,
    >)
        requires
            is_fragmented ==> fragmented_ready(boxes@),
        ensures
            final(self).track_list() == old(self).track_list(),
            final(self).sequence() == old(self).sequence(),
            r matches Ok(v) && seg_views(v@) == if is_fragmented {
                fragmented_segments(boxes@)
            } else {
                regular_segments(boxes@, old(self).sequence())
            },
    {
        if is_fragmented {
            Ok(self.extract_fragmented_segments(boxes))
        } else {
            Ok(self.create_fragments_from_regular_mp4(boxes))
        }
    }

    /// Write a box back: its declared size cut to 32 bits, its type as text
    /// and its raw content.
    fn serialize_box(&self, box_info: &BoxInfo) -> (r: Vec<u8>)
        ensures
            r@ == u32_bytes(box_info.header.size as u32) + vstd::utf8::encode_utf8(
                utf8_lossy(box_info.header.box_type@),
            ) + raw_bytes(box_info.content),
            vstd::utf8::valid_utf8(box_info.header.box_type@) ==> r@ == written(*box_info),
    {
        let mut data: Vec<u8> = Vec::new();
        push_u32(&mut data, box_info.header.size as u32);
        let name = lossy_string(box_info.header.box_type.as_slice());
        push_all(&mut data, name.as_str().as_bytes());
        match &box_info.content {
            BoxContent::Raw(content) => {
                push_all(&mut data, content.as_slice());
            },
            _ => {},
        }
        proof {
            if vstd::utf8::valid_utf8(box_info.header.box_type@) {
                vstd::utf8::decode_utf8_encode_utf8(box_info.header.box_type@);
            }
        }
        assert(data@ =~= u32_bytes(box_info.header.size as u32) + vstd::utf8::encode_utf8(
            utf8_lossy(box_info.header.box_type@),
        ) + raw_bytes(box_info.content));
        data
    }

    /// The initialization data of a fragmented file.
    fn fragmented_init_data(&self, boxes: &[BoxInfo]) -> (r: Vec<u8>)
        ensures
            r@ == fragmented_init(boxes@, boxes@.len() as int),
    {
        let mut init_data: Vec<u8> = Vec::new();
        let mut k: usize = 0;
        while k < boxes.len()
            invariant
                k <= boxes@.len(),
                init_data@ == fragmented_init(boxes@, k as int),
            decreases boxes@.len() - k,
        {
            let b = &boxes[k];
            let ftyp = crate::bytes_be::is_fourcc(b.header.box_type.as_slice(), BOX_FTYP);
            let moov = crate::bytes_be::is_fourcc(b.header.box_type.as_slice(), BOX_MOOV);
            if ftyp || moov {
                proof {
                    lemma_type_codes_ascii();
                }
                let box_data = self.serialize_box(b);
                if box_data.len() >= 8 {
                    let serialized_size = read_u32_be(box_data.as_slice(), 0);
                    proof {
                        lemma_u32_bytes_roundtrip(b.header.size as u32);
                        assert(box_data@.subrange(0, 4) =~= u32_bytes(b.header.size as u32));
                    }
                    if serialized_size as usize == box_data.len() {
                        push_all(&mut init_data, box_data.as_slice());
                    }
                }
            }
            k = k + 1;
        }
        init_data
    }

    /// The segments of a fragmented file: the initialization segment, then
    /// one media segment per `moof` directly followed by an `mdat`.
    fn extract_fragmented_segments(&self, boxes: &[BoxInfo]) -> (r: Vec<MseSegment>)
        requires
            fragmented_ready(boxes@),
        ensures
            seg_views(r@) == fragmented_segments(boxes@),
    {
        let mut segments: Vec<MseSegment> = Vec::new();
        let init_data = self.fragmented_init_data(boxes);
        if init_data.len() > 0 {
            segments.push(
                MseSegment {
                    segment_type: String::from_str("initialization"),
                    data: init_data,
                    timestamp: None,
                    duration: None,
                    is_keyframe: true,
                    track_id: 0,
                },
            );
        }
        let ghost head = init_part(fragmented_init(boxes@, boxes@.len() as int));
        assert(seg_views(segments@) =~= head);
        let n = boxes.len();
        let mut i: usize = 0;
        let ghost mut m: int = 0;
        while i < n
            invariant
                n == boxes@.len(),
                fragmented_ready(boxes@),
                head == init_part(fragmented_init(boxes@, boxes@.len() as int)),
                i <= n,
                0 <= m <= i,
                m > 0 ==> head.len() == 1,
                segments@.len() == head.len() + m,
                head + fragmented_media(boxes@, 0, 0) == seg_views(segments@) + fragmented_media(
                    boxes@,
                    i as int,
                    m,
                ),
            decreases n - i,
        {
            let is_pair = i + 1 < n && crate::bytes_be::is_fourcc(
                boxes[i].header.box_type.as_slice(),
                BOX_MOOF,
            ) && crate::bytes_be::is_fourcc(boxes[i + 1].header.box_type.as_slice(), BOX_MDAT);
            if is_pair {
                assert(pair_at(boxes@, i as int));
                proof {
                    lemma_type_codes_ascii();
                }
                let moof_data = self.serialize_box(&boxes[i]);
                let mdat_data = self.serialize_box(&boxes[i + 1]);
                let mut media_data: Vec<u8> = Vec::new();
                push_all(&mut media_data, moof_data.as_slice());
                push_all(&mut media_data, mdat_data.as_slice());
                let segment_index = segments.len() - 1;
                let timestamp = if segment_index > 0 {
                    Some((segment_index as u64) * 1000)
                } else {
                    Some(0)
                };
                let duration = Some(1000);
                let is_keyframe = is_likely_keyframe(media_data.as_slice(), segment_index);
                let seg = MseSegment {
                    segment_type: String::from_str("media"),
                    data: media_data,
                    timestamp,
                    duration,
                    is_keyframe,
                    track_id: 1,
                };
                let ghost before = seg_views(segments@);
                proof {
                    assert(media_data@ =~= written(boxes@[i as int]) + written(boxes@[i + 1]));
                    assert(seg@ == media_view(written(boxes@[i as int]) + written(boxes@[i + 1]), m));
                }
                segments.push(seg);
                proof {
                    assert(seg_views(segments@) =~= before.push(seg@));
                    assert(before + fragmented_media(boxes@, i as int, m) =~= seg_views(segments@)
                        + fragmented_media(boxes@, i + 2, m + 1));
                    m = m + 1;
                }
                i = i + 2;
            } else {
                i = i + 1;
            }
        }
        assert(seg_views(segments@) + fragmented_media(boxes@, i as int, m) =~= seg_views(segments@));
        segments
    }

    /// The initialization data and media data of a regular file.
    fn regular_parts(&self, boxes: &[BoxInfo]) -> (r: (Vec<u8>, Vec<u8>))
        ensures
            r.0@ == regular_init(boxes@, boxes@.len() as int),
            r.1@ == regular_mdat(boxes@, boxes@.len() as int),
    {
        let mut init_data: Vec<u8> = Vec::new();
        let mut mdat_data: Vec<u8> = Vec::new();
        let mut k: usize = 0;
        while k < boxes.len()
            invariant
                k <= boxes@.len(),
                init_data@ == regular_init(boxes@, k as int),
                mdat_data@ == regular_mdat(boxes@, k as int),
            decreases boxes@.len() - k,
        {
            let b = &boxes[k];
            let t = b.header.box_type.as_slice();
            if crate::bytes_be::is_fourcc(t, BOX_FTYP) || crate::bytes_be::is_fourcc(t, BOX_MOOV) {
                proof {
                    lemma_type_codes_ascii();
                }
                let data = self.serialize_box(b);
                push_all(&mut init_data, data.as_slice());
            } else if crate::bytes_be::is_fourcc(t, BOX_MDAT) {
                match &b.content {
                    BoxContent::Raw(data) => {
                        mdat_data = crate::bytes_be::copy_range(data.as_slice(), 0, data.len());
                    },
                    _ => {},
                }
            }
            k = k + 1;
        }
        (init_data, mdat_data)
    }

    /// The segments of a regular file: its `ftyp` and `moov` as the
    /// initialization segment, then its media data in chunks.
    fn create_fragments_from_regular_mp4(&self, boxes: &[BoxInfo]) -> (r: Vec<MseSegment>)
        ensures
            seg_views(r@) == regular_segments(boxes@, self.sequence()),
    {
        let mut segments: Vec<MseSegment> = Vec::new();
        let (init_data, mdat_data) = self.regular_parts(boxes);
        if init_data.len() > 0 {
            segments.push(
                MseSegment {
                    segment_type: String::from_str("initialization"),
                    data: init_data,
                    timestamp: None,
                    duration: None,
                    is_keyframe: true,
                    track_id: 0,
                },
            );
        }
        let ghost head = seg_views(segments@);
        assert(head =~= init_part(regular_init(boxes@, boxes@.len() as int)));
        let len = mdat_data.len();
        let mut offset: usize = 0;
        let mut chunk_index: usize = 0;
        while offset < len
            invariant
                len == mdat_data@.len(),
                offset <= len,
                offset < len ==> offset == chunk_index * CHUNK_SIZE,
                offset == len ==> (len == 0 && chunk_index == 0) || (chunk_index >= 1 && (chunk_index - 1)
                    * CHUNK_SIZE < len && len <= chunk_index * CHUNK_SIZE),
                seg_views(segments@) == head + Seq::new(
                    chunk_index as nat,
                    |k: int| chunk_view(chunk_of(mdat_data@, k), k, self.sequence()),
                ),
            decreases len - offset,
        {
            let end = if len - offset > CHUNK_SIZE {
                offset + CHUNK_SIZE
            } else {
                len
            };
            let chunk = crate::bytes_be::copy_range(mdat_data.as_slice(), offset, end);
            assert(chunk@ == chunk_of(mdat_data@, chunk_index as int));
            let timestamp = Some((chunk_index as u64) * 1000);
            let is_keyframe = chunk_index == 0 || is_likely_keyframe(chunk.as_slice(), chunk_index);
            let seg = self.create_simple_media_segment_with_timing(chunk.as_slice(), timestamp, is_keyframe);
            let ghost before = seg_views(segments@);
            segments.push(seg);
            proof {
                let g = |k: int| chunk_view(chunk_of(mdat_data@, k), k, self.sequence());
                assert(seg@ == g(chunk_index as int));
                assert(seg_views(segments@) =~= before.push(seg@));
                assert(Seq::new((chunk_index + 1) as nat, g) =~= Seq::new(chunk_index as nat, g).push(
                    g(chunk_index as int),
                ));
            }
            offset = end;
            chunk_index = chunk_index + 1;
        }
        assert(chunk_index == chunk_count(len as int));
        segments
    }

    /// A media segment holding `mdat_content` behind a minimal `moof`.
    fn create_simple_media_segment_with_timing(
        &self,
        mdat_content: &[u8],
        timestamp: Option<u64>,
        is_keyframe: bool,
    ) -> (r: MseSegment)
        requires
            mdat_content@.len() <= CHUNK_SIZE,
        ensures
            r@ == (SegView {
                segment_type: "media"@,
                data: minimal_moof(self.sequence()) + box_bytes(BOX_MDAT, mdat_content@),
                timestamp,
                duration: Some(1000),
                is_keyframe,
                track_id: 1,
            }),
    {
        let mut segment_data: Vec<u8> = Vec::new();
        let moof_content = self.create_minimal_moof();
        push_all(&mut segment_data, moof_content.as_slice());
        let mdat = make_box(BOX_MDAT, mdat_content);
        push_all(&mut segment_data, mdat.as_slice());
        assert(segment_data@ =~= minimal_moof(self.sequence()) + box_bytes(BOX_MDAT, mdat_content@));
        MseSegment {
            segment_type: String::from_str("media"),
            data: segment_data,
            timestamp,
            duration: Some(1000),
            is_keyframe,
            track_id: 1,
        }
    }

    /// The minimal `moof` of this writer's fragment number.
    fn create_minimal_moof(&self) -> (r: Vec<u8>)
        ensures
            r@ == minimal_moof(self.sequence()),
    {
        let mut mfhd_content: Vec<u8> = vec![0u8, 0, 0, 0];
        push_u32(&mut mfhd_content, self.sequence_number);
        let mfhd = make_box(BOX_MFHD, mfhd_content.as_slice());
        let traf = self.create_minimal_traf();
        let mut moof_content: Vec<u8> = Vec::new();
        push_all(&mut moof_content, mfhd.as_slice());
        push_all(&mut moof_content, traf.as_slice());
        let r = make_box(BOX_MOOF, moof_content.as_slice());
        assert(mfhd_content@ =~= seq![0u8, 0, 0, 0] + u32_bytes(self.sequence()));
        r
    }

    /// The `traf` of the minimal `moof`: track 1, one sample whose data
    /// follows the `trun`.
    fn create_minimal_traf(&self) -> (r: Vec<u8>)
        ensures
            r@ == ({
                let tfhd = box_bytes(BOX_TFHD, seq![0u8, 0, 0, 0, 0, 0, 0, 1]);
                let trun = box_bytes(
                    BOX_TRUN,
                    seq![0u8, 0, 0, 1, 0, 0, 0, 1] + u32_bytes((8 + tfhd.len() + 16) as u32),
                );
                box_bytes(BOX_TRAF, tfhd + trun)
            }),
    {
        let tfhd_content: Vec<u8> = vec![0u8, 0, 0, 0, 0, 0, 0, 1];
        let tfhd = make_box(BOX_TFHD, tfhd_content.as_slice());
        let mut traf_content: Vec<u8> = Vec::new();
        push_all(&mut traf_content, tfhd.as_slice());
        let mut trun_content: Vec<u8> = vec![0u8, 0, 0, 1, 0, 0, 0, 1];
        push_u32(&mut trun_content, 8 + traf_content.len() as u32 + 16);
        let trun = make_box(BOX_TRUN, trun_content.as_slice());
        push_all(&mut traf_content, trun.as_slice());
        let r = make_box(BOX_TRAF, traf_content.as_slice());
        assert(tfhd_content@ =~= seq![0u8, 0, 0, 0, 0, 0, 0, 1]);
        r
    }
}

impl Default for FragmentWriter {
    fn default() -> (r: Self)
        ensures
            r.track_list().len() == 0,
            r.sequence() == 1,
    {
        Self::new()
    }
}

} // verus!
