//! Fragmented MP4 (`moof` + `mdat`) generation for Media Source Extensions.
use vstd::prelude::*;
use crate::bytes_be::{
    box_bytes, i32_bytes, make_box, push_all, push_i32, push_u32, push_u64, read_u32_be, u32_bytes,
    u64_bytes, BOX_MDAT, BOX_MFHD, BOX_MOOF, BOX_MOOV, BOX_MVEX, BOX_TFDT, BOX_TFHD, BOX_TRAF,
    BOX_TREX, BOX_TRUN,
};
use crate::media::mp4_parser::Mp4Error;

verus! {

/// Builds `moof` + `mdat` fragments, numbering them and carrying the decode
/// time from one fragment to the next.
pub struct FragmentedMp4Converter {
    sequence_number: u32,
    base_media_decode_time: u64,
    track_id: u32,
}

/// Frame data with the metadata that a fragment needs.
pub struct FrameData {
    /// Raw frame data (NAL units or audio samples).
    pub data: Vec<u8>,
    /// Duration in timescale units.
    pub duration: u32,
    /// Size in bytes, as written in `trun` and counted in `mdat`.
    pub size: u32,
    /// Whether this is a key frame (sync sample).
    pub is_keyframe: bool,
    /// Composition time offset for B-frames.
    pub composition_offset: i32,
}

/// A frame as values.
pub struct FrameView {
    pub data: Seq<u8>,
    pub duration: u32,
    pub size: u32,
    pub is_keyframe: bool,
    pub composition_offset: i32,
}

impl View for FrameData {
    type V = FrameView;

    open spec fn view(&self) -> FrameView {
        FrameView {
            data: self.data@,
            duration: self.duration,
            size: self.size,
            is_keyframe: self.is_keyframe,
            composition_offset: self.composition_offset,
        }
    }
}

/// The views of some frames.
pub open spec fn frame_views(frames: Seq<FrameData>) -> Seq<FrameView> {
    frames.map_values(|f: FrameData| f@)
}

/// A sample to fragment.
pub struct Sample {
    /// Raw sample payload bytes.
    pub data: Vec<u8>,
    /// Duration in timescale units.
    pub duration: u32,
    /// Size in bytes.
    pub size: u32,
    /// Whether this is a sync sample.
    pub is_keyframe: bool,
}

// ---------------------------------------------------------------------------
// The bytes of each box
// ---------------------------------------------------------------------------

/// Concatenated data of the first `k` frames.
pub open spec fn frames_data(frames: Seq<FrameView>, k: int) -> Seq<u8>
    decreases k,
{
    if k <= 0 {
        Seq::empty()
    } else {
        frames_data(frames, k - 1) + frames[k - 1].data
    }
}

/// Sum of the declared sizes of the first `k` frames.
pub open spec fn size_total(frames: Seq<FrameView>, k: int) -> int
    decreases k,
{
    if k <= 0 {
        0
    } else {
        size_total(frames, k - 1) + frames[k - 1].size
    }
}

/// Sum of the durations of the first `k` frames.
pub open spec fn duration_total(frames: Seq<FrameView>, k: int) -> int
    decreases k,
{
    if k <= 0 {
        0
    } else {
        duration_total(frames, k - 1) + frames[k - 1].duration
    }
}

/// `mfhd` carrying the sequence number.
pub open spec fn mfhd_spec(sequence_number: u32) -> Seq<u8> {
    box_bytes(BOX_MFHD, seq![0u8, 0, 0, 0] + u32_bytes(sequence_number))
}

/// `tfhd` with the default-base-is-moof flag.
pub open spec fn tfhd_spec(track_id: u32) -> Seq<u8> {
    box_bytes(BOX_TFHD, seq![0u8, 2, 0, 0] + u32_bytes(track_id))
}

/// Version-0 `tfdt`: the low 32 bits of the decode time.
pub open spec fn tfdt_v0_spec(decode_time: u64) -> Seq<u8> {
    box_bytes(BOX_TFDT, seq![0u8, 0, 0, 0] + u32_bytes((decode_time % 0x1_0000_0000) as u32))
}

/// `tfdt` in version 1 (64-bit) when the decode time does not fit in 32 bits.
pub open spec fn tfdt_auto_spec(decode_time: u64) -> Seq<u8> {
    if decode_time > u32::MAX {
        box_bytes(BOX_TFDT, seq![1u8, 0, 0, 0] + u64_bytes(decode_time))
    } else {
        tfdt_v0_spec(decode_time)
    }
}

/// Per-sample `trun` entries (duration, size) of the first `k` frames.
pub open spec fn trun_entries_v1(frames: Seq<FrameView>, k: int) -> Seq<u8>
    decreases k,
{
    if k <= 0 {
        Seq::empty()
    } else {
        trun_entries_v1(frames, k - 1) + u32_bytes(frames[k - 1].duration) + u32_bytes(
            frames[k - 1].size,
        )
    }
}

/// Sample flags: independent for key frames, dependent and non-sync otherwise.
pub open spec fn sample_flags(is_keyframe: bool) -> u32 {
    if is_keyframe {
        0x0200_0000
    } else {
        0x0101_0000
    }
}

/// Per-sample `trun` entries (duration, size, flags, composition offset).
pub open spec fn trun_entries_v2(frames: Seq<FrameView>, k: int) -> Seq<u8>
    decreases k,
{
    if k <= 0 {
        Seq::empty()
    } else {
        let f = frames[k - 1];
        trun_entries_v2(frames, k - 1) + u32_bytes(f.duration) + u32_bytes(f.size) + u32_bytes(
            sample_flags(f.is_keyframe),
        ) + i32_bytes(f.composition_offset)
    }
}

/// Offset from the start of `moof` to the `mdat` payload, first layout.
pub open spec fn data_offset_v1(n: int) -> int {
    92 + 8 * n
}

/// Offset from the start of `moof` to the `mdat` payload, second layout;
/// the `tfdt` is 4 bytes longer for 64-bit decode times.
pub open spec fn data_offset_v2(decode_time: u64, n: int) -> int {
    (if decode_time > u32::MAX {
        20int
    } else {
        16int
    }) + 76 + 16 * n
}

/// `trun` with data offset, durations and sizes.
pub open spec fn trun_v1_spec(frames: Seq<FrameView>) -> Seq<u8> {
    let n = frames.len() as int;
    box_bytes(
        BOX_TRUN,
        seq![1u8, 0, 3, 1] + u32_bytes(n as u32) + i32_bytes(data_offset_v1(n) as i32)
            + trun_entries_v1(frames, n),
    )
}

/// `trun` with data offset, durations, sizes, flags and composition offsets.
pub open spec fn trun_v2_spec(decode_time: u64, frames: Seq<FrameView>) -> Seq<u8> {
    let n = frames.len() as int;
    box_bytes(
        BOX_TRUN,
        seq![1u8, 0, 0x0f, 1] + u32_bytes(n as u32) + i32_bytes(
            data_offset_v2(decode_time, n) as i32,
        ) + trun_entries_v2(frames, n),
    )
}

/// `moof` of the first layout.
#[verifier::opaque]
pub open spec fn moof_v1_spec(sequence_number: u32, decode_time: u64, track_id: u32, frames: Seq<
    FrameView,
>) -> Seq<u8> {
    box_bytes(
        BOX_MOOF,
        mfhd_spec(sequence_number) + box_bytes(
            BOX_TRAF,
            tfhd_spec(track_id) + tfdt_v0_spec(decode_time) + trun_v1_spec(frames),
        ),
    )
}

/// `moof` of the second layout.
#[verifier::opaque]
pub open spec fn moof_v2_spec(sequence_number: u32, decode_time: u64, track_id: u32, frames: Seq<
    FrameView,
>) -> Seq<u8> {
    box_bytes(
        BOX_MOOF,
        mfhd_spec(sequence_number) + box_bytes(
            BOX_TRAF,
            tfhd_spec(track_id) + tfdt_auto_spec(decode_time) + trun_v2_spec(decode_time, frames),
        ),
    )
}

/// `mdat`: its size counts the declared frame sizes; its payload is the
/// frames' data.
#[verifier::opaque]
pub open spec fn mdat_spec(frames: Seq<FrameView>) -> Seq<u8> {
    u32_bytes((8 + size_total(frames, frames.len() as int)) as u32) + u32_bytes(BOX_MDAT)
        + frames_data(frames, frames.len() as int)
}

/// `trex` for a track, with default sample description 1.
pub open spec fn trex_spec(track_id: u32) -> Seq<u8> {
    box_bytes(
        BOX_TREX,
        seq![0u8, 0, 0, 0] + u32_bytes(track_id) + u32_bytes(1) + u32_bytes(0) + u32_bytes(0)
            + u32_bytes(0),
    )
}

/// `mvex` declaring tracks 1 and 2.
pub open spec fn mvex_spec() -> Seq<u8> {
    box_bytes(BOX_MVEX, trex_spec(1) + trex_spec(2))
}

/// Frames whose fragment fits the 32-bit sizes of the first layout.
pub open spec fn fits_v1(frames: Seq<FrameView>) -> bool {
    &&& data_offset_v1(frames.len() as int) <= u32::MAX
    &&& size_total(frames, frames.len() as int) + 8 <= u32::MAX
}

/// Frames whose fragment fits the 32-bit sizes of the second layout.
pub open spec fn fits_v2(frames: Seq<FrameView>) -> bool {
    &&& 100 + 16 * frames.len() <= u32::MAX
    &&& size_total(frames, frames.len() as int) + 8 <= u32::MAX
}

/// Every frame's declared size is the length of its data.
pub open spec fn sizes_match(frames: Seq<FrameView>) -> bool {
    forall|i: int| 0 <= i < frames.len() ==> (#[trigger] frames[i]).size == frames[i].data.len()
}

impl FragmentedMp4Converter {
    /// Sequence number of the next fragment.
    pub closed spec fn next_sequence(&self) -> u32 {
        self.sequence_number
    }

    /// Decode time of the next fragment.
    pub closed spec fn decode_time(&self) -> u64 {
        self.base_media_decode_time
    }

    /// Create a converter whose first fragment is number 1 at decode time 0.
    pub fn new() -> (r: Self)
        ensures
            r.next_sequence() == 1,
            r.decode_time() == 0,
    {
        FragmentedMp4Converter { sequence_number: 1, base_media_decode_time: 0, track_id: 1 }
    }

    /// A `moof` + `mdat` fragment of the frames; durations and sizes go in
    /// `trun`. The next fragment gets the next number and starts where this
    /// one ends.
    pub fn create_fragment(&mut self, frames: &[FrameData], track_id: u32, timescale: u32) -> (r:
        Result<Vec<u8>, Mp4Error>)
        requires
            fits_v1(frame_views(frames@)),
            old(self).next_sequence() < u32::MAX,
            old(self).decode_time() + duration_total(frame_views(frames@), frames@.len() as int) <= u64::MAX,
        ensures
            r matches Ok(bytes) && bytes@ == moof_v1_spec(
                old(self).next_sequence(),
                old(self).decode_time(),
                track_id,
                frame_views(frames@),
            ) + mdat_spec(frame_views(frames@)),
            final(self).next_sequence() == old(self).next_sequence() + 1,
            final(self).decode_time() == old(self).decode_time() + duration_total(
                frame_views(frames@),
                frames@.len() as int,
            ),
    {
        let moof = self.create_moof(frames, track_id, timescale);
        let mdat = create_mdat(frames);
        let mut fragment: Vec<u8> = Vec::new();
        push_all(&mut fragment, moof.as_slice());
        push_all(&mut fragment, mdat.as_slice());
        self.sequence_number = self.sequence_number + 1;
        let total = total_duration(frames);
        self.base_media_decode_time = self.base_media_decode_time + total;
        assert(fragment@ =~= moof@ + mdat@);
        Ok(fragment)
    }

    /// A `moof` + `mdat` fragment with sample flags and composition offsets
    /// in `trun`, and a 64-bit `tfdt` once the decode time needs it.
    pub fn create_fragment_v2(&mut self, frames: &[FrameData], track_id: u32, timescale: u32) -> (r:
        Result<Vec<u8>, Mp4Error>)
        requires
            fits_v2(frame_views(frames@)),
            old(self).next_sequence() < u32::MAX,
            old(self).decode_time() + duration_total(frame_views(frames@), frames@.len() as int) <= u64::MAX,
        ensures
            r matches Ok(bytes) && bytes@ == moof_v2_spec(
                old(self).next_sequence(),
                old(self).decode_time(),
                track_id,
                frame_views(frames@),
            ) + mdat_spec(frame_views(frames@)),
            final(self).next_sequence() == old(self).next_sequence() + 1,
            final(self).decode_time() == old(self).decode_time() + duration_total(
                frame_views(frames@),
                frames@.len() as int,
            ),
    {
        let moof = self.create_moof_v2(frames, track_id);
        let mdat = create_mdat(frames);
        let mut fragment: Vec<u8> = Vec::new();
        push_all(&mut fragment, moof.as_slice());
        push_all(&mut fragment, mdat.as_slice());
        self.sequence_number = self.sequence_number + 1;
        let total = total_duration(frames);
        self.base_media_decode_time = self.base_media_decode_time + total;
        assert(fragment@ =~= moof@ + mdat@);
        Ok(fragment)
    }

    /// `moof` of the second layout.
    fn create_moof_v2(&self, frames: &[FrameData], track_id: u32) -> (r: Vec<u8>)
        requires
            fits_v2(frame_views(frames@)),
        ensures
            r@ == moof_v2_spec(self.next_sequence(), self.decode_time(), track_id, frame_views(frames@)),
            r@.len() + 8 == data_offset_v2(self.decode_time(), frames@.len() as int),
    {
        proof {
            reveal(moof_v2_spec);
        }
        let mfhd = self.create_mfhd();
        let traf = self.create_traf_v2(frames, track_id);
        let mut content: Vec<u8> = Vec::new();
        push_all(&mut content, mfhd.as_slice());
        push_all(&mut content, traf.as_slice());
        make_box(BOX_MOOF, content.as_slice())
    }

    /// `traf` of the second layout.
    fn create_traf_v2(&self, frames: &[FrameData], track_id: u32) -> (r: Vec<u8>)
        requires
            fits_v2(frame_views(frames@)),
        ensures
            r@ == box_bytes(
                BOX_TRAF,
                tfhd_spec(track_id) + tfdt_auto_spec(self.decode_time()) + trun_v2_spec(
                    self.decode_time(),
                    frame_views(frames@),
                ),
            ),
            r@.len() + 32 == data_offset_v2(self.decode_time(), frames@.len() as int),
    {
        let tfhd = create_tfhd(track_id);
        let tfdt = self.create_tfdt_auto();
        let trun = self.create_trun_v2(frames);
        let mut content: Vec<u8> = Vec::new();
        push_all(&mut content, tfhd.as_slice());
        push_all(&mut content, tfdt.as_slice());
        push_all(&mut content, trun.as_slice());
        make_box(BOX_TRAF, content.as_slice())
    }

    /// `tfdt`, in version 1 when the decode time does not fit in 32 bits.
    fn create_tfdt_auto(&self) -> (r: Vec<u8>)
        ensures
            r@ == tfdt_auto_spec(self.decode_time()),
            r@.len() == (if self.decode_time() > u32::MAX {
                20int
            } else {
                16int
            }),
    {
        if self.base_media_decode_time > u32::MAX as u64 {
            let mut payload: Vec<u8> = Vec::new();
            payload.push(1);
            payload.push(0);
            payload.push(0);
            payload.push(0);
            push_u64(&mut payload, self.base_media_decode_time);
            assert(payload@ =~= seq![1u8, 0, 0, 0] + u64_bytes(self.decode_time()));
            make_box(BOX_TFDT, payload.as_slice())
        } else {
            self.create_tfdt()
        }
    }

    /// `trun` of the second layout.
    fn create_trun_v2(&self, frames: &[FrameData]) -> (r: Vec<u8>)
        requires
            fits_v2(frame_views(frames@)),
        ensures
            r@ == trun_v2_spec(self.decode_time(), frame_views(frames@)),
            r@.len() == 20 + 16 * frames@.len(),
    {
        let n = frames.len();
        let mut content: Vec<u8> = Vec::new();
        content.push(1);
        content.push(0);
        content.push(0x0f);
        content.push(1);
        push_u32(&mut content, n as u32);
        let data_offset = self.calculate_moof_size_v2(frames) + 8;
        push_i32(&mut content, data_offset as i32);
        let ghost head = content@;
        let mut i: usize = 0;
        while i < n
            invariant
                n == frames@.len(),
                i <= n,
                content@ == head + trun_entries_v2(frame_views(frames@), i as int),
                head.len() == 12,
            decreases n - i,
        {
            let frame = &frames[i];
            push_u32(&mut content, frame.duration);
            push_u32(&mut content, frame.size);
            let flags: u32 = if frame.is_keyframe {
                0x0200_0000
            } else {
                0x0101_0000
            };
            push_u32(&mut content, flags);
            push_i32(&mut content, frame.composition_offset);
            i = i + 1;
            assert(content@ =~= head + trun_entries_v2(frame_views(frames@), i as int));
        }
        proof {
            lemma_trun_entries_v2_len(frame_views(frames@), n as int);
            assert(head =~= seq![1u8, 0, 0x0f, 1] + u32_bytes(n as u32) + i32_bytes(
                data_offset_v2(self.decode_time(), n as int) as i32,
            ));
        }
        make_box(BOX_TRUN, content.as_slice())
    }

    /// Length of `moof` in the second layout.
    fn calculate_moof_size_v2(&self, frames: &[FrameData]) -> (r: u32)
        requires
            100 + 16 * frames@.len() <= u32::MAX,
        ensures
            r + 8 == data_offset_v2(self.decode_time(), frames@.len() as int),
    {
        let tfdt_size: u32 = if self.base_media_decode_time > u32::MAX as u64 {
            20
        } else {
            16
        };
        8 + 16 + 8 + 16 + tfdt_size + 8 + 12 + (frames.len() as u32 * 16)
    }

    /// `moof` of the first layout.
    fn create_moof(&self, frames: &[FrameData], track_id: u32, timescale: u32) -> (r: Vec<u8>)
        requires
            fits_v1(frame_views(frames@)),
        ensures
            r@ == moof_v1_spec(self.next_sequence(), self.decode_time(), track_id, frame_views(frames@)),
            r@.len() + 8 == data_offset_v1(frames@.len() as int),
    {
        proof {
            reveal(moof_v1_spec);
        }
        let mfhd = self.create_mfhd();
        let traf = self.create_traf(frames, track_id, timescale);
        let mut content: Vec<u8> = Vec::new();
        push_all(&mut content, mfhd.as_slice());
        push_all(&mut content, traf.as_slice());
        make_box(BOX_MOOF, content.as_slice())
    }

    /// `mfhd` with this fragment's sequence number.
    pub fn create_mfhd(&self) -> (r: Vec<u8>)
        ensures
            r@ == mfhd_spec(self.next_sequence()),
            r@.len() == 16,
    {
        let mut payload: Vec<u8> = Vec::new();
        payload.push(0);
        payload.push(0);
        payload.push(0);
        payload.push(0);
        push_u32(&mut payload, self.sequence_number);
        assert(payload@ =~= seq![0u8, 0, 0, 0] + u32_bytes(self.next_sequence()));
        make_box(BOX_MFHD, payload.as_slice())
    }

    /// `traf` of the first layout.
    fn create_traf(&self, frames: &[FrameData], track_id: u32, _timescale: u32) -> (r: Vec<u8>)
        requires
            fits_v1(frame_views(frames@)),
        ensures
            r@ == box_bytes(
                BOX_TRAF,
                tfhd_spec(track_id) + tfdt_v0_spec(self.decode_time()) + trun_v1_spec(frame_views(frames@)),
            ),
            r@.len() + 32 == data_offset_v1(frames@.len() as int),
    {
        let tfhd = create_tfhd(track_id);
        let tfdt = self.create_tfdt();
        let trun = self.create_trun(frames);
        let mut content: Vec<u8> = Vec::new();
        push_all(&mut content, tfhd.as_slice());
        push_all(&mut content, tfdt.as_slice());
        push_all(&mut content, trun.as_slice());
        make_box(BOX_TRAF, content.as_slice())
    }

    /// Version-0 `tfdt` with the low 32 bits of the decode time.
    fn create_tfdt(&self) -> (r: Vec<u8>)
        ensures
            r@ == tfdt_v0_spec(self.decode_time()),
            r@.len() == 16,
    {
        let mut payload: Vec<u8> = Vec::new();
        payload.push(0);
        payload.push(0);
        payload.push(0);
        payload.push(0);
        let low = (self.base_media_decode_time % 0x1_0000_0000) as u32;
        push_u32(&mut payload, low);
        assert(payload@ =~= seq![0u8, 0, 0, 0] + u32_bytes(
            (self.decode_time() % 0x1_0000_0000) as u32,
        ));
        make_box(BOX_TFDT, payload.as_slice())
    }

    /// `trun` of the first layout.
    fn create_trun(&self, frames: &[FrameData]) -> (r: Vec<u8>)
        requires
            fits_v1(frame_views(frames@)),
        ensures
            r@ == trun_v1_spec(frame_views(frames@)),
            r@.len() == 20 + 8 * frames@.len(),
    {
        let n = frames.len();
        let mut content: Vec<u8> = Vec::new();
        content.push(1);
        content.push(0);
        content.push(3);
        content.push(1);
        push_u32(&mut content, n as u32);
        let data_offset = self.calculate_moof_size(frames) + 8;
        push_i32(&mut content, data_offset as i32);
        let ghost head = content@;
        let mut i: usize = 0;
        while i < n
            invariant
                n == frames@.len(),
                i <= n,
                content@ == head + trun_entries_v1(frame_views(frames@), i as int),
                head.len() == 12,
            decreases n - i,
        {
            let frame = &frames[i];
            push_u32(&mut content, frame.duration);
            push_u32(&mut content, frame.size);
            i = i + 1;
            assert(content@ =~= head + trun_entries_v1(frame_views(frames@), i as int));
        }
        proof {
            lemma_trun_entries_v1_len(frame_views(frames@), n as int);
            assert(head =~= seq![1u8, 0, 3, 1] + u32_bytes(n as u32) + i32_bytes(
                data_offset_v1(n as int) as i32,
            ));
        }
        make_box(BOX_TRUN, content.as_slice())
    }

    /// Length of `moof` in the first layout.
    fn calculate_moof_size(&self, frames: &[FrameData]) -> (r: u32)
        requires
            data_offset_v1(frames@.len() as int) <= u32::MAX,
        ensures
            r + 8 == data_offset_v1(frames@.len() as int),
    {
        8 + 16 + 8 + 16 + 16 + 8 + 12 + (frames.len() as u32 * 8)
    }

    /// An initialization segment: `ftyp` then `moov`, with an `mvex` appended
    /// to `moov` when `needs_mvex` is set. Fails only when `mvex` is needed
    /// and `moov_data` does not start with a `moov` header.
    pub fn create_init_segment(&self, ftyp_data: &[u8], moov_data: &[u8], needs_mvex: bool) -> (r:
        Result<Vec<u8>, Mp4Error>)
        requires
            needs_mvex && moov_data@.len() >= 8 && crate::bytes_be::be_u32_at(moov_data@, 4) == BOX_MOOV
                ==> crate::bytes_be::be_u32_at(moov_data@, 0) + 72 <= u32::MAX,
        ensures
            match r {
                Ok(v) => v@ == ftyp_data@ + (if needs_mvex {
                    add_mvex_spec(moov_data@).unwrap()
                } else {
                    moov_data@
                }),
                Err(e) => e == Mp4Error::InvalidData && needs_mvex && add_mvex_spec(moov_data@) is None,
            },
            needs_mvex && add_mvex_spec(moov_data@) is None ==> r is Err,
    {
        let mut init: Vec<u8> = Vec::new();
        push_all(&mut init, ftyp_data);
        if needs_mvex {
            match self.add_mvex_to_moov(moov_data) {
                Ok(moov) => {
                    push_all(&mut init, moov.as_slice());
                },
                Err(e) => {
                    return Err(e);
                },
            }
        } else {
            push_all(&mut init, moov_data);
        }
        Ok(init)
    }

    /// `moov` with an `mvex` for tracks 1 and 2 appended and its size grown
    /// to match.
    fn add_mvex_to_moov(&self, moov_data: &[u8]) -> (r: Result<Vec<u8>, Mp4Error>)
        requires
            moov_data@.len() >= 8 && crate::bytes_be::be_u32_at(moov_data@, 4) == BOX_MOOV
                ==> crate::bytes_be::be_u32_at(moov_data@, 0) + 72 <= u32::MAX,
        ensures
            match r {
                Ok(v) => add_mvex_spec(moov_data@) == Some(v@),
                Err(e) => e == Mp4Error::InvalidData && add_mvex_spec(moov_data@) is None,
            },
    {
        if moov_data.len() < 8 {
            return Err(Mp4Error::InvalidData);
        }
        let moov_size = read_u32_be(moov_data, 0);
        if read_u32_be(moov_data, 4) != BOX_MOOV {
            return Err(Mp4Error::InvalidData);
        }
        let mvex = create_mvex();
        let new_size = moov_size + mvex.len() as u32;
        let mut new_moov: Vec<u8> = Vec::new();
        push_u32(&mut new_moov, new_size);
        push_u32(&mut new_moov, BOX_MOOV);
        crate::bytes_be::push_range(&mut new_moov, moov_data, 8, moov_data.len());
        push_all(&mut new_moov, mvex.as_slice());
        Ok(new_moov)
    }
}

/// What adding `mvex` does to a `moov` box: nothing unless the bytes start
/// with a `moov` header; else the header with the size grown by the `mvex`
/// length, the payload as it was, then the `mvex`.
pub open spec fn add_mvex_spec(moov: Seq<u8>) -> Option<Seq<u8>> {
    if moov.len() < 8 || crate::bytes_be::be_u32_at(moov, 4) != BOX_MOOV {
        None
    } else {
        Some(u32_bytes((crate::bytes_be::be_u32_at(moov, 0) + mvex_spec().len()) as u32)
            + u32_bytes(BOX_MOOV) + moov.subrange(8, moov.len() as int) + mvex_spec())
    }
}

/// `tfhd` with the default-base-is-moof flag.
fn create_tfhd(track_id: u32) -> (r: Vec<u8>)
    ensures
        r@ == tfhd_spec(track_id),
        r@.len() == 16,
{
    let mut payload: Vec<u8> = Vec::new();
    payload.push(0);
    payload.push(2);
    payload.push(0);
    payload.push(0);
    push_u32(&mut payload, track_id);
    assert(payload@ =~= seq![0u8, 2, 0, 0] + u32_bytes(track_id));
    make_box(BOX_TFHD, payload.as_slice())
}

/// `mdat` holding the frames' data, sized by their declared sizes.
fn create_mdat(frames: &[FrameData]) -> (r: Vec<u8>)
    requires
        size_total(frame_views(frames@), frames@.len() as int) + 8 <= u32::MAX,
    ensures
        r@ == mdat_spec(frame_views(frames@)),
{
    proof {
        reveal(mdat_spec);
    }
    let n = frames.len();
    let mut data_size: u32 = 0;
    let mut i: usize = 0;
    while i < n
        invariant
            n == frames@.len(),
            i <= n,
            data_size == size_total(frame_views(frames@), i as int),
            size_total(frame_views(frames@), n as int) + 8 <= u32::MAX,
        decreases n - i,
    {
        proof {
            lemma_size_total_monotone(frame_views(frames@), i as int + 1, n as int);
        }
        data_size = data_size + frames[i].size;
        i = i + 1;
    }
    let mut mdat: Vec<u8> = Vec::new();
    push_u32(&mut mdat, 8 + data_size);
    push_u32(&mut mdat, BOX_MDAT);
    let ghost head = mdat@;
    let mut i: usize = 0;
    while i < n
        invariant
            n == frames@.len(),
            i <= n,
            mdat@ == head + frames_data(frame_views(frames@), i as int),
        decreases n - i,
    {
        push_all(&mut mdat, frames[i].data.as_slice());
        i = i + 1;
        assert(mdat@ =~= head + frames_data(frame_views(frames@), i as int));
    }
    mdat
}

/// Total duration of the frames.
pub(crate) fn total_duration(frames: &[FrameData]) -> (r: u64)
    requires
        duration_total(frame_views(frames@), frames@.len() as int) <= u64::MAX,
    ensures
        r == duration_total(frame_views(frames@), frames@.len() as int),
{
    let n = frames.len();
    let mut total: u64 = 0;
    let mut i: usize = 0;
    while i < n
        invariant
            n == frames@.len(),
            i <= n,
            total == duration_total(frame_views(frames@), i as int),
            duration_total(frame_views(frames@), n as int) <= u64::MAX,
        decreases n - i,
    {
        proof {
            lemma_duration_total_monotone(frame_views(frames@), i as int + 1, n as int);
        }
        total = total + frames[i].duration as u64;
        i = i + 1;
    }
    total
}

/// `mvex` for tracks 1 and 2.
fn create_mvex() -> (r: Vec<u8>)
    ensures
        r@ == mvex_spec(),
        r@.len() == 72,
{
    let trex1 = create_trex(1);
    let trex2 = create_trex(2);
    let mut content: Vec<u8> = Vec::new();
    push_all(&mut content, trex1.as_slice());
    push_all(&mut content, trex2.as_slice());
    make_box(BOX_MVEX, content.as_slice())
}

/// `trex` for a track.
fn create_trex(track_id: u32) -> (r: Vec<u8>)
    ensures
        r@ == trex_spec(track_id),
        r@.len() == 32,
{
    let mut payload: Vec<u8> = Vec::new();
    payload.push(0);
    payload.push(0);
    payload.push(0);
    payload.push(0);
    push_u32(&mut payload, track_id);
    push_u32(&mut payload, 1);
    push_u32(&mut payload, 0);
    push_u32(&mut payload, 0);
    push_u32(&mut payload, 0);
    assert(payload@ =~= seq![0u8, 0, 0, 0] + u32_bytes(track_id) + u32_bytes(1) + u32_bytes(0)
        + u32_bytes(0) + u32_bytes(0));
    make_box(BOX_TREX, payload.as_slice())
}

/// With matching sizes, the frames' data is as long as their declared sizes.
pub proof fn lemma_frames_data_len(frames: Seq<FrameView>, k: int)
    requires
        sizes_match(frames),
        0 <= k <= frames.len(),
    ensures
        frames_data(frames, k).len() == size_total(frames, k),
    decreases k,
{
    if k > 0 {
        lemma_frames_data_len(frames, k - 1);
        assert(frames[k - 1].size == frames[k - 1].data.len());
    }
}

/// In a fragment of the first layout, `moof` declares its own length, the
/// data offset in `trun` (counted from the start of `moof`) is where the
/// frames' data begins, and with matching sizes `mdat` declares its own
/// length.
#[verifier::rlimit(40)]
pub proof fn lemma_fragment_v1_layout(sequence_number: u32, decode_time: u64, track_id: u32, frames: Seq<
    FrameView,
>)
    requires
        fits_v1(frames),
    ensures
        ({
            let moof = moof_v1_spec(sequence_number, decode_time, track_id, frames);
            let frag = moof + mdat_spec(frames);
            let n = frames.len() as int;
            &&& moof.len() + 8 == data_offset_v1(n)
            &&& crate::bytes_be::be_u32_at(frag, 0) == moof.len()
            &&& frag.subrange(data_offset_v1(n), frag.len() as int) == frames_data(frames, n)
            &&& sizes_match(frames) ==> crate::bytes_be::be_u32_at(frag, moof.len() as int)
                == mdat_spec(frames).len()
        }),
{
    reveal(moof_v1_spec);
    reveal(mdat_spec);
    let n = frames.len() as int;
    lemma_trun_entries_v1_len(frames, n);
    let moof = moof_v1_spec(sequence_number, decode_time, track_id, frames);
    let mdat = mdat_spec(frames);
    let frag = moof + mdat;
    assert(moof.len() == 84 + 8 * n);
    crate::bytes_be::lemma_u32_bytes_roundtrip((84 + 8 * n) as u32);
    assert(frag.subrange(0, 4) =~= moof.subrange(0, 4));
    assert(crate::bytes_be::be_u32_at(frag, 0) == crate::bytes_be::be_u32_at(moof, 0));
    assert(moof.subrange(0, 4) =~= u32_bytes((84 + 8 * n) as u32));
    assert(crate::bytes_be::be_u32_at(moof, 0) == crate::bytes_be::be_u32_at(moof.subrange(0, 4), 0));
    assert(frag.subrange(data_offset_v1(n), frag.len() as int) =~= frames_data(frames, n));
    if sizes_match(frames) {
        lemma_frames_data_len(frames, n);
        let total = (8 + size_total(frames, n)) as u32;
        crate::bytes_be::lemma_u32_bytes_roundtrip(total);
        assert(frag.subrange(moof.len() as int, moof.len() as int + 4) =~= u32_bytes(total));
        assert(crate::bytes_be::be_u32_at(frag, moof.len() as int) == crate::bytes_be::be_u32_at(
            frag.subrange(moof.len() as int, moof.len() as int + 4),
            0,
        ));
    }
}

/// In a fragment of the first layout, the `mfhd` sequence number is read at
/// byte 20 and the `tfdt` decode time (its low 32 bits) at byte 60.
pub proof fn lemma_fragment_v1_fields(sequence_number: u32, decode_time: u64, track_id: u32, frames: Seq<
    FrameView,
>)
    ensures
        ({
            let frag = moof_v1_spec(sequence_number, decode_time, track_id, frames) + mdat_spec(frames);
            &&& crate::bytes_be::be_u32_at(frag, 20) == sequence_number
            &&& crate::bytes_be::be_u32_at(frag, 60) == decode_time % 0x1_0000_0000
        }),
{
    reveal(moof_v1_spec);
    let moof = moof_v1_spec(sequence_number, decode_time, track_id, frames);
    let frag = moof + mdat_spec(frames);
    let t = (decode_time % 0x1_0000_0000) as u32;
    crate::bytes_be::lemma_u32_bytes_roundtrip(sequence_number);
    crate::bytes_be::lemma_u32_bytes_roundtrip(t);
    assert(frag.subrange(20, 24) =~= u32_bytes(sequence_number));
    assert(frag.subrange(60, 64) =~= u32_bytes(t));
    assert(crate::bytes_be::be_u32_at(frag, 20) == crate::bytes_be::be_u32_at(frag.subrange(20, 24), 0));
    assert(crate::bytes_be::be_u32_at(frag, 60) == crate::bytes_be::be_u32_at(frag.subrange(60, 64), 0));
}

/// Two fragments made one after the other by the same converter (the
/// second from the state the first leaves) carry consecutive sequence
/// numbers, and the second's decode time is the first's plus the durations
/// of the first's frames (modulo 2^32, as version-0 `tfdt` holds 32 bits).
pub proof fn lemma_fragment_continuity(
    sequence_number: u32,
    decode_time: u64,
    track_id: u32,
    first: Seq<FrameView>,
    second: Seq<FrameView>,
)
    requires
        sequence_number < u32::MAX,
        decode_time + duration_total(first, first.len() as int) <= u64::MAX,
    ensures
        ({
            let f1 = moof_v1_spec(sequence_number, decode_time, track_id, first) + mdat_spec(first);
            let next_time = (decode_time + duration_total(first, first.len() as int)) as u64;
            let f2 = moof_v1_spec((sequence_number + 1) as u32, next_time, track_id, second) + mdat_spec(second);
            &&& crate::bytes_be::be_u32_at(f2, 20) == crate::bytes_be::be_u32_at(f1, 20) + 1
            &&& crate::bytes_be::be_u32_at(f2, 60) == (crate::bytes_be::be_u32_at(f1, 60) + duration_total(
                first,
                first.len() as int,
            )) % 0x1_0000_0000
        }),
{
    let next_time = (decode_time + duration_total(first, first.len() as int)) as u64;
    lemma_fragment_v1_fields(sequence_number, decode_time, track_id, first);
    lemma_fragment_v1_fields((sequence_number + 1) as u32, next_time, track_id, second);
    lemma_duration_total_nonneg(first, first.len() as int);
    vstd::arithmetic::div_mod::lemma_add_mod_noop(
        decode_time as int,
        duration_total(first, first.len() as int),
        0x1_0000_0000,
    );
    vstd::arithmetic::div_mod::lemma_mod_twice(
        duration_total(first, first.len() as int),
        0x1_0000_0000,
    );
    vstd::arithmetic::div_mod::lemma_mod_twice(decode_time as int, 0x1_0000_0000);
    vstd::arithmetic::div_mod::lemma_add_mod_noop(
        (decode_time as int) % 0x1_0000_0000,
        duration_total(first, first.len() as int),
        0x1_0000_0000,
    );
}

/// Durations add up to no less than zero.
pub proof fn lemma_duration_total_nonneg(frames: Seq<FrameView>, k: int)
    ensures
        duration_total(frames, k) >= 0,
    decreases k,
{
    if k > 0 {
        lemma_duration_total_nonneg(frames, k - 1);
    }
}

/// Entry `i` of the `trun` entries of the first layout's second form lies at
/// bytes `16 * i` on, and its sample flags at `16 * i + 8`.
proof fn lemma_trun_entries_v2_at(frames: Seq<FrameView>, k: int, i: int)
    requires
        0 <= i < k <= frames.len(),
    ensures
        trun_entries_v2(frames, k).len() == 16 * k,
        trun_entries_v2(frames, k).subrange(16 * i + 8, 16 * i + 12) == u32_bytes(
            sample_flags(frames[i].is_keyframe),
        ),
    decreases k,
{
    lemma_trun_entries_v2_len(frames, k - 1);
    if i < k - 1 {
        lemma_trun_entries_v2_at(frames, k - 1, i);
        assert(trun_entries_v2(frames, k).subrange(16 * i + 8, 16 * i + 12) =~= trun_entries_v2(
            frames,
            k - 1,
        ).subrange(16 * i + 8, 16 * i + 12));
    } else {
        let f = frames[k - 1];
        assert(trun_entries_v2(frames, k).subrange(16 * i + 8, 16 * i + 12) =~= u32_bytes(
            sample_flags(f.is_keyframe),
        ));
    }
}

/// In a fragment of the second layout, the sample flags of each frame's
/// `trun` entry are `02 00 00 00` (depends on no other sample, a sync
/// sample) for a key frame and `01 01 00 00` (depends on others, not a
/// sync sample) for any other frame. The entries are the last bytes of
/// `moof`, sixteen per frame, the flags eight bytes into each.
pub proof fn lemma_fragment_v2_sample_flags(
    sequence_number: u32,
    decode_time: u64,
    track_id: u32,
    frames: Seq<FrameView>,
    i: int,
)
    requires
        0 <= i < frames.len(),
    ensures
        ({
            let moof = moof_v2_spec(sequence_number, decode_time, track_id, frames);
            let frag = moof + mdat_spec(frames);
            let at = moof.len() - 16 * (frames.len() - i) + 8;
            &&& 0 <= at
            &&& at + 4 <= moof.len()
            &&& frag.subrange(at, at + 4) == if frames[i].is_keyframe {
                seq![2u8, 0, 0, 0]
            } else {
                seq![1u8, 1, 0, 0]
            }
        }),
{
    let n = frames.len() as int;
    let moof = moof_v2_spec(sequence_number, decode_time, track_id, frames);
    let frag = moof + mdat_spec(frames);
    let entries = trun_entries_v2(frames, n);
    lemma_moof_v2_ends_with_entries(sequence_number, decode_time, track_id, frames);
    lemma_trun_entries_v2_at(frames, n, i);
    let at = moof.len() - 16 * (n - i) + 8;
    assert(frag.subrange(at, at + 4) =~= moof.subrange(at, at + 4));
    assert(moof.subrange(at, at + 4) =~= entries.subrange(16 * i + 8, 16 * i + 12));
    lemma_flag_bytes();
}

proof fn lemma_flag_bytes()
    ensures
        u32_bytes(sample_flags(true)) == seq![2u8, 0, 0, 0],
        u32_bytes(sample_flags(false)) == seq![1u8, 1, 0, 0],
{
    assert(u32_bytes(0x0200_0000) =~= seq![2u8, 0, 0, 0]);
    assert(u32_bytes(0x0101_0000) =~= seq![1u8, 1, 0, 0]);
}

/// A `moof` of the second layout ends with its `trun` entries.
proof fn lemma_moof_v2_ends_with_entries(sequence_number: u32, decode_time: u64, track_id: u32, frames: Seq<
    FrameView,
>)
    ensures
        ({
            let moof = moof_v2_spec(sequence_number, decode_time, track_id, frames);
            let e = trun_entries_v2(frames, frames.len() as int);
            &&& moof.len() >= e.len()
            &&& moof.subrange(moof.len() - e.len(), moof.len() as int) == e
        }),
{
    reveal(moof_v2_spec);
    let n = frames.len() as int;
    let e = trun_entries_v2(frames, n);
    let head = seq![1u8, 0, 0x0f, 1] + u32_bytes(n as u32) + i32_bytes(data_offset_v2(decode_time, n) as i32);
    let trun = box_bytes(BOX_TRUN, head + e);
    let trun_pre = u32_bytes((8 + (head + e).len()) as u32) + u32_bytes(BOX_TRUN) + head;
    assert(trun =~= trun_pre + e);
    let q = tfhd_spec(track_id) + tfdt_auto_spec(decode_time) + trun;
    let q_pre = tfhd_spec(track_id) + tfdt_auto_spec(decode_time) + trun_pre;
    assert(q =~= q_pre + e);
    let traf = box_bytes(BOX_TRAF, q);
    let traf_pre = u32_bytes((8 + q.len()) as u32) + u32_bytes(BOX_TRAF) + q_pre;
    assert(traf =~= traf_pre + e);
    let p = mfhd_spec(sequence_number) + traf;
    let p_pre = mfhd_spec(sequence_number) + traf_pre;
    assert(p =~= p_pre + e);
    let moof = box_bytes(BOX_MOOF, p);
    let moof_pre = u32_bytes((8 + p.len()) as u32) + u32_bytes(BOX_MOOF) + p_pre;
    assert(moof =~= moof_pre + e);
    assert(moof.subrange(moof.len() - e.len(), moof.len() as int) =~= e);
}

/// In a fragment of the second layout, `moof` declares its own length and
/// the data offset in `trun` is where the frames' data begins, whatever the
/// `tfdt` version.
#[verifier::rlimit(40)]
pub proof fn lemma_fragment_v2_layout(sequence_number: u32, decode_time: u64, track_id: u32, frames: Seq<
    FrameView,
>)
    requires
        fits_v2(frames),
    ensures
        ({
            let moof = moof_v2_spec(sequence_number, decode_time, track_id, frames);
            let frag = moof + mdat_spec(frames);
            let n = frames.len() as int;
            &&& moof.len() + 8 == data_offset_v2(decode_time, n)
            &&& crate::bytes_be::be_u32_at(frag, 0) == moof.len()
            &&& frag.subrange(data_offset_v2(decode_time, n), frag.len() as int) == frames_data(
                frames,
                n,
            )
            &&& sizes_match(frames) ==> crate::bytes_be::be_u32_at(frag, moof.len() as int)
                == mdat_spec(frames).len()
        }),
{
    reveal(moof_v2_spec);
    reveal(mdat_spec);
    let n = frames.len() as int;
    lemma_trun_entries_v2_len(frames, n);
    let moof = moof_v2_spec(sequence_number, decode_time, track_id, frames);
    let mdat = mdat_spec(frames);
    let frag = moof + mdat;
    let ml = data_offset_v2(decode_time, n) - 8;
    assert(moof.len() == ml);
    crate::bytes_be::lemma_u32_bytes_roundtrip(ml as u32);
    assert(frag.subrange(0, 4) =~= moof.subrange(0, 4));
    assert(moof.subrange(0, 4) =~= u32_bytes(ml as u32));
    assert(crate::bytes_be::be_u32_at(frag, 0) == crate::bytes_be::be_u32_at(frag.subrange(0, 4), 0));
    assert(frag.subrange(data_offset_v2(decode_time, n), frag.len() as int) =~= frames_data(
        frames,
        n,
    ));
    if sizes_match(frames) {
        lemma_frames_data_len(frames, n);
        let total = (8 + size_total(frames, n)) as u32;
        crate::bytes_be::lemma_u32_bytes_roundtrip(total);
        assert(frag.subrange(moof.len() as int, moof.len() as int + 4) =~= u32_bytes(total));
        assert(crate::bytes_be::be_u32_at(frag, moof.len() as int) == crate::bytes_be::be_u32_at(
            frag.subrange(moof.len() as int, moof.len() as int + 4),
            0,
        ));
    }
}

proof fn lemma_size_total_monotone(frames: Seq<FrameView>, i: int, n: int)
    requires
        0 <= i <= n,
    ensures
        size_total(frames, i) <= size_total(frames, n),
    decreases n - i,
{
    if i < n {
        lemma_size_total_monotone(frames, i, n - 1);
    }
}

proof fn lemma_duration_total_monotone(frames: Seq<FrameView>, i: int, n: int)
    requires
        0 <= i <= n,
    ensures
        duration_total(frames, i) <= duration_total(frames, n),
    decreases n - i,
{
    if i < n {
        lemma_duration_total_monotone(frames, i, n - 1);
    }
}

proof fn lemma_trun_entries_v1_len(frames: Seq<FrameView>, k: int)
    requires
        k >= 0,
    ensures
        trun_entries_v1(frames, k).len() == 8 * k,
    decreases k,
{
    if k > 0 {
        lemma_trun_entries_v1_len(frames, k - 1);
    }
}

proof fn lemma_trun_entries_v2_len(frames: Seq<FrameView>, k: int)
    requires
        k >= 0,
    ensures
        trun_entries_v2(frames, k).len() == 16 * k,
    decreases k,
{
    if k > 0 {
        lemma_trun_entries_v2_len(frames, k - 1);
    }
}

impl FrameData {
    /// Frame data whose size is the length of `data` (its low 32 bits).
    pub fn new(data: Vec<u8>, duration: u32, is_keyframe: bool, composition_offset: i32) -> (r: Self)
        ensures
            r.data@ == data@,
            r.duration == duration,
            r.size == data@.len() as u32,
            r.is_keyframe == is_keyframe,
            r.composition_offset == composition_offset,
    {
        let size = data.len() as u32;
        FrameData { data, duration, size, is_keyframe, composition_offset }
    }
}

impl From<Sample> for FrameData {
    fn from(sample: Sample) -> (r: FrameData) {
        FrameData {
            size: sample.size,
            duration: sample.duration,
            is_keyframe: sample.is_keyframe,
            data: sample.data,
            composition_offset: 0,
        }
    }
}

impl vstd::std_specs::convert::FromSpecImpl<Sample> for FrameData {
    open spec fn obeys_from_spec() -> bool {
        true
    }

    open spec fn from_spec(sample: Sample) -> FrameData {
        FrameData {
            size: sample.size,
            duration: sample.duration,
            is_keyframe: sample.is_keyframe,
            data: sample.data,
            composition_offset: 0,
        }
    }
}

impl Sample {
    /// A sample whose size is the length of `data` (its low 32 bits).
    pub fn new(data: Vec<u8>, duration: u32, is_keyframe: bool) -> (r: Self)
        ensures
            r.data@ == data@,
            r.duration == duration,
            r.size == data@.len() as u32,
            r.is_keyframe == is_keyframe,
    {
        let size = data.len() as u32;
        Sample { data, duration, size, is_keyframe }
    }
}

} // verus!
