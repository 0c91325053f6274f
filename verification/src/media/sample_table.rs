//! The sample tables of an MP4 track (`stsz`, `stts`, `stsc`, `stco`,
//! `co64`, `stss`, `ctts`) and their resolution into per-sample entries.
use vstd::prelude::*;
use crate::bytes_be::{be_u32_at, be_u64_at, read_u32_be, read_u64_be};
use crate::media::mp4_parser::{Mp4Parser, TableView};

verus! {

/// Sample table data parsed from the sub-boxes of `stbl`.
#[derive(Debug, Clone)]
pub struct SampleTable {
    /// Per-sample sizes from `stsz`.
    pub sample_sizes: Vec<u32>,
    /// Run-length encoded durations from `stts`: (count, delta).
    pub time_to_sample: Vec<(u32, u32)>,
    /// Sample-to-chunk runs from `stsc`: (first_chunk, samples_per_chunk, desc_idx).
    pub sample_to_chunk: Vec<(u32, u32, u32)>,
    /// Chunk byte offsets from `stco` or `co64`.
    pub chunk_offsets: Vec<u64>,
    /// Sync sample numbers from `stss` (1-based).
    pub sync_samples: Vec<u32>,
    /// Composition time offsets from `ctts`: (count, offset).
    pub composition_offsets: Vec<(u32, i32)>,
}

impl SampleTable {
    /// No table holds any entry.
    pub open spec fn is_empty_table(&self) -> bool {
        &&& self.sample_sizes@.len() == 0
        &&& self.time_to_sample@.len() == 0
        &&& self.sample_to_chunk@.len() == 0
        &&& self.chunk_offsets@.len() == 0
        &&& self.sync_samples@.len() == 0
        &&& self.composition_offsets@.len() == 0
    }
}

impl Default for SampleTable {
    fn default() -> (r: SampleTable)
        ensures
            r.is_empty_table(),
    {
        SampleTable {
            sample_sizes: Vec::new(),
            time_to_sample: Vec::new(),
            sample_to_chunk: Vec::new(),
            chunk_offsets: Vec::new(),
            sync_samples: Vec::new(),
            composition_offsets: Vec::new(),
        }
    }
}

/// A resolved sample with its absolute offset and timing.
#[derive(Debug, Clone, Copy)]
pub struct SampleEntry {
    /// Absolute byte offset in the file.
    pub offset: u64,
    /// Size of the sample in bytes.
    pub size: u32,
    /// Duration in timescale units.
    pub duration: u32,
    /// Whether this is a sync (key) frame.
    pub is_keyframe: bool,
    /// Composition time offset (for B-frames).
    pub composition_offset: i32,
}

// ---------------------------------------------------------------------------
// Box payload decoding
// ---------------------------------------------------------------------------

/// Number of fixed-size entries read from a table box payload: the declared
/// count (the big-endian `u32` just before the entries), cut short where the
/// payload ends. Payloads shorter than the header give no entries.
pub open spec fn table_len(data: Seq<u8>, hdr: int, stride: int) -> int {
    if data.len() < hdr {
        0
    } else {
        let count = be_u32_at(data, hdr - 4) as int;
        let avail = (data.len() - hdr) / stride;
        if count < avail {
            count
        } else {
            avail
        }
    }
}

/// The `i`-th 32-bit entry of a table whose entries start at `hdr`.
pub open spec fn u32_entry(data: Seq<u8>, hdr: int, stride: int, i: int, field: int) -> u32 {
    be_u32_at(data, hdr + stride * i + field)
}

/// Sample sizes of an `stsz` payload: the default size repeated `count`
/// times when it is not zero, else the listed sizes.
pub open spec fn stsz_spec(data: Seq<u8>) -> Seq<u32> {
    if data.len() < 12 {
        Seq::empty()
    } else if be_u32_at(data, 4) != 0 {
        Seq::new(be_u32_at(data, 8) as nat, |i: int| be_u32_at(data, 4))
    } else {
        Seq::new(table_len(data, 12, 4) as nat, |i: int| u32_entry(data, 12, 4, i, 0))
    }
}

/// (count, delta) runs of an `stts` payload.
pub open spec fn stts_spec(data: Seq<u8>) -> Seq<(u32, u32)> {
    Seq::new(
        table_len(data, 8, 8) as nat,
        |i: int| (u32_entry(data, 8, 8, i, 0), u32_entry(data, 8, 8, i, 4)),
    )
}

/// (first_chunk, samples_per_chunk, desc_idx) runs of an `stsc` payload.
pub open spec fn stsc_spec(data: Seq<u8>) -> Seq<(u32, u32, u32)> {
    Seq::new(
        table_len(data, 8, 12) as nat,
        |i: int|
            (
                u32_entry(data, 8, 12, i, 0),
                u32_entry(data, 8, 12, i, 4),
                u32_entry(data, 8, 12, i, 8),
            ),
    )
}

/// 32-bit chunk offsets of an `stco` payload, widened.
pub open spec fn stco_spec(data: Seq<u8>) -> Seq<u64> {
    Seq::new(table_len(data, 8, 4) as nat, |i: int| u32_entry(data, 8, 4, i, 0) as u64)
}

/// 64-bit chunk offsets of a `co64` payload.
pub open spec fn co64_spec(data: Seq<u8>) -> Seq<u64> {
    Seq::new(table_len(data, 8, 8) as nat, |i: int| be_u64_at(data, 8 + 8 * i))
}

/// 1-based sync sample numbers of an `stss` payload.
pub open spec fn stss_spec(data: Seq<u8>) -> Seq<u32> {
    Seq::new(table_len(data, 8, 4) as nat, |i: int| u32_entry(data, 8, 4, i, 0))
}

/// (count, offset) runs of a `ctts` payload; offsets are signed.
pub open spec fn ctts_spec(data: Seq<u8>) -> Seq<(u32, i32)> {
    Seq::new(
        table_len(data, 8, 8) as nat,
        |i: int| (u32_entry(data, 8, 8, i, 0), u32_entry(data, 8, 8, i, 4) as i32),
    )
}

/// When a table loop stops at entry `i`, either because `count` entries were
/// read or because the next one would run past the end, `i` is the table
/// length.
proof fn lemma_table_stop(data: Seq<u8>, hdr: int, stride: int, i: int)
    requires
        4 <= hdr <= data.len(),
        stride > 0,
        0 <= i,
        hdr + stride * i <= data.len(),
        i <= be_u32_at(data, hdr - 4),
        i == be_u32_at(data, hdr - 4) || data.len() - (hdr + stride * i) < stride,
    ensures
        i == table_len(data, hdr, stride),
{
    let len = data.len() as int;
    let avail = (len - hdr) / stride;
    assert(stride * i == i * stride) by (nonlinear_arith);
    if len - (hdr + stride * i) < stride {
        vstd::arithmetic::div_mod::lemma_fundamental_div_mod_converse(
            len - hdr,
            stride,
            i,
            len - hdr - stride * i,
        );
    } else {
        // i == count and i more entries fit: count <= avail
        vstd::arithmetic::div_mod::lemma_fundamental_div_mod(len - hdr, stride);
        assert(avail * stride + (len - hdr) % stride == len - hdr);
        assert((len - hdr) % stride < stride);
        assert(i * stride <= len - hdr);
        assert(i <= avail) by (nonlinear_arith)
            requires
                i * stride <= len - hdr,
                avail * stride + (len - hdr) % stride == len - hdr,
                (len - hdr) % stride < stride,
                0 <= (len - hdr) % stride,
                stride > 0,
                i >= 0,
        ;
    }
}

impl Mp4Parser {
    /// Parse an `stsz` (sample size) payload.
    pub fn parse_stsz(data: &[u8]) -> (r: Vec<u32>)
        ensures
            r@ == stsz_spec(data@),
    {
        if data.len() < 12 {
            return Vec::new();
        }
        let default_size = read_u32_be(data, 4);
        let count = read_u32_be(data, 8);
        if default_size != 0 {
            let mut sizes: Vec<u32> = Vec::new();
            let mut i: u32 = 0;
            while i < count
                invariant
                    i <= count,
                    sizes@ == Seq::new(i as nat, |k: int| default_size),
                decreases count - i,
            {
                sizes.push(default_size);
                i = i + 1;
                assert(sizes@ =~= Seq::new(i as nat, |k: int| default_size));
            }
            return sizes;
        }
        let mut sizes: Vec<u32> = Vec::new();
        let mut offset: usize = 12;
        let mut i: u32 = 0;
        while i < count && data.len() - offset >= 4
            invariant
                12 <= offset <= data@.len(),
                offset == 12 + 4 * i,
                i <= count,
                count == be_u32_at(data@, 8),
                sizes@ == Seq::new(i as nat, |k: int| u32_entry(data@, 12, 4, k, 0)),
            decreases count - i,
        {
            sizes.push(read_u32_be(data, offset));
            offset = offset + 4;
            i = i + 1;
            assert(sizes@ =~= Seq::new(i as nat, |k: int| u32_entry(data@, 12, 4, k, 0)));
        }
        proof {
            lemma_table_stop(data@, 12, 4, i as int);
        }
        sizes
    }

    /// Parse an `stts` (time-to-sample) payload.
    pub fn parse_stts(data: &[u8]) -> (r: Vec<(u32, u32)>)
        ensures
            r@ == stts_spec(data@),
    {
        let mut entries: Vec<(u32, u32)> = Vec::new();
        if data.len() < 8 {
            assert(entries@ =~= stts_spec(data@));
            return entries;
        }
        let count = read_u32_be(data, 4);
        let mut offset: usize = 8;
        let mut i: u32 = 0;
        while i < count && data.len() - offset >= 8
            invariant
                8 <= offset <= data@.len(),
                offset == 8 + 8 * i,
                i <= count,
                count == be_u32_at(data@, 4),
                entries@ == Seq::new(
                    i as nat,
                    |k: int| (u32_entry(data@, 8, 8, k, 0), u32_entry(data@, 8, 8, k, 4)),
                ),
            decreases count - i,
        {
            let sample_count = read_u32_be(data, offset);
            let sample_delta = read_u32_be(data, offset + 4);
            entries.push((sample_count, sample_delta));
            offset = offset + 8;
            i = i + 1;
            assert(entries@ =~= Seq::new(
                i as nat,
                |k: int| (u32_entry(data@, 8, 8, k, 0), u32_entry(data@, 8, 8, k, 4)),
            ));
        }
        proof {
            lemma_table_stop(data@, 8, 8, i as int);
        }
        entries
    }

    /// Parse an `stsc` (sample-to-chunk) payload.
    pub fn parse_stsc(data: &[u8]) -> (r: Vec<(u32, u32, u32)>)
        ensures
            r@ == stsc_spec(data@),
    {
        let mut entries: Vec<(u32, u32, u32)> = Vec::new();
        if data.len() < 8 {
            assert(entries@ =~= stsc_spec(data@));
            return entries;
        }
        let count = read_u32_be(data, 4);
        let mut offset: usize = 8;
        let mut i: u32 = 0;
        while i < count && data.len() - offset >= 12
            invariant
                8 <= offset <= data@.len(),
                offset == 8 + 12 * i,
                i <= count,
                count == be_u32_at(data@, 4),
                entries@ == Seq::new(
                    i as nat,
                    |k: int|
                        (
                            u32_entry(data@, 8, 12, k, 0),
                            u32_entry(data@, 8, 12, k, 4),
                            u32_entry(data@, 8, 12, k, 8),
                        ),
                ),
            decreases count - i,
        {
            let first_chunk = read_u32_be(data, offset);
            let samples_per_chunk = read_u32_be(data, offset + 4);
            let desc_idx = read_u32_be(data, offset + 8);
            entries.push((first_chunk, samples_per_chunk, desc_idx));
            offset = offset + 12;
            i = i + 1;
            assert(entries@ =~= Seq::new(
                i as nat,
                |k: int|
                    (
                        u32_entry(data@, 8, 12, k, 0),
                        u32_entry(data@, 8, 12, k, 4),
                        u32_entry(data@, 8, 12, k, 8),
                    ),
            ));
        }
        proof {
            lemma_table_stop(data@, 8, 12, i as int);
        }
        entries
    }

    /// Parse an `stco` (32-bit chunk offset) payload.
    pub fn parse_stco(data: &[u8]) -> (r: Vec<u64>)
        ensures
            r@ == stco_spec(data@),
    {
        let mut offsets: Vec<u64> = Vec::new();
        if data.len() < 8 {
            assert(offsets@ =~= stco_spec(data@));
            return offsets;
        }
        let count = read_u32_be(data, 4);
        let mut offset: usize = 8;
        let mut i: u32 = 0;
        while i < count && data.len() - offset >= 4
            invariant
                8 <= offset <= data@.len(),
                offset == 8 + 4 * i,
                i <= count,
                count == be_u32_at(data@, 4),
                offsets@ == Seq::new(i as nat, |k: int| u32_entry(data@, 8, 4, k, 0) as u64),
            decreases count - i,
        {
            offsets.push(read_u32_be(data, offset) as u64);
            offset = offset + 4;
            i = i + 1;
            assert(offsets@ =~= Seq::new(i as nat, |k: int| u32_entry(data@, 8, 4, k, 0) as u64));
        }
        proof {
            lemma_table_stop(data@, 8, 4, i as int);
        }
        offsets
    }

    /// Parse a `co64` (64-bit chunk offset) payload.
    pub fn parse_co64(data: &[u8]) -> (r: Vec<u64>)
        ensures
            r@ == co64_spec(data@),
    {
        let mut offsets: Vec<u64> = Vec::new();
        if data.len() < 8 {
            assert(offsets@ =~= co64_spec(data@));
            return offsets;
        }
        let count = read_u32_be(data, 4);
        let mut offset: usize = 8;
        let mut i: u32 = 0;
        while i < count && data.len() - offset >= 8
            invariant
                8 <= offset <= data@.len(),
                offset == 8 + 8 * i,
                i <= count,
                count == be_u32_at(data@, 4),
                offsets@ == Seq::new(i as nat, |k: int| be_u64_at(data@, 8 + 8 * k)),
            decreases count - i,
        {
            offsets.push(read_u64_be(data, offset));
            offset = offset + 8;
            i = i + 1;
            assert(offsets@ =~= Seq::new(i as nat, |k: int| be_u64_at(data@, 8 + 8 * k)));
        }
        proof {
            lemma_table_stop(data@, 8, 8, i as int);
        }
        offsets
    }

    /// Parse an `stss` (sync sample) payload.
    pub fn parse_stss(data: &[u8]) -> (r: Vec<u32>)
        ensures
            r@ == stss_spec(data@),
    {
        let mut samples: Vec<u32> = Vec::new();
        if data.len() < 8 {
            assert(samples@ =~= stss_spec(data@));
            return samples;
        }
        let count = read_u32_be(data, 4);
        let mut offset: usize = 8;
        let mut i: u32 = 0;
        while i < count && data.len() - offset >= 4
            invariant
                8 <= offset <= data@.len(),
                offset == 8 + 4 * i,
                i <= count,
                count == be_u32_at(data@, 4),
                samples@ == Seq::new(i as nat, |k: int| u32_entry(data@, 8, 4, k, 0)),
            decreases count - i,
        {
            samples.push(read_u32_be(data, offset));
            offset = offset + 4;
            i = i + 1;
            assert(samples@ =~= Seq::new(i as nat, |k: int| u32_entry(data@, 8, 4, k, 0)));
        }
        proof {
            lemma_table_stop(data@, 8, 4, i as int);
        }
        samples
    }

    /// Parse a `ctts` (composition time offset) payload.
    pub fn parse_ctts(data: &[u8]) -> (r: Vec<(u32, i32)>)
        ensures
            r@ == ctts_spec(data@),
    {
        let mut entries: Vec<(u32, i32)> = Vec::new();
        if data.len() < 8 {
            assert(entries@ =~= ctts_spec(data@));
            return entries;
        }
        let count = read_u32_be(data, 4);
        let mut offset: usize = 8;
        let mut i: u32 = 0;
        while i < count && data.len() - offset >= 8
            invariant
                8 <= offset <= data@.len(),
                offset == 8 + 8 * i,
                i <= count,
                count == be_u32_at(data@, 4),
                entries@ == Seq::new(
                    i as nat,
                    |k: int| (u32_entry(data@, 8, 8, k, 0), u32_entry(data@, 8, 8, k, 4) as i32),
                ),
            decreases count - i,
        {
            let sample_count = read_u32_be(data, offset);
            let sample_offset = read_u32_be(data, offset + 4) as i32;
            entries.push((sample_count, sample_offset));
            offset = offset + 8;
            i = i + 1;
            assert(entries@ =~= Seq::new(
                i as nat,
                |k: int| (u32_entry(data@, 8, 8, k, 0), u32_entry(data@, 8, 8, k, 4) as i32),
            ));
        }
        proof {
            lemma_table_stop(data@, 8, 8, i as int);
        }
        entries
    }
}


// ---------------------------------------------------------------------------
// Resolution of the tables into per-sample entries
// ---------------------------------------------------------------------------

/// First chunk (0-based) that `stsc` run `i` covers.
pub open spec fn run_start(stsc: Seq<(u32, u32, u32)>, i: int) -> int {
    stsc[i].0 - 1
}

/// One past the last chunk that `stsc` run `i` covers: the next run's first
/// chunk, or the end of the chunk list, and never past `n` chunks.
pub open spec fn run_end(stsc: Seq<(u32, u32, u32)>, i: int, n: int) -> int {
    let e = if i + 1 < stsc.len() {
        stsc[i + 1].0 - 1
    } else {
        n
    };
    if e < n {
        e
    } else {
        n
    }
}

/// Samples in chunk `c` after applying the first `k` `stsc` runs in order
/// (a later run overrides an earlier one); 0 where no run applies.
pub open spec fn chunk_spc(stsc: Seq<(u32, u32, u32)>, n: int, k: int, c: int) -> u32
    decreases k,
{
    if k <= 0 {
        0
    } else if run_start(stsc, k - 1) <= c < run_end(stsc, k - 1, n) {
        stsc[k - 1].1
    } else {
        chunk_spc(stsc, n, k - 1, c)
    }
}

/// Samples in each of `n` chunks.
pub open spec fn spc_seq(stsc: Seq<(u32, u32, u32)>, n: int) -> Seq<u32> {
    Seq::new(n as nat, |c: int| chunk_spc(stsc, n, stsc.len() as int, c))
}

/// Total size of samples `from..to`.
pub open spec fn size_sum(sizes: Seq<u32>, from: int, to: int) -> int
    decreases to - from,
{
    if to <= from {
        0
    } else {
        size_sum(sizes, from, to - 1) + sizes[to - 1]
    }
}

/// Absolute offsets of the samples laid out in the first `c` chunks: each
/// chunk takes its count of samples (as many as are left), packed one after
/// the other from the chunk's offset.
pub open spec fn sample_offsets(sizes: Seq<u32>, spc: Seq<u32>, chunks: Seq<u64>, c: int) -> Seq<int>
    decreases c,
{
    if c <= 0 {
        Seq::empty()
    } else {
        let prev = sample_offsets(sizes, spc, chunks, c - 1);
        let p = prev.len() as int;
        let room = sizes.len() - p;
        let k = if spc[c - 1] < room {
            spc[c - 1] as int
        } else if room < 0 {
            0
        } else {
            room
        };
        prev + Seq::new(k as nat, |t: int| chunks[c - 1] + size_sum(sizes, p, p + t))
    }
}

/// Each laid-out sample lies in one chunk `c`: after the samples of the
/// chunks before it, and at that chunk's offset plus the sizes of the
/// earlier samples of the same chunk.
pub proof fn lemma_offset_in_chunk(sizes: Seq<u32>, spc: Seq<u32>, chunks: Seq<u64>, n: int, j: int)
    requires
        0 <= j < sample_offsets(sizes, spc, chunks, n).len(),
    ensures
        exists|c: int|
            0 <= c < n && sample_offsets(sizes, spc, chunks, c).len() <= j < sample_offsets(
                sizes,
                spc,
                chunks,
                c + 1,
            ).len() && #[trigger] sample_offsets(sizes, spc, chunks, n)[j] == chunks[c] + size_sum(
                sizes,
                sample_offsets(sizes, spc, chunks, c).len() as int,
                j,
            ),
    decreases n,
{
    let prev = sample_offsets(sizes, spc, chunks, n - 1);
    if j < prev.len() {
        lemma_offset_in_chunk(sizes, spc, chunks, n - 1, j);
        let c = choose|c: int|
            0 <= c < n - 1 && sample_offsets(sizes, spc, chunks, c).len() <= j < sample_offsets(
                sizes,
                spc,
                chunks,
                c + 1,
            ).len() && #[trigger] sample_offsets(sizes, spc, chunks, n - 1)[j] == chunks[c] + size_sum(
                sizes,
                sample_offsets(sizes, spc, chunks, c).len() as int,
                j,
            );
        assert(sample_offsets(sizes, spc, chunks, n)[j] == prev[j]);
        assert(0 <= c < n && sample_offsets(sizes, spc, chunks, c).len() <= j < sample_offsets(
            sizes,
            spc,
            chunks,
            c + 1,
        ).len() && sample_offsets(sizes, spc, chunks, n)[j] == chunks[c] + size_sum(
            sizes,
            sample_offsets(sizes, spc, chunks, c).len() as int,
            j,
        ));
    } else {
        let c = n - 1;
        assert(sample_offsets(sizes, spc, chunks, c + 1) == sample_offsets(sizes, spc, chunks, n));
        assert(0 <= c < n && sample_offsets(sizes, spc, chunks, c).len() <= j < sample_offsets(
            sizes,
            spc,
            chunks,
            c + 1,
        ).len() && sample_offsets(sizes, spc, chunks, n)[j] == chunks[c] + size_sum(
            sizes,
            sample_offsets(sizes, spc, chunks, c).len() as int,
            j,
        ));
    }
}

/// The layout places, chunk by chunk, as many samples as the chunk holds,
/// until the samples run out: the first `c` chunks place the smaller of the
/// sample count and the sum of their counts.
pub proof fn lemma_layout_count(sizes: Seq<u32>, spc: Seq<u32>, chunks: Seq<u64>, c: int)
    requires
        0 <= c <= spc.len(),
    ensures
        sample_offsets(sizes, spc, chunks, c).len() == if spc_total(spc, c) < sizes.len() {
            spc_total(spc, c)
        } else {
            sizes.len() as int
        },
    decreases c,
{
    if c > 0 {
        lemma_layout_count(sizes, spc, chunks, c - 1);
    }
}

/// The sum of the first `c` sample counts.
pub open spec fn spc_total(spc: Seq<u32>, c: int) -> int
    decreases c,
{
    if c <= 0 {
        0
    } else {
        spc_total(spc, c - 1) + spc[c - 1]
    }
}

/// Samples per chunk `c` (0-based) by the last of the first `k` `stsc`
/// entries whose first chunk is at most `c + 1`; 0 when there is none.
pub open spec fn last_run_spc(stsc: Seq<(u32, u32, u32)>, k: int, c: int) -> u32
    decreases k,
{
    if k <= 0 {
        0
    } else if stsc[k - 1].0 <= c + 1 {
        stsc[k - 1].1
    } else {
        last_run_spc(stsc, k - 1, c)
    }
}

/// The first chunks of `stsc` are 1-based and never decrease.
pub open spec fn stsc_sorted(stsc: Seq<(u32, u32, u32)>) -> bool {
    &&& forall|i: int| 0 <= i < stsc.len() ==> stsc[i].0 >= 1
    &&& forall|i: int, j: int| 0 <= i < j < stsc.len() ==> stsc[i].0 <= stsc[j].0
}

/// Where the runs among the first `k` end: the next run's first chunk, or
/// the end of the chunk list.
spec fn runs_bound(stsc: Seq<(u32, u32, u32)>, n: int, k: int) -> int {
    if k < stsc.len() && stsc[k].0 - 1 < n {
        stsc[k].0 - 1
    } else {
        n
    }
}

proof fn lemma_chunk_spc_prefix(stsc: Seq<(u32, u32, u32)>, n: int, k: int, c: int)
    requires
        stsc_sorted(stsc),
        0 <= k <= stsc.len(),
        0 <= c < n,
    ensures
        chunk_spc(stsc, n, k, c) == if c < runs_bound(stsc, n, k) {
            last_run_spc(stsc, k, c)
        } else {
            0u32
        },
    decreases k,
{
    if k > 0 {
        lemma_chunk_spc_prefix(stsc, n, k - 1, c);
        if k < stsc.len() {
            assert(stsc[k - 1].0 <= stsc[k].0);
        }
    }
}

/// With sorted `stsc`, the samples of chunk `c` are those of the last entry
/// whose first chunk is at most `c + 1`.
pub proof fn lemma_spc_is_last_run(stsc: Seq<(u32, u32, u32)>, n: int, c: int)
    requires
        stsc_sorted(stsc),
        0 <= c < n,
    ensures
        spc_seq(stsc, n)[c] == last_run_spc(stsc, stsc.len() as int, c),
{
    lemma_chunk_spc_prefix(stsc, n, stsc.len() as int, c);
}

/// The resolved sample entries, whole: with sorted `stsc` and resolvable
/// tables there are as many entries as the chunks hold, up to the number of
/// sizes; entry `j` lies in a chunk `c`, whose count of samples is that of
/// the last `stsc` entry starting at or before it, after the samples of the
/// chunks before `c`, at that chunk's offset plus the sizes of the earlier
/// samples of `c`; its size is its own, its duration and composition offset
/// those of the runs that cover it (0 past their end), and it is a key
/// frame when `stss` is empty or lists it.
pub proof fn lemma_resolved_entries_law(t: TableView, j: int)
    requires
        stsc_sorted(t.stsc),
        table_resolvable(t),
        0 <= j < resolved_entries(t).len(),
    ensures
        ({
            let n = t.chunks.len() as int;
            let spc = spc_seq(t.stsc, n);
            let e = resolved_entries(t)[j];
            &&& resolved_entries(t).len() == if spc_total(spc, n) < t.sizes.len() {
                spc_total(spc, n)
            } else {
                t.sizes.len() as int
            }
            &&& exists|c: int|
                0 <= c < n && #[trigger] sample_offsets(t.sizes, spc, t.chunks, c).len() <= j < sample_offsets(
                    t.sizes,
                    spc,
                    t.chunks,
                    c + 1,
                ).len() && spc[c] == last_run_spc(t.stsc, t.stsc.len() as int, c) && e.offset == t.chunks[c]
                    + size_sum(t.sizes, sample_offsets(t.sizes, spc, t.chunks, c).len() as int, j)
            &&& e.size == t.sizes[j]
            &&& e.duration == run_value_or(t.stts, j, 0u32)
            &&& e.composition_offset == run_value_or(t.ctts, j, 0i32)
            &&& e.is_keyframe == is_sync(t.sync, j)
        }),
{
    let n = t.chunks.len() as int;
    let spc = spc_seq(t.stsc, n);
    lemma_layout_count(t.sizes, spc, t.chunks, n);
    lemma_offset_in_chunk(t.sizes, spc, t.chunks, n, j);
    let c = choose|c: int|
        0 <= c < n && sample_offsets(t.sizes, spc, t.chunks, c).len() <= j < sample_offsets(
            t.sizes,
            spc,
            t.chunks,
            c + 1,
        ).len() && #[trigger] sample_offsets(t.sizes, spc, t.chunks, n)[j] == t.chunks[c] + size_sum(
            t.sizes,
            sample_offsets(t.sizes, spc, t.chunks, c).len() as int,
            j,
        );
    lemma_spc_is_last_run(t.stsc, n, c);
    assert(table_layout(t)[j] <= u64::MAX);
    assert(table_layout(t)[j] >= 0) by {
        lemma_size_sum_nonneg(t.sizes, sample_offsets(t.sizes, spc, t.chunks, c).len() as int, j);
    }
}

proof fn lemma_size_sum_nonneg(sizes: Seq<u32>, from: int, to: int)
    ensures
        size_sum(sizes, from, to) >= 0,
    decreases to - from,
{
    if to > from {
        lemma_size_sum_nonneg(sizes, from, to - 1);
    }
}

/// Total count of the first `k` runs of a run-length table.
pub open spec fn run_total<T>(runs: Seq<(u32, T)>, k: int) -> int
    decreases k,
{
    if k <= 0 {
        0
    } else {
        run_total(runs, k - 1) + runs[k - 1].0
    }
}

/// The value that the first `k` runs give sample `j`, if one covers it.
pub open spec fn run_value<T>(runs: Seq<(u32, T)>, k: int, j: int) -> Option<T>
    decreases k,
{
    if k <= 0 {
        None
    } else if run_total(runs, k - 1) <= j < run_total(runs, k) {
        Some(runs[k - 1].1)
    } else {
        run_value(runs, k - 1, j)
    }
}

/// The value of a run-length table at sample `j`, or `default` past its end.
pub open spec fn run_value_or<T>(runs: Seq<(u32, T)>, j: int, default: T) -> T {
    match run_value(runs, runs.len() as int, j) {
        Some(v) => v,
        None => default,
    }
}

/// Whether sample `j` (0-based) is a sync sample: every sample is when
/// `stss` is empty.
pub open spec fn is_sync(sync: Seq<u32>, j: int) -> bool {
    sync.len() == 0 || exists|k: int| 0 <= k < sync.len() && sync[k] - 1 == j
}

/// Offsets of the samples that a table lays out.
pub open spec fn table_layout(t: TableView) -> Seq<int> {
    sample_offsets(t.sizes, spc_seq(t.stsc, t.chunks.len() as int), t.chunks, t.chunks.len() as int)
}

/// Whether a table can be resolved: chunk and sample numbers are 1-based and
/// every absolute sample offset fits in 64 bits.
pub open spec fn table_resolvable(t: TableView) -> bool {
    &&& forall|i: int| 0 <= i < t.stsc.len() ==> t.stsc[i].0 >= 1
    &&& forall|k: int| 0 <= k < t.sync.len() ==> t.sync[k] >= 1
    &&& forall|j: int| 0 <= j < table_layout(t).len() ==> table_layout(t)[j] <= u64::MAX
}

/// The entries that a table resolves to.
pub open spec fn resolved_entries(t: TableView) -> Seq<SampleEntry> {
    Seq::new(
        table_layout(t).len(),
        |j: int|
            SampleEntry {
                offset: table_layout(t)[j] as u64,
                size: t.sizes[j],
                duration: run_value_or(t.stts, j, 0u32),
                is_keyframe: is_sync(t.sync, j),
                composition_offset: run_value_or(t.ctts, j, 0i32),
            },
    )
}

impl SampleTable {
    /// Offsets of the samples that the table lays out.
    pub open spec fn layout(&self) -> Seq<int> {
        sample_offsets(
            self.sample_sizes@,
            spc_seq(self.sample_to_chunk@, self.chunk_offsets@.len() as int),
            self.chunk_offsets@,
            self.chunk_offsets@.len() as int,
        )
    }

    /// The tables can be resolved: chunk and sample numbers are 1-based and
    /// every absolute sample offset fits in 64 bits.
    pub open spec fn resolvable(&self) -> bool {
        &&& forall|i: int| 0 <= i < self.sample_to_chunk@.len() ==> self.sample_to_chunk@[i].0 >= 1
        &&& forall|k: int| 0 <= k < self.sync_samples@.len() ==> self.sync_samples@[k] >= 1
        &&& forall|j: int| 0 <= j < self.layout().len() ==> self.layout()[j] <= u64::MAX
    }

    /// Whether the tables can be resolved (see [`Self::resolvable`]): a test
    /// to run on tables read from untrusted input before resolving them.
    pub fn can_resolve(&self) -> (r: bool)
        ensures
            r == self.resolvable(),
    {
        let mut i: usize = 0;
        while i < self.sample_to_chunk.len()
            invariant
                i <= self.sample_to_chunk@.len(),
                forall|k: int| 0 <= k < i ==> self.sample_to_chunk@[k].0 >= 1,
            decreases self.sample_to_chunk@.len() - i,
        {
            if self.sample_to_chunk[i].0 < 1 {
                return false;
            }
            i = i + 1;
        }
        let mut k: usize = 0;
        while k < self.sync_samples.len()
            invariant
                k <= self.sync_samples@.len(),
                forall|x: int| 0 <= x < k ==> self.sync_samples@[x] >= 1,
            decreases self.sync_samples@.len() - k,
        {
            if self.sync_samples[k] < 1 {
                return false;
            }
            k = k + 1;
        }
        let spc = expand_sample_to_chunk(&self.sample_to_chunk, self.chunk_offsets.len());
        let r = layout_fits(&self.sample_sizes, &spc, &self.chunk_offsets);
        assert(sample_offsets(self.sample_sizes@, spc@, self.chunk_offsets@, self.chunk_offsets@.len() as int)
            == self.layout());
        r
    }

    /// Resolve the tables into per-sample entries with absolute offsets.
    ///
    /// `stsc` and the chunk offsets place the samples, `stts` gives their
    /// durations, `stss` marks key frames (all of them when it is empty) and
    /// `ctts` gives composition offsets.
    pub fn resolve_sample_offsets(&self) -> (r: Vec<SampleEntry>)
        requires
            self.resolvable(),
        ensures
            r@.len() == self.layout().len(),
            r@.len() <= self.sample_sizes@.len(),
            forall|j: int|
                0 <= j < r@.len() ==> {
                    let e = #[trigger] r@[j];
                    &&& e.offset == self.layout()[j]
                    &&& e.size == self.sample_sizes@[j]
                    &&& e.duration == run_value_or(self.time_to_sample@, j, 0u32)
                    &&& e.is_keyframe == is_sync(self.sync_samples@, j)
                    &&& e.composition_offset == run_value_or(self.composition_offsets@, j, 0i32)
                },
            r@ == resolved_entries(self@),
    {
        let num_samples = self.sample_sizes.len();
        if num_samples == 0 {
            proof {
                lemma_layout_len(
                    self.sample_sizes@,
                    spc_seq(self.sample_to_chunk@, self.chunk_offsets@.len() as int),
                    self.chunk_offsets@,
                    self.chunk_offsets@.len() as int,
                );
            }
            let r: Vec<SampleEntry> = Vec::new();
            assert(r@ =~= resolved_entries(self@));
            return r;
        }
        let num_chunks = self.chunk_offsets.len();
        let spc = expand_sample_to_chunk(&self.sample_to_chunk, num_chunks);
        proof {
            let lay = sample_offsets(self.sample_sizes@, spc@, self.chunk_offsets@, num_chunks as int);
            assert(lay == self.layout());
            assert forall|j: int| 0 <= j < lay.len() implies lay[j] <= u64::MAX by {
                assert(self.layout()[j] <= u64::MAX);
            }
            lemma_layout_len(self.sample_sizes@, spc@, self.chunk_offsets@, num_chunks as int);
        }
        let mut entries = place_samples(&self.sample_sizes, &spc, &self.chunk_offsets);
        assign_durations(&mut entries, &self.time_to_sample);
        mark_keyframes(&mut entries, &self.sync_samples);
        if self.composition_offsets.len() != 0 {
            assign_composition_offsets(&mut entries, &self.composition_offsets);
        }
        proof {
            if self.composition_offsets@.len() == 0 {
                assert forall|j: int| 0 <= j < entries@.len() implies
                    entries@[j].composition_offset == run_value_or(self.composition_offsets@, j, 0i32) by {
                    assert(run_value(self.composition_offsets@, 0, j) is None);
                }
            }
            assert(entries@ =~= resolved_entries(self@));
        }
        entries
    }
}

/// Each chunk's sample count from the `stsc` runs.
fn expand_sample_to_chunk(stsc: &Vec<(u32, u32, u32)>, n: usize) -> (spc: Vec<u32>)
    requires
        forall|i: int| 0 <= i < stsc@.len() ==> stsc@[i].0 >= 1,
    ensures
        spc@ == spc_seq(stsc@, n as int),
{
    let mut spc: Vec<u32> = Vec::new();
    let mut c: usize = 0;
    while c < n
        invariant
            c <= n,
            spc@ == Seq::new(c as nat, |x: int| 0u32),
        decreases n - c,
    {
        spc.push(0);
        c = c + 1;
        assert(spc@ =~= Seq::new(c as nat, |x: int| 0u32));
    }
    let mut i: usize = 0;
    while i < stsc.len()
        invariant
            i <= stsc@.len(),
            spc@.len() == n,
            forall|k: int| 0 <= k < stsc@.len() ==> stsc@[k].0 >= 1,
            forall|x: int| 0 <= x < n ==> spc@[x] == chunk_spc(stsc@, n as int, i as int, x),
        decreases stsc@.len() - i,
    {
        let (first_chunk, v, _desc) = stsc[i];
        let start = (first_chunk - 1) as usize;
        let end0: usize = if i + 1 < stsc.len() {
            (stsc[i + 1].0 - 1) as usize
        } else {
            n
        };
        let end = if end0 < n {
            end0
        } else {
            n
        };
        assert(start == run_start(stsc@, i as int));
        assert(end == run_end(stsc@, i as int, n as int));
        let mut c: usize = start;
        while c < end
            invariant
                start <= c,
                c <= end || c == start,
                end <= n,
                spc@.len() == n,
                forall|x: int|
                    0 <= x < n ==> spc@[x] == (if start <= x < c {
                        v
                    } else {
                        chunk_spc(stsc@, n as int, i as int, x)
                    }),
            decreases end - c,
        {
            spc.set(c, v);
            c = c + 1;
        }
        i = i + 1;
        assert forall|x: int| 0 <= x < n implies spc@[x] == chunk_spc(stsc@, n as int, i as int, x) by {
            assert(stsc@[i - 1].1 == v);
        }
    }
    assert(spc@ =~= spc_seq(stsc@, n as int));
    spc
}

/// The layout never places more samples than there are.
proof fn lemma_layout_len(sizes: Seq<u32>, spc: Seq<u32>, chunks: Seq<u64>, c: int)
    ensures
        sample_offsets(sizes, spc, chunks, c).len() <= sizes.len(),
    decreases c,
{
    if c > 0 {
        lemma_layout_len(sizes, spc, chunks, c - 1);
    }
}

/// Laying out more chunks only appends offsets.
proof fn lemma_layout_prefix(sizes: Seq<u32>, spc: Seq<u32>, chunks: Seq<u64>, c: int, m: int)
    requires
        0 <= c <= m,
    ensures
        sample_offsets(sizes, spc, chunks, c).len() <= sample_offsets(sizes, spc, chunks, m).len(),
        forall|j: int|
            0 <= j < sample_offsets(sizes, spc, chunks, c).len() ==> sample_offsets(sizes, spc, chunks, m)[j]
                == sample_offsets(sizes, spc, chunks, c)[j],
    decreases m - c,
{
    if c < m {
        lemma_layout_prefix(sizes, spc, chunks, c, m - 1);
        lemma_layout_len(sizes, spc, chunks, m - 1);
    }
}

/// A run of `t` sample sizes adds up to at most `t` times the largest `u32`.
proof fn lemma_size_sum_bound(sizes: Seq<u32>, from: int, t: int)
    requires
        t >= 0,
    ensures
        0 <= size_sum(sizes, from, from + t) <= t * 0xffff_ffff,
    decreases t,
{
    if t > 0 {
        lemma_size_sum_bound(sizes, from, t - 1);
    }
}

/// Lay the samples out chunk by chunk.
fn place_samples(sizes: &Vec<u32>, spc: &Vec<u32>, chunks: &Vec<u64>) -> (r: Vec<SampleEntry>)
    requires
        spc@.len() == chunks@.len(),
        forall|j: int|
            0 <= j < sample_offsets(sizes@, spc@, chunks@, chunks@.len() as int).len() ==> sample_offsets(
                sizes@,
                spc@,
                chunks@,
                chunks@.len() as int,
            )[j] <= u64::MAX,
    ensures
        r@.len() == sample_offsets(sizes@, spc@, chunks@, chunks@.len() as int).len(),
        forall|j: int|
            0 <= j < r@.len() ==> {
                let e = #[trigger] r@[j];
                &&& e.offset == sample_offsets(sizes@, spc@, chunks@, chunks@.len() as int)[j]
                &&& e.size == sizes@[j]
                &&& e.duration == 0
                &&& !e.is_keyframe
                &&& e.composition_offset == 0
            },
{
    let num = sizes.len();
    let ghost total = chunks@.len() as int;
    let mut entries: Vec<SampleEntry> = Vec::new();
    let mut idx: usize = 0;
    let mut c: usize = 0;
    while c < chunks.len()
        invariant
            spc@.len() == chunks@.len(),
            num == sizes@.len(),
            c <= chunks@.len(),
            total == chunks@.len(),
            idx == entries@.len(),
            entries@.len() == sample_offsets(sizes@, spc@, chunks@, c as int).len(),
            forall|j: int|
                0 <= j < sample_offsets(sizes@, spc@, chunks@, total).len() ==> sample_offsets(
                    sizes@,
                    spc@,
                    chunks@,
                    total,
                )[j] <= u64::MAX,
            forall|j: int|
                0 <= j < entries@.len() ==> {
                    let e = #[trigger] entries@[j];
                    &&& e.offset == sample_offsets(sizes@, spc@, chunks@, c as int)[j]
                    &&& e.size == sizes@[j]
                    &&& e.duration == 0
                    &&& !e.is_keyframe
                    &&& e.composition_offset == 0
                },
        decreases chunks@.len() - c,
    {
        let ghost prev = sample_offsets(sizes@, spc@, chunks@, c as int);
        let ghost next = sample_offsets(sizes@, spc@, chunks@, c as int + 1);
        proof {
            lemma_layout_len(sizes@, spc@, chunks@, c as int);
            lemma_layout_prefix(sizes@, spc@, chunks@, c as int + 1, total);
        }
        let n_in = spc[c] as usize;
        let base = chunks[c];
        let mut off: u64 = 0;
        let mut t: usize = 0;
        while t < n_in && idx < num
            invariant
                spc@.len() == chunks@.len(),
                c < chunks@.len(),
                num == sizes@.len(),
                n_in == spc@[c as int],
                base == chunks@[c as int],
                prev == sample_offsets(sizes@, spc@, chunks@, c as int),
                next == sample_offsets(sizes@, spc@, chunks@, c as int + 1),
                prev.len() <= num,
                next.len() <= sample_offsets(sizes@, spc@, chunks@, total).len(),
                forall|j: int|
                    0 <= j < next.len() ==> sample_offsets(sizes@, spc@, chunks@, total)[j] == next[j],
                forall|j: int|
                    0 <= j < sample_offsets(sizes@, spc@, chunks@, total).len() ==> sample_offsets(
                        sizes@,
                        spc@,
                        chunks@,
                        total,
                    )[j] <= u64::MAX,
                t <= n_in,
                idx == prev.len() + t,
                idx <= num,
                idx == entries@.len(),
                off == size_sum(sizes@, prev.len() as int, idx as int),
                forall|j: int|
                    0 <= j < entries@.len() ==> {
                        let e = #[trigger] entries@[j];
                        &&& e.offset == (if j < prev.len() {
                            prev[j]
                        } else {
                            base + size_sum(sizes@, prev.len() as int, j)
                        })
                        &&& e.size == sizes@[j]
                        &&& e.duration == 0
                        &&& !e.is_keyframe
                        &&& e.composition_offset == 0
                    },
            decreases n_in - t,
        {
            let size = sizes[idx];
            assert(next[idx as int] == base + size_sum(sizes@, prev.len() as int, idx as int));
            assert(next[idx as int] <= u64::MAX);
            entries.push(
                SampleEntry {
                    offset: base + off,
                    size,
                    duration: 0,
                    is_keyframe: false,
                    composition_offset: 0,
                },
            );
            proof {
                lemma_size_sum_bound(sizes@, prev.len() as int, t as int + 1);
                assert((t as int + 1) * 0xffff_ffff <= 0x1_0000_0000 * 0xffff_ffff) by (nonlinear_arith)
                    requires
                        t < n_in,
                        n_in <= 0xffff_ffff,
                ;
            }
            off = off + size as u64;
            idx = idx + 1;
            t = t + 1;
        }
        c = c + 1;
        assert forall|j: int| 0 <= j < entries@.len() implies
            entries@[j].offset == sample_offsets(sizes@, spc@, chunks@, c as int)[j] by {}
    }
    entries
}

/// Whether every offset of the layout fits in 64 bits.
fn layout_fits(sizes: &Vec<u32>, spc: &Vec<u32>, chunks: &Vec<u64>) -> (r: bool)
    requires
        spc@.len() == chunks@.len(),
    ensures
        r == forall|j: int|
            0 <= j < sample_offsets(sizes@, spc@, chunks@, chunks@.len() as int).len() ==> sample_offsets(
                sizes@,
                spc@,
                chunks@,
                chunks@.len() as int,
            )[j] <= u64::MAX,
{
    let num = sizes.len();
    let ghost total = chunks@.len() as int;
    let mut idx: usize = 0;
    let mut c: usize = 0;
    while c < chunks.len()
        invariant
            spc@.len() == chunks@.len(),
            num == sizes@.len(),
            c <= chunks@.len(),
            total == chunks@.len(),
            idx == sample_offsets(sizes@, spc@, chunks@, c as int).len(),
            forall|j: int| 0 <= j < idx ==> sample_offsets(sizes@, spc@, chunks@, c as int)[j] <= u64::MAX,
        decreases chunks@.len() - c,
    {
        let ghost prev = sample_offsets(sizes@, spc@, chunks@, c as int);
        let ghost next = sample_offsets(sizes@, spc@, chunks@, c as int + 1);
        proof {
            lemma_layout_len(sizes@, spc@, chunks@, c as int);
        }
        let n_in = spc[c] as usize;
        let base = chunks[c] as u128;
        let mut off: u128 = 0;
        let mut t: usize = 0;
        while t < n_in && idx < num
            invariant
                spc@.len() == chunks@.len(),
                c < chunks@.len(),
                total == chunks@.len(),
                num == sizes@.len(),
                n_in == spc@[c as int],
                base == chunks@[c as int],
                prev == sample_offsets(sizes@, spc@, chunks@, c as int),
                next == sample_offsets(sizes@, spc@, chunks@, c as int + 1),
                prev.len() <= num,
                t <= n_in,
                idx == prev.len() + t,
                idx <= num,
                off == size_sum(sizes@, prev.len() as int, idx as int),
                off <= t * 0xffff_ffff,
                forall|j: int| 0 <= j < prev.len() ==> prev[j] <= u64::MAX,
                forall|j: int| prev.len() <= j < idx ==> base + size_sum(sizes@, prev.len() as int, j) <= u64::MAX,
            decreases n_in - t,
        {
            assert(t * 0xffff_ffff <= 0xffff_ffff * 0xffff_ffff) by (nonlinear_arith)
                requires
                    t < n_in,
                    n_in <= 0xffff_ffff,
            ;
            if base + off > 0xffff_ffff_ffff_ffff {
                assert(idx < next.len());
                assert(next[idx as int] == base + size_sum(sizes@, prev.len() as int, idx as int));
                proof {
                    lemma_layout_prefix(sizes@, spc@, chunks@, c as int + 1, total);
                }
                assert(sample_offsets(sizes@, spc@, chunks@, total)[idx as int] > u64::MAX);
                return false;
            }
            let size = sizes[idx];
            off = off + size as u128;
            idx = idx + 1;
            t = t + 1;
            assert(t * 0xffff_ffff == (t - 1) * 0xffff_ffff + 0xffff_ffff) by (nonlinear_arith);
        }
        c = c + 1;
        assert forall|j: int| 0 <= j < idx implies sample_offsets(sizes@, spc@, chunks@, c as int)[j] <= u64::MAX by {
            if j >= prev.len() {
                assert(sample_offsets(sizes@, spc@, chunks@, c as int)[j] == base + size_sum(
                    sizes@,
                    prev.len() as int,
                    j,
                ));
            }
        }
    }
    true
}

/// Give each sample the duration of the `stts` run that covers it.
fn assign_durations(entries: &mut Vec<SampleEntry>, runs: &Vec<(u32, u32)>)
    ensures
        final(entries)@.len() == old(entries)@.len(),
        forall|j: int|
            0 <= j < final(entries)@.len() ==> {
                let e = #[trigger] final(entries)@[j];
                let o = old(entries)@[j];
                &&& e.offset == o.offset
                &&& e.size == o.size
                &&& e.duration == run_value_or(runs@, j, o.duration)
                &&& e.is_keyframe == o.is_keyframe
                &&& e.composition_offset == o.composition_offset
            },
{
    let ghost orig = entries@;
    let len = entries.len();
    let mut idx: usize = 0;
    let mut k: usize = 0;
    while k < runs.len()
        invariant
            entries@.len() == len,
            orig.len() == len,
            k <= runs@.len(),
            idx == (if run_total(runs@, k as int) < len {
                run_total(runs@, k as int)
            } else {
                len as int
            }),
            forall|j: int|
                0 <= j < len ==> {
                    let e = #[trigger] entries@[j];
                    let o = orig[j];
                    &&& e.offset == o.offset
                    &&& e.size == o.size
                    &&& e.duration == (match run_value(runs@, k as int, j) {
                        Some(v) => v,
                        None => o.duration,
                    })
                    &&& e.is_keyframe == o.is_keyframe
                    &&& e.composition_offset == o.composition_offset
                },
        decreases runs@.len() - k,
    {
        let (count, delta) = runs[k];
        let ghost base = run_total(runs@, k as int);
        proof {
            lemma_run_total_nonneg(runs@, k as int);
        }
        let mut t: u32 = 0;
        while t < count && idx < len
            invariant
                entries@.len() == len,
                orig.len() == len,
                k < runs@.len(),
                runs@[k as int] == (count, delta),
                base == run_total(runs@, k as int),
                base >= 0,
                t <= count,
                idx == (if base + t < len {
                    base + t
                } else {
                    len as int
                }),
                forall|j: int|
                    0 <= j < len ==> {
                        let e = #[trigger] entries@[j];
                        let o = orig[j];
                        &&& e.offset == o.offset
                        &&& e.size == o.size
                        &&& e.duration == (if base <= j < base + t {
                            delta
                        } else {
                            match run_value(runs@, k as int, j) {
                                Some(v) => v,
                                None => o.duration,
                            }
                        })
                        &&& e.is_keyframe == o.is_keyframe
                        &&& e.composition_offset == o.composition_offset
                    },
            decreases count - t,
        {
            let mut e = entries[idx];
            e.duration = delta;
            entries.set(idx, e);
            idx = idx + 1;
            t = t + 1;
        }
        proof {
            assert forall|j: int| 0 <= j < len implies
                ({
                    let e = #[trigger] entries@[j];
                    let o = orig[j];
                    e.duration == (match run_value(runs@, k as int + 1, j) {
                        Some(v) => v,
                        None => o.duration,
                    })
                }) by {
                if base <= j < run_total(runs@, k as int + 1) {
                }
            }
        }
        k = k + 1;
    }
}

/// Give each sample the composition offset of the `ctts` run that covers it.
fn assign_composition_offsets(entries: &mut Vec<SampleEntry>, runs: &Vec<(u32, i32)>)
    ensures
        final(entries)@.len() == old(entries)@.len(),
        forall|j: int|
            0 <= j < final(entries)@.len() ==> {
                let e = #[trigger] final(entries)@[j];
                let o = old(entries)@[j];
                &&& e.offset == o.offset
                &&& e.size == o.size
                &&& e.duration == o.duration
                &&& e.is_keyframe == o.is_keyframe
                &&& e.composition_offset == run_value_or(runs@, j, o.composition_offset)
            },
{
    let ghost orig = entries@;
    let len = entries.len();
    let mut idx: usize = 0;
    let mut k: usize = 0;
    while k < runs.len()
        invariant
            entries@.len() == len,
            orig.len() == len,
            k <= runs@.len(),
            idx == (if run_total(runs@, k as int) < len {
                run_total(runs@, k as int)
            } else {
                len as int
            }),
            forall|j: int|
                0 <= j < len ==> {
                    let e = #[trigger] entries@[j];
                    let o = orig[j];
                    &&& e.offset == o.offset
                    &&& e.size == o.size
                    &&& e.duration == o.duration
                    &&& e.is_keyframe == o.is_keyframe
                    &&& e.composition_offset == (match run_value(runs@, k as int, j) {
                        Some(v) => v,
                        None => o.composition_offset,
                    })
                },
        decreases runs@.len() - k,
    {
        let (count, value) = runs[k];
        let ghost base = run_total(runs@, k as int);
        proof {
            lemma_run_total_nonneg(runs@, k as int);
        }
        let mut t: u32 = 0;
        while t < count && idx < len
            invariant
                entries@.len() == len,
                orig.len() == len,
                k < runs@.len(),
                runs@[k as int] == (count, value),
                base == run_total(runs@, k as int),
                base >= 0,
                t <= count,
                idx == (if base + t < len {
                    base + t
                } else {
                    len as int
                }),
                forall|j: int|
                    0 <= j < len ==> {
                        let e = #[trigger] entries@[j];
                        let o = orig[j];
                        &&& e.offset == o.offset
                        &&& e.size == o.size
                        &&& e.duration == o.duration
                        &&& e.is_keyframe == o.is_keyframe
                        &&& e.composition_offset == (if base <= j < base + t {
                            value
                        } else {
                            match run_value(runs@, k as int, j) {
                                Some(v) => v,
                                None => o.composition_offset,
                            }
                        })
                    },
            decreases count - t,
        {
            let mut e = entries[idx];
            e.composition_offset = value;
            entries.set(idx, e);
            idx = idx + 1;
            t = t + 1;
        }
        proof {
            assert forall|j: int| 0 <= j < len implies
                ({
                    let e = #[trigger] entries@[j];
                    let o = orig[j];
                    e.composition_offset == (match run_value(runs@, k as int + 1, j) {
                        Some(v) => v,
                        None => o.composition_offset,
                    })
                }) by {
                if base <= j < run_total(runs@, k as int + 1) {
                }
            }
        }
        k = k + 1;
    }
}

/// Run totals are never negative.
proof fn lemma_run_total_nonneg<T>(runs: Seq<(u32, T)>, k: int)
    ensures
        run_total(runs, k) >= 0,
    decreases k,
{
    if k > 0 {
        lemma_run_total_nonneg(runs, k - 1);
    }
}

/// Mark the sync samples as key frames (every sample when `stss` is empty).
fn mark_keyframes(entries: &mut Vec<SampleEntry>, sync: &Vec<u32>)
    requires
        forall|k: int| 0 <= k < sync@.len() ==> sync@[k] >= 1,
        forall|j: int| 0 <= j < old(entries)@.len() ==> !old(entries)@[j].is_keyframe,
    ensures
        final(entries)@.len() == old(entries)@.len(),
        forall|j: int|
            0 <= j < final(entries)@.len() ==> {
                let e = #[trigger] final(entries)@[j];
                let o = old(entries)@[j];
                &&& e.offset == o.offset
                &&& e.size == o.size
                &&& e.duration == o.duration
                &&& e.is_keyframe == is_sync(sync@, j)
                &&& e.composition_offset == o.composition_offset
            },
{
    let ghost orig = entries@;
    let len = entries.len();
    if sync.len() == 0 {
        let mut j: usize = 0;
        while j < len
            invariant
                entries@.len() == len,
                orig.len() == len,
                sync@.len() == 0,
                j <= len,
                forall|x: int|
                    0 <= x < len ==> {
                        let e = #[trigger] entries@[x];
                        let o = orig[x];
                        &&& e.offset == o.offset
                        &&& e.size == o.size
                        &&& e.duration == o.duration
                        &&& e.is_keyframe == (x < j)
                        &&& e.composition_offset == o.composition_offset
                    },
            decreases len - j,
        {
            let mut e = entries[j];
            e.is_keyframe = true;
            entries.set(j, e);
            j = j + 1;
        }
        return;
    }
    let mut k: usize = 0;
    while k < sync.len()
        invariant
            entries@.len() == len,
            orig.len() == len,
            k <= sync@.len(),
            sync@.len() > 0,
            forall|q: int| 0 <= q < sync@.len() ==> sync@[q] >= 1,
            forall|x: int|
                0 <= x < len ==> {
                    let e = #[trigger] entries@[x];
                    let o = orig[x];
                    &&& e.offset == o.offset
                    &&& e.size == o.size
                    &&& e.duration == o.duration
                    &&& e.is_keyframe == (exists|q: int| 0 <= q < k && sync@[q] - 1 == x)
                    &&& e.composition_offset == o.composition_offset
                },
        decreases sync@.len() - k,
    {
        let idx = (sync[k] - 1) as usize;
        if idx < len {
            let mut e = entries[idx];
            e.is_keyframe = true;
            entries.set(idx, e);
        }
        k = k + 1;
        assert forall|x: int| 0 <= x < len implies
            (#[trigger] entries@[x]).is_keyframe == (exists|q: int| 0 <= q < k && sync@[q] - 1 == x) by {
            if x == idx {
                assert(sync@[k - 1] - 1 == x);
            } else if exists|q: int| 0 <= q < k && sync@[q] - 1 == x {
                let q = choose|q: int| 0 <= q < k && sync@[q] - 1 == x;
                assert(q < k - 1);
            }
        }
    }
}

} // verus!
