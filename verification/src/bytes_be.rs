//! Big-endian byte encoding and decoding, and the building blocks of
//! ISO-BMFF boxes: a box is a 32-bit big-endian size, a four-character
//! type and a payload.
use vstd::prelude::*;

verus! {

/// `ftyp` as a big-endian type code.
pub const BOX_FTYP: u32 = 0x6674_7970;
/// `moov`
pub const BOX_MOOV: u32 = 0x6d6f_6f76;
/// `moof`
pub const BOX_MOOF: u32 = 0x6d6f_6f66;
/// `mdat`
pub const BOX_MDAT: u32 = 0x6d64_6174;
/// `mfhd`
pub const BOX_MFHD: u32 = 0x6d66_6864;
/// `traf`
pub const BOX_TRAF: u32 = 0x7472_6166;
/// `tfhd`
pub const BOX_TFHD: u32 = 0x7466_6864;
/// `tfdt`
pub const BOX_TFDT: u32 = 0x7466_6474;
/// `trun`
pub const BOX_TRUN: u32 = 0x7472_756e;
/// `mvex`
pub const BOX_MVEX: u32 = 0x6d76_6578;
/// `trex`
pub const BOX_TREX: u32 = 0x7472_6578;
/// `trak`
pub const BOX_TRAK: u32 = 0x7472_616b;
/// `tkhd`
pub const BOX_TKHD: u32 = 0x746b_6864;
/// `mdia`
pub const BOX_MDIA: u32 = 0x6d64_6961;
/// `mdhd`
pub const BOX_MDHD: u32 = 0x6d64_6864;
/// `hdlr`
pub const BOX_HDLR: u32 = 0x6864_6c72;
/// `minf`
pub const BOX_MINF: u32 = 0x6d69_6e66;
/// `stbl`
pub const BOX_STBL: u32 = 0x7374_626c;
/// `stsd`
pub const BOX_STSD: u32 = 0x7374_7364;
/// `stsz`
pub const BOX_STSZ: u32 = 0x7374_737a;
/// `stts`
pub const BOX_STTS: u32 = 0x7374_7473;
/// `stsc`
pub const BOX_STSC: u32 = 0x7374_7363;
/// `stco`
pub const BOX_STCO: u32 = 0x7374_636f;
/// `co64`
pub const BOX_CO64: u32 = 0x636f_3634;
/// `stss`
pub const BOX_STSS: u32 = 0x7374_7373;
/// `ctts`
pub const BOX_CTTS: u32 = 0x6374_7473;
/// `avc1`
pub const BOX_AVC1: u32 = 0x6176_6331;
/// `avcC`
pub const BOX_AVCC: u32 = 0x6176_6343;
/// `mp4a`
pub const BOX_MP4A: u32 = 0x6d70_3461;
/// `esds`
pub const BOX_ESDS: u32 = 0x6573_6473;
/// `ac-3`
pub const BOX_AC3: u32 = 0x6163_2d33;
/// `vide`, the handler type of video tracks.
pub const HANDLER_VIDE: u32 = 0x7669_6465;
/// `soun`, the handler type of audio tracks.
pub const HANDLER_SOUN: u32 = 0x736f_756e;

/// The big-endian value of four bytes.
pub open spec fn be_u32(b0: u8, b1: u8, b2: u8, b3: u8) -> u32 {
    ((b0 as u32) * 0x100_0000 + (b1 as u32) * 0x1_0000 + (b2 as u32) * 0x100 + (b3 as u32)) as u32
}

/// The big-endian value of the four bytes of `s` starting at `i`.
pub open spec fn be_u32_at(s: Seq<u8>, i: int) -> u32 {
    be_u32(s[i], s[i + 1], s[i + 2], s[i + 3])
}

/// The big-endian value of the eight bytes of `s` starting at `i`.
pub open spec fn be_u64_at(s: Seq<u8>, i: int) -> u64 {
    ((be_u32_at(s, i) as u64) * 0x1_0000_0000 + (be_u32_at(s, i + 4) as u64)) as u64
}

/// The four big-endian bytes of `x`.
pub open spec fn u32_bytes(x: u32) -> Seq<u8> {
    seq![
        (x / 0x100_0000) as u8,
        ((x / 0x1_0000) % 0x100) as u8,
        ((x / 0x100) % 0x100) as u8,
        (x % 0x100) as u8,
    ]
}

/// The eight big-endian bytes of `x`.
pub open spec fn u64_bytes(x: u64) -> Seq<u8> {
    u32_bytes((x / 0x1_0000_0000) as u32) + u32_bytes((x % 0x1_0000_0000) as u32)
}

/// The four big-endian bytes of the two's-complement encoding of `x`.
pub open spec fn i32_bytes(x: i32) -> Seq<u8> {
    u32_bytes(x as u32)
}

/// A box as it stands in a file: its 32-bit size, its type and its payload.
pub open spec fn box_bytes(box_type: u32, payload: Seq<u8>) -> Seq<u8> {
    u32_bytes((8 + payload.len()) as u32) + u32_bytes(box_type) + payload
}

/// Decoding the big-endian bytes of a value gives the value back.
pub proof fn lemma_u32_bytes_roundtrip(x: u32)
    ensures
        be_u32_at(u32_bytes(x), 0) == x,
        u32_bytes(x).len() == 4,
{
}

/// Two values with the same big-endian bytes are equal.
pub proof fn lemma_u32_bytes_injective(x: u32, y: u32)
    requires
        u32_bytes(x) == u32_bytes(y),
    ensures
        x == y,
{
    lemma_u32_bytes_roundtrip(x);
    lemma_u32_bytes_roundtrip(y);
}

/// Read a big-endian `u32` at offset `i`.
pub fn read_u32_be(data: &[u8], i: usize) -> (r: u32)
    requires
        i + 4 <= data@.len(),
    ensures
        r == be_u32_at(data@, i as int),
{
    let b0 = data[i] as u32;
    let b1 = data[i + 1] as u32;
    let b2 = data[i + 2] as u32;
    let b3 = data[i + 3] as u32;
    b0 * 0x100_0000 + b1 * 0x1_0000 + b2 * 0x100 + b3
}

/// Read a big-endian `u64` at offset `i`.
pub fn read_u64_be(data: &[u8], i: usize) -> (r: u64)
    requires
        i + 8 <= data@.len(),
    ensures
        r == be_u64_at(data@, i as int),
{
    let n = data.len();
    let hi = read_u32_be(data, i) as u64;
    let lo = read_u32_be(data, i + 4) as u64;
    hi * 0x1_0000_0000 + lo
}

/// Append the big-endian bytes of `x`.
pub fn push_u32(v: &mut Vec<u8>, x: u32)
    ensures
        final(v)@ == old(v)@ + u32_bytes(x),
{
    v.push((x / 0x100_0000) as u8);
    v.push(((x / 0x1_0000) % 0x100) as u8);
    v.push(((x / 0x100) % 0x100) as u8);
    v.push((x % 0x100) as u8);
    assert(final(v)@ =~= old(v)@ + u32_bytes(x));
}

/// Append the big-endian bytes of `x`.
pub fn push_u64(v: &mut Vec<u8>, x: u64)
    ensures
        final(v)@ == old(v)@ + u64_bytes(x),
{
    let ghost v0 = v@;
    push_u32(v, (x / 0x1_0000_0000) as u32);
    push_u32(v, (x % 0x1_0000_0000) as u32);
    assert(final(v)@ =~= v0 + u64_bytes(x));
}

/// Append the big-endian bytes of the two's-complement encoding of `x`.
pub fn push_i32(v: &mut Vec<u8>, x: i32)
    ensures
        final(v)@ == old(v)@ + i32_bytes(x),
{
    push_u32(v, x as u32);
}

/// Append all of `s`.
pub fn push_all(v: &mut Vec<u8>, s: &[u8])
    ensures
        final(v)@ == old(v)@ + s@,
{
    let ghost v0 = v@;
    let mut i: usize = 0;
    while i < s.len()
        invariant
            i <= s@.len(),
            v@ == v0 + s@.subrange(0, i as int),
        decreases s@.len() - i,
    {
        v.push(s[i]);
        i = i + 1;
        assert(v@ =~= v0 + s@.subrange(0, i as int));
    }
    assert(s@.subrange(0, s@.len() as int) =~= s@);
}

/// Append the bytes `s[start..end]`.
pub fn push_range(v: &mut Vec<u8>, s: &[u8], start: usize, end: usize)
    requires
        start <= end <= s@.len(),
    ensures
        final(v)@ == old(v)@ + s@.subrange(start as int, end as int),
{
    let ghost v0 = v@;
    let mut i: usize = start;
    while i < end
        invariant
            start <= i <= end <= s@.len(),
            v@ == v0 + s@.subrange(start as int, i as int),
        decreases end - i,
    {
        v.push(s[i]);
        i = i + 1;
        assert(v@ =~= v0 + s@.subrange(start as int, i as int));
    }
}

/// A copy of `s[start..end]`.
pub fn copy_range(s: &[u8], start: usize, end: usize) -> (r: Vec<u8>)
    requires
        start <= end <= s@.len(),
    ensures
        r@ == s@.subrange(start as int, end as int),
{
    let mut r: Vec<u8> = Vec::new();
    push_range(&mut r, s, start, end);
    assert(r@ =~= s@.subrange(start as int, end as int));
    r
}

/// Wrap `payload` in a box of type `box_type`.
pub fn make_box(box_type: u32, payload: &[u8]) -> (r: Vec<u8>)
    requires
        8 + payload@.len() <= u32::MAX,
    ensures
        r@ == box_bytes(box_type, payload@),
{
    let mut r: Vec<u8> = Vec::new();
    push_u32(&mut r, 8 + payload.len() as u32);
    push_u32(&mut r, box_type);
    push_all(&mut r, payload);
    assert(r@ =~= box_bytes(box_type, payload@));
    r
}

/// Whether the four bytes of `s` at `i` spell the type `t`.
pub fn fourcc_at(s: &[u8], i: usize, t: u32) -> (r: bool)
    requires
        i + 4 <= s@.len(),
    ensures
        r == (be_u32_at(s@, i as int) == t),
{
    read_u32_be(s, i) == t
}

/// Whether `v` is exactly the four bytes of the type `t`.
pub fn is_fourcc(v: &[u8], t: u32) -> (r: bool)
    ensures
        r == (v@ == u32_bytes(t)),
{
    if v.len() != 4 {
        proof {
            assert(u32_bytes(t).len() == 4);
        }
        return false;
    }
    let r = read_u32_be(v, 0) == t;
    proof {
        if r {
            assert(v@ =~= u32_bytes(t)) by {
                lemma_fourcc_bytes(v@);
            }
        } else if v@ == u32_bytes(t) {
            lemma_u32_bytes_roundtrip(t);
        }
    }
    r
}

/// Four bytes are the big-endian encoding of the value they spell.
pub proof fn lemma_fourcc_bytes(s: Seq<u8>)
    requires
        s.len() == 4,
    ensures
        u32_bytes(be_u32_at(s, 0)) =~= s,
{
    let (b0, b1, b2, b3) = (s[0], s[1], s[2], s[3]);
    let x = be_u32(b0, b1, b2, b3);
    assert(x == (b0 as u32) * 0x100_0000 + (b1 as u32) * 0x1_0000 + (b2 as u32) * 0x100 + (b3 as u32));
    lemma_be_u32_digits(b0, b1, b2, b3);
}

proof fn lemma_be_u32_digits(b0: u8, b1: u8, b2: u8, b3: u8)
    ensures
        ({
            let x: u32 = ((b0 as u32) * 0x100_0000 + (b1 as u32) * 0x1_0000 + (b2 as u32) * 0x100
                + (b3 as u32)) as u32;
            &&& (x / 0x100_0000) as u8 == b0
            &&& ((x / 0x1_0000) % 0x100) as u8 == b1
            &&& ((x / 0x100) % 0x100) as u8 == b2
            &&& (x % 0x100) as u8 == b3
        }),
{
    assert({
        let x: u32 = ((b0 as u32) * 0x100_0000 + (b1 as u32) * 0x1_0000 + (b2 as u32) * 0x100
            + (b3 as u32)) as u32;
        &&& (x / 0x100_0000) as u8 == b0
        &&& ((x / 0x1_0000) % 0x100) as u8 == b1
        &&& ((x / 0x100) % 0x100) as u8 == b2
        &&& (x % 0x100) as u8 == b3
    }) by (bit_vector);
}

/// The bytes of the type code `t`, as a vector.
pub fn fourcc_vec(t: u32) -> (r: Vec<u8>)
    ensures
        r@ == u32_bytes(t),
{
    let mut r: Vec<u8> = Vec::new();
    push_u32(&mut r, t);
    assert(r@ =~= u32_bytes(t));
    r
}

} // verus!
