//! Codec detection from the sample description box (`stsd`): the H.264
//! profile from `avcC` and the AAC object type from `esds`.
use vstd::prelude::*;
use crate::bytes_be::{
    be_u32_at, read_u32_be, u32_bytes, BOX_AC3, BOX_AVC1, BOX_AVCC, BOX_ESDS, BOX_MP4A,
    HANDLER_SOUN, HANDLER_VIDE,
};
use crate::media::mp4_parser::Mp4Error;
use crate::text::{hex2, push_hex2};

verus! {

/// A codec as text: short name, MIME type for MSE, and codec parameters.
pub type CodecText = (Seq<char>, Seq<char>, Option<Seq<char>>);

/// The text of a string option.
pub open spec fn opt_text(o: Option<String>) -> Option<Seq<char>> {
    match o {
        Some(s) => Some(s@),
        None => None,
    }
}

/// The text of a codec triple.
pub open spec fn codec_text(c: (String, String, Option<String>)) -> CodecText {
    (c.0@, c.1@, opt_text(c.2))
}

/// Whether a media type is the video handler `vide`.
pub open spec fn is_video_type(media_type: Seq<u8>) -> bool {
    media_type == u32_bytes(HANDLER_VIDE)
}

/// Whether a media type is the audio handler `soun`.
pub open spec fn is_audio_type(media_type: Seq<u8>) -> bool {
    media_type == u32_bytes(HANDLER_SOUN)
}

// ---------------------------------------------------------------------------
// H.264: avcC
// ---------------------------------------------------------------------------

/// The (profile, compatibility, level) bytes of the first `avcC` box found
/// walking the boxes of a sample entry from `pos`, if any. A walk stops at a
/// header that does not fit, a size below 8, or an `avcC` whose content runs
/// past the end.
pub open spec fn avc_walk(d: Seq<u8>, pos: int) -> Option<(u8, u8, u8)>
    decreases d.len() - pos,
{
    if pos < 0 || pos + 8 > d.len() {
        None
    } else {
        let size = be_u32_at(d, pos) as int;
        if be_u32_at(d, pos + 4) == BOX_AVCC && size >= 11 {
            if pos + size <= d.len() {
                Some((d[pos + 9], d[pos + 10], d[pos + 11]))
            } else {
                None
            }
        } else if size >= 8 && pos + size <= d.len() {
            avc_walk(d, pos + size)
        } else {
            None
        }
    }
}

/// Whether the walk meets an `avcC` whose configuration is three bytes long,
/// one short of the level byte that is read.
pub open spec fn avc_walk_panics(d: Seq<u8>, pos: int) -> bool
    decreases d.len() - pos,
{
    if pos < 0 || pos + 8 > d.len() {
        false
    } else {
        let size = be_u32_at(d, pos) as int;
        if be_u32_at(d, pos + 4) == BOX_AVCC && size >= 11 {
            pos + size <= d.len() && size == 11
        } else if size >= 8 && pos + size <= d.len() {
            avc_walk_panics(d, pos + size)
        } else {
            false
        }
    }
}

/// The H.264 profile string: six upper-case hex digits of profile,
/// compatibility and level, or the Baseline default `42E01E`.
pub open spec fn avc_profile(d: Seq<u8>) -> Seq<char> {
    match avc_walk(d, 0) {
        Some((p, c, l)) => hex2(p, true) + hex2(c, true) + hex2(l, true),
        None => "42E01E"@,
    }
}

/// An `avcC` box (at least 12 bytes) at the start of the data gives the
/// profile string of the bytes 9, 10 and 11 into it: AVCProfileIndication,
/// profile_compatibility and AVCLevelIndication, after the box header and
/// the configurationVersion byte at 8.
pub proof fn lemma_avc_profile_reads_config(d: Seq<u8>)
    requires
        d.len() >= 12,
        be_u32_at(d, 4) == BOX_AVCC,
        12 <= be_u32_at(d, 0) <= d.len(),
    ensures
        avc_profile(d) == hex2(d[9], true) + hex2(d[10], true) + hex2(d[11], true),
{
}

/// Walking from `pos` in data from which the first `a` bytes are cut gives
/// what walking from `pos + a` in the whole data gives.
proof fn lemma_avc_walk_shift(d: Seq<u8>, a: int, pos: int)
    requires
        0 <= a <= d.len(),
        0 <= pos,
        !avc_walk_panics(d.subrange(a, d.len() as int), pos),
    ensures
        avc_walk(d.subrange(a, d.len() as int), pos) == avc_walk(d, pos + a),
    decreases d.len() - a - pos,
{
    let t = d.subrange(a, d.len() as int);
    if pos + 8 <= t.len() {
        assert(be_u32_at(t, pos) == be_u32_at(d, pos + a));
        assert(be_u32_at(t, pos + 4) == be_u32_at(d, pos + a + 4));
        let size = be_u32_at(t, pos) as int;
        if be_u32_at(t, pos + 4) == BOX_AVCC && size >= 11 {
            if pos + size <= t.len() {
                assert(t[pos + 9] == d[pos + a + 9]);
                assert(t[pos + 10] == d[pos + a + 10]);
                assert(t[pos + 11] == d[pos + a + 11]);
            }
        } else if size >= 8 && pos + size <= t.len() {
            lemma_avc_walk_shift(d, a, pos + size);
        }
    }
}

/// A box other than `avcC` (whole, at least 8 bytes) at the start of the
/// data is passed over: the profile is that of the data after it.
pub proof fn lemma_avc_profile_skips_box(d: Seq<u8>)
    requires
        d.len() >= 8,
        be_u32_at(d, 4) != BOX_AVCC,
        8 <= be_u32_at(d, 0) <= d.len(),
        !avc_walk_panics(d.subrange(be_u32_at(d, 0) as int, d.len() as int), 0),
    ensures
        avc_profile(d) == avc_profile(d.subrange(be_u32_at(d, 0) as int, d.len() as int)),
{
    lemma_avc_walk_shift(d, be_u32_at(d, 0) as int, 0);
}

/// With no `avcC` box found, the profile is the Baseline default `42E01E`.
pub proof fn lemma_avc_profile_default(d: Seq<u8>)
    requires
        d.len() < 8,
    ensures
        avc_profile(d) == "42E01E"@,
{
}

/// The codec of an H.264 video track whose sample entry (`avc1`, from byte
/// 16 of the `stsd` payload on) opens with an `avcC` box: `H.264`, the MIME
/// type `video/mp4; codecs="avc1.XXYYZZ"` and the parameters `XXYYZZ`, the
/// hex digits of the `avcC` bytes 9, 10 and 11 (payload bytes 25, 26, 27).
pub proof fn lemma_stsd_avc_codec(data: Seq<u8>)
    requires
        data.len() >= 28,
        be_u32_at(data, 12) == BOX_AVC1,
        be_u32_at(data, 20) == BOX_AVCC,
        12 <= be_u32_at(data, 16) <= data.len() - 16,
    ensures
        ({
            let p = hex2(data[25], true) + hex2(data[26], true) + hex2(data[27], true);
            stsd_codec(data, u32_bytes(HANDLER_VIDE)) == Ok::<CodecText, Mp4Error>(
                ("H.264"@, "video/mp4; codecs=\"avc1."@ + p + "\""@, Some(p)),
            )
        }),
{
    reveal(stsd_codec);
    let rem = data.subrange(8, data.len() as int);
    let tail = rem.subrange(8, rem.len() as int);
    assert(tail =~= data.subrange(16, data.len() as int));
    assert(be_u32_at(rem, 4) == be_u32_at(data, 12));
    assert(be_u32_at(tail, 0) == be_u32_at(data, 16));
    assert(be_u32_at(tail, 4) == be_u32_at(data, 20));
    lemma_avc_profile_reads_config(tail);
    assert(tail[9] == data[25] && tail[10] == data[26] && tail[11] == data[27]);
}

/// Find the H.264 profile, compatibility and level in the `avcC` box of a
/// sample entry.
pub fn extract_avc_profile(data: &[u8]) -> (r: String)
    requires
        !avc_walk_panics(data@, 0),
    ensures
        r@ == avc_profile(data@),
{
    let len = data.len();
    let mut pos: usize = 0;
    while pos <= len && len - pos >= 8
        invariant
            len == data@.len(),
            avc_walk(data@, pos as int) == avc_walk(data@, 0),
            !avc_walk_panics(data@, pos as int),
        ensures
            avc_walk(data@, 0) is None,
        decreases len - pos,
    {
        let size = read_u32_be(data, pos) as usize;
        let box_type = read_u32_be(data, pos + 4);
        if box_type == BOX_AVCC && size >= 11 {
            if size <= len - pos {
                let mut s = String::new();
                push_hex2(&mut s, data[pos + 9], true);
                push_hex2(&mut s, data[pos + 10], true);
                push_hex2(&mut s, data[pos + 11], true);
                proof {
                    assert(s@ =~= avc_profile(data@));
                }
                return s;
            }
            break;
        } else if size >= 8 {
            if size > len - pos {
                break;
            }
            pos = pos + size;
        } else {
            break;
        }
    }
    String::from_str("42E01E")
}

// ---------------------------------------------------------------------------
// AAC: esds
// ---------------------------------------------------------------------------

/// The position after the length bytes that have their high bit set.
pub open spec fn skip_continued(e: Seq<u8>, o: int) -> int
    decreases e.len() - o,
{
    if 0 <= o < e.len() && e[o] & 0x80 != 0 {
        skip_continued(e, o + 1)
    } else {
        o
    }
}

/// Scan the descriptors from `o` for the DecoderConfigDescriptor (tag 4)
/// and read the object type after its length; 2 (AAC-LC) when none is found.
pub open spec fn esds_scan(e: Seq<u8>, o: int) -> u8
    decreases e.len() - o,
{
    if o < 0 || o + 5 >= e.len() {
        2
    } else if e[o] == 4 {
        let p = skip_continued(e, o + 1);
        let q = if p < e.len() {
            p + 1
        } else {
            p
        };
        if q < e.len() {
            e[q]
        } else {
            2
        }
    } else {
        esds_scan(e, o + 1)
    }
}

/// The object type of an `esds` payload (2 when it is under 20 bytes).
pub open spec fn esds_object_type(e: Seq<u8>) -> u8 {
    if e.len() < 20 {
        2
    } else {
        esds_scan(e, 4)
    }
}

/// The object type from the first `esds` box (of size at least 20) found
/// walking the boxes of a sample entry from `pos`; 2 when there is none.
pub open spec fn aac_walk(d: Seq<u8>, pos: int) -> u8
    decreases d.len() - pos,
{
    if pos < 0 || pos + 8 > d.len() {
        2
    } else {
        let size = be_u32_at(d, pos) as int;
        if be_u32_at(d, pos + 4) == BOX_ESDS && size >= 20 {
            if pos + size <= d.len() {
                esds_object_type(d.subrange(pos + 8, pos + size))
            } else {
                2
            }
        } else if size >= 8 && pos + size <= d.len() {
            aac_walk(d, pos + size)
        } else {
            2
        }
    }
}

/// Skip the length bytes that have their high bit set.
fn skip_continued_exec(e: &[u8], o: usize) -> (r: usize)
    requires
        o <= e@.len(),
    ensures
        r == skip_continued(e@, o as int),
        o <= r <= e@.len(),
{
    let mut p = o;
    while p < e.len() && e[p] & 0x80 != 0
        invariant
            o <= p <= e@.len(),
            skip_continued(e@, p as int) == skip_continued(e@, o as int),
        decreases e@.len() - p,
    {
        p = p + 1;
    }
    p
}

/// The AAC object type in an `esds` payload.
pub fn parse_esds_for_aac_object_type(esds: &[u8]) -> (r: u8)
    ensures
        r == esds_object_type(esds@),
{
    let len = esds.len();
    if len < 20 {
        return 2;
    }
    let mut offset: usize = 4;
    while len - offset > 5
        invariant
            len == esds@.len(),
            len >= 20,
            4 <= offset <= len,
            esds_scan(esds@, offset as int) == esds_scan(esds@, 4),
        decreases len - offset,
    {
        if esds[offset] == 4 {
            let p = skip_continued_exec(esds, offset + 1);
            let q = if p < len {
                p + 1
            } else {
                p
            };
            if q < len {
                return esds[q];
            }
            return 2;
        }
        offset = offset + 1;
    }
    2
}

/// The AAC object type from the `esds` box of a sample entry.
pub fn extract_aac_object_type(data: &[u8]) -> (r: u8)
    ensures
        r == aac_walk(data@, 0),
{
    let len = data.len();
    let mut pos: usize = 0;
    while pos <= len && len - pos >= 8
        invariant
            len == data@.len(),
            aac_walk(data@, pos as int) == aac_walk(data@, 0),
        ensures
            aac_walk(data@, 0) == 2,
        decreases len - pos,
    {
        let size = read_u32_be(data, pos) as usize;
        let box_type = read_u32_be(data, pos + 4);
        if box_type == BOX_ESDS && size >= 20 {
            if size <= len - pos {
                let esds = crate::bytes_be::copy_range(data, pos + 8, pos + size);
                return parse_esds_for_aac_object_type(esds.as_slice());
            }
            break;
        } else if size >= 8 {
            if size > len - pos {
                break;
            }
            pos = pos + size;
        } else {
            break;
        }
    }
    2
}

/// The codec string for an AAC object type.
pub open spec fn aac_codec(object_type: u8) -> Seq<char> {
    if object_type == 5 {
        "mp4a.40.5"@
    } else if object_type == 0x1d {
        "mp4a.40.29"@
    } else {
        "mp4a.40.2"@
    }
}

fn aac_codec_string(object_type: u8) -> (r: &'static str)
    ensures
        r@ == aac_codec(object_type),
{
    if object_type == 5 {
        "mp4a.40.5"
    } else if object_type == 0x1d {
        "mp4a.40.29"
    } else {
        "mp4a.40.2"
    }
}

// ---------------------------------------------------------------------------
// stsd
// ---------------------------------------------------------------------------

/// Where the `esds` search starts in an `mp4a` sample entry: after the 28
/// bytes of audio fields when there is room for them.
pub open spec fn esds_start(rem: Seq<u8>) -> int {
    if rem.len() > 36 {
        36
    } else {
        8
    }
}

/// The codec that an `stsd` payload describes, read from its first sample
/// entry, for a track of the given handler type.
#[verifier::opaque]
pub open spec fn stsd_codec(data: Seq<u8>, media_type: Seq<u8>) -> Result<CodecText, Mp4Error> {
    if data.len() < 8 || data.len() - 8 < 8 {
        Err(Mp4Error::InvalidData)
    } else {
        let rem = data.subrange(8, data.len() as int);
        let format = be_u32_at(rem, 4);
        if is_video_type(media_type) && format == BOX_AVC1 {
            let p = avc_profile(rem.subrange(8, rem.len() as int));
            Ok(("H.264"@, "video/mp4; codecs=\"avc1."@ + p + "\""@, Some(p)))
        } else if is_audio_type(media_type) && format == BOX_MP4A {
            let ot = aac_walk(rem.subrange(esds_start(rem), rem.len() as int), 0);
            Ok(("AAC"@, "audio/mp4; codecs=\""@ + aac_codec(ot) + "\""@, Some(hex2(ot, false))))
        } else if is_audio_type(media_type) && format == BOX_AC3 {
            Ok(("AC-3"@, "audio/mp4; codecs=\"ac-3\""@, None))
        } else if is_video_type(media_type) {
            Ok(("H.264"@, "video/mp4; codecs=\"avc1.42E01E\""@, None))
        } else if is_audio_type(media_type) {
            Ok(("AAC"@, "audio/mp4; codecs=\"mp4a.40.2\""@, None))
        } else {
            Err(Mp4Error::InvalidData)
        }
    }
}

/// Whether reading the codec of an `stsd` payload meets the short `avcC`.
#[verifier::opaque]
pub open spec fn stsd_panics(data: Seq<u8>, media_type: Seq<u8>) -> bool {
    data.len() >= 16 && is_video_type(media_type) && be_u32_at(data, 12) == BOX_AVC1
        && avc_walk_panics(data.subrange(16, data.len() as int), 0)
}

/// The text of a codec result.
pub open spec fn codec_result_text(r: Result<(String, String, Option<String>), Mp4Error>) -> Result<
    CodecText,
    Mp4Error,
> {
    match r {
        Ok(c) => Ok(codec_text(c)),
        Err(e) => Err(e),
    }
}

/// Detect the codec of a track from its `stsd` payload.
pub fn parse_stsd_box(data: &[u8], media_type: &[u8]) -> (r: Result<(String, String, Option<String>), Mp4Error>)
    requires
        !stsd_panics(data@, media_type@),
    ensures
        codec_result_text(r) == stsd_codec(data@, media_type@),
{
    proof {
        reveal(stsd_codec);
        reveal(stsd_panics);
    }
    if data.len() < 8 || data.len() - 8 < 8 {
        return Err(Mp4Error::InvalidData);
    }
    let rem = crate::bytes_be::copy_range(data, 8, data.len());
    let format = read_u32_be(rem.as_slice(), 4);
    let video = crate::bytes_be::is_fourcc(media_type, HANDLER_VIDE);
    let audio = crate::bytes_be::is_fourcc(media_type, HANDLER_SOUN);
    proof {
        assert(rem@.subrange(8, rem@.len() as int) =~= data@.subrange(16, data@.len() as int));
        assert(be_u32_at(rem@, 4) == be_u32_at(data@, 12));
    }
    if video && format == BOX_AVC1 {
        let tail = crate::bytes_be::copy_range(rem.as_slice(), 8, rem.len());
        let profile = extract_avc_profile(tail.as_slice());
        let mut mime = String::from_str("video/mp4; codecs=\"avc1.");
        mime.append(profile.as_str());
        mime.append("\"");
        let params = profile.clone();
        Ok((String::from_str("H.264"), mime, Some(params)))
    } else if audio && format == BOX_MP4A {
        let start: usize = if rem.len() > 36 {
            36
        } else {
            8
        };
        let tail = crate::bytes_be::copy_range(rem.as_slice(), start, rem.len());
        let object_type = extract_aac_object_type(tail.as_slice());
        let mut mime = String::from_str("audio/mp4; codecs=\"");
        mime.append(aac_codec_string(object_type));
        mime.append("\"");
        let mut params = String::new();
        push_hex2(&mut params, object_type, false);
        Ok((String::from_str("AAC"), mime, Some(params)))
    } else if audio && format == BOX_AC3 {
        Ok((String::from_str("AC-3"), String::from_str("audio/mp4; codecs=\"ac-3\""), None))
    } else if video {
        Ok((String::from_str("H.264"), String::from_str("video/mp4; codecs=\"avc1.42E01E\""), None))
    } else if audio {
        Ok((String::from_str("AAC"), String::from_str("audio/mp4; codecs=\"mp4a.40.2\""), None))
    } else {
        Err(Mp4Error::InvalidData)
    }
}

/// Whether the walk for the `avcC` box stays clear of the short `avcC`
/// that [`extract_avc_profile`] cannot read.
fn avc_walk_clear(data: &[u8]) -> (r: bool)
    ensures
        r == !avc_walk_panics(data@, 0),
{
    let len = data.len();
    let mut pos: usize = 0;
    while pos <= len && len - pos >= 8
        invariant
            len == data@.len(),
            avc_walk_panics(data@, pos as int) == avc_walk_panics(data@, 0),
        decreases len - pos,
    {
        let size = read_u32_be(data, pos) as usize;
        let box_type = read_u32_be(data, pos + 4);
        if box_type == BOX_AVCC && size >= 11 {
            return !(size <= len - pos && size == 11);
        } else if size >= 8 && size <= len - pos {
            pos = pos + size;
        } else {
            return true;
        }
    }
    assert(!avc_walk_panics(data@, pos as int));
    true
}

/// Whether [`parse_stsd_box`] can read an `stsd` payload for a track of
/// the given handler type: a test to run on untrusted input first.
pub fn stsd_readable(data: &[u8], media_type: &[u8]) -> (r: bool)
    ensures
        r == !stsd_panics(data@, media_type@),
{
    proof {
        reveal(stsd_panics);
    }
    if data.len() < 16 || !crate::bytes_be::is_fourcc(media_type, HANDLER_VIDE) || read_u32_be(data, 12)
        != BOX_AVC1 {
        return true;
    }
    let tail = crate::bytes_be::copy_range(data, 16, data.len());
    avc_walk_clear(tail.as_slice())
}

/// The codec assumed for a track whose `minf` holds no `stbl`.
#[verifier::opaque]
pub open spec fn default_codec(media_type: Seq<u8>) -> CodecText {
    if is_video_type(media_type) {
        ("H.264"@, "video/mp4; codecs=\"avc1.42E01E\""@, None)
    } else if is_audio_type(media_type) {
        ("AAC"@, "audio/mp4; codecs=\"mp4a.40.2\""@, None)
    } else {
        ("Unknown"@, "application/octet-stream"@, None)
    }
}

/// The codec assumed for a track whose `minf` holds no `stbl`.
pub fn default_codec_for(media_type: &[u8]) -> (r: (String, String, Option<String>))
    ensures
        codec_text(r) == default_codec(media_type@),
{
    proof {
        reveal(default_codec);
    }
    if crate::bytes_be::is_fourcc(media_type, HANDLER_VIDE) {
        (String::from_str("H.264"), String::from_str("video/mp4; codecs=\"avc1.42E01E\""), None)
    } else if crate::bytes_be::is_fourcc(media_type, HANDLER_SOUN) {
        (String::from_str("AAC"), String::from_str("audio/mp4; codecs=\"mp4a.40.2\""), None)
    } else {
        (String::from_str("Unknown"), String::from_str("application/octet-stream"), None)
    }
}

} // verus!
