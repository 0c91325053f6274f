//! Building text: hexadecimal and decimal digits, and appending to strings.
use vstd::prelude::*;

verus! {

/// The character of a hexadecimal digit, in upper or lower case.
pub open spec fn hex_char(d: int, upper: bool) -> char {
    if d < 10 {
        (48 + d) as char
    } else if upper {
        (55 + d) as char
    } else {
        (87 + d) as char
    }
}

/// Two hexadecimal digits of a byte.
pub open spec fn hex2(b: u8, upper: bool) -> Seq<char> {
    seq![hex_char((b / 16) as int, upper), hex_char((b % 16) as int, upper)]
}

/// Append a character to a string.
#[verifier::external_body]
pub(crate) fn push_char(s: &mut String, c: char)
    ensures
        final(s)@ == old(s)@.push(c),
{
    s.push(c);
}

/// The character of a hexadecimal digit.
pub fn hex_digit(d: u8, upper: bool) -> (c: char)
    requires
        d < 16,
    ensures
        c == hex_char(d as int, upper),
{
    if d < 10 {
        (48 + d) as char
    } else if upper {
        (55 + d) as char
    } else {
        (87 + d) as char
    }
}

/// Append the two hexadecimal digits of a byte.
pub fn push_hex2(s: &mut String, b: u8, upper: bool)
    ensures
        final(s)@ == old(s)@ + hex2(b, upper),
{
    push_char(s, hex_digit(b / 16, upper));
    push_char(s, hex_digit(b % 16, upper));
    assert(final(s)@ =~= old(s)@ + hex2(b, upper));
}

/// The text that `String::from_utf8_lossy` makes of some bytes: what they
/// decode to, with each invalid sequence replaced by U+FFFD.
pub uninterp spec fn utf8_lossy(b: Seq<u8>) -> Seq<char>;

/// Text from bytes by `String::from_utf8_lossy`. Valid UTF-8 comes back
/// decoded as it is; what becomes of invalid sequences is left to the name.
#[verifier::external_body]
pub(crate) fn lossy_string(b: &[u8]) -> (r: String)
    ensures
        r@ == utf8_lossy(b@),
        vstd::utf8::valid_utf8(b@) ==> r@ == vstd::utf8::decode_utf8(b@),
{
    String::from_utf8_lossy(b).into_owned()
}

/// Two texts are equal when their UTF-8 encodings are.
pub proof fn lemma_encode_utf8_injective(a: Seq<char>, b: Seq<char>)
    ensures
        (vstd::utf8::encode_utf8(a) == vstd::utf8::encode_utf8(b)) == (a == b),
{
    vstd::utf8::encode_utf8_decode_utf8(a);
    vstd::utf8::encode_utf8_decode_utf8(b);
}

/// Whether two texts are equal.
pub fn same_text(a: &str, b: &str) -> (r: bool)
    ensures
        r == (a@ == b@),
{
    let r = crate::crypto::bytes_equal(a.as_bytes(), b.as_bytes());
    proof {
        lemma_encode_utf8_injective(a@, b@);
    }
    r
}

/// Bytes that are all below 0x80 are valid UTF-8.
pub proof fn lemma_ascii_valid_utf8(s: Seq<u8>)
    requires
        forall|i: int| 0 <= i < s.len() ==> s[i] < 0x80,
    ensures
        vstd::utf8::valid_utf8(s),
    decreases s.len(),
{
    if s.len() > 0 {
        let rest = vstd::utf8::pop_first_scalar(s);
        assert(rest =~= s.subrange(1, s.len() as int));
        lemma_ascii_valid_utf8(rest);
    }
}

/// The decimal digits of a number.
pub open spec fn decimal(n: nat) -> Seq<char>
    decreases n,
{
    if n < 10 {
        seq![(48 + n) as char]
    } else {
        decimal(n / 10).push((48 + n % 10) as char)
    }
}

/// Append the decimal digits of a number.
pub fn push_decimal(s: &mut String, n: u64)
    ensures
        final(s)@ == old(s)@ + decimal(n as nat),
    decreases n,
{
    if n < 10 {
        push_char(s, (48 + n as u8) as char);
        assert(final(s)@ =~= old(s)@ + decimal(n as nat));
    } else {
        push_decimal(s, n / 10);
        push_char(s, (48 + (n % 10) as u8) as char);
        assert(final(s)@ =~= old(s)@ + decimal(n as nat));
    }
}

/// The text of a boolean, as Rust prints it.
pub open spec fn bool_text(b: bool) -> Seq<char> {
    if b {
        "true"@
    } else {
        "false"@
    }
}

/// Append the text of a boolean.
pub fn push_bool(s: &mut String, b: bool)
    ensures
        final(s)@ == old(s)@ + bool_text(b),
{
    if b {
        s.append("true");
    } else {
        s.append("false");
    }
}

/// Whether `needle` occurs in `hay`.
pub open spec fn has_substring(hay: Seq<char>, needle: Seq<char>) -> bool {
    exists|i: int| 0 <= i && i + needle.len() <= hay.len() && #[trigger] hay.subrange(i, i + needle.len()) == needle
}

/// Whether `needle` occurs in `hay`.
pub fn contains_text(hay: &str, needle: &str) -> (r: bool)
    ensures
        r == has_substring(hay@, needle@),
{
    let h = hay.as_bytes();
    let n = needle.as_bytes();
    let ghost hc = hay@;
    let ghost nc = needle@;
    let hl = h.len();
    let nl = n.len();
    proof {
        vstd::utf8::encode_utf8_decode_utf8(hc);
        vstd::utf8::encode_utf8_decode_utf8(nc);
    }
    let chars_h = text_chars(hay);
    let chars_n = text_chars(needle);
    let len_h = chars_h.len();
    let len_n = chars_n.len();
    if len_n > len_h {
        proof {
            if has_substring(hc, nc) {
                let i = choose|i: int| 0 <= i && i + nc.len() <= hc.len() && #[trigger] hc.subrange(i, i + nc.len()) == nc;
            }
        }
        return false;
    }
    let mut i: usize = 0;
    while i <= len_h - len_n
        invariant
            hc == hay@,
            nc == needle@,
            chars_h@ == hc,
            chars_n@ == nc,
            len_h == hc.len(),
            len_n == nc.len(),
            len_n <= len_h,
            i <= len_h - len_n + 1,
            forall|j: int| 0 <= j < i ==> #[trigger] hc.subrange(j, j + nc.len()) != nc,
        decreases len_h - len_n + 1 - i,
    {
        let mut k: usize = 0;
        let mut same = true;
        while k < len_n
            invariant
                chars_h@ == hc,
                chars_n@ == nc,
                len_h == hc.len(),
                len_n == nc.len(),
                i + len_n <= len_h,
                k <= len_n,
                same == forall|l: int| 0 <= l < k ==> hc[i + l] == nc[l],
            decreases len_n - k,
        {
            if chars_h[i + k] != chars_n[k] {
                same = false;
            }
            k = k + 1;
        }
        if same {
            proof {
                let w = i as int;
                assert(hc.subrange(w, w + nc.len()) =~= nc);
                assert(0 <= w && w + nc.len() <= hc.len());
                assert(has_substring(hc, nc));
            }
            return true;
        } else {
            proof {
                if hc.subrange(i as int, i + nc.len()) == nc {
                    assert forall|l: int| 0 <= l < len_n implies hc[i + l] == nc[l] by {
                        assert(hc.subrange(i as int, i + nc.len())[l] == hc[i + l]);
                    }
                }
            }
        }
        i = i + 1;
    }
    false
}

/// The characters of a text.
pub fn text_chars(s: &str) -> (r: Vec<char>)
    ensures
        r@ == s@,
{
    let mut r: Vec<char> = Vec::new();
    let n = s.unicode_len();
    let mut i: usize = 0;
    while i < n
        invariant
            n == s@.len(),
            i <= n,
            r@ == s@.subrange(0, i as int),
        decreases n - i,
    {
        r.push(s.get_char(i));
        i = i + 1;
        assert(r@ =~= s@.subrange(0, i as int));
    }
    assert(r@ =~= s@);
    r
}

} // verus!
