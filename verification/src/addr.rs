//! The address codec: parsing a textual content address into its 32-byte
//! binary form, and encoding the binary form back to hexadecimal text.
//!
//! A content address is written as 64 hexadecimal digits, upper or lower
//! case, with at most one trailing path separator `/` tolerated.  Any other
//! text is rejected: with [`AddrParseError::InvalidEncoding`] when it is
//! empty, of odd length or holds a character that is no hexadecimal digit,
//! and with [`AddrParseError::InvalidLength`] when it decodes to a byte
//! string that is not exactly 32 bytes long.

use vstd::prelude::*;
use vstd::string::*;

verus! {

/// Number of bytes in a content address.
pub const ADDRESS_BYTES: usize = 32;

/// Why a textual content address was rejected.
#[derive(Clone, Copy, Debug, PartialEq, Eq, Structural)]
pub enum AddrParseError {
    /// The text (after stripping one trailing slash) is empty, has odd
    /// length, or contains a character that is not a hexadecimal digit.
    InvalidEncoding,
    /// The text decodes to a byte string whose length is not 32.
    InvalidLength,
}

/// A fixed-size binary identifier that locates data on the network.
#[derive(Clone, Debug, PartialEq, Eq)]
pub struct ContentAddress {
    /// The 32 bytes of the address, in the order they were decoded.
    pub bytes: Vec<u8>,
}

impl ContentAddress {
    /// A well-formed address holds exactly 32 bytes.
    pub open spec fn wf(self) -> bool {
        self.bytes@.len() == ADDRESS_BYTES
    }
}

/// True when `c` is a hexadecimal digit, upper or lower case.
pub open spec fn spec_is_hex_digit(c: char) -> bool {
    ('0' <= c && c <= '9') || ('a' <= c && c <= 'f') || ('A' <= c && c <= 'F')
}

/// The value of the hexadecimal digit `c`.
pub open spec fn spec_hex_value(c: char) -> u8
    recommends
        spec_is_hex_digit(c),
{
    if '0' <= c && c <= '9' {
        (c as u32 - '0' as u32) as u8
    } else if 'a' <= c && c <= 'f' {
        (c as u32 - 'a' as u32 + 10) as u8
    } else {
        (c as u32 - 'A' as u32 + 10) as u8
    }
}

/// The lower-case hexadecimal digit with value `v`.
pub open spec fn spec_hex_digit_char(v: u8) -> char
    recommends
        v < 16,
{
    if v < 10 {
        (48 + v) as char  // '0' is 48
    } else {
        (87 + v) as char  // 'a' is 97, and 97 + (v - 10) == 87 + v
    }
}

/// True when every character of `s` is a hexadecimal digit.
pub open spec fn spec_all_hex(s: Seq<char>) -> bool {
    forall|i: int| 0 <= i < s.len() ==> spec_is_hex_digit(#[trigger] s[i])
}

/// The byte encoded by the digit pair at position `i` of `s`.
pub open spec fn spec_hex_byte(s: Seq<char>, i: int) -> u8
    recommends
        0 <= i,
        2 * i + 1 < s.len(),
        spec_is_hex_digit(s[2 * i]),
        spec_is_hex_digit(s[2 * i + 1]),
{
    (spec_hex_value(s[2 * i]) * 16 + spec_hex_value(s[2 * i + 1])) as u8
}

/// The byte string encoded by the hexadecimal text `s`: each pair of digits
/// yields one byte, high digit first.
pub open spec fn spec_hex_decode(s: Seq<char>) -> Seq<u8>
    recommends
        s.len() % 2 == 0,
        spec_all_hex(s),
{
    Seq::new(s.len() / 2, |i: int| spec_hex_byte(s, i))
}

/// The hexadecimal text encoding the byte string `b`, in lower case.
pub open spec fn spec_hex_encode(b: Seq<u8>) -> Seq<char> {
    Seq::new(
        2 * b.len(),
        |i: int|
            if i % 2 == 0 {
                spec_hex_digit_char(b[i / 2] / 16)
            } else {
                spec_hex_digit_char(b[i / 2] % 16)
            },
    )
}

/// `s` with one trailing path separator removed, if it ends with one.
pub open spec fn spec_strip_slash(s: Seq<char>) -> Seq<char> {
    if s.len() > 0 && s[s.len() - 1] == '/' {
        s.subrange(0, s.len() - 1)
    } else {
        s
    }
}

/// What parsing the text `s` yields: the decoded 32 bytes, or the error
/// that rejects `s`.
pub open spec fn spec_parse(s: Seq<char>) -> Result<Seq<u8>, AddrParseError> {
    let t = spec_strip_slash(s);
    if t.len() == 0 {
        Err(AddrParseError::InvalidEncoding)
    } else if t.len() % 2 != 0 || !spec_all_hex(t) {
        Err(AddrParseError::InvalidEncoding)
    } else if t.len() != 2 * ADDRESS_BYTES {
        Err(AddrParseError::InvalidLength)
    } else {
        Ok(spec_hex_decode(t))
    }
}

/// Classifies `c` as a hexadecimal digit, or not.
pub fn is_hex_digit(c: char) -> (r: bool)
    ensures
        r == spec_is_hex_digit(c),
{
    ('0' <= c && c <= '9') || ('a' <= c && c <= 'f') || ('A' <= c && c <= 'F')
}

/// The value of the hexadecimal digit `c`.
pub fn hex_value(c: char) -> (r: u8)
    requires
        spec_is_hex_digit(c),
    ensures
        r == spec_hex_value(c),
        r < 16,
{
    let u = c as u32;
    if '0' <= c && c <= '9' {
        (u - '0' as u32) as u8
    } else if 'a' <= c && c <= 'f' {
        (u - 'a' as u32) as u8 + 10
    } else {
        (u - 'A' as u32) as u8 + 10
    }
}

/// The lower-case hexadecimal digit with value `v`.
pub fn hex_digit_char(v: u8) -> (r: char)
    requires
        v < 16,
    ensures
        r == spec_hex_digit_char(v),
{
    if v < 10 {
        (48 + v) as char
    } else {
        (87 + v) as char
    }
}

/// Parse a hexadecimal content address with an optional trailing path
/// separator.  Succeeds exactly on 64 hexadecimal digits (after the strip),
/// and names the reason any other text is rejected.
pub fn str_to_xor_name(s: &str) -> (r: Result<ContentAddress, AddrParseError>)
    ensures
        r matches Ok(a) ==> a.wf() && spec_parse(s@) == Ok::<Seq<u8>, AddrParseError>(a.bytes@),
        r matches Err(e) ==> spec_parse(s@) == Err::<Seq<u8>, AddrParseError>(e),
{
    let n = s.unicode_len();
    let stripped: &str = if n > 0 && s.get_char(n - 1) == '/' {
        s.substring_char(0, n - 1)
    } else {
        s
    };
    proof {
        assert(stripped@ =~= spec_strip_slash(s@));
    }
    let m = stripped.unicode_len();
    if m == 0 {
        return Err(AddrParseError::InvalidEncoding);
    }
    if m % 2 != 0 {
        return Err(AddrParseError::InvalidEncoding);
    }
    let pairs = m / 2;
    let mut bytes: Vec<u8> = Vec::new();
    let mut i: usize = 0;
    while i < pairs
        invariant
            stripped@ == spec_strip_slash(s@),
            m == stripped@.len(),
            m % 2 == 0,
            pairs == m / 2,
            i <= pairs,
            bytes@.len() == i,
            forall|j: int|
                0 <= j < 2 * i ==> spec_is_hex_digit(#[trigger] stripped@[j]),
            forall|j: int| 0 <= j < i ==> bytes@[j] == spec_hex_byte(stripped@, j),
        decreases pairs - i,
    {
        let c1 = stripped.get_char(2 * i);
        let c2 = stripped.get_char(2 * i + 1);
        if !is_hex_digit(c1) || !is_hex_digit(c2) {
            return Err(AddrParseError::InvalidEncoding);
        }
        bytes.push(hex_value(c1) * 16 + hex_value(c2));
        i += 1;
    }
    proof {
        assert(spec_all_hex(stripped@));
    }
    if pairs != ADDRESS_BYTES {
        return Err(AddrParseError::InvalidLength);
    }
    proof {
        assert(bytes@ =~= spec_hex_decode(stripped@));
    }
    Ok(ContentAddress { bytes })
}

/// Encode a byte string as lower-case hexadecimal text, two digits for
/// each byte.
pub fn hex_encode(bytes: &Vec<u8>) -> (r: String)
    ensures
        r@ == spec_hex_encode(bytes@),
{
    let mut out = String::new();
    let mut i: usize = 0;
    while i < bytes.len()
        invariant
            i <= bytes@.len(),
            out@ =~= spec_hex_encode(bytes@).subrange(0, 2 * i as int),
        decreases bytes@.len() - i,
    {
        let b = bytes[i];
        crate::strext::push_char(&mut out, hex_digit_char(b / 16));
        crate::strext::push_char(&mut out, hex_digit_char(b % 16));
        i += 1;
        proof {
            assert(out@ =~= spec_hex_encode(bytes@).subrange(0, 2 * i as int));
        }
    }
    proof {
        assert(out@ =~= spec_hex_encode(bytes@));
    }
    out
}

/// A hexadecimal digit decodes back to the value it encodes.
proof fn lemma_hex_digit_char_value(v: u8)
    requires
        v < 16,
    ensures
        spec_is_hex_digit(spec_hex_digit_char(v)),
        spec_hex_value(spec_hex_digit_char(v)) == v,
        spec_hex_digit_char(v) != '/',
{
    if v < 10 {
        assert((48 + v) as char as u32 == 48 + v);
    } else {
        assert((87 + v) as char as u32 == 87 + v);
    }
}

/// Law: decoding the hexadecimal encoding of any byte string gives that
/// byte string back.
pub proof fn lemma_hex_decode_of_encode(b: Seq<u8>)
    ensures
        spec_hex_encode(b).len() == 2 * b.len(),
        spec_all_hex(spec_hex_encode(b)),
        spec_hex_decode(spec_hex_encode(b)) == b,
{
    let enc = spec_hex_encode(b);
    assert forall|i: int| 0 <= i < enc.len() implies spec_is_hex_digit(#[trigger] enc[i]) by {
        if i % 2 == 0 {
            lemma_hex_digit_char_value(b[i / 2] / 16);
        } else {
            lemma_hex_digit_char_value(b[i / 2] % 16);
        }
    }
    assert forall|i: int| 0 <= i < b.len() implies spec_hex_decode(enc)[i] == b[i] by {
        assert(enc[2 * i] == spec_hex_digit_char(b[i] / 16));
        assert(enc[2 * i + 1] == spec_hex_digit_char(b[i] % 16));
        lemma_hex_digit_char_value(b[i] / 16);
        lemma_hex_digit_char_value(b[i] % 16);
        assert(spec_hex_byte(enc, i) == (b[i] / 16) * 16 + b[i] % 16);
    }
    assert(spec_hex_decode(enc) =~= b);
}

/// Law: parsing the hexadecimal encoding of any 32-byte string succeeds
/// and returns exactly those bytes (round trip).
pub proof fn lemma_parse_of_encoding(b: Seq<u8>)
    requires
        b.len() == ADDRESS_BYTES,
    ensures
        spec_parse(spec_hex_encode(b)) == Ok::<Seq<u8>, AddrParseError>(b),
{
    let enc = spec_hex_encode(b);
    lemma_hex_decode_of_encode(b);
    assert(enc[enc.len() - 1] != '/') by {
        if (enc.len() - 1) % 2 == 0 {
            lemma_hex_digit_char_value(b[(enc.len() - 1) / 2] / 16);
        } else {
            lemma_hex_digit_char_value(b[(enc.len() - 1) / 2] % 16);
        }
    }
    assert(spec_strip_slash(enc) == enc);
}

/// Law: any text whose stripped form is not 64 characters long is
/// rejected, with one of the two parse errors.
pub proof fn lemma_parse_rejects_wrong_length(s: Seq<char>)
    requires
        spec_strip_slash(s).len() != 2 * ADDRESS_BYTES,
    ensures
        spec_parse(s) matches Err(e) && (e == AddrParseError::InvalidEncoding || e
            == AddrParseError::InvalidLength),
{
}

/// Law: a valid 64-digit address parses the same with and without one
/// trailing path separator.
pub proof fn lemma_parse_ignores_trailing_slash(x: Seq<char>)
    requires
        x.len() == 2 * ADDRESS_BYTES,
        spec_all_hex(x),
    ensures
        spec_parse(x.push('/')) == spec_parse(x),
{
    let y = x.push('/');
    assert(y[y.len() - 1] == '/');
    assert(spec_strip_slash(y) =~= x);
    assert(x[x.len() - 1] != '/');
    assert(spec_strip_slash(x) == x);
}

} // verus!
