//! The lossy text decoder: rendering arbitrary bytes as displayable text.
//!
//! Bytes are decoded as UTF-8.  Every well-formed scalar encoding yields its
//! character; every malformed byte run yields one replacement character for
//! its maximal well-formed prefix, and decoding continues with the next
//! byte.  Decoding never fails, and on well-formed input it reproduces the
//! encoded text exactly.

use vstd::prelude::*;
use vstd::utf8::*;

verus! {

/// The replacement character substituted for malformed byte runs.
pub const REPLACEMENT: char = '\u{fffd}';

/// True when `b` may open a scalar encoding: ASCII, or the lead of a 2, 3
/// or 4 byte encoding that is neither overlong-only (`0xc0`, `0xc1`) nor
/// beyond the Unicode range (`0xf5..=0xf7`), nor a continuation byte.
pub open spec fn spec_lead_ok(b: u8) -> bool {
    b < 0x80 || (0xc2 <= b && b <= 0xf4)
}

/// The width in bytes of the encoding that lead byte `b` opens.
pub open spec fn spec_lead_width(b: u8) -> int
    recommends
        spec_lead_ok(b),
{
    if b < 0x80 {
        1
    } else if b < 0xe0 {
        2
    } else if b < 0xf0 {
        3
    } else {
        4
    }
}

/// True when `b1` is admissible as the first continuation byte after lead
/// `b0`: the ranges exclude overlong encodings (after `0xe0` and `0xf0`),
/// surrogates (after `0xed`) and values beyond Unicode (after `0xf4`).
pub open spec fn spec_cont1_ok(b0: u8, b1: u8) -> bool {
    if b0 == 0xe0 {
        0xa0 <= b1 && b1 <= 0xbf
    } else if b0 == 0xed {
        0x80 <= b1 && b1 <= 0x9f
    } else if b0 == 0xf0 {
        0x90 <= b1 && b1 <= 0xbf
    } else if b0 == 0xf4 {
        0x80 <= b1 && b1 <= 0x8f
    } else {
        0x80 <= b1 && b1 <= 0xbf
    }
}

/// How many bytes the decoder consumes at the front of `s`: the length of
/// the first scalar encoding, or of the maximal well-formed prefix of one
/// (at least one byte) when the front of `s` is malformed.
pub open spec fn spec_step_len(s: Seq<u8>) -> int
    recommends
        s.len() > 0,
{
    let b0 = s[0];
    if !spec_lead_ok(b0) {
        1
    } else if spec_lead_width(b0) == 1 {
        1
    } else if s.len() < 2 || !spec_cont1_ok(b0, s[1]) {
        1
    } else if spec_lead_width(b0) == 2 {
        2
    } else if s.len() < 3 || !is_continuation_byte(s[2]) {
        2
    } else if spec_lead_width(b0) == 3 {
        3
    } else if s.len() < 4 || !is_continuation_byte(s[3]) {
        3
    } else {
        4
    }
}

/// The character the decoder yields for the front of `s`: the first
/// scalar, or the replacement character when the front is malformed.
pub open spec fn spec_step_char(s: Seq<u8>) -> char
    recommends
        s.len() > 0,
{
    let b0 = s[0];
    if !spec_lead_ok(b0) {
        REPLACEMENT
    } else if spec_lead_width(b0) == 1 {
        codepoint_width_1(b0) as char
    } else if s.len() < 2 || !spec_cont1_ok(b0, s[1]) {
        REPLACEMENT
    } else if spec_lead_width(b0) == 2 {
        codepoint_width_2(b0, s[1]) as char
    } else if s.len() < 3 || !is_continuation_byte(s[2]) {
        REPLACEMENT
    } else if spec_lead_width(b0) == 3 {
        codepoint_width_3(b0, s[1], s[2]) as char
    } else if s.len() < 4 || !is_continuation_byte(s[3]) {
        REPLACEMENT
    } else {
        codepoint_width_4(s[0], s[1], s[2], s[3]) as char
    }
}

/// The text that lossy decoding of `s` yields.
pub open spec fn spec_utf8_lossy(s: Seq<u8>) -> Seq<char>
    decreases s.len(),
{
    if s.len() == 0 {
        Seq::empty()
    } else {
        seq![spec_step_char(s)] + spec_utf8_lossy(s.subrange(spec_step_len(s), s.len() as int))
    }
}

/// Classifies `b1` as admissible first continuation byte after `b0`.
fn cont1_ok(b0: u8, b1: u8) -> (r: bool)
    ensures
        r == spec_cont1_ok(b0, b1),
{
    if b0 == 0xe0 {
        0xa0 <= b1 && b1 <= 0xbf
    } else if b0 == 0xed {
        0x80 <= b1 && b1 <= 0x9f
    } else if b0 == 0xf0 {
        0x90 <= b1 && b1 <= 0xbf
    } else if b0 == 0xf4 {
        0x80 <= b1 && b1 <= 0x8f
    } else {
        0x80 <= b1 && b1 <= 0xbf
    }
}

/// Classifies `b` as a continuation byte.
fn cont_ok(b: u8) -> (r: bool)
    ensures
        r == is_continuation_byte(b),
{
    0x80 <= b && b <= 0xbf
}

/// A two-byte encoding with an admissible lead and continuation encodes a
/// scalar in the two-byte range.
proof fn lemma_cp2_scalar(b0: u8, b1: u8)
    requires
        0xc2 <= b0 < 0xe0,
        0x80 <= b1 <= 0xbf,
    ensures
        is_scalar(codepoint_width_2(b0, b1)),
{
    assert(0x80 <= ((((b0 & 0x1f) as u32) << 6) | ((b1 & 0x3f) as u32)) <= 0x7ff) by (bit_vector)
        requires
            0xc2 <= b0 < 0xe0 && 0x80 <= b1 <= 0xbf,
    ;
}

/// A three-byte encoding whose continuation bytes pass the admissibility
/// checks encodes a scalar in the three-byte range.
proof fn lemma_cp3_scalar(b0: u8, b1: u8, b2: u8)
    requires
        0xe0 <= b0 < 0xf0,
        spec_cont1_ok(b0, b1),
        0x80 <= b2 <= 0xbf,
    ensures
        is_scalar(codepoint_width_3(b0, b1, b2)),
{
    let cp = codepoint_width_3(b0, b1, b2);
    assert(0x800 <= ((((b0 & 0x0f) as u32) << 12) | (((b1 & 0x3f) as u32) << 6) | ((b2
        & 0x3f) as u32)) <= 0xffff && !(0xd800 <= ((((b0 & 0x0f) as u32) << 12) | (((b1
        & 0x3f) as u32) << 6) | ((b2 & 0x3f) as u32)) <= 0xdfff)) by (bit_vector)
        requires
            0xe0 <= b0 < 0xf0 && 0x80 <= b1 <= 0xbf && 0x80 <= b2 <= 0xbf && (b0 == 0xe0 ==> 0xa0
                <= b1) && (b0 == 0xed ==> b1 <= 0x9f),
    ;
}

/// A four-byte encoding whose continuation bytes pass the admissibility
/// checks encodes a scalar in the four-byte range.
proof fn lemma_cp4_scalar(b0: u8, b1: u8, b2: u8, b3: u8)
    requires
        0xf0 <= b0 <= 0xf4,
        spec_cont1_ok(b0, b1),
        0x80 <= b2 <= 0xbf,
        0x80 <= b3 <= 0xbf,
    ensures
        is_scalar(codepoint_width_4(b0, b1, b2, b3)),
{
    assert(0x10000 <= ((((b0 & 0x07) as u32) << 18) | (((b1 & 0x3f) as u32) << 12) | (((b2
        & 0x3f) as u32) << 6) | ((b3 & 0x3f) as u32)) <= 0x10ffff) by (bit_vector)
        requires
            0xf0 <= b0 <= 0xf4 && 0x80 <= b1 <= 0xbf && 0x80 <= b2 <= 0xbf && 0x80 <= b3 <= 0xbf
                && (b0 == 0xf0 ==> 0x90 <= b1) && (b0 == 0xf4 ==> b1 <= 0x8f),
    ;
}

/// Decode arbitrary bytes into displayable text.  Never fails: malformed
/// byte runs come out as replacement characters, as [`spec_utf8_lossy`]
/// states, for every input.
pub fn string_from_utf8_lossy(input: &[u8]) -> (r: String)
    ensures
        r@ == spec_utf8_lossy(input@),
{
    let n = input.len();
    let mut out = String::new();
    let mut i: usize = 0;
    proof {
        assert(input@.subrange(0, n as int) =~= input@);
        assert(out@ + spec_utf8_lossy(input@) =~= spec_utf8_lossy(input@));
    }
    while i < n
        invariant
            n == input@.len(),
            i <= n,
            spec_utf8_lossy(input@) == out@ + spec_utf8_lossy(input@.subrange(i as int, n as int)),
        decreases n - i,
    {
        let ghost rest = input@.subrange(i as int, n as int);
        let b0 = input[i];
        let step: usize;
        let c: char;
        if b0 < 0x80 {
            step = 1;
            c = b0 as char;
            proof {
                assert(b0 & 0x7f == b0) by (bit_vector)
                    requires
                        b0 < 0x80,
                ;
                assert(c as u32 == codepoint_width_1(b0));
                char_u32_cast(c, codepoint_width_1(b0));
            }
        } else if b0 < 0xc2 || b0 > 0xf4 {
            step = 1;
            c = REPLACEMENT;
        } else if !(i + 1 < n) || !cont1_ok(b0, input[i + 1]) {
            step = 1;
            c = REPLACEMENT;
        } else if b0 < 0xe0 {
            let b1 = input[i + 1];
            let cp: u32 = (((b0 & 0x1f) as u32) << 6) | ((b1 & 0x3f) as u32);
            proof {
                assert(cp == codepoint_width_2(b0, b1));
                lemma_cp2_scalar(b0, b1);
            }
            step = 2;
            c = crate::strext::char_from_u32(cp).unwrap();
            proof {
                char_u32_cast(c, cp);
            }
        } else if !(i + 2 < n) || !cont_ok(input[i + 2]) {
            step = 2;
            c = REPLACEMENT;
        } else if b0 < 0xf0 {
            let b1 = input[i + 1];
            let b2 = input[i + 2];
            let cp: u32 = (((b0 & 0x0f) as u32) << 12) | (((b1 & 0x3f) as u32) << 6) | ((b2
                & 0x3f) as u32);
            proof {
                assert(cp == codepoint_width_3(b0, b1, b2));
                lemma_cp3_scalar(b0, b1, b2);
            }
            step = 3;
            c = crate::strext::char_from_u32(cp).unwrap();
            proof {
                char_u32_cast(c, cp);
            }
        } else if !(i + 3 < n) || !cont_ok(input[i + 3]) {
            step = 3;
            c = REPLACEMENT;
        } else {
            let b1 = input[i + 1];
            let b2 = input[i + 2];
            let b3 = input[i + 3];
            let cp: u32 = (((b0 & 0x07) as u32) << 18) | (((b1 & 0x3f) as u32) << 12) | (((b2
                & 0x3f) as u32) << 6) | ((b3 & 0x3f) as u32);
            proof {
                assert(cp == codepoint_width_4(b0, b1, b2, b3));
                lemma_cp4_scalar(b0, b1, b2, b3);
            }
            step = 4;
            c = crate::strext::char_from_u32(cp).unwrap();
            proof {
                char_u32_cast(c, cp);
            }
        }
        proof {
            assert(rest.len() > 0);
            assert(rest[0] == b0);
            assert(spec_step_len(rest) == step);
            assert(spec_step_char(rest) == c);
            assert(rest.subrange(step as int, rest.len() as int) =~= input@.subrange(
                i + step,
                n as int,
            ));
        }
        crate::strext::push_char(&mut out, c);
        i += step;
        proof {
            assert(out@ + spec_utf8_lossy(input@.subrange(i as int, n as int)) =~= spec_utf8_lossy(
                input@,
            ));
        }
    }
    proof {
        assert(out@ =~= spec_utf8_lossy(input@));
    }
    out
}

/// A well-formed first scalar is consumed whole and decoded, never
/// replaced.
proof fn lemma_step_of_valid_first(s: Seq<u8>)
    requires
        s.len() > 0,
        valid_first_scalar(s),
    ensures
        spec_step_len(s) == length_of_first_scalar(s),
        spec_step_char(s) == decode_first_scalar(s) as char,
{
    let b0 = s[0];
    if is_leading_byte_width_1(b0) {
    } else if is_leading_byte_width_2(b0) {
        let b1 = s[1];
        assert(0xc2 <= b0) by {
            assert(0x80 <= ((((b0 & 0x1f) as u32) << 6) | ((b1 & 0x3f) as u32)) && 0xc0 <= b0
                <= 0xdf ==> 0xc2 <= b0) by (bit_vector);
        }
    } else if is_leading_byte_width_3(b0) {
        let b1 = s[1];
        let b2 = s[2];
        let cp = codepoint_width_3(b0, b1, b2);
        assert(spec_cont1_ok(b0, b1)) by {
            assert(0x800 <= ((((b0 & 0x0f) as u32) << 12) | (((b1 & 0x3f) as u32) << 6) | ((b2
                & 0x3f) as u32)) && !(0xd800 <= ((((b0 & 0x0f) as u32) << 12) | (((b1
                & 0x3f) as u32) << 6) | ((b2 & 0x3f) as u32)) <= 0xdfff) && 0xe0 <= b0 <= 0xef
                && 0x80 <= b1 <= 0xbf ==> ((b0 == 0xe0 ==> 0xa0 <= b1) && (b0 == 0xed ==> b1
                <= 0x9f))) by (bit_vector);
        }
    } else {
        let b1 = s[1];
        let b2 = s[2];
        let b3 = s[3];
        let cp = codepoint_width_4(b0, b1, b2, b3);
        assert(b0 <= 0xf4 && spec_cont1_ok(b0, b1)) by {
            assert(0x10000 <= ((((b0 & 0x07) as u32) << 18) | (((b1 & 0x3f) as u32) << 12) | (((b2
                & 0x3f) as u32) << 6) | ((b3 & 0x3f) as u32)) <= 0x10ffff && 0xf0 <= b0 <= 0xf7
                && 0x80 <= b1 <= 0xbf ==> (b0 <= 0xf4 && (b0 == 0xf0 ==> 0x90 <= b1) && (b0 == 0xf4
                ==> b1 <= 0x8f))) by (bit_vector);
        }
    }
}

/// Law: on well-formed UTF-8 input, lossy decoding is exactly UTF-8
/// decoding — no character is replaced or lost.
pub proof fn lemma_lossy_preserves_valid_text(bytes: Seq<u8>)
    requires
        valid_utf8(bytes),
    ensures
        spec_utf8_lossy(bytes) == decode_utf8(bytes),
    decreases bytes.len(),
{
    if bytes.len() == 0 {
        assert(spec_utf8_lossy(bytes) =~= decode_utf8(bytes));
    } else {
        lemma_step_of_valid_first(bytes);
        lemma_lossy_preserves_valid_text(pop_first_scalar(bytes));
        assert(spec_utf8_lossy(bytes) =~= decode_utf8(bytes));
    }
}

/// Law: lossy decoding reproduces any text from its UTF-8 encoding
/// (round trip; decoding is the identity on encoded text).
pub proof fn lemma_lossy_of_encoding(text: Seq<char>)
    ensures
        spec_utf8_lossy(encode_utf8(text)) == text,
{
    encode_utf8_valid_utf8(text);
    encode_utf8_decode_utf8(text);
    lemma_lossy_preserves_valid_text(encode_utf8(text));
}

} // verus!
