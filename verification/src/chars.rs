//! Character and coding utilities for the layout engine.
//!
//! UTF-8 encoding and decoding, display widths on the monospace grid,
//! case conversion, classification, and byte/character position
//! conversions on strings.

use vstd::prelude::*;
use vstd::string::StringSliceAdditionalSpecFns;
use vstd::string::StrSliceExecFns;
use vstd::utf8::*;

verus! {

broadcast use vstd::string::group_string_axioms;

/// Byte length of a UTF-8 sequence as determined by its first byte;
/// zero for a continuation byte or an invalid leading byte.
pub open spec fn spec_utf8_char_width(first_byte: u8) -> usize {
    if is_leading_byte_width_1(first_byte) {
        1usize
    } else if is_leading_byte_width_2(first_byte) {
        2usize
    } else if is_leading_byte_width_3(first_byte) {
        3usize
    } else if is_leading_byte_width_4(first_byte) {
        4usize
    } else {
        0usize
    }
}

/// Determine the UTF-8 byte length of a character from its first byte.
/// Returns 0 for invalid leading bytes (continuation bytes or 0xF8 and up).
pub fn utf8_char_width(first_byte: u8) -> (r: usize)
    ensures
        r == spec_utf8_char_width(first_byte),
{
    if first_byte <= 0x7F {
        1
    } else if 0xC0 <= first_byte && first_byte <= 0xDF {
        2
    } else if 0xE0 <= first_byte && first_byte <= 0xEF {
        3
    } else if 0xF0 <= first_byte && first_byte <= 0xF7 {
        4
    } else {
        0
    }
}

/// Return the number of UTF-8 bytes required to encode `ch`.
pub fn char_bytes(ch: char) -> (r: usize)
    ensures
        r == encode_scalar(ch as u32).len(),
{
    proof {
        char_is_scalar(ch);
    }
    let cp = ch as u32;
    if cp < 0x80 {
        1
    } else if cp < 0x800 {
        2
    } else if cp < 0x10000 {
        3
    } else {
        4
    }
}

/// Encode a single `char` into `out` as UTF-8, replacing its previous
/// contents. Returns the number of bytes written (1 to 4).
pub fn encode_utf8(ch: char, out: &mut Vec<u8>) -> (n: usize)
    ensures
        final(out)@ == encode_scalar(ch as u32),
        n == encode_scalar(ch as u32).len(),
        1 <= n <= 4,
{
    proof {
        char_is_scalar(ch);
    }
    let cp = ch as u32;
    out.clear();
    if cp < 0x80 {
        out.push((cp & 0x7F) as u8);
        proof {
            assert(out@ =~= encode_scalar(ch as u32));
        }
        1
    } else if cp < 0x800 {
        out.push(0xC0 | ((cp >> 6u32) & 0x1F) as u8);
        out.push(0x80 | (cp & 0x3F) as u8);
        proof {
            assert(out@ =~= encode_scalar(ch as u32));
        }
        2
    } else if cp < 0x10000 {
        out.push(0xE0 | ((cp >> 12u32) & 0x0F) as u8);
        out.push(0x80 | ((cp >> 6u32) & 0x3F) as u8);
        out.push(0x80 | (cp & 0x3F) as u8);
        proof {
            assert(out@ =~= encode_scalar(ch as u32));
        }
        3
    } else {
        out.push(0xF0 | ((cp >> 18u32) & 0x7) as u8);
        out.push(0x80 | ((cp >> 12u32) & 0x3F) as u8);
        out.push(0x80 | ((cp >> 6u32) & 0x3F) as u8);
        out.push(0x80 | (cp & 0x3F) as u8);
        proof {
            assert(out@ =~= encode_scalar(ch as u32));
        }
        4
    }
}

/// Relies on `char::from_u32` of std: for every value in the Unicode
/// scalar range it returns the character with exactly that scalar value.
#[verifier::external_body]
pub(crate) fn char_from_scalar(v: u32) -> (c: char)
    requires
        is_scalar(v),
    ensures
        c as u32 == v,
{
    char::from_u32(v).unwrap_or('\u{FFFD}')
}

/// The first `spec_utf8_char_width(bytes[0])` bytes of `bytes` are a
/// well-formed UTF-8 encoding of one Unicode scalar.
pub open spec fn spec_decodes_one_char(bytes: Seq<u8>) -> bool {
    let w = spec_utf8_char_width(bytes[0]) as int;
    bytes.len() > 0 && w > 0 && bytes.len() >= w && valid_first_scalar(bytes)
}

/// The character encoded at the front of a byte sequence.
pub open spec fn decode_utf8_spec_one(bytes: Seq<u8>) -> char {
    decode_first_scalar(bytes) as char
}

/// Decode a single UTF-8 character from the beginning of `bytes`.
/// Returns the character and the number of bytes it occupies, or `None`
/// when `bytes` is empty or does not start with a well-formed encoding.
pub fn decode_utf8(bytes: &[u8]) -> (r: Option<(char, usize)>)
    ensures
        r is Some <==> spec_decodes_one_char(bytes@),
        r matches Some((c, n)) ==> {
            &&& c == decode_utf8_spec_one(bytes@)
            &&& c as u32 == decode_first_scalar(bytes@)
            &&& n == length_of_first_scalar(bytes@)
            &&& 1 <= n <= 4
            &&& n <= bytes@.len()
            &&& encode_scalar(c as u32) == bytes@.subrange(0, n as int)
        },
{
    if bytes.len() == 0 {
        return None;
    }
    let b0 = bytes[0];
    let width = utf8_char_width(b0);
    if width == 0 || bytes.len() < width {
        return None;
    }
    if width == 1 {
        let c = char_from_scalar(b0 as u32);
        proof {
            assert(((b0 as u32) & 0x7F) as u8 == b0) by (bit_vector)
                requires
                    b0 <= 0x7F,
            ;
            assert(bytes@.subrange(0, 1) =~= encode_scalar(c as u32));
        }
        Some((c, 1))
    } else if width == 2 {
        let b1 = bytes[1];
        if !(0x80 <= b1 && b1 <= 0xBF) {
            return None;
        }
        let cp: u32 = (((b0 & 0x1F) as u32) << 6u32) | ((b1 & 0x3F) as u32);
        proof {
            lemma_decode2(b0, b1, cp);
        }
        if cp < 0x80 {
            return None;
        }
        let c = char_from_scalar(cp);
        proof {
            assert(bytes@.subrange(0, 2) =~= encode_scalar(c as u32));
        }
        Some((c, 2))
    } else if width == 3 {
        let b1 = bytes[1];
        let b2 = bytes[2];
        if !(0x80 <= b1 && b1 <= 0xBF) || !(0x80 <= b2 && b2 <= 0xBF) {
            return None;
        }
        let cp: u32 = (((b0 & 0x0F) as u32) << 12u32) | (((b1 & 0x3F) as u32) << 6u32) | ((b2
            & 0x3F) as u32);
        proof {
            lemma_decode3(b0, b1, b2, cp);
        }
        if cp < 0x800 || (0xD800 <= cp && cp <= 0xDFFF) {
            return None;
        }
        let c = char_from_scalar(cp);
        proof {
            assert(bytes@.subrange(0, 3) =~= encode_scalar(c as u32));
        }
        Some((c, 3))
    } else {
        let b1 = bytes[1];
        let b2 = bytes[2];
        let b3 = bytes[3];
        if !(0x80 <= b1 && b1 <= 0xBF) || !(0x80 <= b2 && b2 <= 0xBF) || !(0x80 <= b3 && b3
            <= 0xBF) {
            return None;
        }
        let cp: u32 = (((b0 & 0x07) as u32) << 18u32) | (((b1 & 0x3F) as u32) << 12u32) | (((b2
            & 0x3F) as u32) << 6u32) | ((b3 & 0x3F) as u32);
        proof {
            lemma_decode4(b0, b1, b2, b3, cp);
        }
        if cp < 0x10000 || cp > 0x10FFFF {
            return None;
        }
        let c = char_from_scalar(cp);
        proof {
            assert(bytes@.subrange(0, 4) =~= encode_scalar(c as u32));
        }
        Some((c, 4))
    }
}

proof fn lemma_decode2(b0: u8, b1: u8, cp: u32)
    by (bit_vector)
    requires
        0xC0 <= b0 <= 0xDF,
        0x80 <= b1 <= 0xBF,
        cp == (((b0 & 0x1F) as u32) << 6u32) | ((b1 & 0x3F) as u32),
    ensures
        cp == (((b0 & 0x1F) as u32) << 6) | ((b1 & 0x3F) as u32),
        cp <= 0x7FF,
        0xC0 | (((cp >> 6) & 0x1F) as u8) == b0,
        0x80 | ((cp & 0x3F) as u8) == b1,
{
}

proof fn lemma_decode3(b0: u8, b1: u8, b2: u8, cp: u32)
    by (bit_vector)
    requires
        0xE0 <= b0 <= 0xEF,
        0x80 <= b1 <= 0xBF,
        0x80 <= b2 <= 0xBF,
        cp == (((b0 & 0x0F) as u32) << 12u32) | (((b1 & 0x3F) as u32) << 6u32) | ((b2
            & 0x3F) as u32),
    ensures
        cp == (((b0 & 0x0F) as u32) << 12) | (((b1 & 0x3F) as u32) << 6) | ((b2 & 0x3F) as u32),
        cp <= 0xFFFF,
        0xE0 | (((cp >> 12) & 0x0F) as u8) == b0,
        0x80 | (((cp >> 6) & 0x3F) as u8) == b1,
        0x80 | ((cp & 0x3F) as u8) == b2,
{
}

proof fn lemma_decode4(b0: u8, b1: u8, b2: u8, b3: u8, cp: u32)
    by (bit_vector)
    requires
        0xF0 <= b0 <= 0xF7,
        0x80 <= b1 <= 0xBF,
        0x80 <= b2 <= 0xBF,
        0x80 <= b3 <= 0xBF,
        cp == (((b0 & 0x07) as u32) << 18u32) | (((b1 & 0x3F) as u32) << 12u32) | (((b2
            & 0x3F) as u32) << 6u32) | ((b3 & 0x3F) as u32),
    ensures
        cp == (((b0 & 0x07) as u32) << 18) | (((b1 & 0x3F) as u32) << 12) | (((b2
            & 0x3F) as u32) << 6) | ((b3 & 0x3F) as u32),
        cp <= 0x1FFFFF,
        0xF0 | (((cp >> 18) & 0x7) as u8) == b0,
        0x80 | (((cp >> 12) & 0x3F) as u8) == b1,
        0x80 | (((cp >> 6) & 0x3F) as u8) == b2,
        0x80 | ((cp & 0x3F) as u8) == b3,
{
}

/// Encoding a character and decoding the result yields the character
/// back, and the decoder consumes exactly the bytes the encoder wrote.
pub proof fn lemma_utf8_round_trip(c: char)
    ensures
        valid_utf8(encode_scalar(c as u32)),
        spec_decodes_one_char(encode_scalar(c as u32)),
        decode_utf8_spec_one(encode_scalar(c as u32)) == c,
        length_of_first_scalar(encode_scalar(c as u32)) == encode_scalar(c as u32).len(),
{
    char_is_scalar(c);
    let chars = seq![c];
    assert(vstd::utf8::encode_utf8(chars) =~= encode_scalar(c as u32)) by {
        assert(chars.drop_first() =~= Seq::<char>::empty());
        assert(vstd::utf8::encode_utf8(Seq::<char>::empty()) =~= Seq::<u8>::empty());
        assert(chars[0] == c);
    }
    encode_utf8_first_scalar(chars);
    encode_utf8_valid_utf8(chars);
    char_u32_cast(c, decode_first_scalar(encode_scalar(c as u32)));
    lemma_scalar_leading_width(c as u32);
}

proof fn lemma_scalar_leading_width(v: u32)
    by (bit_vector)
    requires
        v <= 0x10FFFF,
    ensures
        0x80 <= v <= 0x7FF ==> 0xC0 <= (0xC0 | (((v >> 6) & 0x1F) as u8)) <= 0xDF,
        0x800 <= v <= 0xFFFF ==> 0xE0 <= (0xE0 | (((v >> 12) & 0x0F) as u8)) <= 0xEF,
        0x10000 <= v ==> 0xF0 <= (0xF0 | (((v >> 18) & 0x7) as u8)) <= 0xF7,
{
}

/// The codepoint lies in a Wide or Fullwidth East Asian Width range.
pub open spec fn spec_is_wide(cp: u32) -> bool {
    ||| 0x1100 <= cp <= 0x115F
    ||| 0x2329 <= cp <= 0x232A
    ||| 0x2E80 <= cp <= 0x303E
    ||| 0x3040 <= cp <= 0x33FF
    ||| 0x3400 <= cp <= 0x4DBF
    ||| 0x4E00 <= cp <= 0x9FFF
    ||| 0xAC00 <= cp <= 0xD7A3
    ||| 0xF900 <= cp <= 0xFAFF
    ||| 0xFE10 <= cp <= 0xFE19
    ||| 0xFE30 <= cp <= 0xFE6F
    ||| 0xFF01 <= cp <= 0xFF60
    ||| 0xFFE0 <= cp <= 0xFFE6
    ||| 0x20000 <= cp <= 0x2FFFF
    ||| 0x30000 <= cp <= 0x3FFFF
}

/// Check whether a codepoint takes two columns on the grid (Wide or
/// Fullwidth East Asian Width).
pub fn is_wide_char(cp: u32) -> (r: bool)
    ensures
        r == spec_is_wide(cp),
{
    (0x1100 <= cp && cp <= 0x115F) || (0x2329 <= cp && cp <= 0x232A) || (0x2E80 <= cp && cp
        <= 0x303E) || (0x3040 <= cp && cp <= 0x33FF) || (0x3400 <= cp && cp <= 0x4DBF) || (0x4E00
        <= cp && cp <= 0x9FFF) || (0xAC00 <= cp && cp <= 0xD7A3) || (0xF900 <= cp && cp <= 0xFAFF)
        || (0xFE10 <= cp && cp <= 0xFE19) || (0xFE30 <= cp && cp <= 0xFE6F) || (0xFF01 <= cp && cp
        <= 0xFF60) || (0xFFE0 <= cp && cp <= 0xFFE6) || (0x20000 <= cp && cp <= 0x2FFFF) || (
    0x30000 <= cp && cp <= 0x3FFFF)
}

/// The codepoint is a combining mark (general categories Mn, Mc, Me).
pub open spec fn spec_is_combining(cp: u32) -> bool {
    ||| 0x0300 <= cp <= 0x036F
    ||| 0x1AB0 <= cp <= 0x1AFF
    ||| 0x1DC0 <= cp <= 0x1DFF
    ||| 0x20D0 <= cp <= 0x20FF
    ||| 0xFE20 <= cp <= 0xFE2F
    ||| 0x0591 <= cp <= 0x05BD
    ||| cp == 0x05BF
    ||| 0x05C1 <= cp <= 0x05C2
    ||| 0x05C4 <= cp <= 0x05C5
    ||| cp == 0x05C7
    ||| 0x0610 <= cp <= 0x061A
    ||| 0x064B <= cp <= 0x065F
    ||| cp == 0x0670
    ||| 0x06D6 <= cp <= 0x06DC
    ||| 0x06DF <= cp <= 0x06E4
    ||| 0x06E7 <= cp <= 0x06E8
    ||| 0x06EA <= cp <= 0x06ED
    ||| 0x0900 <= cp <= 0x0903
    ||| 0x093A <= cp <= 0x094F
    ||| 0x0951 <= cp <= 0x0957
    ||| 0x0962 <= cp <= 0x0963
    ||| cp == 0x0E31
    ||| 0x0E34 <= cp <= 0x0E3A
    ||| 0x0E47 <= cp <= 0x0E4E
    ||| 0x1160 <= cp <= 0x11FF
    ||| 0xFE00 <= cp <= 0xFE0F
    ||| 0xE0100 <= cp <= 0xE01EF
}

/// Return `true` if `ch` is a Unicode combining mark (the Mn, Mc and Me
/// ranges the layout engine recognizes).
pub fn is_combining_mark(ch: char) -> (r: bool)
    ensures
        r == spec_is_combining(ch as u32),
{
    let cp = ch as u32;
    (0x0300 <= cp && cp <= 0x036F) || (0x1AB0 <= cp && cp <= 0x1AFF) || (0x1DC0 <= cp && cp
        <= 0x1DFF) || (0x20D0 <= cp && cp <= 0x20FF) || (0xFE20 <= cp && cp <= 0xFE2F) || (0x0591
        <= cp && cp <= 0x05BD) || cp == 0x05BF || (0x05C1 <= cp && cp <= 0x05C2) || (0x05C4 <= cp
        && cp <= 0x05C5) || cp == 0x05C7 || (0x0610 <= cp && cp <= 0x061A) || (0x064B <= cp && cp
        <= 0x065F) || cp == 0x0670 || (0x06D6 <= cp && cp <= 0x06DC) || (0x06DF <= cp && cp
        <= 0x06E4) || (0x06E7 <= cp && cp <= 0x06E8) || (0x06EA <= cp && cp <= 0x06ED) || (0x0900
        <= cp && cp <= 0x0903) || (0x093A <= cp && cp <= 0x094F) || (0x0951 <= cp && cp <= 0x0957)
        || (0x0962 <= cp && cp <= 0x0963) || cp == 0x0E31 || (0x0E34 <= cp && cp <= 0x0E3A) || (
    0x0E47 <= cp && cp <= 0x0E4E) || (0x1160 <= cp && cp <= 0x11FF) || (0xFE00 <= cp && cp
        <= 0xFE0F) || (0xE0100 <= cp && cp <= 0xE01EF)
}

/// The codepoint is one of the zero-width format characters the layout
/// engine treats as invisible.
pub open spec fn spec_is_zero_width_format(cp: u32) -> bool {
    cp == 0x200B || cp == 0x200C || cp == 0x200D || cp == 0x2060 || cp == 0xFEFF
}

/// The codepoint is a control character (C0, DEL, or C1).
pub open spec fn spec_is_control(cp: u32) -> bool {
    cp < 0x20 || cp == 0x7F || (0x80 <= cp <= 0x9F)
}

/// Return `true` if `ch` is a control character (C0, DEL, or C1).
pub fn is_control(ch: char) -> (r: bool)
    ensures
        r == spec_is_control(ch as u32),
{
    let cp = ch as u32;
    cp < 0x20 || cp == 0x7F || (0x80 <= cp && cp <= 0x9F)
}

/// Display width of a character in grid columns: C0 controls and DEL take
/// no column, combining marks and zero-width formats take none, wide East
/// Asian characters take two, everything else takes one.
pub open spec fn spec_char_display_width(c: char) -> usize {
    let cp = c as u32;
    if cp < 0x20 || cp == 0x7F {
        0usize
    } else if cp < 0x80 {
        1usize
    } else if spec_is_combining(cp) {
        0usize
    } else if cp == 0x00AD {
        1usize
    } else if spec_is_zero_width_format(cp) {
        0usize
    } else if spec_is_wide(cp) {
        2usize
    } else {
        1usize
    }
}

/// Return the display width in grid columns of `ch`.
pub fn char_display_width(ch: char) -> (r: usize)
    ensures
        r == spec_char_display_width(ch),
{
    let cp = ch as u32;
    if cp < 0x80 {
        if cp < 0x20 || cp == 0x7F {
            return 0;
        }
        return 1;
    }
    if is_combining_mark(ch) {
        return 0;
    }
    if cp == 0x00AD {
        return 1;
    }
    if cp == 0x200B || cp == 0x200C || cp == 0x200D || cp == 0x2060 || cp == 0xFEFF {
        return 0;
    }
    if is_wide_char(cp) {
        return 2;
    }
    1
}

/// Every character is 0, 1 or 2 columns wide, and 0 columns only for
/// combining marks, the zero-width format characters, and C0 controls
/// or DEL.
pub proof fn lemma_display_width_range(c: char)
    ensures
        spec_char_display_width(c) <= 2,
        spec_char_display_width(c) == 0 <==> (spec_is_combining(c as u32)
            || spec_is_zero_width_format(c as u32) || (c as u32) < 0x20 || c as u32 == 0x7F),
{
}

/// Sum of the display widths of a character sequence.
pub open spec fn spec_string_width(chars: Seq<char>) -> nat
    decreases chars.len(),
{
    if chars.len() == 0 {
        0nat
    } else {
        (spec_char_display_width(chars[0]) + spec_string_width(chars.drop_first())) as nat
    }
}

/// Splitting a character sequence splits its display width.
pub proof fn lemma_string_width_concat(a: Seq<char>, b: Seq<char>)
    ensures
        spec_string_width(a + b) == spec_string_width(a) + spec_string_width(b),
    decreases a.len(),
{
    if a.len() == 0 {
        assert(a + b =~= b);
    } else {
        assert((a + b).drop_first() =~= a.drop_first() + b);
        lemma_string_width_concat(a.drop_first(), b);
    }
}

/// Total display width of a string in grid columns.
pub fn string_display_width(s: &str) -> (r: usize)
    requires
        spec_string_width(s@) <= usize::MAX,
    ensures
        r == spec_string_width(s@),
{
    let n = s.unicode_len();
    let mut total: usize = 0;
    let mut i: usize = 0;
    while i < n
        invariant
            i <= n,
            n == s@.len(),
            total == spec_string_width(s@.take(i as int)),
            spec_string_width(s@) <= usize::MAX,
        decreases n - i,
    {
        let c = s.get_char(i);
        let w = char_display_width(c);
        proof {
            assert(s@.take(i as int + 1) =~= s@.take(i as int) + seq![s@[i as int]]);
            lemma_string_width_concat(s@.take(i as int), seq![s@[i as int]]);
            assert(spec_string_width(seq![s@[i as int]]) == spec_char_display_width(s@[i as int]))
                by {
                assert(seq![s@[i as int]].drop_first() =~= Seq::<char>::empty());
                assert(spec_string_width(Seq::<char>::empty()) == 0);
            }
            assert(s@.take(n as int) =~= s@.take(i as int + 1) + s@.skip(i as int + 1));
            lemma_string_width_concat(s@.take(i as int + 1), s@.skip(i as int + 1));
            assert(s@.take(n as int) =~= s@);
        }
        total = total + w;
        i = i + 1;
    }
    proof {
        assert(s@.take(n as int) =~= s@);
    }
    total
}

// ---------------------------------------------------------------------------
// Case conversion
// ---------------------------------------------------------------------------

/// First character of the Unicode uppercase mapping of a character.
pub uninterp spec fn upcase_of(c: char) -> char;

/// First character of the Unicode lowercase mapping of a character.
pub uninterp spec fn downcase_of(c: char) -> char;

/// Unicode uppercase mapping of a whole character sequence.
pub uninterp spec fn upcase_str_of(s: Seq<char>) -> Seq<char>;

/// Unicode lowercase mapping of a whole character sequence.
pub uninterp spec fn downcase_str_of(s: Seq<char>) -> Seq<char>;

/// The character has the Unicode property Uppercase.
pub uninterp spec fn unicode_uppercase(c: char) -> bool;

/// The character has the Unicode property Lowercase.
pub uninterp spec fn unicode_lowercase(c: char) -> bool;

/// The character has the Unicode property Alphabetic.
pub uninterp spec fn unicode_alphabetic(c: char) -> bool;

/// The character is Unicode alphabetic or numeric.
pub uninterp spec fn unicode_alphanumeric(c: char) -> bool;

/// The character has a Unicode numeric general category (Nd, Nl, No).
pub uninterp spec fn unicode_numeric(c: char) -> bool;

/// The character has the Unicode property White_Space.
pub uninterp spec fn unicode_white_space(c: char) -> bool;

/// Relies on `char::to_uppercase` of std: the Unicode uppercase mapping
/// of the character, depending on the character alone. `next` and
/// `unwrap_or` take the first mapped character out of the iterator;
/// multi-character mappings keep only their first character.
#[verifier::external_body]
fn std_char_upcase(c: char) -> (r: char)
    ensures
        r == upcase_of(c),
{
    c.to_uppercase().next().unwrap_or(c)
}

/// Relies on `char::to_lowercase` of std: the Unicode lowercase mapping,
/// first character only, as with the uppercase wrapper.
#[verifier::external_body]
fn std_char_downcase(c: char) -> (r: char)
    ensures
        r == downcase_of(c),
{
    c.to_lowercase().next().unwrap_or(c)
}

/// Relies on `str::to_uppercase` of std: the Unicode uppercase mapping
/// of the string, a function of its characters alone.
#[verifier::external_body]
fn std_str_upcase(s: &str) -> (r: String)
    ensures
        r@ == upcase_str_of(s@),
{
    s.to_uppercase()
}

/// Relies on `str::to_lowercase` of std: the Unicode lowercase mapping
/// of the string, a function of its characters alone.
#[verifier::external_body]
fn std_str_downcase(s: &str) -> (r: String)
    ensures
        r@ == downcase_str_of(s@),
{
    s.to_lowercase()
}

/// Relies on `char::is_uppercase` of std: whether the character has the
/// Unicode property Uppercase.
#[verifier::external_body]
fn std_char_is_uppercase(c: char) -> (r: bool)
    ensures
        r == unicode_uppercase(c),
{
    c.is_uppercase()
}

/// Relies on `char::is_lowercase` of std: whether the character has the
/// Unicode property Lowercase.
#[verifier::external_body]
fn std_char_is_lowercase(c: char) -> (r: bool)
    ensures
        r == unicode_lowercase(c),
{
    c.is_lowercase()
}

/// Relies on `char::is_alphabetic` of std: whether the character has the
/// Unicode property Alphabetic.
#[verifier::external_body]
fn std_char_is_alphabetic(c: char) -> (r: bool)
    ensures
        r == unicode_alphabetic(c),
{
    c.is_alphabetic()
}

/// Relies on `char::is_alphanumeric` of std: whether the character is
/// Unicode alphabetic or numeric.
#[verifier::external_body]
fn std_char_is_alphanumeric(c: char) -> (r: bool)
    ensures
        r == unicode_alphanumeric(c),
{
    c.is_alphanumeric()
}

/// Relies on `char::is_numeric` of std: whether the character has a
/// Unicode numeric general category.
#[verifier::external_body]
fn std_char_is_numeric(c: char) -> (r: bool)
    ensures
        r == unicode_numeric(c),
{
    c.is_numeric()
}

/// Relies on `char::is_whitespace` of std: whether the character has the
/// Unicode property White_Space.
#[verifier::external_body]
fn std_char_is_whitespace(c: char) -> (r: bool)
    ensures
        r == unicode_white_space(c),
{
    c.is_whitespace()
}

/// Convert a character to its uppercase equivalent. For characters whose
/// uppercase mapping has several codepoints, only the first is returned.
pub fn char_upcase(ch: char) -> (r: char)
    ensures
        r == upcase_of(ch),
{
    std_char_upcase(ch)
}

/// Convert a character to its lowercase equivalent.
pub fn char_downcase(ch: char) -> (r: char)
    ensures
        r == downcase_of(ch),
{
    std_char_downcase(ch)
}

/// Convert a character to its titlecase equivalent. Distinct titlecase
/// forms are not exposed by std, so the uppercase mapping stands in.
pub fn char_titlecase(ch: char) -> (r: char)
    ensures
        r == upcase_of(ch),
{
    char_upcase(ch)
}

/// Return `true` if the character is an uppercase letter.
pub fn is_upper(ch: char) -> (r: bool)
    ensures
        r == unicode_uppercase(ch),
{
    std_char_is_uppercase(ch)
}

/// Return `true` if the character is a lowercase letter.
pub fn is_lower(ch: char) -> (r: bool)
    ensures
        r == unicode_lowercase(ch),
{
    std_char_is_lowercase(ch)
}

/// Convert an entire string to uppercase.
pub fn string_upcase(s: &str) -> (r: String)
    ensures
        r@ == upcase_str_of(s@),
{
    std_str_upcase(s)
}

/// Convert an entire string to lowercase.
pub fn string_downcase(s: &str) -> (r: String)
    ensures
        r@ == downcase_str_of(s@),
{
    std_str_downcase(s)
}

// ---------------------------------------------------------------------------
// Classification
// ---------------------------------------------------------------------------

/// Return `true` if `ch` is an ASCII decimal digit.
pub fn is_ascii_digit(ch: char) -> (r: bool)
    ensures
        r == ('0' <= ch <= '9'),
{
    '0' <= ch && ch <= '9'
}

/// Return `true` if `ch` is an ASCII letter.
pub fn is_ascii_alpha(ch: char) -> (r: bool)
    ensures
        r == ('a' <= ch <= 'z' || 'A' <= ch <= 'Z'),
{
    ('a' <= ch && ch <= 'z') || ('A' <= ch && ch <= 'Z')
}

/// Return `true` if `ch` is an ASCII letter or digit.
pub fn is_ascii_alnum(ch: char) -> (r: bool)
    ensures
        r == ('a' <= ch <= 'z' || 'A' <= ch <= 'Z' || '0' <= ch <= '9'),
{
    ('a' <= ch && ch <= 'z') || ('A' <= ch && ch <= 'Z') || ('0' <= ch && ch <= '9')
}

/// The five whitespace characters the editor recognizes: space, tab,
/// newline, form feed, carriage return.
pub open spec fn spec_is_editor_whitespace(c: char) -> bool {
    c == ' ' || c == '\t' || c == '\n' || c == '\u{0C}' || c == '\r'
}

/// Return `true` if `ch` is one of the editor's whitespace characters.
pub fn is_whitespace(ch: char) -> (r: bool)
    ensures
        r == spec_is_editor_whitespace(ch),
{
    ch == ' ' || ch == '\t' || ch == '\n' || ch == '\u{0C}' || ch == '\r'
}

/// Return `true` if `ch` is a word constituent: Unicode alphanumeric or
/// an underscore.
pub fn is_word_char(ch: char) -> (r: bool)
    ensures
        r == (unicode_alphanumeric(ch) || ch == '_'),
{
    std_char_is_alphanumeric(ch) || ch == '_'
}

/// The character has a visible glyph: not a control character and not a
/// Unicode noncharacter.
pub open spec fn spec_is_printable(cp: u32) -> bool {
    &&& !(cp < 0x20 || cp == 0x7F)
    &&& !(0x80 <= cp <= 0x9F)
    &&& !(0xFDD0 <= cp <= 0xFDEF)
    &&& !(cp & 0xFFFE == 0xFFFE && cp <= 0x10FFFF)
}

/// Return `true` if `ch` is a printable character: control characters
/// and noncharacters are excluded.
pub fn is_printable(ch: char) -> (r: bool)
    ensures
        r == spec_is_printable(ch as u32),
{
    let cp = ch as u32;
    if cp < 0x20 || cp == 0x7F {
        return false;
    }
    if 0x80 <= cp && cp <= 0x9F {
        return false;
    }
    if 0xFDD0 <= cp && cp <= 0xFDEF {
        return false;
    }
    if cp & 0xFFFE == 0xFFFE && cp <= 0x10FFFF {
        return false;
    }
    true
}

/// Simplified Unicode general category.
#[derive(Debug, Clone, Copy, PartialEq, Eq, Structural)]
pub enum GeneralCategory {
    /// Letters (Lu, Ll, Lt, Lm, Lo)
    Letter,
    /// Marks (Mn, Mc, Me)
    Mark,
    /// Numbers (Nd, Nl, No)
    Number,
    /// Punctuation (Pc, Pd, Ps, Pe, Pi, Pf, Po)
    Punct,
    /// Symbols (Sm, Sc, Sk, So)
    Symbol,
    /// Separators (Zs, Zl, Zp)
    Separator,
    /// Other (Cc, Cf, Cs, Co, Cn)
    Other,
}

/// ASCII symbol characters, as the category heuristic separates them
/// from punctuation.
pub open spec fn spec_ascii_symbol(c: char) -> bool {
    c == '+' || c == '<' || c == '=' || c == '>' || c == '|' || c == '~' || c == '^' || c == '$'
}

/// ASCII characters in the punctuation-or-symbol blocks.
pub open spec fn spec_ascii_punct_or_symbol(c: char) -> bool {
    ('!' <= c <= '/') || (':' <= c <= '@') || ('[' <= c <= '`') || ('{' <= c <= '~')
}

/// The codepoint lies in one of the symbol blocks the heuristic knows.
pub open spec fn spec_symbol_block(cp: u32) -> bool {
    ||| 0x00A2 <= cp <= 0x00A9
    ||| 0x00AC <= cp <= 0x00AE
    ||| cp == 0x00B0
    ||| cp == 0x00B1
    ||| cp == 0x00D7
    ||| cp == 0x00F7
    ||| 0x2100 <= cp <= 0x214F
    ||| 0x2190 <= cp <= 0x21FF
    ||| 0x2200 <= cp <= 0x22FF
    ||| 0x2300 <= cp <= 0x23FF
    ||| 0x2500 <= cp <= 0x257F
    ||| 0x2580 <= cp <= 0x259F
    ||| 0x25A0 <= cp <= 0x25FF
    ||| 0x2600 <= cp <= 0x26FF
    ||| 0x2700 <= cp <= 0x27BF
    ||| 0x2900 <= cp <= 0x297F
    ||| 0x2980 <= cp <= 0x29FF
    ||| 0x2A00 <= cp <= 0x2AFF
    ||| 0x1F000 <= cp <= 0x1FFFF
}

/// The codepoint lies in one of the punctuation blocks the heuristic
/// knows.
pub open spec fn spec_punct_block(cp: u32) -> bool {
    ||| 0x2000 <= cp <= 0x206F
    ||| 0x3000 <= cp <= 0x303F
    ||| 0xFE30 <= cp <= 0xFE4F
    ||| 0xFE50 <= cp <= 0xFE6F
    ||| 0xFF01 <= cp <= 0xFF0F
    ||| 0xFF1A <= cp <= 0xFF20
    ||| 0xFF3B <= cp <= 0xFF40
    ||| 0xFF5B <= cp <= 0xFF65
}

/// Simplified general category of a character: controls and combining
/// marks first, then the ASCII fast path, then the Unicode properties,
/// then the block heuristics.
pub open spec fn spec_general_category(c: char) -> GeneralCategory {
    let cp = c as u32;
    if spec_is_control(cp) {
        GeneralCategory::Other
    } else if spec_is_combining(cp) {
        GeneralCategory::Mark
    } else if cp < 0x80 {
        if '0' <= c <= '9' {
            GeneralCategory::Number
        } else if ('A' <= c <= 'Z') || ('a' <= c <= 'z') {
            GeneralCategory::Letter
        } else if c == ' ' {
            GeneralCategory::Separator
        } else if spec_ascii_punct_or_symbol(c) {
            if spec_ascii_symbol(c) {
                GeneralCategory::Symbol
            } else {
                GeneralCategory::Punct
            }
        } else {
            GeneralCategory::Other
        }
    } else if unicode_alphabetic(c) {
        GeneralCategory::Letter
    } else if unicode_numeric(c) {
        GeneralCategory::Number
    } else if unicode_white_space(c) {
        GeneralCategory::Separator
    } else if spec_symbol_block(cp) {
        GeneralCategory::Symbol
    } else if spec_punct_block(cp) {
        GeneralCategory::Punct
    } else {
        GeneralCategory::Other
    }
}

/// Return the simplified Unicode general category of `ch`, from range
/// heuristics plus the alphabetic, numeric and whitespace properties.
pub fn general_category(ch: char) -> (r: GeneralCategory)
    ensures
        r == spec_general_category(ch),
{
    let cp = ch as u32;
    if cp < 0x20 || cp == 0x7F || (0x80 <= cp && cp <= 0x9F) {
        return GeneralCategory::Other;
    }
    if is_combining_mark(ch) {
        return GeneralCategory::Mark;
    }
    if cp < 0x80 {
        if '0' <= ch && ch <= '9' {
            return GeneralCategory::Number;
        }
        if ('A' <= ch && ch <= 'Z') || ('a' <= ch && ch <= 'z') {
            return GeneralCategory::Letter;
        }
        if ch == ' ' {
            return GeneralCategory::Separator;
        }
        if ('!' <= ch && ch <= '/') || (':' <= ch && ch <= '@') || ('[' <= ch && ch <= '`') || ('{'
            <= ch && ch <= '~') {
            if ch == '+' || ch == '<' || ch == '=' || ch == '>' || ch == '|' || ch == '~' || ch
                == '^' || ch == '$' {
                return GeneralCategory::Symbol;
            }
            return GeneralCategory::Punct;
        }
        return GeneralCategory::Other;
    }
    if std_char_is_alphabetic(ch) {
        return GeneralCategory::Letter;
    }
    if std_char_is_numeric(ch) {
        return GeneralCategory::Number;
    }
    if std_char_is_whitespace(ch) {
        return GeneralCategory::Separator;
    }
    if is_symbol_block(cp) {
        return GeneralCategory::Symbol;
    }
    if is_punct_block(cp) {
        return GeneralCategory::Punct;
    }
    GeneralCategory::Other
}

fn is_symbol_block(cp: u32) -> (r: bool)
    ensures
        r == spec_symbol_block(cp),
{
    (0x00A2 <= cp && cp <= 0x00A9) || (0x00AC <= cp && cp <= 0x00AE) || cp == 0x00B0 || cp == 0x00B1
        || cp == 0x00D7 || cp == 0x00F7 || (0x2100 <= cp && cp <= 0x214F) || (0x2190 <= cp && cp
        <= 0x21FF) || (0x2200 <= cp && cp <= 0x22FF) || (0x2300 <= cp && cp <= 0x23FF) || (0x2500
        <= cp && cp <= 0x257F) || (0x2580 <= cp && cp <= 0x259F) || (0x25A0 <= cp && cp <= 0x25FF)
        || (0x2600 <= cp && cp <= 0x26FF) || (0x2700 <= cp && cp <= 0x27BF) || (0x2900 <= cp && cp
        <= 0x297F) || (0x2980 <= cp && cp <= 0x29FF) || (0x2A00 <= cp && cp <= 0x2AFF) || (0x1F000
        <= cp && cp <= 0x1FFFF)
}

fn is_punct_block(cp: u32) -> (r: bool)
    ensures
        r == spec_punct_block(cp),
{
    (0x2000 <= cp && cp <= 0x206F) || (0x3000 <= cp && cp <= 0x303F) || (0xFE30 <= cp && cp
        <= 0xFE4F) || (0xFE50 <= cp && cp <= 0xFE6F) || (0xFF01 <= cp && cp <= 0xFF0F) || (0xFF1A
        <= cp && cp <= 0xFF20) || (0xFF3B <= cp && cp <= 0xFF40) || (0xFF5B <= cp && cp <= 0xFF65)
}

// ---------------------------------------------------------------------------
// Byte and character positions
// ---------------------------------------------------------------------------

/// Splitting a character sequence splits its UTF-8 encoding.
pub proof fn lemma_encode_utf8_concat(a: Seq<char>, b: Seq<char>)
    ensures
        vstd::utf8::encode_utf8(a + b) == vstd::utf8::encode_utf8(a) + vstd::utf8::encode_utf8(b),
    decreases a.len(),
{
    if a.len() == 0 {
        assert(a + b =~= b);
        assert(vstd::utf8::encode_utf8(a) =~= Seq::<u8>::empty());
        assert(vstd::utf8::encode_utf8(a) + vstd::utf8::encode_utf8(b) =~= vstd::utf8::encode_utf8(
            b,
        ));
    } else {
        assert((a + b).drop_first() =~= a.drop_first() + b);
        lemma_encode_utf8_concat(a.drop_first(), b);
        assert(vstd::utf8::encode_utf8(a + b) =~= vstd::utf8::encode_utf8(a)
            + vstd::utf8::encode_utf8(b));
    }
}

/// Count the number of Unicode scalar values (characters) in `s`.
pub fn string_char_count(s: &str) -> (r: usize)
    ensures
        r == s@.len(),
{
    s.unicode_len()
}

/// Convert a byte index in `s` to a character index: the number of
/// characters encoded before that byte. The byte index must lie on a
/// character boundary.
pub fn byte_to_char_pos(s: &str, byte_pos: usize) -> (r: usize)
    requires
        byte_pos <= s.spec_bytes().len(),
        is_char_boundary(s.spec_bytes(), byte_pos as int),
    ensures
        r == vstd::utf8::decode_utf8(s.spec_bytes().subrange(0, byte_pos as int)).len(),
        r <= s@.len(),
        vstd::utf8::encode_utf8(s@.subrange(0, r as int)).len() == byte_pos,
        s@.subrange(0, r as int) == vstd::utf8::decode_utf8(s.spec_bytes().subrange(0, byte_pos as int)),
    decreases 0int,
{
    let ghost bytes = s.spec_bytes();
    proof {
        encode_utf8_valid_utf8(s@);
    }
    let (left, _) = s.split_at(byte_pos);
    let r = left.unicode_len();
    proof {
        let prefix = bytes.subrange(0, byte_pos as int);
        assert(left.spec_bytes() =~= prefix);
        // The view of the left half is the decoding of the byte prefix.
        encode_utf8_decode_utf8(left@);
        // Relate the left half's view to a prefix of the whole view.
        decode_utf8_split(bytes, byte_pos as int);
        valid_utf8_split(bytes, byte_pos as int);
        decode_utf8_encode_utf8(prefix);
        encode_utf8_decode_utf8(s@);
        assert(s@ == vstd::utf8::decode_utf8(prefix) + vstd::utf8::decode_utf8(
            bytes.subrange(byte_pos as int, bytes.len() as int),
        ));
        assert(s@.subrange(0, r as int) =~= vstd::utf8::decode_utf8(prefix));
    }
    r
}

/// Convert a character index in `s` to a byte index: the length in bytes
/// of the encoding of the first `char_pos` characters.
pub fn char_to_byte_pos(s: &str, char_pos: usize) -> (r: usize)
    requires
        char_pos <= s@.len(),
        s.spec_bytes().len() <= usize::MAX,
    ensures
        r == vstd::utf8::encode_utf8(s@.subrange(0, char_pos as int)).len(),
        r <= s.spec_bytes().len(),
        is_char_boundary(s.spec_bytes(), r as int),
{
    let ghost whole = s@;
    let byte_len = s.len();
    let mut total: usize = 0;
    let mut i: usize = 0;
    proof {
        assert(whole.subrange(0, 0) =~= Seq::<char>::empty());
    }
    while i < char_pos
        invariant
            i <= char_pos <= whole.len(),
            whole == s@,
            byte_len == s.spec_bytes().len(),
            total == vstd::utf8::encode_utf8(whole.subrange(0, i as int)).len(),
            total <= byte_len,
        decreases char_pos - i,
    {
        let c = s.get_char(i);
        let w = char_bytes(c);
        proof {
            let pre = whole.subrange(0, i as int);
            let one = seq![whole[i as int]];
            assert(whole.subrange(0, i as int + 1) =~= pre + one);
            lemma_encode_utf8_concat(pre, one);
            assert(vstd::utf8::encode_utf8(one).len() == encode_scalar(
                whole[i as int] as u32,
            ).len()) by {
                assert(one.drop_first() =~= Seq::<char>::empty());
                assert(vstd::utf8::encode_utf8(one.drop_first()) =~= Seq::<u8>::empty());
            }
            // The prefix encoding never outgrows the whole encoding.
            assert(whole =~= whole.subrange(0, i as int + 1) + whole.subrange(
                i as int + 1,
                whole.len() as int,
            ));
            lemma_encode_utf8_concat(
                whole.subrange(0, i as int + 1),
                whole.subrange(i as int + 1, whole.len() as int),
            );
        }
        total = total + w;
        i = i + 1;
    }
    proof {
        let prefix = whole.subrange(0, char_pos as int);
        let rest = whole.subrange(char_pos as int, whole.len() as int);
        assert(whole =~= prefix + rest);
        lemma_encode_utf8_concat(prefix, rest);
        encode_utf8_valid_utf8(whole);
        lemma_boundary_at_encoded_prefix(prefix, rest);
    }
    total
}

/// The byte length of an encoded prefix of a character sequence lies on
/// a character boundary of the whole encoding.
proof fn lemma_boundary_at_encoded_prefix(prefix: Seq<char>, rest: Seq<char>)
    ensures
        is_char_boundary(
            vstd::utf8::encode_utf8(prefix + rest),
            vstd::utf8::encode_utf8(prefix).len() as int,
        ),
    decreases prefix.len(),
{
    encode_utf8_valid_utf8(prefix + rest);
    if prefix.len() == 0 {
        assert(vstd::utf8::encode_utf8(prefix) =~= Seq::<u8>::empty());
    } else {
        let whole = prefix + rest;
        let bytes = vstd::utf8::encode_utf8(whole);
        encode_utf8_first_scalar(whole);
        assert(whole.drop_first() =~= prefix.drop_first() + rest);
        lemma_boundary_at_encoded_prefix(prefix.drop_first(), rest);
        assert(pop_first_scalar(bytes) =~= vstd::utf8::encode_utf8(whole.drop_first()));
        lemma_encode_utf8_concat(seq![prefix[0]], prefix.drop_first());
        assert(prefix =~= seq![prefix[0]] + prefix.drop_first());
        assert(whole[0] == prefix[0]);
        assert(vstd::utf8::encode_utf8(seq![prefix[0]]).len() == encode_scalar(
            prefix[0] as u32,
        ).len()) by {
            assert(seq![prefix[0]].drop_first() =~= Seq::<char>::empty());
            assert(vstd::utf8::encode_utf8(Seq::<char>::empty()) =~= Seq::<u8>::empty());
        }
    }
}

/// Return the character at byte position `byte_pos` in `s`, or `None` if
/// the position is past the end or not on a character boundary.
pub fn char_at_byte(s: &str, byte_pos: usize) -> (r: Option<char>)
    requires
        s.spec_bytes().len() <= usize::MAX,
    ensures
        r is Some <==> byte_pos < s.spec_bytes().len() && is_char_boundary(
            s.spec_bytes(),
            byte_pos as int,
        ),
        r matches Some(c) ==> c == vstd::utf8::decode_utf8(
            s.spec_bytes().subrange(byte_pos as int, s.spec_bytes().len() as int),
        )[0],
{
    let ghost bytes = s.spec_bytes();
    proof {
        encode_utf8_valid_utf8(s@);
    }
    if byte_pos >= s.len() {
        return None;
    }
    if !s.is_char_boundary(byte_pos) {
        return None;
    }
    let (_, right) = s.split_at(byte_pos);
    proof {
        let suffix = bytes.subrange(byte_pos as int, bytes.len() as int);
        assert(right.spec_bytes() =~= suffix);
        valid_utf8_split(bytes, byte_pos as int);
        decode_utf8_encode_utf8(suffix);
        encode_utf8_decode_utf8(right@);
        assert(right@ == vstd::utf8::decode_utf8(suffix));
        assert(suffix.len() > 0);
        assert(right@.len() > 0) by {
            if right@.len() == 0 {
                assert(vstd::utf8::encode_utf8(right@) =~= Seq::<u8>::empty());
            }
        }
    }
    let c = right.get_char(0);
    Some(c)
}

/// Byte/character position symmetry: for a byte position on a character
/// boundary, converting to a character position and back yields the same
/// byte position; for a character position, converting to bytes and back
/// yields the same character position.
pub proof fn lemma_byte_char_position_symmetry(chars: Seq<char>, byte_pos: int)
    requires
        is_char_boundary(vstd::utf8::encode_utf8(chars), byte_pos),
    ensures
        ({
            let bytes = vstd::utf8::encode_utf8(chars);
            let char_pos = vstd::utf8::decode_utf8(bytes.subrange(0, byte_pos)).len() as int;
            &&& char_pos <= chars.len()
            &&& vstd::utf8::encode_utf8(chars.subrange(0, char_pos)).len() == byte_pos
        }),
{
    let bytes = vstd::utf8::encode_utf8(chars);
    encode_utf8_valid_utf8(chars);
    let prefix = bytes.subrange(0, byte_pos);
    let suffix = bytes.subrange(byte_pos, bytes.len() as int);
    valid_utf8_split(bytes, byte_pos);
    decode_utf8_split(bytes, byte_pos);
    encode_utf8_decode_utf8(chars);
    decode_utf8_encode_utf8(prefix);
    let char_pos = vstd::utf8::decode_utf8(prefix).len() as int;
    assert(chars == vstd::utf8::decode_utf8(prefix) + vstd::utf8::decode_utf8(suffix));
    assert(chars.subrange(0, char_pos) =~= vstd::utf8::decode_utf8(prefix));
}

// ---------------------------------------------------------------------------
// ASCII case folding for keyword matching
// ---------------------------------------------------------------------------

/// ASCII lowercase mapping of one character; anything outside `A`..`Z`
/// stays itself.
pub open spec fn spec_ascii_lower(c: char) -> char {
    if 'A' <= c <= 'Z' {
        ((c as u32) + 32) as char
    } else {
        c
    }
}

/// ASCII lowercase mapping of a character sequence.
pub open spec fn spec_lower_seq(s: Seq<char>) -> Seq<char> {
    Seq::new(s.len(), |i: int| spec_ascii_lower(s[i]))
}

/// Lower one character by the ASCII rule.
pub fn ascii_lower_char(c: char) -> (r: char)
    ensures
        r == spec_ascii_lower(c),
{
    if 'A' <= c && c <= 'Z' {
        let v = (c as u32) + 32;
        proof {
            char_is_scalar(c);
            char_u32_cast_helper(c);
        }
        char_from_scalar(v)
    } else {
        c
    }
}

proof fn char_u32_cast_helper(c: char)
    requires
        'A' <= c <= 'Z',
    ensures
        is_scalar((((c as u32) + 32) as u32)),
{
    char_is_scalar(c);
    assert(c as u32 <= 0x10FFFF);
}

/// Compare two strings for equality under ASCII case folding.
pub fn str_eq_ignore_ascii_case(a: &str, b: &str) -> (r: bool)
    ensures
        r == (spec_lower_seq(a@) == spec_lower_seq(b@)),
{
    let na = a.unicode_len();
    let nb = b.unicode_len();
    if na != nb {
        proof {
            assert(spec_lower_seq(a@).len() != spec_lower_seq(b@).len());
        }
        return false;
    }
    let mut i: usize = 0;
    while i < na
        invariant
            i <= na,
            na == a@.len(),
            na == b@.len(),
            forall|j: int| 0 <= j < i ==> spec_ascii_lower(a@[j]) == spec_ascii_lower(b@[j]),
        decreases na - i,
    {
        let ca = ascii_lower_char(a.get_char(i));
        let cb = ascii_lower_char(b.get_char(i));
        if ca != cb {
            proof {
                assert(spec_lower_seq(a@)[i as int] != spec_lower_seq(b@)[i as int]);
            }
            return false;
        }
        i = i + 1;
    }
    proof {
        assert(spec_lower_seq(a@) =~= spec_lower_seq(b@));
    }
    true
}

/// Relies on `String::push` of std: appends exactly the one character.
#[verifier::external_body]
pub(crate) fn string_push_char(s: &mut String, c: char)
    ensures
        final (s)@ == old(s)@.push(c),
{
    s.push(c);
}

/// Relies on `String::push_str` of std: appends exactly the given
/// string slice.
#[verifier::external_body]
pub(crate) fn string_push_str(s: &mut String, t: &str)
    ensures
        final (s)@ == old(s)@ + t@,
{
    s.push_str(t);
}

/// The decimal digits of a number, most significant first.
pub open spec fn spec_decimal(n: nat) -> Seq<char>
    decreases n,
{
    if n < 10 {
        seq![spec_digit_char(n)]
    } else {
        spec_decimal(n / 10).push(spec_digit_char(n % 10))
    }
}

/// The character of one decimal digit.
pub open spec fn spec_digit_char(d: nat) -> char {
    (('0' as u32) + d) as char
}

/// Render a number in decimal.
pub fn u64_to_decimal(n: u64) -> (r: String)
    ensures
        r@ == spec_decimal(n as nat),
{
    let mut digits: Vec<char> = Vec::new();
    let mut m = n;
    // Collect digits least significant first.
    while m >= 10
        invariant
            spec_decimal(n as nat) == spec_decimal(m as nat) + digits@.reverse(),
        decreases m,
    {
        let d = m % 10;
        proof {
            assert(0 <= m % 10 < 10) by (nonlinear_arith)
                requires
                    m >= 10,
            ;
            assert(('0' as u32) + (d as u32) <= 57);
            char_is_scalar('0');
            assert(spec_decimal((m / 10) as nat) + digits@.reverse().insert(
                0,
                spec_digit_char(d as nat),
            ) =~= spec_decimal((m / 10) as nat).push(spec_digit_char(d as nat))
                + digits@.reverse());
            assert(digits@.push(spec_digit_char(d as nat)).reverse() =~= digits@.reverse().insert(
                0,
                spec_digit_char(d as nat),
            ));
        }
        let c = char_from_scalar(48 + (d as u32));
        digits.push(c);
        m = m / 10;
        proof {
            vstd::arithmetic::div_mod::lemma_div_is_ordered(0, m as int, 10);
        }
    }
    let first = char_from_scalar(48 + (m as u32));
    let mut out = String::new();
    string_push_char(&mut out, first);
    proof {
        assert(out@ =~= spec_decimal(m as nat));
    }
    let mut i: usize = digits.len();
    while i > 0
        invariant
            i <= digits@.len(),
            out@ == spec_decimal(m as nat) + digits@.reverse().take(digits@.len() - i),
            m < 10,
            spec_decimal(n as nat) == spec_decimal(m as nat) + digits@.reverse(),
        decreases i,
    {
        i = i - 1;
        let c = digits[i];
        string_push_char(&mut out, c);
        proof {
            assert(digits@.reverse()[digits@.len() - i - 1] == digits@[i as int]);
            assert(out@ =~= spec_decimal(m as nat) + digits@.reverse().take(
                digits@.len() - i,
            ));
        }
    }
    proof {
        assert(digits@.reverse().take(digits@.len() as int) =~= digits@.reverse());
        assert(out@ =~= spec_decimal(n as nat));
    }
    out
}

/// Relies on `str` equality of std: two string slices are equal exactly
/// when they hold the same bytes, and equal bytes decode to the same
/// characters.
#[verifier::external_body]
pub(crate) fn str_eq(a: &str, b: &str) -> (r: bool)
    ensures
        r == (a@ == b@),
{
    a == b
}

/// The string ends with the given suffix.
pub open spec fn spec_ends_with(s: Seq<char>, suffix: Seq<char>) -> bool {
    s.len() >= suffix.len() && s.skip(s.len() - suffix.len()) == suffix
}

/// Check whether `s` ends with `suffix`.
pub fn str_ends_with(s: &str, suffix: &str) -> (r: bool)
    ensures
        r == spec_ends_with(s@, suffix@),
{
    let n = s.unicode_len();
    let m = suffix.unicode_len();
    if m > n {
        proof {
            assert(!spec_ends_with(s@, suffix@));
        }
        return false;
    }
    let off = n - m;
    let mut i: usize = 0;
    while i < m
        invariant
            i <= m,
            m <= n,
            off == n - m,
            n == s@.len(),
            m == suffix@.len(),
            forall|j: int| 0 <= j < i ==> s@[off + j] == suffix@[j],
        decreases m - i,
    {
        if s.get_char(off + i) != suffix.get_char(i) {
            proof {
                assert(s@.skip(off as int)[i as int] != suffix@[i as int]);
            }
            return false;
        }
        i = i + 1;
    }
    proof {
        assert(s@.skip(off as int) =~= suffix@);
    }
    true
}

} // verus!
