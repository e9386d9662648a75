//! Decoding of the host's tagged machine words.
//!
//! The host runtime hands the layout engine 64-bit tagged words: the low
//! three bits hold a type tag, fixnums carry their value in the upper bits,
//! and vectorlike objects carry a pointer with the tag bits masked off.

use vstd::prelude::*;

verus! {

/// A tagged machine word of the host runtime.
pub type LispWord = i64;

/// Tag value (low three bits) of a vectorlike object.
pub const VECTORLIKE_TAG: i64 = 5;

/// Bit position where a pseudovector's type field starts in its header word.
pub const PSEUDOVECTOR_AREA_BITS: u32 = 24;

/// Flag bit marking a vectorlike header as a pseudovector.
pub const PSEUDOVECTOR_FLAG: i64 = 0x4000_0000_0000_0000;

/// Mask of the pseudovector type field inside a header word.
pub const PVEC_TYPE_MASK: i64 = 0x3F_i64 << 24;

/// Pseudovector type value of a frame object.
pub const PVEC_FRAME: u32 = 10;

/// Pseudovector type value of a window object.
pub const PVEC_WINDOW: u32 = 11;

/// Pseudovector type value of a buffer object.
pub const PVEC_BUFFER: u32 = 13;

/// The word is nil exactly when it is the zero word.
pub open spec fn spec_nilp(obj: LispWord) -> bool {
    obj == 0
}

/// A fixnum has low two bits `10`.
pub open spec fn spec_fixnump(obj: LispWord) -> bool {
    obj & 3 == 2
}

/// A vectorlike has low three bits `101`.
pub open spec fn spec_vectorlikep(obj: LispWord) -> bool {
    obj & 7 == 5
}

/// Check whether a tagged word is nil.
pub fn nilp(obj: LispWord) -> (r: bool)
    ensures
        r == spec_nilp(obj),
{
    obj == 0
}

/// Check whether a tagged word is a fixnum.
pub fn fixnump(obj: LispWord) -> (r: bool)
    ensures
        r == spec_fixnump(obj),
{
    (obj & 3) == 2
}

/// Check whether a tagged word is a vectorlike object.
pub fn vectorlikep(obj: LispWord) -> (r: bool)
    ensures
        r == spec_vectorlikep(obj),
{
    (obj & 7) == 5
}

/// Extract the integer payload of a fixnum word: the arithmetic right
/// shift of the word by two, i.e. the floor of `obj / 4`.
pub fn xfixnum(obj: LispWord) -> (r: i64)
    ensures
        4 * (r as int) <= obj as int && (obj as int) < 4 * (r as int) + 4,
{
    if obj >= 0 {
        obj / 4
    } else {
        let m: i64 = -(obj + 1);
        let q: i64 = m / 4;
        -(q + 1)
    }
}

/// Check whether a tagged word is a non-negative fixnum.
pub fn fixnatp(obj: LispWord) -> (r: bool)
    ensures
        r == (spec_fixnump(obj) && obj >= 0),
{
    proof {
        assert(obj & 3 == 2 && obj as int >= 2 ==> obj >= 0) by (bit_vector);
        assert(obj & 3 == 2 ==> obj != 0 && obj != 1) by (bit_vector);
        assert(obj & 3 == 2 && obj >= 0 ==> obj as int >= 2) by (bit_vector);
    }
    fixnump(obj) && obj >= 2
}

/// Extract a non-negative fixnum payload, or `None` for any other word.
pub fn xfixnat(obj: LispWord) -> (r: Option<i64>)
    ensures
        r is Some <==> spec_fixnump(obj) && obj >= 0,
        r is Some ==> 4 * (r->Some_0 as int) <= obj as int
            && (obj as int) < 4 * (r->Some_0 as int) + 4 && r->Some_0 >= 0,
{
    if fixnatp(obj) {
        let v = xfixnum(obj);
        Some(v)
    } else {
        None
    }
}

/// Encode an integer as a fixnum word (the inverse of `xfixnum` for values
/// in the representable range).
pub fn make_fixnum(n: i64) -> (r: LispWord)
    requires
        -0x2000_0000_0000_0000 <= n < 0x2000_0000_0000_0000,
    ensures
        spec_fixnump(r),
        4 * (n as int) <= r as int && (r as int) < 4 * (n as int) + 4,
        n >= 0 ==> r >= 0,
{
    let r = 4 * n + 2;
    proof {
        assert(4 * n + 2 == r ==> r & 3 == 2) by (bit_vector);
    }
    r
}

/// Strip the tag bits from a vectorlike word, leaving the object address.
pub fn untag_vectorlike(obj: LispWord) -> (r: i64)
    ensures
        r == (obj & !7),
{
    obj & !7
}

/// Check a pseudovector header word against a pseudovector type value:
/// the pseudovector flag must be set and the type field must match.
pub fn pseudovector_header_matches(header: i64, pvec_type: u32) -> (r: bool)
    requires
        pvec_type < 64,
    ensures
        r == (header & (PSEUDOVECTOR_FLAG | PVEC_TYPE_MASK)
            == PSEUDOVECTOR_FLAG | ((pvec_type as i64) << PSEUDOVECTOR_AREA_BITS)),
{
    let expected: i64 = PSEUDOVECTOR_FLAG | ((pvec_type as i64) << PSEUDOVECTOR_AREA_BITS);
    (header & (PSEUDOVECTOR_FLAG | PVEC_TYPE_MASK)) == expected
}

/// Round trip: a value encoded by `make_fixnum` decodes to itself.
pub proof fn lemma_fixnum_round_trip(n: int, r: int, decoded: int)
    requires
        4 * n <= r && r < 4 * n + 4,
        4 * decoded <= r && r < 4 * decoded + 4,
    ensures
        decoded == n,
{
}

} // verus!
