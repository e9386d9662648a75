//! The ABI offsets oracle.
//!
//! On its first frame the engine obtains a table of struct field
//! offsets from the host and holds every entry against the layout this
//! crate was written for. A mismatch names the offending field; after a
//! successful validation the table is frozen.

use vstd::prelude::*;

verus! {

/// Number of host-value fields in the host's buffer struct.
pub const BUFFER_LISP_FIELD_COUNT: usize = 76;

/// Byte offset of the host-value field array inside the buffer struct.
pub const BUFFER_LISP_FIELDS_OFFSET: usize = 8;

/// Field index of the buffer-local tab width.
pub const BVAR_TAB_WIDTH: usize = 20;

/// Field index of the truncate-lines flag.
pub const BVAR_TRUNCATE_LINES: usize = 28;

/// Field index of the word-wrap flag.
pub const BVAR_WORD_WRAP: usize = 29;

/// Field index of the selective-display setting.
pub const BVAR_SELECTIVE_DISPLAY: usize = 35;

/// Field index of the multibyte flag.
pub const BVAR_ENABLE_MULTIBYTE: usize = 41;

/// Field index of the point marker (for indirect buffers).
pub const BVAR_PT_MARKER: usize = 47;

/// Field index of the narrowing-start marker.
pub const BVAR_BEGV_MARKER: usize = 48;

/// Field index of the narrowing-end marker.
pub const BVAR_ZV_MARKER: usize = 49;

/// Struct offsets reported by the host: the byte offset of each field
/// the engine reads directly, and the pseudovector constants.
#[derive(Debug, Clone, PartialEq, Eq, Structural)]
pub struct StructOffsets {
    pub buf_text: usize,
    pub buf_pt: usize,
    pub buf_pt_byte: usize,
    pub buf_begv: usize,
    pub buf_begv_byte: usize,
    pub buf_zv: usize,
    pub buf_zv_byte: usize,
    pub buf_base_buffer: usize,
    pub buf_lisp_field_count: usize,
    pub buftext_beg: usize,
    pub buftext_gpt: usize,
    pub buftext_z: usize,
    pub buftext_gpt_byte: usize,
    pub buftext_z_byte: usize,
    pub buftext_gap_size: usize,
    pub buf_tab_width: usize,
    pub buf_truncate_lines: usize,
    pub buf_enable_multibyte: usize,
    pub buf_pt_marker: usize,
    pub buf_begv_marker: usize,
    pub buf_zv_marker: usize,
    pub buf_word_wrap: usize,
    pub buf_selective_display: usize,
    pub win_frame: usize,
    pub win_next: usize,
    pub win_contents: usize,
    pub frame_root_window: usize,
    pub frame_selected_window: usize,
    pub frame_minibuffer_window: usize,
    pub pvec_window: usize,
    pub pvec_buffer: usize,
    pub pseudovector_area_bits: usize,
    pub pseudovector_flag: u64,
}

/// A validation failure: the field that did not match, with the value
/// this crate expects and the value the host reported.
#[derive(Debug, PartialEq)]
pub struct OffsetMismatch {
    /// Name of the mismatched field.
    pub field: String,
    /// The value this crate was built for.
    pub expected: usize,
    /// The value the host reported.
    pub got: usize,
    /// For the pseudovector flag word: the value the host reported.
    pub flag_got: Option<u64>,
}

/// Every offset the engine relies on matches the layout this crate was
/// written for: the text-region fields are eight bytes each with no
/// padding, the host-value fields sit at 8 plus eight times their
/// index, and the pseudovector constants agree.
pub open spec fn spec_offsets_valid(off: StructOffsets) -> bool {
    &&& off.buftext_beg == 0
    &&& off.buftext_gpt == 8
    &&& off.buftext_z == 16
    &&& off.buftext_gpt_byte == 24
    &&& off.buftext_z_byte == 32
    &&& off.buftext_gap_size == 40
    &&& off.buf_lisp_field_count == BUFFER_LISP_FIELD_COUNT
    &&& off.buf_tab_width == BUFFER_LISP_FIELDS_OFFSET + BVAR_TAB_WIDTH * 8
    &&& off.buf_truncate_lines == BUFFER_LISP_FIELDS_OFFSET + BVAR_TRUNCATE_LINES * 8
    &&& off.buf_enable_multibyte == BUFFER_LISP_FIELDS_OFFSET + BVAR_ENABLE_MULTIBYTE * 8
    &&& off.buf_pt_marker == BUFFER_LISP_FIELDS_OFFSET + BVAR_PT_MARKER * 8
    &&& off.buf_begv_marker == BUFFER_LISP_FIELDS_OFFSET + BVAR_BEGV_MARKER * 8
    &&& off.buf_zv_marker == BUFFER_LISP_FIELDS_OFFSET + BVAR_ZV_MARKER * 8
    &&& off.buf_word_wrap == BUFFER_LISP_FIELDS_OFFSET + BVAR_WORD_WRAP * 8
    &&& off.buf_selective_display == BUFFER_LISP_FIELDS_OFFSET + BVAR_SELECTIVE_DISPLAY * 8
    &&& off.pseudovector_area_bits == 24
    &&& off.pseudovector_flag == 0x4000_0000_0000_0000
    &&& off.pvec_window == 11
    &&& off.pvec_buffer == 13
}

/// Hold a host-reported offset table against this crate's layout
/// assumptions. Succeeds exactly when every checked entry matches; a
/// failure names the first mismatched field with both values.
pub fn validate_offsets(off: &StructOffsets) -> (r: Result<(), OffsetMismatch>)
    ensures
        r is Ok <==> spec_offsets_valid(*off),
        r matches Err(e) ==> e.expected != e.got || e.flag_got is Some,
{
    if off.buftext_beg != 0 {
        return Err(mismatch("buffer_text.beg", 0, off.buftext_beg));
    }
    if off.buftext_gpt != 8 {
        return Err(mismatch("buffer_text.gpt", 8, off.buftext_gpt));
    }
    if off.buftext_z != 16 {
        return Err(mismatch("buffer_text.z", 16, off.buftext_z));
    }
    if off.buftext_gpt_byte != 24 {
        return Err(mismatch("buffer_text.gpt_byte", 24, off.buftext_gpt_byte));
    }
    if off.buftext_z_byte != 32 {
        return Err(mismatch("buffer_text.z_byte", 32, off.buftext_z_byte));
    }
    if off.buftext_gap_size != 40 {
        return Err(mismatch("buffer_text.gap_size", 40, off.buftext_gap_size));
    }
    if off.buf_lisp_field_count != BUFFER_LISP_FIELD_COUNT {
        return Err(
            mismatch("buffer field count", BUFFER_LISP_FIELD_COUNT, off.buf_lisp_field_count),
        );
    }
    if off.buf_tab_width != BUFFER_LISP_FIELDS_OFFSET + BVAR_TAB_WIDTH * 8 {
        return Err(
            mismatch(
                "tab_width",
                BUFFER_LISP_FIELDS_OFFSET + BVAR_TAB_WIDTH * 8,
                off.buf_tab_width,
            ),
        );
    }
    if off.buf_truncate_lines != BUFFER_LISP_FIELDS_OFFSET + BVAR_TRUNCATE_LINES * 8 {
        return Err(
            mismatch(
                "truncate_lines",
                BUFFER_LISP_FIELDS_OFFSET + BVAR_TRUNCATE_LINES * 8,
                off.buf_truncate_lines,
            ),
        );
    }
    if off.buf_enable_multibyte != BUFFER_LISP_FIELDS_OFFSET + BVAR_ENABLE_MULTIBYTE * 8 {
        return Err(
            mismatch(
                "enable_multibyte_characters",
                BUFFER_LISP_FIELDS_OFFSET + BVAR_ENABLE_MULTIBYTE * 8,
                off.buf_enable_multibyte,
            ),
        );
    }
    if off.buf_pt_marker != BUFFER_LISP_FIELDS_OFFSET + BVAR_PT_MARKER * 8 {
        return Err(
            mismatch(
                "pt_marker",
                BUFFER_LISP_FIELDS_OFFSET + BVAR_PT_MARKER * 8,
                off.buf_pt_marker,
            ),
        );
    }
    if off.buf_begv_marker != BUFFER_LISP_FIELDS_OFFSET + BVAR_BEGV_MARKER * 8 {
        return Err(
            mismatch(
                "begv_marker",
                BUFFER_LISP_FIELDS_OFFSET + BVAR_BEGV_MARKER * 8,
                off.buf_begv_marker,
            ),
        );
    }
    if off.buf_zv_marker != BUFFER_LISP_FIELDS_OFFSET + BVAR_ZV_MARKER * 8 {
        return Err(
            mismatch(
                "zv_marker",
                BUFFER_LISP_FIELDS_OFFSET + BVAR_ZV_MARKER * 8,
                off.buf_zv_marker,
            ),
        );
    }
    if off.buf_word_wrap != BUFFER_LISP_FIELDS_OFFSET + BVAR_WORD_WRAP * 8 {
        return Err(
            mismatch(
                "word_wrap",
                BUFFER_LISP_FIELDS_OFFSET + BVAR_WORD_WRAP * 8,
                off.buf_word_wrap,
            ),
        );
    }
    if off.buf_selective_display != BUFFER_LISP_FIELDS_OFFSET + BVAR_SELECTIVE_DISPLAY * 8 {
        return Err(
            mismatch(
                "selective_display",
                BUFFER_LISP_FIELDS_OFFSET + BVAR_SELECTIVE_DISPLAY * 8,
                off.buf_selective_display,
            ),
        );
    }
    if off.pseudovector_area_bits != 24 {
        return Err(mismatch("pseudovector area bits", 24, off.pseudovector_area_bits));
    }
    if off.pseudovector_flag != 0x4000_0000_0000_0000u64 {
        return Err(flag_mismatch(off.pseudovector_flag));
    }
    if off.pvec_window != 11 {
        return Err(mismatch("window pseudovector type", 11, off.pvec_window));
    }
    if off.pvec_buffer != 13 {
        return Err(mismatch("buffer pseudovector type", 13, off.pvec_buffer));
    }
    Ok(())
}

/// Build the mismatch record for the pseudovector flag word.
fn flag_mismatch(got: u64) -> (r: OffsetMismatch)
    requires
        got != 0x4000_0000_0000_0000u64,
    ensures
        r.expected != r.got || r.flag_got is Some,
        r.flag_got == Some(got),
{
    OffsetMismatch {
        field: "pseudovector flag".to_owned(),
        expected: 0,
        got: 0,
        flag_got: Some(got),
    }
}

/// Build one mismatch record.
fn mismatch(field: &str, expected: usize, got: usize) -> (r: OffsetMismatch)
    requires
        expected != got,
    ensures
        r.field@ == field@,
        r.expected == expected,
        r.got == got,
        r.expected != r.got,
        r.flag_got is None,
{
    OffsetMismatch { field: field.to_owned(), expected, got, flag_got: None }
}

/// The process-wide validation state: validated once, then read-only.
#[derive(Debug, Clone, PartialEq, Eq, Structural)]
pub struct OffsetsOracle {
    /// The offsets have been validated.
    pub validated: bool,
}

impl OffsetsOracle {
    /// A fresh, not yet validated oracle.
    pub fn new() -> (r: OffsetsOracle)
        ensures
            !r.validated,
    {
        OffsetsOracle { validated: false }
    }
}

/// Validate the host's offsets once. The first call validates and
/// reports `true`; later calls are no-ops reporting `false`. A
/// mismatch on the first call leaves the oracle unvalidated and names
/// the field.
pub fn ensure_offsets_valid(oracle: &mut OffsetsOracle, off: &StructOffsets) -> (r: Result<
    bool,
    OffsetMismatch,
>)
    ensures
        old(oracle).validated ==> r == Result::<bool, OffsetMismatch>::Ok(false) && final (oracle).validated,
        !old(oracle).validated && spec_offsets_valid(*off) ==> r == Result::<
            bool,
            OffsetMismatch,
        >::Ok(true) && final (oracle).validated,
        !old(oracle).validated && !spec_offsets_valid(*off) ==> r is Err && !final (oracle).validated,
{
    if oracle.validated {
        return Ok(false);
    }
    match validate_offsets(off) {
        Ok(()) => {
            oracle.validated = true;
            Ok(true)
        },
        Err(e) => Err(e),
    }
}

} // verus!
