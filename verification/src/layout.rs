//! The monospace layout engine.
//!
//! Walks buffer text from a window's start position, places characters
//! on a fixed-width grid, expands tabs, renders control characters as
//! caret pairs, wraps or truncates long lines, places the cursor, and
//! appends typed draw entries into a frame glyph buffer.

use vstd::prelude::*;
use vstd::arithmetic::div_mod::{lemma_div_is_ordered, lemma_div_nonincreasing,
    lemma_div_pos_is_pos, lemma_fundamental_div_mod, lemma_mod_division_less_than_divisor,
    lemma_remainder_lower};
use crate::chars;
use crate::gapbuf::{copy_text, GapBufferText};
use crate::glyphs::{cursor_count, lemma_cursor_count_push, FrameGlyphBuffer, GlyphEntry,
    WindowInfo};
use crate::types::{spec_color_from_pixel, Color, Rect};

verus! {

/// Largest accepted window dimension in pixels.
pub const MAX_WINDOW_DIM: i64 = 1_000_000_000;

/// Flat value record projected from a host window for one frame.
#[derive(Debug, Clone, PartialEq)]
pub struct WindowParams {
    pub window_id: u64,
    pub buffer_id: u64,
    /// Whole window rectangle.
    pub bounds: Rect,
    /// Text area rectangle.
    pub text_bounds: Rect,
    /// The window is the selected one.
    pub selected: bool,
    /// First visible character position (1-based).
    pub window_start: i64,
    /// Point (insertion cursor) character position (1-based).
    pub point: i64,
    /// End of the buffer's accessible range, in characters.
    pub buffer_size: i64,
    /// Start of the buffer's accessible range, in characters.
    pub buffer_begv: i64,
    /// Horizontal scroll in columns.
    pub hscroll: i64,
    /// Truncate long lines instead of wrapping them.
    pub truncate_lines: bool,
    /// Distance between tab stops, in columns.
    pub tab_width: i64,
    /// Default foreground pixel value.
    pub default_fg: u32,
    /// Default background pixel value.
    pub default_bg: u32,
    /// Character cell width in pixels.
    pub char_width: i64,
    /// Character cell height in pixels.
    pub char_height: i64,
    pub font_pixel_size: i64,
    pub font_ascent: i64,
    pub mode_line_height: i64,
    pub header_line_height: i64,
    pub tab_line_height: i64,
    /// Cursor shape: 0 box, 1 bar, 2 hbar, 3 hollow.
    pub cursor_type: u8,
    pub cursor_bar_width: i64,
}

impl WindowParams {
    /// The geometry lies in range for pixel arithmetic.
    pub open spec fn wf(&self) -> bool {
        &&& self.bounds.wf()
        &&& self.text_bounds.wf()
        &&& 1 <= self.char_width <= MAX_WINDOW_DIM
        &&& 1 <= self.char_height <= MAX_WINDOW_DIM
        &&& 0 <= self.font_ascent
        &&& 0 <= self.mode_line_height <= MAX_WINDOW_DIM
        &&& 0 <= self.header_line_height <= MAX_WINDOW_DIM
        &&& 0 <= self.tab_line_height <= MAX_WINDOW_DIM
        &&& 0 <= self.text_bounds.x <= MAX_WINDOW_DIM
        &&& 0 <= self.text_bounds.y <= MAX_WINDOW_DIM
        &&& 0 <= self.text_bounds.width <= MAX_WINDOW_DIM
        &&& 0 <= self.text_bounds.height <= MAX_WINDOW_DIM
        &&& self.header_line_height + self.tab_line_height <= MAX_WINDOW_DIM
        &&& 1 <= self.window_start
        &&& 1 <= self.point
        &&& 0 <= self.buffer_size
        &&& self.window_start <= self.buffer_size + 1
        &&& 0 <= self.cursor_bar_width
    }
}

/// The grid geometry a window's content is laid out on.
pub ghost struct Grid {
    /// Text origin x in pixels.
    pub tx: int,
    /// Text origin y in pixels (below header and tab lines).
    pub ty: int,
    /// Cell width.
    pub cw: int,
    /// Cell height.
    pub chh: int,
    /// Number of columns.
    pub cols: int,
    /// Number of rows.
    pub rows: int,
    /// Font baseline.
    pub ascent: int,
}

impl Grid {
    /// A usable grid: positive cells, at least one column and row, and
    /// the whole grid addressable in pixel arithmetic.
    pub open spec fn wf(&self) -> bool {
        &&& 1 <= self.cw
        &&& 1 <= self.chh
        &&& 1 <= self.cols
        &&& 1 <= self.rows
        &&& 0 <= self.tx
        &&& 0 <= self.ty
        &&& self.tx + self.cols * self.cw <= i64::MAX
        &&& self.ty + self.rows * self.chh <= i64::MAX
        &&& 0 <= self.ascent
    }
}

/// Every draw entry a window's layout appends stays on the window's
/// grid: glyphs sit on whole cells one or two columns wide, and cursors
/// stay inside the text area.
pub open spec fn entry_on_grid(e: GlyphEntry, g: Grid, selected: bool) -> bool {
    match e {
        GlyphEntry::Glyph { ch, x, y, width, height, ascent } => {
            &&& height == g.chh
            &&& ascent == g.ascent
            &&& (width == g.cw || width == 2 * g.cw)
            &&& g.tx <= x
            &&& x + width <= g.tx + g.cols * g.cw
            &&& g.ty <= y
            &&& y + height <= g.ty + g.rows * g.chh
        },
        GlyphEntry::Cursor { window_id, x, y, width, height, style, color } => {
            &&& g.tx <= x
            &&& x + width <= g.tx + g.cols * g.cw
            &&& g.ty <= y
            &&& y + height <= g.ty + g.rows * g.chh
            &&& (selected || style == 3)
        },
        _ => true,
    }
}

/// All entries of a sequence stay on the grid.
pub open spec fn entries_on_grid(s: Seq<GlyphEntry>, g: Grid, selected: bool) -> bool {
    forall|i: int| 0 <= i < s.len() ==> entry_on_grid(#[trigger] s[i], g, selected)
}

/// Two immediately consecutive glyph entries on the same row abut: the
/// second starts exactly where the first ends.
pub open spec fn adjacent_pair_ok(a: GlyphEntry, b: GlyphEntry) -> bool {
    match (a, b) {
        (
            GlyphEntry::Glyph { x: ax, y: ay, width: aw, .. },
            GlyphEntry::Glyph { x: bx, y: by, .. },
        ) => ay == by ==> bx == ax + aw,
        _ => true,
    }
}

/// The monospace property of an entry sequence: every two immediately
/// consecutive glyph entries on one row abut.
pub open spec fn glyphs_abut(s: Seq<GlyphEntry>) -> bool {
    forall|i: int| 0 <= i && i + 1 < s.len() ==> adjacent_pair_ok(#[trigger] s[i], s[i + 1])
}

/// Every inverse-cursor entry immediately follows a cursor entry with
/// the same rectangle.
pub open spec fn inverse_follows_cursor(s: Seq<GlyphEntry>) -> bool {
    forall|i: int|
        0 <= i < s.len() ==> (#[trigger] s[i] matches GlyphEntry::CursorInverse {
            x,
            y,
            width,
            height,
            ..
        } ==> i > 0 && (s[i - 1] matches GlyphEntry::Cursor {
            x: cx,
            y: cy,
            width: cww,
            height: chh2,
            ..
        } && cx == x && cy == y && cww == width && chh2 == height))
}

/// If the last entry is a glyph, it sits on the current row or an
/// earlier one.
pub open spec fn last_glyph_at_most(s: Seq<GlyphEntry>, row_y: int) -> bool {
    s.len() > 0 ==> (s.last() matches GlyphEntry::Glyph { y, .. } ==> y <= row_y)
}

/// If the last entry is a glyph on the row at `row_y`, it ends exactly
/// at `next_x` (where the next glyph of that row would start).
pub open spec fn last_glyph_flush(s: Seq<GlyphEntry>, row_y: int, next_x: int) -> bool {
    s.len() > 0 ==> (s.last() matches GlyphEntry::Glyph { x, y, width, .. } ==> (y == row_y
        ==> x + width == next_x))
}

/// Moving to a strictly lower row keeps the last-glyph bookkeeping.
proof fn lemma_flush_row_advance(
    s: Seq<GlyphEntry>,
    old_row_y: int,
    new_row_y: int,
    new_x: int,
)
    requires
        last_glyph_at_most(s, old_row_y),
        old_row_y < new_row_y,
    ensures
        last_glyph_at_most(s, new_row_y),
        last_glyph_flush(s, new_row_y, new_x),
{
}

/// What a window's layout promises of the entries it appends.
pub open spec fn window_suffix_ok(s: Seq<GlyphEntry>, g: Grid, selected: bool) -> bool {
    &&& entries_on_grid(s, g, selected)
    &&& glyphs_abut(s)
    &&& inverse_follows_cursor(s)
}

/// Appending a suitable entry preserves the window suffix properties.
proof fn lemma_suffix_push(s: Seq<GlyphEntry>, e: GlyphEntry, g: Grid, selected: bool)
    requires
        window_suffix_ok(s, g, selected),
        entry_on_grid(e, g, selected),
        !(e is CursorInverse),
        s.len() > 0 ==> adjacent_pair_ok(s.last(), e),
    ensures
        window_suffix_ok(s.push(e), g, selected),
{
    let t = s.push(e);
    assert forall|i: int| 0 <= i < t.len() implies entry_on_grid(#[trigger] t[i], g, selected) by {
        if i < s.len() {
            assert(t[i] == s[i]);
        }
    }
    assert forall|i: int| 0 <= i && i + 1 < t.len() implies adjacent_pair_ok(
        #[trigger] t[i],
        t[i + 1],
    ) by {
        if i + 1 < s.len() {
            assert(t[i] == s[i] && t[i + 1] == s[i + 1]);
        } else {
            assert(i + 1 == s.len());
            if s.len() > 0 {
                assert(t[i] == s.last() && t[i + 1] == e);
            }
        }
    }
    assert forall|i: int|
        0 <= i < t.len() && (#[trigger] t[i]) is CursorInverse implies i > 0 && match (t[i], t[i
        - 1]) {
        (
            GlyphEntry::CursorInverse { x, y, width, height, .. },
            GlyphEntry::Cursor { x: cx, y: cy, width: cww, height: chh2, .. },
        ) => cx == x && cy == y && cww == width && chh2 == height,
        _ => false,
    } by {
        assert(i < s.len());
        assert(t[i] == s[i]);
        if i > 0 {
            assert(t[i - 1] == s[i - 1]);
        }
    }
}

/// Appending a cursor entry and then its inverse entry with the same
/// rectangle preserves the window suffix properties.
proof fn lemma_suffix_push_inverse(s: Seq<GlyphEntry>, e: GlyphEntry, g: Grid, selected: bool)
    requires
        window_suffix_ok(s, g, selected),
        s.len() > 0,
        e is CursorInverse,
        match (s.last(), e) {
            (
                GlyphEntry::Cursor { x: cx, y: cy, width: cww, height: chh2, .. },
                GlyphEntry::CursorInverse { x, y, width, height, .. },
            ) => cx == x && cy == y && cww == width && chh2 == height,
            _ => false,
        },
    ensures
        window_suffix_ok(s.push(e), g, selected),
{
    let t = s.push(e);
    assert forall|i: int| 0 <= i < t.len() implies entry_on_grid(#[trigger] t[i], g, selected) by {
        if i < s.len() {
            assert(t[i] == s[i]);
        }
    }
    assert forall|i: int| 0 <= i && i + 1 < t.len() implies adjacent_pair_ok(
        #[trigger] t[i],
        t[i + 1],
    ) by {
        if i + 1 < s.len() {
            assert(t[i] == s[i] && t[i + 1] == s[i + 1]);
        } else {
            assert(t[i + 1] == e);
        }
    }
    assert forall|i: int|
        0 <= i < t.len() && (#[trigger] t[i]) is CursorInverse implies i > 0 && match (t[i], t[i
        - 1]) {
        (
            GlyphEntry::CursorInverse { x, y, width, height, .. },
            GlyphEntry::Cursor { x: cx, y: cy, width: cww, height: chh2, .. },
        ) => cx == x && cy == y && cww == width && chh2 == height,
        _ => false,
    } by {
        if i < s.len() {
            assert(t[i] == s[i]);
            if i > 0 {
                assert(t[i - 1] == s[i - 1]);
            }
        } else {
            assert(t[i] == e && i == s.len());
            assert(t[i - 1] == s.last());
        }
    }
}

/// The number of cursor entries in a concatenation is the sum of the
/// two parts' counts.
proof fn lemma_cursor_count_concat(a: Seq<GlyphEntry>, b: Seq<GlyphEntry>)
    ensures
        cursor_count(a + b) == cursor_count(a) + cursor_count(b),
    decreases b.len(),
{
    if b.len() == 0 {
        assert(a + b =~= a);
    } else {
        assert((a + b).drop_last() =~= a + b.drop_last());
        lemma_cursor_count_concat(a, b.drop_last());
        assert((a + b).last() == b.last());
    }
}

/// Distributing a sum over a product.
proof fn lemma_dist(a: int, b: int, c: int)
    by (nonlinear_arith)
    ensures
        (a + b) * c == a * c + b * c,
{
}

/// Multiplying the smaller of two nonnegative values by a positive
/// factor keeps the order.
proof fn lemma_mul_le(a: int, b: int, c: int)
    by (nonlinear_arith)
    requires
        0 <= a <= b,
        0 <= c,
    ensures
        a * c <= b * c,
        0 <= a * c,
{
}

/// Character that a control character is displayed as (the caret pair's
/// second cell).
fn control_display_char(cp: u32) -> (r: char)
    requires
        cp < 0x20,
    ensures
        r as u32 == cp + 0x40,
{
    chars_control_from(cp)
}

/// Relies on `char::from_u32` of std for the caret-notation letter: a
/// value below 0x60 is always a Unicode scalar.
#[verifier::external_body]
fn chars_control_from(cp: u32) -> (r: char)
    requires
        cp < 0x20,
    ensures
        r as u32 == cp + 0x40,
{
    char::from_u32(cp + 0x40).unwrap_or('?')
}

/// Consume the rest of a logical line up to and including its newline;
/// used when a truncated line's remainder is discarded. Leaves the grid
/// position at the start of the next row when the newline was found.
fn skip_line_rest(
    bytes: &[u8],
    byte_idx: &mut usize,
    charpos: &mut i64,
    col: &mut i64,
    row: &mut i64,
)
    requires
        *old(byte_idx) <= bytes@.len(),
        *old(charpos) + (bytes@.len() - *old(byte_idx)) <= i64::MAX,
        0 <= *old(charpos),
        0 <= *old(col),
        0 <= *old(row) < i64::MAX,
    ensures
        *old(byte_idx) <= *final (byte_idx) <= bytes@.len(),
        *old(charpos) <= *final (charpos),
        *final (charpos) - *old(charpos) <= *final (byte_idx) - *old(byte_idx),
        (*final (col) == 0 && *final (row) == *old(row) + 1) || (*final (byte_idx) == bytes@.len()
            && *final (col) == *old(col) && *final (row) == *old(row)),
        ({
            let sk = spec_skip_line(bytes@, *old(byte_idx) as int, *old(charpos) as int);
            &&& *final (byte_idx) == sk.0
            &&& *final (charpos) == sk.1
            &&& (sk.2 ==> *final (col) == 0 && *final (row) == *old(row) + 1)
            &&& (!sk.2 ==> *final (col) == *old(col) && *final (row) == *old(row))
        }),
{
    let ghost sk0 = spec_skip_line(bytes@, *byte_idx as int, *charpos as int);
    let n = bytes.len();
    while *byte_idx < n
        invariant
            *old(byte_idx) <= *byte_idx <= n,
            n == bytes@.len(),
            *old(charpos) <= *charpos,
            *charpos - *old(charpos) <= *byte_idx - *old(byte_idx),
            *charpos + (n - *byte_idx) <= i64::MAX,
            *col == *old(col),
            *row == *old(row),
            0 <= *row < i64::MAX,
            sk0 == spec_skip_line(bytes@, *old(byte_idx) as int, *old(charpos) as int),
            sk0 == spec_skip_line(bytes@, *byte_idx as int, *charpos as int),
        decreases n - *byte_idx,
    {
        let ghost bi = *byte_idx as int;
        let ghost cp = *charpos as int;
        let sub = &bytes[*byte_idx..n];
        let dec = chars::decode_utf8(sub);
        let (c, l): (char, usize) = match dec {
            Some(p) => p,
            None => ('\u{FFFD}', 1),
        };
        proof {
            assert(sub@ =~= bytes@.subrange(bi, n as int));
            assert((c, l as int) == spec_decode_at(bytes@, bi));
            lemma_decode_at_len(bytes@, bi);
        }
        *byte_idx = *byte_idx + l;
        *charpos = *charpos + 1;
        if c == '\n' {
            proof {
                assert(sk0 == (*byte_idx as int, *charpos as int, true));
            }
            *col = 0;
            *row = *row + 1;
            return ;
        }
    }
    proof {
        assert(sk0 == (*byte_idx as int, *charpos as int, false));
    }
}

/// The height in pixels left for text rows after the header, tab and
/// mode lines are taken out.
pub open spec fn spec_avail_height(p: &WindowParams) -> int {
    p.text_bounds.height - p.header_line_height - p.tab_line_height - p.mode_line_height
}

/// The grid a window's parameters describe.
pub open spec fn spec_grid_of(p: &WindowParams) -> Grid {
    Grid {
        tx: p.text_bounds.x as int,
        ty: p.text_bounds.y + p.header_line_height + p.tab_line_height,
        cw: p.char_width as int,
        chh: p.char_height as int,
        cols: (p.text_bounds.width as int) / (p.char_width as int),
        rows: spec_avail_height(p) / (p.char_height as int),
        ascent: p.font_ascent as int,
    }
}

/// The grid has at least one column and one row, so the window shows
/// content.
pub open spec fn spec_grid_usable(p: &WindowParams) -> bool {
    spec_grid_of(p).cols >= 1 && spec_grid_of(p).rows >= 1
}


/// The ghost state of the text walk: grid position, character
/// position, whether the cursor has been placed, the end bookkeeping
/// the host gets back, the next byte, and the entries appended so far.
pub ghost struct WalkState {
    pub col: int,
    pub row: int,
    pub charpos: int,
    pub cursor_placed: bool,
    pub window_end: int,
    pub byte_idx: int,
    pub entries: Seq<GlyphEntry>,
}

/// The character decoded at byte `i` and the bytes it consumes: the
/// well-formed character starting there, or the replacement character
/// over one byte.
pub open spec fn spec_decode_at(bytes: Seq<u8>, i: int) -> (char, int) {
    let rest = bytes.subrange(i, bytes.len() as int);
    if chars::spec_decodes_one_char(rest) {
        let l = vstd::utf8::length_of_first_scalar(rest);
        (
            chars::decode_utf8_spec_one(rest),
            if 1 <= l && l <= 4 {
                l
            } else {
                1
            },
        )
    } else {
        ('\u{FFFD}', 1)
    }
}

/// The tab stop distance the walk uses: the window's, clamped to at
/// least one column and the dimension cap.
pub open spec fn spec_tab_w(p: &WindowParams) -> int {
    if p.tab_width < 1 {
        1
    } else if p.tab_width > MAX_WINDOW_DIM {
        MAX_WINDOW_DIM as int
    } else {
        p.tab_width as int
    }
}

/// Consuming the rest of a logical line from byte `i`: the byte and
/// character positions after its newline (or after the last byte) and
/// whether a newline was found.
pub open spec fn spec_skip_line(bytes: Seq<u8>, i: int, cp: int) -> (int, int, bool)
    decreases bytes.len() - i,
{
    if i < 0 || i >= bytes.len() {
        (i, cp, false)
    } else {
        let dl = spec_decode_at(bytes, i);
        if dl.0 == '\n' {
            (i + dl.1, cp + 1, true)
        } else {
            spec_skip_line(bytes, i + dl.1, cp + 1)
        }
    }
}

/// Line skipping never moves backward, never leaves the bytes, and
/// consumes at least one byte per character.
pub proof fn lemma_skip_line_bounds(bytes: Seq<u8>, i: int, cp: int)
    requires
        0 <= i <= bytes.len(),
    ensures
        i <= spec_skip_line(bytes, i, cp).0 <= bytes.len(),
        i < bytes.len() ==> spec_skip_line(bytes, i, cp).0 > i,
        cp <= spec_skip_line(bytes, i, cp).1,
        spec_skip_line(bytes, i, cp).1 - cp <= spec_skip_line(bytes, i, cp).0 - i,
    decreases bytes.len() - i,
{
    if i < bytes.len() {
        let dl = spec_decode_at(bytes, i);
        lemma_decode_at_len(bytes, i);
        if dl.0 != '\n' {
            lemma_skip_line_bounds(bytes, i + dl.1, cp + 1);
        }
    }
}

/// One decoded character consumes between one byte and the rest.
pub proof fn lemma_decode_at_len(bytes: Seq<u8>, i: int)
    requires
        0 <= i < bytes.len(),
    ensures
        1 <= spec_decode_at(bytes, i).1 <= bytes.len() - i,
{
    let rest = bytes.subrange(i, bytes.len() as int);
    if chars::spec_decodes_one_char(rest) {
        assert(rest.len() >= chars::spec_utf8_char_width(rest[0]));
    }
}

/// The caret-notation letter of a control character.
pub open spec fn spec_caret_letter(c: char) -> char {
    (((c as u32) + 0x40) as u32) as char
}

/// The cursor entries placed for a window at grid position
/// `(col, row)` (clamped into the grid): the cursor entry, and for a
/// filled box cursor of a selected window the inverse-video entry with
/// the window's colors swapped.
pub open spec fn spec_cursor_entries(p: &WindowParams, g: Grid, col: int, row: int) -> Seq<
    GlyphEntry,
> {
    let fg = spec_color_from_pixel(p.default_fg);
    let bg = spec_color_from_pixel(p.default_bg);
    let ccol = if col >= g.cols {
        g.cols - 1
    } else {
        col
    };
    let crow = if row >= g.rows {
        g.rows - 1
    } else {
        row
    };
    let x = (g.tx + ccol * g.cw) as i64;
    let y = (g.ty + crow * g.chh) as i64;
    let wh: (int, int) = if p.cursor_type == 1 {
        let bw = if p.cursor_bar_width < 1 {
            1int
        } else {
            p.cursor_bar_width as int
        };
        (
            if bw > g.cw {
                g.cw
            } else {
                bw
            },
            g.chh,
        )
    } else if p.cursor_type == 2 {
        (
            g.cw,
            if g.chh < 2 {
                g.chh
            } else {
                2
            },
        )
    } else {
        (g.cw, g.chh)
    };
    let style = if p.selected {
        p.cursor_type
    } else {
        3u8
    };
    let cur = GlyphEntry::Cursor {
        window_id: p.window_id,
        x,
        y,
        width: wh.0 as i64,
        height: wh.1 as i64,
        style,
        color: fg,
    };
    if style == 0 {
        seq![
            cur,
            GlyphEntry::CursorInverse {
                x,
                y,
                width: wh.0 as i64,
                height: wh.1 as i64,
                cursor_bg: fg,
                cursor_fg: bg,
            },
        ]
    } else {
        seq![cur]
    }
}

/// The stretch that fills columns `col` to the right edge of `row`.
pub open spec fn spec_row_fill(p: &WindowParams, g: Grid, col: int, row: int) -> Seq<GlyphEntry> {
    if g.cols - col > 0 {
        seq![
            GlyphEntry::Stretch {
                x: (g.tx + col * g.cw) as i64,
                y: (g.ty + row * g.chh) as i64,
                width: ((g.cols - col) * g.cw) as i64,
                height: g.chh as i64,
                color: spec_color_from_pixel(p.default_bg),
                face_id: 0u32,
            },
        ]
    } else {
        Seq::empty()
    }
}

/// One glyph entry at grid cell `(col, row)` spanning `wcols` columns.
pub open spec fn spec_cell_glyph(g: Grid, ch: char, col: int, row: int, wcols: int, ascent: int)
    -> GlyphEntry {
    GlyphEntry::Glyph {
        ch,
        x: (g.tx + col * g.cw) as i64,
        y: (g.ty + row * g.chh) as i64,
        width: (wcols * g.cw) as i64,
        height: g.chh as i64,
        ascent: ascent as i64,
    }
}

/// The cursor placement at the top of a step: once the point is
/// reached and the cursor is still unplaced, its entries are appended.
pub open spec fn spec_apply_cursor(p: &WindowParams, g: Grid, st: WalkState) -> WalkState {
    if !st.cursor_placed && st.charpos >= p.point {
        WalkState {
            cursor_placed: true,
            entries: st.entries + spec_cursor_entries(p, g, st.col, st.row),
            ..st
        }
    } else {
        st
    }
}

/// One step of the text walk: place the cursor when the point is
/// reached, decode one character, and lay it out by the rules of the
/// monospace grid (line fill on a newline, tab stops, caret pairs for
/// control characters, wide characters over two cells, wrapping or
/// truncating past the right edge). Mirrored exactly by one iteration
/// of the walk loop.
#[verifier::opaque]
pub open spec fn spec_step(p: &WindowParams, g: Grid, bytes: Seq<u8>, st: WalkState) -> WalkState {
    let st1 = spec_apply_cursor(p, g, st);
    let dl = spec_decode_at(bytes, st1.byte_idx);
    let ch = dl.0;
    let b2 = st1.byte_idx + dl.1;
    let cp2 = st1.charpos + 1;
    if ch == '\n' {
        WalkState {
            col: 0,
            row: st1.row + 1,
            charpos: cp2,
            window_end: cp2,
            byte_idx: b2,
            entries: st1.entries + spec_row_fill(p, g, st1.col, st1.row),
            ..st1
        }
    } else if ch == '\t' {
        let tabw = spec_tab_w(p);
        let next_tab = (st1.col / tabw + 1) * tabw;
        let spaces = if next_tab - st1.col < g.cols - st1.col {
            next_tab - st1.col
        } else {
            g.cols - st1.col
        };
        let entries2 = st1.entries + seq![
            GlyphEntry::Stretch {
                x: (g.tx + st1.col * g.cw) as i64,
                y: (g.ty + st1.row * g.chh) as i64,
                width: (spaces * g.cw) as i64,
                height: g.chh as i64,
                color: spec_color_from_pixel(p.default_bg),
                face_id: 0u32,
            },
        ];
        let col2 = st1.col + spaces;
        if col2 >= g.cols {
            if p.truncate_lines {
                let sk = spec_skip_line(bytes, b2, cp2);
                WalkState {
                    col: if sk.2 {
                        0
                    } else {
                        col2
                    },
                    row: if sk.2 {
                        st1.row + 1
                    } else {
                        st1.row
                    },
                    charpos: sk.1,
                    window_end: sk.1,
                    byte_idx: sk.0,
                    entries: entries2,
                    ..st1
                }
            } else {
                WalkState {
                    col: 0,
                    row: st1.row + 1,
                    charpos: cp2,
                    window_end: cp2,
                    byte_idx: b2,
                    entries: entries2,
                    ..st1
                }
            }
        } else {
            WalkState {
                col: col2,
                charpos: cp2,
                window_end: cp2,
                byte_idx: b2,
                entries: entries2,
                ..st1
            }
        }
    } else if ch == '\r' {
        WalkState { charpos: cp2, window_end: cp2, byte_idx: b2, ..st1 }
    } else if (ch as u32) < 0x20 {
        if st1.col + 2 <= g.cols {
            WalkState {
                col: st1.col + 2,
                charpos: cp2,
                window_end: cp2,
                byte_idx: b2,
                entries: st1.entries + seq![
                    spec_cell_glyph(g, '^', st1.col, st1.row, 1, g.ascent),
                    spec_cell_glyph(g, spec_caret_letter(ch), st1.col + 1, st1.row, 1, g.ascent),
                ],
                ..st1
            }
        } else {
            if p.truncate_lines {
                let sk = spec_skip_line(bytes, b2, cp2);
                WalkState {
                    col: if sk.2 {
                        0
                    } else {
                        st1.col
                    },
                    row: if sk.2 {
                        st1.row + 1
                    } else {
                        st1.row
                    },
                    charpos: sk.1,
                    window_end: sk.1,
                    byte_idx: sk.0,
                    ..st1
                }
            } else {
                WalkState {
                    col: 0,
                    row: st1.row + 1,
                    charpos: cp2,
                    window_end: cp2,
                    byte_idx: b2,
                    ..st1
                }
            }
        }
    } else {
        let wcols: int = if chars::spec_is_wide(ch as u32) {
            2
        } else {
            1
        };
        if st1.col + wcols > g.cols {
            if p.truncate_lines {
                let sk = spec_skip_line(bytes, b2, cp2);
                WalkState {
                    col: if sk.2 {
                        0
                    } else {
                        st1.col
                    },
                    row: if sk.2 {
                        st1.row + 1
                    } else {
                        st1.row
                    },
                    charpos: sk.1,
                    window_end: sk.1,
                    byte_idx: sk.0,
                    ..st1
                }
            } else {
                let entries2 = st1.entries + spec_row_fill(p, g, st1.col, st1.row);
                if st1.row + 1 >= g.rows {
                    // The rows are exhausted mid-step: the walk stops
                    // here, without the end-of-step bookkeeping.
                    WalkState {
                        col: 0,
                        row: st1.row + 1,
                        charpos: cp2,
                        byte_idx: b2,
                        entries: entries2,
                        ..st1
                    }
                } else if wcols > g.cols {
                    // Wider than the whole grid: consumed, not drawn.
                    WalkState {
                        col: 0,
                        row: st1.row + 1,
                        charpos: cp2,
                        window_end: cp2,
                        byte_idx: b2,
                        entries: entries2,
                        ..st1
                    }
                } else {
                    WalkState {
                        col: wcols,
                        row: st1.row + 1,
                        charpos: cp2,
                        window_end: cp2,
                        byte_idx: b2,
                        entries: entries2 + seq![
                            spec_cell_glyph(g, ch, 0, st1.row + 1, wcols, g.ascent),
                        ],
                        ..st1
                    }
                }
            }
        } else {
            WalkState {
                col: st1.col + wcols,
                charpos: cp2,
                window_end: cp2,
                byte_idx: b2,
                entries: st1.entries + seq![
                    spec_cell_glyph(g, ch, st1.col, st1.row, wcols, g.ascent),
                ],
                ..st1
            }
        }
    }
}

/// A step consumes at least one byte and never leaves the bytes.
pub proof fn lemma_step_bounds(p: &WindowParams, g: Grid, bytes: Seq<u8>, st: WalkState)
    requires
        0 <= st.byte_idx < bytes.len(),
    ensures
        st.byte_idx < spec_step(p, g, bytes, st).byte_idx <= bytes.len(),
{
    reveal(spec_step);
    lemma_decode_at_len(bytes, st.byte_idx);
    let dl = spec_decode_at(bytes, st.byte_idx);
    lemma_skip_line_bounds(bytes, st.byte_idx + dl.1, st.charpos + 1);
}

/// The whole text walk: steps until the bytes are consumed or the rows
/// are exhausted.
#[verifier::opaque]
pub open spec fn spec_walk(p: &WindowParams, g: Grid, bytes: Seq<u8>, st: WalkState) -> WalkState
    decreases bytes.len() - st.byte_idx,
    when 0 <= st.byte_idx <= bytes.len()
    via spec_walk_decreases
{
    if st.byte_idx >= bytes.len() || st.row >= g.rows {
        st
    } else {
        spec_walk(p, g, bytes, spec_step(p, g, bytes, st))
    }
}

#[via_fn]
proof fn spec_walk_decreases(p: &WindowParams, g: Grid, bytes: Seq<u8>, st: WalkState) {
    if !(st.byte_idx >= bytes.len() || st.row >= g.rows) {
        lemma_step_bounds(p, g, bytes, st);
    }
}

/// The walk's starting state.
pub open spec fn spec_walk_start(p: &WindowParams) -> WalkState {
    WalkState {
        col: 0,
        row: 0,
        charpos: p.window_start as int,
        cursor_placed: false,
        window_end: p.window_start as int,
        byte_idx: 0,
        entries: Seq::empty(),
    }
}

/// The face context entry the walk opens with.
pub open spec fn spec_face_entry(p: &WindowParams) -> GlyphEntry {
    GlyphEntry::Face {
        face_id: 0u32,
        fg: spec_color_from_pixel(p.default_fg),
        bg: Some(spec_color_from_pixel(p.default_bg)),
        bold: false,
        italic: false,
        underline: 0u8,
    }
}

/// Everything a window's layout produces.
pub ghost struct LayoutOutcome {
    /// The draw entries appended, in order.
    pub entries: Seq<GlyphEntry>,
    /// The character position just past the last one consumed.
    pub end_char: int,
    /// The last row reached.
    pub end_row: int,
}

/// What laying out a window's text produces: nothing for an unusable
/// grid; otherwise the face entry, the entries of the walk, the cursor
/// at the final position when the point was never reached, and one
/// stretch over every row below the content.
#[verifier::opaque]
pub open spec fn spec_layout_window(p: &WindowParams, bytes: Seq<u8>) -> LayoutOutcome {
    if !spec_grid_usable(p) {
        LayoutOutcome { entries: Seq::empty(), end_char: p.window_start as int, end_row: 0 }
    } else {
        let g = spec_grid_of(p);
        let stf = spec_walk(p, g, bytes, spec_walk_start(p));
        let with_cursor = if stf.cursor_placed {
            stf.entries
        } else {
            stf.entries + spec_cursor_entries(p, g, stf.col, stf.row)
        };
        let filled0 = if stf.col > 0 {
            stf.row + 1
        } else {
            stf.row
        };
        let filled = if filled0 > g.rows {
            g.rows
        } else {
            filled0
        };
        let tail: Seq<GlyphEntry> = if filled < g.rows {
            seq![
                GlyphEntry::Stretch {
                    x: g.tx as i64,
                    y: (g.ty + filled * g.chh) as i64,
                    width: p.text_bounds.width,
                    height: (spec_avail_height(p) - filled * g.chh) as i64,
                    color: spec_color_from_pixel(p.default_bg),
                    face_id: 0u32,
                },
            ]
        } else {
            Seq::empty()
        };
        LayoutOutcome {
            entries: seq![spec_face_entry(p)] + with_cursor + tail,
            end_char: stf.window_end,
            end_row: if stf.row >= g.rows {
                g.rows - 1
            } else {
                stf.row
            },
        }
    }
}

/// Concatenating two well-formed entry blocks keeps the window suffix
/// properties when the second block starts with a cursor entry.
proof fn lemma_concat_suffix_ok(s1: Seq<GlyphEntry>, s2: Seq<GlyphEntry>, g: Grid, selected: bool)
    requires
        window_suffix_ok(s1, g, selected),
        window_suffix_ok(s2, g, selected),
        s2.len() > 0 ==> s2[0] is Cursor,
    ensures
        window_suffix_ok(s1 + s2, g, selected),
{
    let t = s1 + s2;
    assert forall|i: int| 0 <= i < t.len() implies entry_on_grid(#[trigger] t[i], g, selected) by {
        if i < s1.len() {
            assert(t[i] == s1[i]);
        } else {
            assert(t[i] == s2[i - s1.len()]);
        }
    }
    assert forall|i: int| 0 <= i && i + 1 < t.len() implies adjacent_pair_ok(
        #[trigger] t[i],
        t[i + 1],
    ) by {
        if i + 1 < s1.len() {
            assert(t[i] == s1[i] && t[i + 1] == s1[i + 1]);
        } else if i + 1 == s1.len() {
            assert(t[i + 1] == s2[0]);
        } else {
            assert(t[i] == s2[i - s1.len()] && t[i + 1] == s2[i + 1 - s1.len()]);
        }
    }
    assert forall|i: int|
        0 <= i < t.len() && (#[trigger] t[i]) is CursorInverse implies i > 0 && match (t[i], t[i
        - 1]) {
        (
            GlyphEntry::CursorInverse { x, y, width, height, .. },
            GlyphEntry::Cursor { x: cx, y: cy, width: cww, height: chh2, .. },
        ) => cx == x && cy == y && cww == width && chh2 == height,
        _ => false,
    } by {
        if i < s1.len() {
            assert(t[i] == s1[i]);
            if i > 0 {
                assert(t[i - 1] == s1[i - 1]);
            }
        } else {
            assert(t[i] == s2[i - s1.len()]);
            assert(!(s2[0] is CursorInverse));
            assert(i - s1.len() > 0);
            assert(t[i - 1] == s2[i - 1 - s1.len()]);
        }
    }
}

/// The bookkeeping a window's walk keeps while appending entries: the
/// entries already present before this window are untouched, the
/// appended suffix is well formed, and it holds one cursor entry
/// exactly when the cursor has been placed.
pub open spec fn walk_entries_ok(
    entries: Seq<GlyphEntry>,
    base: Seq<GlyphEntry>,
    g: Grid,
    selected: bool,
    placed: bool,
) -> bool {
    &&& entries.len() >= base.len()
    &&& entries.subrange(0, base.len() as int) == base
    &&& window_suffix_ok(entries.skip(base.len() as int), g, selected)
    &&& cursor_count(entries.skip(base.len() as int)) == if placed {
        1nat
    } else {
        0nat
    }
}

/// Append a stretch entry, keeping the walk bookkeeping. The new last
/// entry is not a glyph, so the last-glyph bookkeeping holds of any
/// position afterwards.
fn push_stretch_entry(
    out: &mut FrameGlyphBuffer,
    Ghost(g): Ghost<Grid>,
    Ghost(base): Ghost<Seq<GlyphEntry>>,
    Ghost(sel): Ghost<bool>,
    Ghost(placed): Ghost<bool>,
    x: i64,
    y: i64,
    width: i64,
    height: i64,
    color: Color,
)
    requires
        walk_entries_ok(old(out).entries@, base, g, sel, placed),
    ensures
        old(out).same_but_entries(*final (out)),
        walk_entries_ok(final (out).entries@, base, g, sel, placed),
        final (out).entries@.len() == old(out).entries@.len() + 1,
        !(final (out).entries@.skip(base.len() as int).last() is Glyph),
        final (out).entries@.skip(base.len() as int).len() > 0,
        final (out).entries@ == old(out).entries@.push(
            GlyphEntry::Stretch { x, y, width, height, color, face_id: 0u32 },
        ),
{
    let ghost suffix0 = out.entries@.skip(base.len() as int);
    out.add_stretch(x, y, width, height, color, 0);
    proof {
        lemma_suffix_push(suffix0, out.entries@.last(), g, sel);
        assert(out.entries@.skip(base.len() as int) =~= suffix0.push(out.entries@.last()));
        lemma_cursor_count_push(suffix0, out.entries@.last());
        assert(out.entries@.subrange(0, base.len() as int) =~= base);
    }
}

/// Append a glyph entry at a grid cell, keeping the walk bookkeeping
/// and the last-glyph bookkeeping for the cell that follows it.
fn push_glyph_entry(
    out: &mut FrameGlyphBuffer,
    Ghost(g): Ghost<Grid>,
    Ghost(base): Ghost<Seq<GlyphEntry>>,
    Ghost(sel): Ghost<bool>,
    Ghost(placed): Ghost<bool>,
    ch: char,
    x: i64,
    y: i64,
    width: i64,
    height: i64,
    ascent: i64,
)
    requires
        walk_entries_ok(old(out).entries@, base, g, sel, placed),
        entry_on_grid(GlyphEntry::Glyph { ch, x, y, width, height, ascent }, g, sel),
        last_glyph_flush(old(out).entries@.skip(base.len() as int), y as int, x as int),
        i64::MIN <= x + width <= i64::MAX,
    ensures
        old(out).same_but_entries(*final (out)),
        walk_entries_ok(final (out).entries@, base, g, sel, placed),
        final (out).entries@.len() == old(out).entries@.len() + 1,
        ({
            let suffix = final (out).entries@.skip(base.len() as int);
            &&& last_glyph_at_most(suffix, y as int)
            &&& last_glyph_flush(suffix, y as int, x + width)
        }),
        final (out).entries@ == old(out).entries@.push(
            GlyphEntry::Glyph { ch, x, y, width, height, ascent },
        ),
{
    let ghost suffix0 = out.entries@.skip(base.len() as int);
    out.add_char(ch, x, y, width, height, ascent);
    proof {
        let e = out.entries@.last();
        assert(suffix0.len() > 0 ==> adjacent_pair_ok(suffix0.last(), e));
        lemma_suffix_push(suffix0, e, g, sel);
        assert(out.entries@.skip(base.len() as int) =~= suffix0.push(e));
        lemma_cursor_count_push(suffix0, e);
        assert(out.entries@.subrange(0, base.len() as int) =~= base);
    }
}

/// Append the cursor entry for a window at grid position `(col, row)`,
/// clamped into the grid, and for a filled box cursor of a selected
/// window the inverse-video entry over the same rectangle.
fn place_cursor(
    out: &mut FrameGlyphBuffer,
    params: &WindowParams,
    Ghost(g): Ghost<Grid>,
    Ghost(base): Ghost<Seq<GlyphEntry>>,
    tx: i64,
    ty: i64,
    cols: i64,
    rows: i64,
    col: i64,
    row: i64,
    fg: Color,
    bg: Color,
)
    requires
        params.wf(),
        g.wf(),
        g.tx == tx,
        g.ty == ty,
        g.cw == params.char_width,
        g.chh == params.char_height,
        g.cols == cols,
        g.rows == rows,
        0 <= col,
        0 <= row,
        walk_entries_ok(old(out).entries@, base, g, params.selected, false),
        fg == spec_color_from_pixel(params.default_fg),
        bg == spec_color_from_pixel(params.default_bg),
    ensures
        old(out).same_but_entries(*final (out)),
        walk_entries_ok(final (out).entries@, base, g, params.selected, true),
        !(final (out).entries@.skip(base.len() as int).last() is Glyph),
        final (out).entries@.skip(base.len() as int).len() > 0,
        final (out).entries@.skip(base.len() as int) == old(out).entries@.skip(base.len() as int)
            + spec_cursor_entries(params, g, col as int, row as int),
        base.len() + 1 <= old(out).entries@.len() ==> final (out).entries@.skip(
            base.len() as int + 1,
        ) == old(out).entries@.skip(base.len() as int + 1) + spec_cursor_entries(
            params,
            g,
            col as int,
            row as int,
        ) && final (out).entries@[base.len() as int] == old(out).entries@[base.len() as int],
{
    let ghost pre_suffix = out.entries@.skip(base.len() as int);
    let cw = params.char_width;
    let chh = params.char_height;
    let ccol = if col >= cols {
        cols - 1
    } else {
        col
    };
    let crow = if row >= rows {
        rows - 1
    } else {
        row
    };
    proof {
        assert(0 <= (ccol as int) * (cw as int) && (ccol as int) * (cw as int) + cw <= (
        cols as int) * (cw as int)) by (nonlinear_arith)
            requires
                0 <= ccol as int,
                ccol as int <= cols as int - 1,
                1 <= cw as int,
        ;
        assert(0 <= (crow as int) * (chh as int) && (crow as int) * (chh as int) + chh <= (
        rows as int) * (chh as int)) by (nonlinear_arith)
            requires
                0 <= crow as int,
                crow as int <= rows as int - 1,
                1 <= chh as int,
        ;
    }
    let cursor_x = tx + ccol * cw;
    let cursor_y = ty + crow * chh;
    let (cursor_w, cursor_h): (i64, i64) = if params.cursor_type == 1 {
        let bw = if params.cursor_bar_width < 1 {
            1
        } else {
            params.cursor_bar_width
        };
        let bw = if bw > cw {
            cw
        } else {
            bw
        };
        (bw, chh)
    } else if params.cursor_type == 2 {
        let hh = if chh < 2 {
            chh
        } else {
            2
        };
        (cw, hh)
    } else {
        (cw, chh)
    };
    let cursor_style: u8 = if params.selected {
        params.cursor_type
    } else {
        3
    };
    out.add_cursor(params.window_id, cursor_x, cursor_y, cursor_w, cursor_h, cursor_style, fg);
    let ghost cursor_entry = out.entries@.last();
    proof {
        let suffix1 = out.entries@.skip(base.len() as int);
        assert(entry_on_grid(cursor_entry, g, params.selected));
        lemma_suffix_push(pre_suffix, cursor_entry, g, params.selected);
        assert(suffix1 =~= pre_suffix.push(cursor_entry));
        lemma_cursor_count_push(pre_suffix, cursor_entry);
        assert(out.entries@.subrange(0, base.len() as int) =~= base);
    }
    if cursor_style == 0 {
        let ghost suffix1 = out.entries@.skip(base.len() as int);
        out.set_cursor_inverse(cursor_x, cursor_y, cursor_w, cursor_h, fg, bg);
        proof {
            let e = out.entries@.last();
            lemma_suffix_push_inverse(suffix1, e, g, params.selected);
            assert(out.entries@.skip(base.len() as int) =~= suffix1.push(e));
            lemma_cursor_count_push(suffix1, e);
            assert(out.entries@.subrange(0, base.len() as int) =~= base);
        }
    }
    proof {
        assert(out.entries@.skip(base.len() as int) =~= pre_suffix + spec_cursor_entries(
            params,
            g,
            col as int,
            row as int,
        ));
        if base.len() + 1 <= old(out).entries@.len() {
            assert(out.entries@.skip(base.len() as int + 1) =~= old(out).entries@.skip(
                base.len() as int + 1,
            ) + spec_cursor_entries(params, g, col as int, row as int));
        }
    }
}



/// Stepping from a state whose cursor bookkeeping is already applied
/// gives the same result as stepping from the original state.
proof fn lemma_step_via_stable(p: &WindowParams, g: Grid, bytes: Seq<u8>, st: WalkState)
    ensures
        spec_step(p, g, bytes, st) == spec_step(p, g, bytes, spec_apply_cursor(p, g, st)),
{
    reveal(spec_step);
}

/// Unfolding the walk one step: while bytes and rows remain, the walk
/// equals the walk from the stepped state.
proof fn lemma_walk_unfold(p: &WindowParams, g: Grid, bytes: Seq<u8>, st: WalkState)
    requires
        0 <= st.byte_idx < bytes.len(),
        st.row < g.rows,
    ensures
        spec_walk(p, g, bytes, st) == spec_walk(p, g, bytes, spec_step(p, g, bytes, st)),
{
    reveal_with_fuel(spec_walk, 2);
    lemma_step_bounds(p, g, bytes, st);
}

/// The walk is finished once the bytes are consumed or the rows are
/// exhausted.
proof fn lemma_walk_terminal(p: &WindowParams, g: Grid, bytes: Seq<u8>, st: WalkState)
    requires
        0 <= st.byte_idx <= bytes.len(),
        st.byte_idx >= bytes.len() || st.row >= g.rows,
    ensures
        spec_walk(p, g, bytes, st) == st,
{
    reveal(spec_walk);
}

/// The layout outcome of an unusable grid: nothing.
proof fn lemma_layout_unusable(p: &WindowParams, bytes: Seq<u8>)
    requires
        !spec_grid_usable(p),
    ensures
        spec_layout_window(p, bytes) == (LayoutOutcome {
            entries: Seq::<GlyphEntry>::empty(),
            end_char: p.window_start as int,
            end_row: 0,
        }),
{
    reveal(spec_layout_window);
}

/// The layout outcome of a usable grid, written out over the walk's
/// final state.
proof fn lemma_layout_usable(p: &WindowParams, bytes: Seq<u8>)
    requires
        spec_grid_usable(p),
    ensures
        ({
            let g = spec_grid_of(p);
            let stf = spec_walk(p, g, bytes, spec_walk_start(p));
            let with_cursor = if stf.cursor_placed {
                stf.entries
            } else {
                stf.entries + spec_cursor_entries(p, g, stf.col, stf.row)
            };
            let filled0 = if stf.col > 0 {
                stf.row + 1
            } else {
                stf.row
            };
            let filled = if filled0 > g.rows {
                g.rows
            } else {
                filled0
            };
            let tail: Seq<GlyphEntry> = if filled < g.rows {
                seq![
                    GlyphEntry::Stretch {
                        x: g.tx as i64,
                        y: (g.ty + filled * g.chh) as i64,
                        width: p.text_bounds.width,
                        height: (spec_avail_height(p) - filled * g.chh) as i64,
                        color: spec_color_from_pixel(p.default_bg),
                        face_id: 0u32,
                    },
                ]
            } else {
                Seq::empty()
            };
            spec_layout_window(p, bytes) == (LayoutOutcome {
                entries: seq![spec_face_entry(p)] + with_cursor + tail,
                end_char: stf.window_end,
                end_row: if stf.row >= g.rows {
                    g.rows - 1
                } else {
                    stf.row
                },
            })
        }),
{
    reveal(spec_layout_window);
}

/// One iteration of the text walk: place the cursor when the point is
/// reached, decode one character, and lay it out. The state after the
/// call is exactly `spec_step` of the state before it.
#[verifier::rlimit(100)]
#[verifier::spinoff_prover]


/// One walk step, after the cursor check and the decode, in its
/// `carriage-return` form: the character is dropped; the resulting
/// state is exactly `spec_step` of the state before the step.
#[verifier::rlimit(100)]
#[verifier::spinoff_prover]
fn step_carriage(
    params: &WindowParams,
    bytes: &[u8],
    out: &mut FrameGlyphBuffer,
    col: i64,
    row: i64,
    charpos: i64,
    cursor_placed: bool,
    window_end: i64,
    byte_idx: usize,
    tab_w: i64,
    tx: i64,
    ty: i64,
    cols: i64,
    rows: i64,
    cw: i64,
    chh: i64,
    ascent: i64,
    fg: Color,
    bg: Color,
    ch: char,
    ch_len: usize,
    Ghost(g): Ghost<Grid>,
    Ghost(base): Ghost<Seq<GlyphEntry>>,
    Ghost(st_1): Ghost<WalkState>,
) -> (r: (i64, i64, i64, bool, i64, usize))
    requires
        params.wf(),
        g == spec_grid_of(params),
        g.wf(),
        g.cols == cols,
        g.rows == rows,
        g.tx == tx,
        g.ty == ty,
        g.cw == cw,
        g.chh == chh,
        g.ascent == ascent,
        tab_w as int == spec_tab_w(params),
        1 <= tab_w <= MAX_WINDOW_DIM,
        cols <= MAX_WINDOW_DIM,
        rows <= MAX_WINDOW_DIM,
        fg == spec_color_from_pixel(params.default_fg),
        bg == spec_color_from_pixel(params.default_bg),
        st_1.col == col as int,
        st_1.row == row as int,
        st_1.cursor_placed == cursor_placed,
        st_1.window_end == window_end as int,
        charpos as int == st_1.charpos + 1,
        byte_idx as int == st_1.byte_idx + ch_len,
        st_1.entries == old(out).entries@.skip(base.len() as int + 1),
        st_1.cursor_placed || st_1.charpos < params.point,
        (ch, ch_len as int) == spec_decode_at(bytes@, st_1.byte_idx),
        1 <= ch_len <= 4,
        walk_entries_ok(old(out).entries@, base, g, params.selected, cursor_placed),
        last_glyph_at_most(old(out).entries@.skip(base.len() as int), g.ty + row * g.chh),
        last_glyph_flush(
            old(out).entries@.skip(base.len() as int),
            g.ty + row * g.chh,
            g.tx + col * g.cw,
        ),
        0 <= col <= cols,
        0 <= row < rows,
        params.window_start <= st_1.charpos,
        st_1.charpos - params.window_start <= st_1.byte_idx,
        0 <= st_1.byte_idx,
        byte_idx <= bytes@.len(),
        params.window_start + bytes@.len() <= i64::MAX,
        params.window_start <= window_end,
        window_end as int <= st_1.charpos,
        base.len() + 1 <= old(out).entries@.len(),
        old(out).entries@[base.len() as int] == spec_face_entry(params),
        ch == '\r',
    ensures
        old(out).same_but_entries(*final (out)),
        walk_entries_ok(final (out).entries@, base, g, params.selected, r.3),
        last_glyph_at_most(final (out).entries@.skip(base.len() as int), g.ty + r.1 * g.chh),
        last_glyph_flush(
            final (out).entries@.skip(base.len() as int),
            g.ty + r.1 * g.chh,
            g.tx + r.0 * g.cw,
        ),
        0 <= r.0 <= cols,
        0 <= r.1 <= rows,
        params.window_start <= r.2,
        r.2 - params.window_start <= r.5,
        st_1.byte_idx < r.5 <= bytes@.len(),
        params.window_start <= r.4 <= r.2,
        base.len() + 1 <= final (out).entries@.len(),
        final (out).entries@[base.len() as int] == spec_face_entry(params),
        (WalkState {
            col: r.0 as int,
            row: r.1 as int,
            charpos: r.2 as int,
            cursor_placed: r.3,
            window_end: r.4 as int,
            byte_idx: r.5 as int,
            entries: final (out).entries@.skip(base.len() as int + 1),
        } == spec_step(params, g, bytes@, st_1)),
{
    let window_end = charpos;
    proof {
        assert(WalkState {
            col: col as int,
            row: row as int,
            charpos: charpos as int,
            cursor_placed: cursor_placed,
            window_end: window_end as int,
            byte_idx: byte_idx as int,
            entries: out.entries@.skip(base.len() as int + 1),
        } == spec_step(params, g, bytes@, st_1)) by {
            reveal(spec_step);
        }
    }
    (col, row, charpos, cursor_placed, window_end, byte_idx)
}

/// One walk step, after the cursor check and the decode, in its `newline`
/// form; the resulting state is exactly `spec_step` of the state
/// before the step.
#[verifier::rlimit(100)]
#[verifier::spinoff_prover]
fn step_newline(
    params: &WindowParams,
    bytes: &[u8],
    out: &mut FrameGlyphBuffer,
    col: i64,
    row: i64,
    charpos: i64,
    cursor_placed: bool,
    window_end: i64,
    byte_idx: usize,
    tab_w: i64,
    tx: i64,
    ty: i64,
    cols: i64,
    rows: i64,
    cw: i64,
    chh: i64,
    ascent: i64,
    fg: Color,
    bg: Color,
    ch: char,
    ch_len: usize,
    Ghost(g): Ghost<Grid>,
    Ghost(base): Ghost<Seq<GlyphEntry>>,
    Ghost(st_1): Ghost<WalkState>,
) -> (r: (i64, i64, i64, bool, i64, usize))
    requires
        params.wf(),
        g == spec_grid_of(params),
        g.wf(),
        g.cols == cols,
        g.rows == rows,
        g.tx == tx,
        g.ty == ty,
        g.cw == cw,
        g.chh == chh,
        g.ascent == ascent,
        tab_w as int == spec_tab_w(params),
        1 <= tab_w <= MAX_WINDOW_DIM,
        cols <= MAX_WINDOW_DIM,
        rows <= MAX_WINDOW_DIM,
        fg == spec_color_from_pixel(params.default_fg),
        bg == spec_color_from_pixel(params.default_bg),
        st_1.col == col as int,
        st_1.row == row as int,
        st_1.cursor_placed == cursor_placed,
        st_1.window_end == window_end as int,
        charpos as int == st_1.charpos + 1,
        byte_idx as int == st_1.byte_idx + ch_len,
        st_1.entries == old(out).entries@.skip(base.len() as int + 1),
        st_1.cursor_placed || st_1.charpos < params.point,
        (ch, ch_len as int) == spec_decode_at(bytes@, st_1.byte_idx),
        1 <= ch_len <= 4,
        walk_entries_ok(old(out).entries@, base, g, params.selected, cursor_placed),
        last_glyph_at_most(old(out).entries@.skip(base.len() as int), g.ty + row * g.chh),
        last_glyph_flush(
            old(out).entries@.skip(base.len() as int),
            g.ty + row * g.chh,
            g.tx + col * g.cw,
        ),
        0 <= col <= cols,
        0 <= row < rows,
        params.window_start <= st_1.charpos,
        st_1.charpos - params.window_start <= st_1.byte_idx,
        0 <= st_1.byte_idx,
        byte_idx <= bytes@.len(),
        params.window_start + bytes@.len() <= i64::MAX,
        params.window_start <= window_end,
        window_end as int <= st_1.charpos,
        base.len() + 1 <= old(out).entries@.len(),
        old(out).entries@[base.len() as int] == spec_face_entry(params),
        ch == '\n',
    ensures
        old(out).same_but_entries(*final (out)),
        walk_entries_ok(final (out).entries@, base, g, params.selected, r.3),
        last_glyph_at_most(final (out).entries@.skip(base.len() as int), g.ty + r.1 * g.chh),
        last_glyph_flush(
            final (out).entries@.skip(base.len() as int),
            g.ty + r.1 * g.chh,
            g.tx + r.0 * g.cw,
        ),
        0 <= r.0 <= cols,
        0 <= r.1 <= rows,
        params.window_start <= r.2,
        r.2 - params.window_start <= r.5,
        st_1.byte_idx < r.5 <= bytes@.len(),
        params.window_start <= r.4 <= r.2,
        base.len() + 1 <= final (out).entries@.len(),
        final (out).entries@[base.len() as int] == spec_face_entry(params),
        (WalkState {
            col: r.0 as int,
            row: r.1 as int,
            charpos: r.2 as int,
            cursor_placed: r.3,
            window_end: r.4 as int,
            byte_idx: r.5 as int,
            entries: final (out).entries@.skip(base.len() as int + 1),
        } == spec_step(params, g, bytes@, st_1)),
{
    let ghost sel = params.selected;
    let n = bytes.len();
    let mut col = col;
    let mut row = row;
    let mut charpos = charpos;
    let mut byte_idx = byte_idx;
    let mut window_end = window_end;
    let cp = ch as u32;
    // Fill the rest of the row, then move to the next row.
    let remaining = cols - col;
    if remaining > 0 {
        proof {
            lemma_mul_le(col as int, g.cols, g.cw);
            lemma_mul_le(row as int, g.rows, g.chh);
            lemma_mul_le(remaining as int, g.cols, g.cw);
        }
        push_stretch_entry(
            out,
            Ghost(g),
            Ghost(base),
            Ghost(sel),
            Ghost(cursor_placed),
            tx + col * cw,
            ty + row * chh,
            remaining * cw,
            chh,
            bg,
        );
    }
    let ghost row0 = row as int;
    col = 0;
    row = row + 1;
    proof {
        lemma_dist(row0, 1, g.chh);
        lemma_flush_row_advance(
            out.entries@.skip(base.len() as int),
            g.ty + row0 * g.chh,
            g.ty + row * g.chh,
            g.tx + col * g.cw,
        );
        assert(out.entries@.skip(base.len() as int + 1) =~= st_1.entries + spec_row_fill(
            params,
            g,
            st_1.col,
            st_1.row,
        ));
    }
    window_end = charpos;
    proof {
        assert(WalkState {
            col: col as int,
            row: row as int,
            charpos: charpos as int,
            cursor_placed: cursor_placed,
            window_end: window_end as int,
            byte_idx: byte_idx as int,
            entries: out.entries@.skip(base.len() as int + 1),
        } == spec_step(params, g, bytes@, st_1)) by {
            reveal(spec_step);
        }
    }
    (col, row, charpos, cursor_placed, window_end, byte_idx)
}

/// One walk step, after the cursor check and the decode, in its `tab`
/// form; the resulting state is exactly `spec_step` of the state
/// before the step.
#[verifier::rlimit(100)]
#[verifier::spinoff_prover]
fn step_tab(
    params: &WindowParams,
    bytes: &[u8],
    out: &mut FrameGlyphBuffer,
    col: i64,
    row: i64,
    charpos: i64,
    cursor_placed: bool,
    window_end: i64,
    byte_idx: usize,
    tab_w: i64,
    tx: i64,
    ty: i64,
    cols: i64,
    rows: i64,
    cw: i64,
    chh: i64,
    ascent: i64,
    fg: Color,
    bg: Color,
    ch: char,
    ch_len: usize,
    Ghost(g): Ghost<Grid>,
    Ghost(base): Ghost<Seq<GlyphEntry>>,
    Ghost(st_1): Ghost<WalkState>,
) -> (r: (i64, i64, i64, bool, i64, usize))
    requires
        params.wf(),
        g == spec_grid_of(params),
        g.wf(),
        g.cols == cols,
        g.rows == rows,
        g.tx == tx,
        g.ty == ty,
        g.cw == cw,
        g.chh == chh,
        g.ascent == ascent,
        tab_w as int == spec_tab_w(params),
        1 <= tab_w <= MAX_WINDOW_DIM,
        cols <= MAX_WINDOW_DIM,
        rows <= MAX_WINDOW_DIM,
        fg == spec_color_from_pixel(params.default_fg),
        bg == spec_color_from_pixel(params.default_bg),
        st_1.col == col as int,
        st_1.row == row as int,
        st_1.cursor_placed == cursor_placed,
        st_1.window_end == window_end as int,
        charpos as int == st_1.charpos + 1,
        byte_idx as int == st_1.byte_idx + ch_len,
        st_1.entries == old(out).entries@.skip(base.len() as int + 1),
        st_1.cursor_placed || st_1.charpos < params.point,
        (ch, ch_len as int) == spec_decode_at(bytes@, st_1.byte_idx),
        1 <= ch_len <= 4,
        walk_entries_ok(old(out).entries@, base, g, params.selected, cursor_placed),
        last_glyph_at_most(old(out).entries@.skip(base.len() as int), g.ty + row * g.chh),
        last_glyph_flush(
            old(out).entries@.skip(base.len() as int),
            g.ty + row * g.chh,
            g.tx + col * g.cw,
        ),
        0 <= col <= cols,
        0 <= row < rows,
        params.window_start <= st_1.charpos,
        st_1.charpos - params.window_start <= st_1.byte_idx,
        0 <= st_1.byte_idx,
        byte_idx <= bytes@.len(),
        params.window_start + bytes@.len() <= i64::MAX,
        params.window_start <= window_end,
        window_end as int <= st_1.charpos,
        base.len() + 1 <= old(out).entries@.len(),
        old(out).entries@[base.len() as int] == spec_face_entry(params),
        ch == '\t',
    ensures
        old(out).same_but_entries(*final (out)),
        walk_entries_ok(final (out).entries@, base, g, params.selected, r.3),
        last_glyph_at_most(final (out).entries@.skip(base.len() as int), g.ty + r.1 * g.chh),
        last_glyph_flush(
            final (out).entries@.skip(base.len() as int),
            g.ty + r.1 * g.chh,
            g.tx + r.0 * g.cw,
        ),
        0 <= r.0 <= cols,
        0 <= r.1 <= rows,
        params.window_start <= r.2,
        r.2 - params.window_start <= r.5,
        st_1.byte_idx < r.5 <= bytes@.len(),
        params.window_start <= r.4 <= r.2,
        base.len() + 1 <= final (out).entries@.len(),
        final (out).entries@[base.len() as int] == spec_face_entry(params),
        (WalkState {
            col: r.0 as int,
            row: r.1 as int,
            charpos: r.2 as int,
            cursor_placed: r.3,
            window_end: r.4 as int,
            byte_idx: r.5 as int,
            entries: final (out).entries@.skip(base.len() as int + 1),
        } == spec_step(params, g, bytes@, st_1)),
{
    let ghost sel = params.selected;
    let n = bytes.len();
    let mut col = col;
    let mut row = row;
    let mut charpos = charpos;
    let mut byte_idx = byte_idx;
    let mut window_end = window_end;
    let cp = ch as u32;
    // Advance to the next tab stop, capped at the right edge.
    let q = col / tab_w;
    proof {
        lemma_fundamental_div_mod(col as int, tab_w as int);
        lemma_mod_division_less_than_divisor(col as int, tab_w as int);
        lemma_div_pos_is_pos(col as int, tab_w as int);
        lemma_div_nonincreasing(col as int, tab_w as int);
        assert(0 <= (q as int + 1) * (tab_w as int) && (q as int + 1) * (tab_w as int) <= (
        MAX_WINDOW_DIM as int + 1) * (MAX_WINDOW_DIM as int) && (q as int + 1) * (
        tab_w as int) == (q as int) * (tab_w as int) + tab_w) by (nonlinear_arith)
            requires
                0 <= q as int <= MAX_WINDOW_DIM as int,
                1 <= tab_w as int <= MAX_WINDOW_DIM as int,
        ;
    }
    let next_tab = (q + 1) * tab_w;
    let spaces = if next_tab - col < cols - col {
        next_tab - col
    } else {
        cols - col
    };
    proof {
        assert((q as int) * (tab_w as int) == (tab_w as int) * (q as int))
            by (nonlinear_arith);
        assert(col < next_tab);
        assert(0 <= spaces <= cols);
        lemma_mul_le(col as int, g.cols, g.cw);
        lemma_mul_le(row as int, g.rows, g.chh);
        lemma_mul_le(spaces as int, g.cols, g.cw);
    }
    push_stretch_entry(
        out,
        Ghost(g),
        Ghost(base),
        Ghost(sel),
        Ghost(cursor_placed),
        tx + col * cw,
        ty + row * chh,
        spaces * cw,
        chh,
        bg,
    );
    proof {
        assert(out.entries@.skip(base.len() as int + 1) =~= st_1.entries + seq![
            GlyphEntry::Stretch {
                x: (g.tx + st_1.col * g.cw) as i64,
                y: (g.ty + st_1.row * g.chh) as i64,
                width: (spaces as int * g.cw) as i64,
                height: g.chh as i64,
                color: spec_color_from_pixel(params.default_bg),
                face_id: 0u32,
            },
        ]);
    }
    col = col + spaces;
    if col >= cols {
        let ghost row0 = row as int;
        if params.truncate_lines {
            skip_line_rest(bytes, &mut byte_idx, &mut charpos, &mut col, &mut row);
        } else {
            col = 0;
            row = row + 1;
        }
        proof {
            if row as int != row0 {
                lemma_dist(row0, 1, g.chh);
                lemma_flush_row_advance(
                    out.entries@.skip(base.len() as int),
                    g.ty + row0 * g.chh,
                    g.ty + row * g.chh,
                    g.tx + col * g.cw,
                );
            }
        }
    }
    window_end = charpos;
    proof {
        assert(WalkState {
            col: col as int,
            row: row as int,
            charpos: charpos as int,
            cursor_placed: cursor_placed,
            window_end: window_end as int,
            byte_idx: byte_idx as int,
            entries: out.entries@.skip(base.len() as int + 1),
        } == spec_step(params, g, bytes@, st_1)) by {
            reveal(spec_step);
        }
    }
    (col, row, charpos, cursor_placed, window_end, byte_idx)
}

/// One walk step, after the cursor check and the decode, in its `control`
/// form; the resulting state is exactly `spec_step` of the state
/// before the step.
#[verifier::rlimit(100)]
#[verifier::spinoff_prover]
fn step_control(
    params: &WindowParams,
    bytes: &[u8],
    out: &mut FrameGlyphBuffer,
    col: i64,
    row: i64,
    charpos: i64,
    cursor_placed: bool,
    window_end: i64,
    byte_idx: usize,
    tab_w: i64,
    tx: i64,
    ty: i64,
    cols: i64,
    rows: i64,
    cw: i64,
    chh: i64,
    ascent: i64,
    fg: Color,
    bg: Color,
    ch: char,
    ch_len: usize,
    Ghost(g): Ghost<Grid>,
    Ghost(base): Ghost<Seq<GlyphEntry>>,
    Ghost(st_1): Ghost<WalkState>,
) -> (r: (i64, i64, i64, bool, i64, usize))
    requires
        params.wf(),
        g == spec_grid_of(params),
        g.wf(),
        g.cols == cols,
        g.rows == rows,
        g.tx == tx,
        g.ty == ty,
        g.cw == cw,
        g.chh == chh,
        g.ascent == ascent,
        tab_w as int == spec_tab_w(params),
        1 <= tab_w <= MAX_WINDOW_DIM,
        cols <= MAX_WINDOW_DIM,
        rows <= MAX_WINDOW_DIM,
        fg == spec_color_from_pixel(params.default_fg),
        bg == spec_color_from_pixel(params.default_bg),
        st_1.col == col as int,
        st_1.row == row as int,
        st_1.cursor_placed == cursor_placed,
        st_1.window_end == window_end as int,
        charpos as int == st_1.charpos + 1,
        byte_idx as int == st_1.byte_idx + ch_len,
        st_1.entries == old(out).entries@.skip(base.len() as int + 1),
        st_1.cursor_placed || st_1.charpos < params.point,
        (ch, ch_len as int) == spec_decode_at(bytes@, st_1.byte_idx),
        1 <= ch_len <= 4,
        walk_entries_ok(old(out).entries@, base, g, params.selected, cursor_placed),
        last_glyph_at_most(old(out).entries@.skip(base.len() as int), g.ty + row * g.chh),
        last_glyph_flush(
            old(out).entries@.skip(base.len() as int),
            g.ty + row * g.chh,
            g.tx + col * g.cw,
        ),
        0 <= col <= cols,
        0 <= row < rows,
        params.window_start <= st_1.charpos,
        st_1.charpos - params.window_start <= st_1.byte_idx,
        0 <= st_1.byte_idx,
        byte_idx <= bytes@.len(),
        params.window_start + bytes@.len() <= i64::MAX,
        params.window_start <= window_end,
        window_end as int <= st_1.charpos,
        base.len() + 1 <= old(out).entries@.len(),
        old(out).entries@[base.len() as int] == spec_face_entry(params),
        (ch as u32) < 0x20,
        ch != '\n',
        ch != '\t',
        ch != '\r',
    ensures
        old(out).same_but_entries(*final (out)),
        walk_entries_ok(final (out).entries@, base, g, params.selected, r.3),
        last_glyph_at_most(final (out).entries@.skip(base.len() as int), g.ty + r.1 * g.chh),
        last_glyph_flush(
            final (out).entries@.skip(base.len() as int),
            g.ty + r.1 * g.chh,
            g.tx + r.0 * g.cw,
        ),
        0 <= r.0 <= cols,
        0 <= r.1 <= rows,
        params.window_start <= r.2,
        r.2 - params.window_start <= r.5,
        st_1.byte_idx < r.5 <= bytes@.len(),
        params.window_start <= r.4 <= r.2,
        base.len() + 1 <= final (out).entries@.len(),
        final (out).entries@[base.len() as int] == spec_face_entry(params),
        (WalkState {
            col: r.0 as int,
            row: r.1 as int,
            charpos: r.2 as int,
            cursor_placed: r.3,
            window_end: r.4 as int,
            byte_idx: r.5 as int,
            entries: final (out).entries@.skip(base.len() as int + 1),
        } == spec_step(params, g, bytes@, st_1)),
{
    let ghost sel = params.selected;
    let n = bytes.len();
    let mut col = col;
    let mut row = row;
    let mut charpos = charpos;
    let mut byte_idx = byte_idx;
    let mut window_end = window_end;
    let cp = ch as u32;
    // Control character: a caret pair over two cells.
    if col + 2 <= cols {
        proof {
            lemma_mul_le(col as int, g.cols - 2, g.cw);
            lemma_dist(col as int, 1, g.cw);
            lemma_dist(col as int + 1, 1, g.cw);
            lemma_mul_le(col as int + 2, g.cols, g.cw);
            lemma_mul_le(row as int, g.rows, g.chh);
            lemma_dist(row as int, 1, g.chh);
            lemma_mul_le(row as int + 1, g.rows, g.chh);
        }
        let gx = tx + col * cw;
        let gy = ty + row * chh;
        push_glyph_entry(
            out,
            Ghost(g),
            Ghost(base),
            Ghost(sel),
            Ghost(cursor_placed),
            '^',
            gx,
            gy,
            cw,
            chh,
            ascent,
        );
        let letter = control_display_char(cp);
        proof {
            vstd::utf8::char_u32_cast(spec_caret_letter(ch), (((ch as u32) + 0x40) as u32));
        }
        push_glyph_entry(
            out,
            Ghost(g),
            Ghost(base),
            Ghost(sel),
            Ghost(cursor_placed),
            letter,
            gx + cw,
            gy,
            cw,
            chh,
            ascent,
        );
        proof {
            assert(letter == spec_caret_letter(ch));
            assert(out.entries@.skip(base.len() as int + 1) =~= st_1.entries + seq![
                spec_cell_glyph(g, '^', st_1.col, st_1.row, 1, g.ascent),
                spec_cell_glyph(
                    g,
                    spec_caret_letter(ch),
                    st_1.col + 1,
                    st_1.row,
                    1,
                    g.ascent,
                ),
            ]);
        }
        col = col + 2;
    } else {
        let ghost row0 = row as int;
        if params.truncate_lines {
            skip_line_rest(bytes, &mut byte_idx, &mut charpos, &mut col, &mut row);
        } else {
            col = 0;
            row = row + 1;
        }
        proof {
            if row as int != row0 {
                lemma_dist(row0, 1, g.chh);
                lemma_flush_row_advance(
                    out.entries@.skip(base.len() as int),
                    g.ty + row0 * g.chh,
                    g.ty + row * g.chh,
                    g.tx + col * g.cw,
                );
            }
        }
    }
    window_end = charpos;
    proof {
        assert(WalkState {
            col: col as int,
            row: row as int,
            charpos: charpos as int,
            cursor_placed: cursor_placed,
            window_end: window_end as int,
            byte_idx: byte_idx as int,
            entries: out.entries@.skip(base.len() as int + 1),
        } == spec_step(params, g, bytes@, st_1)) by {
            reveal(spec_step);
        }
    }
    (col, row, charpos, cursor_placed, window_end, byte_idx)
}

/// One walk step, after the cursor check and the decode, in its `ordinary`
/// form; the resulting state is exactly `spec_step` of the state
/// before the step.
#[verifier::rlimit(100)]
#[verifier::spinoff_prover]
fn step_ordinary(
    params: &WindowParams,
    bytes: &[u8],
    out: &mut FrameGlyphBuffer,
    col: i64,
    row: i64,
    charpos: i64,
    cursor_placed: bool,
    window_end: i64,
    byte_idx: usize,
    tab_w: i64,
    tx: i64,
    ty: i64,
    cols: i64,
    rows: i64,
    cw: i64,
    chh: i64,
    ascent: i64,
    fg: Color,
    bg: Color,
    ch: char,
    ch_len: usize,
    Ghost(g): Ghost<Grid>,
    Ghost(base): Ghost<Seq<GlyphEntry>>,
    Ghost(st_1): Ghost<WalkState>,
) -> (r: (i64, i64, i64, bool, i64, usize))
    requires
        params.wf(),
        g == spec_grid_of(params),
        g.wf(),
        g.cols == cols,
        g.rows == rows,
        g.tx == tx,
        g.ty == ty,
        g.cw == cw,
        g.chh == chh,
        g.ascent == ascent,
        tab_w as int == spec_tab_w(params),
        1 <= tab_w <= MAX_WINDOW_DIM,
        cols <= MAX_WINDOW_DIM,
        rows <= MAX_WINDOW_DIM,
        fg == spec_color_from_pixel(params.default_fg),
        bg == spec_color_from_pixel(params.default_bg),
        st_1.col == col as int,
        st_1.row == row as int,
        st_1.cursor_placed == cursor_placed,
        st_1.window_end == window_end as int,
        charpos as int == st_1.charpos + 1,
        byte_idx as int == st_1.byte_idx + ch_len,
        st_1.entries == old(out).entries@.skip(base.len() as int + 1),
        st_1.cursor_placed || st_1.charpos < params.point,
        (ch, ch_len as int) == spec_decode_at(bytes@, st_1.byte_idx),
        1 <= ch_len <= 4,
        walk_entries_ok(old(out).entries@, base, g, params.selected, cursor_placed),
        last_glyph_at_most(old(out).entries@.skip(base.len() as int), g.ty + row * g.chh),
        last_glyph_flush(
            old(out).entries@.skip(base.len() as int),
            g.ty + row * g.chh,
            g.tx + col * g.cw,
        ),
        0 <= col <= cols,
        0 <= row < rows,
        params.window_start <= st_1.charpos,
        st_1.charpos - params.window_start <= st_1.byte_idx,
        0 <= st_1.byte_idx,
        byte_idx <= bytes@.len(),
        params.window_start + bytes@.len() <= i64::MAX,
        params.window_start <= window_end,
        window_end as int <= st_1.charpos,
        base.len() + 1 <= old(out).entries@.len(),
        old(out).entries@[base.len() as int] == spec_face_entry(params),
        (ch as u32) >= 0x20,
    ensures
        old(out).same_but_entries(*final (out)),
        walk_entries_ok(final (out).entries@, base, g, params.selected, r.3),
        last_glyph_at_most(final (out).entries@.skip(base.len() as int), g.ty + r.1 * g.chh),
        last_glyph_flush(
            final (out).entries@.skip(base.len() as int),
            g.ty + r.1 * g.chh,
            g.tx + r.0 * g.cw,
        ),
        0 <= r.0 <= cols,
        0 <= r.1 <= rows,
        params.window_start <= r.2,
        r.2 - params.window_start <= r.5,
        st_1.byte_idx < r.5 <= bytes@.len(),
        params.window_start <= r.4 <= r.2,
        base.len() + 1 <= final (out).entries@.len(),
        final (out).entries@[base.len() as int] == spec_face_entry(params),
        (WalkState {
            col: r.0 as int,
            row: r.1 as int,
            charpos: r.2 as int,
            cursor_placed: r.3,
            window_end: r.4 as int,
            byte_idx: r.5 as int,
            entries: final (out).entries@.skip(base.len() as int + 1),
        } == spec_step(params, g, bytes@, st_1)),
{
    let ghost sel = params.selected;
    let n = bytes.len();
    let mut col = col;
    let mut row = row;
    let mut charpos = charpos;
    let mut byte_idx = byte_idx;
    let mut window_end = window_end;
    let cp = ch as u32;
    // Ordinary character: one cell, or two for a wide character.
    let wcols: i64 = if chars::is_wide_char(cp) {
        2
    } else {
        1
    };
    let mut emit = true;
    if col + wcols > cols {
        if params.truncate_lines {
            let ghost row0 = row as int;
            skip_line_rest(bytes, &mut byte_idx, &mut charpos, &mut col, &mut row);
            emit = false;
            proof {
                if row as int != row0 {
                    lemma_dist(row0, 1, g.chh);
                    lemma_flush_row_advance(
                        out.entries@.skip(base.len() as int),
                        g.ty + row0 * g.chh,
                        g.ty + row * g.chh,
                        g.tx + col * g.cw,
                    );
                }
            }
        } else {
            let remaining = cols - col;
            if remaining > 0 {
                proof {
                    lemma_mul_le(col as int, g.cols, g.cw);
                    lemma_mul_le(row as int, g.rows, g.chh);
                    lemma_mul_le(remaining as int, g.cols, g.cw);
                }
                push_stretch_entry(
                    out,
                    Ghost(g),
                    Ghost(base),
                    Ghost(sel),
                    Ghost(cursor_placed),
                    tx + col * cw,
                    ty + row * chh,
                    remaining * cw,
                    chh,
                    bg,
                );
            }
            let ghost row0 = row as int;
            col = 0;
            row = row + 1;
            proof {
                lemma_dist(row0, 1, g.chh);
                lemma_flush_row_advance(
                    out.entries@.skip(base.len() as int),
                    g.ty + row0 * g.chh,
                    g.ty + row * g.chh,
                    g.tx + col * g.cw,
                );
                assert(out.entries@.skip(base.len() as int + 1) =~= st_1.entries
                    + spec_row_fill(params, g, st_1.col, st_1.row));
            }
            if row >= rows {
                proof {
                    assert(WalkState {
                        col: col as int,
                        row: row as int,
                        charpos: charpos as int,
                        cursor_placed: cursor_placed,
                        window_end: window_end as int,
                        byte_idx: byte_idx as int,
                        entries: out.entries@.skip(base.len() as int + 1),
                    } == spec_step(params, g, bytes@, st_1)) by {
                        reveal(spec_step);
                    }
                }
                return (col, row, charpos, cursor_placed, window_end, byte_idx);
            }
            if col + wcols > cols {
                emit = false;
            }
        }
    }
    if emit {
        proof {
            lemma_mul_le(col as int, g.cols - wcols as int, g.cw);
            lemma_dist(col as int, wcols as int, g.cw);
            lemma_mul_le(col as int + wcols as int, g.cols, g.cw);
            lemma_mul_le(row as int, g.rows, g.chh);
            lemma_dist(row as int, 1, g.chh);
            lemma_mul_le(row as int + 1, g.rows, g.chh);
            lemma_dist(1, 1, g.cw);
        }
        let ghost pre_glyph = out.entries@.skip(base.len() as int + 1);
        push_glyph_entry(
            out,
            Ghost(g),
            Ghost(base),
            Ghost(sel),
            Ghost(cursor_placed),
            ch,
            tx + col * cw,
            ty + row * chh,
            wcols * cw,
            chh,
            ascent,
        );
        proof {
            assert(out.entries@.skip(base.len() as int + 1) =~= pre_glyph + seq![
                spec_cell_glyph(g, ch, col as int, row as int, wcols as int, g.ascent),
            ]);
        }
        col = col + wcols;
    }
    window_end = charpos;
    proof {
        assert(WalkState {
            col: col as int,
            row: row as int,
            charpos: charpos as int,
            cursor_placed: cursor_placed,
            window_end: window_end as int,
            byte_idx: byte_idx as int,
            entries: out.entries@.skip(base.len() as int + 1),
        } == spec_step(params, g, bytes@, st_1)) by {
            reveal(spec_step);
        }
    }
    (col, row, charpos, cursor_placed, window_end, byte_idx)
}


fn walk_step(
    params: &WindowParams,
    bytes: &[u8],
    out: &mut FrameGlyphBuffer,
    col: i64,
    row: i64,
    charpos: i64,
    cursor_placed: bool,
    window_end: i64,
    byte_idx: usize,
    tab_w: i64,
    tx: i64,
    ty: i64,
    cols: i64,
    rows: i64,
    cw: i64,
    chh: i64,
    ascent: i64,
    fg: Color,
    bg: Color,
    Ghost(g): Ghost<Grid>,
    Ghost(base): Ghost<Seq<GlyphEntry>>,
) -> (r: (i64, i64, i64, bool, i64, usize))
    requires
        params.wf(),
        g == spec_grid_of(params),
        g.wf(),
        g.cols == cols,
        g.rows == rows,
        g.tx == tx,
        g.ty == ty,
        g.cw == cw,
        g.chh == chh,
        g.ascent == ascent,
        tab_w as int == spec_tab_w(params),
        1 <= tab_w <= MAX_WINDOW_DIM,
        cols <= MAX_WINDOW_DIM,
        rows <= MAX_WINDOW_DIM,
        fg == spec_color_from_pixel(params.default_fg),
        bg == spec_color_from_pixel(params.default_bg),
        walk_entries_ok(old(out).entries@, base, g, params.selected, cursor_placed),
        last_glyph_at_most(old(out).entries@.skip(base.len() as int), g.ty + row * g.chh),
        last_glyph_flush(
            old(out).entries@.skip(base.len() as int),
            g.ty + row * g.chh,
            g.tx + col * g.cw,
        ),
        0 <= col <= cols,
        0 <= row < rows,
        params.window_start <= charpos,
        charpos - params.window_start <= byte_idx,
        byte_idx < bytes@.len(),
        params.window_start + bytes@.len() <= i64::MAX,
        params.window_start <= window_end <= charpos,
        base.len() + 1 <= old(out).entries@.len(),
        old(out).entries@[base.len() as int] == spec_face_entry(params),
    ensures
        old(out).same_but_entries(*final (out)),
        walk_entries_ok(final (out).entries@, base, g, params.selected, r.3),
        last_glyph_at_most(final (out).entries@.skip(base.len() as int), g.ty + r.1 * g.chh),
        last_glyph_flush(
            final (out).entries@.skip(base.len() as int),
            g.ty + r.1 * g.chh,
            g.tx + r.0 * g.cw,
        ),
        0 <= r.0 <= cols,
        0 <= r.1 <= rows,
        params.window_start <= r.2,
        r.2 - params.window_start <= r.5,
        byte_idx < r.5 <= bytes@.len(),
        params.window_start <= r.4 <= r.2,
        base.len() + 1 <= final (out).entries@.len(),
        final (out).entries@[base.len() as int] == spec_face_entry(params),
        (WalkState {
            col: r.0 as int,
            row: r.1 as int,
            charpos: r.2 as int,
            cursor_placed: r.3,
            window_end: r.4 as int,
            byte_idx: r.5 as int,
            entries: final (out).entries@.skip(base.len() as int + 1),
        } == spec_step(
            params,
            g,
            bytes@,
            WalkState {
                col: col as int,
                row: row as int,
                charpos: charpos as int,
                cursor_placed: cursor_placed,
                window_end: window_end as int,
                byte_idx: byte_idx as int,
                entries: old(out).entries@.skip(base.len() as int + 1),
            },
        )),
{
    let ghost sel = params.selected;
    let n = bytes.len();
    let mut col = col;
    let mut row = row;
    let mut charpos = charpos;
    let mut cursor_placed = cursor_placed;
    let mut byte_idx = byte_idx;
    let ghost st_a = WalkState {
        col: col as int,
        row: row as int,
        charpos: charpos as int,
        cursor_placed: cursor_placed,
        window_end: window_end as int,
        byte_idx: byte_idx as int,
        entries: out.entries@.skip(base.len() as int + 1),
    };
    // Place the cursor once point is reached.
    if !cursor_placed && charpos >= params.point {
        place_cursor(out, params, Ghost(g), Ghost(base), tx, ty, cols, rows, col, row, fg, bg);
        cursor_placed = true;
    }
    let ghost st_1 = spec_apply_cursor(params, g, st_a);
    proof {
        assert(out.entries@.skip(base.len() as int + 1) == st_1.entries);
    }
    // Decode one character, substituting U+FFFD for a malformed byte.
    let sub = &bytes[byte_idx..n];
    let dec = chars::decode_utf8(sub);
    let (ch, ch_len): (char, usize) = match dec {
        Some(p) => p,
        None => ('\u{FFFD}', 1),
    };
    proof {
        assert(sub@ =~= bytes@.subrange(byte_idx as int, n as int));
        assert((ch, ch_len as int) == spec_decode_at(bytes@, st_1.byte_idx)) by {
            assert(sub@ == bytes@.subrange(byte_idx as int, n as int));
        }
    }
    byte_idx = byte_idx + ch_len;
    charpos = charpos + 1;
    let cp = ch as u32;
    let stepped: (i64, i64, i64, bool, i64, usize) = if ch == '\n' {
        step_newline(
            params, bytes, out, col, row, charpos, cursor_placed, window_end, byte_idx, tab_w, tx,
            ty, cols, rows, cw, chh, ascent, fg, bg, ch, ch_len, Ghost(g), Ghost(base), Ghost(st_1),
        )
    } else if ch == '\t' {
        step_tab(
            params, bytes, out, col, row, charpos, cursor_placed, window_end, byte_idx, tab_w, tx,
            ty, cols, rows, cw, chh, ascent, fg, bg, ch, ch_len, Ghost(g), Ghost(base), Ghost(st_1),
        )
    } else if ch == '\r' {
        step_carriage(
            params, bytes, out, col, row, charpos, cursor_placed, window_end, byte_idx, tab_w, tx,
            ty, cols, rows, cw, chh, ascent, fg, bg, ch, ch_len, Ghost(g), Ghost(base), Ghost(st_1),
        )
    } else if cp < 0x20 {
        step_control(
            params, bytes, out, col, row, charpos, cursor_placed, window_end, byte_idx, tab_w, tx,
            ty, cols, rows, cw, chh, ascent, fg, bg, ch, ch_len, Ghost(g), Ghost(base), Ghost(st_1),
        )
    } else {
        step_ordinary(
            params, bytes, out, col, row, charpos, cursor_placed, window_end, byte_idx, tab_w, tx,
            ty, cols, rows, cw, chh, ascent, fg, bg, ch, ch_len, Ghost(g), Ghost(base), Ghost(st_1),
        )
    };
    proof {
        lemma_step_via_stable(params, g, bytes@, st_a);
    }
    stepped
}

/// Lay out one window's visible text on its monospace grid.
///
/// `bytes` is the buffer text from the window-start position on, already
/// read out of the gap buffer. Draw entries are appended to `out`: a
/// face context, then the glyphs, stretches and cursor of this window,
/// walking characters left to right and top to bottom, expanding tabs,
/// drawing control characters as caret pairs, and wrapping or
/// truncating lines past the right edge. Exactly one cursor entry is
/// appended whenever the grid has a cell at all, and for a filled box
/// cursor of the selected window the inverse-video entry directly after
/// it.
///
/// Returns the character position just past the last one consumed and
/// the last row reached, for the host's redisplay bookkeeping.
#[verifier::rlimit(100)]
#[verifier::spinoff_prover]
pub fn layout_window_text(params: &WindowParams, bytes: &[u8], out: &mut FrameGlyphBuffer) -> (end:
    (i64, i64))
    requires
        params.wf(),
        params.window_start + bytes@.len() <= i64::MAX,
    ensures
        old(out).same_but_entries(*final (out)),
        final (out).entries@.len() >= old(out).entries@.len(),
        final (out).entries@.subrange(0, old(out).entries@.len() as int) == old(out).entries@,
        ({
            let added = final (out).entries@.skip(old(out).entries@.len() as int);
            let g = spec_grid_of(params);
            &&& window_suffix_ok(added, g, params.selected)
            &&& cursor_count(added) == if spec_grid_usable(params) {
                1nat
            } else {
                0nat
            }
        }),
        params.window_start <= end.0 <= params.window_start + bytes@.len(),
        0 <= end.1,
        spec_grid_usable(params) ==> end.1 < spec_grid_of(params).rows,
        final (out).entries@.skip(old(out).entries@.len() as int) == spec_layout_window(
            params,
            bytes@,
        ).entries,
        end.0 == spec_layout_window(params, bytes@).end_char,
        end.1 == spec_layout_window(params, bytes@).end_row,
{
    let ghost base = out.entries@;
    let ghost g = spec_grid_of(params);
    let ghost sel = params.selected;
    let tx = params.text_bounds.x;
    let ty = params.text_bounds.y + params.header_line_height + params.tab_line_height;
    let cw = params.char_width;
    let chh = params.char_height;
    let ascent = params.font_ascent;
    let avail_h = params.text_bounds.height - params.header_line_height - params.tab_line_height
        - params.mode_line_height;
    let cols = params.text_bounds.width / cw;
    proof {
        lemma_fundamental_div_mod(params.text_bounds.width as int, cw as int);
        lemma_mod_division_less_than_divisor(params.text_bounds.width as int, cw as int);
        lemma_remainder_lower(params.text_bounds.width as int, cw as int);
    }
    if cols <= 0 || avail_h <= 0 {
        proof {
            if avail_h <= 0 {
                lemma_div_is_ordered(spec_avail_height(params), 0, chh as int);
                assert(0int / (chh as int) == 0) by (nonlinear_arith)
                    requires
                        chh as int >= 1,
                ;
            }
            assert(!spec_grid_usable(params));
            assert(out.entries@.skip(base.len() as int) =~= Seq::<GlyphEntry>::empty());
            assert(out.entries@.subrange(0, base.len() as int) =~= base);
            lemma_layout_unusable(params, bytes@);
            assert(out.entries@.skip(base.len() as int) =~= spec_layout_window(
                params,
                bytes@,
            ).entries);
        }
        return (params.window_start, 0);
    }
    let rows = avail_h / chh;
    proof {
        lemma_fundamental_div_mod(avail_h as int, chh as int);
        lemma_mod_division_less_than_divisor(avail_h as int, chh as int);
        lemma_remainder_lower(avail_h as int, chh as int);
    }
    if rows <= 0 {
        proof {
            assert(!spec_grid_usable(params));
            assert(out.entries@.skip(base.len() as int) =~= Seq::<GlyphEntry>::empty());
            assert(out.entries@.subrange(0, base.len() as int) =~= base);
            lemma_layout_unusable(params, bytes@);
            assert(out.entries@.skip(base.len() as int) =~= spec_layout_window(
                params,
                bytes@,
            ).entries);
        }
        return (params.window_start, 0);
    }
    proof {
        assert(g.cols == cols && g.rows == rows && g.tx == tx && g.ty == ty && g.cw == cw && g.chh
            == chh && g.ascent == ascent);
        assert(g.cols * g.cw <= params.text_bounds.width);
        assert(g.rows * g.chh <= avail_h);
        lemma_div_nonincreasing(params.text_bounds.width as int, cw as int);
        lemma_div_nonincreasing(avail_h as int, chh as int);
        assert(g.wf());
        assert(spec_grid_usable(params));
    }
    let fg = Color::from_pixel(params.default_fg);
    let bg = Color::from_pixel(params.default_bg);
    out.set_face(0, fg, Some(bg), false, false, 0);
    proof {
        lemma_suffix_push(Seq::<GlyphEntry>::empty(), out.entries@.last(), g, sel);
        assert(out.entries@.skip(base.len() as int) =~= Seq::<GlyphEntry>::empty().push(
            out.entries@.last(),
        ));
        lemma_cursor_count_push(Seq::<GlyphEntry>::empty(), out.entries@.last());
        assert(out.entries@.subrange(0, base.len() as int) =~= base);
        assert(walk_entries_ok(out.entries@, base, g, sel, false));
        assert(out.entries@.skip(base.len() as int) =~= seq![spec_face_entry(params)]);
        assert(out.entries@.skip(base.len() as int + 1) =~= Seq::<GlyphEntry>::empty());
    }
    let ghost st0 = spec_walk_start(params);
    proof {
        assert(WalkState {
            col: 0,
            row: 0,
            charpos: params.window_start as int,
            cursor_placed: false,
            window_end: params.window_start as int,
            byte_idx: 0,
            entries: out.entries@.skip(base.len() as int + 1),
        } == st0) by {
            assert(out.entries@.skip(base.len() as int + 1) =~= Seq::<GlyphEntry>::empty());
        }
    }
    let n = bytes.len();
    let mut col: i64 = 0;
    let mut row: i64 = 0;
    let mut charpos: i64 = params.window_start;
    let mut cursor_placed = false;
    let mut window_end: i64 = params.window_start;
    let mut byte_idx: usize = 0;
    let tab_w = if params.tab_width < 1 {
        1
    } else if params.tab_width > MAX_WINDOW_DIM {
        MAX_WINDOW_DIM
    } else {
        params.tab_width
    };
    proof {
        assert(tab_w as int == spec_tab_w(params));
    }
    while byte_idx < n && row < rows
        invariant
            params.wf(),
            g == spec_grid_of(params),
            g.wf(),
            sel == params.selected,
            g.cols == cols,
            g.rows == rows,
            g.tx == tx,
            g.ty == ty,
            g.cw == cw,
            g.chh == chh,
            g.ascent == ascent,
            tab_w as int == spec_tab_w(params),
            1 <= tab_w <= MAX_WINDOW_DIM,
            cols <= MAX_WINDOW_DIM,
            rows <= MAX_WINDOW_DIM,
            fg == spec_color_from_pixel(params.default_fg),
            bg == spec_color_from_pixel(params.default_bg),
            n == bytes@.len(),
            old(out).same_but_entries(*out),
            base == old(out).entries@,
            walk_entries_ok(out.entries@, base, g, sel, cursor_placed),
            last_glyph_at_most(out.entries@.skip(base.len() as int), g.ty + row * g.chh),
            last_glyph_flush(
                out.entries@.skip(base.len() as int),
                g.ty + row * g.chh,
                g.tx + col * g.cw,
            ),
            0 <= col <= cols,
            0 <= row <= rows,
            params.window_start <= charpos,
            charpos - params.window_start <= byte_idx,
            byte_idx <= n,
            params.window_start + n <= i64::MAX,
            params.window_start <= window_end <= charpos,
            base.len() + 1 <= out.entries@.len(),
            out.entries@[base.len() as int] == spec_face_entry(params),
            st0 == spec_walk_start(params),
            (spec_walk(
                params,
                g,
                bytes@,
                WalkState {
                    col: col as int,
                    row: row as int,
                    charpos: charpos as int,
                    cursor_placed: cursor_placed,
                    window_end: window_end as int,
                    byte_idx: byte_idx as int,
                    entries: out.entries@.skip(base.len() as int + 1),
                },
            ) == spec_walk(params, g, bytes@, st0)),
        decreases n - byte_idx,
    {
        let ghost st_a = WalkState {
            col: col as int,
            row: row as int,
            charpos: charpos as int,
            cursor_placed: cursor_placed,
            window_end: window_end as int,
            byte_idx: byte_idx as int,
            entries: out.entries@.skip(base.len() as int + 1),
        };
        proof {
            // The walk has not finished, so it equals the walk from the
            // stepped state.
            lemma_walk_unfold(params, g, bytes@, st_a);
        }
        let stepped = walk_step(
            params,
            bytes,
            out,
            col,
            row,
            charpos,
            cursor_placed,
            window_end,
            byte_idx,
            tab_w,
            tx,
            ty,
            cols,
            rows,
            cw,
            chh,
            ascent,
            fg,
            bg,
            Ghost(g),
            Ghost(base),
        );
        col = stepped.0;
        row = stepped.1;
        charpos = stepped.2;
        cursor_placed = stepped.3;
        window_end = stepped.4;
        byte_idx = stepped.5;
    }
    // Point lies past everything that fit: the cursor lands on the last
    // position reached, clamped into the grid.
    let ghost stf = WalkState {
        col: col as int,
        row: row as int,
        charpos: charpos as int,
        cursor_placed: cursor_placed,
        window_end: window_end as int,
        byte_idx: byte_idx as int,
        entries: out.entries@.skip(base.len() as int + 1),
    };
    proof {
        lemma_walk_terminal(params, g, bytes@, stf);
        assert(stf == spec_walk(params, g, bytes@, st0));
    }
    if !cursor_placed {
        place_cursor(out, params, Ghost(g), Ghost(base), tx, ty, cols, rows, col, row, fg, bg);
        proof {
            assert(out.entries@.skip(base.len() as int + 1) =~= stf.entries
                + spec_cursor_entries(params, g, stf.col, stf.row));
        }
    }
    // Fill every row below the content in one stretch.
    let ghost with_cursor = out.entries@.skip(base.len() as int + 1);
    let filled_rows = if col > 0 {
        row + 1
    } else {
        row
    };
    let filled_rows = if filled_rows > rows {
        rows
    } else {
        filled_rows
    };
    if filled_rows < rows {
        proof {
            lemma_mul_le(filled_rows as int, g.rows, g.chh);
        }
        push_stretch_entry(
            out,
            Ghost(g),
            Ghost(base),
            Ghost(sel),
            Ghost(true),
            tx,
            ty + filled_rows * chh,
            params.text_bounds.width,
            avail_h - filled_rows * chh,
            bg,
        );
    }
    let last_row = if row >= rows {
        rows - 1
    } else {
        row
    };
    proof {
        assert(out.entries@.skip(base.len() as int) =~= seq![spec_face_entry(params)]
            + out.entries@.skip(base.len() as int + 1));
        lemma_layout_usable(params, bytes@);
        assert(out.entries@.skip(base.len() as int) =~= spec_layout_window(
            params,
            bytes@,
        ).entries);
    }
    (window_end, last_row)
}

/// Everything the layout of one window consumes: its parameters, its
/// buffer's text region (or nothing, when the buffer pointer was null),
/// and the byte position of the window-start character.
pub struct WindowInput {
    pub params: WindowParams,
    /// The buffer's text, or `None` for a missing buffer.
    pub text: Option<GapBufferText>,
    /// 1-based byte position of the `window_start` character.
    pub start_byte: usize,
}

impl WindowInput {
    /// Parameters and text region are well formed and the start byte
    /// lies inside the text.
    pub open spec fn wf(&self) -> bool {
        &&& self.params.wf()
        &&& self.text matches Some(t) ==> {
            &&& t.wf()
            &&& 1 <= self.start_byte <= t.spec_z_byte()
            &&& t.data@.len() <= usize::MAX / 2
            &&& self.params.window_start + 2 * t.data@.len() <= i64::MAX
        }
    }

    /// The window contributes content entries: it has a buffer and a
    /// usable grid.
    pub open spec fn contributes(&self) -> bool {
        self.text is Some && spec_grid_usable(&self.params)
    }
}

/// Frame-level fields for one layout pass.
#[derive(Debug, Clone, PartialEq)]
pub struct FrameParams {
    pub width: i64,
    pub height: i64,
    pub char_width: i64,
    pub char_height: i64,
    pub font_pixel_size: i64,
    /// Default frame background pixel value.
    pub background: u32,
}

/// The per-window record the layout writes for a window.
pub open spec fn spec_window_info(p: WindowParams) -> WindowInfo {
    WindowInfo {
        window_id: p.window_id,
        buffer_id: p.buffer_id,
        window_start: p.window_start,
        bounds: p.bounds,
        mode_line_height: p.mode_line_height,
        selected: p.selected,
    }
}


/// The bytes the frame layout reads for one window: from the window
/// start, about two screenfuls of characters, four bytes per character,
/// clipped to the buffer's end.
pub open spec fn spec_window_read_len(w: &WindowInput) -> int {
    match w.text {
        Some(t) => {
            let p = w.params;
            let cols = (p.text_bounds.width as int) / (p.char_width as int);
            let avail_h = spec_avail_height(&p);
            let rows: int = if avail_h >= 1 {
                avail_h / (p.char_height as int)
            } else {
                0
            };
            let avail_chars = p.buffer_size - p.window_start + 1;
            let budget_chars = 2 * (cols * rows);
            let read_chars: int = if avail_chars < budget_chars {
                avail_chars
            } else {
                budget_chars
            };
            let avail_bytes = t.spec_content().len() + 1 - w.start_byte;
            if read_chars <= 0 {
                0
            } else if avail_bytes <= 4 * read_chars {
                avail_bytes
            } else {
                4 * read_chars
            }
        },
        None => 0,
    }
}

/// The bytes the frame layout hands the window walk.
pub open spec fn spec_window_bytes(w: &WindowInput) -> Seq<u8> {
    match w.text {
        Some(t) => crate::gapbuf::spec_copy_range(
            &t,
            w.start_byte as int,
            w.start_byte + spec_window_read_len(w),
        ),
        None => Seq::empty(),
    }
}

/// The draw entries one window contributes to a frame: its background,
/// then (when it has a buffer) its laid-out content.
pub open spec fn spec_window_block(w: &WindowInput) -> Seq<GlyphEntry> {
    seq![
        GlyphEntry::Background {
            rect: w.params.bounds,
            color: spec_color_from_pixel(w.params.default_bg),
        },
    ] + (match w.text {
        Some(t) => spec_layout_window(&w.params, spec_window_bytes(w)).entries,
        None => Seq::empty(),
    })
}

/// The end bookkeeping one window reports.
pub open spec fn spec_window_ends(w: &WindowInput) -> (int, int) {
    match w.text {
        Some(t) => (
            spec_layout_window(&w.params, spec_window_bytes(w)).end_char,
            spec_layout_window(&w.params, spec_window_bytes(w)).end_row,
        ),
        None => (w.params.window_start as int, 0),
    }
}

/// The concatenated blocks of the first `i` windows.
pub open spec fn spec_frame_blocks(inputs: Seq<WindowInput>, i: int) -> Seq<GlyphEntry>
    decreases i,
{
    if i <= 0 {
        Seq::empty()
    } else {
        spec_frame_blocks(inputs, i - 1) + spec_window_block(&inputs[i - 1])
    }
}

/// Number of windows among the first `i` inputs that contribute
/// content (and so exactly one cursor entry each).
pub open spec fn spec_contributing_count(inputs: Seq<WindowInput>, i: int) -> nat
    decreases i,
{
    if i <= 0 {
        0nat
    } else {
        (spec_contributing_count(inputs, i - 1) + if inputs[i - 1].contributes() {
            1nat
        } else {
            0nat
        }) as nat
    }
}

/// The layout engine: owns a reusable scratch buffer so that laying out
/// a frame allocates nothing in the steady state.
pub struct LayoutEngine {
    /// Reusable text buffer.
    text_buf: Vec<u8>,
}

impl LayoutEngine {
    /// Create a new layout engine.
    pub fn new() -> (r: LayoutEngine) {
        LayoutEngine { text_buf: Vec::new() }
    }

    /// Append one window's contribution to the frame buffer: its
    /// background entry, its per-window record, and (when it has a
    /// buffer) its laid-out content read out of the gap buffer.
    #[verifier::rlimit(100)]
    #[verifier::spinoff_prover]
    fn layout_one_window(&mut self, win: &WindowInput, out: &mut FrameGlyphBuffer) -> (end: (
        i64,
        i64,
    ))
        requires
            win.wf(),
        ensures
            final (out).windows@ == old(out).windows@.push(spec_window_info(win.params)),
            final (out).entries@ == old(out).entries@ + spec_window_block(win),
            cursor_count(final (out).entries@.skip(old(out).entries@.len() as int)) == (
            if win.contributes() {
                1nat
            } else {
                0nat
            }),
            end.0 == spec_window_ends(win).0,
            end.1 == spec_window_ends(win).1,
            final (out).frame_id == old(out).frame_id,
            final (out).parent_id == old(out).parent_id,
            final (out).width == old(out).width,
            final (out).height == old(out).height,
            final (out).char_width == old(out).char_width,
            final (out).char_height == old(out).char_height,
            final (out).font_pixel_size == old(out).font_pixel_size,
    {
        let ghost base = out.entries@;
        let p = &win.params;
        // Window background and per-window record.
        out.add_background(p.bounds, Color::from_pixel(p.default_bg));
        proof {
            assert(out.entries@.skip(base.len() as int) =~= Seq::<GlyphEntry>::empty().push(
                out.entries@.last(),
            ));
            lemma_cursor_count_push(Seq::<GlyphEntry>::empty(), out.entries@.last());
        }
        out.add_window_info(
            WindowInfo {
                window_id: p.window_id,
                buffer_id: p.buffer_id,
                window_start: p.window_start,
                bounds: p.bounds,
                mode_line_height: p.mode_line_height,
                selected: p.selected,
            },
        );
        // Lay out the window's content, if it has a buffer.
        let end: (i64, i64) = if win.text.is_some() {
            let ghost entries_mid = out.entries@;
            let end = self.layout_window_content(win, out);
            proof {
                let before = entries_mid.skip(base.len() as int);
                let added = out.entries@.skip(entries_mid.len() as int);
                assert(out.entries@.skip(base.len() as int) =~= before + added);
                lemma_cursor_count_concat(before, added);
                assert(out.entries@ =~= base + spec_window_block(win));
            }
            end
        } else {
            // A missing buffer contributes only its background.
            proof {
                assert(out.entries@ =~= base + spec_window_block(win));
            }
            (p.window_start, 0)
        };
        end
    }

    /// Read one window's visible text out of its gap buffer and lay it
    /// out on the window's grid, appending the entries to the frame
    /// buffer.
    #[verifier::rlimit(100)]
    #[verifier::spinoff_prover]
    fn layout_window_content(&mut self, win: &WindowInput, out: &mut FrameGlyphBuffer) -> (end: (
        i64,
        i64,
    ))
        requires
            win.wf(),
            win.text is Some,
        ensures
            old(out).same_but_entries(*final (out)),
            final (out).entries@ == old(out).entries@ + spec_layout_window(
                &win.params,
                spec_window_bytes(win),
            ).entries,
            cursor_count(final (out).entries@.skip(old(out).entries@.len() as int)) == (
            if spec_grid_usable(&win.params) {
                1nat
            } else {
                0nat
            }),
            end.0 == spec_window_ends(win).0,
            end.1 == spec_window_ends(win).1,
    {
        let ghost base = out.entries@;
        let p = &win.params;
        let text = match &win.text {
            Some(t) => t,
            None => {
                proof {
                    assert(false);
                }
                return (0, 0);
            },
        };
        let cw = p.char_width;
        let chh = p.char_height;
        let cols = p.text_bounds.width / cw;
        let avail_h = p.text_bounds.height - p.header_line_height - p.tab_line_height
            - p.mode_line_height;
        let rows = if avail_h >= 1 {
            avail_h / chh
        } else {
            0
        };
        proof {
            lemma_div_nonincreasing(p.text_bounds.width as int, cw as int);
            if avail_h >= 1 {
                lemma_div_nonincreasing(avail_h as int, chh as int);
                lemma_div_pos_is_pos(avail_h as int, chh as int);
            }
        }
        // Budget: about two screenfuls of characters.
        let avail_chars = p.buffer_size - p.window_start + 1;
        proof {
            assert(0 <= (cols as int) * (rows as int) && (cols as int) * (rows as int) <= (
            MAX_WINDOW_DIM as int) * (MAX_WINDOW_DIM as int)) by (nonlinear_arith)
                requires
                    0 <= cols as int <= MAX_WINDOW_DIM as int,
                    0 <= rows as int <= MAX_WINDOW_DIM as int,
            ;
        }
        let budget_chars = 2 * (cols * rows);
        let read_chars = if avail_chars < budget_chars {
            avail_chars
        } else {
            budget_chars
        };
        let zb = text.text_bytes();
        let avail_bytes: usize = zb + 1 - win.start_byte;
        let read_bytes: usize = if read_chars <= 0 {
            0
        } else if avail_bytes as i64 <= 4 * read_chars {
            avail_bytes
        } else {
            (4 * read_chars) as usize
        };
        self.text_buf.clear();
        proof {
            if win.start_byte < win.start_byte + read_bytes {
                let raw = text.spec_content().subrange(
                    win.start_byte as int - 1,
                    win.start_byte + read_bytes - 1,
                );
                crate::gapbuf::lemma_widen_len(raw);
            }
        }
        copy_text(text, win.start_byte, win.start_byte + read_bytes, &mut self.text_buf);
        proof {
            if win.start_byte < win.start_byte + read_bytes {
                let raw = text.spec_content().subrange(
                    win.start_byte as int - 1,
                    win.start_byte + read_bytes - 1,
                );
                crate::gapbuf::lemma_widen_len(raw);
            }
            assert(self.text_buf@.len() <= 2 * text.data@.len());
            assert(read_bytes as int == spec_window_read_len(win));
            assert(self.text_buf@ == spec_window_bytes(win));
        }
        layout_window_text(p, self.text_buf.as_slice(), out)
    }

    /// Lay out an entire frame.
    ///
    /// Sets the frame fields of `out`, then for each window appends its
    /// background entry and its per-window record, reads its visible
    /// text out of the gap buffer (about two screenfuls of characters),
    /// and lays the text out on the window's grid. Exactly one cursor
    /// entry is appended for every window that has a buffer and a
    /// usable grid.
    ///
    /// Returns, per window, the character position just past the last
    /// one consumed and the last row reached, in window order, for the
    /// host's redisplay bookkeeping.
    #[verifier::rlimit(100)]
    #[verifier::spinoff_prover]
    pub fn layout_frame(
        &mut self,
        frame_params: &FrameParams,
        windows: &Vec<WindowInput>,
        out: &mut FrameGlyphBuffer,
    ) -> (ends: Vec<(i64, i64)>)
        requires
            forall|i: int| 0 <= i < windows@.len() ==> (#[trigger] windows@[i]).wf(),
        ensures
            final (out).width == frame_params.width,
            final (out).height == frame_params.height,
            final (out).char_width == frame_params.char_width,
            final (out).char_height == frame_params.char_height,
            final (out).font_pixel_size == frame_params.font_pixel_size,
            final (out).frame_id == old(out).frame_id,
            final (out).parent_id == old(out).parent_id,
            final (out).windows@.len() == old(out).windows@.len() + windows@.len(),
            forall|i: int|
                0 <= i < windows@.len() ==> final (out).windows@[old(out).windows@.len() + i]
                    == spec_window_info(#[trigger] windows@[i].params),
            final (out).entries@.len() >= old(out).entries@.len(),
            final (out).entries@.subrange(0, old(out).entries@.len() as int) == old(out).entries@,
            final (out).entries@ == old(out).entries@ + spec_frame_blocks(
                windows@,
                windows@.len() as int,
            ),
            cursor_count(final (out).entries@.skip(old(out).entries@.len() as int))
                == spec_contributing_count(windows@, windows@.len() as int),
            ends@.len() == windows@.len(),
            forall|i: int|
                0 <= i < windows@.len() ==> (#[trigger] ends@[i]).0 == spec_window_ends(
                    &windows@[i],
                ).0 && ends@[i].1 == spec_window_ends(&windows@[i]).1,
    {
        out.width = frame_params.width;
        out.height = frame_params.height;
        out.char_width = frame_params.char_width;
        out.char_height = frame_params.char_height;
        out.font_pixel_size = frame_params.font_pixel_size;
        out.background = Color::from_pixel(frame_params.background);
        let ghost base = out.entries@;
        let ghost base_windows = out.windows@;
        let mut ends: Vec<(i64, i64)> = Vec::new();
        let mut w: usize = 0;
        while w < windows.len()
            invariant
                forall|i: int| 0 <= i < windows@.len() ==> (#[trigger] windows@[i]).wf(),
                w <= windows@.len(),
                out.width == frame_params.width,
                out.height == frame_params.height,
                out.char_width == frame_params.char_width,
                out.char_height == frame_params.char_height,
                out.font_pixel_size == frame_params.font_pixel_size,
                out.frame_id == old(out).frame_id,
                out.parent_id == old(out).parent_id,
                out.windows@.len() == base_windows.len() + w,
                out.windows@.subrange(0, base_windows.len() as int) == base_windows,
                forall|i: int|
                    0 <= i < w ==> out.windows@[base_windows.len() + i] == spec_window_info(
                        #[trigger] windows@[i].params,
                    ),
                out.entries@.len() >= base.len(),
                out.entries@.subrange(0, base.len() as int) == base,
                out.entries@ == base + spec_frame_blocks(windows@, w as int),
                cursor_count(out.entries@.skip(base.len() as int)) == spec_contributing_count(
                    windows@,
                    w as int,
                ),
                ends@.len() == w,
                forall|i: int|
                    0 <= i < w ==> (#[trigger] ends@[i]).0 == spec_window_ends(&windows@[i]).0
                        && ends@[i].1 == spec_window_ends(&windows@[i]).1,
            decreases windows@.len() - w,
        {
            let win = &windows[w];
            let ghost entries_before = out.entries@;
            let end = self.layout_one_window(win, out);
            proof {
                assert(out.entries@.subrange(0, base.len() as int) =~= base);
                assert(out.windows@.subrange(0, base_windows.len() as int) =~= base_windows);
                assert(out.entries@ =~= base + spec_frame_blocks(windows@, w as int + 1));
                let before = entries_before.skip(base.len() as int);
                let added = out.entries@.skip(entries_before.len() as int);
                assert(out.entries@.skip(base.len() as int) =~= before + added);
                lemma_cursor_count_concat(before, added);
            }
            ends.push(end);
            w = w + 1;
        }
        proof {
            assert(out.entries@.skip(base.len() as int) =~= spec_frame_blocks(
                windows@,
                windows@.len() as int,
            ));
        }
        ends
    }
}

} // verus!
