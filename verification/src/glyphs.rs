//! The frame glyph buffer: the contract between layout and renderer.
//!
//! A flat, ordered sequence of typed draw entries for one frame, plus a
//! record per window. Entries are appended during layout and consumed in
//! order by the renderer; their order is semantic (backgrounds first,
//! then glyphs, then the cursor, then its inverse entry).

use vstd::prelude::*;
use crate::types::{Color, Rect};

verus! {

/// One typed draw entry.
#[derive(Debug, Clone, PartialEq)]
pub enum GlyphEntry {
    /// A solid rectangle behind a window.
    Background { rect: Rect, color: Color },
    /// A face context: style values that later glyphs draw with.
    Face {
        face_id: u32,
        fg: Color,
        bg: Option<Color>,
        bold: bool,
        italic: bool,
        underline: u8,
    },
    /// A solid horizontal span (whitespace, tabs, line tails).
    Stretch { x: i64, y: i64, width: i64, height: i64, color: Color, face_id: u32 },
    /// A positioned character with its target cell and baseline.
    Glyph { ch: char, x: i64, y: i64, width: i64, height: i64, ascent: i64 },
    /// The cursor of a window, drawn over the glyphs of its cell.
    Cursor { window_id: u64, x: i64, y: i64, width: i64, height: i64, style: u8, color: Color },
    /// Inverse-video colors for the glyphs under a filled box cursor;
    /// refers to the same rectangle as the cursor entry before it.
    CursorInverse { x: i64, y: i64, width: i64, height: i64, cursor_bg: Color, cursor_fg: Color },
}

/// Per-window record of a frame.
#[derive(Debug, Clone, PartialEq)]
pub struct WindowInfo {
    pub window_id: u64,
    pub buffer_id: u64,
    pub window_start: i64,
    pub bounds: Rect,
    pub mode_line_height: i64,
    pub selected: bool,
}

/// The glyph buffer for one frame.
#[derive(Debug, Clone, PartialEq)]
pub struct FrameGlyphBuffer {
    /// Host frame this buffer belongs to; zero targets the primary window.
    pub frame_id: u64,
    /// Owning frame for a child overlay; zero for a root frame.
    pub parent_id: u64,
    /// Frame width in logical pixels.
    pub width: i64,
    /// Frame height in logical pixels.
    pub height: i64,
    /// Character cell width in pixels.
    pub char_width: i64,
    /// Character cell height in pixels.
    pub char_height: i64,
    /// Font pixel size.
    pub font_pixel_size: i64,
    /// Default frame background.
    pub background: Color,
    /// Ordered draw entries.
    pub entries: Vec<GlyphEntry>,
    /// Per-window records, in layout order.
    pub windows: Vec<WindowInfo>,
}

/// The entry is a cursor entry.
pub open spec fn is_cursor_entry(e: GlyphEntry) -> bool {
    e is Cursor
}

/// Number of cursor entries in a sequence of draw entries.
pub open spec fn cursor_count(s: Seq<GlyphEntry>) -> nat
    decreases s.len(),
{
    if s.len() == 0 {
        0nat
    } else {
        (cursor_count(s.drop_last()) + if is_cursor_entry(s.last()) {
            1nat
        } else {
            0nat
        }) as nat
    }
}

/// Appending one entry raises the cursor count by one exactly when the
/// entry is a cursor entry.
pub proof fn lemma_cursor_count_push(s: Seq<GlyphEntry>, e: GlyphEntry)
    ensures
        cursor_count(s.push(e)) == cursor_count(s) + if is_cursor_entry(e) {
            1nat
        } else {
            0nat
        },
{
    assert(s.push(e).drop_last() =~= s);
    assert(s.push(e).last() == e);
}

impl FrameGlyphBuffer {
    /// All fields except the entry list are unchanged.
    pub open spec fn same_but_entries(self, other: FrameGlyphBuffer) -> bool {
        &&& other.frame_id == self.frame_id
        &&& other.parent_id == self.parent_id
        &&& other.width == self.width
        &&& other.height == self.height
        &&& other.char_width == self.char_width
        &&& other.char_height == self.char_height
        &&& other.font_pixel_size == self.font_pixel_size
        &&& other.background == self.background
        &&& other.windows == self.windows
    }

    /// A fresh, empty glyph buffer for the given frame.
    pub fn new(frame_id: u64) -> (r: FrameGlyphBuffer)
        ensures
            r.frame_id == frame_id,
            r.parent_id == 0,
            r.entries@.len() == 0,
            r.windows@.len() == 0,
    {
        FrameGlyphBuffer {
            frame_id,
            parent_id: 0,
            width: 0,
            height: 0,
            char_width: 0,
            char_height: 0,
            font_pixel_size: 0,
            background: Color::black(),
            entries: Vec::new(),
            windows: Vec::new(),
        }
    }

    /// Drop all entries and window records, keeping the frame fields, so
    /// the buffer can be refilled for the next frame without
    /// reallocation.
    pub fn clear(&mut self)
        ensures
            final (self).entries@.len() == 0,
            final (self).windows@.len() == 0,
            final (self).frame_id == old(self).frame_id,
            final (self).parent_id == old(self).parent_id,
            final (self).width == old(self).width,
            final (self).height == old(self).height,
            final (self).char_width == old(self).char_width,
            final (self).char_height == old(self).char_height,
            final (self).font_pixel_size == old(self).font_pixel_size,
            final (self).background == old(self).background,
    {
        self.entries.clear();
        self.windows.clear();
    }

    /// Append a window background entry.
    pub fn add_background(&mut self, rect: Rect, color: Color)
        ensures
            old(self).same_but_entries(*final (self)),
            final (self).entries@ == old(self).entries@.push(GlyphEntry::Background { rect, color }),
    {
        self.entries.push(GlyphEntry::Background { rect, color });
    }

    /// Append a face context entry.
    pub fn set_face(&mut self, face_id: u32, fg: Color, bg: Option<Color>, bold: bool, italic: bool, underline: u8)
        ensures
            old(self).same_but_entries(*final (self)),
            final (self).entries@ == old(self).entries@.push(
                GlyphEntry::Face { face_id, fg, bg, bold, italic, underline },
            ),
    {
        self.entries.push(GlyphEntry::Face { face_id, fg, bg, bold, italic, underline });
    }

    /// Append a stretch entry.
    pub fn add_stretch(&mut self, x: i64, y: i64, width: i64, height: i64, color: Color, face_id: u32)
        ensures
            old(self).same_but_entries(*final (self)),
            final (self).entries@ == old(self).entries@.push(
                GlyphEntry::Stretch { x, y, width, height, color, face_id },
            ),
    {
        self.entries.push(GlyphEntry::Stretch { x, y, width, height, color, face_id });
    }

    /// Append a character glyph entry.
    pub fn add_char(&mut self, ch: char, x: i64, y: i64, width: i64, height: i64, ascent: i64)
        ensures
            old(self).same_but_entries(*final (self)),
            final (self).entries@ == old(self).entries@.push(
                GlyphEntry::Glyph { ch, x, y, width, height, ascent },
            ),
    {
        self.entries.push(GlyphEntry::Glyph { ch, x, y, width, height, ascent });
    }

    /// Append a cursor entry.
    pub fn add_cursor(&mut self, window_id: u64, x: i64, y: i64, width: i64, height: i64, style: u8, color: Color)
        ensures
            old(self).same_but_entries(*final (self)),
            final (self).entries@ == old(self).entries@.push(
                GlyphEntry::Cursor { window_id, x, y, width, height, style, color },
            ),
    {
        self.entries.push(GlyphEntry::Cursor { window_id, x, y, width, height, style, color });
    }

    /// Append an inverse-cursor entry for a filled box cursor.
    pub fn set_cursor_inverse(&mut self, x: i64, y: i64, width: i64, height: i64, cursor_bg: Color, cursor_fg: Color)
        ensures
            old(self).same_but_entries(*final (self)),
            final (self).entries@ == old(self).entries@.push(
                GlyphEntry::CursorInverse { x, y, width, height, cursor_bg, cursor_fg },
            ),
    {
        self.entries.push(GlyphEntry::CursorInverse { x, y, width, height, cursor_bg, cursor_fg });
    }

    /// Append a per-window info record.
    pub fn add_window_info(&mut self, info: WindowInfo)
        ensures
            final (self).windows@ == old(self).windows@.push(info),
            final (self).entries@ == old(self).entries@,
            final (self).frame_id == old(self).frame_id,
            final (self).parent_id == old(self).parent_id,
            final (self).width == old(self).width,
            final (self).height == old(self).height,
            final (self).char_width == old(self).char_width,
            final (self).char_height == old(self).char_height,
            final (self).font_pixel_size == old(self).font_pixel_size,
            final (self).background == old(self).background,
    {
        self.windows.push(info);
    }
}

} // verus!
