//! End-to-end layout scenarios on the monospace grid.

use neomacs_display::gapbuf::{copy_text, GapBufferText};
use neomacs_display::glyphs::{FrameGlyphBuffer, GlyphEntry};
use neomacs_display::layout::{layout_window_text, FrameParams, LayoutEngine, WindowInput,
    WindowParams};
use neomacs_display::types::Rect;

/// A selected window of `cols` by `rows` cells of 8 by 16 pixels, with
/// the text area at the origin.
fn params(cols: i64, rows: i64, window_start: i64, point: i64, buffer_size: i64) -> WindowParams {
    WindowParams {
        window_id: 1,
        buffer_id: 7,
        bounds: Rect { x: 0, y: 0, width: cols * 8, height: rows * 16 },
        text_bounds: Rect { x: 0, y: 0, width: cols * 8, height: rows * 16 },
        selected: true,
        window_start,
        point,
        buffer_size,
        buffer_begv: 1,
        hscroll: 0,
        truncate_lines: false,
        tab_width: 8,
        default_fg: 0x00FFFFFF,
        default_bg: 0x00000000,
        char_width: 8,
        char_height: 16,
        font_pixel_size: 16,
        font_ascent: 12,
        mode_line_height: 0,
        header_line_height: 0,
        tab_line_height: 0,
        cursor_type: 0,
        cursor_bar_width: 2,
    }
}

/// A gap-free multibyte text region holding `content`.
fn text_of(content: &[u8]) -> GapBufferText {
    GapBufferText::new(content.to_vec(), 1, 0, true)
}

fn glyphs_of(out: &FrameGlyphBuffer) -> Vec<(char, i64, i64, i64)> {
    out.entries
        .iter()
        .filter_map(|e| match e {
            GlyphEntry::Glyph { ch, x, y, width, .. } => Some((*ch, *x, *y, *width)),
            _ => None,
        })
        .collect()
}

fn cursors_of(out: &FrameGlyphBuffer) -> Vec<(i64, i64, i64, i64, u8)> {
    out.entries
        .iter()
        .filter_map(|e| match e {
            GlyphEntry::Cursor { x, y, width, height, style, .. } => {
                Some((*x, *y, *width, *height, *style))
            },
            _ => None,
        })
        .collect()
}

#[test]
fn empty_buffer_scenario() {
    // An empty buffer in an 80 by 24 grid: one full-height stretch, a
    // box cursor at the text origin, and its inverse entry.
    let p = params(80, 24, 1, 1, 0);
    let mut out = FrameGlyphBuffer::new(0);
    let (end, last_row) = layout_window_text(&p, &[], &mut out);
    assert_eq!(end, 1);
    assert_eq!(last_row, 0);

    let cursors = cursors_of(&out);
    assert_eq!(cursors.len(), 1, "exactly one cursor entry");
    assert_eq!(cursors[0], (0, 0, 8, 16, 0));

    // The inverse entry follows the cursor directly, over the same rect.
    let mut saw_inverse = false;
    for (i, e) in out.entries.iter().enumerate() {
        if let GlyphEntry::CursorInverse { x, y, width, height, .. } = e {
            saw_inverse = true;
            assert_eq!((*x, *y, *width, *height), (0, 0, 8, 16));
            assert!(matches!(out.entries[i - 1], GlyphEntry::Cursor { .. }));
        }
    }
    assert!(saw_inverse);

    // One stretch covers the whole text area.
    let full = out.entries.iter().any(|e| match e {
        GlyphEntry::Stretch { x, y, width, height, .. } => {
            *x == 0 && *y == 0 && *width == 640 && *height == 384
        },
        _ => false,
    });
    assert!(full, "a stretch must cover the whole text area");
}

#[test]
fn hello_newline_scenario() {
    // Content "hi\nwo" with point 4 in a 10 by 3 grid of 8 by 16 cells.
    let p = params(10, 3, 1, 4, 5);
    let mut out = FrameGlyphBuffer::new(0);
    layout_window_text(&p, b"hi\nwo", &mut out);

    let glyphs = glyphs_of(&out);
    assert_eq!(glyphs[0], ('h', 0, 0, 8));
    assert_eq!(glyphs[1], ('i', 8, 0, 8));
    assert_eq!(glyphs[2], ('w', 0, 16, 8));
    assert_eq!(glyphs[3], ('o', 8, 16, 8));

    // The newline fills columns 2 to 9 of row 0.
    let line_fill = out.entries.iter().any(|e| match e {
        GlyphEntry::Stretch { x, y, width, height, .. } => {
            *x == 16 && *y == 0 && *width == 64 && *height == 16
        },
        _ => false,
    });
    assert!(line_fill, "the newline fills the rest of its row");

    // Point 4 sits before the w: cursor at (0, 16), 8 by 16.
    let cursors = cursors_of(&out);
    assert_eq!(cursors.len(), 1);
    assert_eq!(cursors[0], (0, 16, 8, 16, 0));
}

#[test]
fn tab_expansion_scenario() {
    // Content "\tX" with a tab width of 4 in a 10-column grid: one
    // stretch of four cells, then the X at column 4.
    let mut p = params(10, 3, 1, 1, 2);
    p.tab_width = 4;
    let mut out = FrameGlyphBuffer::new(0);
    layout_window_text(&p, b"\tX", &mut out);

    let tab_fill = out.entries.iter().any(|e| match e {
        GlyphEntry::Stretch { x, y, width, height, .. } => {
            *x == 0 && *y == 0 && *width == 32 && *height == 16
        },
        _ => false,
    });
    assert!(tab_fill, "the tab renders as one stretch of four cells");

    let glyphs = glyphs_of(&out);
    assert_eq!(glyphs[0], ('X', 32, 0, 8));
}

#[test]
fn wrap_scenario() {
    // 120 a's in an 80-column grid without truncation: 80 glyphs on row
    // 0, 40 on row 1.
    let content = [b'a'; 120];
    let p = params(80, 5, 1, 1, 120);
    let mut out = FrameGlyphBuffer::new(0);
    layout_window_text(&p, &content, &mut out);

    let glyphs = glyphs_of(&out);
    assert_eq!(glyphs.len(), 120);
    assert_eq!(glyphs.iter().filter(|g| g.2 == 0).count(), 80);
    assert_eq!(glyphs.iter().filter(|g| g.2 == 16).count(), 40);
}

#[test]
fn truncate_scenario() {
    // The same 120 a's with truncation: only the 80 visible glyphs, and
    // with point past the right edge the cursor lands at the end of the
    // visible portion.
    let content = [b'a'; 120];
    let mut p = params(80, 5, 1, 121, 120);
    p.truncate_lines = true;
    let mut out = FrameGlyphBuffer::new(0);
    layout_window_text(&p, &content, &mut out);

    let glyphs = glyphs_of(&out);
    assert_eq!(glyphs.len(), 80, "the truncated tail draws nothing");
    assert!(glyphs.iter().all(|g| g.2 == 0));

    let cursors = cursors_of(&out);
    assert_eq!(cursors.len(), 1);
    assert_eq!(cursors[0].0, 632, "the cursor sits on the last visible column");
}

#[test]
fn cjk_scenario() {
    // "A<CJK>B" in a 5-column grid: A at column 0, the wide character at
    // column 1 over two cells, B at column 3.
    let p = params(5, 2, 1, 1, 3);
    let mut out = FrameGlyphBuffer::new(0);
    layout_window_text(&p, "A\u{4E16}B".as_bytes(), &mut out);

    let glyphs = glyphs_of(&out);
    assert_eq!(glyphs[0], ('A', 0, 0, 8));
    assert_eq!(glyphs[1], ('\u{4E16}', 8, 0, 16));
    assert_eq!(glyphs[2], ('B', 24, 0, 8));

    // The monospace rule: consecutive glyphs on one row abut.
    for w in glyphs.windows(2) {
        if w[0].2 == w[1].2 {
            assert_eq!(w[1].1 - w[0].1, w[0].3);
        }
    }
}

#[test]
fn malformed_byte_renders_replacement() {
    // A lone continuation byte renders as the replacement character.
    let p = params(10, 2, 1, 1, 1);
    let mut out = FrameGlyphBuffer::new(0);
    layout_window_text(&p, &[0x80], &mut out);
    let glyphs = glyphs_of(&out);
    assert_eq!(glyphs[0].0, '\u{FFFD}');
}

#[test]
fn control_character_renders_caret_pair() {
    let p = params(10, 2, 1, 1, 1);
    let mut out = FrameGlyphBuffer::new(0);
    layout_window_text(&p, &[0x01], &mut out);
    let glyphs = glyphs_of(&out);
    assert_eq!(glyphs[0], ('^', 0, 0, 8));
    assert_eq!(glyphs[1], ('A', 8, 0, 8));
}

#[test]
fn unselected_window_uses_hollow_cursor() {
    let mut p = params(10, 2, 1, 1, 2);
    p.selected = false;
    let mut out = FrameGlyphBuffer::new(0);
    layout_window_text(&p, b"ab", &mut out);
    let cursors = cursors_of(&out);
    assert_eq!(cursors.len(), 1);
    assert_eq!(cursors[0].4, 3, "an unselected window shows a hollow cursor");
}

#[test]
fn layout_frame_fills_frame_fields_and_windows() {
    let mut engine = LayoutEngine::new();
    let fp = FrameParams {
        width: 640,
        height: 384,
        char_width: 8,
        char_height: 16,
        font_pixel_size: 16,
        background: 0x00000000,
    };
    let inputs = vec![
        WindowInput { params: params(10, 3, 1, 4, 5), text: Some(text_of(b"hi\nwo")), start_byte: 1 },
        WindowInput { params: params(10, 3, 1, 1, 0), text: None, start_byte: 1 },
    ];
    let mut out = FrameGlyphBuffer::new(3);
    let ends = engine.layout_frame(&fp, &inputs, &mut out);

    assert_eq!(out.width, 640);
    assert_eq!(out.height, 384);
    assert_eq!(out.char_width, 8);
    assert_eq!(out.char_height, 16);
    assert_eq!(out.windows.len(), 2);
    assert_eq!(out.windows[0].window_id, 1);
    assert_eq!(out.windows[0].buffer_id, 7);
    assert!(out.windows[0].selected);
    assert_eq!(ends.len(), 2);
    // The first window consumed all five characters.
    assert_eq!(ends[0].0, 6);
    // One cursor: the second window has no buffer and contributes only
    // its background.
    assert_eq!(cursors_of(&out).len(), 1);
}

#[test]
fn gap_buffer_copy_joins_the_gap() {
    // "hello" with the gap after "hel": the copy joins both sides.
    let mut data = Vec::new();
    data.extend_from_slice(b"hel");
    data.extend_from_slice(&[0xAA, 0xBB, 0xCC, 0xDD]);
    data.extend_from_slice(b"lo");
    let text = GapBufferText::new(data, 4, 4, true);
    let mut out: Vec<u8> = Vec::new();
    copy_text(&text, 1, text.text_bytes() + 1, &mut out);
    assert_eq!(out, b"hello");
}

#[test]
fn gap_buffer_whole_copy_is_identity() {
    // The whole range of a multibyte buffer is exactly its content.
    let content = "caf\u{00E9} \u{4E16}\u{754C}".as_bytes();
    let mut data = Vec::new();
    data.extend_from_slice(&content[..4]);
    data.extend_from_slice(&[0, 0]);
    data.extend_from_slice(&content[4..]);
    let text = GapBufferText::new(data, 5, 2, true);
    let mut out: Vec<u8> = Vec::new();
    copy_text(&text, 1, text.text_bytes() + 1, &mut out);
    assert_eq!(out, content);
}

#[test]
fn gap_buffer_unibyte_widens() {
    // A unibyte buffer widens bytes at 0x80 and above to two-byte
    // UTF-8.
    let text = GapBufferText::new(vec![b'a', 0xE9, b'b'], 1, 0, false);
    let mut out: Vec<u8> = Vec::new();
    copy_text(&text, 1, 4, &mut out);
    assert_eq!(out, vec![b'a', 0xC3, 0xA9, b'b']);
}

#[test]
fn gap_buffer_empty_range_is_no_op() {
    let text = text_of(b"abc");
    let mut out: Vec<u8> = vec![9];
    copy_text(&text, 3, 3, &mut out);
    assert_eq!(out, vec![9]);
    copy_text(&text, 3, 2, &mut out);
    assert_eq!(out, vec![9]);
}
