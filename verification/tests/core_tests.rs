//! Tests of the core data types: colors, rectangles, tagged words, the
//! character grid, the offsets oracle, the window tree walker, the
//! window manager, and the worker decisions.

use neomacs_display::grid::{CharacterGrid, GridCell};
use neomacs_display::offsets::{ensure_offsets_valid, validate_offsets, OffsetsOracle,
    StructOffsets};
use neomacs_display::tagged::{fixnatp, fixnump, make_fixnum, nilp, pseudovector_header_matches,
    untag_vectorlike, vectorlikep, xfixnat, xfixnum, PVEC_BUFFER, PVEC_WINDOW};
use neomacs_display::types::{Color, Point, Rect, TerminalMode};
use neomacs_display::winman::{plan_surface, FormatOption, MultiWindowManager, WindowState};
use neomacs_display::wintree::{count_leaves, frame_window_count, FrameModel, WindowTree};
use neomacs_display::worker::{check_enqueue, EnqueueError, TaskContext, WorkerConfig};
use neomacs_display::glyphs::FrameGlyphBuffer;

#[test]
fn test_color_from_pixel() {
    let color = Color::from_pixel(0x00FF8040);
    assert_eq!(color.r, 0xFF);
    assert_eq!(color.g, 0x80);
    assert_eq!(color.b, 0x40);
    // A zero alpha channel reads as fully opaque.
    assert_eq!(color.a, 0xFF);
    let translucent = Color::from_pixel(0x80FF8040);
    assert_eq!(translucent.a, 0x80);
}

#[test]
fn test_rect_contains() {
    let rect = Rect { x: 10, y: 10, width: 100, height: 50 };
    assert!(rect.contains(Point { x: 50, y: 30 }));
    assert!(!rect.contains(Point { x: 5, y: 30 }));
    assert!(!rect.contains(Point { x: 110, y: 30 }));
}

#[test]
fn terminal_mode_variants() {
    assert_ne!(TerminalMode::Window, TerminalMode::Inline);
    assert_ne!(TerminalMode::Inline, TerminalMode::Floating);
}

#[test]
fn tagged_word_predicates() {
    assert!(nilp(0));
    assert!(!nilp(2));
    assert!(fixnump(2));
    assert!(fixnump(6));
    assert!(!fixnump(0));
    assert!(vectorlikep(5));
    assert!(!vectorlikep(2));
}

#[test]
fn fixnum_round_trip() {
    for n in [0i64, 1, -1, 42, -42, 1 << 40, -(1 << 40)] {
        let word = make_fixnum(n);
        assert!(fixnump(word));
        assert_eq!(xfixnum(word), n);
    }
    assert!(fixnatp(make_fixnum(7)));
    assert!(!fixnatp(make_fixnum(-7)));
    assert_eq!(xfixnat(make_fixnum(7)), Some(7));
    assert_eq!(xfixnat(make_fixnum(-7)), None);
    assert_eq!(xfixnat(0), None);
}

#[test]
fn untag_clears_low_bits() {
    assert_eq!(untag_vectorlike(0x1005), 0x1000);
}

#[test]
fn pseudovector_header_check() {
    let window_header: i64 = 0x4000_0000_0000_0000 | ((PVEC_WINDOW as i64) << 24);
    assert!(pseudovector_header_matches(window_header, PVEC_WINDOW));
    assert!(!pseudovector_header_matches(window_header, PVEC_BUFFER));
    // Without the pseudovector flag nothing matches.
    assert!(!pseudovector_header_matches((PVEC_WINDOW as i64) << 24, PVEC_WINDOW));
}

fn good_offsets() -> StructOffsets {
    StructOffsets {
        buf_text: 800,
        buf_pt: 808,
        buf_pt_byte: 816,
        buf_begv: 824,
        buf_begv_byte: 832,
        buf_zv: 840,
        buf_zv_byte: 848,
        buf_base_buffer: 856,
        buf_lisp_field_count: 76,
        buftext_beg: 0,
        buftext_gpt: 8,
        buftext_z: 16,
        buftext_gpt_byte: 24,
        buftext_z_byte: 32,
        buftext_gap_size: 40,
        buf_tab_width: 8 + 20 * 8,
        buf_truncate_lines: 8 + 28 * 8,
        buf_enable_multibyte: 8 + 41 * 8,
        buf_pt_marker: 8 + 47 * 8,
        buf_begv_marker: 8 + 48 * 8,
        buf_zv_marker: 8 + 49 * 8,
        buf_word_wrap: 8 + 29 * 8,
        buf_selective_display: 8 + 35 * 8,
        win_frame: 16,
        win_next: 24,
        win_contents: 40,
        frame_root_window: 56,
        frame_selected_window: 64,
        frame_minibuffer_window: 72,
        pvec_window: 11,
        pvec_buffer: 13,
        pseudovector_area_bits: 24,
        pseudovector_flag: 0x4000_0000_0000_0000,
    }
}

#[test]
fn validate_offsets_accepts_expected_layout() {
    assert!(validate_offsets(&good_offsets()).is_ok());
}

#[test]
fn validate_offsets_names_mismatched_field() {
    let mut off = good_offsets();
    off.buf_lisp_field_count = 77;
    let err = validate_offsets(&off).unwrap_err();
    assert_eq!(err.field, "buffer field count");
    assert_eq!(err.expected, 76);
    assert_eq!(err.got, 77);
}

#[test]
fn ensure_offsets_valid_runs_once() {
    let mut oracle = OffsetsOracle::new();
    let off = good_offsets();
    assert_eq!(ensure_offsets_valid(&mut oracle, &off).unwrap(), true);
    assert_eq!(ensure_offsets_valid(&mut oracle, &off).unwrap(), false);
}

#[test]
fn ensure_offsets_valid_rejects_mismatch() {
    let mut oracle = OffsetsOracle::new();
    let mut off = good_offsets();
    off.buftext_gpt = 12;
    assert!(ensure_offsets_valid(&mut oracle, &off).is_err());
    assert!(!oracle.validated);
}

#[test]
fn test_basic_operations() {
    let mut grid = CharacterGrid::new(10, 5);
    grid.set_cell(0, 0, "A".to_string(), None, 1);
    assert_eq!(grid.get_cell(0, 0).unwrap().text, "A");
    assert!(grid.is_row_dirty(0));
    grid.mark_row_clean(0);
    assert!(!grid.is_row_dirty(0));
}

#[test]
fn test_scroll() {
    let mut grid = CharacterGrid::new(10, 5);
    grid.set_cell(0, 0, "A".to_string(), None, 1);
    grid.scroll(1);
    // The content stays in place; the view shifts: what was row 0 now
    // shows at row 4.
    assert_eq!(grid.get_cell(0, 4).unwrap().text, "A");
    assert!(grid.is_row_dirty(0));
}

#[test]
fn test_resize() {
    let mut grid = CharacterGrid::new(10, 5);
    grid.set_cell(0, 0, "A".to_string(), None, 1);
    grid.resize(20, 10);
    assert_eq!(grid.width, 20);
    assert_eq!(grid.height, 10);
    assert_eq!(grid.get_cell(0, 0).unwrap().text, "A");
}

#[test]
fn scroll_round_trip_restores_content() {
    // Scrolling by two rows and then back shows the original content.
    let mut grid = CharacterGrid::new(4, 6);
    grid.set_cell(0, 0, "A".to_string(), None, 1);
    grid.set_cell(1, 2, "B".to_string(), None, 1);
    grid.set_cell(3, 5, "C".to_string(), None, 1);
    grid.scroll(2);
    grid.scroll(-2);
    assert_eq!(grid.get_cell(0, 0).unwrap().text, "A");
    assert_eq!(grid.get_cell(1, 2).unwrap().text, "B");
    assert_eq!(grid.get_cell(3, 5).unwrap().text, "C");
}

#[test]
fn blank_cell_is_a_space() {
    let c = GridCell::blank();
    assert_eq!(c.text, " ");
    assert!(c.style.is_none());
    assert_eq!(c.width, 1);
}

#[test]
fn window_tree_counts_leaves() {
    // root
    //   internal(leaf, leaf)
    //   leaf
    let tree = WindowTree::Internal(vec![
        WindowTree::Internal(vec![WindowTree::Leaf(1), WindowTree::Leaf(2)]),
        WindowTree::Leaf(3),
    ]);
    assert_eq!(count_leaves(&tree, 64), 3);

    let frame = FrameModel { root: Some(tree), owns_minibuffer: true };
    assert_eq!(frame_window_count(&frame), 4);

    let empty = FrameModel { root: None, owns_minibuffer: false };
    assert_eq!(frame_window_count(&empty), 0);
}

#[test]
fn window_tree_depth_cutoff() {
    // Below the depth cutoff nothing is counted.
    let tree = WindowTree::Internal(vec![WindowTree::Leaf(1)]);
    assert_eq!(count_leaves(&tree, 0), 0);
    assert_eq!(count_leaves(&tree, 1), 1);
}

#[test]
fn surface_plan_prefers_srgb() {
    let formats = vec![
        FormatOption { code: 10, srgb: false },
        FormatOption { code: 11, srgb: true },
        FormatOption { code: 12, srgb: true },
    ];
    let plan = plan_surface(&formats, true).unwrap();
    assert_eq!(plan.format.code, 11, "the first sRGB format wins");
    assert!(plan.alpha_premultiplied);
    assert_eq!(plan.max_frame_latency, 2);
}

#[test]
fn surface_plan_falls_back_to_first_format() {
    let formats = vec![
        FormatOption { code: 10, srgb: false },
        FormatOption { code: 12, srgb: false },
    ];
    let plan = plan_surface(&formats, false).unwrap();
    assert_eq!(plan.format.code, 10);
    assert!(!plan.alpha_premultiplied);
    assert!(plan_surface(&vec![], true).is_none());
}

fn window_state(frame_id: u64) -> WindowState {
    WindowState {
        os_window_id: frame_id + 100,
        surface_format: 11,
        surface_format_srgb: true,
        alpha_premultiplied: true,
        width: 800,
        height: 600,
        scale_permille: 1000,
        emacs_frame_id: frame_id,
        current_frame: None,
        child_frames: Vec::new(),
        frame_dirty: false,
        title: "window".to_string(),
    }
}

#[test]
fn window_manager_routes_root_frames() {
    let mut mgr = MultiWindowManager::new();
    assert!(mgr.insert_window(window_state(2)));
    assert!(!mgr.insert_window(window_state(2)), "a second window per frame is refused");

    let mut frame = FrameGlyphBuffer::new(2);
    frame.width = 640;
    assert!(mgr.route_frame(frame), "a root frame goes to its own window");
    assert!(mgr.any_dirty());
    assert_eq!(mgr.windows[0].current_frame.as_ref().unwrap().width, 640);

    // A frame id of zero is the primary window: left to the caller.
    let primary = FrameGlyphBuffer::new(0);
    assert!(!mgr.route_frame(primary));

    // An unknown frame id stays unrouted.
    let stray = FrameGlyphBuffer::new(9);
    assert!(!mgr.route_frame(stray));
}

#[test]
fn window_manager_routes_child_frames() {
    let mut mgr = MultiWindowManager::new();
    assert!(mgr.insert_window(window_state(2)));
    let mut child = FrameGlyphBuffer::new(5);
    child.parent_id = 2;
    assert!(mgr.route_frame(child), "a child overlay goes under its parent's window");
    assert_eq!(mgr.windows[0].child_frames.len(), 1);
    assert!(mgr.windows[0].frame_dirty);

    let mut orphan = FrameGlyphBuffer::new(6);
    orphan.parent_id = 77;
    assert!(!mgr.route_frame(orphan));
}

#[test]
fn window_manager_resize_guards_zero() {
    let mut mgr = MultiWindowManager::new();
    assert!(mgr.insert_window(window_state(2)));
    assert!(!mgr.handle_resize(2, 0, 600), "a zero dimension never reconfigures");
    assert_eq!(mgr.windows[0].width, 800);
    assert!(mgr.handle_resize(2, 1024, 768));
    assert_eq!(mgr.windows[0].width, 1024);
    assert_eq!(mgr.windows[0].height, 768);
    assert!(mgr.windows[0].frame_dirty);
}

#[test]
fn window_manager_queues_and_destroys() {
    let mut mgr = MultiWindowManager::new();
    mgr.request_create(3, 640, 480, "three".to_string());
    assert_eq!(mgr.pending_creates.len(), 1);
    let pending = mgr.take_pending_creates();
    assert_eq!(pending.len(), 1);
    assert_eq!(pending[0].emacs_frame_id, 3);
    assert_eq!(mgr.pending_creates.len(), 0);

    assert!(mgr.insert_window(window_state(3)));
    mgr.request_destroy(3);
    mgr.process_destroys();
    assert_eq!(mgr.count(), 0);
    assert!(!mgr.has_window(3));
}

#[test]
fn window_manager_dirty_tracking() {
    let mut mgr = MultiWindowManager::new();
    assert!(mgr.insert_window(window_state(2)));
    assert!(!mgr.any_dirty());
    let frame = FrameGlyphBuffer::new(2);
    mgr.route_frame(frame);
    assert!(mgr.any_dirty());
    assert_eq!(mgr.dirty_windows(), vec![2]);
    mgr.mark_clean(2);
    assert!(!mgr.any_dirty());
}

#[test]
fn worker_config_default() {
    let c = WorkerConfig::default();
    assert_eq!(c.threads, 1);
    assert_eq!(c.queue_capacity, 1024);
}

#[test]
fn task_context_cancellation() {
    let mut ctx = TaskContext::new();
    assert!(!ctx.is_cancelled());
    ctx.cancel();
    assert!(ctx.is_cancelled());
}

#[test]
fn enqueue_decision() {
    assert_eq!(check_enqueue(true, false, 0, 10), Err(EnqueueError::MainAffinityUnsupported));
    assert_eq!(check_enqueue(false, true, 0, 10), Err(EnqueueError::Closed));
    assert_eq!(check_enqueue(false, false, 10, 10), Err(EnqueueError::QueueFull));
    assert_eq!(check_enqueue(false, false, 3, 10), Ok(()));
}

#[test]
fn byte_char_symmetry_concrete() {
    // A byte position on a character boundary survives the round trip
    // through character positions.
    let s = "a\u{4E16}b";
    for b in [0usize, 1, 4, 5] {
        let c = neomacs_display::chars::byte_to_char_pos(s, b);
        assert_eq!(neomacs_display::chars::char_to_byte_pos(s, c), b);
    }
}

#[test]
fn scroll_region_copies_cells() {
    let mut grid = CharacterGrid::new(4, 6);
    grid.set_cell(0, 0, "A".to_string(), None, 1);
    grid.set_cell(0, 1, "B".to_string(), None, 1);
    // Scroll rows 0 to 3 down by one: row 1 now shows what row 0 held.
    grid.scroll_region(0, 3, 0, 4, 1, 0);
    assert_eq!(grid.get_cell(0, 1).unwrap().text, "A");
    assert!(grid.is_row_dirty(0));
    assert!(grid.is_row_dirty(2));
}

#[test]
fn scroll_region_up_copies_cells() {
    let mut grid = CharacterGrid::new(4, 6);
    grid.set_cell(2, 3, "X".to_string(), None, 1);
    // Scroll rows 0 to 5 up by one within columns 0 to 3.
    grid.scroll_region(0, 5, 0, 4, -1, 0);
    assert_eq!(grid.get_cell(2, 2).unwrap().text, "X");
}

#[test]
fn update_row_writes_a_run() {
    let mut grid = CharacterGrid::new(4, 2);
    let cells = vec![("a".to_string(), None), ("b".to_string(), None)];
    grid.update_row(1, 1, &cells);
    assert_eq!(grid.get_cell(1, 1).unwrap().text, "a");
    assert_eq!(grid.get_cell(2, 1).unwrap().text, "b");
    assert!(grid.is_row_dirty(1));
}
