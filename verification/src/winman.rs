//! Multi-window management for the render thread.
//!
//! One state record per OS window, keyed by the host frame that owns
//! it, with the two pending queues (creations wait for the event
//! loop's window-creation capability, destructions for the gap between
//! frames) and the routing of incoming glyph buffers. The OS and GPU
//! calls themselves happen outside; this module holds every decision
//! they act on.

use vstd::prelude::*;
use crate::glyphs::FrameGlyphBuffer;

verus! {

/// Per-window state on the render thread.
#[derive(Debug)]
pub struct WindowState {
    /// OS window identifier.
    pub os_window_id: u64,
    /// Chosen surface format code.
    pub surface_format: u32,
    /// The chosen format is an sRGB format.
    pub surface_format_srgb: bool,
    /// Pre-multiplied alpha compositing was chosen.
    pub alpha_premultiplied: bool,
    /// Physical width in pixels.
    pub width: u32,
    /// Physical height in pixels.
    pub height: u32,
    /// Display scale factor, in per-mille.
    pub scale_permille: u32,
    /// The host frame this window shows.
    pub emacs_frame_id: u64,
    /// Current root glyph buffer, if one has arrived.
    pub current_frame: Option<FrameGlyphBuffer>,
    /// Child overlay glyph buffers, keyed by child frame id.
    pub child_frames: Vec<(u64, FrameGlyphBuffer)>,
    /// The window needs a redraw.
    pub frame_dirty: bool,
    /// Window title.
    pub title: String,
}

/// A queued request to create an OS window.
#[derive(Debug, PartialEq)]
pub struct PendingWindow {
    pub emacs_frame_id: u64,
    pub width: u32,
    pub height: u32,
    pub title: String,
}

/// One surface format a window surface offers: its code and whether it
/// is an sRGB format.
#[derive(Debug, Clone, Copy, PartialEq, Eq, Structural)]
pub struct FormatOption {
    pub code: u32,
    pub srgb: bool,
}

/// The surface configuration chosen for a new window: the first sRGB
/// format the surface offers, or its first format; pre-multiplied
/// alpha when supported; first-in-first-out presentation with two
/// frames in flight.
#[derive(Debug, Clone, Copy, PartialEq, Eq, Structural)]
pub struct SurfacePlan {
    pub format: FormatOption,
    pub alpha_premultiplied: bool,
    /// Frames the presentation queue may hold.
    pub max_frame_latency: u32,
}

/// Index of the first sRGB format, or -1.
pub open spec fn spec_first_srgb(formats: Seq<FormatOption>) -> int
    decreases formats.len(),
{
    if formats.len() == 0 {
        -1
    } else if formats[0].srgb {
        0
    } else {
        let rest = spec_first_srgb(formats.drop_first());
        if rest == -1 {
            -1
        } else {
            rest + 1
        }
    }
}

/// Choose the surface configuration from what the surface offers:
/// the first sRGB-capable format if any, else the first format, and
/// pre-multiplied alpha exactly when supported.
pub fn plan_surface(formats: &Vec<FormatOption>, premultiplied_supported: bool) -> (r: Option<
    SurfacePlan,
>)
    ensures
        r is Some <==> formats@.len() > 0,
        r matches Some(p) ==> {
            &&& p.max_frame_latency == 2
            &&& p.alpha_premultiplied == premultiplied_supported
            &&& (spec_first_srgb(formats@) >= 0 ==> p.format == formats@[spec_first_srgb(
                formats@,
            )] && p.format.srgb)
            &&& (spec_first_srgb(formats@) == -1 ==> p.format == formats@[0])
        },
{
    if formats.len() == 0 {
        return None;
    }
    let n = formats.len();
    let mut i: usize = 0;
    while i < n
        invariant
            i <= n,
            n == formats@.len(),
            forall|j: int| 0 <= j < i ==> !(#[trigger] formats@[j]).srgb,
        decreases n - i,
    {
        if formats[i].srgb {
            proof {
                lemma_first_srgb_at(formats@, i as int);
            }
            return Some(
                SurfacePlan {
                    format: formats[i],
                    alpha_premultiplied: premultiplied_supported,
                    max_frame_latency: 2,
                },
            );
        }
        i = i + 1;
    }
    proof {
        lemma_first_srgb_none(formats@);
    }
    Some(
        SurfacePlan {
            format: formats[0],
            alpha_premultiplied: premultiplied_supported,
            max_frame_latency: 2,
        },
    )
}

proof fn lemma_first_srgb_at(formats: Seq<FormatOption>, i: int)
    requires
        0 <= i < formats.len(),
        formats[i].srgb,
        forall|j: int| 0 <= j < i ==> !(#[trigger] formats[j]).srgb,
    ensures
        spec_first_srgb(formats) == i,
    decreases i,
{
    if i > 0 {
        assert forall|j: int| 0 <= j < i - 1 implies !(#[trigger] formats.drop_first()[j]).srgb by {
            assert(formats.drop_first()[j] == formats[j + 1]);
        }
        assert(formats.drop_first()[i - 1] == formats[i]);
        lemma_first_srgb_at(formats.drop_first(), i - 1);
    }
}

proof fn lemma_first_srgb_none(formats: Seq<FormatOption>)
    requires
        forall|j: int| 0 <= j < formats.len() ==> !(#[trigger] formats[j]).srgb,
    ensures
        spec_first_srgb(formats) == -1,
    decreases formats.len(),
{
    if formats.len() > 0 {
        assert forall|j: int|
            0 <= j < formats.drop_first().len() implies !(#[trigger] formats.drop_first()[j]).srgb
            by {
            assert(formats.drop_first()[j] == formats[j + 1]);
        }
        lemma_first_srgb_none(formats.drop_first());
    }
}

/// All windows of the render thread.
#[derive(Debug)]
pub struct MultiWindowManager {
    /// Per-window state, one entry per host frame.
    pub windows: Vec<WindowState>,
    /// Window creations waiting for the event-loop capability.
    pub pending_creates: Vec<PendingWindow>,
    /// Window destructions waiting for the gap between frames.
    pub pending_destroys: Vec<u64>,
}

/// Index of the window owned by a host frame, or -1.
pub open spec fn spec_window_index(ws: Seq<WindowState>, frame_id: u64) -> int
    decreases ws.len(),
{
    if ws.len() == 0 {
        -1
    } else if ws[0].emacs_frame_id == frame_id {
        0
    } else {
        let rest = spec_window_index(ws.drop_first(), frame_id);
        if rest == -1 {
            -1
        } else {
            rest + 1
        }
    }
}

proof fn lemma_window_index(ws: Seq<WindowState>, frame_id: u64)
    ensures
        spec_window_index(ws, frame_id) >= -1,
        spec_window_index(ws, frame_id) >= 0 ==> spec_window_index(ws, frame_id) < ws.len()
            && ws[spec_window_index(ws, frame_id)].emacs_frame_id == frame_id,
        spec_window_index(ws, frame_id) == -1 ==> forall|i: int|
            0 <= i < ws.len() ==> (#[trigger] ws[i]).emacs_frame_id != frame_id,
        forall|i: int|
            0 <= i < spec_window_index(ws, frame_id) ==> (#[trigger] ws[i]).emacs_frame_id
                != frame_id,
    decreases ws.len(),
{
    if ws.len() > 0 && ws[0].emacs_frame_id != frame_id {
        lemma_window_index(ws.drop_first(), frame_id);
        assert forall|i: int|
            0 <= i < spec_window_index(ws, frame_id) implies (#[trigger] ws[i]).emacs_frame_id
            != frame_id by {
            if i > 0 {
                assert(ws.drop_first()[i - 1] == ws[i]);
            }
        }
        if spec_window_index(ws, frame_id) == -1 {
            assert(spec_window_index(ws.drop_first(), frame_id) == -1);
            assert forall|i: int|
                0 <= i < ws.len() implies (#[trigger] ws[i]).emacs_frame_id != frame_id by {
                if i > 0 {
                    assert(ws.drop_first()[i - 1] == ws[i]);
                    assert(ws.drop_first()[i - 1].emacs_frame_id != frame_id);
                }
            }
        }
    }
}

proof fn lemma_window_index_first(ws: Seq<WindowState>, frame_id: u64, i: int)
    requires
        0 <= i < ws.len(),
        ws[i].emacs_frame_id == frame_id,
        forall|j: int| 0 <= j < i ==> (#[trigger] ws[j]).emacs_frame_id != frame_id,
    ensures
        spec_window_index(ws, frame_id) == i,
{
    lemma_window_index(ws, frame_id);
    if spec_window_index(ws, frame_id) > i {
        assert(ws[i].emacs_frame_id != frame_id);
    }
}

impl MultiWindowManager {
    /// An empty manager.
    pub fn new() -> (r: MultiWindowManager)
        ensures
            r.windows@.len() == 0,
            r.pending_creates@.len() == 0,
            r.pending_destroys@.len() == 0,
    {
        MultiWindowManager { windows: Vec::new(), pending_creates: Vec::new(), pending_destroys: Vec::new() }
    }

    /// Queue a window creation; OS windows can only be made while the
    /// event loop hands out its capability.
    pub fn request_create(&mut self, emacs_frame_id: u64, width: u32, height: u32, title: String)
        ensures
            final (self).pending_creates@ == old(self).pending_creates@.push(
                PendingWindow { emacs_frame_id, width, height, title },
            ),
            final (self).windows@ == old(self).windows@,
            final (self).pending_destroys@ == old(self).pending_destroys@,
    {
        self.pending_creates.push(PendingWindow { emacs_frame_id, width, height, title });
    }

    /// Queue a window destruction.
    pub fn request_destroy(&mut self, emacs_frame_id: u64)
        ensures
            final (self).pending_destroys@ == old(self).pending_destroys@.push(emacs_frame_id),
            final (self).windows@ == old(self).windows@,
            final (self).pending_creates@.len() == old(self).pending_creates@.len(),
    {
        self.pending_destroys.push(emacs_frame_id);
    }

    /// Take the queued creations out for processing (the caller holds
    /// the event-loop capability and performs the OS work).
    pub fn take_pending_creates(&mut self) -> (r: Vec<PendingWindow>)
        ensures
            r@ == old(self).pending_creates@,
            final (self).pending_creates@.len() == 0,
            final (self).windows@ == old(self).windows@,
            final (self).pending_destroys@ == old(self).pending_destroys@,
    {
        let mut out: Vec<PendingWindow> = Vec::new();
        std::mem::swap(&mut out, &mut self.pending_creates);
        out
    }

    /// Whether a window for this host frame exists.
    pub fn has_window(&self, emacs_frame_id: u64) -> (r: bool)
        ensures
            r == (spec_window_index(self.windows@, emacs_frame_id) >= 0),
    {
        self.find_window(emacs_frame_id).is_some()
    }

    /// Find the index of the window owned by a host frame.
    fn find_window(&self, emacs_frame_id: u64) -> (r: Option<usize>)
        ensures
            r is Some <==> spec_window_index(self.windows@, emacs_frame_id) >= 0,
            r matches Some(i) ==> i == spec_window_index(self.windows@, emacs_frame_id),
    {
        let ghost ws = self.windows@;
        let n = self.windows.len();
        let mut i: usize = 0;
        while i < n
            invariant
                i <= n,
                n == self.windows@.len(),
                ws == self.windows@,
                forall|j: int| 0 <= j < i ==> (#[trigger] ws[j]).emacs_frame_id != emacs_frame_id,
            decreases n - i,
        {
            if self.windows[i].emacs_frame_id == emacs_frame_id {
                proof {
                    lemma_window_index_first(ws, emacs_frame_id, i as int);
                }
                return Some(i);
            }
            i = i + 1;
        }
        proof {
            lemma_window_index(ws, emacs_frame_id);
            if spec_window_index(ws, emacs_frame_id) >= 0 {
                assert(ws[spec_window_index(ws, emacs_frame_id)].emacs_frame_id == emacs_frame_id);
            }
        }
        None
    }

    /// Record a created window. Refused (reporting `false`) when the
    /// frame already has one.
    pub fn insert_window(&mut self, state: WindowState) -> (r: bool)
        ensures
            r == (spec_window_index(old(self).windows@, state.emacs_frame_id) == -1),
            r ==> final (self).windows@ == old(self).windows@.push(state),
            !r ==> final (self).windows@ == old(self).windows@,
            final (self).pending_creates@ == old(self).pending_creates@,
            final (self).pending_destroys@ == old(self).pending_destroys@,
    {
        if self.find_window(state.emacs_frame_id).is_some() {
            proof {
                lemma_window_index(self.windows@, state.emacs_frame_id);
            }
            return false;
        }
        proof {
            lemma_window_index(self.windows@, state.emacs_frame_id);
        }
        self.windows.push(state);
        true
    }

    /// Drop the windows of every queued destruction; their surfaces
    /// and OS windows fall with them. The surviving windows are exactly
    /// those whose frame was not queued, in their old order.
    pub fn process_destroys(&mut self)
        ensures
            final (self).pending_destroys@.len() == 0,
            final (self).pending_creates@ == old(self).pending_creates@,
            final (self).windows@ == spec_keep_windows(
                old(self).windows@,
                old(self).pending_destroys@,
            ),
    {
        let mut doomed: Vec<u64> = Vec::new();
        std::mem::swap(&mut doomed, &mut self.pending_destroys);
        let mut kept: Vec<WindowState> = Vec::new();
        let mut src: Vec<WindowState> = Vec::new();
        std::mem::swap(&mut src, &mut self.windows);
        let ghost ws0 = src@;
        let ghost ids = doomed@;
        while src.len() > 0
            invariant
                self.pending_creates@ == old(self).pending_creates@,
                self.pending_destroys@.len() == 0,
                ids == doomed@,
                ws0 =~= ws0.take(ws0.len() - src@.len()) + src@,
                kept@ == spec_keep_windows(ws0.take(ws0.len() - src@.len()), ids),
                src@.len() <= ws0.len(),
            decreases src@.len(),
        {
            let ghost consumed = ws0.len() - src@.len();
            let w = src.remove(0);
            proof {
                assert(w == ws0[consumed as int]);
                assert(ws0.take(consumed as int + 1) =~= ws0.take(consumed as int) + seq![w]);
                lemma_keep_windows_concat(ws0.take(consumed as int), seq![w], ids);
                assert(seq![w].drop_first() =~= Seq::<WindowState>::empty());
                assert(spec_keep_windows(Seq::<WindowState>::empty(), ids) =~= Seq::<
                    WindowState,
                >::empty());
            }
            if !u64_vec_contains(&doomed, w.emacs_frame_id) {
                kept.push(w);
                proof {
                    assert(kept@ =~= spec_keep_windows(ws0.take(consumed as int + 1), ids));
                    assert(ws0 =~= ws0.take(consumed as int + 1) + src@);
                }
            } else {
                proof {
                    assert(kept@ =~= spec_keep_windows(ws0.take(consumed as int + 1), ids));
                    assert(ws0 =~= ws0.take(consumed as int + 1) + src@);
                }
            }
        }
        proof {
            assert(ws0.take(ws0.len() as int) =~= ws0);
        }
        self.windows = kept;
    }

    /// Route an incoming glyph buffer. A frame id of zero targets the
    /// primary window and is left to the caller; a child overlay goes
    /// under the window of its parent frame; anything else replaces
    /// the root buffer of its own window. The receiving window turns
    /// dirty. Reports whether a secondary window took the buffer.
    pub fn route_frame(&mut self, frame: FrameGlyphBuffer) -> (r: bool)
        ensures
            frame.frame_id == 0 ==> !r && *final (self) == *old(self),
            frame.frame_id != 0 && frame.parent_id != 0 ==> {
                let idx = spec_window_index(old(self).windows@, frame.parent_id);
                &&& (r <==> idx >= 0)
                &&& (idx >= 0 ==> final (self).windows@[idx].frame_dirty && final (self).windows@.len() == old(self).windows@.len())
                &&& (idx < 0 ==> *final (self) == *old(self))
            },
            frame.frame_id != 0 && frame.parent_id == 0 ==> {
                let idx = spec_window_index(old(self).windows@, frame.frame_id);
                &&& (r <==> idx >= 0)
                &&& (idx >= 0 ==> (final (self).windows@[idx].frame_dirty && final (self).windows@[idx].current_frame == Some(frame) && final (self).windows@.len() == old(
                    self,
                ).windows@.len()))
                &&& (idx < 0 ==> *final (self) == *old(self))
            },
            final (self).pending_creates@ == old(self).pending_creates@,
            final (self).pending_destroys@ == old(self).pending_destroys@,
    {
        let frame_id = frame.frame_id;
        if frame_id == 0 {
            return false;
        }
        if frame.parent_id != 0 {
            let found = self.find_window(frame.parent_id);
            match found {
                Some(i) => {
                    proof {
                        lemma_window_index(self.windows@, frame.parent_id);
                    }
                    let parent_id = frame.parent_id;
                    let mut w = WindowState {
                        os_window_id: 0,
                        surface_format: 0,
                        surface_format_srgb: false,
                        alpha_premultiplied: false,
                        width: 0,
                        height: 0,
                        scale_permille: 0,
                        emacs_frame_id: 0,
                        current_frame: None,
                        child_frames: Vec::new(),
                        frame_dirty: false,
                        title: String::new(),
                    };
                    std::mem::swap(&mut w, &mut self.windows[i]);
                    update_child_frame(&mut w.child_frames, frame);
                    w.frame_dirty = true;
                    self.windows[i] = w;
                    true
                },
                None => false,
            }
        } else {
            let found = self.find_window(frame_id);
            match found {
                Some(i) => {
                    proof {
                        lemma_window_index(self.windows@, frame_id);
                    }
                    let mut w = WindowState {
                        os_window_id: 0,
                        surface_format: 0,
                        surface_format_srgb: false,
                        alpha_premultiplied: false,
                        width: 0,
                        height: 0,
                        scale_permille: 0,
                        emacs_frame_id: 0,
                        current_frame: None,
                        child_frames: Vec::new(),
                        frame_dirty: false,
                        title: String::new(),
                    };
                    std::mem::swap(&mut w, &mut self.windows[i]);
                    w.current_frame = Some(frame);
                    w.frame_dirty = true;
                    self.windows[i] = w;
                    true
                },
                None => false,
            }
        }
    }

    /// Resize a window's surface configuration; zero dimensions are
    /// refused so the surface is never configured to nothing. The
    /// resized window turns dirty.
    pub fn handle_resize(&mut self, frame_id: u64, width: u32, height: u32) -> (r: bool)
        ensures
            width == 0 || height == 0 ==> !r && *final (self) == *old(self),
            width > 0 && height > 0 ==> {
                let idx = spec_window_index(old(self).windows@, frame_id);
                &&& (r <==> idx >= 0)
                &&& (idx >= 0 ==> (final (self).windows@[idx].width == width && final (self).windows@[idx].height == height && final (self).windows@[idx].frame_dirty))
                &&& (idx < 0 ==> *final (self) == *old(self))
            },
    {
        if width == 0 || height == 0 {
            return false;
        }
        let found = self.find_window(frame_id);
        match found {
            Some(i) => {
                proof {
                    lemma_window_index(self.windows@, frame_id);
                }
                let mut w = WindowState {
                    os_window_id: 0,
                    surface_format: 0,
                    surface_format_srgb: false,
                    alpha_premultiplied: false,
                    width: 0,
                    height: 0,
                    scale_permille: 0,
                    emacs_frame_id: 0,
                    current_frame: None,
                    child_frames: Vec::new(),
                    frame_dirty: false,
                    title: String::new(),
                };
                std::mem::swap(&mut w, &mut self.windows[i]);
                w.width = width;
                w.height = height;
                w.frame_dirty = true;
                self.windows[i] = w;
                true
            },
            None => false,
        }
    }

    /// Whether any window needs a redraw.
    pub fn any_dirty(&self) -> (r: bool)
        ensures
            r == exists|i: int|
                0 <= i < self.windows@.len() && (#[trigger] self.windows@[i]).frame_dirty,
    {
        let n = self.windows.len();
        let mut i: usize = 0;
        while i < n
            invariant
                i <= n,
                n == self.windows@.len(),
                forall|j: int| 0 <= j < i ==> !(#[trigger] self.windows@[j]).frame_dirty,
            decreases n - i,
        {
            if self.windows[i].frame_dirty {
                return true;
            }
            i = i + 1;
        }
        false
    }

    /// Number of secondary windows.
    pub fn count(&self) -> (r: usize)
        ensures
            r == self.windows@.len(),
    {
        self.windows.len()
    }

    /// The host frame ids of every window that needs a redraw, in
    /// window order.
    pub fn dirty_windows(&self) -> (r: Vec<u64>)
        ensures
            r@ == spec_dirty_ids(self.windows@),
    {
        let ghost ws = self.windows@;
        let mut out: Vec<u64> = Vec::new();
        let n = self.windows.len();
        let mut i: usize = 0;
        while i < n
            invariant
                i <= n,
                n == self.windows@.len(),
                ws == self.windows@,
                out@ == spec_dirty_ids(ws.take(i as int)),
            decreases n - i,
        {
            proof {
                assert(ws.take(i as int + 1) =~= ws.take(i as int) + seq![ws[i as int]]);
                lemma_dirty_ids_concat(ws.take(i as int), seq![ws[i as int]]);
                assert(seq![ws[i as int]].drop_first() =~= Seq::<WindowState>::empty());
                assert(spec_dirty_ids(Seq::<WindowState>::empty()) =~= Seq::<u64>::empty());
            }
            if self.windows[i].frame_dirty {
                out.push(self.windows[i].emacs_frame_id);
                proof {
                    assert(out@ =~= spec_dirty_ids(ws.take(i as int)) + seq![
                        ws[i as int].emacs_frame_id,
                    ]);
                }
            } else {
                proof {
                    assert(out@ =~= spec_dirty_ids(ws.take(i as int)) + Seq::<u64>::empty());
                }
            }
            i = i + 1;
        }
        proof {
            assert(ws.take(n as int) =~= ws);
        }
        out
    }

    /// Mark a window clean after its render pass.
    pub fn mark_clean(&mut self, frame_id: u64)
        ensures
            ({
                let idx = spec_window_index(old(self).windows@, frame_id);
                &&& (idx >= 0 ==> {
                    &&& final (self).windows@.len() == old(self).windows@.len()
                    &&& (forall|j: int|
                        0 <= j < old(self).windows@.len() && j != idx
                            ==> #[trigger] final (self).windows@[j] == old(self).windows@[j])
                    &&& !final (self).windows@[idx].frame_dirty
                    &&& final (self).windows@[idx].emacs_frame_id == old(
                        self,
                    ).windows@[idx].emacs_frame_id
                    &&& final (self).windows@[idx].current_frame == old(
                        self,
                    ).windows@[idx].current_frame
                })
                &&& (idx < 0 ==> *final (self) == *old(self))
            }),
    {
        let found = self.find_window(frame_id);
        match found {
            Some(i) => {
                proof {
                    lemma_window_index(self.windows@, frame_id);
                }
                let mut w = WindowState {
                    os_window_id: 0,
                    surface_format: 0,
                    surface_format_srgb: false,
                    alpha_premultiplied: false,
                    width: 0,
                    height: 0,
                    scale_permille: 0,
                    emacs_frame_id: 0,
                    current_frame: None,
                    child_frames: Vec::new(),
                    frame_dirty: false,
                    title: String::new(),
                };
                std::mem::swap(&mut w, &mut self.windows[i]);
                w.frame_dirty = false;
                self.windows[i] = w;
            },
            None => {},
        }
    }
}

/// Index of the first child entry keyed `key`, or -1.
pub open spec fn spec_child_index(children: Seq<(u64, FrameGlyphBuffer)>, key: u64) -> int
    decreases children.len(),
{
    if children.len() == 0 {
        -1
    } else if children[0].0 == key {
        0
    } else {
        let rest = spec_child_index(children.drop_first(), key);
        if rest == -1 {
            -1
        } else {
            rest + 1
        }
    }
}

/// The child overlay buffer stored under `key`, if any.
pub open spec fn spec_child_lookup(children: Seq<(u64, FrameGlyphBuffer)>, key: u64) -> Option<
    FrameGlyphBuffer,
> {
    let idx = spec_child_index(children, key);
    if idx >= 0 {
        Some(children[idx].1)
    } else {
        None
    }
}

proof fn lemma_child_index(children: Seq<(u64, FrameGlyphBuffer)>, key: u64)
    ensures
        spec_child_index(children, key) >= -1,
        spec_child_index(children, key) >= 0 ==> spec_child_index(children, key) < children.len()
            && children[spec_child_index(children, key)].0 == key,
        spec_child_index(children, key) == -1 ==> forall|i: int|
            0 <= i < children.len() ==> (#[trigger] children[i]).0 != key,
        forall|i: int|
            0 <= i < spec_child_index(children, key) ==> (#[trigger] children[i]).0 != key,
    decreases children.len(),
{
    if children.len() > 0 && children[0].0 != key {
        lemma_child_index(children.drop_first(), key);
        assert forall|i: int|
            0 <= i < spec_child_index(children, key) implies (#[trigger] children[i]).0 != key by {
            if i > 0 {
                assert(children.drop_first()[i - 1] == children[i]);
            }
        }
        if spec_child_index(children, key) == -1 {
            assert(spec_child_index(children.drop_first(), key) == -1);
            assert forall|i: int|
                0 <= i < children.len() implies (#[trigger] children[i]).0 != key by {
                if i > 0 {
                    assert(children.drop_first()[i - 1] == children[i]);
                    assert(children.drop_first()[i - 1].0 != key);
                }
            }
        }
    }
}

proof fn lemma_child_index_first(children: Seq<(u64, FrameGlyphBuffer)>, key: u64, i: int)
    requires
        0 <= i < children.len(),
        children[i].0 == key,
        forall|j: int| 0 <= j < i ==> (#[trigger] children[j]).0 != key,
    ensures
        spec_child_index(children, key) == i,
{
    lemma_child_index(children, key);
    if spec_child_index(children, key) > i {
        assert(children[i].0 != key);
    }
}

/// Install a child overlay buffer under its frame id, replacing any
/// earlier buffer of the same child and keeping the rest.
fn update_child_frame(children: &mut Vec<(u64, FrameGlyphBuffer)>, frame: FrameGlyphBuffer)
    ensures
        spec_child_index(old(children)@, frame.frame_id) >= 0 ==> final (children)@ == old(
            children,
        )@.update(spec_child_index(old(children)@, frame.frame_id), (frame.frame_id, frame)),
        spec_child_index(old(children)@, frame.frame_id) == -1 ==> final (children)@ == old(
            children,
        )@.push((frame.frame_id, frame)),
        spec_child_lookup(final (children)@, frame.frame_id) == Some(frame),
{
    let key = frame.frame_id;
    let ghost cs0 = children@;
    let n = children.len();
    let mut i: usize = 0;
    while i < n
        invariant
            i <= n,
            n == children@.len(),
            cs0 == children@,
            cs0 == old(children)@,
            key == frame.frame_id,
            forall|j: int| 0 <= j < i ==> (#[trigger] cs0[j]).0 != key,
        decreases n - i,
    {
        if children[i].0 == key {
            proof {
                lemma_child_index_first(cs0, key, i as int);
            }
            children[i] = (key, frame);
            proof {
                let cs1 = children@;
                assert(spec_child_index(cs0, key) == i as int);
                assert(cs1 =~= cs0.update(i as int, (key, frame)));
                assert(cs1 == cs0.update(i as int, (key, frame)));
                assert forall|j: int| 0 <= j < i implies (#[trigger] cs1[j]).0 != key by {
                    assert(cs1[j] == cs0[j]);
                }
                lemma_child_index_first(cs1, key, i as int);
                assert(spec_child_lookup(cs1, key) == Some(frame));
            }
            return ;
        }
        i = i + 1;
    }
    proof {
        lemma_child_index(cs0, key);
        if spec_child_index(cs0, key) >= 0 {
            assert(cs0[spec_child_index(cs0, key)].0 == key);
        }
    }
    children.push((key, frame));
    proof {
        let cs1 = children@;
        assert(cs1 =~= cs0.push((key, frame)));
        assert forall|j: int| 0 <= j < cs0.len() implies (#[trigger] cs1[j]).0 != key by {
            assert(cs1[j] == cs0[j]);
        }
        lemma_child_index_first(cs1, key, cs0.len() as int);
    }
}

/// The frame ids of the dirty windows, in window order.
pub open spec fn spec_dirty_ids(ws: Seq<WindowState>) -> Seq<u64>
    decreases ws.len(),
{
    if ws.len() == 0 {
        Seq::empty()
    } else if ws[0].frame_dirty {
        seq![ws[0].emacs_frame_id] + spec_dirty_ids(ws.drop_first())
    } else {
        spec_dirty_ids(ws.drop_first())
    }
}

/// Collecting dirty ids splits over concatenation.
proof fn lemma_dirty_ids_concat(a: Seq<WindowState>, b: Seq<WindowState>)
    ensures
        spec_dirty_ids(a + b) == spec_dirty_ids(a) + spec_dirty_ids(b),
    decreases a.len(),
{
    if a.len() == 0 {
        assert(a + b =~= b);
        assert(spec_dirty_ids(a) =~= Seq::<u64>::empty());
        assert(spec_dirty_ids(a) + spec_dirty_ids(b) =~= spec_dirty_ids(b));
    } else {
        assert((a + b).drop_first() =~= a.drop_first() + b);
        lemma_dirty_ids_concat(a.drop_first(), b);
        assert(spec_dirty_ids(a + b) =~= spec_dirty_ids(a) + spec_dirty_ids(b));
    }
}

/// The id occurs in the sequence.
pub open spec fn spec_has_id(ids: Seq<u64>, id: u64) -> bool {
    exists|k: int| 0 <= k < ids.len() && ids[k] == id
}

/// The windows that survive a batch of destructions: those whose frame
/// id is not among the queued ids, in their old order.
pub open spec fn spec_keep_windows(ws: Seq<WindowState>, ids: Seq<u64>) -> Seq<WindowState>
    decreases ws.len(),
{
    if ws.len() == 0 {
        Seq::empty()
    } else if spec_has_id(ids, ws[0].emacs_frame_id) {
        spec_keep_windows(ws.drop_first(), ids)
    } else {
        seq![ws[0]] + spec_keep_windows(ws.drop_first(), ids)
    }
}

/// Keeping windows splits over concatenation.
proof fn lemma_keep_windows_concat(a: Seq<WindowState>, b: Seq<WindowState>, ids: Seq<u64>)
    ensures
        spec_keep_windows(a + b, ids) == spec_keep_windows(a, ids) + spec_keep_windows(b, ids),
    decreases a.len(),
{
    if a.len() == 0 {
        assert(a + b =~= b);
        assert(spec_keep_windows(a, ids) =~= Seq::<WindowState>::empty());
        assert(spec_keep_windows(a, ids) + spec_keep_windows(b, ids) =~= spec_keep_windows(
            b,
            ids,
        ));
    } else {
        assert((a + b).drop_first() =~= a.drop_first() + b);
        lemma_keep_windows_concat(a.drop_first(), b, ids);
        assert(spec_keep_windows(a + b, ids) =~= spec_keep_windows(a, ids) + spec_keep_windows(
            b,
            ids,
        ));
    }
}

/// Whether an id vector holds `id`.
fn u64_vec_contains(v: &Vec<u64>, id: u64) -> (r: bool)
    ensures
        r == spec_has_id(v@, id),
{
    let n = v.len();
    let mut i: usize = 0;
    while i < n
        invariant
            i <= n,
            n == v@.len(),
            forall|j: int| 0 <= j < i ==> v@[j] != id,
        decreases n - i,
    {
        if v[i] == id {
            return true;
        }
        i = i + 1;
    }
    false
}

} // verus!
