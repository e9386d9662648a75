//! Buffer-switch transitions: crossfade, slides, scale-fade, blur and
//! page curl.
//!
//! Progress and opacities are kept in per-mille fixed point (0 to 1000
//! stands for 0.0 to 1.0), pixel offsets in whole pixels, and blur radii
//! and curl radii in milli-pixels, so every per-frame formula is exact
//! integer arithmetic. Time is measured in milliseconds.

use vstd::prelude::*;
use vstd::arithmetic::div_mod::{lemma_div_is_ordered, lemma_fundamental_div_mod,
    lemma_mod_division_less_than_divisor};
use crate::chars::{spec_lower_seq, str_eq_ignore_ascii_case};

verus! {

/// One unit of progress: per-mille of the whole transition.
pub const PERMILLE: i64 = 1000;

/// Longest accepted transition duration in milliseconds.
pub const MAX_DURATION_MS: u64 = 1_000_000_000;

/// Buffer transition animation effect.
#[derive(Debug, Clone, Copy, PartialEq, Eq, Structural)]
pub enum BufferTransitionEffect {
    /// No animation: instant switch.
    Instant,
    /// Simple crossfade.
    Crossfade,
    /// Slide left (the new content comes from the right).
    SlideLeft,
    /// Slide right (the new content comes from the left).
    SlideRight,
    /// Slide up (the new content comes from the bottom).
    SlideUp,
    /// Slide down (the new content comes from the top).
    SlideDown,
    /// Scale and fade.
    ScaleFade,
    /// Push (the new content covers the old).
    Push,
    /// Blur transition.
    Blur,
    /// Page curl (book page turn).
    PageCurl,
}

impl Default for BufferTransitionEffect {
    /// Crossfade is the default effect.
    fn default() -> (r: BufferTransitionEffect)
        ensures
            r == BufferTransitionEffect::Crossfade,
    {
        BufferTransitionEffect::Crossfade
    }
}

/// The effect a configuration keyword names, after ASCII case folding;
/// anything unknown falls back to crossfade.
pub open spec fn spec_effect_from_str(low: Seq<char>) -> BufferTransitionEffect {
    if low == "none"@ {
        BufferTransitionEffect::Instant
    } else if low == "crossfade"@ || low == "fade"@ {
        BufferTransitionEffect::Crossfade
    } else if low == "slide-left"@ || low == "slide"@ {
        BufferTransitionEffect::SlideLeft
    } else if low == "slide-right"@ {
        BufferTransitionEffect::SlideRight
    } else if low == "slide-up"@ {
        BufferTransitionEffect::SlideUp
    } else if low == "slide-down"@ {
        BufferTransitionEffect::SlideDown
    } else if low == "scale"@ || low == "scale-fade"@ {
        BufferTransitionEffect::ScaleFade
    } else if low == "push"@ || low == "stack"@ {
        BufferTransitionEffect::Push
    } else if low == "blur"@ {
        BufferTransitionEffect::Blur
    } else if low == "page"@ || low == "page-curl"@ || low == "book"@ {
        BufferTransitionEffect::PageCurl
    } else {
        BufferTransitionEffect::Crossfade
    }
}

/// All the effect keywords are lowercase already.
proof fn lemma_effect_keywords_lower()
    ensures
        spec_lower_seq("none"@) == "none"@,
        spec_lower_seq("crossfade"@) == "crossfade"@,
        spec_lower_seq("fade"@) == "fade"@,
        spec_lower_seq("slide-left"@) == "slide-left"@,
        spec_lower_seq("slide"@) == "slide"@,
        spec_lower_seq("slide-right"@) == "slide-right"@,
        spec_lower_seq("slide-up"@) == "slide-up"@,
        spec_lower_seq("slide-down"@) == "slide-down"@,
        spec_lower_seq("scale"@) == "scale"@,
        spec_lower_seq("scale-fade"@) == "scale-fade"@,
        spec_lower_seq("push"@) == "push"@,
        spec_lower_seq("stack"@) == "stack"@,
        spec_lower_seq("blur"@) == "blur"@,
        spec_lower_seq("page"@) == "page"@,
        spec_lower_seq("page-curl"@) == "page-curl"@,
        spec_lower_seq("book"@) == "book"@,
{
    reveal_strlit("none");
    reveal_strlit("crossfade");
    reveal_strlit("fade");
    reveal_strlit("slide-left");
    reveal_strlit("slide");
    reveal_strlit("slide-right");
    reveal_strlit("slide-up");
    reveal_strlit("slide-down");
    reveal_strlit("scale");
    reveal_strlit("scale-fade");
    reveal_strlit("push");
    reveal_strlit("stack");
    reveal_strlit("blur");
    reveal_strlit("page");
    reveal_strlit("page-curl");
    reveal_strlit("book");
    assert(spec_lower_seq("none"@) =~= "none"@);
    assert(spec_lower_seq("crossfade"@) =~= "crossfade"@);
    assert(spec_lower_seq("fade"@) =~= "fade"@);
    assert(spec_lower_seq("slide-left"@) =~= "slide-left"@);
    assert(spec_lower_seq("slide"@) =~= "slide"@);
    assert(spec_lower_seq("slide-right"@) =~= "slide-right"@);
    assert(spec_lower_seq("slide-up"@) =~= "slide-up"@);
    assert(spec_lower_seq("slide-down"@) =~= "slide-down"@);
    assert(spec_lower_seq("scale"@) =~= "scale"@);
    assert(spec_lower_seq("scale-fade"@) =~= "scale-fade"@);
    assert(spec_lower_seq("push"@) =~= "push"@);
    assert(spec_lower_seq("stack"@) =~= "stack"@);
    assert(spec_lower_seq("blur"@) =~= "blur"@);
    assert(spec_lower_seq("page"@) =~= "page"@);
    assert(spec_lower_seq("page-curl"@) =~= "page-curl"@);
    assert(spec_lower_seq("book"@) =~= "book"@);
}

impl BufferTransitionEffect {
    /// Parse an effect keyword, ignoring ASCII case; anything unknown
    /// falls back to crossfade.
    pub fn from_str(s: &str) -> (r: BufferTransitionEffect)
        ensures
            r == spec_effect_from_str(spec_lower_seq(s@)),
    {
        proof {
            lemma_effect_keywords_lower();
        }
        if str_eq_ignore_ascii_case(s, "none") {
            BufferTransitionEffect::Instant
        } else if str_eq_ignore_ascii_case(s, "crossfade") || str_eq_ignore_ascii_case(s, "fade") {
            BufferTransitionEffect::Crossfade
        } else if str_eq_ignore_ascii_case(s, "slide-left") || str_eq_ignore_ascii_case(
            s,
            "slide",
        ) {
            BufferTransitionEffect::SlideLeft
        } else if str_eq_ignore_ascii_case(s, "slide-right") {
            BufferTransitionEffect::SlideRight
        } else if str_eq_ignore_ascii_case(s, "slide-up") {
            BufferTransitionEffect::SlideUp
        } else if str_eq_ignore_ascii_case(s, "slide-down") {
            BufferTransitionEffect::SlideDown
        } else if str_eq_ignore_ascii_case(s, "scale") || str_eq_ignore_ascii_case(
            s,
            "scale-fade",
        ) {
            BufferTransitionEffect::ScaleFade
        } else if str_eq_ignore_ascii_case(s, "push") || str_eq_ignore_ascii_case(s, "stack") {
            BufferTransitionEffect::Push
        } else if str_eq_ignore_ascii_case(s, "blur") {
            BufferTransitionEffect::Blur
        } else if str_eq_ignore_ascii_case(s, "page") || str_eq_ignore_ascii_case(s, "page-curl")
            || str_eq_ignore_ascii_case(s, "book") {
            BufferTransitionEffect::PageCurl
        } else {
            BufferTransitionEffect::Crossfade
        }
    }
}

/// Easing function for transitions.
#[derive(Debug, Clone, Copy, PartialEq, Eq, Structural)]
pub enum TransitionEasing {
    Linear,
    EaseOut,
    EaseIn,
    EaseInOut,
    /// Overshoot past the target, then settle.
    EaseOutBack,
}

impl Default for TransitionEasing {
    /// Ease-out is the default easing.
    fn default() -> (r: TransitionEasing)
        ensures
            r == TransitionEasing::EaseOut,
    {
        TransitionEasing::EaseOut
    }
}

/// Input to an easing, clamped to the unit interval (in per-mille).
pub open spec fn spec_clamp_unit(t: int) -> int {
    if t < 0 {
        0
    } else if t > 1000 {
        1000
    } else {
        t
    }
}

/// Value of an easing at clamped progress `t` (in per-mille): linear,
/// cubic ease-in, cubic ease-out, the symmetric piecewise cubic, or
/// the overshooting back-easing; results below zero are cut off at
/// zero.
pub open spec fn spec_ease(e: TransitionEasing, t0: int) -> int {
    let t = spec_clamp_unit(t0);
    match e {
        TransitionEasing::Linear => t,
        TransitionEasing::EaseIn => (t * t * t) / 1_000_000,
        TransitionEasing::EaseOut => 1000 - ((1000 - t) * (1000 - t) * (1000 - t)) / 1_000_000,
        TransitionEasing::EaseInOut => {
            if t < 500 {
                (4 * (t * t * t)) / 1_000_000
            } else {
                1000 - (((2000 - 2 * t) * (2000 - 2 * t) * (2000 - 2 * t)) / 2) / 1_000_000
            }
        },
        TransitionEasing::EaseOutBack => {
            let v = 1000 - t;
            let raised = 1000 + (1702 * (v * v)) / 1_000_000;
            let fall = (2702 * (v * v * v)) / 1_000_000_000;
            if raised - fall < 0 {
                0
            } else {
                raised - fall
            }
        },
    }
}

impl TransitionEasing {
    /// Apply the easing to a progress value in per-mille; the input is
    /// clamped to 0 to 1000 first.
    pub fn apply(&self, t0: i64) -> (r: i64)
        ensures
            r == spec_ease(*self, t0 as int),
            0 <= r <= 3000,
    {
        let t: i64 = if t0 < 0 {
            0
        } else if t0 > 1000 {
            1000
        } else {
            t0
        };
        proof {
            lemma_cube_bounds(t as int);
        }
        match self {
            TransitionEasing::Linear => t,
            TransitionEasing::EaseIn => (t * t * t) / 1_000_000,
            TransitionEasing::EaseOut => 1000 - ((1000 - t) * (1000 - t) * (1000 - t)) / 1_000_000,
            TransitionEasing::EaseInOut => {
                if t < 500 {
                    (4 * (t * t * t)) / 1_000_000
                } else {
                    1000 - (((2000 - 2 * t) * (2000 - 2 * t) * (2000 - 2 * t)) / 2) / 1_000_000
                }
            },
            TransitionEasing::EaseOutBack => {
                let v = 1000 - t;
                let raised = 1000 + (1702 * (v * v)) / 1_000_000;
                let fall = (2702 * (v * v * v)) / 1_000_000_000;
                if raised - fall < 0 {
                    0
                } else {
                    raised - fall
                }
            },
        }
    }
}

/// Bounds for the cubes and squares an easing computes on a clamped
/// input.
proof fn lemma_cube_bounds(t: int)
    requires
        0 <= t <= 1000,
    ensures
        0 <= t * t <= 1_000_000,
        0 <= (1000 - t) * (1000 - t) <= 1_000_000,
        0 <= (2000 - 2 * t) * (2000 - 2 * t) <= 4_000_000,
        0 <= t * t * t <= 1_000_000_000,
        0 <= (1000 - t) * (1000 - t) * (1000 - t) <= 1_000_000_000,
        0 <= 4 * (t * t * t) <= 4_000_000_000,
        0 <= (2000 - 2 * t) * (2000 - 2 * t) * (2000 - 2 * t) <= 8_000_000_000,
        0 <= 1702 * ((1000 - t) * (1000 - t)) <= 1_702_000_000,
        0 <= 2702 * ((1000 - t) * (1000 - t) * (1000 - t)) <= 2_702_000_000_000,
        0 <= (t * t * t) / 1_000_000 <= 1000,
        0 <= ((1000 - t) * (1000 - t) * (1000 - t)) / 1_000_000 <= 1000,
        0 <= (4 * (t * t * t)) / 1_000_000 <= 4000,
        0 <= (((2000 - 2 * t) * (2000 - 2 * t) * (2000 - 2 * t)) / 2) / 1_000_000 <= 4000,
        0 <= (1702 * ((1000 - t) * (1000 - t))) / 1_000_000 <= 1702,
        0 <= (2702 * ((1000 - t) * (1000 - t) * (1000 - t))) / 1_000_000_000 <= 2702,
        t < 500 ==> (4 * (t * t * t)) / 1_000_000 < 500,
        t >= 500 ==> (((2000 - 2 * t) * (2000 - 2 * t) * (2000 - 2 * t)) / 2) / 1_000_000 <= 1000,
{
    assert(0 <= t * t * t <= 1_000_000_000 && 0 <= (1000 - t) * (1000 - t) * (1000 - t)
        <= 1_000_000_000 && 0 <= 1702 * ((1000 - t) * (1000 - t)) <= 1_702_000_000 && 0 <= 2702 * (
    (1000 - t) * (1000 - t) * (1000 - t)) <= 2_702_000_000_000 && (t < 500 ==> 4 * (t * t * t)
        < 500_000_000) && 0 <= t * t <= 1_000_000 && 0 <= (1000 - t) * (1000 - t) <= 1_000_000 && 0
        <= (2000 - 2 * t) * (2000 - 2 * t) <= 4_000_000) by (nonlinear_arith)
        requires
            0 <= t <= 1000,
    ;
    assert(0 <= (2000 - 2 * t) * (2000 - 2 * t) * (2000 - 2 * t) <= 8_000_000_000 && (t >= 500 ==> (
    2000 - 2 * t) * (2000 - 2 * t) * (2000 - 2 * t) <= 1_000_000_000)) by (nonlinear_arith)
        requires
            0 <= t <= 1000,
    ;
    lemma_div_bounded((2000 - 2 * t) * (2000 - 2 * t) * (2000 - 2 * t), 2, 4_000_000_000);
    lemma_div_bounded(t * t * t, 1_000_000, 1000);
    lemma_div_bounded((1000 - t) * (1000 - t) * (1000 - t), 1_000_000, 1000);
    lemma_div_bounded(4 * (t * t * t), 1_000_000, 4000);
    lemma_div_bounded(((2000 - 2 * t) * (2000 - 2 * t) * (2000 - 2 * t)) / 2, 1_000_000, 4000);
    lemma_div_bounded(1702 * ((1000 - t) * (1000 - t)), 1_000_000, 1702);
    lemma_div_bounded(2702 * ((1000 - t) * (1000 - t) * (1000 - t)), 1_000_000_000, 2702);
    if t < 500 {
        lemma_div_strict(4 * (t * t * t), 1_000_000, 500);
    }
    if t >= 500 {
        lemma_div_bounded((2000 - 2 * t) * (2000 - 2 * t) * (2000 - 2 * t), 2, 500_000_000);
        lemma_div_bounded(((2000 - 2 * t) * (2000 - 2 * t) * (2000 - 2 * t)) / 2, 1_000_000, 1000);
    }
}

/// A nonnegative value divided by a positive divisor stays between zero
/// and any bound its numerator stays under times the divisor.
pub proof fn lemma_div_bounded(x: int, d: int, bound: int)
    requires
        0 <= x,
        1 <= d,
        x <= bound * d,
    ensures
        0 <= x / d <= bound,
{
    lemma_div_is_ordered(0, x, d);
    lemma_div_is_ordered(x, bound * d, d);
    assert((bound * d) / d == bound) by (nonlinear_arith)
        requires
            1 <= d,
    ;
}

/// A value strictly under a multiple of the divisor divides to strictly
/// under that multiple.
pub proof fn lemma_div_strict(x: int, d: int, bound: int)
    requires
        0 <= x,
        1 <= d,
        x < bound * d,
    ensures
        0 <= x / d < bound,
{
    lemma_div_is_ordered(0, x, d);
    lemma_fundamental_div_mod(x, d);
    lemma_mod_division_less_than_divisor(x, d);
    assert(x / d < bound) by (nonlinear_arith)
        requires
            x == d * (x / d) + x % d,
            0 <= x % d < d,
            x < bound * d,
            1 <= d,
    ;
}

/// Every easing starts at zero and ends at one; every easing but the
/// overshooting back-easing stays inside the unit interval; and the
/// symmetric easing satisfies `f(t) + f(1 - t) = 1` exactly.
pub proof fn lemma_easing_properties(e: TransitionEasing, t: int)
    ensures
        spec_ease(e, 0) == 0,
        spec_ease(e, 1000) == 1000,
        e != TransitionEasing::EaseOutBack && 0 <= t <= 1000 ==> 0 <= spec_ease(e, t) <= 1000,
        e == TransitionEasing::EaseInOut && 0 <= t <= 1000 ==> spec_ease(e, t) + spec_ease(
            e,
            1000 - t,
        ) == 1000,
{
    lemma_cube_bounds(0);
    lemma_cube_bounds(1000);
    if 0 <= t <= 1000 {
        lemma_cube_bounds(t);
        lemma_cube_bounds(1000 - t);
        if e == TransitionEasing::EaseInOut {
            lemma_ease_in_out_symmetric(t);
        }
    }
}

/// The piecewise cubic is exactly symmetric about one half, floor
/// division and all.
proof fn lemma_ease_in_out_symmetric(t: int)
    requires
        0 <= t <= 1000,
    ensures
        spec_ease(TransitionEasing::EaseInOut, t) + spec_ease(TransitionEasing::EaseInOut, 1000 - t)
            == 1000,
{
    lemma_cube_bounds(t);
    lemma_cube_bounds(1000 - t);
    if t < 500 {
        let s = 1000 - t;
        // The high half's falling cube is eight times the low half's
        // rising cube.
        assert((2000 - 2 * s) * (2000 - 2 * s) * (2000 - 2 * s) == 8 * (t * t * t))
            by (nonlinear_arith)
            requires
                s == 1000 - t,
        ;
        assert((8 * (t * t * t)) / 2 == 4 * (t * t * t)) by (nonlinear_arith);
    } else {
        let s = 1000 - t;
        assert((2000 - 2 * t) * (2000 - 2 * t) * (2000 - 2 * t) == 8 * (s * s * s))
            by (nonlinear_arith)
            requires
                s == 1000 - t,
        ;
        assert((8 * (s * s * s)) / 2 == 4 * (s * s * s)) by (nonlinear_arith);
        if s == 500 {
            assert(t == 500);
        }
    }
}

/// Direction for directional transitions (slide, push).
#[derive(Debug, Clone, Copy, PartialEq, Eq, Structural)]
pub enum TransitionDirection {
    Left,
    Right,
    Up,
    Down,
}

impl Default for TransitionDirection {
    /// Left is the default direction.
    fn default() -> (r: TransitionDirection)
        ensures
            r == TransitionDirection::Left,
    {
        TransitionDirection::Left
    }
}

/// The sine of `p` times pi, in per-mille, by the symmetric quadratic
/// `4 p (1 - p)`: exact at the endpoints and the midpoint, within six
/// percent elsewhere — enough for a shadow's strength.
pub open spec fn spec_sin_pi_permille(p: int) -> int {
    (4 * (spec_clamp_unit(p) * (1000 - spec_clamp_unit(p)))) / 1000
}

/// Compute the per-mille sine approximation.
pub fn sin_pi_permille(p: i64) -> (r: i64)
    ensures
        r == spec_sin_pi_permille(p as int),
        0 <= r <= 1000,
{
    let t: i64 = if p < 0 {
        0
    } else if p > 1000 {
        1000
    } else {
        p
    };
    proof {
        assert(0 <= t * (1000 - t) && 4 * (t * (1000 - t)) <= 1_000_000) by (nonlinear_arith)
            requires
                0 <= t as int <= 1000,
        ;
        lemma_div_bounded(4 * ((t as int) * (1000 - t as int)), 1000, 1000);
    }
    (4 * (t * (1000 - t))) / 1000
}

/// State of one active buffer transition.
#[derive(Debug, Clone, PartialEq)]
pub struct BufferTransition {
    /// The effect type.
    pub effect: BufferTransitionEffect,
    /// Direction for directional effects.
    pub direction: TransitionDirection,
    /// Eased animation progress in per-mille (0 start, 1000 complete).
    pub progress: i64,
    /// Total duration in milliseconds.
    pub duration_ms: u64,
    /// Time accumulated so far, in milliseconds, capped at the duration.
    pub elapsed_ms: u64,
    /// Easing function.
    pub easing: TransitionEasing,
    /// The animation has finished.
    pub completed: bool,
    /// Captured snapshot width in pixels.
    pub old_width: i64,
    /// Captured snapshot height in pixels.
    pub old_height: i64,
}

impl BufferTransition {
    /// In-range fields: progress bounded as the easings produce it, the
    /// duration within the accepted span, snapshot dimensions plain
    /// pixels.
    pub open spec fn wf(&self) -> bool {
        &&& 0 <= self.progress <= 3000
        &&& self.duration_ms <= MAX_DURATION_MS
        &&& self.elapsed_ms <= self.duration_ms
        &&& 0 <= self.old_width <= 1_000_000_000
        &&& 0 <= self.old_height <= 1_000_000_000
    }

    /// Start a transition at progress zero with the ease-out easing.
    pub fn new(effect: BufferTransitionEffect, direction: TransitionDirection, duration_ms: u64)
        -> (r: BufferTransition)
        requires
            duration_ms <= MAX_DURATION_MS,
        ensures
            r.wf(),
            r.effect == effect,
            r.direction == direction,
            r.progress == 0,
            r.duration_ms == duration_ms,
            r.elapsed_ms == 0,
            r.easing == TransitionEasing::EaseOut,
            !r.completed,
            r.old_width == 0,
            r.old_height == 0,
    {
        BufferTransition {
            effect,
            direction,
            progress: 0,
            duration_ms,
            elapsed_ms: 0,
            easing: TransitionEasing::EaseOut,
            completed: false,
            old_width: 0,
            old_height: 0,
        }
    }

    /// Advance the transition by `dt_ms` of wall-clock time. On
    /// reaching the duration the progress is pinned at one and the
    /// transition completes. Returns whether it is still running.
    pub fn update_with_dt(&mut self, dt_ms: u64) -> (active: bool)
        requires
            old(self).wf(),
        ensures
            final (self).wf(),
            final (self).effect == old(self).effect,
            final (self).direction == old(self).direction,
            final (self).duration_ms == old(self).duration_ms,
            final (self).easing == old(self).easing,
            final (self).old_width == old(self).old_width,
            final (self).old_height == old(self).old_height,
            old(self).completed ==> *final (self) == *old(self) && !active,
            !old(self).completed ==> final (self).elapsed_ms == if old(self).elapsed_ms + dt_ms
                > old(self).duration_ms {
                old(self).duration_ms
            } else {
                (old(self).elapsed_ms + dt_ms) as u64
            },
            !old(self).completed && final (self).elapsed_ms >= old(self).duration_ms ==> {
                &&& final (self).completed
                &&& final (self).progress == 1000
                &&& !active
            },
            !old(self).completed && final (self).elapsed_ms < old(self).duration_ms ==> {
                &&& !final (self).completed
                &&& final (self).progress == spec_ease(
                    old(self).easing,
                    final (self).elapsed_ms * 1000 / (old(self).duration_ms as int),
                )
                &&& active
            },
    {
        if self.completed {
            return false;
        }
        let dur = self.duration_ms;
        let new_elapsed: u64 = if dt_ms > dur || self.elapsed_ms + (if dt_ms > dur {
            0
        } else {
            dt_ms
        }) > dur {
            dur
        } else {
            self.elapsed_ms + dt_ms
        };
        self.elapsed_ms = new_elapsed;
        if new_elapsed >= dur {
            self.progress = 1000;
            self.completed = true;
            return false;
        }
        let raw: i64 = ((new_elapsed * 1000) / dur) as i64;
        proof {
            let ne = new_elapsed as int;
            let d = dur as int;
            assert(ne * 1000 <= 1_000_000_000_000 && ne * 1000 < 1000 * d) by (nonlinear_arith)
                requires
                    0 <= ne,
                    ne <= 1_000_000_000,
                    ne < d,
            ;
            lemma_div_strict(ne * 1000, d, 1000);
        }
        self.progress = self.easing.apply(raw);
        true
    }

    /// The eased progress value, in per-mille.
    pub fn eased_progress(&self) -> (r: i64)
        ensures
            r == self.progress,
    {
        self.progress
    }

    /// Opacity of the old content in a crossfade, in per-mille.
    pub fn crossfade_old_opacity(&self) -> (r: i64)
        requires
            self.wf(),
        ensures
            r == 1000 - self.progress,
    {
        1000 - self.progress
    }

    /// Opacity of the new content in a crossfade, in per-mille.
    pub fn crossfade_new_opacity(&self) -> (r: i64)
        requires
            self.wf(),
        ensures
            r == self.progress,
    {
        self.progress
    }

    /// Crossfade opacities always sum to one.
    pub proof fn lemma_crossfade_sum(&self)
        ensures
            (1000 - self.progress) + self.progress == 1000,
    {
    }

    /// Pixel offset of the old content for a slide.
    pub fn slide_old_offset(&self) -> (r: (i64, i64))
        requires
            self.wf(),
        ensures
            self.direction == TransitionDirection::Left ==> r.0 == 0 - self.progress
                * self.old_width / 1000 && r.1 == 0,
            self.direction == TransitionDirection::Right ==> r.0 == self.progress * self.old_width
                / 1000 && r.1 == 0,
            self.direction == TransitionDirection::Up ==> r.0 == 0 && r.1 == 0 - self.progress
                * self.old_height / 1000,
            self.direction == TransitionDirection::Down ==> r.0 == 0 && r.1 == self.progress
                * self.old_height / 1000,
    {
        proof {
            lemma_slide_product_bounds(self.progress as int, self.old_width as int);
            lemma_slide_product_bounds(self.progress as int, self.old_height as int);
        }
        match self.direction {
            TransitionDirection::Left => (-(self.progress * self.old_width / 1000), 0),
            TransitionDirection::Right => (self.progress * self.old_width / 1000, 0),
            TransitionDirection::Up => (0, -(self.progress * self.old_height / 1000)),
            TransitionDirection::Down => (0, self.progress * self.old_height / 1000),
        }
    }

    /// Pixel offset of the new content for a slide: it starts one full
    /// screen away and ends at the origin.
    pub fn slide_new_offset(&self) -> (r: (i64, i64))
        requires
            self.wf(),
            self.progress <= 1000,
        ensures
            self.direction == TransitionDirection::Left ==> r.0 == (1000 - self.progress)
                * self.old_width / 1000 && r.1 == 0,
            self.direction == TransitionDirection::Right ==> r.0 == 0 - (1000 - self.progress)
                * self.old_width / 1000 && r.1 == 0,
            self.direction == TransitionDirection::Up ==> r.0 == 0 && r.1 == (1000 - self.progress)
                * self.old_height / 1000,
            self.direction == TransitionDirection::Down ==> r.0 == 0 && r.1 == 0 - (1000
                - self.progress) * self.old_height / 1000,
    {
        let inv = 1000 - self.progress;
        proof {
            lemma_slide_product_bounds(inv as int, self.old_width as int);
            lemma_slide_product_bounds(inv as int, self.old_height as int);
        }
        match self.direction {
            TransitionDirection::Left => (inv * self.old_width / 1000, 0),
            TransitionDirection::Right => (-(inv * self.old_width / 1000), 0),
            TransitionDirection::Up => (0, inv * self.old_height / 1000),
            TransitionDirection::Down => (0, -(inv * self.old_height / 1000)),
        }
    }

    /// Scale of the old content in a scale-fade, in per-mille: shrinks
    /// from 1000 to 900.
    pub fn scale_old(&self) -> (r: i64)
        requires
            self.wf(),
        ensures
            r == 1000 - self.progress / 10,
    {
        1000 - self.progress / 10
    }

    /// Scale of the new content in a scale-fade, in per-mille: grows
    /// from 900 to 1000.
    pub fn scale_new(&self) -> (r: i64)
        requires
            self.wf(),
        ensures
            r == 900 + self.progress / 10,
    {
        900 + self.progress / 10
    }

    /// Blur radius over the old content, in milli-pixels: grows from 0
    /// to 15 pixels.
    pub fn blur_old_radius(&self) -> (r: i64)
        requires
            self.wf(),
        ensures
            r == 15 * self.progress,
    {
        15 * self.progress
    }

    /// Blur radius over the new content, in milli-pixels: falls from 15
    /// pixels to 0.
    pub fn blur_new_radius(&self) -> (r: i64)
        requires
            self.wf(),
        ensures
            r == 15 * (1000 - self.progress),
    {
        15 * (1000 - self.progress)
    }

    /// Page-curl parameters: progress in per-mille, curl angle in
    /// milli-radians (0 to pi), and shadow opacity in per-mille,
    /// strongest in the middle of the turn.
    pub fn page_curl_params(&self) -> (r: (i64, i64, i64))
        requires
            self.wf(),
        ensures
            r.0 == self.progress,
            r.1 == 3142 * spec_clamp_unit(self.progress as int) / 1000,
            r.2 == spec_sin_pi_permille(self.progress as int) / 2,
    {
        let pc: i64 = if self.progress > 1000 {
            1000
        } else {
            self.progress
        };
        let angle = 3142 * pc / 1000;
        let shadow = sin_pi_permille(self.progress) / 2;
        (self.progress, angle, shadow)
    }
}

/// A per-mille factor times a pixel dimension stays in pixel range.
proof fn lemma_slide_product_bounds(p: int, w: int)
    requires
        0 <= p <= 3000,
        0 <= w <= 1_000_000_000,
    ensures
        0 <= p * w <= 3_000_000_000_000,
        0 <= p * w / 1000 <= 3_000_000_000,
{
    assert(0 <= p * w <= 3_000_000_000_000) by (nonlinear_arith)
        requires
            0 <= p <= 3000,
            0 <= w <= 1_000_000_000,
    ;
    lemma_div_bounded(p * w, 1000, 3_000_000_000);
}

/// Page-curl shader parameters for rendering.
#[derive(Debug, Clone, Copy, PartialEq, Eq, Structural)]
pub struct PageCurlParams {
    /// Curl progress in per-mille (0 flat, 1000 fully turned).
    pub progress: i64,
    /// Curl cylinder radius in milli-pixels.
    pub radius: i64,
    /// Corner being lifted: 0 bottom-right, 1 top-right, 2 bottom-left,
    /// 3 top-left.
    pub corner: u32,
    /// Page width in pixels.
    pub width: i64,
    /// Page height in pixels.
    pub height: i64,
    /// Shadow intensity in per-mille.
    pub shadow: i64,
    /// Backside darkening in per-mille.
    pub backside_darken: i64,
}

impl Default for PageCurlParams {
    /// A flat page of 800 by 600 pixels with a 50-pixel curl radius.
    fn default() -> (r: PageCurlParams)
        ensures
            r == (PageCurlParams {
                progress: 0i64,
                radius: 50_000i64,
                corner: 0u32,
                width: 800i64,
                height: 600i64,
                shadow: 300i64,
                backside_darken: 200i64,
            }),
    {
        PageCurlParams {
            progress: 0,
            radius: 50_000,
            corner: 0,
            width: 800,
            height: 600,
            shadow: 300,
            backside_darken: 200,
        }
    }
}

impl PageCurlParams {
    /// Parameters at a given progress: the radius grows from 30 to 70
    /// pixels as the page lifts, and the shadow follows the sine
    /// approximation scaled to two fifths.
    pub fn from_progress(progress: i64, width: i64, height: i64) -> (r: PageCurlParams)
        requires
            0 <= progress <= 3000,
        ensures
            r.progress == progress,
            r.radius == 30_000 + 40 * spec_clamp_unit(progress as int),
            r.corner == 0,
            r.width == width,
            r.height == height,
            r.shadow == spec_sin_pi_permille(progress as int) * 400 / 1000,
            r.backside_darken == 150,
    {
        let pc: i64 = if progress > 1000 {
            1000
        } else {
            progress
        };
        let shadow_base = sin_pi_permille(progress);
        PageCurlParams {
            progress,
            radius: 30_000 + 40 * pc,
            corner: 0,
            width,
            height,
            shadow: shadow_base * 400 / 1000,
            backside_darken: 150,
        }
    }
}

/// Manager of at most one active buffer transition and its snapshot.
#[derive(Debug)]
pub struct BufferTransitionAnimator {
    /// Effect used when a transition starts without an explicit one.
    pub default_effect: BufferTransitionEffect,
    /// Duration used for new transitions, in milliseconds.
    pub default_duration_ms: u64,
    /// The transition in flight, if any.
    pub active_transition: Option<BufferTransition>,
    /// A snapshot of the old content has been captured.
    pub has_snapshot: bool,
    /// Snapshot texture id (managed by the renderer).
    pub snapshot_id: u32,
    /// Start transitions automatically when the content hash changes.
    pub auto_detect: bool,
    /// Last content hash seen.
    pub last_content_hash: u64,
}

impl BufferTransitionAnimator {
    /// In-range fields.
    pub open spec fn wf(&self) -> bool {
        &&& self.default_duration_ms <= MAX_DURATION_MS
        &&& self.active_transition matches Some(t) ==> t.wf()
    }

    /// A fresh animator: crossfade by default, 200 ms, nothing active.
    pub fn new() -> (r: BufferTransitionAnimator)
        ensures
            r.wf(),
            r.default_effect == BufferTransitionEffect::Crossfade,
            r.default_duration_ms == 200,
            r.active_transition is None,
            !r.has_snapshot,
            r.snapshot_id == 0,
            r.auto_detect,
            r.last_content_hash == 0,
    {
        BufferTransitionAnimator {
            default_effect: BufferTransitionEffect::Crossfade,
            default_duration_ms: 200,
            active_transition: None,
            has_snapshot: false,
            snapshot_id: 0,
            auto_detect: true,
            last_content_hash: 0,
        }
    }

    /// Start a transition with the default effect, sliding left.
    pub fn start_transition(&mut self)
        requires
            old(self).wf(),
        ensures
            final (self).wf(),
            old(self).default_effect != BufferTransitionEffect::Instant ==> {
                &&& final (self).active_transition matches Some(t)
                &&& t.effect == old(self).default_effect
                &&& t.direction == TransitionDirection::Left
                &&& t.duration_ms == old(self).default_duration_ms
                &&& t.elapsed_ms == 0
                &&& t.progress == 0
                &&& t.easing == TransitionEasing::EaseOut
                &&& !t.completed
            },
            old(self).default_effect == BufferTransitionEffect::Instant ==> final (self).active_transition is None,
            final (self).default_effect == old(self).default_effect,
            final (self).default_duration_ms == old(self).default_duration_ms,
            final (self).has_snapshot == old(self).has_snapshot,
    {
        let effect = self.default_effect;
        self.start_transition_with(effect, TransitionDirection::Left);
    }

    /// Start a transition with a specific effect and direction; the
    /// instant effect clears any transition in flight instead.
    pub fn start_transition_with(
        &mut self,
        effect: BufferTransitionEffect,
        direction: TransitionDirection,
    )
        requires
            old(self).wf(),
        ensures
            final (self).wf(),
            effect != BufferTransitionEffect::Instant ==> {
                &&& final (self).active_transition matches Some(t)
                &&& t.effect == effect
                &&& t.direction == direction
                &&& t.duration_ms == old(self).default_duration_ms
                &&& t.elapsed_ms == 0
                &&& t.progress == 0
                &&& t.easing == TransitionEasing::EaseOut
                &&& t.old_width == 0
                &&& t.old_height == 0
                &&& !t.completed
            },
            effect == BufferTransitionEffect::Instant ==> final (self).active_transition is None,
            final (self).default_effect == old(self).default_effect,
            final (self).default_duration_ms == old(self).default_duration_ms,
            final (self).has_snapshot == old(self).has_snapshot,
    {
        if effect == BufferTransitionEffect::Instant {
            self.active_transition = None;
            return ;
        }
        self.active_transition = Some(
            BufferTransition::new(effect, direction, self.default_duration_ms),
        );
    }

    /// Ask the renderer to capture a snapshot on its next frame.
    pub fn request_snapshot(&mut self)
        requires
            old(self).wf(),
        ensures
            final (self).wf(),
            !final (self).has_snapshot,
            final (self).active_transition == old(self).active_transition,
    {
        self.has_snapshot = false;
    }

    /// Record that the snapshot was captured with these dimensions.
    pub fn snapshot_captured(&mut self, width: i64, height: i64)
        requires
            old(self).wf(),
            0 <= width <= 1_000_000_000,
            0 <= height <= 1_000_000_000,
        ensures
            final (self).wf(),
            final (self).has_snapshot,
            old(self).active_transition is Some ==> {
                &&& final (self).active_transition matches Some(t)
                &&& t.old_width == width
                &&& t.old_height == height
            },
            old(self).active_transition is None ==> final (self).active_transition is None,
    {
        self.has_snapshot = true;
        let mut slot = None;
        std::mem::swap(&mut slot, &mut self.active_transition);
        match slot {
            Some(mut t) => {
                t.old_width = width;
                t.old_height = height;
                self.active_transition = Some(t);
            },
            None => {},
        }
    }

    /// Advance the active transition; when it completes, drop it and
    /// the snapshot. Returns whether a transition is still running:
    /// exactly when the accumulated time still falls short of the
    /// duration.
    pub fn update_with_dt(&mut self, dt_ms: u64) -> (active: bool)
        requires
            old(self).wf(),
        ensures
            final (self).wf(),
            old(self).active_transition is None ==> !active && final (self).active_transition
                is None && final (self).has_snapshot == old(self).has_snapshot,
            old(self).active_transition matches Some(t) ==> {
                &&& active == spec_transition_runs_on(t, dt_ms)
                &&& (active ==> final (self).active_transition == Some(
                    spec_transition_stepped(t, dt_ms),
                ) && final (self).has_snapshot == old(self).has_snapshot)
                &&& (!active ==> final (self).active_transition is None && !final (self).has_snapshot)
            },
            !active ==> final (self).active_transition is None,
            active ==> final (self).active_transition is Some,
            final (self).default_effect == old(self).default_effect,
            final (self).default_duration_ms == old(self).default_duration_ms,
    {
        let mut slot = None;
        std::mem::swap(&mut slot, &mut self.active_transition);
        match slot {
            Some(mut t) => {
                let still = t.update_with_dt(dt_ms);
                if still {
                    self.active_transition = Some(t);
                    true
                } else {
                    self.active_transition = None;
                    self.has_snapshot = false;
                    false
                }
            },
            None => false,
        }
    }

    /// Whether a transition is in flight.
    pub fn is_active(&self) -> (r: bool)
        ensures
            r == (self.active_transition is Some),
    {
        self.active_transition.is_some()
    }

    /// The active transition, if any.
    pub fn get_transition(&self) -> (r: Option<&BufferTransition>)
        ensures
            r is Some <==> self.active_transition is Some,
            r matches Some(t) ==> self.active_transition matches Some(t2) && *t == t2,
    {
        self.active_transition.as_ref()
    }

    /// Set the default effect for new transitions.
    pub fn set_default_effect(&mut self, effect: BufferTransitionEffect)
        requires
            old(self).wf(),
        ensures
            final (self).wf(),
            final (self).default_effect == effect,
            final (self).active_transition == old(self).active_transition,
            final (self).default_duration_ms == old(self).default_duration_ms,
    {
        self.default_effect = effect;
    }

    /// Set the default duration for new transitions.
    pub fn set_default_duration(&mut self, duration_ms: u64)
        requires
            old(self).wf(),
            duration_ms <= MAX_DURATION_MS,
        ensures
            final (self).wf(),
            final (self).default_duration_ms == duration_ms,
            final (self).active_transition == old(self).active_transition,
            final (self).default_effect == old(self).default_effect,
    {
        self.default_duration_ms = duration_ms;
    }

    /// Feed the current content hash; reports whether the content
    /// changed since the last call (the first hash never counts as a
    /// change).
    pub fn update_content_hash(&mut self, hash: u64) -> (changed: bool)
        requires
            old(self).wf(),
        ensures
            final (self).wf(),
            changed == (hash != old(self).last_content_hash && old(self).last_content_hash != 0),
            final (self).last_content_hash == hash,
            final (self).active_transition == old(self).active_transition,
    {
        let changed = hash != self.last_content_hash && self.last_content_hash != 0;
        self.last_content_hash = hash;
        changed
    }
}

impl Default for BufferTransitionAnimator {
    /// Same state as `new`.
    fn default() -> (r: BufferTransitionAnimator)
        ensures
            r.wf(),
            r.default_effect == BufferTransitionEffect::Crossfade,
            r.default_duration_ms == 200,
            r.active_transition is None,
    {
        BufferTransitionAnimator::new()
    }
}

/// The transition keeps running after `dt_ms` more milliseconds: it
/// was not finished and the accumulated time still falls short of the
/// duration.
pub open spec fn spec_transition_runs_on(t: BufferTransition, dt_ms: u64) -> bool {
    !t.completed && t.elapsed_ms + dt_ms < t.duration_ms
}

/// The transition after one still-running step: the time accumulates
/// and the eased progress follows the raw time fraction.
pub open spec fn spec_transition_stepped(t: BufferTransition, dt_ms: u64) -> BufferTransition {
    BufferTransition {
        effect: t.effect,
        direction: t.direction,
        progress: spec_ease(
            t.easing,
            (t.elapsed_ms + dt_ms) * 1000 / (t.duration_ms as int),
        ) as i64,
        duration_ms: t.duration_ms,
        elapsed_ms: (t.elapsed_ms + dt_ms) as u64,
        easing: t.easing,
        completed: false,
        old_width: t.old_width,
        old_height: t.old_height,
    }
}

} // verus!
