//! Smooth cursor animation with particle effects.
//!
//! Positions and sizes are kept in milli-pixels (1000 stands for one
//! pixel), velocities in milli-pixels per second, opacities in
//! per-mille, and time in milliseconds, so every update rule is exact
//! integer arithmetic. The exponential smoothing factor of the cursor
//! is approximated by the rational map `x / (1 + x)`, which like the
//! exponential form grows with the speed-times-time product and stays
//! below one.

use vstd::prelude::*;
use vstd::arithmetic::div_mod::lemma_div_is_ordered;
use vstd::arithmetic::power2::pow2;
use crate::chars::{spec_lower_seq, str_eq_ignore_ascii_case};
use crate::transition::spec_clamp_unit;

verus! {

/// One pixel in milli-pixel units.
pub const MILLI: i64 = 1000;

/// Largest magnitude of a cursor coordinate, in milli-pixels.
pub const POS_MAX: i64 = 1_000_000_000;

/// Largest magnitude of a velocity, in milli-pixels per second.
pub const VEL_MAX: i64 = 1_000_000_000;

/// Longest time step an update accepts, in milliseconds.
pub const DT_MAX_MS: u64 = 1_000_000;

/// Cursor animation mode.
#[derive(Debug, Clone, Copy, PartialEq, Eq, Structural)]
pub enum CursorAnimationMode {
    /// No animation: the cursor jumps instantly.
    Instant,
    /// Smooth movement only.
    Smooth,
    /// Particles shoot backward from the cursor.
    Railgun,
    /// A comet-like trail follows the cursor.
    Torpedo,
    /// Sparkly particles scatter in a fan.
    Pixiedust,
    /// One shockwave ring expands from the cursor.
    Sonicboom,
    /// Three concentric rings emanate outward.
    Ripple,
    /// Animated outline glow, no particles.
    Wireframe,
}

impl Default for CursorAnimationMode {
    /// Smooth is the default mode.
    fn default() -> (r: CursorAnimationMode)
        ensures
            r == CursorAnimationMode::Smooth,
    {
        CursorAnimationMode::Smooth
    }
}

/// The mode a configuration keyword names, after ASCII case folding;
/// anything unknown falls back to smooth.
pub open spec fn spec_mode_from_str(low: Seq<char>) -> CursorAnimationMode {
    if low == "none"@ {
        CursorAnimationMode::Instant
    } else if low == "smooth"@ {
        CursorAnimationMode::Smooth
    } else if low == "railgun"@ {
        CursorAnimationMode::Railgun
    } else if low == "torpedo"@ {
        CursorAnimationMode::Torpedo
    } else if low == "pixiedust"@ {
        CursorAnimationMode::Pixiedust
    } else if low == "sonicboom"@ {
        CursorAnimationMode::Sonicboom
    } else if low == "ripple"@ {
        CursorAnimationMode::Ripple
    } else if low == "wireframe"@ {
        CursorAnimationMode::Wireframe
    } else {
        CursorAnimationMode::Smooth
    }
}

proof fn lemma_mode_keywords_lower()
    ensures
        spec_lower_seq("none"@) == "none"@,
        spec_lower_seq("smooth"@) == "smooth"@,
        spec_lower_seq("railgun"@) == "railgun"@,
        spec_lower_seq("torpedo"@) == "torpedo"@,
        spec_lower_seq("pixiedust"@) == "pixiedust"@,
        spec_lower_seq("sonicboom"@) == "sonicboom"@,
        spec_lower_seq("ripple"@) == "ripple"@,
        spec_lower_seq("wireframe"@) == "wireframe"@,
{
    reveal_strlit("none");
    reveal_strlit("smooth");
    reveal_strlit("railgun");
    reveal_strlit("torpedo");
    reveal_strlit("pixiedust");
    reveal_strlit("sonicboom");
    reveal_strlit("ripple");
    reveal_strlit("wireframe");
    assert(spec_lower_seq("none"@) =~= "none"@);
    assert(spec_lower_seq("smooth"@) =~= "smooth"@);
    assert(spec_lower_seq("railgun"@) =~= "railgun"@);
    assert(spec_lower_seq("torpedo"@) =~= "torpedo"@);
    assert(spec_lower_seq("pixiedust"@) =~= "pixiedust"@);
    assert(spec_lower_seq("sonicboom"@) =~= "sonicboom"@);
    assert(spec_lower_seq("ripple"@) =~= "ripple"@);
    assert(spec_lower_seq("wireframe"@) =~= "wireframe"@);
}

impl CursorAnimationMode {
    /// Parse a mode keyword, ignoring ASCII case; anything unknown
    /// falls back to smooth.
    pub fn from_str(s: &str) -> (r: CursorAnimationMode)
        ensures
            r == spec_mode_from_str(spec_lower_seq(s@)),
    {
        proof {
            lemma_mode_keywords_lower();
        }
        if str_eq_ignore_ascii_case(s, "none") {
            CursorAnimationMode::Instant
        } else if str_eq_ignore_ascii_case(s, "smooth") {
            CursorAnimationMode::Smooth
        } else if str_eq_ignore_ascii_case(s, "railgun") {
            CursorAnimationMode::Railgun
        } else if str_eq_ignore_ascii_case(s, "torpedo") {
            CursorAnimationMode::Torpedo
        } else if str_eq_ignore_ascii_case(s, "pixiedust") {
            CursorAnimationMode::Pixiedust
        } else if str_eq_ignore_ascii_case(s, "sonicboom") {
            CursorAnimationMode::Sonicboom
        } else if str_eq_ignore_ascii_case(s, "ripple") {
            CursorAnimationMode::Ripple
        } else if str_eq_ignore_ascii_case(s, "wireframe") {
            CursorAnimationMode::Wireframe
        } else {
            CursorAnimationMode::Smooth
        }
    }
}

/// An RGBA color with per-mille channels.
#[derive(Debug, Clone, Copy, PartialEq, Eq, Structural)]
pub struct Rgba {
    pub r: i64,
    pub g: i64,
    pub b: i64,
    pub a: i64,
}

impl Rgba {
    /// Opaque white.
    pub fn white() -> (c: Rgba)
        ensures
            c == (Rgba { r: 1000i64, g: 1000i64, b: 1000i64, a: 1000i64 }),
    {
        Rgba { r: 1000, g: 1000, b: 1000, a: 1000 }
    }
}

/// Age of something born at `birth_ms` as a clamped per-mille fraction
/// of its lifetime; a dead or zero-length lifetime reads as fully aged.
pub open spec fn spec_age_permille(birth_ms: int, lifetime_ms: int, now_ms: int) -> int {
    if lifetime_ms <= 0 {
        1000
    } else if now_ms <= birth_ms {
        0
    } else if now_ms - birth_ms >= lifetime_ms {
        1000
    } else {
        ((now_ms - birth_ms) * 1000) / lifetime_ms
    }
}

/// Opacity at a given age: the squared fade `(1 - age)^2`, rounded up
/// to one per-mille while any life is left, so it is one at birth,
/// falls with age, stays positive strictly before the end of life, and
/// is exactly zero from the lifetime on.
pub open spec fn spec_fade_opacity(age_permille: int) -> int {
    let a = spec_clamp_unit(age_permille);
    if a == 1000 {
        0
    } else {
        let sq = ((1000 - a) * (1000 - a)) / 1000;
        if sq < 1 {
            1
        } else {
            sq
        }
    }
}

/// The age fraction is always in the unit interval.
pub proof fn lemma_age_range(birth_ms: int, lifetime_ms: int, now_ms: int)
    ensures
        0 <= spec_age_permille(birth_ms, lifetime_ms, now_ms) <= 1000,
{
    if lifetime_ms > 0 && birth_ms < now_ms && now_ms - birth_ms < lifetime_ms {
        let x = (now_ms - birth_ms) * 1000;
        assert(0 <= x && x < 1000 * lifetime_ms) by (nonlinear_arith)
            requires
                0 < now_ms - birth_ms < lifetime_ms,
                x == (now_ms - birth_ms) * 1000,
        ;
        crate::transition::lemma_div_strict(x, lifetime_ms, 1000);
    }
}

/// No particle is visible past its lifetime: at full age the fade
/// opacity is exactly zero; until about the last three percent of the
/// lifetime (the per-mille resolution of the square) it stays positive.
pub proof fn lemma_fade_vanishes(age_permille: int)
    requires
        0 <= age_permille <= 1000,
    ensures
        age_permille == 1000 ==> spec_fade_opacity(age_permille) == 0,
        age_permille <= 968 ==> spec_fade_opacity(age_permille) > 0,
        0 <= spec_fade_opacity(age_permille) <= 1000,
{
    let v = 1000 - age_permille;
    assert(0 <= v * v <= 1_000_000 && (v >= 32 ==> v * v >= 1000) && (v == 0 ==> v * v == 0))
        by (nonlinear_arith)
        requires
            0 <= v <= 1000,
    ;
    crate::transition::lemma_div_bounded(v * v, 1000, 1000);
    if v == 0 {
        crate::transition::lemma_div_bounded(v * v, 1000, 0);
    }
    if v >= 32 {
        lemma_div_is_ordered(1000, v * v, 1000);
    }
}

/// Compute the clamped per-mille age.
pub fn age_permille(birth_ms: u64, lifetime_ms: u64, now_ms: u64) -> (r: i64)
    requires
        lifetime_ms <= 1_000_000_000,
    ensures
        r == spec_age_permille(birth_ms as int, lifetime_ms as int, now_ms as int),
        0 <= r <= 1000,
{
    proof {
        lemma_age_range(birth_ms as int, lifetime_ms as int, now_ms as int);
    }
    if lifetime_ms == 0 {
        return 1000;
    }
    if now_ms <= birth_ms {
        return 0;
    }
    let age = now_ms - birth_ms;
    if age >= lifetime_ms {
        return 1000;
    }
    proof {
        assert((age as int) * 1000 < 1000 * (lifetime_ms as int) && (age as int) * 1000
            <= 1_000_000_000_000) by (nonlinear_arith)
            requires
                0 < age as int && (age as int) < lifetime_ms as int && lifetime_ms as int
                    <= 1_000_000_000,
        ;
        crate::transition::lemma_div_strict((age as int) * 1000, lifetime_ms as int, 1000);
    }
    ((age * 1000) / lifetime_ms) as i64
}

/// Compute the fade opacity for an age.
pub fn fade_opacity(age_permille_v: i64) -> (r: i64)
    requires
        0 <= age_permille_v <= 1000,
    ensures
        r == spec_fade_opacity(age_permille_v as int),
        0 <= r <= 1000,
        r == 0 <==> age_permille_v == 1000,
{
    proof {
        lemma_fade_vanishes(age_permille_v as int);
    }
    if age_permille_v == 1000 {
        return 0;
    }
    let v = 1000 - age_permille_v;
    let sq = (v * v) / 1000;
    if sq < 1 {
        1
    } else {
        sq
    }
}

/// A single particle of a cursor effect.
#[derive(Debug, Clone, Copy, PartialEq, Eq, Structural)]
pub struct Particle {
    /// Position in milli-pixels.
    pub x: i64,
    pub y: i64,
    /// Velocity in milli-pixels per second.
    pub vx: i64,
    pub vy: i64,
    /// Current radius in milli-pixels.
    pub size: i64,
    /// Color.
    pub color: Rgba,
    /// Time of birth in milliseconds.
    pub birth_ms: u64,
    /// Lifetime in milliseconds.
    pub lifetime_ms: u64,
    /// Radius at birth, for the shrink rule.
    pub initial_size: i64,
}

impl Particle {
    /// In-range fields.
    pub open spec fn wf(&self) -> bool {
        &&& -POS_MAX <= self.x <= POS_MAX
        &&& -POS_MAX <= self.y <= POS_MAX
        &&& -VEL_MAX <= self.vx <= VEL_MAX
        &&& -VEL_MAX <= self.vy <= VEL_MAX
        &&& 0 <= self.size <= POS_MAX
        &&& 0 <= self.initial_size <= POS_MAX
        &&& self.lifetime_ms <= 1_000_000_000
    }

    /// The particle has not outlived its lifetime at `now_ms`.
    pub fn is_alive(&self, now_ms: u64) -> (r: bool)
        ensures
            r == (now_ms < self.birth_ms + self.lifetime_ms),
    {
        now_ms < self.birth_ms || now_ms - self.birth_ms < self.lifetime_ms
    }

    /// Age as a clamped per-mille fraction of the lifetime.
    pub fn age_fraction(&self, now_ms: u64) -> (r: i64)
        requires
            self.wf(),
        ensures
            r == spec_age_permille(self.birth_ms as int, self.lifetime_ms as int, now_ms as int),
            0 <= r <= 1000,
    {
        age_permille(self.birth_ms, self.lifetime_ms, now_ms)
    }

    /// Advance the particle by `dt_ms`: the position moves with the
    /// velocity, and drag multiplies the velocity by 0.95.
    pub fn update(&mut self, dt_ms: u64)
        requires
            old(self).wf(),
            dt_ms <= DT_MAX_MS,
        ensures
            final (self).wf(),
            final (self).x == spec_clamp_pos(old(self).x + spec_scaled_delta(old(self).vx as int, dt_ms as int)),
            final (self).y == spec_clamp_pos(old(self).y + spec_scaled_delta(old(self).vy as int, dt_ms as int)),
            final (self).vx == spec_drag(old(self).vx as int),
            final (self).vy == spec_drag(old(self).vy as int),
            final (self).size == old(self).size,
            final (self).color == old(self).color,
            final (self).birth_ms == old(self).birth_ms,
            final (self).lifetime_ms == old(self).lifetime_ms,
            final (self).initial_size == old(self).initial_size,
    {
        self.x = advance_pos(self.x, self.vx, dt_ms);
        self.y = advance_pos(self.y, self.vy, dt_ms);
        self.vx = apply_drag(self.vx);
        self.vy = apply_drag(self.vy);
    }

    /// Opacity: the squared fade over the lifetime.
    pub fn opacity(&self, now_ms: u64) -> (r: i64)
        requires
            self.wf(),
        ensures
            r == spec_fade_opacity(
                spec_age_permille(self.birth_ms as int, self.lifetime_ms as int, now_ms as int),
            ),
            0 <= r <= 1000,
    {
        let age = self.age_fraction(now_ms);
        fade_opacity(age)
    }

    /// Current radius: shrinks linearly from the initial radius to 30
    /// percent of it over the lifetime.
    pub fn current_size(&self, now_ms: u64) -> (r: i64)
        requires
            self.wf(),
        ensures
            ({
                let age = spec_age_permille(
                    self.birth_ms as int,
                    self.lifetime_ms as int,
                    now_ms as int,
                );
                r == self.initial_size * (1000 - age * 7 / 10) / 1000
            }),
    {
        let age = self.age_fraction(now_ms);
        let keep = 1000 - age * 7 / 10;
        proof {
            crate::transition::lemma_div_bounded((age as int) * 7, 10, 700);
            assert(0 <= (self.initial_size as int) * (keep as int) <= 1_000_000_000_000)
                by (nonlinear_arith)
                requires
                    0 <= self.initial_size as int <= 1_000_000_000,
                    0 <= keep as int <= 1000,
            ;
            crate::transition::lemma_div_bounded(
                (self.initial_size as int) * (keep as int),
                1000,
                1_000_000_000,
            );
        }
        self.initial_size * keep / 1000
    }
}

/// Distance covered by a velocity over a time step: the magnitude is
/// scaled and rounded down, and the sign restored.
pub open spec fn spec_scaled_delta(v: int, dt_ms: int) -> int {
    if v >= 0 {
        v * dt_ms / 1000
    } else {
        0 - ((0 - v) * dt_ms / 1000)
    }
}

/// A coordinate clamped into the accepted position range.
pub open spec fn spec_clamp_pos(v: int) -> int {
    if v < -POS_MAX {
        -POS_MAX as int
    } else if v > POS_MAX {
        POS_MAX as int
    } else {
        v
    }
}

/// Velocity after one drag step: scaled by 95 percent, rounded toward
/// zero.
pub open spec fn spec_drag(v: int) -> int {
    if v >= 0 {
        v * 95 / 100
    } else {
        0 - ((0 - v) * 95 / 100)
    }
}

/// A particle advanced by one step of `dt_ms`: the position moves with
/// the velocity and is clamped, drag slows the velocity, and everything
/// else is kept.
pub open spec fn spec_particle_stepped(p: Particle, dt_ms: int) -> Particle {
    Particle {
        x: spec_clamp_pos(p.x + spec_scaled_delta(p.vx as int, dt_ms)) as i64,
        y: spec_clamp_pos(p.y + spec_scaled_delta(p.vy as int, dt_ms)) as i64,
        vx: spec_drag(p.vx as int) as i64,
        vy: spec_drag(p.vy as int) as i64,
        size: p.size,
        color: p.color,
        birth_ms: p.birth_ms,
        lifetime_ms: p.lifetime_ms,
        initial_size: p.initial_size,
    }
}

/// The particle list after one step: every particle advanced by
/// `dt_ms`, and only those still alive at `now_ms` kept, in order.
pub open spec fn spec_particles_step(ps: Seq<Particle>, dt_ms: int, now_ms: int) -> Seq<Particle>
    decreases ps.len(),
{
    if ps.len() == 0 {
        Seq::empty()
    } else {
        let rest = spec_particles_step(ps.drop_last(), dt_ms, now_ms);
        let q = spec_particle_stepped(ps.last(), dt_ms);
        if now_ms < q.birth_ms + q.lifetime_ms {
            rest.push(q)
        } else {
            rest
        }
    }
}

/// A ring advanced by one step of `dt_ms`: the radius grows with the
/// expansion speed and is clamped, and everything else is kept.
pub open spec fn spec_ring_stepped(r: Ring, dt_ms: int) -> Ring {
    Ring {
        x: r.x,
        y: r.y,
        radius: spec_clamp_pos(r.radius + spec_scaled_delta(r.speed as int, dt_ms)) as i64,
        speed: r.speed,
        color: r.color,
        birth_ms: r.birth_ms,
        lifetime_ms: r.lifetime_ms,
        thickness: r.thickness,
    }
}

/// The ring list after one step: every ring advanced by `dt_ms`, and
/// only those still alive at `now_ms` kept, in order.
pub open spec fn spec_rings_step(rs: Seq<Ring>, dt_ms: int, now_ms: int) -> Seq<Ring>
    decreases rs.len(),
{
    if rs.len() == 0 {
        Seq::empty()
    } else {
        let rest = spec_rings_step(rs.drop_last(), dt_ms, now_ms);
        let q = spec_ring_stepped(rs.last(), dt_ms);
        if now_ms < q.birth_ms + q.lifetime_ms {
            rest.push(q)
        } else {
            rest
        }
    }
}

/// The trail points younger than 200 ms at `now_ms`, in order.
pub open spec fn spec_trail_kept(ts: Seq<TrailPoint>, now_ms: int) -> Seq<TrailPoint>
    decreases ts.len(),
{
    if ts.len() == 0 {
        Seq::empty()
    } else {
        let rest = spec_trail_kept(ts.drop_last(), now_ms);
        if now_ms < ts.last().time_ms + 200 {
            rest.push(ts.last())
        } else {
            rest
        }
    }
}

/// The step a wall-clock update takes: the time since the last update,
/// clamped below by zero and above by the largest accepted step.
pub open spec fn spec_auto_dt(last_ms: int, now_ms: int) -> int {
    if now_ms >= last_ms {
        if now_ms - last_ms > DT_MAX_MS as int {
            DT_MAX_MS as int
        } else {
            now_ms - last_ms
        }
    } else {
        0
    }
}

/// Move a coordinate by velocity times time, clamped into range.
fn advance_pos(x: i64, v: i64, dt_ms: u64) -> (r: i64)
    requires
        -POS_MAX <= x <= POS_MAX,
        -VEL_MAX <= v <= VEL_MAX,
        dt_ms <= DT_MAX_MS,
    ensures
        r == spec_clamp_pos(x + spec_scaled_delta(v as int, dt_ms as int)),
        -POS_MAX <= r <= POS_MAX,
{
    proof {
        assert(-(1_000_000_000_000_000int) <= (v as int) * (dt_ms as int) <= 1_000_000_000_000_000)
            by (nonlinear_arith)
            requires
                -1_000_000_000 <= v as int <= 1_000_000_000,
                0 <= dt_ms as int <= 1_000_000,
        ;
    }
    let delta: i64 = if v >= 0 {
        proof {
            crate::transition::lemma_div_bounded(
                (v as int) * (dt_ms as int),
                1000,
                1_000_000_000_000,
            );
        }
        (v * (dt_ms as i64)) / 1000
    } else {
        proof {
            assert(0 <= (0 - v as int) * (dt_ms as int) <= 1_000_000_000_000_000)
                by (nonlinear_arith)
                requires
                    0 <= (0 - v as int) <= 1_000_000_000,
                    0 <= dt_ms as int <= 1_000_000,
            ;
            crate::transition::lemma_div_bounded(
                (0 - v as int) * (dt_ms as int),
                1000,
                1_000_000_000_000,
            );
            assert((0 - v as int) * (dt_ms as int) == 0 - (v as int) * (dt_ms as int))
                by (nonlinear_arith);
        }
        -(((-v) * (dt_ms as i64)) / 1000)
    };
    let moved = x + delta;
    if moved < -POS_MAX {
        -POS_MAX
    } else if moved > POS_MAX {
        POS_MAX
    } else {
        moved
    }
}

/// Apply one drag step to a velocity.
fn apply_drag(v: i64) -> (r: i64)
    requires
        -VEL_MAX <= v <= VEL_MAX,
    ensures
        r == spec_drag(v as int),
        -VEL_MAX <= r <= VEL_MAX,
        v >= 0 ==> 0 <= r <= v,
        v < 0 ==> v <= r <= 0,
{
    if v >= 0 {
        proof {
            assert(0 <= (v as int) * 95 <= 95_000_000_000) by (nonlinear_arith)
                requires
                    0 <= v as int <= 1_000_000_000,
            ;
            crate::transition::lemma_div_bounded((v as int) * 95, 100, (v as int));
            assert((v as int) * 95 <= (v as int) * 100) by (nonlinear_arith)
                requires
                    0 <= v as int,
            ;
        }
        (v * 95) / 100
    } else {
        let m = -v;
        proof {
            assert(0 <= (m as int) * 95 <= 95_000_000_000) by (nonlinear_arith)
                requires
                    0 <= m as int <= 1_000_000_000,
            ;
            crate::transition::lemma_div_bounded((m as int) * 95, 100, (m as int));
            assert((m as int) * 95 <= (m as int) * 100) by (nonlinear_arith)
                requires
                    0 <= m as int,
            ;
        }
        -((m * 95) / 100)
    }
}

/// A ring effect (for the shockwave and ripple modes).
#[derive(Debug, Clone, Copy, PartialEq, Eq, Structural)]
pub struct Ring {
    /// Center in milli-pixels.
    pub x: i64,
    pub y: i64,
    /// Current radius in milli-pixels.
    pub radius: i64,
    /// Expansion speed in milli-pixels per second.
    pub speed: i64,
    /// Color.
    pub color: Rgba,
    /// Time of birth in milliseconds.
    pub birth_ms: u64,
    /// Lifetime in milliseconds.
    pub lifetime_ms: u64,
    /// Ring thickness in milli-pixels.
    pub thickness: i64,
}

impl Ring {
    /// In-range fields.
    pub open spec fn wf(&self) -> bool {
        &&& -POS_MAX <= self.x <= POS_MAX
        &&& -POS_MAX <= self.y <= POS_MAX
        &&& 0 <= self.radius <= POS_MAX
        &&& 0 <= self.speed <= VEL_MAX
        &&& 0 <= self.thickness <= POS_MAX
        &&& self.lifetime_ms <= 1_000_000_000
    }

    /// The ring has not outlived its lifetime at `now_ms`.
    pub fn is_alive(&self, now_ms: u64) -> (r: bool)
        ensures
            r == (now_ms < self.birth_ms + self.lifetime_ms),
    {
        now_ms < self.birth_ms || now_ms - self.birth_ms < self.lifetime_ms
    }

    /// Age as a clamped per-mille fraction of the lifetime.
    pub fn age_fraction(&self, now_ms: u64) -> (r: i64)
        requires
            self.wf(),
        ensures
            r == spec_age_permille(self.birth_ms as int, self.lifetime_ms as int, now_ms as int),
            0 <= r <= 1000,
    {
        age_permille(self.birth_ms, self.lifetime_ms, now_ms)
    }

    /// Expand the radius by speed times time, clamped into range.
    pub fn update(&mut self, dt_ms: u64)
        requires
            old(self).wf(),
            dt_ms <= DT_MAX_MS,
        ensures
            final (self).wf(),
            final (self).radius == spec_clamp_pos(
                old(self).radius + spec_scaled_delta(old(self).speed as int, dt_ms as int),
            ),
            final (self).radius >= old(self).radius || final (self).radius == POS_MAX,
            final (self).x == old(self).x,
            final (self).y == old(self).y,
            final (self).speed == old(self).speed,
            final (self).color == old(self).color,
            final (self).birth_ms == old(self).birth_ms,
            final (self).lifetime_ms == old(self).lifetime_ms,
            final (self).thickness == old(self).thickness,
    {
        let r2 = advance_pos(self.radius, self.speed, dt_ms);
        proof {
            assert(0 <= (self.speed as int) * (dt_ms as int) <= 1_000_000_000_000_000)
                by (nonlinear_arith)
                requires
                    0 <= self.speed as int <= 1_000_000_000,
                    0 <= dt_ms as int <= 1_000_000,
            ;
            crate::transition::lemma_div_bounded(
                (self.speed as int) * (dt_ms as int),
                1000,
                1_000_000_000_000,
            );
        }
        self.radius = r2;
    }

    /// Opacity: the squared fade over the lifetime.
    pub fn opacity(&self, now_ms: u64) -> (r: i64)
        requires
            self.wf(),
        ensures
            r == spec_fade_opacity(
                spec_age_permille(self.birth_ms as int, self.lifetime_ms as int, now_ms as int),
            ),
            0 <= r <= 1000,
    {
        let age = self.age_fraction(now_ms);
        fade_opacity(age)
    }
}

/// One point of the torpedo trail.
#[derive(Debug, Clone, Copy, PartialEq, Eq, Structural)]
pub struct TrailPoint {
    /// Position in milli-pixels.
    pub x: i64,
    pub y: i64,
    /// Time the point was laid down, in milliseconds.
    pub time_ms: u64,
}

/// The smoothing factor for one update, in per-mille: the rational map
/// `x / (1000 + x)` of `x = speed * dt`, which like the exponential
/// form rises with speed and time and stays below one.
pub open spec fn spec_smooth_factor(speed: int, dt_ms: int) -> int {
    let x = speed * dt_ms;
    (1000 * x) / (1000 + x)
}

/// Compute the smoothing factor.
pub fn smooth_factor(speed: i64, dt_ms: u64) -> (r: i64)
    requires
        1 <= speed <= 100,
        dt_ms <= DT_MAX_MS,
    ensures
        r == spec_smooth_factor(speed as int, dt_ms as int),
        0 <= r < 1000,
{
    proof {
        assert(0 <= (speed as int) * (dt_ms as int) <= 100_000_000) by (nonlinear_arith)
            requires
                1 <= speed as int <= 100,
                0 <= dt_ms as int <= 1_000_000,
        ;
        let xs = (speed as int) * (dt_ms as int);
        assert(1000 * xs < 1000 * (1000 + xs)) by (nonlinear_arith)
            requires
                0 <= xs,
        ;
        crate::transition::lemma_div_strict(1000 * xs, 1000 + xs, 1000);
    }
    let x = speed * (dt_ms as i64);
    (1000 * x) / (1000 + x)
}

/// One smoothing step of a coordinate toward its target: the gap is
/// scaled by the factor and added; the result never overshoots.
pub open spec fn spec_step_toward(cur: int, tgt: int, f: int) -> int {
    if tgt >= cur {
        cur + (tgt - cur) * f / 1000
    } else {
        cur - (cur - tgt) * f / 1000
    }
}

/// Compute one smoothing step.
pub fn step_toward(cur: i64, tgt: i64, f: i64) -> (r: i64)
    requires
        -POS_MAX <= cur <= POS_MAX,
        -POS_MAX <= tgt <= POS_MAX,
        0 <= f < 1000,
    ensures
        r == spec_step_toward(cur as int, tgt as int, f as int),
        cur <= tgt ==> cur <= r <= tgt,
        tgt <= cur ==> tgt <= r <= cur,
{
    if tgt >= cur {
        let gap = tgt - cur;
        proof {
            lemma_gap_scale(gap as int, f as int);
        }
        cur + (gap * f) / 1000
    } else {
        let gap = cur - tgt;
        proof {
            lemma_gap_scale(gap as int, f as int);
        }
        cur - (gap * f) / 1000
    }
}

/// A gap scaled by a sub-unit factor stays between zero and the gap.
proof fn lemma_gap_scale(gap: int, f: int)
    requires
        0 <= gap <= 2_000_000_000,
        0 <= f < 1000,
    ensures
        0 <= gap * f / 1000 <= gap,
        gap * f <= 2_000_000_000_000,
{
    assert(0 <= gap * f && gap * f <= gap * 1000 && gap * f <= 2_000_000_000_000)
        by (nonlinear_arith)
        requires
            0 <= gap <= 2_000_000_000,
            0 <= f < 1000,
    ;
    crate::transition::lemma_div_bounded(gap * f, 1000, gap);
}

/// With a factor of at least one half, a smoothing step at least
/// halves the gap, up to one unit of rounding.
pub proof fn lemma_step_halves(cur: int, tgt: int, f: int)
    requires
        -POS_MAX <= cur <= POS_MAX,
        -POS_MAX <= tgt <= POS_MAX,
        500 <= f < 1000,
    ensures
        ({
            let stepped = spec_step_toward(cur, tgt, f);
            let d0 = if tgt >= cur {
                tgt - cur
            } else {
                cur - tgt
            };
            let d1 = if tgt >= stepped {
                tgt - stepped
            } else {
                stepped - tgt
            };
            2 * d1 <= d0 + 2
        }),
{
    let d0 = if tgt >= cur {
        tgt - cur
    } else {
        cur - tgt
    };
    lemma_gap_scale(d0, f);
    assert(d0 * 500 <= d0 * f) by (nonlinear_arith)
        requires
            0 <= d0,
            500 <= f,
    ;
    vstd::arithmetic::div_mod::lemma_div_is_ordered(d0 * 500, d0 * f, 1000);
    assert(d0 * 500 == 500 * d0) by (nonlinear_arith);
    vstd::arithmetic::div_mod::lemma_fundamental_div_mod(500 * d0, 1000);
    vstd::arithmetic::div_mod::lemma_mod_division_less_than_divisor(500 * d0, 1000);
}

/// The gap after `n` halving steps, each worth half the previous gap
/// plus one unit of rounding.
pub open spec fn spec_halved(d0: nat, n: nat) -> nat
    decreases n,
{
    if n == 0 {
        d0
    } else {
        ((spec_halved(d0, (n - 1) as nat) + 2) / 2) as nat
    }
}

/// Animator convergence: after `n` halving steps the gap is within
/// `d0 / 2^n + 2`; from any representable start, 62 such steps bring
/// the gap under half a pixel, where the cursor snaps onto the target
/// exactly.
pub proof fn lemma_halving_converges(d0: nat, n: nat)
    ensures
        spec_halved(d0, n) <= d0 / pow2(n) + 2,
        d0 <= 0x4000_0000_0000_0000 && n >= 62 ==> spec_halved(d0, n) < 500,
    decreases n,
{
    vstd::arithmetic::power2::lemma_pow2_pos(n);
    if n == 0 {
        vstd::arithmetic::power2::lemma2_to64();
        assert(d0 / 1 == d0) by (nonlinear_arith);
    } else {
        lemma_halving_converges(d0, (n - 1) as nat);
        vstd::arithmetic::power2::lemma_pow2_pos((n - 1) as nat);
        vstd::arithmetic::power2::lemma_pow2_unfold(n);
        let h = spec_halved(d0, (n - 1) as nat) as int;
        let p = pow2((n - 1) as nat) as int;
        let dp = (d0 as int) / p;
        // (h + 2) / 2 <= (dp + 4) / 2 == dp / 2 + 2 == d0 / (2 p) + 2.
        vstd::arithmetic::div_mod::lemma_div_pos_is_pos(d0 as int, p);
        vstd::arithmetic::div_mod::lemma_div_is_ordered(h + 2, dp + 4, 2);
        vstd::arithmetic::div_mod::lemma_fundamental_div_mod(dp, 2);
        vstd::arithmetic::div_mod::lemma_mod_division_less_than_divisor(dp, 2);
        let q = dp / 2;
        let rr = dp % 2;
        assert((dp + 4) / 2 == q + 2) by (nonlinear_arith)
            requires
                dp == 2 * q + rr,
                0 <= rr < 2,
        ;
        vstd::arithmetic::div_mod::lemma_div_denominator(d0 as int, p, 2);
        assert(p * 2 == 2 * p) by (nonlinear_arith);
        if d0 <= 0x4000_0000_0000_0000 && n >= 62 {
            vstd::arithmetic::power2::lemma_pow2_strictly_increases(61, n);
            vstd::arithmetic::power2::lemma2_to64_rest();
            vstd::arithmetic::div_mod::lemma_div_is_ordered_by_denominator(
                d0 as int,
                pow2(61) as int + 1,
                pow2(n) as int,
            );
            assert(d0 / (0x2000_0000_0000_0001) <= 2) by (nonlinear_arith)
                requires
                    d0 <= 0x4000_0000_0000_0000,
            ;
        }
    }
}

/// The smooth cursor animation state.
#[derive(Debug)]
pub struct CursorAnimator {
    /// Animation mode.
    pub mode: CursorAnimationMode,
    /// Target cursor rectangle (from the host), in milli-pixels.
    pub target_x: i64,
    pub target_y: i64,
    pub target_width: i64,
    pub target_height: i64,
    /// Current animated cursor rectangle, in milli-pixels.
    pub current_x: i64,
    pub current_y: i64,
    pub current_width: i64,
    pub current_height: i64,
    /// Cursor color.
    pub color: Rgba,
    /// Cursor style: 0 box, 1 bar, 2 underline, 3 hollow.
    pub style: u8,
    /// The cursor is shown at all (before blinking).
    pub visible: bool,
    /// Blink phase.
    pub blink_on: bool,
    /// Time of the last blink toggle, in milliseconds.
    pub last_blink_toggle_ms: u64,
    /// Blink interval in milliseconds.
    pub blink_interval_ms: u64,
    /// Animation speed (per second); higher converges faster.
    pub animation_speed: i64,
    /// Live particles.
    pub particles: Vec<Particle>,
    /// Live rings.
    pub rings: Vec<Ring>,
    /// Trail points, oldest first.
    pub trail: Vec<TrailPoint>,
    /// Most trail points kept.
    pub max_trail_length: usize,
    /// Time of the last wall-clock update, in milliseconds.
    pub last_update_ms: u64,
    /// Previous target position, for movement detection.
    pub last_target_x: i64,
    pub last_target_y: i64,
    /// Particles spawned per movement.
    pub particle_count: u32,
    /// Lifetime of spawned particles, in milliseconds.
    pub particle_lifetime_ms: u64,
    /// Nominal particle speed, in milli-pixels per second.
    pub particle_speed: i64,
    /// Nominal particle radius, in milli-pixels.
    pub particle_size: i64,
    /// Glow intensity in per-mille.
    pub glow_intensity: i64,
    /// The cursor is still moving toward its target.
    pub animating: bool,
}

impl CursorAnimator {
    /// Everything except the particle, ring and trail lists is
    /// unchanged between two animator states.
    pub open spec fn same_core(a: CursorAnimator, b: CursorAnimator) -> bool {
        &&& b.mode == a.mode
        &&& b.target_x == a.target_x
        &&& b.target_y == a.target_y
        &&& b.target_width == a.target_width
        &&& b.target_height == a.target_height
        &&& b.current_x == a.current_x
        &&& b.current_y == a.current_y
        &&& b.current_width == a.current_width
        &&& b.current_height == a.current_height
        &&& b.color == a.color
        &&& b.style == a.style
        &&& b.visible == a.visible
        &&& b.blink_on == a.blink_on
        &&& b.last_blink_toggle_ms == a.last_blink_toggle_ms
        &&& b.blink_interval_ms == a.blink_interval_ms
        &&& b.animation_speed == a.animation_speed
        &&& b.max_trail_length == a.max_trail_length
        &&& b.last_update_ms == a.last_update_ms
        &&& b.last_target_x == a.last_target_x
        &&& b.last_target_y == a.last_target_y
        &&& b.particle_count == a.particle_count
        &&& b.particle_lifetime_ms == a.particle_lifetime_ms
        &&& b.particle_speed == a.particle_speed
        &&& b.particle_size == a.particle_size
        &&& b.glow_intensity == a.glow_intensity
        &&& b.animating == a.animating
    }

    /// In-range fields.
    pub open spec fn wf(&self) -> bool {
        &&& -POS_MAX <= self.target_x <= POS_MAX
        &&& -POS_MAX <= self.target_y <= POS_MAX
        &&& -POS_MAX <= self.target_width <= POS_MAX
        &&& -POS_MAX <= self.target_height <= POS_MAX
        &&& -POS_MAX <= self.current_x <= POS_MAX
        &&& -POS_MAX <= self.current_y <= POS_MAX
        &&& -POS_MAX <= self.current_width <= POS_MAX
        &&& -POS_MAX <= self.current_height <= POS_MAX
        &&& -POS_MAX <= self.last_target_x <= POS_MAX
        &&& -POS_MAX <= self.last_target_y <= POS_MAX
        &&& 1 <= self.animation_speed <= 100
        &&& 1 <= self.particle_count <= 100
        &&& self.particle_lifetime_ms <= 1_000_000_000
        &&& 0 <= self.particle_speed <= VEL_MAX
        &&& 0 <= self.particle_size <= 1_000_000
        &&& forall|i: int| 0 <= i < self.particles@.len() ==> (#[trigger] self.particles@[i]).wf()
        &&& forall|i: int| 0 <= i < self.rings@.len() ==> (#[trigger] self.rings@[i]).wf()
    }

    /// A fresh animator at time `now_ms`: smooth mode, an 8 by 16 pixel
    /// cursor at the origin, blinking on a 530 ms interval.
    pub fn new(now_ms: u64) -> (r: CursorAnimator)
        ensures
            r.wf(),
            r.mode == CursorAnimationMode::Smooth,
            r.target_x == 0 && r.target_y == 0,
            r.target_width == 8000 && r.target_height == 16000,
            r.current_x == 0 && r.current_y == 0,
            r.current_width == 8000 && r.current_height == 16000,
            r.color == (Rgba { r: 1000i64, g: 1000i64, b: 1000i64, a: 1000i64 }),
            r.style == 0,
            r.visible,
            r.blink_on,
            r.last_blink_toggle_ms == now_ms,
            r.blink_interval_ms == 530,
            r.animation_speed == 15,
            r.particles@.len() == 0,
            r.rings@.len() == 0,
            r.trail@.len() == 0,
            r.max_trail_length == 40,
            r.last_update_ms == now_ms,
            r.last_target_x == 0 && r.last_target_y == 0,
            r.particle_count == 15,
            r.particle_lifetime_ms == 400,
            r.particle_speed == 200_000,
            r.particle_size == 4000,
            r.glow_intensity == 300,
            !r.animating,
    {
        CursorAnimator {
            mode: CursorAnimationMode::Smooth,
            target_x: 0,
            target_y: 0,
            target_width: 8000,
            target_height: 16000,
            current_x: 0,
            current_y: 0,
            current_width: 8000,
            current_height: 16000,
            color: Rgba::white(),
            style: 0,
            visible: true,
            blink_on: true,
            last_blink_toggle_ms: now_ms,
            blink_interval_ms: 530,
            animation_speed: 15,
            particles: Vec::new(),
            rings: Vec::new(),
            trail: Vec::new(),
            max_trail_length: 40,
            last_update_ms: now_ms,
            last_target_x: 0,
            last_target_y: 0,
            particle_count: 15,
            particle_lifetime_ms: 400,
            particle_speed: 200_000,
            particle_size: 4000,
            glow_intensity: 300,
            animating: false,
        }
    }

    /// The cursor is visible: shown at all and in the on phase of its
    /// blink.
    pub fn is_visible(&self) -> (r: bool)
        ensures
            r == (self.visible && self.blink_on),
    {
        self.visible && self.blink_on
    }

    /// The animator still has work: the cursor is moving or a particle
    /// or ring is live.
    pub fn is_animating(&self) -> (r: bool)
        ensures
            r == (self.animating || self.particles@.len() > 0 || self.rings@.len() > 0),
    {
        self.animating || self.particles.len() > 0 || self.rings.len() > 0
    }

    /// Switch the animation mode; all particles, rings and trail
    /// points are cleared.
    pub fn set_mode(&mut self, mode: CursorAnimationMode)
        requires
            old(self).wf(),
        ensures
            final (self).wf(),
            final (self).mode == mode,
            final (self).particles@.len() == 0,
            final (self).rings@.len() == 0,
            final (self).trail@.len() == 0,
            final (self).current_x == old(self).current_x,
            final (self).current_y == old(self).current_y,
            final (self).current_width == old(self).current_width,
            final (self).current_height == old(self).current_height,
            final (self).target_x == old(self).target_x,
            final (self).target_y == old(self).target_y,
            final (self).target_width == old(self).target_width,
            final (self).target_height == old(self).target_height,
            final (self).color == old(self).color,
            final (self).style == old(self).style,
            final (self).visible == old(self).visible,
            final (self).blink_on == old(self).blink_on,
            final (self).last_blink_toggle_ms == old(self).last_blink_toggle_ms,
            final (self).blink_interval_ms == old(self).blink_interval_ms,
            final (self).animation_speed == old(self).animation_speed,
            final (self).max_trail_length == old(self).max_trail_length,
            final (self).last_update_ms == old(self).last_update_ms,
            final (self).last_target_x == old(self).last_target_x,
            final (self).last_target_y == old(self).last_target_y,
            final (self).particle_count == old(self).particle_count,
            final (self).particle_lifetime_ms == old(self).particle_lifetime_ms,
            final (self).particle_speed == old(self).particle_speed,
            final (self).particle_size == old(self).particle_size,
            final (self).glow_intensity == old(self).glow_intensity,
            final (self).animating == old(self).animating,
    {
        self.mode = mode;
        self.particles.clear();
        self.rings.clear();
        self.trail.clear();
    }

    /// Set the animation speed, clamped into 1 to 100.
    pub fn set_animation_speed(&mut self, speed: i64)
        requires
            old(self).wf(),
        ensures
            final (self).wf(),
            final (self).animation_speed == if speed < 1 {
                1i64
            } else if speed > 100 {
                100i64
            } else {
                speed
            },
            final (self).particles@ == old(self).particles@,
            final (self).rings@ == old(self).rings@,
    {
        self.animation_speed = if speed < 1 {
            1
        } else if speed > 100 {
            100
        } else {
            speed
        };
    }

    /// Set the particle count, clamped into 1 to 100.
    pub fn set_particle_count(&mut self, count: u32)
        requires
            old(self).wf(),
        ensures
            final (self).wf(),
            final (self).particle_count == if count < 1 {
                1u32
            } else if count > 100 {
                100u32
            } else {
                count
            },
            final (self).particles@ == old(self).particles@,
    {
        self.particle_count = if count < 1 {
            1
        } else if count > 100 {
            100
        } else {
            count
        };
    }

    /// Record a trail point at the current cursor center, dropping the
    /// oldest when the trail is full.
    fn add_trail_point(&mut self, now_ms: u64)
        requires
            old(self).wf(),
        ensures
            final (self).wf(),
            final (self).trail@.len() <= old(self).trail@.len() + 1,
            final (self).trail@.len() >= 1,
            final (self).particles@ == old(self).particles@,
            final (self).rings@ == old(self).rings@,
            CursorAnimator::same_core(*old(self), *final (self)),
            old(self).max_trail_length >= 1 ==> final (self).trail@.len() <= old(
                self,
            ).max_trail_length,
            final (self).trail@.last().time_ms == now_ms,
            // The new trail is the old one with the fresh point
            // appended, minus some of the oldest points.
            exists|k: int|
                0 <= k <= old(self).trail@.len() && final (self).trail@ == old(self).trail@.push(
                    final (self).trail@.last(),
                ).skip(k),
    {
        let half_w = self.current_width / 2;
        let half_h = self.current_height / 2;
        let cx = clamp_pos_exec(self.current_x + half_w / 1000 * 1000);
        let cy = clamp_pos_exec(self.current_y + half_h / 1000 * 1000);
        let pt = TrailPoint { x: cx, y: cy, time_ms: now_ms };
        self.trail.push(pt);
        let ghost pushed = old(self).trail@.push(pt);
        let ghost mut dropped: int = 0;
        proof {
            assert(self.trail@ =~= pushed.skip(0));
        }
        while self.trail.len() > self.max_trail_length && self.trail.len() > 1
            invariant
                self.wf(),
                CursorAnimator::same_core(*old(self), *self),
                self.trail@.len() >= 1,
                self.particles@ == old(self).particles@,
                self.rings@ == old(self).rings@,
                self.mode == old(self).mode,
                self.current_x == old(self).current_x,
                self.target_x == old(self).target_x,
                self.animating == old(self).animating,
                self.max_trail_length == old(self).max_trail_length,
                self.trail@.len() <= old(self).trail@.len() + 1,
                pushed == old(self).trail@.push(pt),
                0 <= dropped <= old(self).trail@.len(),
                self.trail@ == pushed.skip(dropped),
            decreases self.trail@.len(),
        {
            self.trail.remove(0);
            proof {
                assert(self.trail@ =~= pushed.skip(dropped + 1));
                dropped = dropped + 1;
            }
        }
        proof {
            assert(self.trail@.last() == pt);
            assert(0 <= dropped <= old(self).trail@.len() && self.trail@ == old(
                self,
            ).trail@.push(self.trail@.last()).skip(dropped));
        }
    }
}

/// Clamp a coordinate into the accepted position range.
fn clamp_pos_exec(v: i64) -> (r: i64)
    requires
        -0x7000_0000_0000_0000 <= v <= 0x7000_0000_0000_0000,
    ensures
        r == spec_clamp_pos(v as int),
        -POS_MAX <= r <= POS_MAX,
{
    if v < -POS_MAX {
        -POS_MAX
    } else if v > POS_MAX {
        POS_MAX
    } else {
        v
    }
}

/// Integer square root: the greatest value whose square does not
/// exceed `n`.
pub fn isqrt(n: u64) -> (r: u64)
    ensures
        (r as int) * (r as int) <= n as int,
        ((r as int) + 1) * ((r as int) + 1) > n as int,
        r < 0x1_0000_0000,
{
    if n == 0 {
        return 0;
    }
    let mut lo: u64 = 0;
    let mut hi: u64 = 0x1_0000_0000;
    while lo + 1 < hi
        invariant
            lo < hi <= 0x1_0000_0000,
            (lo as int) * (lo as int) <= n as int,
            (hi as int) * (hi as int) > n as int,
        decreases hi - lo,
    {
        let mid = lo + (hi - lo) / 2;
        proof {
            assert((mid as int) * (mid as int) <= 0xFFFF_FFFF_FFFF_FFFF) by (nonlinear_arith)
                requires
                    0 <= mid as int,
                    mid as int <= 0xFFFF_FFFF,
            ;
        }
        if mid * mid <= n {
            lo = mid;
        } else {
            hi = mid;
        }
    }
    lo
}

/// Scale a signed value by a nonnegative ratio: `a * m / d`, dividing
/// the magnitude and restoring the sign.
fn mul_div(a: i64, m: i64, d: i64) -> (r: i64)
    requires
        -4_000_000_000 <= a <= 4_000_000_000,
        0 <= m <= 2_000_000,
        1 <= d,
    ensures
        a >= 0 ==> 0 <= r && r == (a as int) * (m as int) / (d as int),
        a < 0 ==> r == 0 - ((0 - a as int) * (m as int) / (d as int)),
        -8_000_000_000_000_000 <= r <= 8_000_000_000_000_000,
{
    if a >= 0 {
        proof {
            assert(0 <= (a as int) * (m as int) <= 8_000_000_000_000_000) by (nonlinear_arith)
                requires
                    0 <= a as int <= 4_000_000_000,
                    0 <= m as int <= 2_000_000,
            ;
            crate::transition::lemma_div_bounded(
                (a as int) * (m as int),
                d as int,
                8_000_000_000_000_000,
            );
        }
        (a * m) / d
    } else {
        let p = -a;
        proof {
            assert(0 <= (p as int) * (m as int) <= 8_000_000_000_000_000) by (nonlinear_arith)
                requires
                    0 <= p as int <= 4_000_000_000,
                    0 <= m as int <= 2_000_000,
            ;
            crate::transition::lemma_div_bounded(
                (p as int) * (m as int),
                d as int,
                8_000_000_000_000_000,
            );
        }
        -((p * m) / d)
    }
}

/// Clamp a value into the accepted velocity range.
fn clamp_vel(v: i64) -> (r: i64)
    ensures
        -VEL_MAX <= r <= VEL_MAX,
    no_unwind
{
    if v < -VEL_MAX {
        -VEL_MAX
    } else if v > VEL_MAX {
        VEL_MAX
    } else {
        v
    }
}

impl CursorAnimator {
    /// Center of the current cursor rectangle, clamped into range.
    fn current_center(&self) -> (r: (i64, i64))
        requires
            self.wf(),
        ensures
            -POS_MAX <= r.0 <= POS_MAX,
            -POS_MAX <= r.1 <= POS_MAX,
    {
        let cx = clamp_pos_exec(self.current_x + self.current_width / 2 / 1000 * 1000);
        let cy = clamp_pos_exec(self.current_y + self.current_height / 2 / 1000 * 1000);
        (cx, cy)
    }

    /// Spawn the railgun burst: `particle_count` particles at the
    /// current cursor center, shot opposite the move direction with
    /// per-particle angular jitter and speed variation.
    fn spawn_railgun_particles(&mut self, dx: i64, dy: i64, dist: i64, now_ms: u64)
        requires
            old(self).wf(),
            -2_000_000_000 <= dx <= 2_000_000_000,
            -2_000_000_000 <= dy <= 2_000_000_000,
            1 <= dist <= 4_000_000_000,
            old(self).particles@.len() + old(self).particle_count <= usize::MAX,
        ensures
            final (self).wf(),
            final (self).particles@.len() == old(self).particles@.len() + old(
                self,
            ).particle_count,
            forall|i: int|
                old(self).particles@.len() <= i < final (self).particles@.len()
                    ==> (#[trigger] final (self).particles@[i]).birth_ms == now_ms
                    && final (self).particles@[i].lifetime_ms <= old(self).particle_lifetime_ms,
            final (self).rings@ == old(self).rings@,
            final (self).trail@ == old(self).trail@,
            CursorAnimator::same_core(*old(self), *final (self)),
    {
        let (cx, cy) = self.current_center();
        // Unit direction opposite the move, in per-mille.
        let ndx = -mul_div(dx, 1000, dist);
        let ndy = -mul_div(dy, 1000, dist);
        let count = self.particle_count;
        let mut i: u32 = 0;
        while i < count
            invariant
                self.wf(),
                CursorAnimator::same_core(*old(self), *self),
                count == old(self).particle_count,
                1 <= count <= 100,
                i <= count,
                old(self).particles@.len() + count <= usize::MAX,
                self.particles@.len() == old(self).particles@.len() + i,
                forall|j: int|
                    old(self).particles@.len() <= j < self.particles@.len()
                        ==> (#[trigger] self.particles@[j]).birth_ms == now_ms
                        && self.particles@[j].lifetime_ms <= old(self).particle_lifetime_ms,
                self.rings@ == old(self).rings@,
                self.trail@ == old(self).trail@,
                self.mode == old(self).mode,
                self.animating == old(self).animating,
                self.target_x == old(self).target_x,
                self.current_x == old(self).current_x,
                self.particle_lifetime_ms == old(self).particle_lifetime_ms,
                self.particle_speed == old(self).particle_speed,
                self.particle_size == old(self).particle_size,
                self.color == old(self).color,
                -8_000_000_000_000 <= ndx <= 8_000_000_000_000,
                -8_000_000_000_000 <= ndy <= 8_000_000_000_000,
                -POS_MAX <= cx <= POS_MAX,
                -POS_MAX <= cy <= POS_MAX,
            decreases count - i,
        {
            // Angular jitter across the fan, in milli-radians.
            proof {
                assert(0 <= (i as int) * 800 && (i as int) * 800 <= 800 * (count as int))
                    by (nonlinear_arith)
                    requires
                        0 <= i as int && (i as int) < count as int,
                ;
                crate::transition::lemma_div_bounded((i as int) * 800, count as int, 800);
            }
            let a: i64 = ((i as i64) * 800) / (count as i64) - 400;
            // Small-angle cosine and sine, in per-mille.
            proof {
                assert(0 <= a * a && a * a <= 160_000) by (nonlinear_arith)
                    requires
                        -400 <= a as int <= 400,
                ;
                crate::transition::lemma_div_bounded((a as int) * (a as int), 2000, 80);
            }
            let cos_a = 1000 - (a * a) / 2000;
            let sin_a = a;
            let bx = clamp_vel(ndx);
            let by = clamp_vel(ndy);
            // Rotate the direction by the jitter angle.
            let rx = clamp_vel(smul_div(bx, cos_a, 1000) - smul_div(by, sin_a, 1000));
            let ry = clamp_vel(smul_div(bx, sin_a, 1000) + smul_div(by, cos_a, 1000));
            let vx0 = clamp_vel(smul_div(rx, self.particle_speed / 1000, 1000));
            let vy0 = clamp_vel(smul_div(ry, self.particle_speed / 1000, 1000));
            // Per-particle speed and lifetime variation.
            let rand_factor: i64 = 500 + ((i as i64) * 713) % 500;
            let vx = clamp_vel(smul_div(vx0, rand_factor, 1000));
            let vy = clamp_vel(smul_div(vy0, rand_factor, 1000));
            let size = smul_div(self.particle_size, rand_factor, 1000);
            proof {
                assert((self.particle_lifetime_ms as int) * (rand_factor as int)
                    <= 1_000_000_000_000) by (nonlinear_arith)
                    requires
                        0 <= self.particle_lifetime_ms as int <= 1_000_000_000,
                        0 <= rand_factor as int <= 1000,
                ;
            }
            let life = (self.particle_lifetime_ms * (rand_factor as u64)) / 1000;
            self.particles.push(
                Particle {
                    x: cx,
                    y: cy,
                    vx,
                    vy,
                    size: if size >= 0 {
                        if size > 1_000_000_000 {
                            1_000_000_000
                        } else {
                            size
                        }
                    } else {
                        0
                    },
                    color: self.color,
                    birth_ms: now_ms,
                    lifetime_ms: if life > self.particle_lifetime_ms {
                        self.particle_lifetime_ms
                    } else {
                        life
                    },
                    initial_size: if size >= 0 {
                        if size > 1_000_000_000 {
                            1_000_000_000
                        } else {
                            size
                        }
                    } else {
                        0
                    },
                },
            );
            i = i + 1;
        }
    }

    /// Spawn the pixiedust fan: `particle_count` particles scattered
    /// around the cursor center in a golden-angle spiral at varied
    /// speeds.
    fn spawn_pixiedust_particles(&mut self, now_ms: u64)
        requires
            old(self).wf(),
            old(self).particles@.len() + old(self).particle_count <= usize::MAX,
        ensures
            final (self).wf(),
            final (self).particles@.len() == old(self).particles@.len() + old(
                self,
            ).particle_count,
            forall|i: int|
                old(self).particles@.len() <= i < final (self).particles@.len()
                    ==> (#[trigger] final (self).particles@[i]).birth_ms == now_ms
                    && final (self).particles@[i].lifetime_ms <= old(self).particle_lifetime_ms,
            final (self).rings@ == old(self).rings@,
            final (self).trail@ == old(self).trail@,
            CursorAnimator::same_core(*old(self), *final (self)),
    {
        let (cx, cy) = self.current_center();
        let count = self.particle_count;
        let mut i: u32 = 0;
        while i < count
            invariant
                self.wf(),
                CursorAnimator::same_core(*old(self), *self),
                count == old(self).particle_count,
                1 <= count <= 100,
                i <= count,
                old(self).particles@.len() + count <= usize::MAX,
                self.particles@.len() == old(self).particles@.len() + i,
                forall|j: int|
                    old(self).particles@.len() <= j < self.particles@.len()
                        ==> (#[trigger] self.particles@[j]).birth_ms == now_ms
                        && self.particles@[j].lifetime_ms <= old(self).particle_lifetime_ms,
                self.rings@ == old(self).rings@,
                self.trail@ == old(self).trail@,
                self.mode == old(self).mode,
                self.animating == old(self).animating,
                self.target_x == old(self).target_x,
                self.current_x == old(self).current_x,
                self.particle_lifetime_ms == old(self).particle_lifetime_ms,
                self.particle_speed == old(self).particle_speed,
                self.particle_size == old(self).particle_size,
                self.color == old(self).color,
                -POS_MAX <= cx <= POS_MAX,
                -POS_MAX <= cy <= POS_MAX,
            decreases count - i,
        {
            // Golden-angle spiral: successive directions 2.39996 rad
            // apart, folded into the circle, in milli-radians.
            let angle: i64 = ((i as i64) * 2400) % 6283;
            // Quadrant-folded small-angle sine and cosine, per-mille.
            let (cos_a, sin_a) = approx_cos_sin(angle);
            let speed_scale: i64 = 300 + ((i as i64) * 977) % 700;
            let sp = clamp_vel(smul_div(self.particle_speed / 1000, speed_scale, 1));
            let vx = clamp_vel(smul_div(sp, cos_a, 1000));
            let vy = clamp_vel(smul_div(sp, sin_a, 1000));
            let size = (self.particle_size / 10) * 7 / 100;
            self.particles.push(
                Particle {
                    x: cx,
                    y: cy,
                    vx,
                    vy,
                    size: if size >= 0 {
                        size
                    } else {
                        0
                    },
                    color: Rgba {
                        r: self.color.r,
                        g: self.color.g,
                        b: self.color.b,
                        a: smul_div(clamp_vel(self.color.a), 8, 10),
                    },
                    birth_ms: now_ms,
                    lifetime_ms: self.particle_lifetime_ms,
                    initial_size: if size >= 0 {
                        size
                    } else {
                        0
                    },
                },
            );
            i = i + 1;
        }
    }

    /// Spawn the single shockwave ring at the target center.
    fn spawn_sonicboom(&mut self, now_ms: u64)
        requires
            old(self).wf(),
            old(self).rings@.len() + 1 <= usize::MAX,
        ensures
            final (self).wf(),
            final (self).rings@.len() == old(self).rings@.len() + 1,
            final (self).rings@.last().birth_ms == now_ms,
            final (self).rings@.last().lifetime_ms == 300,
            final (self).particles@ == old(self).particles@,
            final (self).trail@ == old(self).trail@,
            CursorAnimator::same_core(*old(self), *final (self)),
    {
        let tx = clamp_pos_exec(self.target_x + self.target_width / 2 / 1000 * 1000);
        let ty = clamp_pos_exec(self.target_y + self.target_height / 2 / 1000 * 1000);
        self.rings.push(
            Ring {
                x: tx,
                y: ty,
                radius: 5000,
                speed: 300_000,
                color: self.color,
                birth_ms: now_ms,
                lifetime_ms: 300,
                thickness: 3000,
            },
        );
    }

    /// Spawn the three nested ripple rings at the target center, each
    /// a little larger, slower and longer-lived than the last.
    fn spawn_ripple(&mut self, now_ms: u64)
        requires
            old(self).wf(),
            old(self).rings@.len() + 3 <= usize::MAX,
        ensures
            final (self).wf(),
            final (self).rings@.len() == old(self).rings@.len() + 3,
            final (self).particles@ == old(self).particles@,
            final (self).trail@ == old(self).trail@,
            CursorAnimator::same_core(*old(self), *final (self)),
    {
        let tx = clamp_pos_exec(self.target_x + self.target_width / 2 / 1000 * 1000);
        let ty = clamp_pos_exec(self.target_y + self.target_height / 2 / 1000 * 1000);
        let mut k: u64 = 0;
        while k < 3
            invariant
                self.wf(),
                CursorAnimator::same_core(*old(self), *self),
                k <= 3,
                old(self).rings@.len() + 3 <= usize::MAX,
                self.rings@.len() == old(self).rings@.len() + k,
                self.particles@ == old(self).particles@,
                self.trail@ == old(self).trail@,
                self.mode == old(self).mode,
                self.animating == old(self).animating,
                self.target_x == old(self).target_x,
                self.current_x == old(self).current_x,
                self.color == old(self).color,
                -POS_MAX <= tx <= POS_MAX,
                -POS_MAX <= ty <= POS_MAX,
            decreases 3 - k,
        {
            self.rings.push(
                Ring {
                    x: tx,
                    y: ty,
                    radius: 2000 + (k as i64) * 8000,
                    speed: 150_000 - (k as i64) * 20_000,
                    color: self.color,
                    birth_ms: now_ms,
                    lifetime_ms: 400 + k * 50,
                    thickness: 2000,
                },
            );
            k = k + 1;
        }
    }
}

/// Sine of an angle in milli-radians over a signed half turn, in
/// per-mille, by the symmetric parabola `h (pi - h)` scaled to peak at
/// one.
fn sin_mr(h: i64) -> (r: i64)
    requires
        -3142 <= h <= 3142,
    ensures
        -1001 <= r <= 1001,
{
    if h >= 0 {
        proof {
            assert(0 <= h * (3142 - h) && h * (3142 - h) <= 2_469_467) by (nonlinear_arith)
                requires
                    0 <= h as int <= 3142,
            ;
            crate::transition::lemma_div_bounded((h as int) * (3142 - h as int), 2467, 1001);
        }
        (h * (3142 - h)) / 2467
    } else {
        let m = -h;
        proof {
            assert(0 <= m * (3142 - m) && m * (3142 - m) <= 2_469_467) by (nonlinear_arith)
                requires
                    0 <= m as int <= 3142,
            ;
            crate::transition::lemma_div_bounded((m as int) * (3142 - m as int), 2467, 1001);
        }
        -((m * (3142 - m)) / 2467)
    }
}

/// Approximate cosine and sine of an angle in milli-radians within one
/// turn, in per-mille.
fn approx_cos_sin(angle: i64) -> (r: (i64, i64))
    requires
        0 <= angle <= 6283,
    ensures
        -1100 <= r.0 <= 1100,
        -1100 <= r.1 <= 1100,
{
    // Fold into a signed half turn.
    let h: i64 = if angle <= 3141 {
        angle
    } else {
        angle - 6283
    };
    // The cosine is the sine a quarter turn ahead.
    let hc0 = h + 1571;
    let hc = if hc0 > 3142 {
        hc0 - 6283
    } else {
        hc0
    };
    (sin_mr(hc), sin_mr(h))
}

/// Scale a signed value by a signed per-mille factor: `a * b / d`,
/// dividing the magnitudes and restoring the sign.
fn smul_div(a: i64, b: i64, d: i64) -> (r: i64)
    requires
        -4_000_000_000 <= a <= 4_000_000_000,
        -2_000_000 <= b <= 2_000_000,
        1 <= d,
    ensures
        -8_000_000_000_000_000 <= r <= 8_000_000_000_000_000,
{
    let ma = if a >= 0 {
        a
    } else {
        -a
    };
    let mb = if b >= 0 {
        b
    } else {
        -b
    };
    proof {
        assert(0 <= (ma as int) * (mb as int) <= 8_000_000_000_000_000) by (nonlinear_arith)
            requires
                0 <= ma as int <= 4_000_000_000,
                0 <= mb as int <= 2_000_000,
        ;
        crate::transition::lemma_div_bounded(
            (ma as int) * (mb as int),
            d as int,
            8_000_000_000_000_000,
        );
    }
    let mag = (ma * mb) / d;
    if (a >= 0) == (b >= 0) {
        mag
    } else {
        -mag
    }
}

impl CursorAnimator {
    /// Set the cursor target (called when the host moves the cursor).
    /// A move of at least half a pixel in either axis resets the blink
    /// phase, marks the cursor animating, and spawns the mode's
    /// effects.
    pub fn set_target(
        &mut self,
        x: i64,
        y: i64,
        width: i64,
        height: i64,
        style: u8,
        color: Rgba,
        now_ms: u64,
    )
        requires
            old(self).wf(),
            -POS_MAX <= x <= POS_MAX,
            -POS_MAX <= y <= POS_MAX,
            -POS_MAX <= width <= POS_MAX,
            -POS_MAX <= height <= POS_MAX,
            old(self).particles@.len() + 100 <= usize::MAX,
            old(self).rings@.len() + 3 <= usize::MAX,
        ensures
            final (self).wf(),
            final (self).target_x == x,
            final (self).target_y == y,
            final (self).target_width == width,
            final (self).target_height == height,
            final (self).style == style,
            final (self).color == color,
            final (self).last_target_x == old(self).target_x,
            final (self).last_target_y == old(self).target_y,
            ({
                let moved = old(self).target_x - x > 500 || x - old(self).target_x > 500 || old(
                    self,
                ).target_y - y > 500 || y - old(self).target_y > 500;
                let dx = x - old(self).target_x;
                let dy = y - old(self).target_y;
                let d2 = dx * dx + dy * dy;
                &&& (!moved ==> final (self).animating == old(self).animating && final (self).particles@ == old(self).particles@ && final (self).rings@ == old(self).rings@ && final (
                self).trail@ == old(self).trail@)
                &&& (moved ==> final (self).animating && final (self).blink_on)
                &&& (moved && d2 < 1_000_000 ==> final (self).particles@ == old(self).particles@
                    && final (self).rings@ == old(self).rings@ && final (self).trail@ == old(
                    self,
                ).trail@)
                &&& (moved && d2 >= 1_000_000 ==> match old(self).mode {
                    CursorAnimationMode::Railgun => final (self).particles@.len() == old(
                        self,
                    ).particles@.len() + old(self).particle_count && final (self).rings@ == old(
                        self,
                    ).rings@ && final (self).trail@ == old(self).trail@,
                    CursorAnimationMode::Pixiedust => final (self).particles@.len() == old(
                        self,
                    ).particles@.len() + old(self).particle_count && final (self).rings@ == old(
                        self,
                    ).rings@ && final (self).trail@ == old(self).trail@,
                    CursorAnimationMode::Sonicboom => final (self).rings@.len() == old(
                        self,
                    ).rings@.len() + 1 && final (self).particles@ == old(self).particles@
                        && final (self).trail@ == old(self).trail@,
                    CursorAnimationMode::Ripple => final (self).rings@.len() == old(
                        self,
                    ).rings@.len() + 3 && final (self).particles@ == old(self).particles@
                        && final (self).trail@ == old(self).trail@,
                    CursorAnimationMode::Torpedo => final (self).trail@.len() >= 1 && final (
                    self).particles@ == old(self).particles@ && final (self).rings@ == old(
                        self,
                    ).rings@,
                    _ => final (self).particles@ == old(self).particles@ && final (self).rings@
                        == old(self).rings@ && final (self).trail@ == old(self).trail@,
                })
                &&& final (self).mode == old(self).mode
            }),
    {
        let moved = self.target_x - x > 500 || x - self.target_x > 500 || self.target_y - y > 500
            || y - self.target_y > 500;
        self.last_target_x = self.target_x;
        self.last_target_y = self.target_y;
        self.target_x = x;
        self.target_y = y;
        self.target_width = width;
        self.target_height = height;
        self.style = style;
        self.color = color;
        if moved {
            self.on_cursor_move(now_ms);
        }
    }

    /// React to a cursor move: reset the blink, mark the cursor
    /// animating, and spawn the effects of the current mode.
    fn on_cursor_move(&mut self, now_ms: u64)
        requires
            old(self).wf(),
            old(self).particles@.len() + 100 <= usize::MAX,
            old(self).rings@.len() + 3 <= usize::MAX,
        ensures
            final (self).wf(),
            final (self).animating,
            final (self).blink_on,
            final (self).target_x == old(self).target_x,
            final (self).target_y == old(self).target_y,
            final (self).target_width == old(self).target_width,
            final (self).target_height == old(self).target_height,
            final (self).style == old(self).style,
            final (self).color == old(self).color,
            final (self).last_target_x == old(self).last_target_x,
            final (self).last_target_y == old(self).last_target_y,
            final (self).mode == old(self).mode,
            ({
                let dx = old(self).target_x - old(self).last_target_x;
                let dy = old(self).target_y - old(self).last_target_y;
                let d2 = dx * dx + dy * dy;
                &&& (d2 < 1_000_000 ==> final (self).particles@ == old(self).particles@ && final (
                self).rings@ == old(self).rings@ && final (self).trail@ == old(self).trail@)
                &&& (d2 >= 1_000_000 ==> match old(self).mode {
                    CursorAnimationMode::Railgun => final (self).particles@.len() == old(
                        self,
                    ).particles@.len() + old(self).particle_count && final (self).rings@ == old(
                        self,
                    ).rings@ && final (self).trail@ == old(self).trail@,
                    CursorAnimationMode::Pixiedust => final (self).particles@.len() == old(
                        self,
                    ).particles@.len() + old(self).particle_count && final (self).rings@ == old(
                        self,
                    ).rings@ && final (self).trail@ == old(self).trail@,
                    CursorAnimationMode::Sonicboom => final (self).rings@.len() == old(
                        self,
                    ).rings@.len() + 1 && final (self).particles@ == old(self).particles@
                        && final (self).trail@ == old(self).trail@,
                    CursorAnimationMode::Ripple => final (self).rings@.len() == old(
                        self,
                    ).rings@.len() + 3 && final (self).particles@ == old(self).particles@
                        && final (self).trail@ == old(self).trail@,
                    CursorAnimationMode::Torpedo => final (self).trail@.len() >= 1 && final (
                    self).particles@ == old(self).particles@ && final (self).rings@ == old(
                        self,
                    ).rings@,
                    _ => final (self).particles@ == old(self).particles@ && final (self).rings@
                        == old(self).rings@ && final (self).trail@ == old(self).trail@,
                })
            }),
    {
        self.animating = true;
        self.blink_on = true;
        self.last_blink_toggle_ms = now_ms;
        let dx = self.target_x - self.last_target_x;
        let dy = self.target_y - self.last_target_y;
        proof {
            assert(0 <= (dx as int) * (dx as int) <= 4_000_000_000_000_000_000 && 0 <= (dy as int)
                * (dy as int) <= 4_000_000_000_000_000_000) by (nonlinear_arith)
                requires
                    -2_000_000_000 <= dx as int <= 2_000_000_000,
                    -2_000_000_000 <= dy as int <= 2_000_000_000,
            ;
        }
        let d2: u64 = ((dx * dx) as u64) + ((dy * dy) as u64);
        if d2 < 1_000_000 {
            // Less than one pixel of travel: no effects.
            return ;
        }
        let dist64 = isqrt(d2);
        let dist: i64 = if dist64 < 1 {
            1
        } else if dist64 > 4_000_000_000 {
            4_000_000_000
        } else {
            dist64 as i64
        };
        match self.mode {
            CursorAnimationMode::Instant => {},
            CursorAnimationMode::Smooth => {},
            CursorAnimationMode::Railgun => {
                self.spawn_railgun_particles(dx, dy, dist, now_ms);
            },
            CursorAnimationMode::Torpedo => {
                self.add_trail_point(now_ms);
            },
            CursorAnimationMode::Pixiedust => {
                self.spawn_pixiedust_particles(now_ms);
            },
            CursorAnimationMode::Sonicboom => {
                self.spawn_sonicboom(now_ms);
            },
            CursorAnimationMode::Ripple => {
                self.spawn_ripple(now_ms);
            },
            CursorAnimationMode::Wireframe => {},
        }
    }

    /// Advance the whole animator by `dt_ms`, with `now_ms` as the wall
    /// clock: toggle the blink when its interval has passed, move the
    /// cursor toward its target (snapping onto it within half a pixel),
    /// move and expire particles and rings, age out trail points, and
    /// in torpedo mode lay a new trail point while moving. Returns
    /// whether anything is still animating.
    pub fn update_with_dt(&mut self, dt_ms: u64, now_ms: u64) -> (active: bool)
        requires
            old(self).wf(),
            dt_ms <= DT_MAX_MS,
        ensures
            final (self).wf(),
            final (self).mode == old(self).mode,
            final (self).target_x == old(self).target_x,
            final (self).target_y == old(self).target_y,
            final (self).last_update_ms == old(self).last_update_ms,
            // Instant mode jumps straight onto the target.
            old(self).mode == CursorAnimationMode::Instant ==> {
                &&& final (self).current_x == old(self).target_x
                &&& final (self).current_y == old(self).target_y
                &&& final (self).current_width == old(self).target_width
                &&& final (self).current_height == old(self).target_height
                &&& !final (self).animating
            },
            // Other modes step toward the target and snap within half
            // a pixel.
            old(self).mode != CursorAnimationMode::Instant ==> ({
                let f = spec_smooth_factor(old(self).animation_speed as int, dt_ms as int);
                let sx = spec_step_toward(old(self).current_x as int, old(self).target_x as int, f);
                let sy = spec_step_toward(old(self).current_y as int, old(self).target_y as int, f);
                let close = -500 < old(self).target_x - sx < 500 && -500 < old(self).target_y - sy
                    < 500;
                &&& (close ==> final (self).current_x == old(self).target_x && final (self).current_y == old(self).target_y && !final (self).animating)
                &&& (!close ==> final (self).current_x == sx && final (self).current_y == sy
                    && final (self).animating == old(self).animating)
            }),
            // Everything that survives is still alive now.
            forall|i: int|
                0 <= i < final (self).particles@.len() ==> (now_ms as int) < (#[trigger] final (self).particles@[i]).birth_ms + final (self).particles@[i].lifetime_ms,
            forall|i: int|
                0 <= i < final (self).rings@.len() ==> (now_ms as int) < (#[trigger] final (self).rings@[i]).birth_ms + final (self).rings@[i].lifetime_ms,
            // The lists step exactly: each member advanced, the dead
            // dropped, order kept.
            final (self).particles@ == spec_particles_step(
                old(self).particles@,
                dt_ms as int,
                now_ms as int,
            ),
            final (self).rings@ == spec_rings_step(old(self).rings@, dt_ms as int, now_ms as int),
            (old(self).mode != CursorAnimationMode::Torpedo || !final (self).animating)
                ==> final (self).trail@ == spec_trail_kept(old(self).trail@, now_ms as int),
            (old(self).mode == CursorAnimationMode::Torpedo && final (self).animating) ==> ({
                let kept = spec_trail_kept(old(self).trail@, now_ms as int);
                &&& final (self).trail@.len() >= 1
                &&& final (self).trail@.last().time_ms == now_ms
                &&& exists|k: int|
                    0 <= k <= kept.len() && final (self).trail@ == kept.push(
                        final (self).trail@.last(),
                    ).skip(k)
                &&& (old(self).max_trail_length >= 1 ==> final (self).trail@.len() <= old(
                    self,
                ).max_trail_length)
            }),
            final (self).blink_on == (if now_ms >= old(self).last_blink_toggle_ms && now_ms - old(
                self,
            ).last_blink_toggle_ms >= old(self).blink_interval_ms {
                !old(self).blink_on
            } else {
                old(self).blink_on
            }),
            active == (final (self).animating || final (self).particles@.len() > 0 || final (self).rings@.len() > 0 || final (self).trail@.len() > 0),
    {
        // Blink.
        if now_ms >= self.last_blink_toggle_ms && now_ms - self.last_blink_toggle_ms
            >= self.blink_interval_ms {
            self.blink_on = !self.blink_on;
            self.last_blink_toggle_ms = now_ms;
        }
        // Smooth the cursor rectangle toward its target.
        if self.mode != CursorAnimationMode::Instant {
            let f = smooth_factor(self.animation_speed, dt_ms);
            let sx = step_toward(self.current_x, self.target_x, f);
            let sy = step_toward(self.current_y, self.target_y, f);
            let sw = step_toward(self.current_width, self.target_width, f);
            let sh = step_toward(self.current_height, self.target_height, f);
            self.current_x = sx;
            self.current_y = sy;
            self.current_width = sw;
            self.current_height = sh;
            let dx = self.target_x - sx;
            let dy = self.target_y - sy;
            if -500 < dx && dx < 500 && -500 < dy && dy < 500 {
                self.current_x = self.target_x;
                self.current_y = self.target_y;
                self.animating = false;
            }
        } else {
            self.current_x = self.target_x;
            self.current_y = self.target_y;
            self.current_width = self.target_width;
            self.current_height = self.target_height;
            self.animating = false;
        }
        // Move the particles and drop the dead ones.
        let ghost snap1 = *self;
        let mut kept: Vec<Particle> = Vec::new();
        let n = self.particles.len();
        let mut i: usize = 0;
        while i < n
            invariant
                self.wf(),
                *self == snap1,
                i <= n,
                n == self.particles@.len(),
                forall|j: int| 0 <= j < kept@.len() ==> (#[trigger] kept@[j]).wf(),
                forall|j: int|
                    0 <= j < kept@.len() ==> (now_ms as int) < (#[trigger] kept@[j]).birth_ms
                        + kept@[j].lifetime_ms,
                kept@.len() <= i,
                kept@ == spec_particles_step(
                    snap1.particles@.take(i as int),
                    dt_ms as int,
                    now_ms as int,
                ),
                dt_ms <= DT_MAX_MS,
            decreases n - i,
        {
            let mut p = self.particles[i].clone();
            p.update(dt_ms);
            proof {
                assert(p == spec_particle_stepped(snap1.particles@[i as int], dt_ms as int));
                assert(snap1.particles@.take(i as int + 1).drop_last() =~= snap1.particles@.take(
                    i as int,
                ));
                assert(snap1.particles@.take(i as int + 1).last() == snap1.particles@[i as int]);
            }
            if p.is_alive(now_ms) {
                kept.push(p);
            }
            i = i + 1;
        }
        proof {
            assert(snap1.particles@.take(n as int) =~= snap1.particles@);
        }
        self.particles = kept;
        // Expand the rings and drop the dead ones.
        let ghost snap2 = *self;
        let mut kept_rings: Vec<Ring> = Vec::new();
        let rn = self.rings.len();
        let mut k: usize = 0;
        while k < rn
            invariant
                self.wf(),
                *self == snap2,
                k <= rn,
                rn == self.rings@.len(),
                forall|j: int| 0 <= j < kept_rings@.len() ==> (#[trigger] kept_rings@[j]).wf(),
                forall|j: int|
                    0 <= j < kept_rings@.len() ==> (now_ms as int) < (#[trigger] kept_rings@[j]).birth_ms
                        + kept_rings@[j].lifetime_ms,
                kept_rings@.len() <= k,
                kept_rings@ == spec_rings_step(
                    snap2.rings@.take(k as int),
                    dt_ms as int,
                    now_ms as int,
                ),
                dt_ms <= DT_MAX_MS,
            decreases rn - k,
        {
            let mut r = self.rings[k].clone();
            r.update(dt_ms);
            proof {
                assert(r == spec_ring_stepped(snap2.rings@[k as int], dt_ms as int));
                assert(snap2.rings@.take(k as int + 1).drop_last() =~= snap2.rings@.take(k as int));
                assert(snap2.rings@.take(k as int + 1).last() == snap2.rings@[k as int]);
            }
            if r.is_alive(now_ms) {
                kept_rings.push(r);
            }
            k = k + 1;
        }
        proof {
            assert(snap2.rings@.take(rn as int) =~= snap2.rings@);
        }
        self.rings = kept_rings;
        // Age out trail points older than 200 ms.
        let ghost snap3 = *self;
        let mut kept_trail: Vec<TrailPoint> = Vec::new();
        let tn = self.trail.len();
        let mut t: usize = 0;
        while t < tn
            invariant
                self.wf(),
                *self == snap3,
                t <= tn,
                tn == self.trail@.len(),
                kept_trail@.len() <= t,
                kept_trail@ == spec_trail_kept(snap3.trail@.take(t as int), now_ms as int),
            decreases tn - t,
        {
            let tp = self.trail[t];
            proof {
                assert(snap3.trail@.take(t as int + 1).drop_last() =~= snap3.trail@.take(t as int));
                assert(snap3.trail@.take(t as int + 1).last() == snap3.trail@[t as int]);
            }
            if now_ms < tp.time_ms || now_ms - tp.time_ms < 200 {
                kept_trail.push(tp);
            }
            t = t + 1;
        }
        proof {
            assert(snap3.trail@.take(tn as int) =~= snap3.trail@);
        }
        self.trail = kept_trail;
        // Torpedo mode lays a trail while the cursor is moving.
        if self.mode == CursorAnimationMode::Torpedo && self.animating {
            self.add_trail_point(now_ms);
        }
        self.animating || self.particles.len() > 0 || self.rings.len() > 0 || self.trail.len() > 0
    }

    /// Advance the animator from its own wall clock: the time since the
    /// last update becomes the step.
    pub fn update(&mut self, now_ms: u64) -> (active: bool)
        requires
            old(self).wf(),
        ensures
            final (self).wf(),
            final (self).last_update_ms == now_ms,
            final (self).mode == old(self).mode,
            final (self).target_x == old(self).target_x,
            final (self).target_y == old(self).target_y,
            // The step is the time since the last update, clamped; the
            // effects are exactly those of that step.
            ({
                let dt = spec_auto_dt(old(self).last_update_ms as int, now_ms as int);
                &&& (old(self).mode == CursorAnimationMode::Instant ==> final (self).current_x
                    == old(self).target_x && final (self).current_y == old(self).target_y
                    && !final (self).animating)
                &&& (old(self).mode != CursorAnimationMode::Instant ==> ({
                    let f = spec_smooth_factor(old(self).animation_speed as int, dt);
                    let sx = spec_step_toward(
                        old(self).current_x as int,
                        old(self).target_x as int,
                        f,
                    );
                    let sy = spec_step_toward(
                        old(self).current_y as int,
                        old(self).target_y as int,
                        f,
                    );
                    let close = -500 < old(self).target_x - sx < 500 && -500 < old(self).target_y
                        - sy < 500;
                    &&& (close ==> final (self).current_x == old(self).target_x && final (self).current_y == old(self).target_y && !final (self).animating)
                    &&& (!close ==> final (self).current_x == sx && final (self).current_y == sy
                        && final (self).animating == old(self).animating)
                }))
                &&& final (self).particles@ == spec_particles_step(
                    old(self).particles@,
                    dt,
                    now_ms as int,
                )
                &&& final (self).rings@ == spec_rings_step(old(self).rings@, dt, now_ms as int)
                &&& ((old(self).mode != CursorAnimationMode::Torpedo || !final (self).animating)
                    ==> final (self).trail@ == spec_trail_kept(old(self).trail@, now_ms as int))
            }),
            active == (final (self).animating || final (self).particles@.len() > 0 || final (self).rings@.len() > 0 || final (self).trail@.len() > 0),
    {
        let dt: u64 = if now_ms >= self.last_update_ms {
            let d = now_ms - self.last_update_ms;
            if d > DT_MAX_MS {
                DT_MAX_MS
            } else {
                d
            }
        } else {
            0
        };
        self.last_update_ms = now_ms;
        self.update_with_dt(dt, now_ms)
    }
}

} // verus!
