//! Tests of the cursor animator, in milli-pixel fixed point.

use neomacs_display::cursor::{age_permille, fade_opacity, CursorAnimationMode, CursorAnimator,
    Particle, Rgba, Ring};

#[test]
fn mode_from_str_known_variants() {
    assert_eq!(CursorAnimationMode::from_str("none"), CursorAnimationMode::Instant);
    assert_eq!(CursorAnimationMode::from_str("smooth"), CursorAnimationMode::Smooth);
    assert_eq!(CursorAnimationMode::from_str("railgun"), CursorAnimationMode::Railgun);
    assert_eq!(CursorAnimationMode::from_str("torpedo"), CursorAnimationMode::Torpedo);
    assert_eq!(CursorAnimationMode::from_str("pixiedust"), CursorAnimationMode::Pixiedust);
    assert_eq!(CursorAnimationMode::from_str("sonicboom"), CursorAnimationMode::Sonicboom);
    assert_eq!(CursorAnimationMode::from_str("ripple"), CursorAnimationMode::Ripple);
    assert_eq!(CursorAnimationMode::from_str("wireframe"), CursorAnimationMode::Wireframe);
}

#[test]
fn mode_from_str_case_insensitive() {
    assert_eq!(CursorAnimationMode::from_str("RAILGUN"), CursorAnimationMode::Railgun);
    assert_eq!(CursorAnimationMode::from_str("Torpedo"), CursorAnimationMode::Torpedo);
    assert_eq!(CursorAnimationMode::from_str("NONE"), CursorAnimationMode::Instant);
}

#[test]
fn mode_from_str_unknown_falls_back_to_smooth() {
    assert_eq!(CursorAnimationMode::from_str("unknown"), CursorAnimationMode::Smooth);
    assert_eq!(CursorAnimationMode::from_str(""), CursorAnimationMode::Smooth);
    assert_eq!(CursorAnimationMode::from_str("foobar"), CursorAnimationMode::Smooth);
}

#[test]
fn mode_default_is_smooth() {
    assert_eq!(CursorAnimationMode::default(), CursorAnimationMode::Smooth);
}

fn make_particle(lifetime_ms: u64) -> Particle {
    Particle {
        x: 10_000,
        y: 20_000,
        vx: 100_000,
        vy: -50_000,
        size: 4000,
        color: Rgba::white(),
        birth_ms: 1000,
        lifetime_ms,
        initial_size: 4000,
    }
}

#[test]
fn particle_is_alive_before_lifetime() {
    let p = make_particle(500);
    assert!(p.is_alive(1100));
}

#[test]
fn particle_is_dead_after_lifetime() {
    let p = make_particle(10);
    assert!(!p.is_alive(1015));
}

#[test]
fn particle_age_fraction_starts_near_zero() {
    let p = make_particle(1000);
    assert_eq!(p.age_fraction(1000), 0);
}

#[test]
fn particle_age_fraction_clamped_to_one() {
    let p = make_particle(10);
    assert_eq!(p.age_fraction(1020), 1000);
}

#[test]
fn particle_update_moves_position() {
    let mut p = make_particle(500);
    let old_x = p.x;
    let old_y = p.y;
    p.update(16);
    assert!(p.x > old_x, "x should increase with positive vx");
    assert!(p.y < old_y, "y should decrease with negative vy");
}

#[test]
fn particle_update_applies_drag() {
    let mut p = make_particle(500);
    let old_vx = p.vx;
    p.update(16);
    assert!(p.vx.abs() < old_vx.abs(), "velocity should decrease under drag");
}

#[test]
fn particle_opacity_starts_at_one() {
    let p = make_particle(1000);
    assert_eq!(p.opacity(1000), 1000);
}

#[test]
fn particle_opacity_reaches_zero_at_lifetime() {
    let p = make_particle(10);
    // Positive strictly before the lifetime, zero exactly from it on.
    assert!(p.opacity(1009) > 0);
    assert_eq!(p.opacity(1010), 0);
    assert_eq!(p.opacity(1015), 0);
}

#[test]
fn particle_current_size_shrinks_over_time() {
    let p = make_particle(10);
    let initial = p.current_size(1000);
    let final_size = p.current_size(1015);
    assert!(final_size < initial, "size should shrink; initial={}, final={}", initial, final_size);
    // At full age the size is 30 percent of the initial size.
    assert_eq!(final_size, 4000 * 300 / 1000);
}

#[test]
fn age_and_fade_fixed_points() {
    assert_eq!(age_permille(0, 400, 200), 500);
    assert_eq!(fade_opacity(0), 1000);
    assert_eq!(fade_opacity(500), 250);
    assert_eq!(fade_opacity(999), 1);
    assert_eq!(fade_opacity(1000), 0);
}

fn make_ring(lifetime_ms: u64) -> Ring {
    Ring {
        x: 50_000,
        y: 60_000,
        radius: 5000,
        speed: 300_000,
        color: Rgba { r: 1000, g: 0, b: 0, a: 1000 },
        birth_ms: 1000,
        lifetime_ms,
        thickness: 3000,
    }
}

#[test]
fn ring_is_alive_and_dies() {
    let r = make_ring(10);
    assert!(r.is_alive(1005));
    assert!(!r.is_alive(1015));
}

#[test]
fn ring_update_expands_radius() {
    let mut r = make_ring(500);
    let old_radius = r.radius;
    r.update(16);
    assert!(r.radius > old_radius, "ring should expand");
}

#[test]
fn ring_opacity_fades() {
    let r = make_ring(10);
    assert_eq!(r.opacity(1000), 1000);
    assert_eq!(r.opacity(1015), 0);
}

#[test]
fn new_animator_initial_state() {
    let a = CursorAnimator::new(0);
    assert_eq!(a.mode, CursorAnimationMode::Smooth);
    assert_eq!(a.target_x, 0);
    assert_eq!(a.target_y, 0);
    assert_eq!(a.current_x, 0);
    assert_eq!(a.current_y, 0);
    assert_eq!(a.target_width, 8000);
    assert_eq!(a.target_height, 16_000);
    assert_eq!(a.current_width, 8000);
    assert_eq!(a.current_height, 16_000);
    assert_eq!(a.color, Rgba::white());
    assert_eq!(a.style, 0);
    assert!(a.visible);
    assert!(!a.animating);
    assert!(a.particles.is_empty());
    assert!(a.rings.is_empty());
    assert!(a.trail.is_empty());
    assert!(a.is_visible());
    assert!(!a.is_animating());
}

#[test]
fn set_target_updates_target_fields() {
    let mut a = CursorAnimator::new(0);
    a.set_target(100_000, 200_000, 10_000, 20_000, 1, Rgba { r: 500, g: 500, b: 500, a: 1000 }, 0);
    assert_eq!(a.target_x, 100_000);
    assert_eq!(a.target_y, 200_000);
    assert_eq!(a.target_width, 10_000);
    assert_eq!(a.target_height, 20_000);
    assert_eq!(a.style, 1);
    assert_eq!(a.color, Rgba { r: 500, g: 500, b: 500, a: 1000 });
}

#[test]
fn set_target_starts_animation_on_move() {
    let mut a = CursorAnimator::new(0);
    assert!(!a.animating);
    a.set_target(100_000, 200_000, 10_000, 20_000, 0, Rgba::white(), 0);
    assert!(a.animating, "moving cursor should set animating");
}

#[test]
fn set_target_no_animation_for_tiny_move() {
    let mut a = CursorAnimator::new(0);
    // A move under half a pixel in both axes does not animate.
    a.set_target(300, 300, 8000, 16_000, 0, Rgba::white(), 0);
    assert!(!a.animating, "sub-threshold move should not animate");
}

#[test]
fn set_target_records_last_position() {
    let mut a = CursorAnimator::new(0);
    a.set_target(50_000, 60_000, 8000, 16_000, 0, Rgba::white(), 0);
    assert_eq!(a.last_target_x, 0);
    assert_eq!(a.last_target_y, 0);
    a.set_target(100_000, 120_000, 8000, 16_000, 0, Rgba::white(), 0);
    assert_eq!(a.last_target_x, 50_000);
    assert_eq!(a.last_target_y, 60_000);
}

#[test]
fn update_with_dt_moves_toward_target() {
    let mut a = CursorAnimator::new(0);
    a.set_target(200_000, 300_000, 8000, 16_000, 0, Rgba::white(), 0);
    for _ in 0..10 {
        a.update_with_dt(16, 0);
    }
    assert!(a.current_x > 0, "the cursor should move toward its target");
    assert!(a.current_y > 0, "the cursor should move toward its target");
    assert!(a.current_x <= 200_000, "the cursor should not overshoot");
    assert!(a.current_y <= 300_000, "the cursor should not overshoot");
}

#[test]
fn update_with_dt_converges_to_target() {
    let mut a = CursorAnimator::new(0);
    a.set_target(100_000, 100_000, 8000, 16_000, 0, Rgba::white(), 0);
    for _ in 0..600 {
        a.update_with_dt(16, 0);
    }
    assert_eq!(a.current_x, a.target_x);
    assert_eq!(a.current_y, a.target_y);
    assert!(!a.animating);
}

#[test]
fn update_with_dt_snaps_when_close() {
    let mut a = CursorAnimator::new(0);
    a.target_x = 10_000;
    a.target_y = 10_000;
    a.current_x = 9800;
    a.current_y = 9800;
    a.animating = true;
    a.update_with_dt(16, 0);
    assert_eq!(a.current_x, 10_000, "should snap onto target x");
    assert_eq!(a.current_y, 10_000, "should snap onto target y");
    assert!(!a.animating);
}

#[test]
fn update_returns_false_when_idle() {
    let mut a = CursorAnimator::new(0);
    let active = a.update_with_dt(16, 0);
    assert!(!active, "nothing is happening, so the update reports idle");
}

#[test]
fn update_returns_true_while_animating() {
    let mut a = CursorAnimator::new(0);
    a.set_target(500_000, 500_000, 8000, 16_000, 0, Rgba::white(), 0);
    let active = a.update_with_dt(16, 0);
    assert!(active, "the cursor is in motion");
}

#[test]
fn mode_none_instant_movement() {
    let mut a = CursorAnimator::new(0);
    a.set_mode(CursorAnimationMode::Instant);
    a.set_target(500_000, 400_000, 12_000, 24_000, 0, Rgba::white(), 0);
    a.update_with_dt(16, 0);
    assert_eq!(a.current_x, 500_000);
    assert_eq!(a.current_y, 400_000);
    assert_eq!(a.current_width, 12_000);
    assert_eq!(a.current_height, 24_000);
    assert!(!a.animating);
}

#[test]
fn blink_toggles_after_interval() {
    let mut a = CursorAnimator::new(0);
    assert!(a.blink_on);
    assert!(a.is_visible());
    // Updating past the 530 ms blink interval toggles the phase off.
    a.update_with_dt(0, 550);
    assert!(!a.blink_on, "blink should have toggled off");
    assert!(!a.is_visible(), "the cursor hides in the off phase");
}

#[test]
fn blink_resets_on_cursor_move() {
    let mut a = CursorAnimator::new(0);
    a.update_with_dt(0, 550);
    assert!(!a.blink_on);
    a.set_target(100_000, 100_000, 8000, 16_000, 0, Rgba::white(), 600);
    assert!(a.blink_on, "blink resets to on after a cursor move");
}

#[test]
fn visibility_depends_on_visible_flag() {
    let mut a = CursorAnimator::new(0);
    assert!(a.is_visible());
    a.visible = false;
    assert!(!a.is_visible());
}

#[test]
fn set_mode_clears_particles_and_rings() {
    let mut a = CursorAnimator::new(0);
    a.set_mode(CursorAnimationMode::Railgun);
    a.set_target(100_000, 100_000, 8000, 16_000, 0, Rgba::white(), 0);
    assert!(!a.particles.is_empty(), "the railgun should spawn particles");

    a.set_mode(CursorAnimationMode::Smooth);
    assert!(a.particles.is_empty(), "a mode switch clears the particles");
    assert!(a.rings.is_empty(), "a mode switch clears the rings");
    assert!(a.trail.is_empty(), "a mode switch clears the trail");
    assert_eq!(a.mode, CursorAnimationMode::Smooth);
}

#[test]
fn set_animation_speed_clamps() {
    let mut a = CursorAnimator::new(0);
    a.set_animation_speed(0);
    assert_eq!(a.animation_speed, 1);
    a.set_animation_speed(200);
    assert_eq!(a.animation_speed, 100);
    a.set_animation_speed(50);
    assert_eq!(a.animation_speed, 50);
}

#[test]
fn set_particle_count_clamps() {
    let mut a = CursorAnimator::new(0);
    a.set_particle_count(0);
    assert_eq!(a.particle_count, 1);
    a.set_particle_count(999);
    assert_eq!(a.particle_count, 100);
    a.set_particle_count(42);
    assert_eq!(a.particle_count, 42);
}

#[test]
fn railgun_spawns_particles_on_move() {
    let mut a = CursorAnimator::new(0);
    a.set_mode(CursorAnimationMode::Railgun);
    a.set_target(200_000, 200_000, 8000, 16_000, 0, Rgba::white(), 0);
    assert_eq!(a.particles.len(), a.particle_count as usize);
}

#[test]
fn pixiedust_spawns_particles_on_move() {
    let mut a = CursorAnimator::new(0);
    a.set_mode(CursorAnimationMode::Pixiedust);
    a.set_target(200_000, 200_000, 8000, 16_000, 0, Rgba::white(), 0);
    assert_eq!(a.particles.len(), a.particle_count as usize);
}

#[test]
fn sonicboom_spawns_ring_on_move() {
    let mut a = CursorAnimator::new(0);
    a.set_mode(CursorAnimationMode::Sonicboom);
    a.set_target(200_000, 200_000, 8000, 16_000, 0, Rgba::white(), 0);
    assert_eq!(a.rings.len(), 1);
}

#[test]
fn ripple_spawns_three_rings_on_move() {
    let mut a = CursorAnimator::new(0);
    a.set_mode(CursorAnimationMode::Ripple);
    a.set_target(200_000, 200_000, 8000, 16_000, 0, Rgba::white(), 0);
    assert_eq!(a.rings.len(), 3, "the ripple spawns three nested rings");
}

#[test]
fn torpedo_adds_trail_point_on_move() {
    let mut a = CursorAnimator::new(0);
    a.set_mode(CursorAnimationMode::Torpedo);
    a.set_target(200_000, 200_000, 8000, 16_000, 0, Rgba::white(), 0);
    assert!(!a.trail.is_empty(), "the torpedo lays a trail point on a move");
}

#[test]
fn torpedo_adds_trail_points_while_animating() {
    let mut a = CursorAnimator::new(0);
    a.set_mode(CursorAnimationMode::Torpedo);
    a.set_target(500_000, 500_000, 8000, 16_000, 0, Rgba::white(), 0);
    let initial_count = a.trail.len();
    for _ in 0..5 {
        a.update_with_dt(16, 0);
    }
    assert!(a.trail.len() > initial_count, "the torpedo lays trail while the cursor moves");
}

#[test]
fn smooth_mode_no_particles_or_rings() {
    let mut a = CursorAnimator::new(0);
    a.set_mode(CursorAnimationMode::Smooth);
    a.set_target(200_000, 200_000, 8000, 16_000, 0, Rgba::white(), 0);
    assert!(a.particles.is_empty());
    assert!(a.rings.is_empty());
}

#[test]
fn wireframe_mode_no_particles_or_rings() {
    let mut a = CursorAnimator::new(0);
    a.set_mode(CursorAnimationMode::Wireframe);
    a.set_target(200_000, 200_000, 8000, 16_000, 0, Rgba::white(), 0);
    assert!(a.particles.is_empty());
    assert!(a.rings.is_empty());
}

#[test]
fn particles_expire_after_lifetime() {
    let mut a = CursorAnimator::new(0);
    a.set_mode(CursorAnimationMode::Pixiedust);
    a.particle_lifetime_ms = 10;
    a.set_target(200_000, 200_000, 8000, 16_000, 0, Rgba::white(), 0);
    assert!(!a.particles.is_empty());
    a.update_with_dt(0, 20);
    assert!(a.particles.is_empty(), "particles vanish after their lifetime");
}

#[test]
fn rings_expire_after_lifetime() {
    let mut a = CursorAnimator::new(0);
    a.set_mode(CursorAnimationMode::Sonicboom);
    a.set_target(200_000, 200_000, 8000, 16_000, 0, Rgba::white(), 0);
    assert!(!a.rings.is_empty());
    // The shockwave ring lives 300 ms.
    a.update_with_dt(0, 350);
    assert!(a.rings.is_empty(), "rings vanish after their lifetime");
}

#[test]
fn trail_capped_at_max_length() {
    let mut a = CursorAnimator::new(0);
    a.set_mode(CursorAnimationMode::Torpedo);
    for i in 0..60 {
        let x = (i as i64) * 10_000;
        a.set_target(x, 0, 8000, 16_000, 0, Rgba::white(), 0);
    }
    assert!(
        a.trail.len() <= a.max_trail_length,
        "trail length {} must not exceed {}",
        a.trail.len(),
        a.max_trail_length,
    );
}

#[test]
fn is_animating_reflects_particles() {
    let mut a = CursorAnimator::new(0);
    a.set_mode(CursorAnimationMode::Railgun);
    a.set_target(200_000, 200_000, 8000, 16_000, 0, Rgba::white(), 0);
    assert!(a.is_animating());
}

#[test]
fn is_animating_reflects_rings() {
    let mut a = CursorAnimator::new(0);
    a.set_mode(CursorAnimationMode::Sonicboom);
    a.set_target(200_000, 200_000, 8000, 16_000, 0, Rgba::white(), 0);
    assert!(a.is_animating());
}

#[test]
fn higher_speed_converges_faster() {
    let mut slow = CursorAnimator::new(0);
    slow.set_animation_speed(5);
    slow.set_target(200_000, 0, 8000, 16_000, 0, Rgba::white(), 0);

    let mut fast = CursorAnimator::new(0);
    fast.set_animation_speed(50);
    fast.set_target(200_000, 0, 8000, 16_000, 0, Rgba::white(), 0);

    for _ in 0..5 {
        slow.update_with_dt(16, 0);
        fast.update_with_dt(16, 0);
    }
    assert!(
        fast.current_x > slow.current_x,
        "the faster animator ({}) should lead the slower one ({})",
        fast.current_x,
        slow.current_x,
    );
}

#[test]
fn width_and_height_animate() {
    let mut a = CursorAnimator::new(0);
    a.set_target(0, 0, 20_000, 40_000, 0, Rgba::white(), 0);
    // A size-only change is no move, so mark the animator running by a
    // real move first.
    a.set_target(100_000, 0, 20_000, 40_000, 0, Rgba::white(), 0);
    a.update_with_dt(16, 0);
    assert!(a.current_width > 8000, "the width should grow toward its target");
    assert!(a.current_height > 16_000, "the height should grow toward its target");
    for _ in 0..600 {
        a.update_with_dt(16, 0);
    }
    assert!((a.current_width - 20_000).abs() < 500);
    assert!((a.current_height - 40_000).abs() < 500);
}

#[test]
fn update_wall_clock_smoke_test() {
    let mut a = CursorAnimator::new(0);
    a.set_target(100_000, 100_000, 8000, 16_000, 0, Rgba::white(), 0);
    let active = a.update(16);
    assert!(active);
    assert!(a.current_x > 0, "the cursor should have moved from the origin");
    assert_eq!(a.last_update_ms, 16);
}

#[test]
fn update_with_dt_drops_dead_particles_and_keeps_live_ones() {
    let mut a = CursorAnimator::new(0);
    let dead = make_particle(100); // born at 1000, expires at 1100
    let live = make_particle(1000); // born at 1000, lives until 2000
    a.particles.push(dead);
    a.particles.push(live);
    // At 1200 ms the first particle is past its lifetime, the second
    // is 200 ms old and survives, moved by its velocity.
    let live_x = a.particles[1].x;
    a.update_with_dt(16, 1200);
    assert_eq!(a.particles.len(), 1);
    assert_eq!(a.particles[0].lifetime_ms, 1000);
    assert!(a.particles[0].x > live_x);
}

#[test]
fn update_with_dt_ages_out_old_trail_points() {
    let mut a = CursorAnimator::new(0);
    a.mode = CursorAnimationMode::Torpedo;
    a.trail.push(neomacs_display::cursor::TrailPoint { x: 0, y: 0, time_ms: 0 });
    a.trail.push(neomacs_display::cursor::TrailPoint { x: 1000, y: 0, time_ms: 450 });
    // At 500 ms the first point is 500 ms old (dropped at 200 ms), the
    // second is 50 ms old and kept; the cursor is not animating, so no
    // new point is laid.
    a.update_with_dt(16, 500);
    assert_eq!(a.trail.len(), 1);
    assert_eq!(a.trail[0].time_ms, 450);
}
