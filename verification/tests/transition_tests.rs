//! Tests of the buffer-switch transitions, in per-mille fixed point.

use neomacs_display::transition::{BufferTransition, BufferTransitionAnimator,
    BufferTransitionEffect, PageCurlParams, TransitionDirection, TransitionEasing};

#[test]
fn effect_default_is_crossfade() {
    assert_eq!(BufferTransitionEffect::default(), BufferTransitionEffect::Crossfade);
}

#[test]
fn effect_from_str_known_variants() {
    assert_eq!(BufferTransitionEffect::from_str("none"), BufferTransitionEffect::Instant);
    assert_eq!(BufferTransitionEffect::from_str("crossfade"), BufferTransitionEffect::Crossfade);
    assert_eq!(BufferTransitionEffect::from_str("fade"), BufferTransitionEffect::Crossfade);
    assert_eq!(BufferTransitionEffect::from_str("slide-left"), BufferTransitionEffect::SlideLeft);
    assert_eq!(BufferTransitionEffect::from_str("slide"), BufferTransitionEffect::SlideLeft);
    assert_eq!(
        BufferTransitionEffect::from_str("slide-right"),
        BufferTransitionEffect::SlideRight,
    );
    assert_eq!(BufferTransitionEffect::from_str("slide-up"), BufferTransitionEffect::SlideUp);
    assert_eq!(BufferTransitionEffect::from_str("slide-down"), BufferTransitionEffect::SlideDown);
    assert_eq!(BufferTransitionEffect::from_str("scale"), BufferTransitionEffect::ScaleFade);
    assert_eq!(BufferTransitionEffect::from_str("scale-fade"), BufferTransitionEffect::ScaleFade);
    assert_eq!(BufferTransitionEffect::from_str("push"), BufferTransitionEffect::Push);
    assert_eq!(BufferTransitionEffect::from_str("stack"), BufferTransitionEffect::Push);
    assert_eq!(BufferTransitionEffect::from_str("blur"), BufferTransitionEffect::Blur);
    assert_eq!(BufferTransitionEffect::from_str("page"), BufferTransitionEffect::PageCurl);
    assert_eq!(BufferTransitionEffect::from_str("page-curl"), BufferTransitionEffect::PageCurl);
    assert_eq!(BufferTransitionEffect::from_str("book"), BufferTransitionEffect::PageCurl);
}

#[test]
fn effect_from_str_case_insensitive() {
    assert_eq!(BufferTransitionEffect::from_str("CROSSFADE"), BufferTransitionEffect::Crossfade);
    assert_eq!(BufferTransitionEffect::from_str("Slide-Left"), BufferTransitionEffect::SlideLeft);
    assert_eq!(BufferTransitionEffect::from_str("NONE"), BufferTransitionEffect::Instant);
}

#[test]
fn effect_from_str_unknown_falls_back_to_crossfade() {
    assert_eq!(BufferTransitionEffect::from_str("unknown"), BufferTransitionEffect::Crossfade);
    assert_eq!(BufferTransitionEffect::from_str(""), BufferTransitionEffect::Crossfade);
}

#[test]
fn easing_default_is_ease_out() {
    assert_eq!(TransitionEasing::default(), TransitionEasing::EaseOut);
}

#[test]
fn direction_default_is_left() {
    assert_eq!(TransitionDirection::default(), TransitionDirection::Left);
}

#[test]
fn easing_linear() {
    let e = TransitionEasing::Linear;
    assert_eq!(e.apply(0), 0);
    assert_eq!(e.apply(500), 500);
    assert_eq!(e.apply(1000), 1000);
}

#[test]
fn easing_clamps_input() {
    let e = TransitionEasing::Linear;
    assert_eq!(e.apply(-500), 0);
    assert_eq!(e.apply(1500), 1000);
}

#[test]
fn easing_ease_in_starts_slow() {
    let e = TransitionEasing::EaseIn;
    assert_eq!(e.apply(0), 0);
    assert_eq!(e.apply(1000), 1000);
    // Cubic ease-in: halfway gives one eighth.
    assert_eq!(e.apply(500), 125);
}

#[test]
fn easing_ease_out_ends_slow() {
    let e = TransitionEasing::EaseOut;
    assert_eq!(e.apply(0), 0);
    assert_eq!(e.apply(1000), 1000);
    // Cubic ease-out: halfway gives seven eighths.
    assert_eq!(e.apply(500), 875);
}

#[test]
fn easing_ease_in_out_symmetric() {
    let e = TransitionEasing::EaseInOut;
    assert_eq!(e.apply(0), 0);
    assert_eq!(e.apply(1000), 1000);
    assert_eq!(e.apply(500), 500);
    let t = 300;
    assert_eq!(e.apply(t) + e.apply(1000 - t), 1000);
}

#[test]
fn easing_ease_out_back_overshoots() {
    let e = TransitionEasing::EaseOutBack;
    assert_eq!(e.apply(0), 0);
    assert_eq!(e.apply(1000), 1000);
    let peak = e.apply(850);
    assert!(peak > 1000, "the back-easing should overshoot; got {}", peak);
}

#[test]
fn easing_all_variants_at_boundaries() {
    let easings = [
        TransitionEasing::Linear,
        TransitionEasing::EaseIn,
        TransitionEasing::EaseOut,
        TransitionEasing::EaseInOut,
        TransitionEasing::EaseOutBack,
    ];
    for e in &easings {
        assert_eq!(e.apply(0), 0, "{:?} should start at 0", e);
        assert_eq!(e.apply(1000), 1000, "{:?} should end at 1", e);
    }
}

#[test]
fn transition_initial_state() {
    let t = BufferTransition::new(BufferTransitionEffect::Crossfade, TransitionDirection::Left, 200);
    assert_eq!(t.effect, BufferTransitionEffect::Crossfade);
    assert_eq!(t.direction, TransitionDirection::Left);
    assert_eq!(t.progress, 0);
    assert!(!t.completed);
    assert_eq!(t.easing, TransitionEasing::EaseOut);
    assert_eq!(t.old_width, 0);
    assert_eq!(t.old_height, 0);
    assert_eq!(t.duration_ms, 200);
}

#[test]
fn crossfade_opacity_at_start() {
    let t = BufferTransition::new(BufferTransitionEffect::Crossfade, TransitionDirection::Left, 200);
    assert_eq!(t.crossfade_old_opacity(), 1000);
    assert_eq!(t.crossfade_new_opacity(), 0);
}

#[test]
fn crossfade_opacity_at_end() {
    let mut t = BufferTransition::new(
        BufferTransitionEffect::Crossfade,
        TransitionDirection::Left,
        200,
    );
    t.progress = 1000;
    assert_eq!(t.crossfade_old_opacity(), 0);
    assert_eq!(t.crossfade_new_opacity(), 1000);
}

#[test]
fn crossfade_opacities_sum_to_one() {
    let mut t = BufferTransition::new(
        BufferTransitionEffect::Crossfade,
        TransitionDirection::Left,
        200,
    );
    for p in [0, 250, 500, 750, 1000] {
        t.progress = p;
        assert_eq!(t.crossfade_old_opacity() + t.crossfade_new_opacity(), 1000);
    }
}

#[test]
fn slide_offset_left_at_start() {
    let mut t = BufferTransition::new(
        BufferTransitionEffect::SlideLeft,
        TransitionDirection::Left,
        200,
    );
    t.old_width = 800;
    t.old_height = 600;
    assert_eq!(t.slide_old_offset(), (0, 0));
    assert_eq!(t.slide_new_offset(), (800, 0));
}

#[test]
fn slide_offset_left_at_end() {
    let mut t = BufferTransition::new(
        BufferTransitionEffect::SlideLeft,
        TransitionDirection::Left,
        200,
    );
    t.old_width = 800;
    t.old_height = 600;
    t.progress = 1000;
    assert_eq!(t.slide_old_offset(), (-800, 0));
    assert_eq!(t.slide_new_offset(), (0, 0));
}

#[test]
fn slide_offset_right_direction() {
    let mut t = BufferTransition::new(
        BufferTransitionEffect::SlideRight,
        TransitionDirection::Right,
        200,
    );
    t.old_width = 800;
    t.progress = 1000;
    assert_eq!(t.slide_old_offset(), (800, 0));
    assert_eq!(t.slide_new_offset(), (0, 0));
}

#[test]
fn slide_offset_up_direction() {
    let mut t = BufferTransition::new(BufferTransitionEffect::SlideUp, TransitionDirection::Up, 200);
    t.old_height = 600;
    t.progress = 1000;
    assert_eq!(t.slide_old_offset(), (0, -600));
    assert_eq!(t.slide_new_offset(), (0, 0));
}

#[test]
fn slide_offset_down_direction() {
    let mut t = BufferTransition::new(
        BufferTransitionEffect::SlideDown,
        TransitionDirection::Down,
        200,
    );
    t.old_height = 600;
    t.progress = 1000;
    assert_eq!(t.slide_old_offset(), (0, 600));
    assert_eq!(t.slide_new_offset(), (0, 0));
}

#[test]
fn scale_fade_boundaries() {
    let mut t = BufferTransition::new(
        BufferTransitionEffect::ScaleFade,
        TransitionDirection::Left,
        200,
    );
    assert_eq!(t.scale_old(), 1000);
    assert_eq!(t.scale_new(), 900);
    t.progress = 1000;
    assert_eq!(t.scale_old(), 900);
    assert_eq!(t.scale_new(), 1000);
}

#[test]
fn blur_radius_boundaries() {
    let mut t = BufferTransition::new(BufferTransitionEffect::Blur, TransitionDirection::Left, 200);
    assert_eq!(t.blur_old_radius(), 0);
    assert_eq!(t.blur_new_radius(), 15_000);
    t.progress = 1000;
    assert_eq!(t.blur_old_radius(), 15_000);
    assert_eq!(t.blur_new_radius(), 0);
}

#[test]
fn page_curl_params_at_boundaries() {
    let mut t = BufferTransition::new(
        BufferTransitionEffect::PageCurl,
        TransitionDirection::Left,
        300,
    );
    let (curl, angle, shadow) = t.page_curl_params();
    assert_eq!(curl, 0);
    assert_eq!(angle, 0);
    assert_eq!(shadow, 0);
    t.progress = 1000;
    let (curl, angle, shadow) = t.page_curl_params();
    assert_eq!(curl, 1000);
    assert_eq!(angle, 3142);
    assert_eq!(shadow, 0);
}

#[test]
fn page_curl_shadow_peaks_at_midpoint() {
    let mut t = BufferTransition::new(
        BufferTransitionEffect::PageCurl,
        TransitionDirection::Left,
        300,
    );
    t.progress = 500;
    let (_, _, shadow) = t.page_curl_params();
    assert_eq!(shadow, 500);
}

#[test]
fn transition_completes_after_duration() {
    let mut t = BufferTransition::new(
        BufferTransitionEffect::Crossfade,
        TransitionDirection::Left,
        1,
    );
    let still_active = t.update_with_dt(5);
    assert!(!still_active);
    assert!(t.completed);
    assert_eq!(t.progress, 1000);
}

#[test]
fn transition_update_returns_false_when_already_completed() {
    let mut t = BufferTransition::new(
        BufferTransitionEffect::Crossfade,
        TransitionDirection::Left,
        1,
    );
    t.completed = true;
    assert!(!t.update_with_dt(16));
}

#[test]
fn eased_progress_matches_progress_field() {
    let mut t = BufferTransition::new(
        BufferTransitionEffect::Crossfade,
        TransitionDirection::Left,
        200,
    );
    t.progress = 420;
    assert_eq!(t.eased_progress(), 420);
}

#[test]
fn crossfade_halfway_is_ease_out_value() {
    // A 200 ms crossfade at 100 ms: the eased progress is seven
    // eighths, so the old content keeps one eighth of its opacity.
    let mut a = BufferTransitionAnimator::new();
    a.start_transition();
    let active = a.update_with_dt(100);
    assert!(active);
    let t = a.get_transition().unwrap();
    assert_eq!(t.progress, 875);
    assert_eq!(t.crossfade_old_opacity(), 125);
    assert_eq!(t.crossfade_new_opacity(), 875);
    // At the full duration the transition and its snapshot are gone.
    let active = a.update_with_dt(100);
    assert!(!active);
    assert!(!a.is_active());
    assert!(!a.has_snapshot);
}

#[test]
fn animator_default_state() {
    let a = BufferTransitionAnimator::new();
    assert_eq!(a.default_effect, BufferTransitionEffect::Crossfade);
    assert_eq!(a.default_duration_ms, 200);
    assert!(a.active_transition.is_none());
    assert!(!a.has_snapshot);
    assert!(a.auto_detect);
    assert!(!a.is_active());
}

#[test]
fn animator_default_trait_matches_new() {
    let a = BufferTransitionAnimator::default();
    assert_eq!(a.default_effect, BufferTransitionEffect::Crossfade);
    assert_eq!(a.default_duration_ms, 200);
}

#[test]
fn animator_start_transition_creates_active() {
    let mut a = BufferTransitionAnimator::new();
    a.start_transition();
    assert!(a.is_active());
    let t = a.get_transition().unwrap();
    assert_eq!(t.effect, BufferTransitionEffect::Crossfade);
    assert_eq!(t.direction, TransitionDirection::Left);
}

#[test]
fn animator_start_transition_with_none_clears() {
    let mut a = BufferTransitionAnimator::new();
    a.start_transition();
    assert!(a.is_active());
    a.start_transition_with(BufferTransitionEffect::Instant, TransitionDirection::Left);
    assert!(!a.is_active());
}

#[test]
fn animator_start_transition_with_specific_effect() {
    let mut a = BufferTransitionAnimator::new();
    a.start_transition_with(BufferTransitionEffect::SlideUp, TransitionDirection::Up);
    assert!(a.is_active());
    let t = a.get_transition().unwrap();
    assert_eq!(t.effect, BufferTransitionEffect::SlideUp);
    assert_eq!(t.direction, TransitionDirection::Up);
}

#[test]
fn animator_snapshot_workflow() {
    let mut a = BufferTransitionAnimator::new();
    a.start_transition();
    a.request_snapshot();
    assert!(!a.has_snapshot);
    a.snapshot_captured(800, 600);
    assert!(a.has_snapshot);
    let t = a.get_transition().unwrap();
    assert_eq!(t.old_width, 800);
    assert_eq!(t.old_height, 600);
}

#[test]
fn animator_snapshot_captured_without_transition() {
    let mut a = BufferTransitionAnimator::new();
    a.snapshot_captured(800, 600);
    assert!(a.has_snapshot);
}

#[test]
fn animator_update_completes_and_clears() {
    let mut a = BufferTransitionAnimator::new();
    a.set_default_duration(1);
    a.start_transition();
    a.snapshot_captured(800, 600);
    let still_active = a.update_with_dt(5);
    assert!(!still_active);
    assert!(!a.is_active());
    assert!(!a.has_snapshot);
}

#[test]
fn animator_update_no_transition_returns_false() {
    let mut a = BufferTransitionAnimator::new();
    assert!(!a.update_with_dt(16));
}

#[test]
fn animator_set_default_effect() {
    let mut a = BufferTransitionAnimator::new();
    a.set_default_effect(BufferTransitionEffect::Blur);
    assert_eq!(a.default_effect, BufferTransitionEffect::Blur);
    a.start_transition();
    let t = a.get_transition().unwrap();
    assert_eq!(t.effect, BufferTransitionEffect::Blur);
}

#[test]
fn animator_set_default_duration() {
    let mut a = BufferTransitionAnimator::new();
    a.set_default_duration(500);
    assert_eq!(a.default_duration_ms, 500);
    a.start_transition();
    let t = a.get_transition().unwrap();
    assert_eq!(t.duration_ms, 500);
}

#[test]
fn content_hash_first_update_not_changed() {
    let mut a = BufferTransitionAnimator::new();
    assert!(!a.update_content_hash(42));
}

#[test]
fn content_hash_detects_change() {
    let mut a = BufferTransitionAnimator::new();
    a.update_content_hash(42);
    assert!(a.update_content_hash(99));
}

#[test]
fn content_hash_same_value_not_changed() {
    let mut a = BufferTransitionAnimator::new();
    a.update_content_hash(42);
    assert!(!a.update_content_hash(42));
}

#[test]
fn page_curl_params_default() {
    let p = PageCurlParams::default();
    assert_eq!(p.progress, 0);
    assert_eq!(p.radius, 50_000);
    assert_eq!(p.corner, 0);
    assert_eq!(p.width, 800);
    assert_eq!(p.height, 600);
    assert_eq!(p.shadow, 300);
    assert_eq!(p.backside_darken, 200);
}

#[test]
fn page_curl_params_from_progress_at_zero() {
    let p = PageCurlParams::from_progress(0, 1024, 768);
    assert_eq!(p.progress, 0);
    assert_eq!(p.radius, 30_000);
    assert_eq!(p.width, 1024);
    assert_eq!(p.height, 768);
    assert_eq!(p.shadow, 0);
}

#[test]
fn page_curl_params_from_progress_at_half() {
    let p = PageCurlParams::from_progress(500, 800, 600);
    assert_eq!(p.progress, 500);
    assert_eq!(p.radius, 50_000);
    assert_eq!(p.shadow, 400);
}

#[test]
fn page_curl_params_from_progress_at_one() {
    let p = PageCurlParams::from_progress(1000, 800, 600);
    assert_eq!(p.progress, 1000);
    assert_eq!(p.radius, 70_000);
    assert_eq!(p.shadow, 0);
}
