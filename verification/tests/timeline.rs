use webrtc_archive_player::app_state::ArchiveState;
use webrtc_archive_player::archive_protocol::TimeRange;
use webrtc_archive_player::ui::{frame_to_cairo_rgb24, VideoZoomRotation};
use webrtc_archive_player::ui::timeline::{
    drag_fits_now, drag_view, fit_view, pan_fits_now, pan_view, playhead_ms, refresh_view, span, tick_marks,
    tick_step_minutes, visible_segment, zoom_fits_now, zoom_span, zoom_window, ViewState, MIN_VIEW_SPAN_MS,
};
use webrtc_archive_player::video_decoder::DecodedFrame;

fn range(start: u64, end: u64) -> TimeRange {
    TimeRange { start_time: start, end_time: end, duration: end - start }
}

fn view(a: u64, b: u64) -> ViewState {
    ViewState { view_start_ms: a, view_end_ms: b }
}

#[test]
fn span_covers_all_ranges() {
    assert_eq!(span(&[range(50, 90), range(10, 40), range(60, 120)]), (10, 120));
    assert_eq!(span(&[]), (0, 0));
}

#[test]
fn view_state_basics() {
    let v = ViewState::new();
    assert!(v.is_unset());
    assert_eq!(view(10, 4).span_ms(), 0);
    assert_eq!(view(10, 40).span_ms(), 30);
    assert!(!view(0, 1).is_unset());
}

#[test]
fn tick_step_grows_with_the_window() {
    assert_eq!(tick_step_minutes(0), 1);
    assert_eq!(tick_step_minutes(30 * 60_000), 1);
    assert_eq!(tick_step_minutes(31 * 60_000), 5);
    assert_eq!(tick_step_minutes(61 * 60_000), 10);
    assert_eq!(tick_step_minutes(121 * 60_000), 15);
    assert_eq!(tick_step_minutes(361 * 60_000), 30);
    assert_eq!(tick_step_minutes(24 * 60 * 60_000), 30);
    assert_eq!(tick_step_minutes(24 * 60 * 60_000 + 60_000), 60);
}

#[test]
fn ticks_start_at_the_step_before_the_window() {
    assert_eq!(tick_marks(150_000, 330_000), vec![120_000, 180_000, 240_000, 300_000]);
    assert_eq!(tick_marks(0, 0), vec![0]);
    let t = tick_marks(0, 2 * 60 * 60_000);
    assert_eq!(t.len(), 13);
    assert_eq!(t[1], 10 * 60_000);
}

#[test]
fn window_is_fitted_to_the_span() {
    let mut v = ViewState::new();
    fit_view(&mut v, 100, 900);
    assert_eq!(v, view(100, 900));
    let mut v = view(200, 300);
    fit_view(&mut v, 100, 900);
    assert_eq!(v, view(200, 300));
    let mut v = view(50, 300);
    fit_view(&mut v, 100, 900);
    assert_eq!(v, view(100, 900));
}

#[test]
fn ranges_are_clipped_to_the_window() {
    assert_eq!(visible_segment(&range(10, 100), 50, 80), Some((50, 80)));
    assert_eq!(visible_segment(&range(60, 70), 50, 80), Some((60, 70)));
    assert_eq!(visible_segment(&range(10, 50), 50, 80), None);
}

#[test]
fn playhead_is_drawn_within_the_fragment() {
    let mut s = ArchiveState::default();
    assert_eq!(playhead_ms(&s, 0, 1000), None);
    s.set_playback_span(100, 200);
    assert_eq!(playhead_ms(&s, 0, 1000), Some(100));
    s.set_playback_position(150);
    assert_eq!(playhead_ms(&s, 0, 1000), Some(150));
    s.set_playback_position(500);
    assert_eq!(playhead_ms(&s, 0, 1000), Some(200));
    assert_eq!(playhead_ms(&s, 0, 199), None);
}

#[test]
fn zoom_keeps_the_window_in_the_span() {
    assert_eq!(zoom_span(1000, 60_000), MIN_VIEW_SPAN_MS);
    assert_eq!(zoom_span(90_000, 60_000), 60_000);
    assert_eq!(zoom_span(20_000, 60_000), 20_000);
    assert_eq!(zoom_window(50_000, 20_000, 10_000, 0, 60_000), view(40_000, 60_000));
    assert_eq!(zoom_window(1_000, 20_000, 10_000, 0, 60_000), view(0, 20_000));
    assert_eq!(zoom_window(30_000, 20_000, 5_000, 0, 60_000), view(25_000, 45_000));
}

#[test]
fn drag_moves_the_window_and_keeps_its_width() {
    assert_eq!(drag_view(view(20_000, 30_000), 5_000, 0, 60_000), Some(view(15_000, 25_000)));
    assert_eq!(drag_view(view(20_000, 30_000), -45_000, 0, 60_000), Some(view(50_000, 60_000)));
    assert_eq!(drag_view(view(20_000, 30_000), 25_000, 0, 60_000), Some(view(0, 10_000)));
    assert_eq!(drag_view(view(5, 5), 1, 0, 60_000), None);
}

#[test]
fn pan_moves_the_window_and_keeps_its_width() {
    let mut v = view(20_000, 30_000);
    pan_view(&mut v, 2_000, 0, 60_000);
    assert_eq!(v, view(22_000, 32_000));
    pan_view(&mut v, 100_000, 0, 60_000);
    assert_eq!(v, view(50_000, 60_000));
    pan_view(&mut v, -100_000, 0, 60_000);
    assert_eq!(v, view(0, 10_000));
}

#[test]
fn pan_on_an_empty_span_at_zero() {
    let mut v = view(0, 0);
    assert!(pan_fits_now(&v, 5, 0, 0));
    pan_view(&mut v, 5, 0, 0);
    assert_eq!(v, view(0, 0));
}

#[test]
fn times_past_the_signed_range_wrap_as_the_casts_do() {
    let t_min = (1u64 << 63) + 10;
    let t_max = t_min + 1_000;
    let mut v = view(t_min + 200, t_min + 300);
    assert!(pan_fits_now(&v, 5, t_min, t_max));
    pan_view(&mut v, 5, t_min, t_max);
    assert_eq!(v, view(t_min, t_min + 100));
    assert!(drag_fits_now(view(t_min + 200, t_min + 300), 5, t_min, t_max));
    assert_eq!(drag_view(view(t_min + 200, t_min + 300), 5, t_min, t_max), Some(view(t_min, t_min + 100)));
}

#[test]
fn undefined_pans_drags_and_zooms_are_recognised() {
    assert!(!pan_fits_now(&view(10, 20), i64::MAX, 0, 5));
    assert!(!pan_fits_now(&view(10, 20), 0, 50, 40));
    assert!(pan_fits_now(&view(20_000, 30_000), 2_000, 0, 60_000));
    assert!(!drag_fits_now(view(0, 10), i64::MIN, 0, 100));
    assert!(!drag_fits_now(view(0, 50), 0, 60, 100));
    assert!(drag_fits_now(view(5, 5), i64::MIN, 60, 0));
    assert!(drag_fits_now(view(20_000, 30_000), 5_000, 0, 60_000));
    assert!(!zoom_fits_now(0, 10, 0, u64::MAX - 5, u64::MAX));
    assert!(zoom_fits_now(50_000, 20_000, 10_000, 0, 60_000));
}

#[test]
fn new_ranges_reset_the_window() {
    let mut s = ArchiveState::default();
    let mut v = view(1, 2);
    assert!(!refresh_view(&mut s, &mut v));
    assert_eq!(v, view(1, 2));
    s.set_ranges(vec![range(100, 200), range(300, 400)]);
    assert!(refresh_view(&mut s, &mut v));
    assert_eq!(v, view(100, 400));
    assert!(!s.timeline_dirty);
}

#[test]
fn frame_is_laid_out_for_cairo() {
    let f = DecodedFrame { width: 2, height: 1, data: vec![1, 2, 3, 4, 5, 6, 99] };
    let (px, stride) = frame_to_cairo_rgb24(&f).unwrap();
    assert_eq!(stride, 8);
    assert_eq!(px, vec![3, 2, 1, 0, 6, 5, 4, 0]);
    let short = DecodedFrame { width: 2, height: 2, data: vec![0; 11] };
    assert!(frame_to_cairo_rgb24(&short).is_none());
    let empty = DecodedFrame { width: 0, height: 2, data: vec![] };
    assert!(frame_to_cairo_rgb24(&empty).is_none());
    let negative = DecodedFrame { width: 0x8000_0000, height: 1, data: vec![] };
    assert!(frame_to_cairo_rgb24(&negative).is_none());
}

#[test]
fn wheel_steps_zoom_and_rotate_the_video() {
    let mut v = VideoZoomRotation::new();
    assert_eq!((v.zoom_percent, v.rotation_deg), (100, 0));
    v.wheel_step(false, false, true);
    assert_eq!(v.zoom_percent, 100);
    for _ in 0..40 {
        v.wheel_step(false, true, false);
    }
    assert_eq!(v.zoom_percent, 400);
    v.wheel_step(false, false, true);
    assert_eq!(v.zoom_percent, 390);
    v.wheel_step(true, false, true);
    assert_eq!((v.zoom_percent, v.rotation_deg), (390, 355));
    v.wheel_step(true, true, false);
    v.wheel_step(true, true, false);
    assert_eq!(v.rotation_deg, 5);
    v.wheel_step(true, false, false);
    assert_eq!((v.zoom_percent, v.rotation_deg), (390, 5));
}
