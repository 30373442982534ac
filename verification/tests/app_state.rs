use webrtc_archive_player::app_state::{unix_ms_from_elapsed, unix_now_ms, ArchiveState};
use webrtc_archive_player::archive_protocol::TimeRange;

fn range(start: u64, end: u64) -> TimeRange {
    TimeRange { start_time: start, end_time: end, duration: end - start }
}

#[test]
fn default_state_is_empty() {
    let s = ArchiveState::default();
    assert!(s.ranges.is_empty());
    assert_eq!(s.playback_start_ms, 0);
    assert_eq!(s.playback_end_ms, 0);
    assert_eq!(s.playback_position_ms, 0);
    assert_eq!(s.playback_started_at_unix_ms, 0);
    assert_eq!(s.playback_generation(), 0);
    assert!(!s.timeline_dirty);
}

#[test]
fn generation_counts_playbacks() {
    let mut s = ArchiveState::default();
    assert_eq!(s.next_playback_generation(), 1);
    assert_eq!(s.next_playback_generation(), 2);
    assert_eq!(s.playback_generation(), 2);
}

#[test]
fn ranges_read_back_what_was_written() {
    let mut s = ArchiveState::default();
    let rs = vec![range(1704067200000, 1704070800000), range(1704074400000, 1704078000000)];
    s.set_ranges(rs.clone());
    assert!(s.timeline_dirty);
    assert_eq!(s.get_ranges(), rs);
}

#[test]
fn unanchored_position_is_the_rtp_position() {
    let mut s = ArchiveState::default();
    s.set_playback_span(1000, 11000);
    s.set_playback_position(4321);
    assert_eq!(s.playback_position_at(999_999), 4321);
    assert_eq!(s.current_playback_position_ms(), 4321);
}

#[test]
fn anchored_position_follows_the_clock_within_the_span() {
    let mut s = ArchiveState::default();
    s.set_playback_span(1000, 11000);
    s.set_playback_wall_start_at(1000, 500_000);
    assert_eq!(s.playback_position_at(500_000), 1000);
    assert_eq!(s.playback_position_at(503_250), 4250);
    assert_eq!(s.playback_position_at(600_000), 11000);
    // The clock before the anchoring counts as no time elapsed.
    assert_eq!(s.playback_position_at(10), 1000);
}

#[test]
fn anchored_position_below_the_span_is_raised_to_its_start() {
    let mut s = ArchiveState::default();
    s.set_playback_span(5000, 15000);
    s.set_playback_wall_start_at(2000, 100);
    assert_eq!(s.playback_position_at(1100), 5000);
    assert_eq!(s.playback_position_at(3100), 5000);
    assert_eq!(s.playback_position_at(4100), 6000);
    assert_eq!(s.playback_position_at(9100), 11000);
}

#[test]
fn anchored_position_without_a_span_is_not_bounded() {
    let mut s = ArchiveState::default();
    s.set_playback_wall_start_at(7000, 1_000);
    assert_eq!(s.playback_position_at(21_000), 27_000);
    s.set_playback_wall_start_at(u64::MAX - 5, 1_000);
    assert_eq!(s.playback_position_at(21_000), u64::MAX);
}

#[test]
fn clearing_the_anchor_returns_to_the_rtp_position() {
    let mut s = ArchiveState::default();
    s.set_playback_position(77);
    s.set_playback_wall_start_at(1000, 50);
    assert_eq!(s.playback_position_at(60), 1010);
    s.clear_playback_wall_start();
    assert_eq!(s.playback_started_at_unix_ms, 0);
    assert_eq!(s.playback_position_at(60), 77);
}

#[test]
fn wall_start_reads_the_clock() {
    let before = unix_now_ms();
    let mut s = ArchiveState::default();
    s.set_playback_wall_start(3000);
    let after = unix_now_ms();
    assert_eq!(s.playback_content_start_ms, 3000);
    assert!(before <= s.playback_started_at_unix_ms && s.playback_started_at_unix_ms <= after);
    assert!(before > 1_600_000_000_000);
}

#[test]
fn current_position_of_anchored_playback_stays_in_span() {
    let mut s = ArchiveState::default();
    s.set_playback_span(1000, 11000);
    s.set_playback_wall_start(1000);
    let p = s.current_playback_position_ms();
    assert!(1000 <= p && p <= 11000);
}

#[test]
fn elapsed_time_becomes_unix_milliseconds() {
    assert_eq!(unix_ms_from_elapsed(Some(1_704_067_200_000)), 1_704_067_200_000);
    assert_eq!(unix_ms_from_elapsed(Some((1u128 << 64) + 7)), 7);
    assert_eq!(unix_ms_from_elapsed(None), 0);
}
