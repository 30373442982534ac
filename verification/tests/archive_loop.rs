use webrtc_archive_player::app_state::{ArchiveCommand, ArchiveState};
use webrtc_archive_player::archive_loop::{
    due_fragment_request, handle_archive_fragment, handle_archive_fragment_at, handle_command,
    handle_command_at, handle_ranges, record_fragment_request, FragmentSchedule, OutgoingRequest,
    FRAGMENT_DURATION_MS, NEXT_FRAGMENT_DELAY_MS,
};
use webrtc_archive_player::archive_protocol::{ArchiveFragmentResponseData, RangesResponseData, TimeRange};

fn frag(start: u64, end: u64) -> ArchiveFragmentResponseData {
    ArchiveFragmentResponseData { start_time: start, end_time: end, duration: end - start }
}

fn request_types(r: &[OutgoingRequest]) -> Vec<&'static str> {
    r.iter()
        .map(|q| match q {
            OutgoingRequest::GetRanges(q) => q.typ,
            OutgoingRequest::DropBuffer(q) => q.typ,
            OutgoingRequest::GetArchiveFragment(q) => q.typ,
            OutgoingRequest::PlayStream(q) => q.typ,
            OutgoingRequest::StopStream(q) => q.typ,
        })
        .collect()
}

#[test]
fn get_ranges_only_sends_the_request() {
    let mut s = ArchiveState::default();
    let mut session = 4;
    let r = handle_command_at(&mut s, &mut session, ArchiveCommand::GetRanges { start_time: None, end_time: Some(9) }, 5);
    assert_eq!(request_types(&r), vec!["get_ranges"]);
    match &r[0] {
        OutgoingRequest::GetRanges(q) => {
            assert_eq!(q.data.start_time, None);
            assert_eq!(q.data.end_time, Some(9));
        }
        _ => panic!("not get_ranges"),
    }
    assert_eq!(session, 4);
    assert_eq!(s.playback_generation, 0);
}

#[test]
fn play_from_drops_loads_and_plays() {
    let mut s = ArchiveState::default();
    s.pending_fragment_start_ms = 5;
    s.pending_fragment_end_ms = 6;
    let mut session = 0;
    let r = handle_command_at(&mut s, &mut session, ArchiveCommand::PlayFrom { timestamp_ms: 1704067200000 }, 900_000);
    assert_eq!(request_types(&r), vec!["drop_buffer", "get_archive_fragment", "play_stream"]);
    match &r[1] {
        OutgoingRequest::GetArchiveFragment(q) => {
            assert_eq!(q.data.start_time, 1704067200000);
            assert_eq!(q.data.duration, FRAGMENT_DURATION_MS);
            assert_eq!(q.data.key, Some(true));
        }
        _ => panic!("not get_archive_fragment"),
    }
    assert_eq!(session, 1);
    assert_eq!(s.playback_start_ms, 1704067200000);
    assert_eq!(s.playback_end_ms, 1704067210000);
    assert_eq!(s.playback_position_ms, 1704067200000);
    assert_eq!(s.playback_content_start_ms, 1704067200000);
    assert_eq!(s.playback_started_at_unix_ms, 900_000);
    assert_eq!(s.pending_fragment_start_ms, 0);
    assert_eq!(s.pending_fragment_end_ms, 0);
    assert_eq!(s.last_play_from_requested_ms, 1704067200000);
    assert_eq!(s.playback_generation, 1);
    // The position at the moment of the command is the requested time; 3 s later it has moved on.
    assert_eq!(s.playback_position_at(900_000), 1704067200000);
    assert_eq!(s.playback_position_at(903_000), 1704067203000);
}

#[test]
fn seek_loads_without_playing() {
    let mut s = ArchiveState::default();
    s.set_playback_wall_start_at(10, 20);
    let mut session = u64::MAX;
    let r = handle_command_at(&mut s, &mut session, ArchiveCommand::SeekTo { timestamp_ms: 50_000 }, 77);
    assert_eq!(request_types(&r), vec!["drop_buffer", "get_archive_fragment"]);
    assert_eq!(session, 0);
    assert_eq!(s.playback_started_at_unix_ms, 0);
    assert_eq!((s.playback_start_ms, s.playback_end_ms), (50_000, 60_000));
    assert_eq!(s.playback_position_at(1_000_000), 50_000);
    assert_eq!(s.last_play_from_requested_ms, 50_000);
    assert_eq!(s.playback_generation, 1);
}

#[test]
fn stop_freezes_the_position() {
    let mut s = ArchiveState::default();
    let mut session = 3;
    handle_command_at(&mut s, &mut session, ArchiveCommand::PlayFrom { timestamp_ms: 10_000 }, 1_000);
    let r = handle_command_at(&mut s, &mut session, ArchiveCommand::Stop, 5_500);
    assert_eq!(request_types(&r), vec!["stop_stream"]);
    assert_eq!(session, 4);
    assert_eq!(s.playback_started_at_unix_ms, 0);
    assert_eq!(s.playback_position_ms, 14_500);
    assert_eq!(s.playback_position_at(99_999), 14_500);
}

#[test]
fn pause_and_play_send_the_stream_requests() {
    let mut s = ArchiveState::default();
    let mut session = 3;
    handle_command_at(&mut s, &mut session, ArchiveCommand::PlayFrom { timestamp_ms: 10_000 }, 1_000);
    let r = handle_command_at(&mut s, &mut session, ArchiveCommand::Pause, 5_500);
    assert_eq!(request_types(&r), vec!["stop_stream"]);
    assert_eq!(session, 4);
    assert_eq!(s.playback_started_at_unix_ms, 1_000);
    assert_eq!(s.playback_position_ms, 10_000);
    let r = handle_command_at(&mut s, &mut session, ArchiveCommand::Play, 6_000);
    assert_eq!(request_types(&r), vec!["play_stream"]);
    assert_eq!(session, 4);
    assert_eq!((s.playback_start_ms, s.playback_end_ms), (10_000, 10_000 + FRAGMENT_DURATION_MS as u64));
}

#[test]
fn commands_with_the_clock() {
    let mut s = ArchiveState::default();
    let mut session = 0;
    let r = handle_command(&mut s, &mut session, ArchiveCommand::PlayFrom { timestamp_ms: 20_000 });
    assert_eq!(r.len(), 3);
    assert!(s.playback_started_at_unix_ms > 0);
    let p = s.current_playback_position_ms();
    assert!((20_000..=30_000).contains(&p));
    handle_command(&mut s, &mut session, ArchiveCommand::Stop);
    assert_eq!(s.playback_started_at_unix_ms, 0);
    assert!((20_000..=30_000).contains(&s.playback_position_ms));
}

#[test]
fn ranges_reply_is_stored() {
    let mut s = ArchiveState::default();
    let rs = vec![TimeRange { start_time: 1, end_time: 5, duration: 4 }];
    handle_ranges(&mut s, RangesResponseData { ranges: rs.clone() });
    assert_eq!(s.get_ranges(), rs);
    assert!(s.timeline_dirty);
}

#[test]
fn fragment_for_another_request_is_ignored() {
    let mut s = ArchiveState::default();
    s.last_play_from_requested_ms = 100_000;
    let r = handle_archive_fragment_at(&mut s, 7, frag(200_000, 210_000), 0);
    assert_eq!(r, None);
    assert_eq!(s.playback_start_ms, 0);
    assert_eq!(s.pending_fragment_start_ms, 0);
    // A fragment that ends more than 5 s before the request is stale too.
    let r = handle_archive_fragment_at(&mut s, 7, frag(80_000, 94_999), 0);
    assert_eq!(r, None);
}

#[test]
fn fragment_within_the_margin_is_applied() {
    let mut s = ArchiveState::default();
    s.last_play_from_requested_ms = 100_000;
    let r = handle_archive_fragment_at(&mut s, 7, frag(104_000, 114_000), 0);
    assert_eq!(r, Some(FragmentSchedule { session_id: 7, next_start_ms: 114_000, delay_ms: NEXT_FRAGMENT_DELAY_MS }));
    assert_eq!((s.playback_start_ms, s.playback_end_ms), (104_000, 114_000));
    assert_eq!(NEXT_FRAGMENT_DELAY_MS, 8_000);
}

#[test]
fn fragment_holding_the_position_becomes_the_span() {
    let mut s = ArchiveState::default();
    let mut session = 0;
    handle_command_at(&mut s, &mut session, ArchiveCommand::PlayFrom { timestamp_ms: 100_000 }, 1_000);
    s.pending_fragment_start_ms = 1;
    s.pending_fragment_end_ms = 2;
    let r = handle_archive_fragment_at(&mut s, session, frag(99_000, 109_000), 3_000);
    assert_eq!(r.map(|x| x.next_start_ms), Some(109_000));
    assert_eq!((s.playback_start_ms, s.playback_end_ms), (99_000, 109_000));
    assert_eq!((s.pending_fragment_start_ms, s.pending_fragment_end_ms), (0, 0));
}

#[test]
fn fragment_ahead_of_the_position_is_kept_pending() {
    let mut s = ArchiveState::default();
    let mut session = 0;
    handle_command_at(&mut s, &mut session, ArchiveCommand::PlayFrom { timestamp_ms: 100_000 }, 1_000);
    record_fragment_request(&mut s, 104_000);
    assert_eq!(s.last_play_from_requested_ms, 104_000);
    let r = handle_archive_fragment_at(&mut s, session, frag(104_000, 114_000), 2_000);
    assert!(r.is_some());
    assert_eq!((s.playback_start_ms, s.playback_end_ms), (100_000, 110_000));
    assert_eq!((s.pending_fragment_start_ms, s.pending_fragment_end_ms), (104_000, 114_000));
}

#[test]
fn first_fragment_without_a_request_is_applied() {
    let mut s = ArchiveState::default();
    let r = handle_archive_fragment(&mut s, 0, frag(5, 10_005));
    assert!(r.is_some());
    assert_eq!((s.playback_start_ms, s.playback_end_ms), (5, 10_005));
}

#[test]
fn planned_fragment_is_cancelled_by_a_new_session() {
    let mut s = ArchiveState::default();
    let mut session = 0;
    handle_command_at(&mut s, &mut session, ArchiveCommand::PlayFrom { timestamp_ms: 100_000 }, 1_000);
    let plan = handle_archive_fragment_at(&mut s, session, frag(100_000, 110_000), 1_500).unwrap();
    let q = due_fragment_request(plan, session).unwrap();
    assert_eq!(q.typ, "get_archive_fragment");
    assert_eq!(q.data.start_time, 110_000);
    assert_eq!(q.data.duration, 10_000);
    assert_eq!(q.data.key, Some(false));
    handle_command_at(&mut s, &mut session, ArchiveCommand::SeekTo { timestamp_ms: 500_000 }, 2_000);
    assert!(due_fragment_request(plan, session).is_none());
}
