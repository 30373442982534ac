//! The decisions of the archive loop: what a command of the interface sends
//! on the data channel and does to the playback state, what a reply of the
//! server does to it, and when the next fragment is asked for (2 s before the
//! end of a 10 s fragment). Sending, receiving and waiting are the caller's.

use vstd::prelude::*;
use crate::app_state::{ArchiveCommand, ArchiveModel, ArchiveState, sat_sub, unix_now_ms};
use crate::archive_protocol::{
    ArchiveFragmentResponseData, DropBufferRequest, GetArchiveFragmentRequest, GetRangesRequest,
    PlayStreamRequest, RangesResponseData, StopStreamRequest, drop_buffer, get_archive_fragment,
    get_ranges, play_stream, stop_stream,
};

verus! {

/// Length of one archive fragment (10 s).
pub const FRAGMENT_DURATION_MS: i64 = 10_000;

/// The next fragment is asked for this long before the current one ends.
pub const REQUEST_NEXT_FRAGMENT_BEFORE_END_MS: u64 = 2_000;

/// An `archive_fragment` reply belongs to the last request when it reaches
/// within this margin of the requested time.
pub const FRAGMENT_MATCH_MARGIN_MS: u64 = 5_000;

/// Time from an `archive_fragment` reply to the request of the next fragment.
pub const NEXT_FRAGMENT_DELAY_MS: u64 = 8_000;

/// A request to send on the data channel.
#[derive(Debug)]
pub enum OutgoingRequest {
    GetRanges(GetRangesRequest),
    DropBuffer(DropBufferRequest),
    GetArchiveFragment(GetArchiveFragmentRequest),
    PlayStream(PlayStreamRequest),
    StopStream(StopStreamRequest),
}

/// The request of the next fragment, due `delay_ms` after it was planned, and
/// only while the session in which it was planned is still the current one.
#[derive(Debug, Clone, Copy, PartialEq, Eq, Structural)]
pub struct FragmentSchedule {
    pub session_id: u64,
    pub next_start_ms: u64,
    pub delay_ms: u64,
}

/// `get_ranges` for the given period.
pub open spec fn is_get_ranges(r: OutgoingRequest, start: Option<u64>, end: Option<u64>) -> bool {
    r matches OutgoingRequest::GetRanges(q) && q.typ@ == "get_ranges"@ && q.data.start_time
        == start && q.data.end_time == end
}

/// `get_archive_fragment` of one fragment length from `start`.
pub open spec fn is_fragment_request(q: GetArchiveFragmentRequest, start: u64, key: bool) -> bool {
    &&& q.typ@ == "get_archive_fragment"@
    &&& q.data.start_time == start
    &&& q.data.duration == FRAGMENT_DURATION_MS
    &&& q.data.key == Some(key)
    &&& q.data.type_meta.is_none()
}

pub open spec fn is_drop_buffer(r: OutgoingRequest) -> bool {
    r matches OutgoingRequest::DropBuffer(q) && q.typ@ == "drop_buffer"@
}

pub open spec fn is_play_stream(r: OutgoingRequest) -> bool {
    r matches OutgoingRequest::PlayStream(q) && q.typ@ == "play_stream"@
}

pub open spec fn is_stop_stream(r: OutgoingRequest) -> bool {
    r matches OutgoingRequest::StopStream(q) && q.typ@ == "stop_stream"@
}

/// The session that follows `s`; the counter wraps around.
pub open spec fn next_session(s: u64) -> u64 {
    if s == u64::MAX {
        0
    } else {
        (s + 1) as u64
    }
}

impl ArchiveModel {
    /// The pending fragment replaced (0, 0 = none).
    pub open spec fn with_pending(self, start_ms: u64, end_ms: u64) -> ArchiveModel {
        ArchiveModel { pending_fragment_start_ms: start_ms, pending_fragment_end_ms: end_ms, ..self }
    }

    /// The time of the last fragment asked for replaced.
    pub open spec fn with_last_requested(self, ms: u64) -> ArchiveModel {
        ArchiveModel { last_play_from_requested_ms: ms, ..self }
    }

    /// A new fragment loaded at `ts`, as `PlayFrom` and `SeekTo` leave the state
    /// apart from the wall clock.
    pub open spec fn loaded_at(self, ts: u64) -> ArchiveModel {
        self.with_span(ts, (ts + FRAGMENT_DURATION_MS) as u64).with_position(ts).with_pending(
            0,
            0,
        ).with_last_requested(ts).with_next_generation()
    }
}

/// What a command does to the playback state when the wall clock reads `now_ms`.
pub open spec fn command_effect(s: ArchiveModel, cmd: ArchiveCommand, now_ms: u64) -> ArchiveModel {
    match cmd {
        ArchiveCommand::GetRanges { .. } => s,
        ArchiveCommand::PlayFrom { timestamp_ms } => s.loaded_at(timestamp_ms).with_wall_start(
            timestamp_ms,
            now_ms,
        ),
        ArchiveCommand::Stop => s.without_wall_start().with_position(s.position_at(now_ms)),
        ArchiveCommand::SeekTo { timestamp_ms } => s.loaded_at(timestamp_ms).without_wall_start(),
        ArchiveCommand::Pause | ArchiveCommand::Play => s,
    }
}

/// What a command does to the session counter: a new fragment starts a new session.
pub open spec fn command_session(session_id: u64, cmd: ArchiveCommand) -> u64 {
    match cmd {
        ArchiveCommand::PlayFrom { .. } | ArchiveCommand::SeekTo { .. } => next_session(session_id),
        _ => session_id,
    }
}

/// The requests that a command sends, in order.
pub open spec fn command_requests(r: Seq<OutgoingRequest>, cmd: ArchiveCommand) -> bool {
    match cmd {
        ArchiveCommand::GetRanges { start_time, end_time } => r.len() == 1 && is_get_ranges(
            r[0],
            start_time,
            end_time,
        ),
        ArchiveCommand::PlayFrom { timestamp_ms } => {
            &&& r.len() == 3
            &&& is_drop_buffer(r[0])
            &&& r[1] matches OutgoingRequest::GetArchiveFragment(q) && is_fragment_request(
                q,
                timestamp_ms,
                true,
            )
            &&& is_play_stream(r[2])
        },
        ArchiveCommand::Stop => r.len() == 1 && is_stop_stream(r[0]),
        ArchiveCommand::SeekTo { timestamp_ms } => {
            &&& r.len() == 2
            &&& is_drop_buffer(r[0])
            &&& r[1] matches OutgoingRequest::GetArchiveFragment(q) && is_fragment_request(
                q,
                timestamp_ms,
                true,
            )
        },
        ArchiveCommand::Pause => r.len() == 1 && is_stop_stream(r[0]),
        ArchiveCommand::Play => r.len() == 1 && is_play_stream(r[0]),
    }
}

/// The inputs on which a command can be carried out: the end of a new
/// fragment and the next generation must fit in 64 bits.
pub open spec fn command_fits(s: ArchiveModel, cmd: ArchiveCommand) -> bool {
    match cmd {
        ArchiveCommand::PlayFrom { timestamp_ms } | ArchiveCommand::SeekTo { timestamp_ms } => {
            &&& timestamp_ms + FRAGMENT_DURATION_MS <= u64::MAX
            &&& s.playback_generation < u64::MAX
        },
        _ => true,
    }
}

/// Whether a command can be carried out on the state (see `command_fits`).
pub fn command_fits_now(state: &ArchiveState, cmd: &ArchiveCommand) -> (r: bool)
    ensures
        r == command_fits(state@, *cmd),
{
    match cmd {
        ArchiveCommand::PlayFrom { timestamp_ms } | ArchiveCommand::SeekTo { timestamp_ms } => {
            *timestamp_ms <= u64::MAX - FRAGMENT_DURATION_MS as u64 && state.playback_generation
                < u64::MAX
        },
        _ => true,
    }
}

/// Carries out a command of the interface when the wall clock reads `now_ms`:
/// updates the state and the session and returns the requests to send.
pub fn handle_command_at(
    state: &mut ArchiveState,
    session_id: &mut u64,
    cmd: ArchiveCommand,
    now_ms: u64,
) -> (r: Vec<OutgoingRequest>)
    requires
        command_fits(old(state)@, cmd),
    ensures
        final(state)@ == command_effect(old(state)@, cmd, now_ms),
        *final(session_id) == command_session(*old(session_id), cmd),
        command_requests(r@, cmd),
{
    let mut out: Vec<OutgoingRequest> = Vec::new();
    match cmd {
        ArchiveCommand::GetRanges { start_time, end_time } => {
            out.push(OutgoingRequest::GetRanges(get_ranges(start_time, end_time)));
        },
        ArchiveCommand::PlayFrom { timestamp_ms } => {
            *session_id = if *session_id == u64::MAX {
                0
            } else {
                *session_id + 1
            };
            out.push(OutgoingRequest::DropBuffer(drop_buffer()));
            out.push(
                OutgoingRequest::GetArchiveFragment(
                    get_archive_fragment(timestamp_ms, FRAGMENT_DURATION_MS, true),
                ),
            );
            state.set_playback_span(timestamp_ms, timestamp_ms + FRAGMENT_DURATION_MS as u64);
            state.set_playback_position(timestamp_ms);
            state.set_playback_wall_start_at(timestamp_ms, now_ms);
            state.pending_fragment_start_ms = 0;
            state.pending_fragment_end_ms = 0;
            state.last_play_from_requested_ms = timestamp_ms;
            state.next_playback_generation();
            out.push(OutgoingRequest::PlayStream(play_stream()));
        },
        ArchiveCommand::Stop => {
            out.push(OutgoingRequest::StopStream(stop_stream()));
            let current_pos = state.playback_position_at(now_ms);
            state.clear_playback_wall_start();
            state.set_playback_position(current_pos);
        },
        ArchiveCommand::SeekTo { timestamp_ms } => {
            *session_id = if *session_id == u64::MAX {
                0
            } else {
                *session_id + 1
            };
            out.push(OutgoingRequest::DropBuffer(drop_buffer()));
            out.push(
                OutgoingRequest::GetArchiveFragment(
                    get_archive_fragment(timestamp_ms, FRAGMENT_DURATION_MS, true),
                ),
            );
            state.set_playback_span(timestamp_ms, timestamp_ms + FRAGMENT_DURATION_MS as u64);
            state.set_playback_position(timestamp_ms);
            state.clear_playback_wall_start();
            state.pending_fragment_start_ms = 0;
            state.pending_fragment_end_ms = 0;
            state.last_play_from_requested_ms = timestamp_ms;
            state.next_playback_generation();
        },
        ArchiveCommand::Pause => {
            out.push(OutgoingRequest::StopStream(stop_stream()));
        },
        ArchiveCommand::Play => {
            out.push(OutgoingRequest::PlayStream(play_stream()));
        },
    }
    out
}

/// Carries out a command of the interface, reading the wall clock where the
/// command needs it (`PlayFrom` and `Stop`).
pub fn handle_command(state: &mut ArchiveState, session_id: &mut u64, cmd: ArchiveCommand) -> (r:
    Vec<OutgoingRequest>)
    requires
        command_fits(old(state)@, cmd),
    ensures
        exists|now_ms: u64| final(state)@ == command_effect(old(state)@, cmd, now_ms),
        *final(session_id) == command_session(*old(session_id), cmd),
        command_requests(r@, cmd),
{
    let now_ms = match cmd {
        ArchiveCommand::PlayFrom { .. } | ArchiveCommand::Stop => unix_now_ms(),
        _ => 0,
    };
    handle_command_at(state, session_id, cmd, now_ms)
}

/// Stores the ranges of a `ranges` reply.
pub fn handle_ranges(state: &mut ArchiveState, data: RangesResponseData)
    ensures
        final(state)@ == old(state)@.with_ranges(data.ranges@),
{
    state.set_ranges(data.ranges);
}

/// A loaded fragment answers the last request when no request is recorded, or
/// when it starts no later than the margin after the requested time and ends
/// no earlier than the margin before it.
pub open spec fn fragment_matches_request(requested: u64, frag: ArchiveFragmentResponseData) -> bool {
    requested == 0 || (frag.start_time <= requested + FRAGMENT_MATCH_MARGIN_MS && frag.end_time
        >= sat_sub(requested, FRAGMENT_MATCH_MARGIN_MS))
}

/// The inputs on which a fragment reply can be checked: the requested time
/// plus the margin must fit in 64 bits.
pub open spec fn fragment_check_fits(s: ArchiveModel) -> bool {
    s.last_play_from_requested_ms == 0 || s.last_play_from_requested_ms + FRAGMENT_MATCH_MARGIN_MS
        <= u64::MAX
}

/// Whether a loaded fragment is played at once: nothing plays yet (span 0..0),
/// or it holds the position.
pub open spec fn fragment_applies(s: ArchiveModel, frag: ArchiveFragmentResponseData, pos: u64) -> bool {
    (s.playback_start_ms == 0 && s.playback_end_ms == 0) || (frag.start_time <= pos && pos
        <= frag.end_time)
}

/// What an `archive_fragment` reply does to the state when the position is `pos`:
/// a fragment played at once becomes the span and clears the pending one;
/// another becomes the pending fragment.
pub open spec fn fragment_effect(s: ArchiveModel, frag: ArchiveFragmentResponseData, pos: u64) -> ArchiveModel {
    if fragment_applies(s, frag, pos) {
        s.with_span(frag.start_time, frag.end_time).with_pending(0, 0)
    } else {
        s.with_pending(frag.start_time, frag.end_time)
    }
}

/// Handles an `archive_fragment` reply when the wall clock reads `now_ms`. A
/// reply to an older request changes nothing and plans nothing; a reply to the
/// last one is played or kept pending, and the next fragment, from its end, is
/// planned within the current session.
pub fn handle_archive_fragment_at(
    state: &mut ArchiveState,
    session_id: u64,
    frag: ArchiveFragmentResponseData,
    now_ms: u64,
) -> (r: Option<FragmentSchedule>)
    requires
        fragment_check_fits(old(state)@),
    ensures
        !fragment_matches_request(old(state).last_play_from_requested_ms, frag) ==> {
            &&& final(state)@ == old(state)@
            &&& r.is_none()
        },
        fragment_matches_request(old(state).last_play_from_requested_ms, frag) ==> {
            &&& final(state)@ == fragment_effect(old(state)@, frag, old(state)@.position_at(now_ms))
            &&& r == Some(
                FragmentSchedule {
                    session_id,
                    next_start_ms: frag.end_time,
                    delay_ms: NEXT_FRAGMENT_DELAY_MS,
                },
            )
        },
{
    let requested = state.last_play_from_requested_ms;
    let margin_ms = FRAGMENT_MATCH_MARGIN_MS;
    let is_for_current_request = requested == 0 || (frag.start_time <= requested + margin_ms
        && frag.end_time >= requested.saturating_sub(margin_ms));
    if !is_for_current_request {
        return None;
    }
    let current_pos = state.playback_position_at(now_ms);
    let start = state.playback_start_ms;
    let end = state.playback_end_ms;
    let span_unset = start == 0 && end == 0;
    let fragment_contains_position = current_pos >= frag.start_time && current_pos <= frag.end_time;
    if span_unset || fragment_contains_position {
        state.set_playback_span(frag.start_time, frag.end_time);
        state.pending_fragment_start_ms = 0;
        state.pending_fragment_end_ms = 0;
    } else {
        state.pending_fragment_start_ms = frag.start_time;
        state.pending_fragment_end_ms = frag.end_time;
    }
    Some(
        FragmentSchedule {
            session_id,
            next_start_ms: frag.end_time,
            delay_ms: FRAGMENT_DURATION_MS as u64 - REQUEST_NEXT_FRAGMENT_BEFORE_END_MS,
        },
    )
}

/// Handles an `archive_fragment` reply, reading the wall clock where the reply
/// answers the last request.
pub fn handle_archive_fragment(
    state: &mut ArchiveState,
    session_id: u64,
    frag: ArchiveFragmentResponseData,
) -> (r: Option<FragmentSchedule>)
    requires
        fragment_check_fits(old(state)@),
    ensures
        !fragment_matches_request(old(state).last_play_from_requested_ms, frag) ==> {
            &&& final(state)@ == old(state)@
            &&& r.is_none()
        },
        fragment_matches_request(old(state).last_play_from_requested_ms, frag) ==> {
            &&& exists|now_ms: u64|
                final(state)@ == fragment_effect(old(state)@, frag, #[trigger] old(state)@.position_at(now_ms))
            &&& r == Some(
                FragmentSchedule {
                    session_id,
                    next_start_ms: frag.end_time,
                    delay_ms: NEXT_FRAGMENT_DELAY_MS,
                },
            )
        },
{
    let requested = state.last_play_from_requested_ms;
    let is_for_current_request = requested == 0 || (frag.start_time <= requested
        + FRAGMENT_MATCH_MARGIN_MS && frag.end_time >= requested.saturating_sub(
        FRAGMENT_MATCH_MARGIN_MS,
    ));
    let now_ms = if is_for_current_request {
        unix_now_ms()
    } else {
        0
    };
    handle_archive_fragment_at(state, session_id, frag, now_ms)
}

/// The request that a planned fragment makes when it falls due in session
/// `current_session`: none where the session has changed since it was planned.
pub fn due_fragment_request(schedule: FragmentSchedule, current_session: u64) -> (r: Option<
    GetArchiveFragmentRequest,
>)
    ensures
        schedule.session_id != current_session ==> r.is_none(),
        schedule.session_id == current_session ==> (r matches Some(q) && is_fragment_request(
            q,
            schedule.next_start_ms,
            false,
        )),
{
    if schedule.session_id != current_session {
        return None;
    }
    Some(get_archive_fragment(schedule.next_start_ms, FRAGMENT_DURATION_MS, false))
}

/// Records that the fragment from `start_ms` was asked for, so that its reply
/// is taken for the current request.
pub fn record_fragment_request(state: &mut ArchiveState, start_ms: u64)
    ensures
        final(state)@ == old(state)@.with_last_requested(start_ms),
{
    state.last_play_from_requested_ms = start_ms;
}

/// After `PlayFrom(ts)` the position at the moment of the command is `ts`,
/// within the new span `[ts, ts + 10 s]`.
pub proof fn law_play_from_starts_at_timestamp(s: ArchiveModel, timestamp_ms: u64, now_ms: u64)
    requires
        command_fits(s, ArchiveCommand::PlayFrom { timestamp_ms }),
    ensures
        ({
            let t = command_effect(s, ArchiveCommand::PlayFrom { timestamp_ms }, now_ms);
            &&& t.position_at(now_ms) == timestamp_ms
            &&& t.playback_start_ms == timestamp_ms
            &&& t.playback_end_ms == timestamp_ms + FRAGMENT_DURATION_MS
            &&& t.last_play_from_requested_ms == timestamp_ms
        }),
{
}

/// `SeekTo(ts)` loads the fragment at `ts` without playing it: the position
/// is `ts` whatever the clock reads.
pub proof fn law_seek_holds_position(s: ArchiveModel, timestamp_ms: u64, now_ms: u64, later_ms: u64)
    requires
        command_fits(s, ArchiveCommand::SeekTo { timestamp_ms }),
    ensures
        command_effect(s, ArchiveCommand::SeekTo { timestamp_ms }, now_ms).position_at(later_ms)
            == timestamp_ms,
{
}

/// `Stop` freezes the position where it was when the command came: from then
/// on the position is that one, whatever the clock reads.
pub proof fn law_stop_freezes_position(s: ArchiveModel, now_ms: u64, later_ms: u64)
    ensures
        command_effect(s, ArchiveCommand::Stop, now_ms).position_at(later_ms) == s.position_at(now_ms),
{
}

/// Every new fragment (`PlayFrom`, `SeekTo`) starts a new session and a new
/// playback generation, so that a next-fragment request planned before it is
/// never sent.
pub proof fn law_new_fragment_cancels_planned_requests(
    s: ArchiveModel,
    session_id: u64,
    cmd: ArchiveCommand,
    now_ms: u64,
    schedule: FragmentSchedule,
)
    requires
        cmd is PlayFrom || cmd is SeekTo,
        command_fits(s, cmd),
        schedule.session_id == session_id,
    ensures
        command_session(session_id, cmd) != schedule.session_id,
        command_effect(s, cmd, now_ms).playback_generation == s.playback_generation + 1,
{
}

/// `GetRanges` changes neither the state nor the session.
pub proof fn law_get_ranges_changes_nothing(s: ArchiveModel, session_id: u64, start: Option<u64>, end: Option<u64>, now_ms: u64)
    ensures
        command_effect(s, ArchiveCommand::GetRanges { start_time: start, end_time: end }, now_ms) == s,
        command_session(session_id, ArchiveCommand::GetRanges { start_time: start, end_time: end }) == session_id,
{
}

/// A fragment that answers the last request and holds the position becomes
/// the span played, with no pending fragment left; one that does not hold it
/// (while something plays) leaves the span and is kept pending.
pub proof fn law_fragment_played_or_pending(s: ArchiveModel, frag: ArchiveFragmentResponseData, pos: u64)
    ensures
        frag.start_time <= pos <= frag.end_time ==> {
            let t = fragment_effect(s, frag, pos);
            &&& t.playback_start_ms == frag.start_time
            &&& t.playback_end_ms == frag.end_time
            &&& t.pending_fragment_start_ms == 0
            &&& t.pending_fragment_end_ms == 0
        },
        !(frag.start_time <= pos <= frag.end_time) && !(s.playback_start_ms == 0 && s.playback_end_ms == 0) ==> {
            let t = fragment_effect(s, frag, pos);
            &&& t.playback_start_ms == s.playback_start_ms
            &&& t.playback_end_ms == s.playback_end_ms
            &&& t.pending_fragment_start_ms == frag.start_time
            &&& t.pending_fragment_end_ms == frag.end_time
        },
{
}

/// A fragment that starts at the requested time and lasts one fragment length
/// answers the request.
pub proof fn law_requested_fragment_matches(requested: u64, frag: ArchiveFragmentResponseData)
    requires
        requested + FRAGMENT_MATCH_MARGIN_MS <= u64::MAX,
        frag.start_time == requested,
        frag.end_time >= frag.start_time,
    ensures
        fragment_matches_request(requested, frag),
{
}

/// The next fragment is asked for two seconds before the current ten-second
/// fragment ends.
pub proof fn law_next_fragment_two_seconds_before_end()
    ensures
        NEXT_FRAGMENT_DELAY_MS + REQUEST_NEXT_FRAGMENT_BEFORE_END_MS == FRAGMENT_DURATION_MS,
        FRAGMENT_DURATION_MS == 10_000,
{
}

} // verus!
