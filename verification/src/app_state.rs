//! Playback state shared by the user interface and the archive loop: the
//! archive ranges, the span of the fragment being played, the playback
//! position and its anchoring to the wall clock, and the commands of the UI.

use vstd::prelude::*;
use crate::archive_protocol::TimeRange;

verus! {

/// Commands from the user interface to the archive loop.
#[derive(Debug, Clone, Copy, PartialEq, Eq, Structural)]
pub enum ArchiveCommand {
    /// Ask for the ranges of a period (milliseconds; `None` = unbounded).
    GetRanges { start_time: Option<u64>, end_time: Option<u64> },
    /// Play from the given timestamp (milliseconds).
    PlayFrom { timestamp_ms: u64 },
    /// Stop playing.
    Stop,
    /// Load the archive at the given timestamp without playing it.
    SeekTo { timestamp_ms: u64 },
    /// Pause the stream (`stop_stream`).
    Pause,
    /// Resume the stream (`play_stream`).
    Play,
}

/// The state that the interface draws: the archive ranges and the playback position.
pub struct ArchiveState {
    pub ranges: Vec<TimeRange>,
    /// Start of the fragment being played (ms).
    pub playback_start_ms: u64,
    /// End of the fragment being played (ms).
    pub playback_end_ms: u64,
    /// Position last reported by RTP (ms).
    pub playback_position_ms: u64,
    /// Content time (ms) at which playback was anchored to the wall clock.
    pub playback_content_start_ms: u64,
    /// Wall-clock time (unix ms) of that anchoring; 0 when playback is not anchored.
    pub playback_started_at_unix_ms: u64,
    /// Raised on every new playback so that the RTP reader restarts its offset.
    pub playback_generation: u64,
    /// Timestamp of the last fragment asked for, to tell stale `archive_fragment` replies.
    pub last_play_from_requested_ms: u64,
    /// Start of a loaded fragment that does not yet hold the position (0 = none).
    pub pending_fragment_start_ms: u64,
    /// End of that fragment (0 = none).
    pub pending_fragment_end_ms: u64,
    /// Raised when new ranges arrive so that the timeline is redrawn.
    pub timeline_dirty: bool,
}

/// The mathematical content of an [`ArchiveState`].
pub struct ArchiveModel {
    pub ranges: Seq<TimeRange>,
    pub playback_start_ms: u64,
    pub playback_end_ms: u64,
    pub playback_position_ms: u64,
    pub playback_content_start_ms: u64,
    pub playback_started_at_unix_ms: u64,
    pub playback_generation: u64,
    pub last_play_from_requested_ms: u64,
    pub pending_fragment_start_ms: u64,
    pub pending_fragment_end_ms: u64,
    pub timeline_dirty: bool,
}

impl View for ArchiveState {
    type V = ArchiveModel;

    open spec fn view(&self) -> ArchiveModel {
        ArchiveModel {
            ranges: self.ranges@,
            playback_start_ms: self.playback_start_ms,
            playback_end_ms: self.playback_end_ms,
            playback_position_ms: self.playback_position_ms,
            playback_content_start_ms: self.playback_content_start_ms,
            playback_started_at_unix_ms: self.playback_started_at_unix_ms,
            playback_generation: self.playback_generation,
            last_play_from_requested_ms: self.last_play_from_requested_ms,
            pending_fragment_start_ms: self.pending_fragment_start_ms,
            pending_fragment_end_ms: self.pending_fragment_end_ms,
            timeline_dirty: self.timeline_dirty,
        }
    }
}

/// The state before anything happened: no ranges, every number 0, not dirty.
pub open spec fn initial_model() -> ArchiveModel {
    ArchiveModel {
        ranges: Seq::empty(),
        playback_start_ms: 0,
        playback_end_ms: 0,
        playback_position_ms: 0,
        playback_content_start_ms: 0,
        playback_started_at_unix_ms: 0,
        playback_generation: 0,
        last_play_from_requested_ms: 0,
        pending_fragment_start_ms: 0,
        pending_fragment_end_ms: 0,
        timeline_dirty: false,
    }
}

/// `min(max(x, lo), hi)` where `lo <= hi`.
pub open spec fn clamp_u64(x: u64, lo: u64, hi: u64) -> u64 {
    if x < lo {
        lo
    } else if x > hi {
        hi
    } else {
        x
    }
}

/// `a - b`, or 0 where `b > a`.
pub open spec fn sat_sub(a: u64, b: u64) -> u64 {
    if a >= b {
        (a - b) as u64
    } else {
        0
    }
}

/// `a + b`, or `u64::MAX` where the sum does not fit.
pub open spec fn sat_add(a: u64, b: u64) -> u64 {
    if a + b <= u64::MAX {
        (a + b) as u64
    } else {
        u64::MAX
    }
}

impl ArchiveModel {
    /// The ranges replaced; the timeline marked for redrawing.
    pub open spec fn with_ranges(self, ranges: Seq<TimeRange>) -> ArchiveModel {
        ArchiveModel { ranges, timeline_dirty: true, ..self }
    }

    /// The span of the fragment being played replaced.
    pub open spec fn with_span(self, start_ms: u64, end_ms: u64) -> ArchiveModel {
        ArchiveModel { playback_start_ms: start_ms, playback_end_ms: end_ms, ..self }
    }

    /// The RTP position replaced.
    pub open spec fn with_position(self, position_ms: u64) -> ArchiveModel {
        ArchiveModel { playback_position_ms: position_ms, ..self }
    }

    /// Playback anchored: `content_start_ms` of the content plays at wall-clock time `now_ms`.
    pub open spec fn with_wall_start(self, content_start_ms: u64, now_ms: u64) -> ArchiveModel {
        ArchiveModel {
            playback_content_start_ms: content_start_ms,
            playback_started_at_unix_ms: now_ms,
            ..self
        }
    }

    /// The anchoring to the wall clock removed.
    pub open spec fn without_wall_start(self) -> ArchiveModel {
        ArchiveModel { playback_started_at_unix_ms: 0, ..self }
    }

    /// The generation raised by one.
    pub open spec fn with_next_generation(self) -> ArchiveModel {
        ArchiveModel { playback_generation: (self.playback_generation + 1) as u64, ..self }
    }

    /// The playback position at wall-clock time `now_ms`: the RTP position
    /// while playback is not anchored; otherwise the anchored content time plus
    /// the time elapsed since the anchoring, kept within the fragment span where
    /// that span is not empty.
    pub open spec fn position_at(self, now_ms: u64) -> u64 {
        if self.playback_started_at_unix_ms == 0 {
            self.playback_position_ms
        } else {
            let elapsed = sat_sub(now_ms, self.playback_started_at_unix_ms);
            let pos = sat_add(self.playback_content_start_ms, elapsed);
            if self.playback_end_ms > self.playback_start_ms {
                clamp_u64(pos, self.playback_start_ms, self.playback_end_ms)
            } else {
                pos
            }
        }
    }
}

/// The current time as `std::time::SystemTime`.
#[verifier::external_type_specification]
#[verifier::external_body]
pub struct ExSystemTime(std::time::SystemTime);

/// The error of `SystemTime::duration_since` for a time before its argument.
#[verifier::external_type_specification]
#[verifier::external_body]
pub struct ExSystemTimeError(std::time::SystemTimeError);

/// Calls `std::time::SystemTime::now`; nothing is stated of the time it reads.
#[verifier::external_body]
fn system_time_now() -> std::time::SystemTime {
    std::time::SystemTime::now()
}

/// Calls `SystemTime::duration_since(UNIX_EPOCH)`; nothing is stated of the result.
#[verifier::external_body]
fn since_unix_epoch(t: &std::time::SystemTime) -> Result<std::time::Duration, std::time::SystemTimeError> {
    t.duration_since(std::time::UNIX_EPOCH)
}

/// Calls `Duration::as_millis`; nothing is stated of the result, as a
/// `Duration` is opaque to the proofs.
#[verifier::external_body]
fn duration_millis(d: &std::time::Duration) -> u128 {
    d.as_millis()
}

/// The unix time in milliseconds kept from the time elapsed since the epoch:
/// truncated to 64 bits, or 0 where the clock read a time before the epoch.
pub open spec fn unix_ms_of(elapsed_ms: Option<u128>) -> u64 {
    match elapsed_ms {
        Some(ms) => ms as u64,
        None => 0,
    }
}

/// The unix time in milliseconds from the time elapsed since the epoch, if
/// the clock read a time after it.
pub fn unix_ms_from_elapsed(elapsed_ms: Option<u128>) -> (r: u64)
    ensures
        r == unix_ms_of(elapsed_ms),
{
    match elapsed_ms {
        Some(ms) => {
            #[verifier::truncate]
            (ms as u64)
        },
        None => 0,
    }
}

/// Milliseconds since the unix epoch on the wall clock, truncated to 64 bits;
/// 0 where the clock reads a time before the epoch.
pub fn unix_now_ms() -> u64 {
    let now = system_time_now();
    let elapsed_ms = match since_unix_epoch(&now) {
        Ok(d) => Some(duration_millis(&d)),
        Err(_) => None,
    };
    unix_ms_from_elapsed(elapsed_ms)
}

impl Default for ArchiveState {
    fn default() -> (s: Self)
        ensures
            s@ == initial_model(),
    {
        ArchiveState {
            ranges: Vec::new(),
            playback_start_ms: 0,
            playback_end_ms: 0,
            playback_position_ms: 0,
            playback_content_start_ms: 0,
            playback_started_at_unix_ms: 0,
            playback_generation: 0,
            last_play_from_requested_ms: 0,
            pending_fragment_start_ms: 0,
            pending_fragment_end_ms: 0,
            timeline_dirty: false,
        }
    }
}

impl ArchiveState {
    /// Raises the playback generation (on every new playback) and returns the new one.
    pub fn next_playback_generation(&mut self) -> (g: u64)
        requires
            old(self).playback_generation < u64::MAX,
        ensures
            final(self)@ == old(self)@.with_next_generation(),
            g == old(self).playback_generation + 1,
            g == final(self).playback_generation,
    {
        self.playback_generation = self.playback_generation + 1;
        self.playback_generation
    }

    /// The current playback generation.
    pub fn playback_generation(&self) -> (g: u64)
        ensures
            g == self.playback_generation,
    {
        self.playback_generation
    }

    /// Replaces the archive ranges and marks the timeline for redrawing.
    pub fn set_ranges(&mut self, ranges: Vec<TimeRange>)
        ensures
            final(self)@ == old(self)@.with_ranges(ranges@),
    {
        self.ranges = ranges;
        self.timeline_dirty = true;
    }

    /// A copy of the archive ranges.
    pub fn get_ranges(&self) -> (r: Vec<TimeRange>)
        ensures
            r@ == self.ranges@,
    {
        let mut r: Vec<TimeRange> = Vec::new();
        let n = self.ranges.len();
        for i in 0..n
            invariant
                n == self.ranges@.len(),
                r@ == self.ranges@.take(i as int),
        {
            r.push(self.ranges[i]);
            assert(self.ranges@.take(i + 1) == self.ranges@.take(i as int).push(self.ranges@[i as int]));
        }
        assert(self.ranges@.take(n as int) == self.ranges@);
        r
    }

    /// Sets the span of the fragment being played.
    pub fn set_playback_span(&mut self, start_ms: u64, end_ms: u64)
        ensures
            final(self)@ == old(self)@.with_span(start_ms, end_ms),
    {
        self.playback_start_ms = start_ms;
        self.playback_end_ms = end_ms;
    }

    /// Sets the position reported by RTP.
    pub fn set_playback_position(&mut self, position_ms: u64)
        ensures
            final(self)@ == old(self)@.with_position(position_ms),
    {
        self.playback_position_ms = position_ms;
    }

    /// Anchors playback to the wall clock: `content_start_ms` of the content
    /// plays at wall-clock time `now_ms`.
    pub fn set_playback_wall_start_at(&mut self, content_start_ms: u64, now_ms: u64)
        ensures
            final(self)@ == old(self)@.with_wall_start(content_start_ms, now_ms),
    {
        self.playback_content_start_ms = content_start_ms;
        self.playback_started_at_unix_ms = now_ms;
    }

    /// Anchors playback to the wall clock as it reads now (on `PlayFrom`).
    pub fn set_playback_wall_start(&mut self, content_start_ms: u64)
        ensures
            exists|now_ms: u64| final(self)@ == old(self)@.with_wall_start(content_start_ms, now_ms),
    {
        let now_ms = unix_now_ms();
        self.set_playback_wall_start_at(content_start_ms, now_ms);
    }

    /// Removes the anchoring to the wall clock (on `Stop`).
    pub fn clear_playback_wall_start(&mut self)
        ensures
            final(self)@ == old(self)@.without_wall_start(),
    {
        self.playback_started_at_unix_ms = 0;
    }

    /// The playback position at wall-clock time `now_ms`.
    pub fn playback_position_at(&self, now_ms: u64) -> (p: u64)
        ensures
            p == self@.position_at(now_ms),
    {
        let started_at = self.playback_started_at_unix_ms;
        if started_at == 0 {
            return self.playback_position_ms;
        }
        let elapsed = now_ms.saturating_sub(started_at);
        let pos = self.playback_content_start_ms.saturating_add(elapsed);
        let start = self.playback_start_ms;
        let end = self.playback_end_ms;
        if end > start {
            if pos < start {
                start
            } else if pos > end {
                end
            } else {
                pos
            }
        } else {
            pos
        }
    }

    /// The playback position by the wall clock as it reads now:
    /// `content_start + (now - started_at)`, within `[start, end]`.
    pub fn current_playback_position_ms(&self) -> (p: u64)
        ensures
            exists|now_ms: u64| p == self@.position_at(now_ms),
    {
        if self.playback_started_at_unix_ms == 0 {
            return self.playback_position_at(0);
        }
        let now_ms = unix_now_ms();
        self.playback_position_at(now_ms)
    }
}

/// What is written by `set_ranges` is what `get_ranges` reads back, and the
/// timeline is marked for redrawing.
pub proof fn law_ranges_read_back(s: ArchiveModel, ranges: Seq<TimeRange>)
    ensures
        s.with_ranges(ranges).ranges == ranges,
        s.with_ranges(ranges).timeline_dirty,
{
}

/// While playback is not anchored to the wall clock the position is the RTP
/// position, whatever the clock reads; while it is anchored and the fragment
/// span is not empty, the position stays within that span.
pub proof fn law_position_within_span(s: ArchiveModel, now_ms: u64)
    ensures
        s.playback_started_at_unix_ms == 0 ==> s.position_at(now_ms) == s.playback_position_ms,
        s.playback_started_at_unix_ms != 0 && s.playback_end_ms > s.playback_start_ms ==>
            s.playback_start_ms <= s.position_at(now_ms) <= s.playback_end_ms,
{
}

/// Anchored playback advances with the wall clock: within the span, the
/// position `d` ms after the anchoring is the anchored content time plus `d`.
pub proof fn law_position_follows_clock(s: ArchiveModel, d: u64)
    requires
        s.playback_started_at_unix_ms != 0,
        s.playback_started_at_unix_ms + d <= u64::MAX,
        s.playback_content_start_ms + d <= u64::MAX,
        s.playback_end_ms > s.playback_start_ms,
        s.playback_start_ms <= s.playback_content_start_ms + d <= s.playback_end_ms,
    ensures
        s.position_at((s.playback_started_at_unix_ms + d) as u64) == s.playback_content_start_ms + d,
{
}

} // verus!
