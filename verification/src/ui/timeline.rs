//! The integer geometry of the archive timeline: the span of the ranges, the
//! visible window and how zoom and panning move it, the tick marks, the
//! visible parts of the ranges and the playhead. Pixel positions are floating
//! point and stay with the drawing code.

use vstd::prelude::*;
use crate::archive_protocol::TimeRange;
use crate::app_state::{ArchiveState, sat_add, sat_sub};

verus! {

/// Narrowest window that zooming allows (5 s).
pub const MIN_VIEW_SPAN_MS: u64 = 5_000;

/// The visible window `view_start..view_end`; (0, 0) means not set yet.
#[derive(Clone, Copy, Debug, PartialEq, Eq, Structural)]
pub struct ViewState {
    pub view_start_ms: u64,
    pub view_end_ms: u64,
}

impl ViewState {
    /// The window not set yet.
    pub fn new() -> (v: ViewState)
        ensures
            v.view_start_ms == 0,
            v.view_end_ms == 0,
    {
        ViewState { view_start_ms: 0, view_end_ms: 0 }
    }

    /// Length of the window; 0 where it is inverted.
    pub fn span_ms(&self) -> (r: u64)
        ensures
            r == sat_sub(self.view_end_ms, self.view_start_ms),
    {
        self.view_end_ms.saturating_sub(self.view_start_ms)
    }

    /// Whether the window is not set yet.
    pub fn is_unset(&self) -> (r: bool)
        ensures
            r == (self.view_start_ms == 0 && self.view_end_ms == 0),
    {
        self.view_start_ms == 0 && self.view_end_ms == 0
    }
}

/// The earliest start among `ranges`, or `u64::MAX` where there is none.
pub open spec fn min_start(ranges: Seq<TimeRange>) -> u64
    decreases ranges.len(),
{
    if ranges.len() == 0 {
        u64::MAX
    } else {
        let m = min_start(ranges.drop_last());
        if ranges.last().start_time < m {
            ranges.last().start_time
        } else {
            m
        }
    }
}

/// The latest end among `ranges`, or 0 where there is none.
pub open spec fn max_end(ranges: Seq<TimeRange>) -> u64
    decreases ranges.len(),
{
    if ranges.len() == 0 {
        0
    } else {
        let m = max_end(ranges.drop_last());
        if ranges.last().end_time > m {
            ranges.last().end_time
        } else {
            m
        }
    }
}

/// The span covered by `ranges`: the earliest start (0 where that is
/// `u64::MAX`, as for no ranges) and the latest end.
pub open spec fn ranges_span(ranges: Seq<TimeRange>) -> (u64, u64) {
    (if min_start(ranges) == u64::MAX { 0 } else { min_start(ranges) }, max_end(ranges))
}

/// The span covered by `ranges`: earliest start and latest end.
pub fn span(ranges: &[TimeRange]) -> (r: (u64, u64))
    ensures
        r == ranges_span(ranges@),
{
    let mut t_min = u64::MAX;
    let mut t_max: u64 = 0;
    let n = ranges.len();
    for i in 0..n
        invariant
            n == ranges@.len(),
            t_min == min_start(ranges@.take(i as int)),
            t_max == max_end(ranges@.take(i as int)),
    {
        let r = ranges[i];
        assert(ranges@.take(i + 1).drop_last() =~= ranges@.take(i as int));
        if r.start_time < t_min {
            t_min = r.start_time;
        }
        if r.end_time > t_max {
            t_max = r.end_time;
        }
    }
    assert(ranges@.take(n as int) =~= ranges@);
    if t_min == u64::MAX {
        t_min = 0;
    }
    (t_min, t_max)
}

/// Every range starts no earlier than the earliest start and ends no later
/// than the latest end, and both bounds are reached by some range.
pub proof fn law_span_bounds_ranges(ranges: Seq<TimeRange>)
    ensures
        forall|i: int| 0 <= i < ranges.len() ==> min_start(ranges) <= #[trigger] ranges[i].start_time
            && ranges[i].end_time <= max_end(ranges),
        ranges.len() > 0 ==> exists|i: int| 0 <= i < ranges.len() && #[trigger] ranges[i].start_time == min_start(ranges),
        ranges.len() > 0 ==> exists|i: int| 0 <= i < ranges.len() && #[trigger] ranges[i].end_time == max_end(ranges),
    decreases ranges.len(),
{
    if ranges.len() > 0 {
        let init = ranges.drop_last();
        law_span_bounds_ranges(init);
        assert forall|i: int| 0 <= i < ranges.len() implies min_start(ranges) <= #[trigger] ranges[i].start_time
            && ranges[i].end_time <= max_end(ranges) by {
            if i < ranges.len() - 1 {
                assert(ranges[i] == init[i]);
            }
        }
        if init.len() > 0 {
            let j = choose|j: int| 0 <= j < init.len() && #[trigger] init[j].start_time == min_start(init);
            let k = choose|k: int| 0 <= k < init.len() && #[trigger] init[k].end_time == max_end(init);
            assert(ranges[j] == init[j]);
            assert(ranges[k] == init[k]);
            if ranges.last().start_time >= min_start(init) {
                assert(ranges[j].start_time == min_start(ranges));
            } else {
                assert(ranges[ranges.len() - 1].start_time == min_start(ranges));
            }
            if ranges.last().end_time <= max_end(init) {
                assert(ranges[k].end_time == max_end(ranges));
            } else {
                assert(ranges[ranges.len() - 1].end_time == max_end(ranges));
            }
        } else {
            assert(ranges[ranges.len() - 1].start_time == min_start(ranges));
            assert(ranges[ranges.len() - 1].end_time == max_end(ranges));
        }
    }
}

/// Step between tick marks, in minutes, for a window of `span_ms`.
pub open spec fn tick_step_for(span_ms: u64) -> u64 {
    let span_min = span_ms / 60_000;
    if span_min > 24 * 60 {
        60
    } else if span_min > 6 * 60 {
        30
    } else if span_min > 120 {
        15
    } else if span_min > 60 {
        10
    } else if span_min > 30 {
        5
    } else {
        1
    }
}

/// Step between tick marks, in minutes, for a window of `span_ms`.
pub fn tick_step_minutes(span_ms: u64) -> (r: u64)
    ensures
        r == tick_step_for(span_ms),
{
    let span_min = span_ms / 60_000;
    if span_min > 24 * 60 {
        60
    } else if span_min > 6 * 60 {
        30
    } else if span_min > 120 {
        15
    } else if span_min > 60 {
        10
    } else if span_min > 30 {
        5
    } else {
        1
    }
}

/// A wider window never gets a finer tick step, and the step is one of the
/// whole-minute steps the scale uses.
pub proof fn law_tick_step_monotone(a: u64, b: u64)
    requires
        a <= b,
    ensures
        tick_step_for(a) <= tick_step_for(b),
        tick_step_for(a) == 1 || tick_step_for(a) == 5 || tick_step_for(a) == 10 || tick_step_for(a)
            == 15 || tick_step_for(a) == 30 || tick_step_for(a) == 60,
{
    assert(a / 60_000 <= b / 60_000) by (nonlinear_arith)
        requires
            a <= b,
    ;
}

/// The window used to draw: the whole span where the window is not set or
/// reaches outside the span, the window itself otherwise.
pub open spec fn fitted_view(v: ViewState, t_min: u64, t_max: u64) -> ViewState {
    if (v.view_start_ms == 0 && v.view_end_ms == 0) || v.view_start_ms < t_min || v.view_end_ms > t_max {
        ViewState { view_start_ms: t_min, view_end_ms: t_max }
    } else {
        v
    }
}

/// Brings the window within the span `t_min..t_max` before drawing.
pub fn fit_view(v: &mut ViewState, t_min: u64, t_max: u64)
    ensures
        *final(v) == fitted_view(*old(v), t_min, t_max),
{
    if v.is_unset() || v.view_start_ms < t_min || v.view_end_ms > t_max {
        v.view_start_ms = t_min;
        v.view_end_ms = t_max;
    }
}

/// The tick marks from `first` on by `step` up to `view_end`.
pub open spec fn ticks_from(t: u64, step: u64, view_end: u64) -> Seq<u64>
    decreases u64::MAX - t,
{
    if t > view_end {
        Seq::empty()
    } else if t == u64::MAX || step == 0 {
        seq![t]
    } else {
        seq![t] + ticks_from(sat_add(t, step), step, view_end)
    }
}

/// The step between tick marks of a window, in milliseconds.
pub open spec fn tick_step_ms(view_start: u64, view_end: u64) -> u64 {
    let view_span = if sat_sub(view_end, view_start) < 1 { 1 } else { sat_sub(view_end, view_start) };
    (tick_step_for(view_span as u64) * 60_000) as u64
}

/// The tick marks of a window: from the last multiple of the step at or
/// before `view_start`, every step, up to `view_end`.
pub open spec fn view_ticks(view_start: u64, view_end: u64) -> Seq<u64> {
    let step = tick_step_ms(view_start, view_end);
    ticks_from(((view_start / step) * step) as u64, step, view_end)
}

/// The tick marks drawn on the scale of a window. The window must end before
/// `u64::MAX`, where the walk along the ticks would never end.
pub fn tick_marks(view_start: u64, view_end: u64) -> (r: Vec<u64>)
    requires
        view_end < u64::MAX,
    ensures
        r@ == view_ticks(view_start, view_end),
{
    let span = view_end.saturating_sub(view_start);
    let view_span_ms = if span < 1 {
        1
    } else {
        span
    };
    let step_min = tick_step_minutes(view_span_ms);
    let step_ms = step_min * 60 * 1000;
    assert((view_start / step_ms) * step_ms <= view_start) by (nonlinear_arith)
        requires
            step_ms > 0,
    ;
    // The product never exceeds `view_start`, so it cannot saturate.
    let first_tick_ms = (view_start / step_ms) * step_ms;
    let mut out: Vec<u64> = Vec::new();
    let mut t = first_tick_ms;
    while t <= view_end
        invariant
            view_end < u64::MAX,
            step_ms > 0,
            step_ms == tick_step_ms(view_start, view_end),
            first_tick_ms == ((view_start / step_ms) * step_ms) as u64,
            out@ + ticks_from(t, step_ms, view_end) == view_ticks(view_start, view_end),
        decreases u64::MAX - t,
    {
        let ghost before = out@;
        out.push(t);
        assert(out@ + ticks_from(t.saturating_add(step_ms), step_ms, view_end) =~= before + ticks_from(
            t,
            step_ms,
            view_end,
        ));
        t = t.saturating_add(step_ms);
    }
    assert(out@ + Seq::<u64>::empty() =~= out@);
    out
}

/// The part of a range that lies within the window, if it is not empty.
pub open spec fn visible_part(r: TimeRange, view_start: u64, view_end: u64) -> Option<(u64, u64)> {
    let r0 = if r.start_time > view_start { r.start_time } else { view_start };
    let r1 = if r.end_time < view_end { r.end_time } else { view_end };
    if r1 <= r0 {
        None
    } else {
        Some((r0, r1))
    }
}

/// The part of a range drawn in the window.
pub fn visible_segment(r: &TimeRange, view_start: u64, view_end: u64) -> (s: Option<(u64, u64)>)
    ensures
        s == visible_part(*r, view_start, view_end),
{
    let r0 = if r.start_time > view_start {
        r.start_time
    } else {
        view_start
    };
    let r1 = if r.end_time < view_end {
        r.end_time
    } else {
        view_end
    };
    if r1 <= r0 {
        None
    } else {
        Some((r0, r1))
    }
}

/// A drawn part of a range lies within both the range and the window.
pub proof fn law_visible_part_within(r: TimeRange, view_start: u64, view_end: u64)
    ensures
        visible_part(r, view_start, view_end) matches Some((a, b)) ==> {
            &&& a < b
            &&& r.start_time <= a && b <= r.end_time
            &&& view_start <= a && b <= view_end
        },
{
}

/// Where the playhead is drawn: the RTP position (the fragment start while it
/// is 0), no later than the fragment end; shown only while a fragment span is
/// set and the point lies within the window.
pub open spec fn playhead_at(
    start_ms: u64,
    end_ms: u64,
    position_ms: u64,
    view_start: u64,
    view_end: u64,
) -> Option<u64> {
    let raw_pos = if position_ms > 0 { position_ms } else { start_ms };
    let draw_pos = if end_ms > start_ms && raw_pos > end_ms { end_ms } else { raw_pos };
    if end_ms > start_ms && view_start <= draw_pos && draw_pos <= view_end {
        Some(draw_pos)
    } else {
        None
    }
}

/// The time at which the playhead is drawn, if it is drawn.
pub fn playhead_ms(state: &ArchiveState, view_start: u64, view_end: u64) -> (r: Option<u64>)
    ensures
        r == playhead_at(
            state.playback_start_ms,
            state.playback_end_ms,
            state.playback_position_ms,
            view_start,
            view_end,
        ),
{
    let start_ms = state.playback_start_ms;
    let end_ms = state.playback_end_ms;
    let position_ms = state.playback_position_ms;
    let raw_pos = if position_ms > 0 {
        position_ms
    } else {
        start_ms
    };
    let draw_pos_ms = if end_ms > start_ms && raw_pos > end_ms {
        end_ms
    } else {
        raw_pos
    };
    if end_ms > start_ms && draw_pos_ms >= view_start && draw_pos_ms <= view_end {
        Some(draw_pos_ms)
    } else {
        None
    }
}

/// A drawn playhead lies within the fragment span and within the window.
pub proof fn law_playhead_within_span(start_ms: u64, end_ms: u64, position_ms: u64, view_start: u64, view_end: u64)
    requires
        start_ms <= position_ms,
    ensures
        playhead_at(start_ms, end_ms, position_ms, view_start, view_end) matches Some(p) ==> {
            &&& start_ms <= p <= end_ms
            &&& view_start <= p <= view_end
        },
{
}

/// The width of the window after a zoom step: the scaled width, kept between
/// the narrowest window and the whole span.
pub open spec fn zoomed_span(scaled_span_ms: u64, full_span: u64) -> u64 {
    clamp_span(scaled_span_ms, MIN_VIEW_SPAN_MS, full_span)
}

/// `x` kept within `lo..=hi`, as `Ord::clamp` where `lo <= hi`.
pub open spec fn clamp_span(x: u64, lo: u64, hi: u64) -> u64 {
    if x < lo {
        lo
    } else if x > hi {
        hi
    } else {
        x
    }
}

/// The width of the window after a zoom step. The whole span must be at
/// least the narrowest window, as `Ord::clamp` demands.
pub fn zoom_span(scaled_span_ms: u64, full_span: u64) -> (r: u64)
    requires
        MIN_VIEW_SPAN_MS <= full_span,
    ensures
        r == zoomed_span(scaled_span_ms, full_span),
        MIN_VIEW_SPAN_MS <= r <= full_span,
{
    if scaled_span_ms < MIN_VIEW_SPAN_MS {
        MIN_VIEW_SPAN_MS
    } else if scaled_span_ms > full_span {
        full_span
    } else {
        scaled_span_ms
    }
}

/// The start of the window after a zoom step before it is pushed back past
/// `t_min`: `offset_ms` before the centre, or `new_span` before `t_max` where
/// the window would end past it.
pub open spec fn zoom_first_start(t_center: u64, new_span: u64, offset_ms: u64, t_max: u64) -> u64 {
    let s0 = sat_sub(t_center, offset_ms);
    if sat_add(s0, new_span) > t_max {
        sat_sub(t_max, new_span)
    } else {
        s0
    }
}

/// The window after a zoom step around `t_center`: `offset_ms` before the
/// centre and `new_span` wide, pushed back inside `t_min..t_max` at either end.
pub open spec fn zoomed_view(t_center: u64, new_span: u64, offset_ms: u64, t_min: u64, t_max: u64) -> ViewState {
    let s0 = sat_sub(t_center, offset_ms);
    let e0 = sat_add(s0, new_span);
    let (s1, e1) = if e0 > t_max { (sat_sub(t_max, new_span), t_max) } else { (s0, e0) };
    if s1 < t_min {
        ViewState {
            view_start_ms: t_min,
            view_end_ms: if t_min + new_span < t_max { (t_min + new_span) as u64 } else { t_max },
        }
    } else {
        ViewState { view_start_ms: s1, view_end_ms: e1 }
    }
}

/// The inputs on which a zoom step is defined: where the window is pushed
/// back to `t_min`, `t_min + new_span` fits in 64 bits.
pub open spec fn zoom_fits(t_center: u64, new_span: u64, offset_ms: u64, t_min: u64, t_max: u64) -> bool {
    zoom_first_start(t_center, new_span, offset_ms, t_max) < t_min ==> t_min + new_span <= u64::MAX
}

/// Whether a zoom step is defined on these inputs.
pub fn zoom_fits_now(t_center: u64, new_span: u64, offset_ms: u64, t_min: u64, t_max: u64) -> (r: bool)
    ensures
        r == zoom_fits(t_center, new_span, offset_ms, t_min, t_max),
{
    let s0 = t_center.saturating_sub(offset_ms);
    let s1 = if s0.saturating_add(new_span) > t_max {
        t_max.saturating_sub(new_span)
    } else {
        s0
    };
    s1 >= t_min || new_span <= u64::MAX - t_min
}

/// Places the window after a zoom step.
pub fn zoom_window(t_center: u64, new_span: u64, offset_ms: u64, t_min: u64, t_max: u64) -> (v: ViewState)
    requires
        zoom_fits(t_center, new_span, offset_ms, t_min, t_max),
    ensures
        v == zoomed_view(t_center, new_span, offset_ms, t_min, t_max),
{
    let mut new_start = t_center.saturating_sub(offset_ms);
    let mut new_end = new_start.saturating_add(new_span);
    if new_end > t_max {
        new_end = t_max;
        new_start = new_end.saturating_sub(new_span);
    }
    if new_start < t_min {
        new_start = t_min;
        new_end = if t_min + new_span < t_max {
            t_min + new_span
        } else {
            t_max
        };
    }
    ViewState { view_start_ms: new_start, view_end_ms: new_end }
}

/// A zoomed window lies within the span and, where the span is wide enough,
/// is exactly as wide as asked.
pub proof fn law_zoom_within_span(t_center: u64, new_span: u64, offset_ms: u64, t_min: u64, t_max: u64)
    requires
        t_min <= t_max < u64::MAX,
        new_span <= t_max - t_min,
    ensures
        zoom_fits(t_center, new_span, offset_ms, t_min, t_max),
        ({
            let v = zoomed_view(t_center, new_span, offset_ms, t_min, t_max);
            &&& t_min <= v.view_start_ms <= v.view_end_ms <= t_max
            &&& v.view_end_ms - v.view_start_ms == new_span
        }),
{
}

/// Where the window fits without being pushed back (it starts no earlier
/// than `t_min` and ends no later than `t_max`), a zoom step places it
/// `offset_ms` before the centre and `new_span` wide.
pub proof fn law_zoom_starts_offset_before_centre(
    t_center: u64,
    new_span: u64,
    offset_ms: u64,
    t_min: u64,
    t_max: u64,
)
    requires
        t_min + offset_ms <= t_center,
        t_center - offset_ms + new_span <= t_max,
    ensures
        zoom_fits(t_center, new_span, offset_ms, t_min, t_max),
        zoomed_view(t_center, new_span, offset_ms, t_min, t_max) == (ViewState {
            view_start_ms: (t_center - offset_ms) as u64,
            view_end_ms: (t_center - offset_ms + new_span) as u64,
        }),
{
}

/// A time as the signed 64-bit value that `as i64` gives: itself up to
/// `i64::MAX`, negative above it.
pub proof fn lemma_as_i64(x: u64)
    ensures
        x <= i64::MAX ==> (x as i64) == x,
        x > i64::MAX ==> (x as i64) < 0,
{
    assert(x > 0x7fff_ffff_ffff_ffffu64 ==> (x as i64) < 0i64) by (bit_vector);
}

/// Where a drag moves the start of the window, before the clamps: the start
/// it had when the drag began, taken as a signed time, less the delta.
pub open spec fn drag_moved(start: ViewState, delta_t_ms: i64) -> int {
    (start.view_start_ms as i64) - delta_t_ms
}

/// A time as the signed value that `as i64` gives (see `lemma_as_i64`).
pub open spec fn signed_time(t: u64) -> int {
    (t as i64) as int
}

/// `x` raised to `lo`, then lowered to `hi`.
pub open spec fn clamp_int(x: int, lo: int, hi: int) -> int {
    let y = if x < lo { lo } else { x };
    if y > hi { hi } else { y }
}

/// The start of the window after a drag: the moved start kept between `t_min`
/// and the last start that leaves its width inside the span, first as signed
/// times, then no earlier than 0, then as unsigned times.
pub open spec fn drag_start(start: ViewState, delta_t_ms: i64, t_min: u64, t_max: u64) -> u64 {
    let hi = sat_sub(t_max, sat_sub(start.view_end_ms, start.view_start_ms));
    let a = clamp_int(drag_moved(start, delta_t_ms), signed_time(t_min), signed_time(hi));
    clamp_span((if a < 0 { 0 } else { a }) as u64, t_min, hi)
}

/// The window after dragging by `delta_t_ms` from the window `start` had when
/// the drag began: starting at `drag_start`, as wide as before where the span
/// allows and ending no later than `t_max`. `None` for an empty window, which
/// is not dragged.
pub open spec fn dragged_view(start: ViewState, delta_t_ms: i64, t_min: u64, t_max: u64) -> Option<ViewState> {
    let span = sat_sub(start.view_end_ms, start.view_start_ms);
    let d = drag_start(start, delta_t_ms, t_min, t_max);
    if span == 0 {
        None
    } else {
        Some(ViewState {
            view_start_ms: d,
            view_end_ms: if d + span < t_max { (d + span) as u64 } else { t_max },
        })
    }
}

/// The inputs on which dragging a non-empty window is defined: the moved
/// start fits a signed 64-bit time, and the window fits in the span so that
/// the clamp has a range.
pub open spec fn drag_fits(start: ViewState, delta_t_ms: i64, t_min: u64, t_max: u64) -> bool {
    let span = sat_sub(start.view_end_ms, start.view_start_ms);
    span == 0 || {
        &&& i64::MIN <= drag_moved(start, delta_t_ms) <= i64::MAX
        &&& t_min <= sat_sub(t_max, span)
    }
}

/// Whether dragging is defined on these inputs.
pub fn drag_fits_now(start: ViewState, delta_t_ms: i64, t_min: u64, t_max: u64) -> (r: bool)
    ensures
        r == drag_fits(start, delta_t_ms, t_min, t_max),
{
    let span = start.view_end_ms.saturating_sub(start.view_start_ms);
    if span == 0 {
        return true;
    }
    let moved = start.view_start_ms as i64 as i128 - delta_t_ms as i128;
    moved >= i64::MIN as i128 && moved <= i64::MAX as i128 && t_min <= t_max.saturating_sub(span)
}

/// Moves the window while the mouse drags it by `delta_t_ms` (computed from
/// the pixel offset by the caller).
pub fn drag_view(start: ViewState, delta_t_ms: i64, t_min: u64, t_max: u64) -> (r: Option<ViewState>)
    requires
        drag_fits(start, delta_t_ms, t_min, t_max),
    ensures
        r == dragged_view(start, delta_t_ms, t_min, t_max),
{
    let view_span = start.view_end_ms.saturating_sub(start.view_start_ms);
    if view_span == 0 {
        return None;
    }
    let hi = t_max.saturating_sub(view_span);
    let moved = start.view_start_ms as i64 - delta_t_ms;
    let a = if moved < t_min as i64 {
        t_min as i64
    } else {
        moved
    };
    let b = if a > hi as i64 {
        hi as i64
    } else {
        a
    };
    let c = if b < 0 {
        0
    } else {
        b
    };
    let c = c as u64;
    let d = if c < t_min {
        t_min
    } else if c > hi {
        hi
    } else {
        c
    };
    let new_end = if d + view_span < t_max {
        d + view_span
    } else {
        t_max
    };
    let ns = new_end.saturating_sub(view_span);
    let new_start = if ns < t_min {
        t_min
    } else {
        ns
    };
    Some(ViewState { view_start_ms: new_start, view_end_ms: new_end })
}

/// A dragged window stays within the span and keeps its width.
pub proof fn law_drag_keeps_width(start: ViewState, delta_t_ms: i64, t_min: u64, t_max: u64)
    requires
        drag_fits(start, delta_t_ms, t_min, t_max),
        start.view_start_ms < start.view_end_ms,
        start.view_end_ms - start.view_start_ms <= t_max - t_min,
    ensures
        dragged_view(start, delta_t_ms, t_min, t_max) matches Some(v) && t_min <= v.view_start_ms
            && v.view_end_ms <= t_max && v.view_end_ms - v.view_start_ms == start.view_end_ms
            - start.view_start_ms,
{
}

/// Where a scroll step moves the start of the window, before the clamps: its
/// start, taken as a signed time, plus the delta.
pub open spec fn pan_moved(v: ViewState, delta_ms: i64) -> int {
    (v.view_start_ms as i64) + delta_ms
}

/// The start of the window after a scroll step: moved, kept between `t_min`
/// and the last start that leaves its width inside the span (both taken as
/// signed times), no earlier than 0, then between `t_min` and `t_max - 1`.
pub open spec fn panned_start(v: ViewState, delta_ms: i64, t_min: u64, t_max: u64) -> u64 {
    let hi = sat_sub(t_max, sat_sub(v.view_end_ms, v.view_start_ms));
    let a = clamp_int(pan_moved(v, delta_ms), signed_time(t_min), signed_time(hi));
    clamp_span((if a < 0 { 0 } else { a }) as u64, t_min, sat_sub(t_max, 1))
}

/// The window after a scroll step pans it by `delta_ms` (positive = later):
/// its start moved and kept within the span, its width kept where the span
/// allows.
pub open spec fn panned_view(v: ViewState, delta_ms: i64, t_min: u64, t_max: u64) -> ViewState {
    let span = sat_sub(v.view_end_ms, v.view_start_ms);
    let start = panned_start(v, delta_ms, t_min, t_max);
    ViewState {
        view_start_ms: start,
        view_end_ms: if start + span < t_max { (start + span) as u64 } else { t_max },
    }
}

/// The inputs on which a scroll pan is defined: the moved start fits a signed
/// 64-bit time, both clamps have a non-empty range, and the new start plus
/// the width fits in 64 bits.
pub open spec fn pan_fits(v: ViewState, delta_ms: i64, t_min: u64, t_max: u64) -> bool {
    let span = sat_sub(v.view_end_ms, v.view_start_ms);
    &&& i64::MIN <= pan_moved(v, delta_ms) <= i64::MAX
    &&& (t_min as i64) <= (sat_sub(t_max, span) as i64)
    &&& t_min <= sat_sub(t_max, 1)
    &&& panned_start(v, delta_ms, t_min, t_max) + span <= u64::MAX
}

/// The start of the window after a scroll step.
fn pan_start(v: &ViewState, delta_ms: i64, t_min: u64, t_max: u64) -> (r: u64)
    requires
        i64::MIN <= pan_moved(*v, delta_ms) <= i64::MAX,
        (t_min as i64) <= (sat_sub(t_max, sat_sub(v.view_end_ms, v.view_start_ms)) as i64),
    ensures
        r == panned_start(*v, delta_ms, t_min, t_max),
{
    let view_span_u = v.span_ms();
    let hi = t_max.saturating_sub(view_span_u);
    let moved = v.view_start_ms as i64 + delta_ms;
    let a = if moved < t_min as i64 {
        t_min as i64
    } else if moved > hi as i64 {
        hi as i64
    } else {
        moved
    };
    let b = if a < 0 {
        0
    } else {
        a
    };
    let b = b as u64;
    let upper = t_max.saturating_sub(1);
    if b < t_min {
        t_min
    } else if b > upper {
        upper
    } else {
        b
    }
}

/// Whether a scroll pan is defined on these inputs.
pub fn pan_fits_now(v: &ViewState, delta_ms: i64, t_min: u64, t_max: u64) -> (r: bool)
    ensures
        r == pan_fits(*v, delta_ms, t_min, t_max),
{
    let span = v.span_ms();
    let moved = v.view_start_ms as i64 as i128 + delta_ms as i128;
    if moved < i64::MIN as i128 || moved > i64::MAX as i128 {
        return false;
    }
    if (t_min as i64) > (t_max.saturating_sub(span) as i64) || t_min > t_max.saturating_sub(1) {
        return false;
    }
    let start = pan_start(v, delta_ms, t_min, t_max);
    span <= u64::MAX - start
}

/// Pans the window by `delta_ms` (computed from the scroll amount by the caller).
pub fn pan_view(v: &mut ViewState, delta_ms: i64, t_min: u64, t_max: u64)
    requires
        pan_fits(*old(v), delta_ms, t_min, t_max),
    ensures
        *final(v) == panned_view(*old(v), delta_ms, t_min, t_max),
{
    let view_span_u = v.span_ms();
    let start = pan_start(v, delta_ms, t_min, t_max);
    v.view_start_ms = start;
    v.view_end_ms = if start + view_span_u < t_max {
        start + view_span_u
    } else {
        t_max
    };
}

/// A panned window lies within the span and keeps its width.
pub proof fn law_pan_keeps_width(v: ViewState, delta_ms: i64, t_min: u64, t_max: u64)
    requires
        pan_fits(v, delta_ms, t_min, t_max),
        v.view_start_ms <= v.view_end_ms,
        v.view_end_ms - v.view_start_ms <= t_max - t_min,
    ensures
        ({
            let w = panned_view(v, delta_ms, t_min, t_max);
            &&& t_min <= w.view_start_ms <= w.view_end_ms <= t_max
            &&& w.view_end_ms - w.view_start_ms == v.view_end_ms - v.view_start_ms
        }),
{
    lemma_as_i64(sat_sub(t_max, sat_sub(v.view_end_ms, v.view_start_ms)));
}

/// The window after the ranges changed: the whole span where it is not empty.
pub open spec fn refreshed_view(v: ViewState, t_min: u64, t_max: u64) -> ViewState {
    if t_max > t_min {
        ViewState { view_start_ms: t_min, view_end_ms: t_max }
    } else {
        v
    }
}

/// On the redraw timer: where new ranges arrived, clears the mark and shows
/// their whole span; returns whether they had arrived.
pub fn refresh_view(state: &mut ArchiveState, v: &mut ViewState) -> (dirty: bool)
    ensures
        dirty == old(state).timeline_dirty,
        final(state)@ == (crate::app_state::ArchiveModel { timeline_dirty: false, ..old(state)@ }),
        dirty && old(state).ranges@.len() > 0 ==> *final(v) == refreshed_view(
            *old(v),
            ranges_span(old(state).ranges@).0,
            ranges_span(old(state).ranges@).1,
        ),
        !(dirty && old(state).ranges@.len() > 0) ==> *final(v) == *old(v),
{
    let dirty = state.timeline_dirty;
    state.timeline_dirty = false;
    if dirty {
        let ranges = state.get_ranges();
        if ranges.len() > 0 {
            let (t_min, t_max) = span(ranges.as_slice());
            if t_max > t_min {
                v.view_start_ms = t_min;
                v.view_end_ms = t_max;
            }
        }
    }
    dirty
}

} // verus!
