//! The arithmetic of the offer side: unwrapping 32-bit RTP timestamps, turning
//! them into a playback position on the 90 kHz video clock, and forcing the
//! DTLS role of the offer to `active`.

use vstd::prelude::*;
use crate::app_state::{sat_add, sat_sub};
use crate::text::{has_substring, occurs_at, occurs_at_exec, str_chars};

verus! {

/// Clock rate of RTP timestamps for H.264/HEVC (90 kHz).
pub const RTP_CLOCK_RATE_HZ: u64 = 90_000;

/// The step from timestamp `prev_raw` to `raw_ts` taken the short way round
/// the 32-bit circle: the difference, brought into `[-2^31, 2^31)` (a
/// difference of exactly `-2^31` stays as it is).
pub open spec fn rtp_step(raw_ts: u32, prev_raw: u32) -> int {
    let diff = raw_ts - prev_raw;
    if 0 <= diff < 0x8000_0000 {
        diff
    } else if -0x8000_0000 <= diff < 0 {
        diff
    } else if diff < 0 {
        diff + 0x1_0000_0000
    } else {
        diff - 0x1_0000_0000
    }
}

/// Unwraps a 32-bit RTP timestamp that wraps around mid-stream: the unwrapped
/// value of the previous timestamp plus the short step to this one.
pub fn unwrap_rtp_timestamp(raw_ts: u32, prev_raw: u32, prev_unwrapped: i64) -> (r: i64)
    requires
        i64::MIN <= prev_unwrapped + rtp_step(raw_ts, prev_raw) <= i64::MAX,
    ensures
        r == prev_unwrapped + rtp_step(raw_ts, prev_raw),
{
    let diff = raw_ts as i64 - prev_raw as i64;
    let delta = if diff >= 0 && diff < 0x8000_0000 {
        diff
    } else if diff < 0 && diff >= -0x8000_0000 {
        diff
    } else if diff < 0 {
        diff + 0x1_0000_0000
    } else {
        diff - 0x1_0000_0000
    };
    prev_unwrapped + delta
}

/// The short step lies within half the circle and lands on the new timestamp:
/// `prev_raw + step` is `raw_ts` modulo 2^32.
pub proof fn law_rtp_step_is_short_and_exact(raw_ts: u32, prev_raw: u32)
    ensures
        -0x8000_0000 <= rtp_step(raw_ts, prev_raw) < 0x8000_0000,
        (prev_raw + rtp_step(raw_ts, prev_raw)) % 0x1_0000_0000 == raw_ts as int,
{
}

/// A timestamp `k` ticks after the previous one (with `k < 2^31`), wrapped or
/// not, unwraps to `k` ticks after it; `k` ticks before it, to `k` ticks before.
pub proof fn law_rtp_step_recovers_offset(prev_raw: u32, k: int)
    requires
        0 <= k < 0x8000_0000,
    ensures
        rtp_step(((prev_raw + k) % 0x1_0000_0000) as u32, prev_raw) == k,
        rtp_step(((prev_raw - k + 0x1_0000_0000) % 0x1_0000_0000) as u32, prev_raw) == -k,
{
}

/// `a / b` rounded toward zero, as Rust divides `i64` values.
pub open spec fn div_toward_zero(a: int, b: int) -> int {
    if a >= 0 {
        a / b
    } else {
        -((-a) / b)
    }
}

/// The RTP reader's clock: the generation it follows, the last raw timestamp,
/// its unwrapped value and the reference that maps ticks to playback time.
#[derive(Debug, Clone, Copy, PartialEq, Eq, Structural)]
pub struct RtpClock {
    pub last_generation: u64,
    pub prev_raw_ts: u32,
    pub unwrapped_rtp: i64,
    pub ref_real_ms: u64,
    pub ref_unwrapped_rtp: i64,
}

/// The clock after a packet with timestamp `raw_ts` arrives while the
/// playback generation is `generation` and the fragment starts at
/// `start_ms`: a new generation restarts the clock at the fragment start;
/// otherwise the timestamp is unwrapped onto it.
pub open spec fn rtp_clock_next(c: RtpClock, raw_ts: u32, generation: u64, start_ms: u64) -> RtpClock {
    if generation != c.last_generation {
        RtpClock {
            last_generation: generation,
            prev_raw_ts: raw_ts,
            unwrapped_rtp: 0,
            ref_real_ms: start_ms,
            ref_unwrapped_rtp: 0,
        }
    } else {
        RtpClock {
            prev_raw_ts: raw_ts,
            unwrapped_rtp: (c.unwrapped_rtp + rtp_step(raw_ts, c.prev_raw_ts)) as i64,
            ..c
        }
    }
}

/// The playback time of a clock: the reference time plus the ticks since the
/// reference, in milliseconds rounded toward zero, saturating at 0 and `u64::MAX`.
pub open spec fn rtp_clock_position(c: RtpClock) -> u64 {
    let delta_ms = div_toward_zero((c.unwrapped_rtp - c.ref_unwrapped_rtp) * 1000, RTP_CLOCK_RATE_HZ as int);
    if delta_ms >= 0 {
        sat_add(c.ref_real_ms, delta_ms as u64)
    } else {
        sat_sub(c.ref_real_ms, (-delta_ms) as u64)
    }
}

/// The packets on which the clock can advance: the unwrapped timestamp and
/// its distance to the reference, in thousandths of a tick, fit in 64 bits.
pub open spec fn rtp_clock_fits(c: RtpClock, raw_ts: u32, generation: u64) -> bool {
    generation == c.last_generation ==> {
        let u = c.unwrapped_rtp + rtp_step(raw_ts, c.prev_raw_ts);
        &&& i64::MIN <= u <= i64::MAX
        &&& i64::MIN <= (u - c.ref_unwrapped_rtp) * 1000 <= i64::MAX
    }
}

/// Whether the reader reports a position to the playback state: only within
/// a playback (generation not 0) and between the reference and the fragment end.
pub open spec fn rtp_position_reported(c: RtpClock, generation: u64, end_ms: u64) -> bool {
    generation != 0 && c.ref_real_ms <= rtp_clock_position(c) <= end_ms
}

impl RtpClock {
    /// A clock that follows no playback yet.
    pub fn new() -> (c: RtpClock)
        ensures
            c == (RtpClock {
                last_generation: 0,
                prev_raw_ts: 0,
                unwrapped_rtp: 0,
                ref_real_ms: 0,
                ref_unwrapped_rtp: 0,
            }),
    {
        RtpClock { last_generation: 0, prev_raw_ts: 0, unwrapped_rtp: 0, ref_real_ms: 0, ref_unwrapped_rtp: 0 }
    }

    /// Whether the clock can advance by a packet (see `rtp_clock_fits`).
    pub fn can_observe(&self, raw_ts: u32, generation: u64) -> (r: bool)
        ensures
            r == rtp_clock_fits(*self, raw_ts, generation),
    {
        if generation != self.last_generation {
            return true;
        }
        let diff = raw_ts as i64 - self.prev_raw_ts as i64;
        let step: i64 = if diff >= 0 && diff < 0x8000_0000 {
            diff
        } else if diff < 0 && diff >= -0x8000_0000 {
            diff
        } else if diff < 0 {
            diff + 0x1_0000_0000
        } else {
            diff - 0x1_0000_0000
        };
        let u = self.unwrapped_rtp as i128 + step as i128;
        if u < i64::MIN as i128 || u > i64::MAX as i128 {
            return false;
        }
        let d = (u - self.ref_unwrapped_rtp as i128) * 1000;
        i64::MIN as i128 <= d && d <= i64::MAX as i128
    }

    /// Advances the clock by a packet with timestamp `raw_ts`, read while the
    /// playback generation is `generation`, the fragment spans from `start_ms`
    /// to `end_ms`; returns the position to report, if any.
    pub fn observe(&mut self, raw_ts: u32, generation: u64, start_ms: u64, end_ms: u64) -> (r: Option<u64>)
        requires
            rtp_clock_fits(*old(self), raw_ts, generation),
        ensures
            *final(self) == rtp_clock_next(*old(self), raw_ts, generation, start_ms),
            rtp_position_reported(*final(self), generation, end_ms) ==> r == Some(rtp_clock_position(*final(self))),
            !rtp_position_reported(*final(self), generation, end_ms) ==> r.is_none(),
    {
        if generation != self.last_generation {
            self.last_generation = generation;
            self.ref_real_ms = start_ms;
            self.ref_unwrapped_rtp = 0;
            self.prev_raw_ts = raw_ts;
            self.unwrapped_rtp = 0;
        } else {
            self.unwrapped_rtp = unwrap_rtp_timestamp(raw_ts, self.prev_raw_ts, self.unwrapped_rtp);
            self.prev_raw_ts = raw_ts;
        }
        let delta_ticks = self.unwrapped_rtp - self.ref_unwrapped_rtp;
        let delta_ms = (delta_ticks * 1000) / RTP_CLOCK_RATE_HZ as i64;
        let position_ms = if delta_ms >= 0 {
            self.ref_real_ms.saturating_add(delta_ms as u64)
        } else {
            self.ref_real_ms.saturating_sub((-delta_ms) as u64)
        };
        if generation != 0 && position_ms >= self.ref_real_ms && position_ms <= end_ms {
            Some(position_ms)
        } else {
            None
        }
    }
}

/// A new playback generation puts the first packet at the fragment start; a
/// packet one second of the 90 kHz clock later (wrapped or not) is placed one
/// second after it.
pub proof fn law_rtp_clock_tracks_seconds(c: RtpClock, raw0: u32, generation: u64, start_ms: u64)
    requires
        generation != c.last_generation,
        start_ms + 1000 <= u64::MAX,
    ensures
        ({
            let c0 = rtp_clock_next(c, raw0, generation, start_ms);
            let raw1 = ((raw0 + 90_000) % 0x1_0000_0000) as u32;
            let c1 = rtp_clock_next(c0, raw1, generation, start_ms);
            &&& rtp_clock_position(c0) == start_ms
            &&& rtp_clock_fits(c0, raw1, generation)
            &&& rtp_clock_position(c1) == start_ms + 1000
        }),
{
    let raw1 = ((raw0 + 90_000) % 0x1_0000_0000) as u32;
    law_rtp_step_recovers_offset(raw0, 90_000);
    assert(90_000 * 1000 / 90_000 == 1000) by (nonlinear_arith);
}

/// `s` with every occurrence of `pat` from position `i` on replaced by `rep`,
/// scanning left to right without overlap, as `str::replace` does.
pub open spec fn replace_from(s: Seq<char>, pat: Seq<char>, rep: Seq<char>, i: int) -> Seq<char>
    decreases s.len() - i,
{
    if i < 0 || i >= s.len() {
        Seq::empty()
    } else if pat.len() > 0 && occurs_at(s, pat, i) {
        rep + replace_from(s, pat, rep, i + pat.len())
    } else {
        seq![s[i]] + replace_from(s, pat, rep, i + 1)
    }
}

/// The offer with every `setup:actpass` made `setup:active`: the client is the
/// DTLS client everywhere.
pub open spec fn setup_forced_active(sdp: Seq<char>) -> Seq<char> {
    replace_from(sdp, "setup:actpass"@, "setup:active"@, 0)
}

/// Makes the client the DTLS client: `a=setup:actpass` becomes `a=setup:active`.
pub fn force_setup_active(sdp: &str) -> (r: String)
    ensures
        r@ == setup_forced_active(sdp@),
{
    let v = str_chars(sdp);
    let pat = str_chars("setup:actpass");
    let rep: &str = "setup:active";
    let n = v.len();
    let m = pat.len();
    let mut out = String::new();
    let mut run_start: usize = 0;
    let mut i: usize = 0;
    proof {
        reveal_strlit("setup:actpass");
    }
    while i < n
        invariant
            n == v@.len(),
            v@ == sdp@,
            pat@ == "setup:actpass"@,
            m == pat@.len(),
            m > 0,
            run_start <= i <= n,
            out@ + v@.subrange(run_start as int, i as int) + replace_from(v@, pat@, rep@, i as int)
                == replace_from(v@, pat@, rep@, 0),
        decreases n - i,
    {
        if occurs_at_exec(&v, &pat, i) {
            let piece: &str = sdp.substring_char(run_start, i);
            out.append(piece);
            out.append(rep);
            proof {
                assert(out@ + Seq::<char>::empty() + replace_from(v@, pat@, rep@, (i + m) as int) =~= out@
                    + replace_from(v@, pat@, rep@, (i + m) as int));
            }
            i = i + m;
            run_start = i;
            proof {
                assert(v@.subrange(run_start as int, i as int) =~= Seq::<char>::empty());
            }
        } else {
            proof {
                assert(v@.subrange(run_start as int, i + 1) =~= v@.subrange(run_start as int, i as int)
                    + seq![v@[i as int]]);
            }
            i = i + 1;
        }
    }
    let tail: &str = sdp.substring_char(run_start, n);
    out.append(tail);
    proof {
        assert(replace_from(v@, pat@, rep@, i as int) == Seq::<char>::empty());
        assert(out@ =~= out@ + Seq::<char>::empty());
    }
    out
}

/// The first position in `t..limit` where `pat` occurs in `s`, or `limit`.
pub open spec fn next_occurrence(s: Seq<char>, pat: Seq<char>, t: int, limit: int) -> int
    decreases limit - t,
{
    if t >= limit {
        limit
    } else if occurs_at(s, pat, t) {
        t
    } else {
        next_occurrence(s, pat, t + 1, limit)
    }
}

proof fn lemma_next_occurrence(s: Seq<char>, pat: Seq<char>, t: int, limit: int)
    requires
        t <= limit,
    ensures
        t <= next_occurrence(s, pat, t, limit) <= limit,
        forall|u: int| t <= u < next_occurrence(s, pat, t, limit) ==> !occurs_at(s, pat, u),
        next_occurrence(s, pat, t, limit) < limit ==> occurs_at(
            s,
            pat,
            next_occurrence(s, pat, t, limit),
        ),
    decreases limit - t,
{
    if t < limit && !occurs_at(s, pat, t) {
        lemma_next_occurrence(s, pat, t + 1, limit);
    }
}

/// Where `pat` occurs nowhere in `t..j`, the replacement copies those characters.
proof fn lemma_replace_copies(s: Seq<char>, pat: Seq<char>, rep: Seq<char>, t: int, j: int)
    requires
        0 <= t <= j <= s.len(),
        forall|u: int| t <= u < j ==> !occurs_at(s, pat, u),
    ensures
        replace_from(s, pat, rep, t) == s.subrange(t, j) + replace_from(s, pat, rep, j),
    decreases j - t,
{
    if t < j {
        lemma_replace_copies(s, pat, rep, t + 1, j);
        assert(s.subrange(t, j) =~= seq![s[t]] + s.subrange(t + 1, j));
        assert(seq![s[t]] + (s.subrange(t + 1, j) + replace_from(s, pat, rep, j)) =~= (seq![s[t]]
            + s.subrange(t + 1, j)) + replace_from(s, pat, rep, j));
    } else {
        assert(s.subrange(t, j) =~= Seq::<char>::empty());
        assert(Seq::<char>::empty() + replace_from(s, pat, rep, j) =~= replace_from(s, pat, rep, j));
    }
}

/// Where `setup:actpass` does not start at `i`, the replacement from `i` on
/// does not start with it either: a match would have to use the `s` that
/// begins a replacement, and then `setup:actpass` started at `i`.
proof fn lemma_copied_start_is_no_match(s: Seq<char>, i: int)
    requires
        0 <= i < s.len(),
        !occurs_at(s, "setup:actpass"@, i),
    ensures
        !occurs_at(replace_from(s, "setup:actpass"@, "setup:active"@, i), "setup:actpass"@, 0),
{
    reveal_strlit("setup:actpass");
    reveal_strlit("setup:active");
    let pat = "setup:actpass"@;
    let rep = "setup:active"@;
    let limit = if i + 13 <= s.len() {
        i + 13
    } else {
        s.len() as int
    };
    let j = next_occurrence(s, pat, i + 1, limit);
    lemma_next_occurrence(s, pat, i + 1, limit);
    lemma_replace_copies(s, pat, rep, i, j);
    let out = replace_from(s, pat, rep, i);
    let head = s.subrange(i, j);
    if occurs_at(out, pat, 0) {
        assert(out.subrange(0, 13) == pat);
        if j < limit {
            let rest = replace_from(s, pat, rep, j + 13);
            assert(replace_from(s, pat, rep, j) == rep + rest);
            assert(out == head + (rep + rest));
            let d = j - i;
            assert(1 <= d <= 12);
            assert(out[d] == rep[0]);
            assert(out.subrange(0, 13)[d] == pat[d]);
            assert(d == 11 || d == 12) by {
                assert(d == 1 || d == 2 || d == 3 || d == 4 || d == 5 || d == 6 || d == 7 || d == 8
                    || d == 9 || d == 10 || d == 11 || d == 12);
            }
            if d == 11 {
                assert(out[12] == rep[1]);
                assert(out.subrange(0, 13)[12] == pat[12]);
            } else {
                assert(s.subrange(j, j + 13) == pat);
                assert forall|u: int| 0 <= u < 13 implies s.subrange(i, i + 13)[u] == pat[u] by {
                    if u < 12 {
                        assert(out[u] == head[u]);
                        assert(out.subrange(0, 13)[u] == pat[u]);
                    } else {
                        assert(s.subrange(j, j + 13)[0] == pat[0]);
                    }
                }
                assert(s.subrange(i, i + 13) =~= pat);
            }
        } else if j == i + 13 {
            assert forall|u: int| 0 <= u < 13 implies s.subrange(i, i + 13)[u] == pat[u] by {
                assert(out[u] == head[u]);
                assert(out.subrange(0, 13)[u] == pat[u]);
            }
            assert(s.subrange(i, i + 13) =~= pat);
        } else {
            assert(replace_from(s, pat, rep, j) == Seq::<char>::empty());
            assert(out.len() == head.len());
        }
    }
}

/// No `setup:actpass` is left in the replacement from `i` on.
proof fn lemma_no_actpass_from(s: Seq<char>, i: int)
    requires
        0 <= i,
    ensures
        !has_substring(replace_from(s, "setup:actpass"@, "setup:active"@, i), "setup:actpass"@),
    decreases s.len() - i,
{
    reveal_strlit("setup:actpass");
    reveal_strlit("setup:active");
    let pat = "setup:actpass"@;
    let rep = "setup:active"@;
    let out = replace_from(s, pat, rep, i);
    if i >= s.len() {
        assert forall|k: int| !occurs_at(out, pat, k) by {}
    } else if occurs_at(s, pat, i) {
        lemma_no_actpass_from(s, i + 13);
        let rest = replace_from(s, pat, rep, i + 13);
        assert(out == rep + rest);
        assert forall|k: int| !occurs_at(out, pat, k) by {
            if occurs_at(out, pat, k) {
                if k >= 12 {
                    assert(out.subrange(k, k + 13) =~= rest.subrange(k - 12, k + 1));
                    assert(occurs_at(rest, pat, k - 12));
                } else {
                    assert(out[k] == rep[k]);
                    assert(out.subrange(k, k + 13)[0] == pat[0]);
                    assert(k == 0) by {
                        assert(k == 0 || k == 1 || k == 2 || k == 3 || k == 4 || k == 5 || k == 6 || k
                            == 7 || k == 8 || k == 9 || k == 10 || k == 11);
                    }
                    assert(out[9] == rep[9]);
                    assert(out.subrange(0, 13)[9] == pat[9]);
                }
            }
        }
    } else {
        lemma_no_actpass_from(s, i + 1);
        let rest = replace_from(s, pat, rep, i + 1);
        assert(out == seq![s[i]] + rest);
        assert forall|k: int| !occurs_at(out, pat, k) by {
            if occurs_at(out, pat, k) {
                if k >= 1 {
                    assert(out.subrange(k, k + 13) =~= rest.subrange(k - 1, k + 12));
                    assert(occurs_at(rest, pat, k - 1));
                } else {
                    lemma_copied_start_is_no_match(s, i);
                }
            }
        }
    }
}

/// After the DTLS role is forced, no `setup:actpass` is left in the offer:
/// the replacement cannot form a new one.
pub proof fn law_no_actpass_left(sdp: Seq<char>)
    ensures
        !has_substring(setup_forced_active(sdp), "setup:actpass"@),
{
    lemma_no_actpass_from(sdp, 0);
}

} // verus!
