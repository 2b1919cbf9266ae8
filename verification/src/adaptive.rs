//! Host-side playback tuning: a rolling motion estimate from H.264 chunk throughput and the
//! state shared between the H.264 and input WebSocket handlers.
use crate::latency::{instant_now, millis_since};
use crate::text::{chars_eq_str, lemma_norm_fixed, norm, norm_chars};
use std::time::Instant;
use vstd::prelude::*;

verus! {

/// Host-side playback tuning — balances glass latency vs video quality.
#[derive(Clone, Copy, Debug, PartialEq, Eq, Structural)]
pub enum PlaybackTuning {
    /// Desktop / pointer use: lower latency, tighter buffers.
    Interactive,
    /// Video / fast motion: wider VBV, AQ, smoother decode.
    Motion,
}

pub open spec fn tuning_name(t: PlaybackTuning) -> Seq<char> {
    match t {
        PlaybackTuning::Interactive => "interactive"@,
        PlaybackTuning::Motion => "motion"@,
    }
}

/// `motion`, `video` and `smooth` (any case, white space around ignored) ask for motion
/// tuning; anything else is interactive.
pub open spec fn spec_tuning_from(s: Seq<char>) -> PlaybackTuning {
    if norm(s) == "motion"@ || norm(s) == "video"@ || norm(s) == "smooth"@ {
        PlaybackTuning::Motion
    } else {
        PlaybackTuning::Interactive
    }
}

impl PlaybackTuning {
    pub fn as_str(self) -> (r: &'static str)
        ensures
            r@ == tuning_name(self),
    {
        match self {
            PlaybackTuning::Interactive => "interactive",
            PlaybackTuning::Motion => "motion",
        }
    }

    pub fn from_str(value: &str) -> (r: Self)
        ensures
            r == spec_tuning_from(value@),
    {
        let v = norm_chars(value);
        if chars_eq_str(&v, "motion") || chars_eq_str(&v, "video") || chars_eq_str(&v, "smooth") {
            PlaybackTuning::Motion
        } else {
            PlaybackTuning::Interactive
        }
    }
}

/// The number of 100 ms throughput buckets.
pub const MOTION_BUCKETS: usize = 10;

/// Rolling throughput of the last second of H.264 output, in ten 100 ms buckets.
pub struct MotionDetector {
    buckets: [u32; 10],
    idx: usize,
    origin: Instant,
    last_rotate_ms: u64,
}

/// What a motion detector holds: bucket sizes, current bucket, and the time (ms after the
/// detector's creation) at which the current bucket started.
pub struct MotionView {
    pub buckets: Seq<u32>,
    pub idx: int,
    pub last_rotate_ms: int,
}

/// One rotation: move to the next bucket, empty it, and start it 100 ms later.
pub open spec fn rotate_once(m: MotionView) -> MotionView {
    let next = (m.idx + 1) % 10;
    MotionView { buckets: m.buckets.update(next, 0), idx: next, last_rotate_ms: m.last_rotate_ms + 100 }
}

pub open spec fn rotate_n(m: MotionView, k: nat) -> MotionView
    decreases k,
{
    if k == 0 {
        m
    } else {
        rotate_n(rotate_once(m), (k - 1) as nat)
    }
}

/// `a.saturating_add(b)` for `u32`.
pub open spec fn sat_add(a: u32, b: u32) -> u32 {
    if a + b > u32::MAX {
        u32::MAX
    } else {
        (a + b) as u32
    }
}

/// Adds a chunk of `nbytes` (cut to 32 bits) to the current bucket, saturating.
pub open spec fn add_chunk(m: MotionView, nbytes: usize) -> MotionView {
    MotionView { buckets: m.buckets.update(m.idx, sat_add(m.buckets[m.idx], nbytes as u32)), ..m }
}

/// How many whole 100 ms periods have passed since the current bucket started.
pub open spec fn periods_elapsed(m: MotionView, now_ms: int) -> nat {
    if now_ms >= m.last_rotate_ms {
        ((now_ms - m.last_rotate_ms) / 100) as nat
    } else {
        0
    }
}

/// What `observe_chunk_at` gives.
pub open spec fn spec_observe_at(m: MotionView, now_ms: int, nbytes: usize) -> MotionView {
    add_chunk(rotate_n(m, periods_elapsed(m, now_ms)), nbytes)
}

impl View for MotionDetector {
    type V = MotionView;

    closed spec fn view(&self) -> MotionView {
        MotionView { buckets: self.buckets@, idx: self.idx as int, last_rotate_ms: self.last_rotate_ms as int }
    }
}

pub open spec fn motion_wf(m: MotionView) -> bool {
    m.buckets.len() == 10 && 0 <= m.idx < 10
}

proof fn lemma_rotate_n_wf(m: MotionView, k: nat)
    requires
        motion_wf(m),
    ensures
        motion_wf(rotate_n(m, k)),
        rotate_n(m, k).last_rotate_ms == m.last_rotate_ms + 100 * k,
    decreases k,
{
    if k > 0 {
        lemma_rotate_n_wf(rotate_once(m), (k - 1) as nat);
    }
}

proof fn lemma_rotate_n_step(m: MotionView, k: nat)
    ensures
        rotate_n(m, k + 1) == rotate_once(rotate_n(m, k)),
    decreases k,
{
    if k > 0 {
        lemma_rotate_n_step(rotate_once(m), (k - 1) as nat);
        assert(rotate_n(m, k) == rotate_n(rotate_once(m), (k - 1) as nat));
        assert(rotate_n(m, k + 1) == rotate_n(rotate_once(m), k));
    } else {
        assert(rotate_n(rotate_once(m), 0) == rotate_once(m));
        assert(rotate_n(m, 1) == rotate_n(rotate_once(m), 0));
    }
}

impl MotionDetector {
    #[verifier::type_invariant]
    spec fn inv(&self) -> bool {
        self.idx < 10
    }

    /// A detector with all buckets empty, starting now.
    pub fn new() -> (r: Self)
        ensures
            r@.buckets == Seq::new(10, |i: int| 0u32),
            r@.idx == 0,
            r@.last_rotate_ms == 0,
    {
        let r = MotionDetector { buckets: [0u32; 10], idx: 0, origin: instant_now(), last_rotate_ms: 0 };
        assert(r.buckets@ =~= Seq::new(10, |i: int| 0u32));
        r
    }

    /// Moves to the next bucket.
    fn rotate(&mut self)
        requires
            old(self).last_rotate_ms + 100 <= u64::MAX,
        ensures
            final(self)@ == rotate_once(old(self)@),
    {
        proof {
            use_type_invariant(&*self);
        }
        let next = (self.idx + 1) % MOTION_BUCKETS;
        let mut b = self.buckets;
        b[next] = 0;
        self.buckets = b;
        self.idx = next;
        self.last_rotate_ms = self.last_rotate_ms + 100;
    }

    /// Adds a chunk to the current bucket.
    fn add(&mut self, nbytes: usize)
        ensures
            final(self)@ == add_chunk(old(self)@, nbytes),
    {
        proof {
            use_type_invariant(&*self);
        }
        let cur = self.buckets[self.idx];
        let added = cur.saturating_add(nbytes as u32);
        let mut b = self.buckets;
        b[self.idx] = added;
        self.buckets = b;
    }

    /// Records a chunk of `nbytes` observed `now_ms` milliseconds after the detector started:
    /// buckets whose 100 ms have passed are rotated out first.
    pub fn observe_chunk_at(&mut self, now_ms: u64, nbytes: usize)
        ensures
            final(self)@ == spec_observe_at(old(self)@, now_ms as int, nbytes),
    {
        proof {
            use_type_invariant(&*self);
            lemma_rotate_n_wf(self@, 0);
        }
        let ghost start = self@;
        let ghost mut k: nat = 0;
        while now_ms >= self.last_rotate_ms && now_ms - self.last_rotate_ms >= 100
            invariant
                motion_wf(start),
                self@ == rotate_n(start, k),
                self@.last_rotate_ms == start.last_rotate_ms + 100 * k,
                start.last_rotate_ms + 100 * k <= now_ms || k == 0,
                now_ms >= start.last_rotate_ms ==> 100 * k <= now_ms - start.last_rotate_ms,
            decreases now_ms - self.last_rotate_ms,
        {
            proof {
                lemma_rotate_n_step(start, k);
            }
            self.rotate();
            proof {
                k = k + 1;
            }
        }
        proof {
            if now_ms >= start.last_rotate_ms {
                assert(k == (now_ms - start.last_rotate_ms) / 100) by (nonlinear_arith)
                    requires
                        100 * k <= now_ms - start.last_rotate_ms,
                        now_ms - (start.last_rotate_ms + 100 * k) < 100,
                ;
            }
        }
        self.add(nbytes);
    }

    /// Records a chunk of `nbytes` observed now, rotating out every bucket whose 100 ms have
    /// passed, the clock being read again before each rotation.
    pub fn observe_chunk(&mut self, nbytes: usize)
        ensures
            exists|k: nat| final(self)@ == add_chunk(rotate_n(old(self)@, k), nbytes),
    {
        let ghost start = self@;
        let ghost mut k: nat = 0;
        proof {
            use_type_invariant(&*self);
        }
        loop
            invariant_except_break
                self@ == rotate_n(start, k),
            ensures
                self@ == rotate_n(start, k),
            decreases u64::MAX - self.last_rotate_ms,
        {
            let now_ms = millis_since(&self.origin);
            if !(now_ms >= self.last_rotate_ms && now_ms - self.last_rotate_ms >= 100) {
                break;
            }
            proof {
                lemma_rotate_n_step(start, k);
            }
            self.rotate();
            proof {
                k = k + 1;
            }
        }
        self.add(nbytes);
    }

    /// The current bucket sizes, oldest rotation order not implied (index `current_bucket()`
    /// is the bucket being filled).
    pub fn buckets(&self) -> (r: [u32; 10])
        ensures
            r@ == self@.buckets,
    {
        self.buckets
    }

    /// The index of the bucket being filled.
    pub fn current_bucket(&self) -> (r: usize)
        ensures
            r == self@.idx,
            r < 10,
    {
        proof {
            use_type_invariant(self);
        }
        self.idx
    }
}

impl Default for MotionDetector {
    fn default() -> (r: Self)
        ensures
            r@.buckets == Seq::new(10, |i: int| 0u32),
            r@.idx == 0,
            r@.last_rotate_ms == 0,
    {
        MotionDetector::new()
    }
}

/// Observing a chunk keeps ten buckets with a valid current one, and leaves the current
/// bucket started within the last 100 ms (when the clock is not behind it).
pub proof fn law_observe_keeps_window(m: MotionView, now_ms: int, nbytes: usize)
    requires
        motion_wf(m),
    ensures
        motion_wf(spec_observe_at(m, now_ms, nbytes)),
        now_ms >= m.last_rotate_ms ==> spec_observe_at(m, now_ms, nbytes).last_rotate_ms <= now_ms
            < spec_observe_at(m, now_ms, nbytes).last_rotate_ms + 100,
        now_ms < m.last_rotate_ms + 100 ==> spec_observe_at(m, now_ms, nbytes).buckets == m.buckets.update(
            m.idx,
            sat_add(m.buckets[m.idx], nbytes as u32),
        ),
{
    let k = periods_elapsed(m, now_ms);
    lemma_rotate_n_wf(m, k);
    if now_ms >= m.last_rotate_ms {
        assert(100 * k <= now_ms - m.last_rotate_ms < 100 * k + 100) by (nonlinear_arith)
            requires
                k == (now_ms - m.last_rotate_ms) / 100,
                now_ms - m.last_rotate_ms >= 0,
        ;
    }
    if now_ms < m.last_rotate_ms + 100 {
        assert(k == 0);
    }
}

/// Shared between the H.264 and input WebSocket handlers.
pub struct AdaptiveStreamState {
    motion_score_milli: u32,
    client_glass_ms: u32,
    client_dec_ms: u32,
    tuning: u8,
}

/// What the shared state holds: motion score in thousandths, the client's latest glass and
/// decode latencies, and the tuning in force.
pub struct AdaptiveView {
    pub motion_milli: u32,
    pub glass_ms: u32,
    pub dec_ms: u32,
    pub tuning: PlaybackTuning,
}

impl View for AdaptiveStreamState {
    type V = AdaptiveView;

    closed spec fn view(&self) -> AdaptiveView {
        AdaptiveView {
            motion_milli: self.motion_score_milli,
            glass_ms: self.client_glass_ms,
            dec_ms: self.client_dec_ms,
            tuning: if self.tuning == 1 {
                PlaybackTuning::Motion
            } else {
                PlaybackTuning::Interactive
            },
        }
    }
}

/// What `evaluate_tuning` decides from the motion score (thousandths) and the glass latency.
pub open spec fn spec_evaluate(motion_milli: u32, glass_ms: u32) -> PlaybackTuning {
    if motion_milli > 420 {
        PlaybackTuning::Motion
    } else if glass_ms > 45 && motion_milli < 200 {
        PlaybackTuning::Interactive
    } else if motion_milli > 280 {
        PlaybackTuning::Motion
    } else {
        PlaybackTuning::Interactive
    }
}

/// A client statistic after an update: positive reports are kept, capped at 5 s.
pub open spec fn updated_stat(old: u32, report: u32) -> u32 {
    if report > 0 {
        if report < 5000 {
            report
        } else {
            5000
        }
    } else {
        old
    }
}

impl Default for AdaptiveStreamState {
    fn default() -> (r: Self)
        ensures
            r@.motion_milli == 0,
            r@.glass_ms == 0,
            r@.dec_ms == 0,
            r@.tuning == PlaybackTuning::Interactive,
    {
        AdaptiveStreamState { motion_score_milli: 0, client_glass_ms: 0, client_dec_ms: 0, tuning: 0 }
    }
}

impl AdaptiveStreamState {
    /// Stores the motion score in thousandths (0 = static, 1000 = heavy motion), capped at 1000.
    pub fn set_motion_score_milli(&mut self, milli: u32)
        ensures
            final(self)@ == (AdaptiveView {
                motion_milli: if milli < 1000 {
                    milli
                } else {
                    1000
                },
                ..old(self)@
            }),
    {
        self.motion_score_milli = if milli < 1000 {
            milli
        } else {
            1000
        };
    }

    /// The motion score in thousandths.
    pub fn motion_score_milli(&self) -> (r: u32)
        ensures
            r == self@.motion_milli,
    {
        self.motion_score_milli
    }

    /// Takes the client's latest glass-to-glass and decode latencies; zero means "not measured".
    pub fn update_client_stats(&mut self, glass_ms: u32, dec_ms: u32)
        ensures
            final(self)@ == (AdaptiveView {
                glass_ms: updated_stat(old(self)@.glass_ms, glass_ms),
                dec_ms: updated_stat(old(self)@.dec_ms, dec_ms),
                ..old(self)@
            }),
    {
        if glass_ms > 0 {
            self.client_glass_ms = if glass_ms < 5000 {
                glass_ms
            } else {
                5000
            };
        }
        if dec_ms > 0 {
            self.client_dec_ms = if dec_ms < 5000 {
                dec_ms
            } else {
                5000
            };
        }
    }

    pub fn client_glass_ms(&self) -> (r: u32)
        ensures
            r == self@.glass_ms,
    {
        self.client_glass_ms
    }

    pub fn current_tuning(&self) -> (r: PlaybackTuning)
        ensures
            r == self@.tuning,
    {
        match self.tuning {
            1 => PlaybackTuning::Motion,
            _ => PlaybackTuning::Interactive,
        }
    }

    pub fn set_tuning(&mut self, tuning: PlaybackTuning)
        ensures
            final(self)@ == (AdaptiveView { tuning, ..old(self)@ }),
    {
        self.tuning = match tuning {
            PlaybackTuning::Motion => 1,
            PlaybackTuning::Interactive => 0,
        };
    }

    /// Decides tuning from host motion + client glass latency.
    pub fn evaluate_tuning(&self) -> (r: PlaybackTuning)
        ensures
            r == spec_evaluate(self@.motion_milli, self@.glass_ms),
    {
        let motion = self.motion_score_milli;
        let glass = self.client_glass_ms;
        if motion > 420 {
            PlaybackTuning::Motion
        } else if glass > 45 && motion < 200 {
            PlaybackTuning::Interactive
        } else if motion > 280 {
            PlaybackTuning::Motion
        } else {
            PlaybackTuning::Interactive
        }
    }
}

/// Motion tuning is chosen exactly when the motion score exceeds 0.28, whatever the glass
/// latency.
pub proof fn law_tuning_threshold(motion_milli: u32, glass_ms: u32)
    ensures
        (spec_evaluate(motion_milli, glass_ms) == PlaybackTuning::Motion) == (motion_milli > 280),
{
}

/// Client statistics stay within 0–5000 ms once reported, and a zero report changes nothing.
pub proof fn law_client_stats(old: u32, report: u32)
    ensures
        old <= 5000 ==> updated_stat(old, report) <= 5000,
        report == 0 ==> updated_stat(old, report) == old,
        0 < report <= 5000 ==> updated_stat(old, report) == report,
{
}

/// Reading a tuning name back gives the tuning.
pub proof fn law_tuning_name_round_trip(t: PlaybackTuning)
    ensures
        spec_tuning_from(tuning_name(t)) == t,
{
    reveal_strlit("interactive");
    reveal_strlit("motion");
    reveal_strlit("video");
    reveal_strlit("smooth");
    let n = tuning_name(t);
    lemma_norm_fixed(n);
}

} // verus!
