//! Loudness metering of the capture stream, in fixed point: a level is a
//! whole number of ten-thousandths of full scale (`LEVEL_FULL` is 1.0).
use vstd::prelude::*;
use crate::pcm::{downmix, downmix_to_mono};

verus! {

/// Level 1.0.
pub const LEVEL_FULL: u32 = 10_000;

/// Levels below 0.02 are gated to 0.
pub const NOISE_GATE: u32 = 200;

/// Least time between two emitted levels (about 30 per second).
pub const EMIT_INTERVAL_MS: u64 = 33;

/// Largest 16-bit sample, the full-scale reference.
pub const SAMPLE_FULL: u64 = 32767;

/// Integer square root.
pub open spec fn is_isqrt(n: int, r: int) -> bool {
    0 <= r && r * r <= n < (r + 1) * (r + 1)
}

/// RMS scaled by 1.5 and clamped to full scale, then gated.
pub open spec fn gated_level(rms: int) -> int {
    let scaled = rms * 15000 / (SAMPLE_FULL as int);
    let clamped = if scaled > LEVEL_FULL as int { LEVEL_FULL as int } else { scaled };
    if clamped < NOISE_GATE as int { 0 } else { clamped }
}

/// One step of the moving average: the previous level moves 35% of the way
/// to the new one, rounded away from the previous level so that it always
/// reaches a steady input.
pub open spec fn ema_step(prev: int, target: int) -> int {
    if target >= prev {
        prev + (35 * (target - prev) + 99) / 100
    } else {
        prev - (35 * (prev - target) + 99) / 100
    }
}

/// The level after `n` ticks that all see the same input level.
pub open spec fn ema_after(prev: int, target: int, n: nat) -> int
    decreases n,
{
    if n == 0 {
        prev
    } else {
        ema_after(ema_step(prev, target), target, (n - 1) as nat)
    }
}

/// Ticks within which any level settles on a steady input.
pub const SETTLE_TICKS: u64 = 20;

/// The distance after one step is 65% of the distance before, rounded down.
proof fn lemma_ema_step_distance(prev: int, target: int)
    ensures
        target >= prev ==> target - ema_step(prev, target) == (65 * (target - prev)) / 100,
        target >= prev ==> ema_step(prev, target) <= target,
        target < prev ==> ema_step(prev, target) - target == (65 * (prev - target)) / 100,
        target < prev ==> ema_step(prev, target) >= target,
{
    let d = if target >= prev { target - prev } else { prev - target };
    assert(d - (35 * d + 99) / 100 == (65 * d) / 100) by (nonlinear_arith)
        requires d >= 0;
}

/// The bound on the distance after `k` steps from distance at most `LEVEL_FULL`.
spec fn distance_bound(k: nat) -> int
    decreases k,
{
    if k == 0 {
        LEVEL_FULL as int
    } else {
        (65 * distance_bound((k - 1) as nat)) / 100
    }
}

proof fn lemma_distance_bound_reaches_zero()
    ensures
        distance_bound(SETTLE_TICKS as nat) == 0,
{
    assert(distance_bound(0) == 10000);
    assert(distance_bound(1) == 6500);
    assert(distance_bound(2) == 4225);
    assert(distance_bound(3) == 2746);
    assert(distance_bound(4) == 1784);
    assert(distance_bound(5) == 1159);
    assert(distance_bound(6) == 753);
    assert(distance_bound(7) == 489);
    assert(distance_bound(8) == 317);
    assert(distance_bound(9) == 206);
    assert(distance_bound(10) == 133);
    assert(distance_bound(11) == 86);
    assert(distance_bound(12) == 55);
    assert(distance_bound(13) == 35);
    assert(distance_bound(14) == 22);
    assert(distance_bound(15) == 14);
    assert(distance_bound(16) == 9);
    assert(distance_bound(17) == 5);
    assert(distance_bound(18) == 3);
    assert(distance_bound(19) == 1);
    assert(distance_bound(20) == 0);
}

proof fn lemma_ema_after_bounded(prev: int, target: int, k: nat)
    requires
        (if target >= prev { target - prev } else { prev - target }) <= LEVEL_FULL,
    ensures
        ({
            let v = ema_after(prev, target, k);
            (if target >= v { target - v } else { v - target }) <= distance_bound(k)
        }),
{
    let d = if target >= prev { target - prev } else { prev - target };
    lemma_shrinking_distance(prev, target, k, d, 0);
}

proof fn lemma_shrinking_distance(v: int, target: int, k: nat, d: int, j: nat)
    requires
        d == (if target >= v { target - v } else { v - target }),
        d <= distance_bound(j),
    ensures
        ({
            let w = ema_after(v, target, k);
            (if target >= w { target - w } else { w - target }) <= distance_bound(j + k)
        }),
    decreases k,
{
    if k > 0 {
        lemma_ema_step_distance(v, target);
        let next = ema_step(v, target);
        let d1 = if target >= next { target - next } else { next - target };
        assert(d1 == (65 * d) / 100);
        assert((65 * d) / 100 <= (65 * distance_bound(j)) / 100) by (nonlinear_arith)
            requires d <= distance_bound(j), d >= 0;
        assert(distance_bound(j + 1) == (65 * distance_bound(j)) / 100);
        lemma_shrinking_distance(next, target, (k - 1) as nat, d1, j + 1);
        assert(j + 1 + (k - 1) == j + k);
    }
}

/// From any level in range, `SETTLE_TICKS` ticks on a steady input level
/// reach that level exactly.
pub proof fn lemma_ema_settles(prev: int, target: int)
    requires
        0 <= prev <= LEVEL_FULL,
        0 <= target <= LEVEL_FULL,
    ensures
        ema_after(prev, target, SETTLE_TICKS as nat) == target,
{
    lemma_ema_after_bounded(prev, target, SETTLE_TICKS as nat);
    lemma_distance_bound_reaches_zero();
}

/// The integer square root, defined by counting up.
pub open spec fn sqrt_floor(n: nat) -> nat
    decreases n,
{
    if n == 0 {
        0
    } else {
        let r = sqrt_floor((n - 1) as nat);
        if (r + 1) * (r + 1) <= n {
            r + 1
        } else {
            r
        }
    }
}

proof fn lemma_sqrt_floor_is_isqrt(n: nat)
    ensures
        is_isqrt(n as int, sqrt_floor(n) as int),
    decreases n,
{
    if n > 0 {
        lemma_sqrt_floor_is_isqrt((n - 1) as nat);
        let r = sqrt_floor((n - 1) as nat) as int;
        assert((r + 1) * (r + 1) < (r + 2) * (r + 2)) by (nonlinear_arith)
            requires r >= 0;
    }
}

proof fn lemma_isqrt_unique(n: int, a: int, b: int)
    requires
        is_isqrt(n, a),
        is_isqrt(n, b),
    ensures
        a == b,
{
    if a < b {
        assert((a + 1) * (a + 1) <= b * b) by (nonlinear_arith)
            requires 0 <= a, a + 1 <= b;
    } else if b < a {
        assert((b + 1) * (b + 1) <= a * a) by (nonlinear_arith)
            requires 0 <= b, b + 1 <= a;
    }
}

/// The level that a metering interval with this mean square gives, before smoothing.
pub open spec fn interval_level(mean_square: nat) -> int {
    gated_level(sqrt_floor(mean_square) as int)
}

/// Integer square root of `n`.
pub fn isqrt(n: u64) -> (r: u64)
    requires
        n <= 0xffff_ffff,
    ensures
        r == sqrt_floor(n as nat),
{
    let mut lo: u64 = 0;
    let mut hi: u64 = 65536;
    assert(65536 * 65536 > 0xffff_ffffint) by (nonlinear_arith);
    while hi - lo > 1
        invariant
            lo < hi <= 65536,
            lo * lo <= n,
            n < hi * hi,
        decreases hi - lo,
    {
        let mid = lo + (hi - lo) / 2;
        assert(mid * mid <= 65536 * 65536) by (nonlinear_arith)
            requires mid <= 65536;
        if mid * mid <= n {
            lo = mid;
        } else {
            hi = mid;
        }
    }
    proof {
        lemma_sqrt_floor_is_isqrt(n as nat);
        lemma_isqrt_unique(n as int, lo as int, sqrt_floor(n as nat) as int);
    }
    lo
}

/// Level of an RMS value: scaled by 1.5, clamped to full scale and gated.
pub fn level_from_rms(rms: u64) -> (r: u32)
    requires
        rms <= 65536,
    ensures
        r == gated_level(rms as int),
{
    let scaled = rms * 15000 / SAMPLE_FULL;
    let clamped = if scaled > LEVEL_FULL as u64 {
        LEVEL_FULL
    } else {
        scaled as u32
    };
    if clamped < NOISE_GATE {
        0
    } else {
        clamped
    }
}

/// One smoothing step toward `target`.
pub fn smooth_level(prev: u32, target: u32) -> (r: u32)
    requires
        prev <= LEVEL_FULL,
        target <= LEVEL_FULL,
    ensures
        r == ema_step(prev as int, target as int),
        r <= LEVEL_FULL,
{
    proof {
        lemma_ema_step_distance(prev as int, target as int);
    }
    if target >= prev {
        prev + (35 * (target - prev) + 99) / 100
    } else {
        prev - (35 * (prev - target) + 99) / 100
    }
}

/// Sum of the squares of the samples.
pub open spec fn sum_of_squares(s: Seq<i16>) -> nat
    decreases s.len(),
{
    if s.len() == 0 {
        0
    } else {
        sum_of_squares(s.drop_last()) + (s.last() as int * s.last() as int) as nat
    }
}

/// Largest square of a 16-bit sample.
pub const MAX_SQUARE: u64 = 1_073_741_824;

/// What the meter holds: the squares and count of the samples of the
/// current interval, the smoothed level, and when a level was last emitted.
pub struct MeterView {
    pub sum_squares: nat,
    pub count: nat,
    pub level: int,
    pub last_emit_ms: int,
}

/// Loudness meter of one capture stream.
pub struct LevelMeter {
    sum_squares: u128,
    count: u64,
    level: u32,
    last_emit_ms: u64,
}

impl View for LevelMeter {
    type V = MeterView;

    closed spec fn view(&self) -> MeterView {
        MeterView {
            sum_squares: self.sum_squares as nat,
            count: self.count as nat,
            level: self.level as int,
            last_emit_ms: self.last_emit_ms as int,
        }
    }
}

impl LevelMeter {
    /// The meter's invariant: the level is in range and the squares are
    /// those of at most `count` samples.
    pub open spec fn wf(&self) -> bool {
        &&& self@.level <= LEVEL_FULL
        &&& self@.level >= 0
        &&& self@.sum_squares <= self@.count * MAX_SQUARE
    }

    /// A meter at level 0 whose first interval starts at `now_ms`.
    pub fn new(now_ms: u64) -> (r: Self)
        ensures
            r.wf(),
            r@ == (MeterView { sum_squares: 0, count: 0, level: 0, last_emit_ms: now_ms as int }),
    {
        LevelMeter { sum_squares: 0, count: 0, level: 0, last_emit_ms: now_ms }
    }

    /// The smoothed level last computed.
    pub fn level(&self) -> (r: u32)
        ensures
            r == self@.level,
    {
        self.level
    }

    /// Adds one mono sample to the current interval. Once the interval
    /// holds `u64::MAX` samples further ones are not counted.
    pub fn accumulate(&mut self, sample: i16)
        requires
            old(self).wf(),
        ensures
            final(self).wf(),
            final(self)@.level == old(self)@.level,
            final(self)@.last_emit_ms == old(self)@.last_emit_ms,
            old(self)@.count < u64::MAX ==> final(self)@.count == old(self)@.count + 1
                && final(self)@.sum_squares == old(self)@.sum_squares + sample as int * sample as int,
            old(self)@.count == u64::MAX ==> final(self)@ == old(self)@,
    {
        if self.count < u64::MAX {
            assert(0 <= sample as int * sample as int <= MAX_SQUARE) by (nonlinear_arith)
                requires -32768 <= sample <= 32767;
            let sq = (sample as i64 * sample as i64) as u64;
            assert(self.sum_squares + sq <= (self.count + 1) * MAX_SQUARE) by (nonlinear_arith)
                requires self.sum_squares <= self.count * MAX_SQUARE, sq <= MAX_SQUARE;
            assert((self.count + 1) * MAX_SQUARE < 0x1_0000_0000_0000_0000_0000_0000_0000_0000int) by (nonlinear_arith)
                requires self.count < 0x1_0000_0000_0000_0000int;
            self.sum_squares = self.sum_squares + sq as u128;
            self.count = self.count + 1;
        }
    }

    /// Takes one block of interleaved input: downmixes it to mono, adds the
    /// mono samples to the interval, and returns them for the recording.
    pub fn feed(&mut self, data: &[i16], channels: u16) -> (mono: Vec<i16>)
        requires
            old(self).wf(),
            channels >= 1,
        ensures
            final(self).wf(),
            mono@ == downmix(data@, channels as nat),
            final(self)@.level == old(self)@.level,
            final(self)@.last_emit_ms == old(self)@.last_emit_ms,
            old(self)@.count + mono@.len() <= u64::MAX ==> final(self)@.count == old(self)@.count
                + mono@.len() && final(self)@.sum_squares == old(self)@.sum_squares + sum_of_squares(mono@),
    {
        let mono = downmix_to_mono(data, channels);
        let mut i: usize = 0;
        let ghost c0 = self@.count;
        let ghost s0 = self@.sum_squares;
        while i < mono.len()
            invariant
                self.wf(),
                i <= mono@.len(),
                self@.level == old(self)@.level,
                self@.last_emit_ms == old(self)@.last_emit_ms,
                c0 == old(self)@.count,
                s0 == old(self)@.sum_squares,
                c0 + mono@.len() <= u64::MAX ==> self@.count == c0 + i && self@.sum_squares == s0
                    + sum_of_squares(mono@.subrange(0, i as int)),
            decreases mono.len() - i,
        {
            assert(mono@.subrange(0, i + 1).drop_last() =~= mono@.subrange(0, i as int));
            let ghost m = mono@[i as int] as int;
            assert(m * m >= 0) by (nonlinear_arith);
            assert(mono@.subrange(0, i + 1).last() == mono@[i as int]);
            assert(sum_of_squares(mono@.subrange(0, i + 1)) == sum_of_squares(mono@.subrange(0, i as int))
                + (mono@[i as int] as int * mono@[i as int] as int) as nat);
            self.accumulate(mono[i]);
            i += 1;
        }
        assert(mono@.subrange(0, mono@.len() as int) =~= mono@);
        mono
    }

    /// Closes the current interval. With no samples in it the result is 0
    /// and the smoothed level is left as it was; otherwise the level moves
    /// one step toward the interval's level and is returned.
    pub fn tick(&mut self) -> (emitted: u32)
        requires
            old(self).wf(),
        ensures
            final(self).wf(),
            final(self)@.last_emit_ms == old(self)@.last_emit_ms,
            old(self)@.count == 0 ==> emitted == 0 && final(self)@ == old(self)@,
            old(self)@.count > 0 ==> final(self)@.level == ema_step(
                old(self)@.level,
                interval_level(old(self)@.sum_squares / old(self)@.count),
            ) && emitted == final(self)@.level && final(self)@.count == 0 && final(self)@.sum_squares == 0,
    {
        if self.count == 0 {
            return 0;
        }
        let mean = self.sum_squares / (self.count as u128);
        assert(mean <= MAX_SQUARE) by (nonlinear_arith)
            requires mean == self.sum_squares / (self.count as u128), self.sum_squares <= self.count * MAX_SQUARE,
                self.count >= 1;
        let rms = isqrt(mean as u64);
        proof {
            lemma_sqrt_floor_is_isqrt(mean as nat);
            assert(rms <= 65536) by (nonlinear_arith)
                requires rms * rms <= MAX_SQUARE, rms >= 0;
        }
        let target = level_from_rms(rms);
        proof {
            let sf = SAMPLE_FULL as int;
            assert(rms as int * 15000 / sf >= 0) by (nonlinear_arith)
                requires rms >= 0, sf == 32767;
        }
        self.level = smooth_level(self.level, target);
        self.sum_squares = 0;
        self.count = 0;
        self.level
    }

    /// Emits a level at most once per `EMIT_INTERVAL_MS`: when that much
    /// time has passed since the last emission, closes the interval and
    /// returns its level.
    pub fn poll(&mut self, now_ms: u64) -> (emitted: Option<u32>)
        requires
            old(self).wf(),
        ensures
            final(self).wf(),
            (now_ms as int - old(self)@.last_emit_ms >= EMIT_INTERVAL_MS) == emitted is Some,
            emitted is None ==> final(self)@ == old(self)@,
            emitted is Some ==> final(self)@.last_emit_ms == now_ms,
            emitted is Some && old(self)@.count == 0 ==> emitted == Some(0u32) && final(self)@.level == old(self)@.level,
            emitted is Some && old(self)@.count > 0 ==> final(self)@.level == ema_step(
                old(self)@.level,
                interval_level(old(self)@.sum_squares / old(self)@.count),
            ) && emitted == Some(final(self)@.level as u32) && final(self)@.count == 0,
    {
        if now_ms >= self.last_emit_ms && now_ms - self.last_emit_ms >= EMIT_INTERVAL_MS {
            let level = self.tick();
            self.last_emit_ms = now_ms;
            Some(level)
        } else {
            None
        }
    }
}

/// Silence drives the meter to 0, and a full-scale signal (every sample at
/// least `SAMPLE_FULL` in magnitude, so a mean square of at least its square)
/// drives it to `LEVEL_FULL`, each within `SETTLE_TICKS` metering intervals
/// from any level.
pub proof fn lemma_meter_settles(prev: int, loud_mean_square: nat)
    requires
        0 <= prev <= LEVEL_FULL,
        loud_mean_square >= SAMPLE_FULL * SAMPLE_FULL,
    ensures
        ema_after(prev, interval_level(0), SETTLE_TICKS as nat) == 0,
        ema_after(prev, interval_level(loud_mean_square), SETTLE_TICKS as nat) == LEVEL_FULL,
{
    assert(sqrt_floor(0) == 0);
    assert(interval_level(0) == 0);
    lemma_sqrt_floor_is_isqrt(loud_mean_square);
    let r = sqrt_floor(loud_mean_square) as int;
    let sf = SAMPLE_FULL as int;
    assert(r >= sf) by (nonlinear_arith)
        requires loud_mean_square < (r + 1) * (r + 1), loud_mean_square >= sf * sf, r >= 0, sf == 32767;
    assert(r * 15000 / sf >= 15000) by (nonlinear_arith)
        requires r >= sf, sf == 32767;
    assert(interval_level(loud_mean_square) == LEVEL_FULL);
    lemma_ema_settles(prev, 0);
    lemma_ema_settles(prev, LEVEL_FULL as int);
}

/// A stretch of silent samples has mean square 0; one of full-scale samples
/// has mean square at least `SAMPLE_FULL` squared.
pub proof fn lemma_interval_mean_square(s: Seq<i16>)
    ensures
        (forall|i: int| 0 <= i < s.len() ==> #[trigger] s[i] == 0) ==> sum_of_squares(s) == 0,
        (forall|i: int| 0 <= i < s.len() ==> #[trigger] s[i] >= SAMPLE_FULL || s[i] <= -(SAMPLE_FULL as int))
            ==> sum_of_squares(s) >= s.len() * (SAMPLE_FULL * SAMPLE_FULL),
    decreases s.len(),
{
    if s.len() > 0 {
        lemma_interval_mean_square(s.drop_last());
        let x = s.last() as int;
        let sf = SAMPLE_FULL as int;
        let t = s.drop_last();
        if forall|i: int| 0 <= i < s.len() ==> #[trigger] s[i] == 0 {
            assert forall|i: int| 0 <= i < t.len() implies #[trigger] t[i] == 0 by {
                assert(t[i] == s[i]);
            }
            assert(s[s.len() - 1] == 0);
        }
        if forall|i: int| 0 <= i < s.len() ==> #[trigger] s[i] >= SAMPLE_FULL || s[i] <= -(SAMPLE_FULL as int) {
            assert forall|i: int| 0 <= i < t.len() implies #[trigger] t[i] >= SAMPLE_FULL || t[i] <= -(
            SAMPLE_FULL as int) by {
                assert(t[i] == s[i]);
            }
            assert(s[s.len() - 1] >= SAMPLE_FULL || s[s.len() - 1] <= -(SAMPLE_FULL as int));
            assert(x * x >= sf * sf) by (nonlinear_arith)
                requires x >= sf || x <= -sf, sf >= 0;
            assert(t.len() * (sf * sf) + sf * sf == s.len() * (sf * sf)) by (nonlinear_arith)
                requires t.len() + 1 == s.len();
        }
    }
}

} // verus!
