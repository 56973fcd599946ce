use crate::sample_decoder::FULL_SCALE;
use vstd::arithmetic::power::{lemma_pow_positive, pow};
use vstd::arithmetic::power2::{lemma2_to64, lemma_pow2_pos, lemma_pow2_unfold, pow2};
use vstd::prelude::*;

verus! {

/// Numerator of the per-poll decay factor (0.95).
pub const PEAK_DECAY_NUM: u64 = 95;

/// Denominator of the per-poll decay factor.
pub const PEAK_DECAY_DEN: u64 = 100;

/// How long the held peak stays pinned without a new maximum, in milliseconds.
pub const PEAK_HOLD_DURATION_MS: u64 = 1000;

/// One decay step of a level.
pub open spec fn decayed(level: u64) -> u64 {
    (level as int * PEAK_DECAY_NUM as int / PEAK_DECAY_DEN as int) as u64
}

/// Milliseconds from `since` to `now`; a clock that went backwards counts as no time.
pub open spec fn elapsed_ms(since: u64, now: u64) -> u64 {
    if now >= since {
        (now - since) as u64
    } else {
        0
    }
}

/// Peak meter state: fast attack with geometric decay, and a held maximum.
/// Levels use the fixed-point scale of the sample decoder.
#[derive(Debug, Clone, Copy, PartialEq, Eq, Structural)]
pub struct PeakEnvelope {
    /// Current peak; jumps up to a louder sample, otherwise decays each update.
    pub current_peak: u64,
    /// Highest recent peak, held for `PEAK_HOLD_DURATION_MS`.
    pub peak_hold: u64,
    /// When `peak_hold` was last raised, in milliseconds.
    pub peak_hold_time_ms: u64,
}

/// The envelope after one update with the peak of a new buffer at time `now`.
pub open spec fn envelope_step(s: PeakEnvelope, sample_peak: u64, now: u64) -> PeakEnvelope {
    let current = if sample_peak > s.current_peak {
        sample_peak
    } else {
        decayed(s.current_peak)
    };
    if sample_peak > s.peak_hold {
        PeakEnvelope { current_peak: current, peak_hold: sample_peak, peak_hold_time_ms: now }
    } else if elapsed_ms(s.peak_hold_time_ms, now) > PEAK_HOLD_DURATION_MS {
        PeakEnvelope { current_peak: current, peak_hold: current, peak_hold_time_ms: s.peak_hold_time_ms }
    } else {
        PeakEnvelope { current_peak: current, peak_hold: s.peak_hold, peak_hold_time_ms: s.peak_hold_time_ms }
    }
}

impl PeakEnvelope {
    /// A silent envelope whose hold timer starts at `now_ms`.
    pub fn new(now_ms: u64) -> (r: PeakEnvelope)
        ensures
            r.current_peak == 0,
            r.peak_hold == 0,
            r.peak_hold_time_ms == now_ms,
    {
        PeakEnvelope { current_peak: 0, peak_hold: 0, peak_hold_time_ms: now_ms }
    }

    /// Feeds the peak of one captured buffer, observed at `now_ms`.
    pub fn update(&mut self, sample_peak: u64, now_ms: u64)
        ensures
            *final(self) == envelope_step(*old(self), sample_peak, now_ms),
    {
        let current: u64 = if sample_peak > self.current_peak {
            sample_peak
        } else {
            let c: u128 = self.current_peak as u128;
            assert(c * 95 <= c * 100) by (nonlinear_arith);
            assert(c * 95 / 100 <= c) by (nonlinear_arith)
                requires
                    c * 95 <= c * 100,
            ;
            (c * (PEAK_DECAY_NUM as u128) / (PEAK_DECAY_DEN as u128)) as u64
        };
        self.current_peak = current;
        if sample_peak > self.peak_hold {
            self.peak_hold = sample_peak;
            self.peak_hold_time_ms = now_ms;
        } else {
            let elapsed: u64 = if now_ms >= self.peak_hold_time_ms {
                now_ms - self.peak_hold_time_ms
            } else {
                0
            };
            if elapsed > PEAK_HOLD_DURATION_MS {
                self.peak_hold = current;
            }
        }
    }

    /// The level reported to the meter.
    pub fn current_level(&self) -> (r: u64)
        ensures
            r == self.current_peak,
    {
        self.current_peak
    }
}

/// Fast attack, slow decay: a louder buffer sets the current peak at once; a buffer
/// that is not louder scales it by the decay factor, so it never rises and never
/// goes below zero.
pub proof fn lemma_attack_and_decay(s: PeakEnvelope, sample_peak: u64, now: u64)
    ensures
        sample_peak > s.current_peak ==> envelope_step(s, sample_peak, now).current_peak
            == sample_peak,
        sample_peak <= s.current_peak ==> envelope_step(s, sample_peak, now).current_peak
            == s.current_peak as int * PEAK_DECAY_NUM as int / PEAK_DECAY_DEN as int,
        sample_peak <= s.current_peak ==> envelope_step(s, sample_peak, now).current_peak
            <= s.current_peak,
        envelope_step(s, sample_peak, now).current_peak >= 0,
{
    let c = s.current_peak as int;
    assert(c * 95 / 100 <= c) by (nonlinear_arith)
        requires
            c >= 0,
    ;
}

/// Peak hold: a new maximum is held and restarts the timer; without one, the held
/// value stays until the hold duration has passed, then drops to the decayed current peak.
pub proof fn lemma_peak_hold(s: PeakEnvelope, sample_peak: u64, now: u64)
    ensures
        sample_peak > s.peak_hold ==> envelope_step(s, sample_peak, now).peak_hold == sample_peak
            && envelope_step(s, sample_peak, now).peak_hold_time_ms == now,
        sample_peak <= s.peak_hold && elapsed_ms(s.peak_hold_time_ms, now) <= PEAK_HOLD_DURATION_MS
            ==> envelope_step(s, sample_peak, now).peak_hold == s.peak_hold,
        sample_peak <= s.peak_hold && elapsed_ms(s.peak_hold_time_ms, now) > PEAK_HOLD_DURATION_MS
            ==> envelope_step(s, sample_peak, now).peak_hold == envelope_step(
            s,
            sample_peak,
            now,
        ).current_peak,
        sample_peak <= s.peak_hold ==> envelope_step(s, sample_peak, now).peak_hold_time_ms
            == s.peak_hold_time_ms,
{
}

/// `level` after `n` decay steps.
pub open spec fn decay_iter(level: u64, n: nat) -> u64
    decreases n,
{
    if n == 0 {
        level
    } else {
        decayed(decay_iter(level, (n - 1) as nat))
    }
}

/// The envelope after silent buffers observed at each of `times`, in order.
pub open spec fn after_silence(s: PeakEnvelope, times: Seq<u64>) -> PeakEnvelope
    decreases times.len(),
{
    if times.len() == 0 {
        s
    } else {
        envelope_step(after_silence(s, times.drop_last()), 0, times.last())
    }
}

proof fn lemma_decay_step_shrinks(c: u64)
    ensures
        decayed(c) <= c,
        decayed(c) * 100 <= c * 95,
{
    assert(c as int * 95 / 100 <= c as int) by (nonlinear_arith);
    assert((c as int * 95 / 100) * 100 <= c as int * 95) by (nonlinear_arith);
}

proof fn lemma_decay_iter_geometric(c: u64, k: nat)
    ensures
        decay_iter(c, k) * pow(100, k) <= c * pow(95, k),
        decay_iter(c, k) <= c,
    decreases k,
{
    reveal(pow);
    if k > 0 {
        lemma_decay_iter_geometric(c, (k - 1) as nat);
        let d = decay_iter(c, (k - 1) as nat);
        lemma_decay_step_shrinks(d);
        let z = decay_iter(c, k);
        let p = pow(100, (k - 1) as nat);
        let q = pow(95, (k - 1) as nat);
        lemma_pow_positive(100, (k - 1) as nat);
        assert(z * (100 * p) <= c * (95 * q)) by (nonlinear_arith)
            requires
                z * 100 <= d * 95,
                d * p <= c * q,
                p > 0,
                z >= 0,
        ;
    }
}

proof fn lemma_decay_iter_compose(c: u64, a: nat, b: nat)
    ensures
        decay_iter(c, a + b) == decay_iter(decay_iter(c, a), b),
    decreases b,
{
    if b > 0 {
        lemma_decay_iter_compose(c, a, (b - 1) as nat);
        assert((a + b - 1) as nat == a + (b - 1) as nat);
    }
}

proof fn lemma_decay_iter_of_zero(n: nat)
    ensures
        decay_iter(0, n) == 0,
    decreases n,
{
    if n > 0 {
        lemma_decay_iter_of_zero((n - 1) as nat);
    }
}

/// Fourteen decay steps at least halve a level (0.95^14 < 1/2).
proof fn lemma_fourteen_steps_halve(x: u64)
    ensures
        decay_iter(x, 14) * 2 <= x,
{
    reveal(pow);
        assert(pow(95, 0) == 1);
        assert(pow(95, 1) == 95);
        assert(pow(95, 2) == 9025);
        assert(pow(95, 3) == 857375);
        assert(pow(95, 4) == 81450625);
        assert(pow(95, 5) == 7737809375);
        assert(pow(95, 6) == 735091890625);
        assert(pow(95, 7) == 69833729609375);
        assert(pow(95, 8) == 6634204312890625);
        assert(pow(95, 9) == 630249409724609375);
        assert(pow(95, 10) == 59873693923837890625);
        assert(pow(95, 11) == 5688000922764599609375);
        assert(pow(95, 12) == 540360087662636962890625);
        assert(pow(95, 13) == 51334208327950511474609375);
        assert(pow(95, 14) == 4876749791155298590087890625);
        assert(pow(100, 0) == 1);
        assert(pow(100, 1) == 100);
        assert(pow(100, 2) == 10000);
        assert(pow(100, 3) == 1000000);
        assert(pow(100, 4) == 100000000);
        assert(pow(100, 5) == 10000000000);
        assert(pow(100, 6) == 1000000000000);
        assert(pow(100, 7) == 100000000000000);
        assert(pow(100, 8) == 10000000000000000);
        assert(pow(100, 9) == 1000000000000000000);
        assert(pow(100, 10) == 100000000000000000000);
        assert(pow(100, 11) == 10000000000000000000000);
        assert(pow(100, 12) == 1000000000000000000000000);
        assert(pow(100, 13) == 100000000000000000000000000);
        assert(pow(100, 14) == 10000000000000000000000000000);
    lemma_decay_iter_geometric(x, 14);
    let z = decay_iter(x, 14);
    assert(z * 2 <= x) by (nonlinear_arith)
        requires
            z * 10000000000000000000000000000 <= x * 4876749791155298590087890625,
            z >= 0,
    ;
}

proof fn lemma_decay_halvings(c: u64, m: nat)
    ensures
        decay_iter(c, 14 * m) * pow2(m) <= c,
    decreases m,
{
    if m > 0 {
        lemma_decay_halvings(c, (m - 1) as nat);
        let y = decay_iter(c, 14 * (m - 1) as nat);
        lemma_decay_iter_compose(c, 14 * (m - 1) as nat, 14);
        assert(14 * (m - 1) as nat + 14 == 14 * m);
        lemma_fourteen_steps_halve(y);
        let z = decay_iter(c, 14 * m);
        let p = pow2((m - 1) as nat);
        lemma_pow2_unfold(m);
        assert(z * (2 * p) <= c) by (nonlinear_arith)
            requires
                z * 2 <= y,
                y * p <= c,
                p >= 0,
        ;
    } else {
        lemma2_to64();
    }
}

/// A level below 2^m is zero after any `n >= 14 * m` decay steps.
proof fn lemma_decay_reaches_zero(c: u64, m: nat, n: nat)
    requires
        c < pow2(m),
        n >= 14 * m,
    ensures
        decay_iter(c, n) == 0,
{
    lemma_decay_halvings(c, m);
    lemma_pow2_pos(m);
    let z = decay_iter(c, 14 * m);
    assert(z == 0) by (nonlinear_arith)
        requires
            z * pow2(m) <= c,
            c < pow2(m),
            z >= 0,
    ;
    lemma_decay_iter_compose(c, 14 * m, (n - 14 * m) as nat);
    lemma_decay_iter_of_zero((n - 14 * m) as nat);
}

/// Through silence the current peak decays geometrically, one decay step per
/// buffer: after `n` silent buffers it is at most the starting level times
/// 0.95^n, it never rises, and it reaches exactly zero (the silence floor) after
/// 448 buffers from full scale or below (under five seconds of 10 ms polls), and
/// after 896 buffers from any level.
pub proof fn lemma_silence_decays_geometrically(s: PeakEnvelope, times: Seq<u64>)
    ensures
        after_silence(s, times).current_peak == decay_iter(s.current_peak, times.len()),
        after_silence(s, times).current_peak * pow(100, times.len()) <= s.current_peak * pow(
            95,
            times.len(),
        ),
        after_silence(s, times).current_peak <= s.current_peak,
        s.current_peak <= FULL_SCALE && times.len() >= 448 ==> after_silence(s, times).current_peak
            == 0,
        times.len() >= 896 ==> after_silence(s, times).current_peak == 0,
    decreases times.len(),
{
    if times.len() > 0 {
        lemma_silence_decays_geometrically(s, times.drop_last());
    }
    lemma_decay_iter_geometric(s.current_peak, times.len());
    lemma2_to64();
    if s.current_peak <= FULL_SCALE && times.len() >= 448 {
        lemma_decay_reaches_zero(s.current_peak, 32, times.len());
    }
    if times.len() >= 896 {
        lemma_decay_reaches_zero(s.current_peak, 64, times.len());
    }
}

} // verus!
