//! Microphone window energy: RMS and peak of signed 16-bit PCM.

use vstd::prelude::*;
use crate::log::{MicSample, PCM_WINDOW_SAMPLES, TONE_DUMP_WINDOWS};

verus! {

/// `r` is the integer square root of `n`: `r² ≤ n < (r + 1)²`.
pub open spec fn is_floor_sqrt(n: int, r: int) -> bool {
    0 <= r && r * r <= n && n < (r + 1) * (r + 1)
}

/// One Newton step from `x` never lands below the integer square root:
/// `((x + n / x) / 2 + 1)² > n`.
pub proof fn lemma_newton_stays_above(n: int, x: int)
    requires
        n >= 0,
        x >= 1,
    ensures
        ((x + n / x) / 2 + 1) * ((x + n / x) / 2 + 1) > n,
{
    let q = n / x;
    let b = q + 1;
    let y = (x + q) / 2;
    assert(n < x * b) by (nonlinear_arith)
        requires
            q == n / x,
            b == q + 1,
            x >= 1,
            n >= 0,
    ;
    assert(2 * (y + 1) >= x + b);
    assert(4 * (y + 1) * (y + 1) >= (x + b) * (x + b)) by (nonlinear_arith)
        requires
            2 * (y + 1) >= x + b,
            x + b >= 0,
    ;
    assert((x + b) * (x + b) >= 4 * x * b) by (nonlinear_arith);
    assert(4 * (y + 1) * (y + 1) > 4 * n) by (nonlinear_arith)
        requires
            4 * (y + 1) * (y + 1) >= (x + b) * (x + b),
            (x + b) * (x + b) >= 4 * x * b,
            n < x * b,
            x >= 1,
    ;
    assert((y + 1) * (y + 1) > n) by (nonlinear_arith)
        requires
            4 * (y + 1) * (y + 1) > 4 * n,
    ;
}

/// When the Newton step does not go down, `x` is at most the root.
pub proof fn lemma_newton_fixed(n: int, x: int)
    requires
        n >= 0,
        x >= 1,
        (x + n / x) / 2 >= x,
    ensures
        x * x <= n,
{
    if x * x > n {
        assert(n / x < x) by (nonlinear_arith)
            requires
                x * x > n,
                x >= 1,
                n >= 0,
        ;
    }
}

/// Integer square root by Newton's method.
pub fn isqrt(n: u64) -> (r: u64)
    ensures
        is_floor_sqrt(n as int, r as int),
{
    if n == 0 {
        assert(is_floor_sqrt(0, 0));
        return 0;
    }
    let mut x: u64 = n;
    let mut y: u64 = n / 2 + n % 2;
    assert((x + n / x) / 2 == y) by (nonlinear_arith)
        requires
            x == n,
            n >= 1,
            y == n / 2 + n % 2,
    ;
    proof {
        lemma_newton_stays_above(n as int, n as int);
    }
    assert((x + 1) * (x + 1) > n) by (nonlinear_arith)
        requires
            x == n,
            n >= 1,
    ;
    while y < x
        invariant
            n >= 1,
            1 <= x <= n,
            y == (x + n / x) / 2,
            (x + 1) * (x + 1) > n,
            (y + 1) * (y + 1) > n,
            2 * y <= n + 1,
        decreases x,
    {
        x = y;
        assert(x >= 1) by (nonlinear_arith)
            requires
                (x + 1) * (x + 1) > n,
                n >= 1,
        ;
        assert(x + n / x <= n || n <= 3) by (nonlinear_arith)
            requires
                x >= 1,
                2 * x <= n + 1,
                (x + 1) * (x + 1) > n,
        ;
        y = x.saturating_add(n / x) / 2;
        proof {
            lemma_newton_stays_above(n as int, x as int);
        }
        assert(2 * y <= n + 1) by (nonlinear_arith)
            requires
                y == (x + n / x) / 2,
                y < x || y == x || y > x,
                x >= 1,
                2 * x <= n + 1,
                (x + 1) * (x + 1) > n,
        ;
    }
    proof {
        lemma_newton_fixed(n as int, x as int);
    }
    x
}

/// Magnitude of a sample, as `unsigned_abs` gives it.
pub open spec fn mag(s: i16) -> int {
    if s < 0 {
        -(s as int)
    } else {
        s as int
    }
}

/// Sum of the squared magnitudes.
pub open spec fn sum_sq(s: Seq<i16>) -> int
    decreases s.len(),
{
    if s.len() == 0 {
        0
    } else {
        sum_sq(s.drop_last()) + mag(s.last()) * mag(s.last())
    }
}

/// Largest magnitude, 0 for no samples.
pub open spec fn peak_of(s: Seq<i16>) -> int
    decreases s.len(),
{
    if s.len() == 0 {
        0
    } else if mag(s.last()) > peak_of(s.drop_last()) {
        mag(s.last())
    } else {
        peak_of(s.drop_last())
    }
}

/// `v` capped at `u64::MAX` (the running sum saturates).
pub open spec fn saturated(v: int) -> int {
    if v > u64::MAX {
        u64::MAX as int
    } else {
        v
    }
}

proof fn lemma_sums_nonneg(s: Seq<i16>)
    ensures
        sum_sq(s) >= 0,
        0 <= peak_of(s) <= 32768,
    decreases s.len(),
{
    if s.len() > 0 {
        lemma_sums_nonneg(s.drop_last());
        assert(mag(s.last()) * mag(s.last()) >= 0) by (nonlinear_arith);
    }
}

/// RMS and peak magnitude of a PCM window: the RMS is the integer square
/// root of the mean square (the running sum saturates at `u64::MAX`);
/// `(0, 0)` for no samples.
pub fn pcm_energy(samples: &[i16]) -> (r: (u32, u32))
    ensures
        samples@.len() == 0 ==> r == (0u32, 0u32),
        samples@.len() > 0 ==> is_floor_sqrt(saturated(sum_sq(samples@)) / samples@.len() as int, r.0 as int),
        samples@.len() > 0 ==> r.1 == peak_of(samples@),
{
    if samples.len() == 0 {
        return (0, 0);
    }
    let mut sum: u64 = 0;
    let mut peak: u32 = 0;
    let mut i: usize = 0;
    while i < samples.len()
        invariant
            i <= samples@.len(),
            sum == saturated(sum_sq(samples@.subrange(0, i as int))),
            peak == peak_of(samples@.subrange(0, i as int)),
        decreases samples@.len() - i,
    {
        let v = samples[i];
        let a: u32 = if v < 0 { (0i32 - v as i32) as u32 } else { v as u32 };
        assert(a <= 32768 && a == mag(v));
        assert((a as u64) * (a as u64) <= 32768 * 32768) by (nonlinear_arith)
            requires
                a <= 32768,
        ;
        let sq: u64 = (a as u64) * (a as u64);
        proof {
            let pre = samples@.subrange(0, i as int);
            let post = samples@.subrange(0, i + 1);
            assert(post.drop_last() =~= pre);
            assert(post.last() == v);
            lemma_sums_nonneg(pre);
            assert(sq == mag(v) * mag(v));
            assert(sq >= 0);
        }
        sum = sum.saturating_add(sq);
        if a > peak {
            peak = a;
        }
        i += 1;
    }
    assert(samples@.subrange(0, samples@.len() as int) =~= samples@);
    let r = isqrt(sum / (samples.len() as u64));
    assert(r <= u32::MAX) by (nonlinear_arith)
        requires
            r * r <= u64::MAX,
    ;
    (r as u32, peak)
}

/// Little-endian signed sample of two bytes.
pub open spec fn sample_at(bytes: Seq<u8>, i: int) -> i16 {
    ((bytes[2 * i + 1] as u16) * 256 + (bytes[2 * i] as u16)) as i16
}

/// Samples of a window: one per byte pair, at most `PCM_WINDOW_SAMPLES`.
pub open spec fn window_samples(bytes: Seq<u8>) -> Seq<i16> {
    let n: int = bytes.len() as int / 2;
    let k: int = if n < PCM_WINDOW_SAMPLES { n } else { PCM_WINDOW_SAMPLES as int };
    Seq::new(k as nat, |i: int| sample_at(bytes, i))
}

/// Decodes a PCM window of little-endian byte pairs (a trailing odd byte
/// is ignored, and so is anything past `PCM_WINDOW_SAMPLES` samples).
pub fn decode_window(bytes: &[u8]) -> (v: Vec<i16>)
    ensures
        v@ == window_samples(bytes@),
{
    let n = bytes.len() / 2;
    let k = if n < PCM_WINDOW_SAMPLES { n } else { PCM_WINDOW_SAMPLES };
    let mut v: Vec<i16> = Vec::new();
    let mut i: usize = 0;
    while i < k
        invariant
            k <= bytes@.len() / 2,
            k == window_samples(bytes@).len(),
            i <= k,
            v@ == window_samples(bytes@).subrange(0, i as int),
        decreases k - i,
    {
        let u: u16 = (bytes[2 * i + 1] as u16) * 256 + (bytes[2 * i] as u16);
        v.push(u as i16);
        i += 1;
        assert(v@ =~= window_samples(bytes@).subrange(0, i as int));
    }
    assert(window_samples(bytes@).subrange(0, k as int) =~= window_samples(bytes@));
    v
}

/// The energy sample of one window, `None` when the window holds no
/// sample.
pub fn window_sample(samples: &[i16]) -> (r: Option<MicSample>)
    ensures
        samples@.len() == 0 <==> r is None,
        r matches Some(m) ==> is_floor_sqrt(saturated(sum_sq(samples@)) / samples@.len() as int, m.rms as int)
            && m.peak == peak_of(samples@),
{
    if samples.len() == 0 {
        return None;
    }
    let (rms, peak) = pcm_energy(samples);
    Some(MicSample { rms, peak })
}

/// Registers shared between the microphone task and the telemetry task:
/// the last energy sample, and how many windows are still to be dumped as
/// raw PCM.
pub struct MicShared {
    /// RMS of the last window.
    pub last_rms: u32,
    /// Peak of the last window.
    pub last_peak: u32,
    /// A window was measured since boot.
    pub have_sample: bool,
    /// Windows still to dump.
    pub tone_capture: u32,
}

impl MicShared {
    /// Boot registers: no sample, no dump asked.
    pub fn new() -> (m: MicShared)
        ensures
            !m.have_sample,
            m.tone_capture == 0,
            m.last_rms == 0 && m.last_peak == 0,
    {
        MicShared { last_rms: 0, last_peak: 0, have_sample: false, tone_capture: 0 }
    }

    /// The last energy sample, or `None` before the first window.
    pub fn last(&self) -> (r: Option<MicSample>)
        ensures
            r == (if self.have_sample {
                Some(MicSample { rms: self.last_rms, peak: self.last_peak })
            } else {
                None
            }),
    {
        if !self.have_sample {
            return None;
        }
        Some(MicSample { rms: self.last_rms, peak: self.last_peak })
    }

    /// Records the energy of a window.
    pub fn store(&mut self, sample: MicSample)
        ensures
            final(self).have_sample,
            final(self).last_rms == sample.rms,
            final(self).last_peak == sample.peak,
            final(self).tone_capture == old(self).tone_capture,
    {
        self.last_rms = sample.rms;
        self.last_peak = sample.peak;
        self.have_sample = true;
    }

    /// Asks for the next `TONE_DUMP_WINDOWS` windows as raw PCM.
    pub fn ask_tone(&mut self)
        ensures
            final(self).tone_capture == TONE_DUMP_WINDOWS,
            final(self).have_sample == old(self).have_sample,
            final(self).last_rms == old(self).last_rms,
            final(self).last_peak == old(self).last_peak,
    {
        self.tone_capture = TONE_DUMP_WINDOWS;
    }

    /// Whether the next window is to be dumped.
    pub fn dump_pending(&self) -> (d: bool)
        ensures
            d <==> self.tone_capture > 0,
    {
        self.tone_capture > 0
    }

    /// A window was read; one that was dumped counts off the request.
    /// Returns whether the task may pause before the next window (nothing
    /// left to dump).
    pub fn window_done(&mut self, dumped: bool) -> (pause: bool)
        ensures
            final(self).tone_capture == (if dumped && old(self).tone_capture > 0 {
                (old(self).tone_capture - 1) as u32
            } else {
                old(self).tone_capture
            }),
            pause <==> final(self).tone_capture == 0,
            final(self).have_sample == old(self).have_sample,
            final(self).last_rms == old(self).last_rms,
            final(self).last_peak == old(self).last_peak,
    {
        if dumped && self.tone_capture > 0 {
            self.tone_capture = self.tone_capture - 1;
        }
        self.tone_capture == 0
    }
}

} // verus!
