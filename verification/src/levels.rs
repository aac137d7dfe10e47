//! Levels in fixed point.
//!
//! A level, a volume and a sample are counted in steps of 1/65536, so that
//! peak and RMS are whole-number arithmetic. A window of samples has a peak,
//! the largest magnitude in it, and an RMS, the root of the mean of the
//! squares, rounded down.

use vstd::prelude::*;

verus! {

/// The level 1.0: a full-scale sample, or a volume that changes nothing.
pub const LEVEL_ONE: u32 = 65536;

/// The number of samples in a window.
pub const WINDOW_SIZE: usize = 512;

/// The magnitude of a sample.
pub open spec fn magnitude(sample: i32) -> int {
    if sample >= 0 {
        sample as int
    } else {
        -(sample as int)
    }
}

/// `peak` is the largest magnitude among `samples`, and zero if there are
/// none.
pub open spec fn is_peak(peak: int, samples: Seq<i32>) -> bool {
    &&& forall|i: int| 0 <= i < samples.len() ==> magnitude(#[trigger] samples[i]) <= peak
    &&& if samples.len() == 0 {
        peak == 0
    } else {
        exists|i: int| 0 <= i < samples.len() && magnitude(#[trigger] samples[i]) == peak
    }
}

/// The sum of the squares of `samples`.
pub open spec fn square_sum(samples: Seq<i32>) -> int
    decreases samples.len(),
{
    if samples.len() == 0 {
        0
    } else {
        square_sum(samples.drop_last()) + samples.last() * samples.last()
    }
}

/// `root` is the square root of `of`, rounded down.
pub open spec fn is_root(root: int, of: int) -> bool {
    0 <= root && root * root <= of < (root + 1) * (root + 1)
}

/// `rms` is the root of the mean of the squares of `samples`, each division
/// and root rounded down.
pub open spec fn is_rms(rms: int, samples: Seq<i32>) -> bool {
    samples.len() > 0 && is_root(rms, square_sum(samples) / (samples.len() as int))
}

/// The magnitude of `sample`.
pub fn magnitude_of(sample: i32) -> (m: u32)
    ensures
        m == magnitude(sample),
        m <= 0x8000_0000,
{
    if sample >= 0 {
        sample as u32
    } else {
        (-(sample as i64)) as u32
    }
}

/// The square root of `n`, rounded down.
pub fn integer_root(n: u128) -> (root: u64)
    ensures
        is_root(root as int, n as int),
{
    let mut low: u128 = 0;
    let mut high: u128 = 0x1_0000_0000_0000_0000;
    assert(n < high * high) by (nonlinear_arith)
        requires
            n <= u128::MAX,
            high == 0x1_0000_0000_0000_0000,
    ;
    while high - low > 1
        invariant
            low < high <= 0x1_0000_0000_0000_0000,
            low * low <= n < high * high,
        decreases high - low,
    {
        let mid = low + (high - low) / 2;
        assert(mid * mid <= u128::MAX) by (nonlinear_arith)
            requires
                mid <= 0xffff_ffff_ffff_ffff,
        ;
        if mid * mid <= n {
            low = mid;
        } else {
            high = mid;
        }
    }
    low as u64
}

/// The levels of one window.
#[derive(Clone, Copy, Debug, PartialEq, Eq, Structural)]
pub struct WindowLevels {
    pub peak: u32,
    pub rms: u32,
}

/// The samples of the window that is being filled.
pub struct SampleWindow {
    samples: Vec<i32>,
}

impl SampleWindow {
    /// The samples taken in since the last full window, oldest first.
    pub closed spec fn view(&self) -> Seq<i32> {
        self.samples@
    }

    /// The window after `sample` came in: a full window starts over.
    pub open spec fn pushed(window: Seq<i32>, sample: i32) -> Seq<i32> {
        if window.len() >= WINDOW_SIZE {
            seq![sample]
        } else {
            window.push(sample)
        }
    }

    /// An empty window.
    pub fn new() -> (window: Self)
        ensures
            window@ == Seq::<i32>::empty(),
    {
        SampleWindow { samples: Vec::new() }
    }

    /// Takes in one sample and says whether the window is full now. The
    /// levels of a full window are due before the next sample comes in.
    pub fn push(&mut self, sample: i32) -> (full: bool)
        ensures
            final(self)@ == Self::pushed(old(self)@, sample),
            full == (final(self)@.len() == WINDOW_SIZE),
    {
        if self.samples.len() >= WINDOW_SIZE {
            self.samples.clear();
        }
        self.samples.push(sample);
        assert(self@ =~= Self::pushed(old(self)@, sample));
        self.samples.len() == WINDOW_SIZE
    }

    /// The samples of the window, oldest first.
    pub fn samples(&self) -> (samples: &Vec<i32>)
        ensures
            samples@ == self@,
    {
        &self.samples
    }

    /// Whether the window holds a full set of samples.
    pub fn is_full(&self) -> (full: bool)
        ensures
            full == (self@.len() == WINDOW_SIZE),
    {
        self.samples.len() == WINDOW_SIZE
    }

    /// The levels of the window, once it is full.
    pub fn levels(&self) -> (levels: Option<WindowLevels>)
        ensures
            levels is Some <==> self@.len() == WINDOW_SIZE,
            levels matches Some(found) ==> is_peak(found.peak as int, self@) && is_rms(
                found.rms as int,
                self@,
            ),
    {
        if self.samples.len() != WINDOW_SIZE {
            return None;
        }
        Some(measure(&self.samples))
    }
}

/// The peak and the RMS of `samples`.
fn measure(samples: &Vec<i32>) -> (levels: WindowLevels)
    requires
        0 < samples@.len(),
    ensures
        is_peak(levels.peak as int, samples@),
        is_rms(levels.rms as int, samples@),
{
    let count = samples.len();
    let mut peak: u32 = 0;
    let mut sum: u128 = 0;
    let mut i: usize = 0;
    while i < count
        invariant
            i <= count == samples@.len(),
            is_peak(peak as int, samples@.take(i as int)),
            sum == square_sum(samples@.take(i as int)),
            sum <= i * 0x4000_0000_0000_0000,
        decreases count - i,
    {
        let ghost seen = samples@.take(i as int);
        let ghost seen_now = samples@.take(i + 1);
        let sample = samples[i];
        let m = magnitude_of(sample);
        proof {
            assert(seen_now.drop_last() =~= seen);
            assert(seen_now.last() == sample);
            assert(sample * sample == m * m) by (nonlinear_arith)
                requires
                    m == magnitude(sample),
            ;
            assert(m * m <= 0x4000_0000_0000_0000) by (nonlinear_arith)
                requires
                    0 <= m <= 0x8000_0000,
            ;
            assert forall|j: int| 0 <= j < seen_now.len() implies magnitude(#[trigger] seen_now[j]) <= (if m
                > peak {
                m
            } else {
                peak
            }) by {
                if j < i {
                    assert(seen_now[j] == seen[j]);
                }
            }
            if m > peak || i == 0 {
                assert(magnitude(seen_now[i as int]) == m);
            } else {
                let j = choose|j: int| 0 <= j < seen.len() && magnitude(#[trigger] seen[j]) == peak;
                assert(magnitude(seen_now[j]) == peak);
            }
        }
        if m > peak {
            peak = m;
        }
        sum = sum + (m as u128) * (m as u128);
        i += 1;
    }
    proof {
        assert(samples@.take(i as int) =~= samples@);
    }
    let mean = sum / (count as u128);
    let root = integer_root(mean);
    proof {
        vstd::arithmetic::div_mod::lemma_div_is_ordered(
            sum as int,
            count * 0x4000_0000_0000_0000,
            count as int,
        );
        vstd::arithmetic::div_mod::lemma_div_multiples_vanish(0x4000_0000_0000_0000, count as int);
        assert(root <= 0x8000_0000) by (nonlinear_arith)
            requires
                root * root <= mean,
                mean <= 0x4000_0000_0000_0000,
                0 <= root,
        ;
    }
    WindowLevels { peak, rms: root as u32 }
}

/// The levels of one playing sound as its meter last saw them.
#[derive(Clone, Copy, Debug, PartialEq, Eq, Structural)]
pub struct LevelData {
    /// The peak of the last full window.
    pub peak: u32,
    /// The RMS of the last full window.
    pub rms: u32,
    /// The volume the sound plays at.
    pub volume: u32,
    /// The instant at which the last full window was measured.
    pub last_update: u64,
}

impl LevelData {
    /// Silent levels for a sound that starts to play at `volume` at `now`.
    pub fn silent(volume: u32, now: u64) -> (levels: LevelData)
        ensures
            levels == (LevelData { peak: 0, rms: 0, volume, last_update: now }),
    {
        LevelData { peak: 0, rms: 0, volume, last_update: now }
    }

    /// Notes the levels of a window that was measured at `now`.
    pub fn update(&mut self, measured: WindowLevels, now: u64)
        ensures
            *final(self) == (LevelData {
                peak: measured.peak,
                rms: measured.rms,
                volume: old(self).volume,
                last_update: now,
            }),
    {
        self.peak = measured.peak;
        self.rms = measured.rms;
        self.last_update = now;
    }
}

} // verus!
