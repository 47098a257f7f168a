//! Rolling level meter.
//!
//! Audio samples enter the library as fixed-point values: an `i32` sample
//! counts millionths of full scale, so `SAMPLE_UNIT` stands for 1.0.  The
//! meter folds a block of samples into a reading whose peak is the exact
//! maximum magnitude, whose `clipped` flag is set exactly when some sample
//! reaches full scale, and whose rms is the integer square root of the mean
//! square — the true root-mean-square to within one millionth.

use vstd::prelude::*;
use vstd::arithmetic::mul::lemma_mul_inequality;
use vstd::arithmetic::div_mod::{lemma_div_is_ordered, lemma_div_by_multiple};

verus! {

/// Fixed-point full scale: this many sample units stand for 1.0.
pub const SAMPLE_UNIT: i32 = 1_000_000;

#[derive(Debug, Clone, Copy, PartialEq, Eq, Structural)]
pub struct LevelReading {
    /// Root-mean-square level, in millionths of full scale.
    pub rms: u32,
    /// Peak magnitude, in millionths of full scale.
    pub peak: u32,
    pub clipped: bool,
}

impl LevelReading {
    pub fn silence() -> (r: Self)
        ensures
            r == (LevelReading { rms: 0, peak: 0, clipped: false }),
    {
        LevelReading { rms: 0, peak: 0, clipped: false }
    }
}

/// The magnitude of one sample.
pub open spec fn abs_of(s: i32) -> int {
    if s < 0 {
        -(s as int)
    } else {
        s as int
    }
}

/// The greatest magnitude in a block.
pub open spec fn peak_of(samples: Seq<i32>) -> int
    decreases samples.len(),
{
    if samples.len() == 0 {
        0
    } else if abs_of(samples.last()) > peak_of(samples.drop_last()) {
        abs_of(samples.last())
    } else {
        peak_of(samples.drop_last())
    }
}

/// The sum of squared samples of a block.
pub open spec fn sum_sq(samples: Seq<i32>) -> int
    decreases samples.len(),
{
    if samples.len() == 0 {
        0
    } else {
        sum_sq(samples.drop_last()) + abs_of(samples.last()) * abs_of(samples.last())
    }
}

/// Whether some sample reaches full scale.
pub open spec fn any_clipped(samples: Seq<i32>) -> bool {
    exists|i: int| 0 <= i < samples.len() && #[trigger] abs_of(samples[i]) >= SAMPLE_UNIT
}

#[derive(Debug, Clone)]
pub struct LevelMeter {
    reading: LevelReading,
}

impl LevelMeter {
    pub closed spec fn spec_reading(self) -> LevelReading {
        self.reading
    }

    pub fn new() -> (r: Self)
        ensures
            r.spec_reading() == (LevelReading { rms: 0, peak: 0, clipped: false }),
    {
        LevelMeter { reading: LevelReading::silence() }
    }

    /// Folds one block into the reading.  An empty block leaves the reading
    /// unchanged; otherwise the new reading describes exactly this block.
    #[verifier::loop_isolation(false)]
    pub fn update(&mut self, samples: &[i32])
        ensures
            samples@.len() == 0 ==> *final(self) == *old(self),
            samples@.len() > 0 ==> {
                let r = final(self).spec_reading();
                &&& r.peak == peak_of(samples@)
                &&& r.clipped == any_clipped(samples@)
                &&& (r.rms as int) * (r.rms as int) <= sum_sq(samples@) / (samples@.len() as int)
                &&& sum_sq(samples@) / (samples@.len() as int) < (r.rms as int + 1) * (
                r.rms as int + 1)
            },
    {
        let n = samples.len();
        if n == 0 {
            return ;
        }
        let mut peak: u32 = 0;
        let mut sum: u128 = 0;
        let mut clipped = false;
        let mut i: usize = 0;
        proof {
            assert(samples@.take(0) =~= Seq::<i32>::empty());
        }
        while i < n
            invariant
                i <= n,
                peak == peak_of(samples@.take(i as int)),
                sum == sum_sq(samples@.take(i as int)),
                clipped == any_clipped(samples@.take(i as int)),
                sum <= (i as int) * 0x4000_0000_0000_0000,
            decreases n - i,
        {
            let s = samples[i];
            let mag: u32 = if s < 0 {
                proof {
                    assert(0 <= -(s as int) <= 0x8000_0000);
                }
                (-(s as i64)) as u32
            } else {
                s as u32
            };
            proof {
                assert(mag as int == abs_of(s));
            }
            if mag > peak {
                peak = mag;
            }
            if mag >= (SAMPLE_UNIT as u32) {
                clipped = true;
            }
            proof {
                assert((mag as int) * (mag as int) <= 0x4000_0000_0000_0000) by (nonlinear_arith)
                    requires
                        0 <= mag as int <= 0x8000_0000,
                ;
                lemma_mul_inequality(i as int + 1, n as int, 0x4000_0000_0000_0000);
                assert((n as int) * 0x4000_0000_0000_0000
                    < 0x1_0000_0000_0000_0000_0000_0000_0000_0000) by {
                    lemma_mul_inequality(n as int, 0xffff_ffff_ffff_ffff, 0x4000_0000_0000_0000);
                }
            }
            let sq: u64 = (mag as u64) * (mag as u64);
            sum = sum + (sq as u128);
            proof {
                assert(samples@.take(i as int + 1).drop_last() =~= samples@.take(i as int));
                assert(samples@.take(i as int + 1).last() == s);
                if clipped && !any_clipped(samples@.take(i as int)) {
                    assert(abs_of(samples@.take(i as int + 1)[i as int]) >= SAMPLE_UNIT);
                }
                if any_clipped(samples@.take(i as int)) {
                    let w = choose|w: int|
                        0 <= w < i && #[trigger] abs_of(samples@.take(i as int)[w]) >= SAMPLE_UNIT;
                    assert(abs_of(samples@.take(i as int + 1)[w]) >= SAMPLE_UNIT);
                }
                if any_clipped(samples@.take(i as int + 1)) && !clipped {
                    let w = choose|w: int|
                        0 <= w < i + 1 && #[trigger] abs_of(samples@.take(i as int + 1)[w])
                            >= SAMPLE_UNIT;
                    if w < i {
                        assert(abs_of(samples@.take(i as int)[w]) >= SAMPLE_UNIT);
                    }
                }
            }
            i = i + 1;
        }
        proof {
            assert(samples@.take(n as int) =~= samples@);
        }
        proof {
            assert(sum as int / (n as int) <= 0x4000_0000_0000_0000) by {
                lemma_div_is_ordered(sum as int, (n as int) * 0x4000_0000_0000_0000, n as int);
                lemma_div_by_multiple(0x4000_0000_0000_0000, n as int);
            }
        }
        let mean: u64 = (sum / (n as u128)) as u64;
        proof {
            assert(mean as int == sum_sq(samples@) / (samples@.len() as int));
        }
        let rms = isqrt64(mean);
        self.reading = LevelReading { rms, peak, clipped };
    }

    pub fn reading(&self) -> (r: LevelReading)
        ensures
            r == self.spec_reading(),
    {
        self.reading
    }

    pub fn reset(&mut self)
        ensures
            final(self).spec_reading() == (LevelReading { rms: 0, peak: 0, clipped: false }),
    {
        self.reading = LevelReading::silence();
    }
}

impl Default for LevelMeter {
    fn default() -> (r: Self)
        ensures
            r.spec_reading() == (LevelReading { rms: 0, peak: 0, clipped: false }),
    {
        LevelMeter::new()
    }
}

/// The integer square root: the greatest `r` with `r * r <= x`.
fn isqrt64(x: u64) -> (r: u32)
    requires
        x <= 0x4000_0000_0000_0000,
    ensures
        (r as int) * (r as int) <= x as int,
        (x as int) < (r as int + 1) * (r as int + 1),
{
    let mut lo: u64 = 0;
    let mut hi: u64 = 0x8000_0001;
    proof {
        assert((0x8000_0001 as int) * (0x8000_0001 as int) > 0x4000_0000_0000_0000)
            by (nonlinear_arith);
    }
    while hi - lo > 1
        invariant
            lo < hi <= 0x8000_0001,
            (lo as int) * (lo as int) <= x as int,
            (hi as int) * (hi as int) > x as int,
        decreases hi - lo,
    {
        let mid = lo + (hi - lo) / 2;
        proof {
            assert(lo < mid < hi);
            assert((mid as int) * (mid as int) <= (0x8000_0001 as int) * (0x8000_0001 as int))
                by (nonlinear_arith)
                requires
                    0 <= mid as int <= 0x8000_0001,
            ;
            assert((0x8000_0001 as int) * (0x8000_0001 as int) < 0x1_0000_0000_0000_0000_0000_0000_0000_0000)
                by (nonlinear_arith);
        }
        let sq: u128 = (mid as u128) * (mid as u128);
        if sq <= (x as u128) {
            lo = mid;
        } else {
            hi = mid;
        }
    }
    proof {
        assert(hi == lo + 1);
        assert(lo <= 0x8000_0000);
    }
    lo as u32
}

} // verus!
