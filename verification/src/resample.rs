//! Downmix to mono and naive linear-interpolation resampling to 16 kHz.
//!
//! The captured buffer holds interleaved fixed-point samples at the
//! device's rate; the transcription engine wants 16 kHz mono.  Frames are
//! averaged across channels, then the mono signal is resampled by linear
//! interpolation at exact rational positions.  All divisions truncate
//! toward zero, as the machine divides.

use vstd::prelude::*;
use vstd::arithmetic::mul::lemma_mul_inequality;
use vstd::arithmetic::div_mod::{
    lemma_div_is_ordered, lemma_div_by_multiple, lemma_fundamental_div_mod,
    lemma_mod_division_less_than_divisor,
};
use crate::audio::div_trunc;

verus! {

/// The rate the transcription engine consumes, in Hz.
pub const TARGET_SAMPLE_RATE: u32 = 16_000;

/// The sum of `k` consecutive samples starting at `base`.
pub open spec fn window_sum(audio: Seq<i32>, base: int, k: int) -> int
    decreases k,
{
    if k <= 0 {
        0
    } else {
        window_sum(audio, base, k - 1) + audio[base + k - 1]
    }
}

/// Interleaved frames averaged across `ch` channels, truncating toward
/// zero.
pub open spec fn spec_downmix(audio: Seq<i32>, ch: int) -> Seq<i32> {
    if ch <= 0 {
        Seq::empty()
    } else {
        Seq::new((audio.len() as int / ch) as nat, |f: int| downmix_frame(audio, ch, f))
    }
}

pub open spec fn downmix_frame(audio: Seq<i32>, ch: int, f: int) -> i32 {
    div_trunc(window_sum(audio, f * ch, ch), ch) as i32
}

/// The linearly interpolated sample at output index `i`: the source
/// position is `i * rate / 16000`, split into an index and a remainder.
pub open spec fn interp_at(mono: Seq<i32>, rate: int, i: int) -> i32 {
    let p = i * rate;
    let idx = p / 16000;
    let rem = p % 16000;
    let next = if idx + 1 < mono.len() {
        idx + 1
    } else {
        idx
    };
    (mono[idx] + div_trunc((mono[next] - mono[idx]) * rem, 16000)) as i32
}

/// The rounded output length the resampler aims for:
/// `round(len * 16000 / rate)`.
pub open spec fn spec_target_len(len: int, rate: int) -> int {
    (2 * len * 16000 + rate) / (2 * rate)
}

/// How many output positions fall inside the source signal.
pub open spec fn spec_positions_inside(len: int, rate: int) -> int {
    (len * 16000 + rate - 1) / rate
}

/// The resampled mono signal: one interpolated sample per output index,
/// stopping at the rounded target length or at the end of the source,
/// whichever comes first.  A signal already at 16 kHz, an empty signal,
/// and a zero rate pass through unchanged.
pub open spec fn spec_resample(mono: Seq<i32>, rate: int) -> Seq<i32> {
    if mono.len() == 0 || rate == 16000 || rate == 0 {
        mono
    } else {
        let n = if spec_target_len(mono.len() as int, rate) <= spec_positions_inside(
            mono.len() as int,
            rate,
        ) {
            spec_target_len(mono.len() as int, rate)
        } else {
            spec_positions_inside(mono.len() as int, rate)
        };
        Seq::new(n as nat, |i: int| interp_at(mono, rate, i))
    }
}

/// The whole pipeline: downmix if interleaved, then resample.
pub open spec fn spec_resample_to_16k_mono(audio: Seq<i32>, rate: int, ch: int) -> Seq<i32> {
    let mono = if ch <= 1 {
        audio
    } else {
        spec_downmix(audio, ch)
    };
    spec_resample(mono, rate)
}

/// Truncating signed division by a positive divisor.
fn div_trunc_i64(a: i64, b: i64) -> (r: i64)
    requires
        b > 0,
        a > i64::MIN,
    ensures
        r as int == div_trunc(a as int, b as int),
{
    if a >= 0 {
        a / b
    } else {
        -((-a) / b)
    }
}

/// Averages interleaved frames across `channels`; zero channels yield an
/// empty signal.
#[verifier::loop_isolation(false)]
pub fn downmix_to_mono(audio: Vec<i32>, channels: u16) -> (r: Vec<i32>)
    ensures
        r@ == spec_downmix(audio@, channels as int),
{
    if channels == 0 {
        return Vec::new();
    }
    let ch = channels as usize;
    let frames = audio.len() / ch;
    proof {
        lemma_fundamental_div_mod(audio@.len() as int, ch as int);
    }
    let mut out: Vec<i32> = Vec::new();
    let mut f: usize = 0;
    while f < frames
        invariant
            f <= frames,
            out@ =~= spec_downmix(audio@, channels as int).take(f as int),
        decreases frames - f,
    {
        proof {
            lemma_mul_inequality(f as int + 1, frames as int, ch as int);
            lemma_fundamental_div_mod(audio@.len() as int, ch as int);
            lemma_mod_division_less_than_divisor(audio@.len() as int, ch as int);
            assert((ch as int) * (frames as int) + (audio@.len() as int) % (ch as int)
                == audio@.len() as int);
            assert((frames as int) * (ch as int) <= audio@.len() as int) by (nonlinear_arith)
                requires
                    (ch as int) * (frames as int) + (audio@.len() as int) % (ch as int)
                        == audio@.len() as int,
                    0 <= (audio@.len() as int) % (ch as int),
            ;
            assert((f as int) * (ch as int) + ch as int == (f as int + 1) * (ch as int))
                by (nonlinear_arith);
        }
        let base = f * ch;
        let mut sum: i64 = 0;
        let mut c: usize = 0;
        while c < ch
            invariant
                c <= ch,
                base == (f as int) * (ch as int),
                base + ch <= audio@.len(),
                sum == window_sum(audio@, base as int, c as int),
                -((c as int) * 0x8000_0000) <= sum as int <= (c as int) * 0x7fff_ffff,
            decreases ch - c,
        {
            proof {
                assert(-((c as int + 1) * 0x8000_0000) == -((c as int) * 0x8000_0000)
                    - 0x8000_0000);
                assert((c as int + 1) * 0x7fff_ffff == (c as int) * 0x7fff_ffff + 0x7fff_ffff);
            }
            sum = sum + (audio[base + c] as i64);
            c = c + 1;
        }
        proof {
            assert(-((ch as int) * 0x8000_0000) <= sum as int <= (ch as int) * 0x7fff_ffff);
            if sum >= 0 {
                lemma_div_is_ordered(sum as int, (ch as int) * 0x7fff_ffff, ch as int);
                lemma_div_by_multiple(0x7fff_ffff, ch as int);
            } else {
                lemma_div_is_ordered(-(sum as int), (ch as int) * 0x8000_0000, ch as int);
                lemma_div_by_multiple(0x8000_0000, ch as int);
            }
        }
        let avg = div_trunc_i64(sum, ch as i64);
        out.push(avg as i32);
        proof {
            assert(out@ =~= spec_downmix(audio@, channels as int).take(f as int + 1));
        }
        f = f + 1;
    }
    proof {
        assert(spec_downmix(audio@, channels as int).take(frames as int) =~= spec_downmix(
            audio@,
            channels as int,
        ));
    }
    out
}

/// Downmixes and resamples the captured buffer to 16 kHz mono.
#[verifier::loop_isolation(false)]
pub fn resample_to_16k_mono(audio: Vec<i32>, sample_rate: u32, channels: u16) -> (r: Vec<i32>)
    requires
        audio@.len() <= 0x7fff_ffff,
    ensures
        r@ == spec_resample_to_16k_mono(audio@, sample_rate as int, channels as int),
{
    let mono = if channels <= 1 {
        audio
    } else {
        downmix_to_mono(audio, channels)
    };
    if mono.len() == 0 || sample_rate == TARGET_SAMPLE_RATE || sample_rate == 0 {
        return mono;
    }
    let len64: u64 = mono.len() as u64;
    let rate64: u64 = sample_rate as u64;
    let target: u64 = (2 * len64 * 16000 + rate64) / (2 * rate64);
    let inside: u64 = (len64 * 16000 + rate64 - 1) / rate64;
    let bound: u64 = if target <= inside {
        target
    } else {
        inside
    };
    proof {
        assert(target as int == spec_target_len(mono@.len() as int, sample_rate as int));
        assert(inside as int == spec_positions_inside(mono@.len() as int, sample_rate as int));
    }
    let mut out: Vec<i32> = Vec::new();
    let mut i: u64 = 0;
    while i < bound
        invariant
            i <= bound,
            out@ =~= spec_resample(mono@, sample_rate as int).take(i as int),
        decreases bound - i,
    {
        proof {
            lemma_mul_inequality(i as int, inside as int - 1, rate64 as int);
            lemma_fundamental_div_mod((len64 as int) * 16000 + (rate64 as int) - 1, rate64 as int);
            lemma_mod_division_less_than_divisor(
                (len64 as int) * 16000 + (rate64 as int) - 1,
                rate64 as int,
            );
            assert((inside as int) * (rate64 as int) <= (len64 as int) * 16000 + (rate64 as int)
                - 1);
            assert((inside as int - 1) * (rate64 as int) == (inside as int) * (rate64 as int) - (
            rate64 as int)) by (nonlinear_arith);
            assert((i as int) * (rate64 as int) <= (inside as int - 1) * (rate64 as int));
            assert((i as int) * (rate64 as int) < (len64 as int) * 16000);
        }
        let p: u64 = i * rate64;
        let idx64: u64 = p / 16000;
        let rem: u64 = p % 16000;
        proof {
            lemma_fundamental_div_mod(p as int, 16000);
            lemma_mod_division_less_than_divisor(p as int, 16000);
            assert((idx64 as int) < (len64 as int)) by {
                if idx64 as int >= len64 as int {
                    lemma_mul_inequality(len64 as int, idx64 as int, 16000);
                    assert((idx64 as int) * 16000 <= p as int);
                }
            }
        }
        let idx = idx64 as usize;
        let next = if idx + 1 < mono.len() {
            idx + 1
        } else {
            idx
        };
        let a = mono[idx];
        let b = mono[next];
        let diff: i64 = (b as i64) - (a as i64);
        proof {
            if diff >= 0 {
                lemma_mul_inequality(rem as int, 16000, diff as int);
                assert((rem as int) * (diff as int) == (diff as int) * (rem as int))
                    by (nonlinear_arith);
                assert(16000 * (diff as int) == (diff as int) * 16000) by (nonlinear_arith);
                lemma_div_is_ordered(0, (diff as int) * (rem as int), 16000);
                lemma_div_is_ordered((diff as int) * (rem as int), (diff as int) * 16000, 16000);
                lemma_div_by_multiple(diff as int, 16000);
            } else {
                let nd = -(diff as int);
                lemma_mul_inequality(rem as int, 16000, nd);
                assert((rem as int) * nd == nd * (rem as int)) by (nonlinear_arith);
                assert(16000 * nd == nd * 16000) by (nonlinear_arith);
                lemma_div_is_ordered(0, nd * (rem as int), 16000);
                lemma_div_is_ordered(nd * (rem as int), nd * 16000, 16000);
                lemma_div_by_multiple(nd, 16000);
                assert((diff as int) * (rem as int) == -(nd * (rem as int))) by (nonlinear_arith)
                    requires
                        nd == -(diff as int),
                ;
            }
        }
        let t = div_trunc_i64(diff * (rem as i64), 16000);
        let val: i32 = ((a as i64) + t) as i32;
        out.push(val);
        proof {
            assert(val as int == interp_at(mono@, sample_rate as int, i as int) as int);
            assert(out@ =~= spec_resample(mono@, sample_rate as int).take(i as int + 1));
        }
        i = i + 1;
    }
    proof {
        assert(spec_resample(mono@, sample_rate as int).take(bound as int) =~= spec_resample(
            mono@,
            sample_rate as int,
        ));
    }
    out
}

} // verus!
