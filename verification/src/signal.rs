//! Sample-level work: turning a native 32-bit float sample into a 16-bit
//! one, thinning a captured block by a fixed stride, and cutting an
//! interleaved snapshot down to a single channel's worth of samples.
//!
//! Floats are read by their bits, so the conversion is integer arithmetic
//! from end to end and gives the same sample for the same bits everywhere.

use vstd::prelude::*;
use vstd::slice::slice_subrange;
use vstd::slice::slice_to_vec;

verus! {

/// The stride at which captured samples are kept: every third one.
pub const DECIMATION_STEP: usize = 3;

/// The factor between a native sample in [-1, 1] and its 16-bit form.
pub const SAMPLE_SCALE: i64 = 32768;

/// `scaled` brought into the range of a signed 16-bit sample.
pub open spec fn clamped(scaled: int) -> int {
    if scaled < -32768 {
        -32768
    } else if scaled > 32767 {
        32767
    } else {
        scaled
    }
}

/// How many samples are kept of `len` when every `step`-th is taken,
/// starting with the first.
pub open spec fn decimated_len(len: nat, step: nat) -> nat
    recommends
        step > 0,
{
    if len == 0 {
        0
    } else {
        ((len - 1) / (step as int) + 1) as nat
    }
}

/// The samples of `samples` at the indices 0, `step`, 2 * `step`, ...
pub open spec fn decimated(samples: Seq<i16>, step: nat) -> Seq<i16>
    recommends
        step > 0,
{
    Seq::new(decimated_len(samples.len(), step), |k: int| samples[k * step])
}

/// The leading `len / channel_count` samples of an interleaved snapshot.
pub open spec fn reduced(snapshot: Seq<i16>, channel_count: nat) -> Seq<i16>
    recommends
        channel_count > 0,
{
    snapshot.take((snapshot.len() / channel_count) as int)
}

/// The 16-bit sample for a native sample that was already scaled by
/// `SAMPLE_SCALE` and rounded: values outside the 16-bit range go to the
/// nearest end of it, all others are kept.
pub fn clamp_to_sample(scaled: i64) -> (sample: i16)
    ensures
        sample == clamped(scaled as int),
{
    if scaled < -32768 {
        -32768i16
    } else if scaled > 32767 {
        32767i16
    } else {
        scaled as i16
    }
}

/// 2 to the power `n`.
pub open spec fn two_to(n: nat) -> nat
    decreases n,
{
    if n == 0 {
        1
    } else {
        2 * two_to((n - 1) as nat)
    }
}

/// Whether the sign bit of a 32-bit float with these bits is set.
pub open spec fn is_negative(bits: u32) -> bool {
    (bits >> 31) == 1
}

/// The biased exponent of a 32-bit float with these bits.
pub open spec fn exponent_of(bits: u32) -> nat {
    ((bits >> 23) & 0xff) as nat
}

/// The fraction field of a 32-bit float with these bits.
pub open spec fn fraction_of(bits: u32) -> nat {
    (bits & 0x7f_ffff) as nat
}

/// The magnitude of a 32-bit float with these fields, times 32768, rounded
/// to the nearest integer with halves going away from zero.
///
/// A float with a biased exponent `e` above 0 stands for
/// `(2^23 + fraction) * 2^(e - 150)`, one with exponent 0 for
/// `fraction * 2^(-149)`; 32768 is `2^15`. An exponent of 255 with a
/// fraction other than 0 is no number and counts as 0; with fraction 0 it is
/// an infinity, for which this gives a number beyond every sample.
pub open spec fn rounded_magnitude(exponent: nat, fraction: nat) -> nat {
    if exponent == 255 && fraction != 0 {
        0
    } else if exponent == 0 {
        (fraction + two_to(133)) / two_to(134)
    } else if exponent >= 135 {
        (two_to(23) + fraction) * two_to((exponent - 135) as nat)
    } else {
        (two_to(23) + fraction + two_to((134 - exponent) as nat)) / two_to(
            (135 - exponent) as nat,
        )
    }
}

/// The native sample with these bits, times 32768 and rounded.
pub open spec fn rounded_scaled(bits: u32) -> int {
    let magnitude = rounded_magnitude(exponent_of(bits), fraction_of(bits)) as int;
    if is_negative(bits) {
        -magnitude
    } else {
        magnitude
    }
}

/// Every power of two is at least 1.
pub proof fn lemma_two_to_positive(n: nat)
    ensures
        two_to(n) >= 1,
    decreases n,
{
    if n > 0 {
        lemma_two_to_positive((n - 1) as nat);
    }
}

/// Powers of two grow with the exponent.
pub proof fn lemma_two_to_grows(low: nat, high: nat)
    requires
        low <= high,
    ensures
        two_to(low) <= two_to(high),
    decreases high,
{
    if low < high {
        lemma_two_to_grows(low, (high - 1) as nat);
        lemma_two_to_positive((high - 1) as nat);
    }
}

/// For a float below the range where scaling leaves no fraction, the
/// rounded magnitude is the integer nearest to the scaled magnitude, the
/// upper one where two are equally near: with `unit` for `2^(135 - e)`, the
/// scaled magnitude is `(2^23 + fraction) / unit`, and it lies from half a
/// unit below the result up to, but not at, half a unit above it.
pub proof fn lemma_rounded_is_nearest(exponent: nat, fraction: nat)
    requires
        1 <= exponent < 135,
    ensures
        ({
            let unit = two_to((135 - exponent) as nat) as int;
            let rounded = rounded_magnitude(exponent, fraction) as int;
            let significand = two_to(23) + fraction;
            2 * rounded * unit - unit <= 2 * significand < 2 * rounded * unit + unit
        }),
{
    let half = two_to((134 - exponent) as nat) as int;
    let unit = two_to((135 - exponent) as nat) as int;
    let significand = (two_to(23) + fraction) as int;
    let rounded = rounded_magnitude(exponent, fraction) as int;
    lemma_two_to_positive((134 - exponent) as nat);
    assert(unit == 2 * half);
    assert(rounded == (significand + half) / unit);
    assert(rounded * unit <= significand + half < rounded * unit + unit) by (nonlinear_arith)
        requires
            rounded == (significand + half) / unit,
            unit > 0,
    ;
    assert(2 * rounded * unit == 2 * (rounded * unit)) by (nonlinear_arith);
}

proof fn lemma_two_to_values()
    ensures
        two_to(0) == 1,
        two_to(15) == 32768,
        two_to(23) == 8388608,
        two_to(24) == 16777216,
{
    reveal_with_fuel(two_to, 9);
    assert(two_to(8) == 256);
    assert(two_to(15) == 128 * two_to(8));
    assert(two_to(16) == 256 * two_to(8));
    assert(two_to(23) == 128 * two_to(16));
    assert(two_to(24) == 256 * two_to(16));
}

fn power_of_two(n: u32) -> (power: u64)
    requires
        n <= 24,
    ensures
        power == two_to(n as nat),
        1 <= power <= 16777216,
{
    let mut power: u64 = 1;
    let mut i: u32 = 0;
    proof {
        lemma_two_to_values();
    }
    while i < n
        invariant
            i <= n <= 24,
            power == two_to(i as nat),
            1 <= power <= 16777216,
            two_to(24) == 16777216,
        decreases n - i,
    {
        proof {
            lemma_two_to_grows((i + 1) as nat, 24);
        }
        power = power * 2;
        i = i + 1;
    }
    power
}

/// The 16-bit sample for the native sample whose 32-bit float has these
/// bits: the float times 32768, rounded to the nearest integer with halves
/// going away from zero, and brought into the 16-bit range. The result
/// depends on the bits alone.
pub fn sample_from_bits(bits: u32) -> (sample: i16)
    ensures
        sample == clamped(rounded_scaled(bits)),
{
    let negative: bool = (bits >> 31) == 1;
    let exponent: u32 = (bits >> 23) & 0xff;
    let fraction: u32 = bits & 0x7f_ffff;
    assert(exponent <= 255 && fraction < 0x80_0000) by (bit_vector)
        requires
            exponent == (bits >> 23) & 0xff,
            fraction == bits & 0x7f_ffff,
    ;
    proof {
        lemma_two_to_values();
    }
    if exponent == 255 && fraction != 0 {
        return 0;
    }
    if exponent >= 135 {
        proof {
            let scale = two_to((exponent - 135) as nat);
            lemma_two_to_positive((exponent - 135) as nat);
            assert((8388608 + fraction) * scale >= 8388608) by (nonlinear_arith)
                requires
                    scale >= 1,
                    fraction >= 0,
            ;
        }
        return if negative {
            -32768
        } else {
            32767
        };
    }
    if exponent < 111 {
        proof {
            if exponent == 0 {
                lemma_two_to_grows(23, 133);
                let half = two_to(133);
                assert(two_to(134) == 2 * half);
                assert((fraction + half) / ((2 * half) as int) == 0) by (nonlinear_arith)
                    requires
                        0 <= fraction < half,
                ;
            } else {
                let half = two_to((134 - exponent) as nat);
                lemma_two_to_grows(24, (134 - exponent) as nat);
                assert(two_to((135 - exponent) as nat) == 2 * half);
                assert((8388608 + fraction + half) / ((2 * half) as int) == 0) by (nonlinear_arith)
                    requires
                        0 <= 8388608 + fraction < half,
                ;
            }
        }
        return 0;
    }
    let shift: u32 = 135 - exponent;
    let full: u64 = power_of_two(shift);
    let half: u64 = power_of_two(shift - 1);
    let significand: u64 = 0x80_0000 + (fraction as u64);
    let magnitude: u64 = (significand + half) / full;
    assert(magnitude <= 33554432) by (nonlinear_arith)
        requires
            magnitude == (significand + half) / (full as int),
            significand + half <= 33554432,
            full >= 1,
    ;
    let signed: i64 = if negative {
        -(magnitude as i64)
    } else {
        magnitude as i64
    };
    clamp_to_sample(signed)
}

/// Keeps every `step`-th sample of `samples`, starting with the first.
pub fn decimate(samples: &[i16], step: usize) -> (kept: Vec<i16>)
    requires
        step > 0,
    ensures
        kept@ == decimated(samples@, step as nat),
        kept@.len() == decimated_len(samples@.len(), step as nat),
        forall|k: int| 0 <= k < kept@.len() ==> kept@[k] == samples@[k * step],
{
    let n: usize = samples.len();
    let mut kept: Vec<i16> = Vec::new();
    let mut i: usize = 0;
    assert(kept@.len() * step == 0) by (nonlinear_arith)
        requires
            kept@.len() == 0,
    ;
    while i < n
        invariant
            step > 0,
            n == samples@.len(),
            i <= n,
            (i < n && i == kept@.len() * step) || (i == n && kept@.len() == decimated_len(
                n as nat,
                step as nat,
            )),
            forall|k: int|
                0 <= k < kept@.len() ==> #[trigger] kept@[k] == samples@[k * step],
        decreases n - i,
    {
        let ghost count: int = kept@.len() as int;
        let ghost before: Seq<i16> = kept@;
        kept.push(samples[i]);
        assert forall|k: int| 0 <= k < kept@.len() implies #[trigger] kept@[k] == samples@[k
            * step] by {
            if k < count {
                assert(kept@[k] == before[k]);
            } else {
                assert(k * step == i);
            }
        }
        if n - i <= step {
            proof {
                assert((n - 1) / (step as int) == count) by (nonlinear_arith)
                    requires
                        count * step == i,
                        i < n,
                        n - i <= step,
                        step > 0,
                        count >= 0,
                ;
            }
            i = n;
        } else {
            proof {
                assert((count + 1) * step == i + step) by (nonlinear_arith)
                    requires
                        count * step == i,
                ;
            }
            i = i + step;
        }
    }
    assert(kept@ =~= decimated(samples@, step as nat));
    kept
}

/// Cuts an interleaved snapshot down to one channel's worth of samples by
/// keeping its leading `len / channel_count` samples, in order. Channels are
/// not averaged; with one channel the snapshot comes back whole.
pub fn reduce_channels(snapshot: &[i16], channel_count: usize) -> (mono: Vec<i16>)
    requires
        channel_count > 0,
    ensures
        mono@ == reduced(snapshot@, channel_count as nat),
        mono@.len() == snapshot@.len() / (channel_count as nat),
        channel_count == 1 ==> mono@ == snapshot@,
{
    let keep: usize = snapshot.len() / channel_count;
    assert(keep <= snapshot@.len()) by (nonlinear_arith)
        requires
            keep == snapshot@.len() / (channel_count as nat),
            channel_count > 0,
    ;
    let mono: Vec<i16> = slice_to_vec(slice_subrange(snapshot, 0, keep));
    assert(channel_count == 1 ==> mono@ =~= snapshot@);
    mono
}

/// Reduction over a single channel changes nothing.
pub proof fn lemma_reduced_single_channel(snapshot: Seq<i16>)
    ensures
        reduced(snapshot, 1) == snapshot,
{
    assert(reduced(snapshot, 1) =~= snapshot);
}

/// Whatever the channel count, the reduced snapshot is a prefix of the
/// snapshot: sample for sample the same, and `len / channel_count` long.
pub proof fn lemma_reduced_is_prefix(snapshot: Seq<i16>, channel_count: nat)
    requires
        channel_count > 0,
    ensures
        reduced(snapshot, channel_count).len() == snapshot.len() / channel_count,
        reduced(snapshot, channel_count).len() <= snapshot.len(),
        forall|i: int|
            0 <= i < reduced(snapshot, channel_count).len() ==> #[trigger] reduced(
                snapshot,
                channel_count,
            )[i] == snapshot[i],
{
    assert(snapshot.len() / channel_count <= snapshot.len()) by (nonlinear_arith)
        requires
            channel_count > 0,
    ;
}

/// Decimation keeps exactly the samples at the multiples of the stride, in
/// order, and as many of them as lie inside the block: the count is the
/// least whose multiple of the stride reaches the block's length.
pub proof fn lemma_decimated_indices(samples: Seq<i16>, step: nat)
    requires
        step > 0,
    ensures
        forall|k: int|
            0 <= k < decimated(samples, step).len() ==> #[trigger] decimated(samples, step)[k]
                == samples[k * step],
        decimated(samples, step).len() * step >= samples.len(),
        samples.len() > 0 ==> (decimated(samples, step).len() - 1) * step < samples.len(),
{
    let n = samples.len();
    let count = decimated_len(n, step);
    assert(decimated(samples, step).len() == count);
    if n > 0 {
        let q = (n - 1) / (step as int);
        assert(q * step <= n - 1 && (q + 1) * step >= n) by (nonlinear_arith)
            requires
                q == (n - 1) / (step as int),
                n > 0,
                step > 0,
        ;
    }
}

} // verus!
