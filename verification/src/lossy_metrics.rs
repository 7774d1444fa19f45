use vstd::prelude::*;
use crate::geometry::TX4X4_SCAN;
use crate::sample::{Av2ChromaFormat, Av2Sample, SampleBitDepth, max_sample_spec};

verus! {

/// `a * b` saturated at `usize::MAX`.
pub open spec fn sat_mul_spec(a: int, b: int) -> int {
    if a * b > usize::MAX { usize::MAX as int } else { a * b }
}

/// `a - b` saturated at zero.
pub open spec fn sat_sub_spec(a: int, b: int) -> int {
    if a < b { 0 } else { a - b }
}

/// `a * b` saturated at `usize::MAX`.
pub fn saturating_mul_usize(a: usize, b: usize) -> (r: usize)
    ensures
        r == sat_mul_spec(a as int, b as int),
{
    match a.checked_mul(b) {
        Some(v) => v,
        None => usize::MAX,
    }
}

/// Larger of two `i32` values.
pub fn max_i32(a: i32, b: i32) -> (r: i32)
    ensures
        r == (if a >= b { a } else { b }),
{
    if a >= b {
        a
    } else {
        b
    }
}

/// `value` clamped to `min..=max`.
pub fn clamp_i32(value: i32, min: i32, max: i32) -> (r: i32)
    requires
        min <= max,
    ensures
        r == (if value < min { min } else if value > max { max } else { value }),
{
    if value < min {
        min
    } else if value > max {
        max
    } else {
        value
    }
}

/// Step of a DC-only delta: a sixteenth of the quantizer step, at least 1.
pub fn lossy_dc_delta_quant_step(quant_step: i32) -> (r: i32)
    ensures
        r == (if quant_step / 16 >= 1 { quant_step / 16 } else { 1 }),
{
    max_i32(quant_step / 16, 1)
}

/// Step of spatial transform coefficients: twice the quantizer step, at
/// least 8.
pub fn lossy_transform_coeff_step(quant_step: i32) -> (r: i32)
    requires
        quant_step <= i32::MAX / 2,
    ensures
        r == (if 2 * (if quant_step >= 1 { quant_step as int } else { 1 }) >= 8 { 2 * (if quant_step >= 1 { quant_step as int } else { 1 }) } else { 8 }),
{
    max_i32(max_i32(quant_step, 1) * 2, 8)
}

/// Squared error of `a` against `b`.
pub open spec fn sq(x: int) -> int {
    x * x
}

/// `x` clamped to the `usize` range.
pub open spec fn usize_sat(x: int) -> int {
    if x > usize::MAX { usize::MAX as int } else { x }
}

/// Converts a nonnegative `u64` to `usize`, saturating on narrow hosts.
pub fn u64_to_usize_saturating(x: u64) -> (r: usize)
    ensures
        r == usize_sat(x as int),
{
    if x > usize::MAX as u64 {
        usize::MAX
    } else {
        x as usize
    }
}

/// Sum of the first `n` samples.
pub open spec fn sample_sum(samples: Seq<i32>, n: int) -> int
    decreases n,
{
    if n <= 0 { 0 } else { sample_sum(samples, n - 1) + samples[n - 1] }
}

/// Sum of the squares of the first `n` samples.
pub open spec fn sample_sq_sum(samples: Seq<i32>, n: int) -> int
    decreases n,
{
    if n <= 0 { 0 } else { sample_sq_sum(samples, n - 1) + sq(samples[n - 1] as int) }
}

/// Variance measure of 16 samples: the sum of squares less the rounded
/// squared sum over 16, clamped at zero.
pub open spec fn variance_spec(samples: Seq<i32>) -> int {
    let sum = sample_sum(samples, 16);
    usize_sat(sat_sub_spec(sample_sq_sum(samples, 16), (sum * sum + 8) / 16))
}

/// The sums a variance measure forms stay within 64-bit signed integers:
/// the sum of squares, and the squared sum with its rounding term.
pub open spec fn variance_fits(samples: Seq<i32>) -> bool {
    &&& sample_sq_sum(samples, 16) <= i64::MAX
    &&& sample_sum(samples, 16) * sample_sum(samples, 16) + 8 <= i64::MAX
}

/// Partial sums of squares never exceed later ones.
pub proof fn lemma_sample_sq_sum_monotone(samples: Seq<i32>, i: int, j: int)
    requires
        0 <= i <= j,
    ensures
        0 <= sample_sq_sum(samples, i) <= sample_sq_sum(samples, j),
    decreases j,
{
    if j > 0 {
        assert(sq(samples[j - 1] as int) >= 0) by (nonlinear_arith);
        if i < j {
            lemma_sample_sq_sum_monotone(samples, i, j - 1);
        } else {
            lemma_sample_sq_sum_monotone(samples, i - 1, j - 1);
        }
    }
}

/// Sums of `n` samples bounded by `2^27` in magnitude.
proof fn lemma_sample_sums_bounded(samples: Seq<i32>, n: int)
    requires
        0 <= n <= samples.len(),
        forall|i: int| 0 <= i < samples.len() ==> -0x800_0000 <= #[trigger] samples[i] <= 0x800_0000,
    ensures
        -0x800_0000 * n <= sample_sum(samples, n) <= 0x800_0000 * n,
        0 <= sample_sq_sum(samples, n) <= 0x40_0000_0000_0000 * n,
    decreases n,
{
    if n > 0 {
        lemma_sample_sums_bounded(samples, n - 1);
        let s = samples[n - 1] as int;
        assert(0 <= sq(s) <= 0x40_0000_0000_0000) by (nonlinear_arith)
            requires
                -0x800_0000 <= s <= 0x800_0000,
        ;
    }
}

/// Sixteen samples of magnitude at most `2^27` keep the variance sums in
/// range.
pub proof fn lemma_variance_fits_bounded(samples: Seq<i32>)
    requires
        samples.len() == 16,
        forall|i: int| 0 <= i < 16 ==> -0x800_0000 <= #[trigger] samples[i] <= 0x800_0000,
    ensures
        variance_fits(samples),
{
    lemma_sample_sums_bounded(samples, 16);
    let sum = sample_sum(samples, 16);
    assert(sum * sum <= 0x4000_0000_0000_0000) by (nonlinear_arith)
        requires
            -0x8000_0000 <= sum <= 0x8000_0000,
    ;
}

/// Sums of samples shifted by `k`: the plain sums moved by `n * k`, and the
/// squares by `2 * k` times the sum plus `n * k * k`.
proof fn lemma_shifted_sums(samples: Seq<i32>, shifted: Seq<i32>, k: int, n: int)
    requires
        0 <= n <= samples.len(),
        samples.len() == shifted.len(),
        forall|i: int| 0 <= i < samples.len() ==> #[trigger] shifted[i] == samples[i] + k,
    ensures
        sample_sum(shifted, n) == sample_sum(samples, n) + n * k,
        sample_sq_sum(shifted, n) == sample_sq_sum(samples, n) + 2 * k * sample_sum(samples, n) + n * k * k,
    decreases n,
{
    if n > 0 {
        lemma_shifted_sums(samples, shifted, k, n - 1);
        let s = samples[n - 1] as int;
        assert(shifted[n - 1] == s + k);
        assert(sq(s + k) == sq(s) + 2 * k * s + k * k) by (nonlinear_arith);
        assert(n * k == (n - 1) * k + k) by (nonlinear_arith);
        assert(n * k * k == (n - 1) * k * k + k * k) by (nonlinear_arith);
        assert(2 * k * sample_sum(samples, n) == 2 * k * sample_sum(samples, n - 1) + 2 * k * s) by (nonlinear_arith)
            requires
                sample_sum(samples, n) == sample_sum(samples, n - 1) + s,
        ;
    }
}

/// The variance measure ignores a constant added to every sample.
pub proof fn lemma_variance_shift_invariant(samples: Seq<i32>, shifted: Seq<i32>, k: int)
    requires
        samples.len() == 16,
        shifted.len() == 16,
        forall|i: int| 0 <= i < 16 ==> #[trigger] shifted[i] == samples[i] + k,
    ensures
        variance_spec(shifted) == variance_spec(samples),
{
    lemma_shifted_sums(samples, shifted, k, 16);
    let sum = sample_sum(samples, 16);
    let sq_sum = sample_sq_sum(samples, 16);
    let m = 2 * k * sum + 16 * k * k;
    assert((sum + 16 * k) * (sum + 16 * k) + 8 == (sum * sum + 8) + 16 * m) by (nonlinear_arith)
        requires
            m == 2 * k * sum + 16 * k * k,
    ;
    let a = sum * sum + 8;
    vstd::arithmetic::div_mod::lemma_fundamental_div_mod(a, 16);
    assert(a + 16 * m == (a / 16 + m) * 16 + a % 16) by (nonlinear_arith)
        requires
            a == 16 * (a / 16) + a % 16,
    ;
    vstd::arithmetic::div_mod::lemma_fundamental_div_mod_converse_div(a + 16 * m, 16, a / 16 + m, a % 16);
}

/// A block whose samples are all equal has variance measure zero.
pub proof fn lemma_variance_of_constant(samples: Seq<i32>, k: int)
    requires
        samples.len() == 16,
        forall|i: int| 0 <= i < 16 ==> #[trigger] samples[i] == k,
    ensures
        variance_spec(samples) == 0,
{
    let zeros = Seq::new(16, |i: int| 0i32);
    lemma_variance_shift_invariant(zeros, samples, k);
    reveal_with_fuel(sample_sum, 17);
    reveal_with_fuel(sample_sq_sum, 17);
    assert(sample_sum(zeros, 16) == 0);
    assert(sample_sq_sum(zeros, 16) == 0);
}

/// Variance measure of a 4x4 block of reconstructed or source samples.
pub fn txb_variance_measure(samples: &[i32; 16]) -> (r: usize)
    requires
        variance_fits(samples@),
    ensures
        r == variance_spec(samples@),
{
    let mut sum: i64 = 0;
    let mut sum_sq: i64 = 0;
    let mut i: usize = 0;
    while i < 16
        invariant
            i <= 16,
            variance_fits(samples@),
            sum == sample_sum(samples@, i as int),
            sum_sq == sample_sq_sum(samples@, i as int),
            -0x8000_0000 * i <= sum <= 0x8000_0000 * i,
        decreases 16 - i,
    {
        let s = samples[i] as i64;
        proof {
            assert(0 <= s * s <= 0x4000_0000_0000_0000) by (nonlinear_arith)
                requires
                    -0x8000_0000 <= s <= 0x8000_0000,
            ;
            lemma_sample_sq_sum_monotone(samples@, i as int + 1, 16);
        }
        sum = sum + s;
        sum_sq = sum_sq + s * s;
        i = i + 1;
    }
    proof {
        assert(sum * sum + 8 <= i64::MAX);
        assert(0 <= sum * sum) by (nonlinear_arith);
        lemma_sample_sq_sum_monotone(samples@, 0, 16);
    }
    let mean_sq = (sum * sum + 8) / 16;
    if sum_sq < mean_sq {
        0
    } else {
        u64_to_usize_saturating((sum_sq - mean_sq) as u64)
    }
}

/// Variance measure of a 4x4 source block.
pub fn txb_source_variance(source: &[Av2Sample; 16]) -> (r: usize)
    ensures
        r == variance_spec(Seq::new(16, |i: int| source[i] as i32)),
{
    let mut samples = [0i32; 16];
    let mut i: usize = 0;
    while i < 16
        invariant
            i <= 16,
            forall|k: int| 0 <= k < i ==> samples[k] == source[k] as i32,
        decreases 16 - i,
    {
        samples[i] = source[i] as i32;
        i = i + 1;
    }
    proof {
        assert(samples@ =~= Seq::new(16, |i: int| source[i] as i32));
        lemma_variance_fits_bounded(samples@);
    }
    txb_variance_measure(&samples)
}

/// Variance the reconstruction lost relative to the source.
pub fn txb_recon_variance_loss(source_variance: usize, recon: &[i32; 16]) -> (r: usize)
    requires
        variance_fits(recon@),
    ensures
        r == sat_sub_spec(source_variance as int, variance_spec(recon@)),
{
    source_variance.saturating_sub(txb_variance_measure(recon))
}

/// Reconstruction of a predictor sample plus a residual, clamped to the
/// sample range.
pub open spec fn clamp_recon_spec(predictor: int, residual: int, max_sample: int) -> int {
    let v = predictor + residual;
    if v < 0 { 0 } else if v > max_sample { max_sample } else { v }
}

/// Squared error of the first `n` samples of the DC-shifted reconstruction.
pub open spec fn dc_sse_sum(source: Seq<Av2Sample>, predictor: Seq<Av2Sample>, delta: int, max_sample: int, n: int) -> int
    decreases n,
{
    if n <= 0 {
        0
    } else {
        dc_sse_sum(source, predictor, delta, max_sample, n - 1)
            + sq(source[n - 1] - clamp_recon_spec(predictor[n - 1] as int, delta, max_sample))
    }
}

/// Squared error between a source block and the predictor shifted by a DC
/// delta, and the variance lost by that reconstruction.
pub fn txb_dc_recon_distortion_with_source_variance(
    source: &[Av2Sample; 16],
    predictor: &[Av2Sample; 16],
    delta: i16,
    bit_depth: SampleBitDepth,
    source_variance: usize,
) -> (r: (usize, usize))
    ensures
        r.0 == usize_sat(dc_sse_sum(source@, predictor@, delta as int, max_sample_spec(bit_depth@), 16)),
        r.1 == sat_sub_spec(
            source_variance as int,
            variance_spec(Seq::new(16, |i: int| clamp_recon_spec(predictor[i] as int, delta as int, max_sample_spec(bit_depth@)) as i32)),
        ),
{
    let max_sample = bit_depth.max_sample() as i32;
    let ghost recon_spec = Seq::new(16, |i: int| clamp_recon_spec(predictor[i] as int, delta as int, max_sample_spec(bit_depth@)) as i32);
    let mut sse: u64 = 0;
    let mut recon_samples = [0i32; 16];
    let mut index: usize = 0;
    while index < 16
        invariant
            index <= 16,
            max_sample == max_sample_spec(bit_depth@),
            0 < max_sample <= 65535,
            recon_spec == Seq::new(16, |i: int| clamp_recon_spec(predictor[i] as int, delta as int, max_sample_spec(bit_depth@)) as i32),
            forall|k: int| 0 <= k < index ==> recon_samples[k] == recon_spec[k],
            forall|k: int| 0 <= k < index ==> 0 <= #[trigger] recon_samples[k] <= 65535,
            sse == dc_sse_sum(source@, predictor@, delta as int, max_sample_spec(bit_depth@), index as int),
            sse <= index * 0x1_0000_0000,
        decreases 16 - index,
    {
        let recon = clamp_i32(predictor[index] as i32 + delta as i32, 0, max_sample);
        recon_samples[index] = recon;
        let diff = source[index] as i32 - recon;
        proof {
            assert(0 <= diff * diff <= 0x1_0000_0000) by (nonlinear_arith)
                requires
                    -65535 <= diff <= 65535,
            ;
        }
        sse = sse + (diff as i64 * diff as i64) as u64;
        index = index + 1;
    }
    proof {
        assert(recon_samples@ =~= recon_spec);
        lemma_variance_fits_bounded(recon_samples@);
    }
    (u64_to_usize_saturating(sse), txb_recon_variance_loss(source_variance, &recon_samples))
}

/// Magnitude below which regular-DCT AC levels are pruned, by quantizer
/// index, bit depth, format and source variance.
pub open spec fn ac_prune_threshold_spec(qindex: u16, bits: nat, chroma_format: Av2ChromaFormat, source_variance: usize) -> i32 {
    if bits <= 8 {
        if chroma_format == Av2ChromaFormat::Yuv444 && qindex >= 72 && source_variance <= 16384 { 1 } else { 0 }
    } else if qindex <= 71 {
        0
    } else if qindex <= 159 {
        3
    } else {
        4
    }
}

/// AC pruning threshold of the regular DCT path.
pub fn regular_dct_ac_prune_threshold(
    qindex: u16,
    bit_depth: SampleBitDepth,
    chroma_format: Av2ChromaFormat,
    source_variance: usize,
) -> (r: i32)
    ensures
        r == ac_prune_threshold_spec(qindex, bit_depth@, chroma_format, source_variance),
{
    if bit_depth.bits() <= 8 {
        return if chroma_format == Av2ChromaFormat::Yuv444 && qindex >= 72 && source_variance <= 16384 {
            1
        } else {
            0
        };
    }
    if qindex <= 71 {
        0
    } else if qindex <= 111 {
        3
    } else if qindex <= 159 {
        3
    } else {
        4
    }
}

/// Zeroes the AC levels at or below the pruning threshold.
pub fn prune_regular_dct_ac_levels(
    qcoeff: &mut [i32; 16],
    qindex: u16,
    bit_depth: SampleBitDepth,
    chroma_format: Av2ChromaFormat,
    source_variance: usize,
)
    ensures
        ({
            let t = ac_prune_threshold_spec(qindex, bit_depth@, chroma_format, source_variance);
            &&& final(qcoeff)[0] == old(qcoeff)[0]
            &&& forall|i: int| 1 <= i < 16 ==> #[trigger] final(qcoeff)[i] == (if t != 0 && -t <= old(qcoeff)[i] <= t { 0 } else { old(qcoeff)[i] })
        }),
{
    let threshold = regular_dct_ac_prune_threshold(qindex, bit_depth, chroma_format, source_variance);
    if threshold == 0 {
        return;
    }
    let mut i: usize = 1;
    while i < 16
        invariant
            1 <= i <= 16,
            threshold == ac_prune_threshold_spec(qindex, bit_depth@, chroma_format, source_variance),
            threshold > 0,
            final(qcoeff)@.len() == 16,
            qcoeff[0] == old(qcoeff)[0],
            forall|k: int| 1 <= k < i ==> qcoeff[k] == (if -threshold <= old(qcoeff)[k] <= threshold { 0 } else { old(qcoeff)[k] }),
            forall|k: int| i <= k < 16 ==> qcoeff[k] == old(qcoeff)[k],
        decreases 16 - i,
    {
        if -threshold <= qcoeff[i] && qcoeff[i] <= threshold {
            qcoeff[i] = 0;
        }
        i = i + 1;
    }
}

/// Scan indices `stop..16` held levels of magnitude at most one and are now
/// zero, while scan indices `1..stop` are unchanged.
pub open spec fn trailing_units_pruned(old_q: Seq<i32>, new_q: Seq<i32>, stop: int) -> bool {
    &&& 1 <= stop <= 16
    &&& forall|s: int| stop <= s < 16 ==> -1 <= #[trigger] old_q[TX4X4_SCAN[s] as int] <= 1
    &&& forall|s: int| stop <= s < 16 ==> #[trigger] new_q[TX4X4_SCAN[s] as int] == 0
    &&& forall|s: int| 1 <= s < stop ==> #[trigger] new_q[TX4X4_SCAN[s] as int] == old_q[TX4X4_SCAN[s] as int]
}

/// Where trailing-unit pruning of `q` stops, scanning down from scan index
/// `s` with `pruned` levels zeroed so far, and how many it zeroes: zero
/// levels are skipped, unit levels are zeroed until `max_pruned` of them
/// have been (no limit when it is 0), and a larger level or the DC stops it.
pub open spec fn trailing_prune_spec(q: Seq<i32>, max_pruned: int, s: int, pruned: int) -> (int, int)
    decreases s,
{
    if s <= 1 {
        (s, pruned)
    } else {
        let v = q[TX4X4_SCAN[s - 1] as int];
        if v == 0 {
            trailing_prune_spec(q, max_pruned, s - 1, pruned)
        } else if v == 1 || v == -1 {
            if pruned + 1 == max_pruned {
                (s - 1, pruned + 1)
            } else {
                trailing_prune_spec(q, max_pruned, s - 1, pruned + 1)
            }
        } else {
            (s, pruned)
        }
    }
}

/// Every raster position of a 4x4 block appears in its scan.
pub proof fn lemma_tx4x4_scan_covers(p: int)
    requires
        0 <= p < 16,
    ensures
        exists|s: int| 0 <= s < 16 && #[trigger] TX4X4_SCAN[s] as int == p,
{
    let inv = seq![0int, 1, 5, 6, 2, 4, 7, 12, 3, 8, 11, 13, 9, 10, 14, 15];
    assert(TX4X4_SCAN[inv[p]] as int == p);
}

/// After trailing-unit pruning that keeps the DC, every level is either
/// unchanged or zero.
pub proof fn lemma_trailing_pruned_levels(old_q: Seq<i32>, new_q: Seq<i32>, stop: int)
    requires
        old_q.len() == 16,
        new_q.len() == 16,
        new_q[0] == old_q[0],
        trailing_units_pruned(old_q, new_q, stop),
    ensures
        forall|p: int| 0 <= p < 16 ==> #[trigger] new_q[p] == old_q[p] || new_q[p] == 0,
{
    assert forall|p: int| 0 <= p < 16 implies #[trigger] new_q[p] == old_q[p] || new_q[p] == 0 by {
        lemma_tx4x4_scan_covers(p);
        let s = choose|s: int| 0 <= s < 16 && #[trigger] TX4X4_SCAN[s] as int == p;
        if s >= stop {
            assert(new_q[TX4X4_SCAN[s] as int] == 0);
        } else if s >= 1 {
            assert(new_q[TX4X4_SCAN[s] as int] == old_q[TX4X4_SCAN[s] as int]);
        } else {
            assert(TX4X4_SCAN[0] == 0);
        }
    }
}

/// Zeroes trailing unit AC levels in reverse scan order, stopping at the
/// first larger level, after `max_pruned` levels, or at the DC; returns how
/// many were zeroed.
pub fn prune_regular_dct_trailing_unit_acs(qcoeff: &mut [i32; 16], max_pruned: usize) -> (r: usize)
    ensures
        ({
            let (stop, count) = trailing_prune_spec(old(qcoeff)@, max_pruned as int, 16, 0);
            &&& r == count
            &&& trailing_units_pruned(old(qcoeff)@, final(qcoeff)@, stop)
        }),
        r <= 15,
        final(qcoeff)[0] == old(qcoeff)[0],
{
    let ghost goal = trailing_prune_spec(old(qcoeff)@, max_pruned as int, 16, 0);
    let mut pruned: usize = 0;
    let mut scan_index: usize = 16;
    while scan_index > 1
        invariant
            1 <= scan_index <= 16,
            pruned <= 16 - scan_index,
            max_pruned > 0 ==> pruned < max_pruned,
            goal == trailing_prune_spec(old(qcoeff)@, max_pruned as int, 16, 0),
            goal == trailing_prune_spec(old(qcoeff)@, max_pruned as int, scan_index as int, pruned as int),
            qcoeff[0] == old(qcoeff)[0],
            final(qcoeff)@.len() == 16,
            forall|s: int| scan_index <= s < 16 ==> -1 <= #[trigger] old(qcoeff)[TX4X4_SCAN[s] as int] <= 1,
            forall|s: int| scan_index <= s < 16 ==> #[trigger] qcoeff[TX4X4_SCAN[s] as int] == 0,
            forall|s: int| 1 <= s < scan_index ==> #[trigger] qcoeff[TX4X4_SCAN[s] as int] == old(qcoeff)[TX4X4_SCAN[s] as int],
        decreases scan_index,
    {
        let pos = TX4X4_SCAN[scan_index - 1];
        let value = qcoeff[pos];
        proof {
            assert(value == old(qcoeff)[TX4X4_SCAN[scan_index - 1] as int]);
        }
        if value == 0 {
            scan_index = scan_index - 1;
        } else if value == 1 || value == -1 {
            qcoeff[pos] = 0;
            pruned = pruned + 1;
            scan_index = scan_index - 1;
            if pruned == max_pruned {
                proof {
                    assert(trailing_units_pruned(old(qcoeff)@, qcoeff@, scan_index as int));
                }
                return pruned;
            }
        } else {
            proof {
                assert(trailing_units_pruned(old(qcoeff)@, qcoeff@, scan_index as int));
            }
            return pruned;
        }
    }
    proof {
        assert(trailing_units_pruned(old(qcoeff)@, qcoeff@, scan_index as int));
    }
    pruned
}

/// Lossy rate-distortion score: rate plus distortion (squared error and
/// twice the variance loss) divided by the quantizer step.
pub open spec fn lossy_txb_score_spec(rate: int, sse: int, variance_loss: int, quant_step: i32) -> int {
    let distortion = if sse + 2 * variance_loss > usize::MAX { usize::MAX as int } else { sse + 2 * variance_loss };
    let divisor = if quant_step >= 1 { quant_step as int } else { 1 };
    let total = rate + distortion / divisor;
    if total > usize::MAX { usize::MAX as int } else { total }
}

/// Lossy rate-distortion score of a candidate.
pub fn lossy_txb_score(rate_score: usize, sse: usize, variance_loss: usize, quant_step: i32) -> (r: usize)
    ensures
        r == lossy_txb_score_spec(rate_score as int, sse as int, variance_loss as int, quant_step),
{
    let distortion = sse.saturating_add(saturating_mul_usize(variance_loss, 2));
    rate_score.saturating_add(distortion / lossy_rd_distortion_divisor(quant_step))
}

/// Distortion divisor: the quantizer step, at least 1.
pub fn lossy_rd_distortion_divisor(quant_step: i32) -> (r: usize)
    ensures
        r == (if quant_step >= 1 { quant_step as int } else { 1 }),
{
    max_i32(quant_step, 1) as usize
}

/// Quality rate-distortion step: a sixteenth of the quantizer step, at
/// least 1.
pub fn lossy_quality_rd_quant_step(quant_step: i32) -> (r: i32)
    ensures
        r == (if quant_step / 16 >= 1 { quant_step / 16 } else { 1 }),
{
    max_i32(quant_step / 16, 1)
}

/// Rate-distortion step used to rank regular-quantizer candidates.
pub fn regular_q_rd_quant_step(quant_step: i32) -> (r: i32)
    ensures
        r == 4,
{
    4
}

/// Extra squared error a DC-only regular candidate may add: twice the step.
pub fn regular_q_dc_only_max_extra_sse(quant_step: i32) -> (r: usize)
    ensures
        r == sat_mul_spec(if quant_step >= 1 { quant_step as int } else { 1 }, 2),
{
    saturating_mul_usize(max_i32(quant_step, 1) as usize, 2)
}

/// Extra squared error a tail-pruned regular candidate may add: an eighth of
/// the step, at least 1.
pub fn regular_q_tail_pruned_max_extra_sse(quant_step: i32) -> (r: usize)
    ensures
        r == (if (if quant_step >= 1 { quant_step as int } else { 1 }) / 8 >= 1 { (if quant_step >= 1 { quant_step as int } else { 1 }) / 8 } else { 1 }),
{
    let eighth = max_i32(quant_step, 1) as usize / 8;
    if eighth >= 1 {
        eighth
    } else {
        1
    }
}

/// `step^2 * 16`, saturated.
pub open spec fn step_sq_16(quant_step: i32) -> int {
    let step = if quant_step >= 1 { quant_step as int } else { 1 };
    sat_mul_spec(sat_mul_spec(step, step), 16)
}

/// Largest squared error a lossy 4x4 choice may introduce.
pub fn lossy_max_txb_sse(quant_step: i32) -> (r: usize)
    ensures
        r == step_sq_16(quant_step) / 9,
{
    let step = max_i32(quant_step, 1) as usize;
    saturating_mul_usize(saturating_mul_usize(step, step), 16) / 9
}

/// Whether a DC-only error is large enough to try AC quantization.
pub fn lossy_should_try_ac_quantized(dc_sse: usize, quant_step: i32) -> (r: bool)
    ensures
        r == (dc_sse >= sat_mul_spec(step_sq_16(quant_step), 4)),
{
    let step = max_i32(quant_step, 1) as usize;
    let threshold = saturating_mul_usize(saturating_mul_usize(saturating_mul_usize(step, step), 16), 4);
    dc_sse >= threshold
}

/// Refined step: a quarter of the quantizer step, at least 1.
pub fn refined_lossy_quant_step(quant_step: i32) -> (r: i32)
    ensures
        r == (if quant_step / 4 >= 1 { quant_step / 4 } else { 1 }),
{
    max_i32(quant_step / 4, 1)
}

/// Whether a quantized candidate's error justifies trying the refined step.
pub fn lossy_should_try_refined_ac_quantized(quantized_sse: usize, quant_step: i32) -> (r: bool)
    ensures
        r == (!((if quant_step / 4 >= 1 { quant_step / 4 } else { 1 }) >= quant_step) && quantized_sse >= step_sq_16(quant_step) / 8),
{
    if refined_lossy_quant_step(quant_step) >= quant_step {
        return false;
    }
    let step = max_i32(quant_step, 1) as usize;
    quantized_sse >= saturating_mul_usize(saturating_mul_usize(step, step), 16) / 8
}

/// Whether a 4x4 transform block is sampled by the lossy mode search:
/// small leaves search every block, larger ones the even grid and the last
/// row and column.
pub fn lossy_mode_search_samples_txb(row: usize, col: usize, width: usize, height: usize) -> (r: bool)
    ensures
        r == (width * height <= 64 || (row % 2 == 0 && col % 2 == 0) || row + 1 == height || col + 1 == width),
{
    let area = saturating_mul_usize(width, height);
    if area <= 64 {
        return true;
    }
    (row % 2 == 0 && col % 2 == 0) || row as u128 + 1 == height as u128 || col as u128 + 1 == width as u128
}

/// Scales a sampled score to the full block count.
pub fn lossy_scale_sampled_score(score: usize, total_txbs: usize, sampled_txbs: usize) -> (r: usize)
    ensures
        r == (if sampled_txbs == 0 || sampled_txbs == total_txbs { score as int } else { sat_mul_spec(score as int, total_txbs as int) / (sampled_txbs as int) }),
{
    if sampled_txbs == 0 || sampled_txbs == total_txbs {
        return score;
    }
    saturating_mul_usize(score, total_txbs) / sampled_txbs
}

/// Whether a DC refinement is close enough to the selected score to try.
pub fn lossy_regular_q_dc_refinement_allowed(selected_score: usize, dc_score: usize, total_txbs: usize) -> (r: bool)
    ensures
        ({
            let count = if total_txbs >= 1 { total_txbs as int } else { 1 };
            let slack = if selected_score / 16 >= sat_mul_spec(count, 64) { (selected_score / 16) as int } else { sat_mul_spec(count, 64) };
            r == (dc_score <= (if selected_score + slack > usize::MAX { usize::MAX as int } else { selected_score + slack }))
        }),
{
    let txb_count = if total_txbs >= 1 { total_txbs } else { 1 };
    let per_count = saturating_mul_usize(txb_count, 64);
    let slack = if selected_score / 16 >= per_count { selected_score / 16 } else { per_count };
    dc_score <= selected_score.saturating_add(slack)
}

/// Whether the DC refinement beats the selected score by the required margin.
pub fn lossy_regular_q_refinement_selects_dc(
    selected_score: usize,
    dc_score: usize,
    total_txbs: usize,
    quant_step: i32,
) -> (r: bool)
    ensures
        ({
            let count = if total_txbs >= 1 { total_txbs as int } else { 1 };
            let q = if quant_step >= 1 { quant_step as int } else { 1 };
            let per = sat_mul_spec(count, q) / 4;
            let margin = if selected_score / 256 >= per { (selected_score / 256) as int } else { per };
            r == ((if dc_score + margin > usize::MAX { usize::MAX as int } else { dc_score + margin }) <= selected_score)
        }),
{
    let txb_count = if total_txbs >= 1 { total_txbs } else { 1 };
    let quant_margin = max_i32(quant_step, 1) as usize;
    let per = saturating_mul_usize(txb_count, quant_margin) / 4;
    let margin = if selected_score / 256 >= per { selected_score / 256 } else { per };
    dc_score.saturating_add(margin) <= selected_score
}

} // verus!
