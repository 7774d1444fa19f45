use vstd::prelude::*;
use crate::lossy_metrics::{
    ac_prune_threshold_spec, prune_regular_dct_ac_levels, prune_regular_dct_trailing_unit_acs, trailing_prune_spec,
    trailing_units_pruned, lemma_trailing_pruned_levels,
    lossy_transform_coeff_step,
    refined_lossy_quant_step,
    txb_recon_variance_loss,
    clamp_i32, clamp_recon_spec, dc_sse_sum, lossy_dc_delta_quant_step, sat_sub_spec, txb_dc_recon_distortion_with_source_variance,
    txb_source_variance, usize_sat, variance_spec,
};
use crate::lossy_state::{
    Av2LossyPlane, Av2LossySubsampledTileState, Av2LossyTxbAnalysis, dpcm_recon_samples_and_sse, dpcm_recon_spec, dpcm_sse_sum, residual_sse_sum,
    txb_recon_sse_and_variance_loss,
};
use crate::residual_math::{lemma_quantize_to_step_bound, quantize_i32_to_step, quantize_to_step_spec, round_div_i32, round_div_spec};
use crate::sample::{Av2Sample, max_sample_spec};
use crate::quantization::{
    Av2RegularQuantParams, av2_regular_quantize_with_params, lemma_quantize_coefficient_by_step, lemma_quantize_level_bound,
    quantize_level_spec,
    abs_int, av2_regular_dequant_qtx, av2_regular_dequantize, av2_regular_quantized_level_coefficients, dequantize_spec, qlookup_spec,
};
use crate::inverse_transform::{
    av2_idct4x4, av2_idct4x4_dc_only, av2_idct4x8, av2_idct8x8, av2_idct8x8_dc_only, idct4x4_dc_sample_spec, idct4x4_spec, idct4x8_spec,
    idct8x8_dc_sample_spec, idct8x8_spec,
};
use crate::forward_transform::{
    av2_fdct4x4, av2_fdct4x8, av2_fdct8x8, fdct4x4_spec, fdct4x8_spec, fdct8x8_spec, lemma_fdct4x4_bound, lemma_fdct4x8_bound,
    lemma_fdct8x8_bound,
};
use crate::sample::Av2ChromaFormat;
use crate::walsh_hadamard::{tx4x4_residual_is_zero, av2_iwht4x4, fwht4x4_spec, iwht4x4_spec, lemma_fwht4x4_bound, lemma_iwht4x4_bound, tx4x4_coefficients_from_residual};

verus! {

/// How a lossy residual candidate was quantized.
#[derive(Clone, Copy, Debug, PartialEq, Eq, Structural)]
pub enum Av2LossyResidualCandidateKind {
    Spatial,
    RefinedSpatial,
    Transform,
    RegularDct,
    RegularDctTailPruned,
    RegularDctDoubleTailPruned,
    RegularDctDcOnly,
}

/// A quantized residual of a 4x4 block: the residual the decoder
/// reconstructs, the coefficients that code it, and its distortion against
/// the source.
#[derive(Clone, Copy, Debug, PartialEq, Eq)]
pub struct Av2LossyQuantizedResidualCandidate {
    pub kind: Av2LossyResidualCandidateKind,
    pub residual: [i32; 16],
    pub coefficients: [i32; 16],
    pub sse: usize,
    pub variance_loss: usize,
}

/// The regular-DCT candidates of one block.
#[derive(Clone, Copy, Debug, PartialEq, Eq)]
pub struct Av2LossyRegularDctCandidates {
    pub transform: Av2LossyQuantizedResidualCandidate,
    pub tail_pruned: Option<Av2LossyQuantizedResidualCandidate>,
    pub double_tail_pruned: Option<Av2LossyQuantizedResidualCandidate>,
    pub dc_only: Av2LossyQuantizedResidualCandidate,
}

/// How a lossy 4x4 block is finally coded.
#[derive(Clone, Copy, Debug, PartialEq, Eq)]
pub enum Av2LossyTxbChoice {
    DcDelta(i16),
    QuantizedResidual(Av2LossyQuantizedResidualCandidate),
    Exact,
}

/// Sum of `source[i] - predictor[i]` over the first `n` samples.
pub open spec fn residual_sum(source: Seq<Av2Sample>, predictor: Seq<Av2Sample>, n: int) -> int
    decreases n,
{
    if n <= 0 {
        0
    } else {
        residual_sum(source, predictor, n - 1) + source[n - 1] - predictor[n - 1]
    }
}

/// `v` clamped to `lo..=hi`.
pub open spec fn clamp_int(v: int, lo: int, hi: int) -> int {
    if v < lo { lo } else if v > hi { hi } else { v }
}

/// The DC delta of a block: the average residual, rounded to a sixteenth of
/// the quantizer step (at least 1) and clamped to the sample range.
pub open spec fn dc_delta_spec(source: Seq<Av2Sample>, predictor: Seq<Av2Sample>, bits: nat, quant_step: int) -> int {
    let average = round_div_spec(residual_sum(source, predictor, 16), 16);
    let step = if quant_step / 16 >= 1 { quant_step / 16 } else { 1 };
    let max = max_sample_spec(bits);
    clamp_int(quantize_to_step_spec(average, step), -max, max)
}

/// `sse` and `variance_loss` are the distortion of reconstructing
/// `predictor + residual` (clamped) against the analysed source.
pub open spec fn recon_distortion_is(
    analysis: Av2LossyTxbAnalysis,
    residual: Seq<i32>,
    max_sample: int,
    sse: usize,
    variance_loss: usize,
) -> bool {
    &&& sse == usize_sat(residual_sse_sum(analysis.source@, analysis.predictor@, residual, max_sample, 16))
    &&& variance_loss == sat_sub_spec(
        analysis.source_variance as int,
        variance_spec(Seq::new(16, |i: int| clamp_recon_spec(analysis.predictor[i] as int, residual[i] as int, max_sample) as i32)),
    )
}

/// An analysis whose residual is the source minus the predictor.
pub open spec fn analysis_residual_wf(analysis: Av2LossyTxbAnalysis) -> bool {
    forall|i: int| 0 <= i < 16 ==> #[trigger] analysis.residual[i] == analysis.source[i] - analysis.predictor[i]
}

impl<'a> Av2LossySubsampledTileState<'a> {
    /// `r` is the finished analysis of its source and predictor: the
    /// residual, the DC delta, the source variance and the DC-only
    /// reconstruction's distortion follow from them.
    pub open spec fn analysis_is_finished(&self, r: Av2LossyTxbAnalysis) -> bool {
        let bits = self.bit_depth_view()@;
        &&& analysis_residual_wf(r)
        &&& r.delta == dc_delta_spec(r.source@, r.predictor@, bits, self.quant_step_spec())
        &&& r.source_variance == variance_spec(Seq::new(16, |i: int| r.source[i] as i32))
        &&& r.dc_sse == usize_sat(dc_sse_sum(r.source@, r.predictor@, r.delta as int, max_sample_spec(bits), 16))
        &&& r.dc_variance_loss == sat_sub_spec(
            r.source_variance as int,
            variance_spec(Seq::new(16, |i: int| clamp_recon_spec(r.predictor[i] as int, r.delta as int, max_sample_spec(bits)) as i32)),
        )
    }

    /// Completes the analysis of a block from its source and predictor: the
    /// residual, the DC delta and the DC-only reconstruction's distortion.
    pub fn finish_txb_analysis(&self, source: [Av2Sample; 16], predictor: [Av2Sample; 16]) -> (r: Av2LossyTxbAnalysis)
        ensures
            r.source == source,
            r.predictor == predictor,
            self.analysis_is_finished(r),
    {
        let bit_depth = self.bit_depth();
        let mut residual = [0i32; 16];
        let mut sum: i32 = 0;
        let mut index: usize = 0;
        while index < 16
            invariant
                index <= 16,
                sum == residual_sum(source@, predictor@, index as int),
                -65535 * index <= sum <= 65535 * index,
                forall|k: int| 0 <= k < index ==> #[trigger] residual[k] == source[k] - predictor[k],
            decreases 16 - index,
        {
            let diff = source[index] as i32 - predictor[index] as i32;
            residual[index] = diff;
            sum = sum + diff;
            index = index + 1;
        }
        let average = round_div_i32(sum, 16);
        let max_delta = bit_depth.max_sample() as i32;
        let step = lossy_dc_delta_quant_step(self.quant_step());
        proof {
            lemma_quantize_to_step_bound(average as int, step as int);
            assert(max_sample_spec(bit_depth@) <= 4095) by {
                vstd::arithmetic::power2::lemma2_to64();
            }
        }
        let delta = clamp_i32(quantize_i32_to_step(average, step), -max_delta, max_delta) as i16;
        let source_variance = txb_source_variance(&source);
        let (dc_sse, dc_variance_loss) = txb_dc_recon_distortion_with_source_variance(
            &source,
            &predictor,
            delta,
            bit_depth,
            source_variance,
        );
        Av2LossyTxbAnalysis { source, predictor, residual, delta, dc_sse, dc_variance_loss, source_variance }
    }
}

/// The spatial candidate's residual at `i`: the analysed residual rounded
/// to a multiple of `step`, clamped so the reconstruction stays in the
/// sample range.
pub open spec fn spatial_residual_spec(analysis: Av2LossyTxbAnalysis, step: int, max_sample: int, i: int) -> int {
    clamp_int(
        quantize_to_step_spec(analysis.residual[i] as int, step),
        -(analysis.predictor[i] as int),
        max_sample - analysis.predictor[i],
    )
}

/// The lossless coefficients that code `residual`: identity under
/// forward-skip coding, the Walsh-Hadamard transform otherwise.
pub open spec fn residual_coefficients_are(coefficients: Seq<i32>, residual: Seq<i32>, use_fsc: bool) -> bool {
    &&& use_fsc ==> forall|i: int| 0 <= i < 16 ==> #[trigger] coefficients[i] == residual[i] * 8
    &&& !use_fsc ==> forall|i: int| 0 <= i < 16 ==> #[trigger] coefficients[i] == fwht4x4_spec(residual.map_values(|v: i32| v as int))[i]
}

impl<'a> Av2LossySubsampledTileState<'a> {
    /// The spatial candidate quantized with `step`.
    pub fn quantized_residual_candidate_with_step(
        &self,
        analysis: &Av2LossyTxbAnalysis,
        step: i32,
        use_fsc: bool,
    ) -> (r: Av2LossyQuantizedResidualCandidate)
        requires
            analysis_residual_wf(*analysis),
            1 <= step <= 0x1_0000,
        ensures
            forall|i: int| 0 <= i < 16 ==> #[trigger] r.residual[i] == spatial_residual_spec(*analysis, step as int, max_sample_spec(self.bit_depth_view()@), i),
            residual_coefficients_are(r.coefficients@, r.residual@, use_fsc),
            recon_distortion_is(*analysis, r.residual@, max_sample_spec(self.bit_depth_view()@), r.sse, r.variance_loss),
            r.kind == (if step < self.quant_step_spec() { Av2LossyResidualCandidateKind::RefinedSpatial } else { Av2LossyResidualCandidateKind::Spatial }),
    {
        let mut residual = [0i32; 16];
        let max_sample = self.bit_depth().max_sample() as i32;
        let mut index: usize = 0;
        while index < 16
            invariant
                index <= 16,
                analysis_residual_wf(*analysis),
                1 <= step <= 0x1_0000,
                max_sample == max_sample_spec(self.bit_depth_view()@),
                0 <= max_sample <= 65535,
                forall|k: int| 0 <= k < index ==> #[trigger] residual[k] == spatial_residual_spec(*analysis, step as int, max_sample as int, k),
                forall|k: int| 0 <= k < index ==> -65535 <= #[trigger] residual[k] <= 65535,
            decreases 16 - index,
        {
            let predictor = analysis.predictor[index] as i32;
            let value = analysis.residual[index];
            proof {
                assert(analysis.residual[index as int] == analysis.source[index as int] - analysis.predictor[index as int]);
                lemma_quantize_to_step_bound(value as int, step as int);
            }
            let quantized = clamp_i32(quantize_i32_to_step(value, step), -predictor, max_sample - predictor);
            residual[index] = quantized;
            index = index + 1;
        }
        let (sse, variance_loss) = txb_recon_sse_and_variance_loss(
            &analysis.source,
            &analysis.predictor,
            &residual,
            max_sample,
            analysis.source_variance,
        );
        let kind = if step < self.quant_step() {
            Av2LossyResidualCandidateKind::RefinedSpatial
        } else {
            Av2LossyResidualCandidateKind::Spatial
        };
        let coefficients = tx4x4_coefficients_from_residual(&residual, use_fsc);
        Av2LossyQuantizedResidualCandidate { kind, coefficients, residual, sse, variance_loss }
    }

    /// The spatial candidate at the tile's quantizer step.
    pub fn quantized_residual_candidate(&self, analysis: &Av2LossyTxbAnalysis, use_fsc: bool) -> (r: Av2LossyQuantizedResidualCandidate)
        requires
            analysis_residual_wf(*analysis),
            self.quant_step_spec() >= 1,
        ensures
            forall|i: int| 0 <= i < 16 ==> #[trigger] r.residual[i] == spatial_residual_spec(*analysis, self.quant_step_spec(), max_sample_spec(self.bit_depth_view()@), i),
            residual_coefficients_are(r.coefficients@, r.residual@, use_fsc),
            recon_distortion_is(*analysis, r.residual@, max_sample_spec(self.bit_depth_view()@), r.sse, r.variance_loss),
            r.kind == Av2LossyResidualCandidateKind::Spatial,
    {
        self.quantized_residual_candidate_with_step(analysis, self.quant_step(), use_fsc)
    }

    /// The spatial candidate at the refined step: a quarter of the
    /// quantizer step, at least 1.
    pub fn refined_quantized_residual_candidate(
        &self,
        analysis: &Av2LossyTxbAnalysis,
        use_fsc: bool,
    ) -> (r: Av2LossyQuantizedResidualCandidate)
        requires
            analysis_residual_wf(*analysis),
        ensures
            ({
                let qs = self.quant_step_spec();
                let step = if qs / 4 >= 1 { qs / 4 } else { 1 };
                &&& forall|i: int| 0 <= i < 16 ==> #[trigger] r.residual[i] == spatial_residual_spec(*analysis, step, max_sample_spec(self.bit_depth_view()@), i)
                &&& r.kind == (if step < qs { Av2LossyResidualCandidateKind::RefinedSpatial } else { Av2LossyResidualCandidateKind::Spatial })
            }),
            residual_coefficients_are(r.coefficients@, r.residual@, use_fsc),
            recon_distortion_is(*analysis, r.residual@, max_sample_spec(self.bit_depth_view()@), r.sse, r.variance_loss),
    {
        self.quantized_residual_candidate_with_step(analysis, refined_lossy_quant_step(self.quant_step()), use_fsc)
    }
}

/// The transform candidate's coefficient at `i`: the Walsh-Hadamard
/// coefficient of the analysed residual rounded to a multiple of `step`.
pub open spec fn transform_coefficient_spec(analysis: Av2LossyTxbAnalysis, step: int, i: int) -> int {
    quantize_to_step_spec(fwht4x4_spec(analysis.residual@.map_values(|v: i32| v as int))[i], step)
}

/// Step of the spatial-transform coefficients for a quantizer step: twice
/// the step (at least 1), at least 8.
pub open spec fn transform_coeff_step_spec(quant_step: int) -> int {
    let s = 2 * (if quant_step >= 1 { quant_step } else { 1 });
    if s >= 8 { s } else { 8 }
}

/// `coefficients` are the transform candidate's quantized coefficients and
/// `residual` their inverse transform.
pub open spec fn transform_candidate_is(
    analysis: Av2LossyTxbAnalysis,
    quant_step: int,
    coefficients: Seq<i32>,
    residual: Seq<i32>,
) -> bool {
    &&& forall|i: int| 0 <= i < 16 ==> #[trigger] coefficients[i] == transform_coefficient_spec(analysis, transform_coeff_step_spec(quant_step), i)
    &&& forall|i: int| 0 <= i < 16 ==> #[trigger] residual[i] == iwht4x4_spec(coefficients.map_values(|v: i32| v as int))[i]
}

/// `sse` and `variance_loss` are the distortion of the BDPCM
/// reconstruction under `residual`.
pub open spec fn dpcm_distortion_is(
    analysis: Av2LossyTxbAnalysis,
    residual: Seq<i32>,
    horz: bool,
    max_sample: int,
    sse: usize,
    variance_loss: usize,
) -> bool {
    &&& sse == usize_sat(dpcm_sse_sum(analysis.source@, analysis.predictor@, residual, horz, max_sample, 16))
    &&& variance_loss == sat_sub_spec(
        analysis.source_variance as int,
        variance_spec(Seq::new(16, |i: int| dpcm_recon_spec(analysis.predictor@, residual, horz, max_sample, i) as i32)),
    )
}

impl<'a> Av2LossySubsampledTileState<'a> {
    /// Quantizes the Walsh-Hadamard coefficients of the analysed residual
    /// and inverts them: the transform-domain quantized coefficients and
    /// residual.
    fn transform_quantized_coefficients_and_residual(&self, analysis: &Av2LossyTxbAnalysis) -> (r: ([i32; 16], [i32; 16]))
        requires
            analysis_residual_wf(*analysis),
        ensures
            transform_candidate_is(*analysis, self.quant_step_spec(), r.0@, r.1@),
            forall|i: int| 0 <= i < 16 ==> -0x40_0000 <= #[trigger] r.1[i] <= 0x40_0000,
    {
        let ghost x = analysis.residual@.map_values(|v: i32| v as int);
        proof {
            assert forall|i: int| 0 <= i < 16 implies -65535 <= #[trigger] x[i] <= 65535 by {
                assert(analysis.residual[i] == analysis.source[i] - analysis.predictor[i]);
            }
            lemma_fwht4x4_bound(x, 65535);
        }
        let coefficients = tx4x4_coefficients_from_residual(&analysis.residual, false);
        let coeff_step = lossy_transform_coeff_step(self.quant_step());
        let mut quantized = [0i32; 16];
        let mut index: usize = 0;
        while index < 16
            invariant
                index <= 16,
                x == analysis.residual@.map_values(|v: i32| v as int),
                coeff_step == transform_coeff_step_spec(self.quant_step_spec()),
                8 <= coeff_step <= 2 * 351 * 16,
                forall|i: int| 0 <= i < 16 ==> #[trigger] coefficients[i] == fwht4x4_spec(x)[i],
                forall|i: int| 0 <= i < 16 ==> -(32 * 65535 + 24) <= #[trigger] fwht4x4_spec(x)[i] <= 32 * 65535 + 24,
                forall|k: int| 0 <= k < index ==> #[trigger] quantized[k] == transform_coefficient_spec(*analysis, coeff_step as int, k),
                forall|k: int| 0 <= k < index ==> -0x40_0000 <= #[trigger] quantized[k] <= 0x40_0000,
            decreases 16 - index,
        {
            let c = coefficients[index];
            proof {
                assert(-(32 * 65535 + 24) <= fwht4x4_spec(x)[index as int] <= 32 * 65535 + 24);
                lemma_quantize_to_step_bound(c as int, coeff_step as int);
            }
            quantized[index] = quantize_i32_to_step(c, coeff_step);
            index = index + 1;
        }
        proof {
            let q = quantized@.map_values(|v: i32| v as int);
            assert forall|i: int| 0 <= i < 16 implies -0x40_0000 <= #[trigger] q[i] <= 0x40_0000 by {
                assert(q[i] == quantized[i]);
            }
            lemma_iwht4x4_bound(q, 0x40_0000);
        }
        let residual = av2_iwht4x4(&quantized);
        (quantized, residual)
    }

    /// The spatial-transform candidate: Walsh-Hadamard coefficients
    /// quantized to the transform step, and their inverse.
    pub fn transform_quantized_residual_candidate(&self, analysis: &Av2LossyTxbAnalysis) -> (r: Av2LossyQuantizedResidualCandidate)
        requires
            analysis_residual_wf(*analysis),
        ensures
            transform_candidate_is(*analysis, self.quant_step_spec(), r.coefficients@, r.residual@),
            recon_distortion_is(*analysis, r.residual@, max_sample_spec(self.bit_depth_view()@), r.sse, r.variance_loss),
            r.kind == Av2LossyResidualCandidateKind::Transform,
    {
        let (coefficients, residual) = self.transform_quantized_coefficients_and_residual(analysis);
        let max_sample = self.bit_depth().max_sample() as i32;
        let (sse, variance_loss) = txb_recon_sse_and_variance_loss(
            &analysis.source,
            &analysis.predictor,
            &residual,
            max_sample,
            analysis.source_variance,
        );
        Av2LossyQuantizedResidualCandidate {
            kind: Av2LossyResidualCandidateKind::Transform,
            residual,
            coefficients,
            sse,
            variance_loss,
        }
    }

    /// A BDPCM candidate for `residual`: its Walsh-Hadamard coefficients and
    /// the distortion of the BDPCM reconstruction.
    pub fn dpcm_candidate_from_residual(
        &self,
        analysis: &Av2LossyTxbAnalysis,
        residual: [i32; 16],
        horz: bool,
        kind: Av2LossyResidualCandidateKind,
    ) -> (r: Av2LossyQuantizedResidualCandidate)
        requires
            forall|i: int| 0 <= i < 16 ==> -0x40_0000 <= #[trigger] residual[i] <= 0x40_0000,
        ensures
            r.kind == kind,
            r.residual == residual,
            residual_coefficients_are(r.coefficients@, residual@, false),
            dpcm_distortion_is(*analysis, residual@, horz, max_sample_spec(self.bit_depth_view()@), r.sse, r.variance_loss),
    {
        let max_sample = self.bit_depth().max_sample() as i32;
        let (recon_samples, sse) = dpcm_recon_samples_and_sse(analysis, &residual, horz, max_sample);
        proof {
            assert(recon_samples@ =~= Seq::new(
                16,
                |i: int| dpcm_recon_spec(analysis.predictor@, residual@, horz, max_sample as int, i) as i32,
            ));
            assert forall|i: int| 0 <= i < 16 implies -65536 <= #[trigger] recon_samples[i] <= 65536 by {
                crate::lossy_state::lemma_dpcm_recon_range(analysis.predictor@, residual@, horz, max_sample as int, i);
            }
            crate::lossy_metrics::lemma_variance_fits_bounded(recon_samples@);
        }
        let variance_loss = txb_recon_variance_loss(analysis.source_variance, &recon_samples);
        Av2LossyQuantizedResidualCandidate {
            kind,
            residual,
            coefficients: tx4x4_coefficients_from_residual(&residual, false),
            sse,
            variance_loss,
        }
    }

    /// The BDPCM candidate whose residual is the analysed residual rounded
    /// to a multiple of `step`.
    pub fn quantized_dpcm_residual_candidate(
        &self,
        analysis: &Av2LossyTxbAnalysis,
        step: i32,
        horz: bool,
    ) -> (r: Av2LossyQuantizedResidualCandidate)
        requires
            analysis_residual_wf(*analysis),
            1 <= step <= 0x1_0000,
        ensures
            forall|i: int| 0 <= i < 16 ==> -0x40_0000 <= #[trigger] r.residual[i] <= 0x40_0000,
            forall|i: int| 0 <= i < 16 ==> #[trigger] r.residual[i] == quantize_to_step_spec(analysis.residual[i] as int, step as int),
            residual_coefficients_are(r.coefficients@, r.residual@, false),
            dpcm_distortion_is(*analysis, r.residual@, horz, max_sample_spec(self.bit_depth_view()@), r.sse, r.variance_loss),
            r.kind == (if step < self.quant_step_spec() { Av2LossyResidualCandidateKind::RefinedSpatial } else { Av2LossyResidualCandidateKind::Spatial }),
    {
        let mut residual = [0i32; 16];
        let mut index: usize = 0;
        while index < 16
            invariant
                index <= 16,
                analysis_residual_wf(*analysis),
                1 <= step <= 0x1_0000,
                forall|k: int| 0 <= k < index ==> #[trigger] residual[k] == quantize_to_step_spec(analysis.residual[k] as int, step as int),
                forall|k: int| 0 <= k < index ==> -0x40_0000 <= #[trigger] residual[k] <= 0x40_0000,
            decreases 16 - index,
        {
            let value = analysis.residual[index];
            proof {
                assert(analysis.residual[index as int] == analysis.source[index as int] - analysis.predictor[index as int]);
                lemma_quantize_to_step_bound(value as int, step as int);
            }
            residual[index] = quantize_i32_to_step(value, step);
            index = index + 1;
        }
        let kind = if step < self.quant_step() {
            Av2LossyResidualCandidateKind::RefinedSpatial
        } else {
            Av2LossyResidualCandidateKind::Spatial
        };
        self.dpcm_candidate_from_residual(analysis, residual, horz, kind)
    }

    /// The BDPCM candidate from the quantized Walsh-Hadamard coefficients of
    /// the analysed residual.
    pub fn transform_quantized_dpcm_residual_candidate(
        &self,
        analysis: &Av2LossyTxbAnalysis,
        horz: bool,
    ) -> (r: Av2LossyQuantizedResidualCandidate)
        requires
            analysis_residual_wf(*analysis),
        ensures
            forall|i: int| 0 <= i < 16 ==> -0x40_0000 <= #[trigger] r.residual[i] <= 0x40_0000,
            exists|coefficients: Seq<i32>| #[trigger] transform_candidate_is(*analysis, self.quant_step_spec(), coefficients, r.residual@),
            residual_coefficients_are(r.coefficients@, r.residual@, false),
            dpcm_distortion_is(*analysis, r.residual@, horz, max_sample_spec(self.bit_depth_view()@), r.sse, r.variance_loss),
            r.kind == Av2LossyResidualCandidateKind::Transform,
    {
        let (coefficients, residual) = self.transform_quantized_coefficients_and_residual(analysis);
        let r = self.dpcm_candidate_from_residual(analysis, residual, horz, Av2LossyResidualCandidateKind::Transform);
        proof {
            assert(transform_candidate_is(*analysis, self.quant_step_spec(), coefficients@, r.residual@));
        }
        r
    }
}

/// The dequantized levels of a regular-DCT block at dequantizer step `step`.
pub open spec fn dequantized_spec(q: Seq<i32>, step: i32) -> Seq<i32> {
    Seq::new(16, |i: int| dequantize_spec(q[i], step) as i32)
}

/// The regular-DCT reconstruction residual of levels `q`: the inverse DCT
/// of the dequantized levels, or the DC-only inverse when every dequantized
/// AC level is zero.
pub open spec fn regular_residual_spec(q: Seq<i32>, step: i32, bits: nat) -> Seq<int> {
    let dq = dequantized_spec(q, step);
    if forall|i: int| 1 <= i < 16 ==> #[trigger] dq[i] == 0 {
        Seq::new(16, |i: int| idct4x4_dc_sample_spec(dq[0], bits))
    } else {
        idct4x4_spec(dq, bits)
    }
}

/// `c` is the regular-DCT candidate of levels `q`: its residual is their
/// reconstruction, its coefficients the levels scaled by 8, and its
/// distortion that of the reconstruction.
pub open spec fn regular_candidate_is(
    c: Av2LossyQuantizedResidualCandidate,
    analysis: Av2LossyTxbAnalysis,
    q: Seq<i32>,
    kind: Av2LossyResidualCandidateKind,
    step: i32,
    bits: nat,
) -> bool {
    &&& c.kind == kind
    &&& forall|i: int| 0 <= i < 16 ==> #[trigger] c.residual[i] == regular_residual_spec(q, step, bits)[i]
    &&& forall|i: int| 0 <= i < 16 ==> #[trigger] c.coefficients[i] == q[i] * 8
    &&& recon_distortion_is(analysis, c.residual@, max_sample_spec(bits), c.sse, c.variance_loss)
}

/// Levels small enough that their dequantized values stay within `2^24`.
pub open spec fn regular_levels_bounded(q: Seq<i32>, step: int) -> bool {
    forall|i: int| 0 <= i < 16 ==> #[trigger] abs_int(q[i] as int) * step <= 8 * 0x100_0000
}

impl<'a> Av2LossySubsampledTileState<'a> {
    /// The regular-DCT candidate of levels `qcoeff`, labelled `kind`.
    pub fn regular_dct_candidate_from_qcoeff_kind(
        &self,
        analysis: &Av2LossyTxbAnalysis,
        qcoeff: &[i32; 16],
        kind: Av2LossyResidualCandidateKind,
    ) -> (r: Av2LossyQuantizedResidualCandidate)
        requires
            regular_levels_bounded(qcoeff@, qlookup_spec(self.base_qindex_view(), self.bit_depth_view()@)),
        ensures
            regular_candidate_is(
                r,
                *analysis,
                qcoeff@,
                kind,
                qlookup_spec(self.base_qindex_view(), self.bit_depth_view()@) as i32,
                self.bit_depth_view()@,
            ),
    {
        let bit_depth = self.bit_depth();
        let dequant = av2_regular_dequant_qtx(self.base_qindex(), bit_depth);
        let ghost step = dequant[0];
        proof {
            assert forall|i: int| 0 <= i < 16 implies abs_int(#[trigger] qcoeff[i] as int) * dequant[if i != 0 { 1int } else { 0int }]
                <= 8 * (0x4000_0000 + 0x2_0000) by {
                assert(abs_int(qcoeff@[i] as int) * step <= 8 * 0x100_0000);
            }
        }
        let dqcoeff = av2_regular_dequantize(qcoeff, dequant);
        proof {
            assert(dqcoeff@ =~= dequantized_spec(qcoeff@, step));
            let a0 = abs_int(qcoeff[0] as int);
            assert(a0 * step <= 8 * 0x100_0000);
            assert(a0 * step >= 0) by (nonlinear_arith)
                requires
                    a0 >= 0,
                    step >= 40,
            ;
            assert(-0x100_0000 <= dqcoeff[0] <= 0x100_0000);
        }
        let mut ac_zero = true;
        let mut i: usize = 1;
        while i < 16
            invariant
                1 <= i <= 16,
                ac_zero == (forall|k: int| 1 <= k < i ==> #[trigger] dqcoeff[k] == 0),
            decreases 16 - i,
        {
            if dqcoeff[i] != 0 {
                ac_zero = false;
            }
            i = i + 1;
        }
        let residual = if ac_zero {
            av2_idct4x4_dc_only(&dqcoeff, bit_depth)
        } else {
            av2_idct4x4(&dqcoeff, bit_depth)
        };
        proof {
            let dq = dequantized_spec(qcoeff@, step);
            assert(dq == dqcoeff@);
            assert(ac_zero == (forall|k: int| 1 <= k < 16 ==> #[trigger] dq[k] == 0));
            assert forall|k: int| 0 <= k < 16 implies -0x1000 <= #[trigger] residual[k] <= 0x1000 by {
                vstd::arithmetic::power2::lemma2_to64();
            }
            assert forall|k: int| 0 <= k < 16 implies -0x1000_0000 <= #[trigger] qcoeff[k] <= 0x0fff_ffff by {
                let a = abs_int(qcoeff[k] as int);
                assert(a * step <= 8 * 0x100_0000);
                assert(a <= 0x100_0000) by (nonlinear_arith)
                    requires
                        a * step <= 8 * 0x100_0000,
                        step >= 40,
                        a >= 0,
                ;
            }
        }
        let max_sample = bit_depth.max_sample() as i32;
        let (sse, variance_loss) = txb_recon_sse_and_variance_loss(
            &analysis.source,
            &analysis.predictor,
            &residual,
            max_sample,
            analysis.source_variance,
        );
        Av2LossyQuantizedResidualCandidate {
            kind,
            residual,
            coefficients: av2_regular_quantized_level_coefficients(qcoeff),
            sse,
            variance_loss,
        }
    }

    /// The regular-DCT candidate of levels `qcoeff`.
    pub fn regular_dct_candidate_from_qcoeff(
        &self,
        analysis: &Av2LossyTxbAnalysis,
        qcoeff: &[i32; 16],
    ) -> (r: Av2LossyQuantizedResidualCandidate)
        requires
            regular_levels_bounded(qcoeff@, qlookup_spec(self.base_qindex_view(), self.bit_depth_view()@)),
        ensures
            regular_candidate_is(
                r,
                *analysis,
                qcoeff@,
                Av2LossyResidualCandidateKind::RegularDct,
                qlookup_spec(self.base_qindex_view(), self.bit_depth_view()@) as i32,
                self.bit_depth_view()@,
            ),
    {
        self.regular_dct_candidate_from_qcoeff_kind(analysis, qcoeff, Av2LossyResidualCandidateKind::RegularDct)
    }
}

/// The regular-DCT levels of the analysed residual: its forward DCT
/// quantized at `step`, with AC levels of magnitude at most the pruning
/// threshold `t` zeroed (none when `t` is 0).
pub open spec fn regular_levels_spec(analysis: Av2LossyTxbAnalysis, step: int, t: int) -> Seq<i32> {
    let c = fdct4x4_spec(analysis.residual@);
    Seq::new(
        16,
        |i: int| {
            let q = quantize_level_spec(c[i], step);
            (if i != 0 && t != 0 && -t <= q <= t { 0 } else { q }) as i32
        },
    )
}

/// `q` with every AC level zeroed.
pub open spec fn dc_only_levels(q: Seq<i32>) -> Seq<i32> {
    Seq::new(16, |i: int| if i == 0 { q[0] } else { 0i32 })
}

/// `q1` is `q` after trailing-unit pruning that stopped at scan index
/// `stop`.
pub open spec fn tail_pruned_levels(q: Seq<i32>, q1: Seq<i32>, stop: int) -> bool {
    &&& q1.len() == 16
    &&& q1[0] == q[0]
    &&& trailing_units_pruned(q, q1, stop)
}

/// The all-zero regular-DCT candidate of a block the predictor matches
/// exactly.
pub open spec fn is_zero_regular_candidate(c: Av2LossyQuantizedResidualCandidate) -> bool {
    &&& c.kind == Av2LossyResidualCandidateKind::RegularDct
    &&& forall|i: int| 0 <= i < 16 ==> #[trigger] c.residual[i] == 0
    &&& forall|i: int| 0 <= i < 16 ==> #[trigger] c.coefficients[i] == 0
    &&& c.sse == 0
    &&& c.variance_loss == 0
}

/// The regular-DCT candidates of an analysed block whose residual is not
/// all zero, from its pruned levels `q`.
pub open spec fn regular_candidates_are(
    r: Av2LossyRegularDctCandidates,
    analysis: Av2LossyTxbAnalysis,
    q: Seq<i32>,
    step: i32,
    bits: nat,
    chroma_format: Av2ChromaFormat,
) -> bool {
    &&& regular_candidate_is(r.transform, analysis, q, Av2LossyResidualCandidateKind::RegularDct, step, bits)
    &&& (forall|i: int| 1 <= i < 16 ==> #[trigger] q[i] == 0) ==> {
        &&& r.dc_only == r.transform
        &&& r.tail_pruned is None
        &&& r.double_tail_pruned is None
    }
    &&& !(forall|i: int| 1 <= i < 16 ==> #[trigger] q[i] == 0) ==> {
        let (stop1, n1) = trailing_prune_spec(q, 1, 16, 0);
        let (stop2, n2) = trailing_prune_spec(q, 2, 16, 0);
        &&& r.tail_pruned is Some <==> n1 == 1
        &&& r.tail_pruned matches Some(c) ==> exists|q1: Seq<i32>| #[trigger] tail_pruned_levels(q, q1, stop1)
            && regular_candidate_is(c, analysis, q1, Av2LossyResidualCandidateKind::RegularDctTailPruned, step, bits)
        &&& r.double_tail_pruned is Some <==> ((chroma_format != Av2ChromaFormat::Yuv444 || bits > 8) && n2 == 2)
        &&& r.double_tail_pruned matches Some(c) ==> exists|q2: Seq<i32>| #[trigger] tail_pruned_levels(q, q2, stop2)
            && regular_candidate_is(c, analysis, q2, Av2LossyResidualCandidateKind::RegularDctDoubleTailPruned, step, bits)
        &&& regular_candidate_is(r.dc_only, analysis, dc_only_levels(q), Av2LossyResidualCandidateKind::RegularDctDcOnly, step, bits)
    }
}

impl<'a> Av2LossySubsampledTileState<'a> {
    /// The regular-DCT candidates of an analysed block: the full transform,
    /// the variants with one or two trailing unit levels pruned, and the
    /// DC-only variant.
    pub fn regular_dct_quantized_residual_candidates(&self, analysis: &Av2LossyTxbAnalysis) -> (r: Av2LossyRegularDctCandidates)
        requires
            analysis_residual_wf(*analysis),
        ensures
            (forall|i: int| 0 <= i < 16 ==> #[trigger] analysis.residual[i] == 0) ==> {
                &&& is_zero_regular_candidate(r.transform)
                &&& r.dc_only == r.transform
                &&& r.tail_pruned is None
                &&& r.double_tail_pruned is None
            },
            !(forall|i: int| 0 <= i < 16 ==> #[trigger] analysis.residual[i] == 0) ==> regular_candidates_are(
                r,
                *analysis,
                regular_levels_spec(
                    *analysis,
                    qlookup_spec(self.base_qindex_view(), self.bit_depth_view()@),
                    ac_prune_threshold_spec(self.base_qindex_view(), self.bit_depth_view()@, self.chroma_format_view(), analysis.source_variance) as int,
                ),
                qlookup_spec(self.base_qindex_view(), self.bit_depth_view()@) as i32,
                self.bit_depth_view()@,
                self.chroma_format_view(),
            ),
    {
        if tx4x4_residual_is_zero(&analysis.residual) {
            let zero = Av2LossyQuantizedResidualCandidate {
                kind: Av2LossyResidualCandidateKind::RegularDct,
                residual: [0; 16],
                coefficients: [0; 16],
                sse: 0,
                variance_loss: 0,
            };
            return Av2LossyRegularDctCandidates { transform: zero, tail_pruned: None, double_tail_pruned: None, dc_only: zero };
        }
        let bit_depth = self.bit_depth();
        let base_qindex = self.base_qindex();
        let ghost bits = bit_depth@;
        let ghost step = qlookup_spec(base_qindex, bits);
        let ghost t = ac_prune_threshold_spec(base_qindex, bits, self.chroma_format_view(), analysis.source_variance) as int;
        let ghost q_spec = regular_levels_spec(*analysis, step, t);
        proof {
            assert forall|i: int| 0 <= i < 16 implies -65535 <= #[trigger] analysis.residual@[i] <= 65535 by {
                assert(analysis.residual[i] == analysis.source[i] - analysis.predictor[i]);
            }
            lemma_fdct4x4_bound(analysis.residual@);
        }
        let coefficients = av2_fdct4x4(&analysis.residual);
        let params = Av2RegularQuantParams::new(base_qindex, bit_depth);
        let (mut qcoeff, _) = av2_regular_quantize_with_params(&coefficients, params);
        let ghost q_raw = qcoeff@;
        proof {
            assert(40 <= step <= 78 * 16384) by {
                assert(40 <= params.dequant[0] <= 78 * 16384);
            }
            assert forall|i: int| 0 <= i < 16 implies #[trigger] q_raw[i] == quantize_level_spec(fdct4x4_spec(analysis.residual@)[i], step)
                && abs_int(q_raw[i] as int) * step <= 8 * 0x100_0000 by {
                let c = fdct4x4_spec(analysis.residual@)[i];
                assert(coefficients[i] == c);
                lemma_quantize_coefficient_by_step(coefficients[i], params, i != 0);
                assert(params.dequant[if i != 0 { 1int } else { 0int }] == step);
                lemma_quantize_level_bound(c, step);
                assert(64 * step / 1024 <= 79872);
            }
        }
        prune_regular_dct_ac_levels(&mut qcoeff, base_qindex, bit_depth, self.chroma_format(), analysis.source_variance);
        proof {
            assert forall|i: int| 0 <= i < 16 implies #[trigger] qcoeff[i] == q_spec[i] && abs_int(qcoeff[i] as int) * step <= 8 * 0x100_0000 by {
                assert(q_raw[i] == quantize_level_spec(fdct4x4_spec(analysis.residual@)[i], step));
                assert(abs_int(q_raw[i] as int) * step <= 8 * 0x100_0000);
                if i != 0 {
                    assert(qcoeff[i] == (if t != 0 && -t <= q_raw[i] <= t { 0 } else { q_raw[i] }));
                    assert(abs_int(0int) == 0);
                    assert(0int * step == 0) by (nonlinear_arith);
                }
            }
            assert(qcoeff@ =~= q_spec);
        }
        let transform = self.regular_dct_candidate_from_qcoeff(analysis, &qcoeff);
        let mut ac_zero = true;
        let mut i: usize = 1;
        while i < 16
            invariant
                1 <= i <= 16,
                ac_zero == (forall|k: int| 1 <= k < i ==> #[trigger] qcoeff[k] == 0),
            decreases 16 - i,
        {
            if qcoeff[i] != 0 {
                ac_zero = false;
            }
            i = i + 1;
        }
        if ac_zero {
            return Av2LossyRegularDctCandidates { transform, tail_pruned: None, double_tail_pruned: None, dc_only: transform };
        }
        let mut tail_pruned_qcoeff = qcoeff;
        let pruned_one = prune_regular_dct_trailing_unit_acs(&mut tail_pruned_qcoeff, 1);
        proof {
            let (stop1, n1) = trailing_prune_spec(qcoeff@, 1, 16, 0);
            lemma_trailing_pruned_levels(qcoeff@, tail_pruned_qcoeff@, stop1);
            assert(tail_pruned_levels(qcoeff@, tail_pruned_qcoeff@, stop1));
            assert forall|k: int| 0 <= k < 16 implies abs_int(#[trigger] tail_pruned_qcoeff@[k] as int) * step <= 8 * 0x100_0000 by {
                assert(tail_pruned_qcoeff@[k] == qcoeff@[k] || tail_pruned_qcoeff@[k] == 0);
            }
        }
        let tail_pruned = if pruned_one == 1 {
            Some(
                self.regular_dct_candidate_from_qcoeff_kind(
                    analysis,
                    &tail_pruned_qcoeff,
                    Av2LossyResidualCandidateKind::RegularDctTailPruned,
                ),
            )
        } else {
            None
        };
        let mut double_tail_pruned_qcoeff = qcoeff;
        let mut double_tail_pruned = None;
        if self.chroma_format() != Av2ChromaFormat::Yuv444 || bit_depth.bits() > 8 {
            let pruned_two = prune_regular_dct_trailing_unit_acs(&mut double_tail_pruned_qcoeff, 2);
            proof {
                let (stop2, n2) = trailing_prune_spec(qcoeff@, 2, 16, 0);
                lemma_trailing_pruned_levels(qcoeff@, double_tail_pruned_qcoeff@, stop2);
                assert(tail_pruned_levels(qcoeff@, double_tail_pruned_qcoeff@, stop2));
                assert forall|k: int| 0 <= k < 16 implies abs_int(#[trigger] double_tail_pruned_qcoeff@[k] as int) * step <= 8 * 0x100_0000 by {
                    assert(double_tail_pruned_qcoeff@[k] == qcoeff@[k] || double_tail_pruned_qcoeff@[k] == 0);
                }
            }
            if pruned_two == 2 {
                double_tail_pruned = Some(
                    self.regular_dct_candidate_from_qcoeff_kind(
                        analysis,
                        &double_tail_pruned_qcoeff,
                        Av2LossyResidualCandidateKind::RegularDctDoubleTailPruned,
                    ),
                );
            }
        }
        let mut dc_only_qcoeff = qcoeff;
        let mut k: usize = 1;
        while k < 16
            invariant
                1 <= k <= 16,
                dc_only_qcoeff[0] == qcoeff[0],
                forall|j: int| 1 <= j < k ==> #[trigger] dc_only_qcoeff[j] == 0,
            decreases 16 - k,
        {
            dc_only_qcoeff[k] = 0;
            k = k + 1;
        }
        proof {
            assert(dc_only_qcoeff@ =~= dc_only_levels(qcoeff@));
            assert forall|j: int| 0 <= j < 16 implies abs_int(#[trigger] dc_only_qcoeff@[j] as int) * step <= 8 * 0x100_0000 by {
                if j == 0 {
                    assert(dc_only_qcoeff@[0] == qcoeff@[0]);
                } else {
                    assert(dc_only_qcoeff@[j] == 0);
                    assert(abs_int(0int) == 0);
                    assert(0int * step == 0) by (nonlinear_arith);
                }
            }
        }
        let dc_only = self.regular_dct_candidate_from_qcoeff_kind(
            analysis,
            &dc_only_qcoeff,
            Av2LossyResidualCandidateKind::RegularDctDcOnly,
        );
        Av2LossyRegularDctCandidates { transform, tail_pruned, double_tail_pruned, dc_only }
    }
}

/// Position in the reference plane of a block displaced by a motion vector
/// given in luma pixels, for a plane subsampled by `sub`.
pub open spec fn displaced_spec(pos: usize, mv: i16, sub: usize) -> int {
    pos + (mv as int) / (sub as int)
}

/// `pos` displaced by `mv / sub`, where `sub` divides `mv` and the result
/// is a valid position.
fn displaced(pos: usize, mv: i16, sub: usize) -> (r: usize)
    requires
        sub == 1 || sub == 2,
        (mv as int) % (sub as int) == 0,
        0 <= displaced_spec(pos, mv, sub) <= usize::MAX,
    ensures
        r == displaced_spec(pos, mv, sub),
{
    if mv >= 0 {
        pos + (mv as usize) / sub
    } else {
        let magnitude = (-(mv as i32)) as usize;
        proof {
            assert((magnitude as int) / (sub as int) == -((mv as int) / (sub as int))) by (nonlinear_arith)
                requires
                    magnitude == -(mv as int),
                    (mv as int) % (sub as int) == 0,
                    sub == 1 || sub == 2,
            ;
        }
        pos - magnitude / sub
    }
}

impl<'a> Av2LossySubsampledTileState<'a> {
    /// Analyses an inter block: the source block against the reference
    /// block displaced by the motion vector.
    pub fn analyze_inter_txb(
        &self,
        reference: &[u8],
        plane: Av2LossyPlane,
        x0: usize,
        y0: usize,
        mv_row_px: i16,
        mv_col_px: i16,
    ) -> (r: Av2LossyTxbAnalysis)
        requires
            reference@.len() == self.source_view().len(),
            self.block_in_plane(plane, x0 as int, y0 as int),
            (mv_col_px as int) % (self.plane_spec(plane).sub_x as int) == 0,
            (mv_row_px as int) % (self.plane_spec(plane).sub_y as int) == 0,
            self.block_in_plane(
                plane,
                displaced_spec(x0, mv_col_px, self.plane_spec(plane).sub_x),
                displaced_spec(y0, mv_row_px, self.plane_spec(plane).sub_y),
            ),
        ensures
            forall|i: int| 0 <= i < 16 ==> #[trigger] r.source[i] == self.source_sample_spec(plane, x0 + i % 4, y0 + i / 4),
            forall|i: int| 0 <= i < 16 ==> #[trigger] r.predictor[i] == self.reference_sample_spec(
                reference@,
                plane,
                displaced_spec(x0, mv_col_px, self.plane_spec(plane).sub_x) + i % 4,
                displaced_spec(y0, mv_row_px, self.plane_spec(plane).sub_y) + i / 4,
            ),
            self.analysis_is_finished(r),
    {
        let (sub_x, sub_y) = self.plane_subsampling(plane);
        let ref_x0 = displaced(x0, mv_col_px, sub_x);
        let ref_y0 = displaced(y0, mv_row_px, sub_y);
        let mut source = [0u16; 16];
        let mut predictor = [0u16; 16];
        let mut local_y: usize = 0;
        while local_y < 4
            invariant
                local_y <= 4,
                reference@.len() == self.source_view().len(),
                self.block_in_plane(plane, x0 as int, y0 as int),
                self.block_in_plane(plane, ref_x0 as int, ref_y0 as int),
                ref_x0 == displaced_spec(x0, mv_col_px, self.plane_spec(plane).sub_x),
                ref_y0 == displaced_spec(y0, mv_row_px, self.plane_spec(plane).sub_y),
                forall|i: int| 0 <= i < 16 && i / 4 < local_y ==> #[trigger] source[i] == self.source_sample_spec(plane, x0 + i % 4, y0 + i / 4),
                forall|i: int| 0 <= i < 16 && i / 4 < local_y ==> #[trigger] predictor[i] == self.reference_sample_spec(reference@, plane, ref_x0 + i % 4, ref_y0 + i / 4),
            decreases 4 - local_y,
        {
            let mut local_x: usize = 0;
            while local_x < 4
                invariant
                    local_y < 4,
                    local_x <= 4,
                    reference@.len() == self.source_view().len(),
                    self.block_in_plane(plane, x0 as int, y0 as int),
                    self.block_in_plane(plane, ref_x0 as int, ref_y0 as int),
                    forall|i: int| 0 <= i < 16 && (i / 4 < local_y || (i / 4 == local_y && i % 4 < local_x)) ==> #[trigger] source[i] == self.source_sample_spec(plane, x0 + i % 4, y0 + i / 4),
                    forall|i: int| 0 <= i < 16 && (i / 4 < local_y || (i / 4 == local_y && i % 4 < local_x)) ==> #[trigger] predictor[i] == self.reference_sample_spec(reference@, plane, ref_x0 + i % 4, ref_y0 + i / 4),
                decreases 4 - local_x,
            {
                let index = local_y * 4 + local_x;
                proof {
                    assert(index / 4 == local_y && index % 4 == local_x);
                }
                source[index] = self.source_sample(plane, x0 + local_x, y0 + local_y);
                predictor[index] = self.reference_sample(reference, plane, ref_x0 + local_x, ref_y0 + local_y);
                local_x = local_x + 1;
            }
            local_y = local_y + 1;
        }
        self.finish_txb_analysis(source, predictor)
    }
}

/// What the analysis of a lossy 8x8 leaf keeps: where it lies, how much of
/// it is visible, and its predictor and residual.
#[derive(Clone, Copy, Debug, PartialEq, Eq)]
pub struct Av2LossyTx8x8Analysis {
    pub leaf_x0: usize,
    pub leaf_y0: usize,
    pub visible_width: usize,
    pub visible_height: usize,
    pub predictor: [Av2Sample; 64],
    pub residual: [i32; 64],
}

/// A regular-DCT 8x8 candidate: coded coefficients and reconstructed
/// residual.
#[derive(Clone, Copy, Debug, PartialEq, Eq)]
pub struct Av2LossyTx8x8QuantizedResidualCandidate {
    pub coefficients: [i32; 64],
    pub residual: [i32; 64],
}

/// A regular-DCT 4x8 candidate: coded coefficients and reconstructed
/// residual.
#[derive(Clone, Copy, Debug, PartialEq, Eq)]
pub struct Av2LossyTx4x8QuantizedResidualCandidate {
    pub coefficients: [i32; 32],
    pub residual: [i32; 32],
}

/// Levels of transform coefficients `c` at dequantizer step `step`.
pub open spec fn levels_at_step(c: Seq<int>, step: int) -> Seq<i32> {
    Seq::new(c.len(), |i: int| quantize_level_spec(c[i], step) as i32)
}

/// Dequantized values of levels `q` at step `step`.
pub open spec fn dequantized_at_step(q: Seq<i32>, step: i32) -> Seq<i32> {
    Seq::new(q.len(), |i: int| dequantize_spec(q[i], step) as i32)
}

/// The 8x8 reconstruction of levels `q`: the inverse DCT of the dequantized
/// levels, or the DC-only inverse when every dequantized AC value is zero.
pub open spec fn tx8x8_residual_spec(q: Seq<i32>, step: i32, bits: nat) -> Seq<int> {
    let dq = dequantized_at_step(q, step);
    if forall|i: int| 1 <= i < 64 ==> #[trigger] dq[i] == 0 {
        Seq::new(64, |i: int| idct8x8_dc_sample_spec(dq[0], bits))
    } else {
        idct8x8_spec(dq, bits)
    }
}

/// The left four columns of an 8x8 block, as a 4-wide, 8-tall block.
pub open spec fn left_columns(residual: Seq<i32>) -> Seq<i32> {
    Seq::new(32, |p: int| residual[8 * (p / 4) + p % 4])
}

/// Residual samples within the sample range.
pub open spec fn residual_in_range(residual: Seq<i32>) -> bool {
    forall|i: int| 0 <= i < residual.len() ==> -65535 <= #[trigger] residual[i] <= 65535
}

impl<'a> Av2LossySubsampledTileState<'a> {
    /// The regular-DCT 8x8 candidate of an analysed leaf.
    pub fn regular_dct_quantized_tx8x8_residual_candidate(
        &self,
        analysis: &Av2LossyTx8x8Analysis,
    ) -> (r: Av2LossyTx8x8QuantizedResidualCandidate)
        requires
            residual_in_range(analysis.residual@),
        ensures
            (forall|i: int| 0 <= i < 64 ==> #[trigger] analysis.residual[i] == 0) ==> {
                &&& forall|i: int| 0 <= i < 64 ==> #[trigger] r.coefficients[i] == 0
                &&& forall|i: int| 0 <= i < 64 ==> #[trigger] r.residual[i] == 0
            },
            !(forall|i: int| 0 <= i < 64 ==> #[trigger] analysis.residual[i] == 0) ==> ({
                let step = qlookup_spec(self.base_qindex_view(), self.bit_depth_view()@);
                let q = levels_at_step(fdct8x8_spec(analysis.residual@), step);
                &&& forall|i: int| 0 <= i < 64 ==> #[trigger] r.coefficients[i] == q[i] * 8
                &&& forall|i: int| 0 <= i < 64 ==> #[trigger] r.residual[i] == tx8x8_residual_spec(q, step as i32, self.bit_depth_view()@)[i]
            }),
    {
        let mut all_zero = true;
        let mut i: usize = 0;
        while i < 64
            invariant
                i <= 64,
                all_zero == (forall|k: int| 0 <= k < i ==> #[trigger] analysis.residual[k] == 0),
            decreases 64 - i,
        {
            if analysis.residual[i] != 0 {
                all_zero = false;
            }
            i = i + 1;
        }
        if all_zero {
            return Av2LossyTx8x8QuantizedResidualCandidate { coefficients: [0; 64], residual: [0; 64] };
        }
        let bit_depth = self.bit_depth();
        let ghost step = qlookup_spec(self.base_qindex_view(), bit_depth@);
        proof {
            lemma_fdct8x8_bound(analysis.residual@);
        }
        let coefficients = av2_fdct8x8(&analysis.residual);
        let params = Av2RegularQuantParams::new(self.base_qindex(), bit_depth);
        let (qcoeff, dqcoeff) = av2_regular_quantize_with_params(&coefficients, params);
        let ghost q = levels_at_step(fdct8x8_spec(analysis.residual@), step);
        proof {
            assert(40 <= step <= 78 * 16384) by {
                assert(40 <= params.dequant[0] <= 78 * 16384);
            }
            assert forall|k: int| 0 <= k < 64 implies #[trigger] qcoeff[k] == q[k] && abs_int(qcoeff[k] as int) * step <= 8 * 6_600_000 by {
                let c = fdct8x8_spec(analysis.residual@)[k];
                assert(coefficients[k] == c);
                lemma_quantize_coefficient_by_step(coefficients[k], params, k != 0);
                assert(params.dequant[if k != 0 { 1int } else { 0int }] == step);
                lemma_quantize_level_bound(c, step);
            }
            assert(qcoeff@ =~= q);
            assert(dqcoeff@ =~= dequantized_at_step(q, step as i32));
            let a0 = abs_int(qcoeff[0] as int);
            assert(a0 * step >= 0) by (nonlinear_arith)
                requires
                    a0 >= 0,
                    step >= 40,
            ;
            assert forall|k: int| 0 <= k < 64 implies -0x1000_0000 <= #[trigger] qcoeff[k] <= 0x0fff_ffff by {
                let a = abs_int(qcoeff[k] as int);
                assert(a <= 0x100_0000) by (nonlinear_arith)
                    requires
                        a * step <= 8 * 6_600_000,
                        step >= 40,
                        a >= 0,
                ;
            }
        }
        let mut ac_zero = true;
        let mut k: usize = 1;
        while k < 64
            invariant
                1 <= k <= 64,
                ac_zero == (forall|j: int| 1 <= j < k ==> #[trigger] dqcoeff[j] == 0),
            decreases 64 - k,
        {
            if dqcoeff[k] != 0 {
                ac_zero = false;
            }
            k = k + 1;
        }
        let residual = if ac_zero {
            av2_idct8x8_dc_only(&dqcoeff, bit_depth)
        } else {
            av2_idct8x8(&dqcoeff, bit_depth)
        };
        Av2LossyTx8x8QuantizedResidualCandidate {
            coefficients: av2_regular_quantized_level_coefficients(&qcoeff),
            residual,
        }
    }

    /// The regular-DCT 4x8 candidate of the left four columns of an analysed
    /// leaf.
    pub fn regular_dct_quantized_tx4x8_residual_candidate(
        &self,
        analysis: &Av2LossyTx8x8Analysis,
    ) -> (r: Av2LossyTx4x8QuantizedResidualCandidate)
        requires
            residual_in_range(analysis.residual@),
            analysis.visible_width <= 4,
            analysis.visible_height <= 8,
        ensures
            (forall|i: int| 0 <= i < 64 ==> #[trigger] analysis.residual[i] == 0) ==> {
                &&& forall|i: int| 0 <= i < 32 ==> #[trigger] r.coefficients[i] == 0
                &&& forall|i: int| 0 <= i < 32 ==> #[trigger] r.residual[i] == 0
            },
            !(forall|i: int| 0 <= i < 64 ==> #[trigger] analysis.residual[i] == 0) ==> ({
                let step = qlookup_spec(self.base_qindex_view(), self.bit_depth_view()@);
                let q = levels_at_step(fdct4x8_spec(left_columns(analysis.residual@)), step);
                &&& forall|i: int| 0 <= i < 32 ==> #[trigger] r.coefficients[i] == q[i] * 8
                &&& forall|i: int| 0 <= i < 32 ==> #[trigger] r.residual[i] == idct4x8_spec(dequantized_at_step(q, step as i32), self.bit_depth_view()@)[i]
            }),
    {
        let mut all_zero = true;
        let mut i: usize = 0;
        while i < 64
            invariant
                i <= 64,
                all_zero == (forall|k: int| 0 <= k < i ==> #[trigger] analysis.residual[k] == 0),
            decreases 64 - i,
        {
            if analysis.residual[i] != 0 {
                all_zero = false;
            }
            i = i + 1;
        }
        if all_zero {
            return Av2LossyTx4x8QuantizedResidualCandidate { coefficients: [0; 32], residual: [0; 32] };
        }
        let mut residual = [0i32; 32];
        let mut local_y: usize = 0;
        while local_y < 8
            invariant
                local_y <= 8,
                forall|p: int| 0 <= p < 32 && p / 4 < local_y ==> #[trigger] residual[p] == analysis.residual[8 * (p / 4) + p % 4],
            decreases 8 - local_y,
        {
            let mut local_x: usize = 0;
            while local_x < 4
                invariant
                    local_y < 8,
                    local_x <= 4,
                    forall|p: int| 0 <= p < 32 && (p / 4 < local_y || (p / 4 == local_y && p % 4 < local_x)) ==> #[trigger] residual[p] == analysis.residual[8 * (p / 4) + p % 4],
                decreases 4 - local_x,
            {
                proof {
                    let p = (local_y * 4 + local_x) as int;
                    assert(p / 4 == local_y && p % 4 == local_x);
                }
                residual[local_y * 4 + local_x] = analysis.residual[local_y * 8 + local_x];
                local_x = local_x + 1;
            }
            local_y = local_y + 1;
        }
        let bit_depth = self.bit_depth();
        let ghost step = qlookup_spec(self.base_qindex_view(), bit_depth@);
        proof {
            assert(residual@ =~= left_columns(analysis.residual@));
            assert forall|p: int| 0 <= p < 32 implies -65535 <= #[trigger] residual@[p] <= 65535 by {
                assert(0 <= 8 * (p / 4) + p % 4 < 64);
            }
            lemma_fdct4x8_bound(residual@);
        }
        let coefficients = av2_fdct4x8(&residual);
        let params = Av2RegularQuantParams::new(self.base_qindex(), bit_depth);
        let (qcoeff, dqcoeff) = av2_regular_quantize_with_params(&coefficients, params);
        let ghost q = levels_at_step(fdct4x8_spec(residual@), step);
        proof {
            assert(40 <= step <= 78 * 16384) by {
                assert(40 <= params.dequant[0] <= 78 * 16384);
            }
            assert forall|k: int| 0 <= k < 32 implies #[trigger] qcoeff[k] == q[k] && abs_int(qcoeff[k] as int) * step <= 8 * 3_200_000 by {
                let c = fdct4x8_spec(residual@)[k];
                assert(coefficients[k] == c);
                lemma_quantize_coefficient_by_step(coefficients[k], params, k != 0);
                assert(params.dequant[if k != 0 { 1int } else { 0int }] == step);
                lemma_quantize_level_bound(c, step);
            }
            assert(qcoeff@ =~= q);
            assert(dqcoeff@ =~= dequantized_at_step(q, step as i32));
            assert forall|k: int| 0 <= k < 32 implies -0x1000_0000 <= #[trigger] qcoeff[k] <= 0x0fff_ffff by {
                let a = abs_int(qcoeff[k] as int);
                assert(a <= 0x100_0000) by (nonlinear_arith)
                    requires
                        a * step <= 8 * 3_200_000,
                        step >= 40,
                        a >= 0,
                ;
            }
        }
        Av2LossyTx4x8QuantizedResidualCandidate {
            coefficients: av2_regular_quantized_level_coefficients(&qcoeff),
            residual: av2_idct4x8(&dqcoeff, bit_depth),
        }
    }
}

} // verus!
