use vstd::prelude::*;
use crate::geometry::TX4X4_SIZE;
use crate::high_range::Av2CoefficientCodingKind;
use crate::lossy_candidates::dc_delta_spec;
use crate::lossy_candidates::residual_sum;
use crate::lossy_metrics::clamp_i32;
use crate::lossy_metrics::dc_sse_sum;
use crate::lossy_metrics::lossy_dc_delta_quant_step;
use crate::lossy_metrics::lossy_txb_score;
use crate::lossy_metrics::lossy_txb_score_spec;
use crate::lossy_metrics::txb_dc_recon_distortion_with_source_variance;
use crate::lossy_metrics::usize_sat;
use crate::lossy_state::Av2LossyLeafPredictorContext;
use crate::lossy_state::Av2LossyPlane;
use crate::lossy_state::Av2LossyEdgeSource;
use crate::lossy_state::Av2LossyTxbAnalysis;
use crate::lossy_metrics::txb_source_variance;
use crate::lossy_metrics::variance_spec;
use crate::lossy_state::Av2LossySubsampledTileState;
use crate::mode_scores::add_residual_sample_proxy_score;
use crate::mode_scores::magnitude_scale_spec;
use crate::mode_scores::residual_cost_sum;
use crate::mode_scores::residual_sample_proxy_magnitude_scale;
use crate::mode_scores::residual_sample_cost_spec;
use crate::coefficient_contexts::min_int;
use crate::prediction_edges::above_left_from_edges_spec;
use crate::prediction_edges::h_from_edges_spec;
use crate::prediction_edges::paeth_predictor;
use crate::prediction_edges::paeth_spec;
use crate::prediction_edges::v_from_edges_spec;
use crate::residual_math::lemma_quantize_to_step_bound;
use crate::residual_math::quantize_i32_to_step;
use crate::residual_math::round_div_i32;
use crate::sample::Av2Sample;
use crate::sample::max_sample_spec;

verus! {

/// Source samples of the 4x4 block at `(x0, y0)` in raster order.
pub open spec fn block_source_spec(lossy: &Av2LossySubsampledTileState, plane: Av2LossyPlane, x0: int, y0: int) -> Seq<Av2Sample> {
    Seq::new(16, |p: int| lossy.source_sample_spec(plane, x0 + p % 4, y0 + p / 4) as Av2Sample)
}

/// Horizontal prediction of row `local_y` of the 4x4 block at `(x0, y0)`
/// while scoring a leaf.
pub open spec fn h_score_spec(
    lossy: &Av2LossySubsampledTileState,
    plane: Av2LossyPlane,
    x0: int,
    y0: int,
    context: Av2LossyLeafPredictorContext,
    local_y: int,
) -> int {
    h_from_edges_spec(
        lossy.bit_depth_view(),
        lossy.plane_spec(plane).origin_x as int,
        lossy.plane_spec(plane).origin_y as int,
        x0,
        y0,
        local_y,
        &lossy.edges_view(plane, context.score_source(), None),
    )
}

/// Vertical prediction of column `local_x` of the 4x4 block at `(x0, y0)`
/// while scoring a leaf.
pub open spec fn v_score_spec(
    lossy: &Av2LossySubsampledTileState,
    plane: Av2LossyPlane,
    x0: int,
    y0: int,
    context: Av2LossyLeafPredictorContext,
    local_x: int,
) -> int {
    v_from_edges_spec(
        lossy.bit_depth_view(),
        lossy.plane_spec(plane).origin_x as int,
        lossy.plane_spec(plane).origin_y as int,
        x0,
        y0,
        local_x,
        &lossy.edges_view(plane, context.score_source(), None),
    )
}

/// Above-left corner prediction of the 4x4 block at `(x0, y0)` while
/// scoring a leaf.
pub open spec fn above_left_score_spec(
    lossy: &Av2LossySubsampledTileState,
    plane: Av2LossyPlane,
    x0: int,
    y0: int,
    context: Av2LossyLeafPredictorContext,
) -> int {
    above_left_from_edges_spec(
        lossy.bit_depth_view(),
        lossy.plane_spec(plane).origin_x as int,
        lossy.plane_spec(plane).origin_y as int,
        x0,
        y0,
        &lossy.edges_view(plane, context.score_source(), None),
    )
}

/// Paeth prediction of sample `p` (raster order) of the 4x4 block at
/// `(x0, y0)` while scoring a leaf: from the horizontal and vertical
/// predictions of its row and column and the block's above-left corner.
pub open spec fn paeth_for_score_spec(
    lossy: &Av2LossySubsampledTileState,
    plane: Av2LossyPlane,
    x0: int,
    y0: int,
    context: Av2LossyLeafPredictorContext,
    p: int,
) -> int {
    paeth_spec(
        h_score_spec(lossy, plane, x0, y0, context, p / 4),
        v_score_spec(lossy, plane, x0, y0, context, p % 4),
        above_left_score_spec(lossy, plane, x0, y0, context),
    )
}

/// Paeth predictions of the 4x4 block at `(x0, y0)` in raster order.
pub open spec fn paeth_block_spec(
    lossy: &Av2LossySubsampledTileState,
    plane: Av2LossyPlane,
    x0: int,
    y0: int,
    context: Av2LossyLeafPredictorContext,
) -> Seq<Av2Sample> {
    Seq::new(16, |p: int| paeth_for_score_spec(lossy, plane, x0, y0, context, p) as Av2Sample)
}

/// Rate-distortion score of Paeth prediction of a 4x4 block: 16 plus the
/// residual samples' proxy costs as rate, and as distortion the squared
/// error left after a DC-only correction of the prediction.
pub open spec fn paeth_score_spec(
    lossy: &Av2LossySubsampledTileState,
    plane: Av2LossyPlane,
    x0: int,
    y0: int,
    context: Av2LossyLeafPredictorContext,
    kind: Av2CoefficientCodingKind,
) -> int {
    let src = block_source_spec(lossy, plane, x0, y0);
    let pred = paeth_block_spec(lossy, plane, x0, y0, context);
    let residual = Seq::new(16, |p: int| (src[p] - pred[p]) as i32);
    let bits = lossy.bit_depth_view()@;
    let quant_step = lossy.quant_step_spec();
    lossy_txb_score_spec(
        16 + residual_cost_sum(residual, magnitude_scale_spec(kind), 16),
        usize_sat(dc_sse_sum(src, pred, dc_delta_spec(src, pred, bits, quant_step), max_sample_spec(bits), 16)),
        0,
        quant_step as i32,
    )
}

/// BDPCM prediction of sample `p` (raster order) of the 4x4 block at
/// `(x0, y0)`: along each row (horizontal) the source sample to the left,
/// the first column from the reconstructed left edge; along each column
/// (vertical) the source sample above, the first row from the
/// reconstructed upper edge.
pub open spec fn dpcm_predictor_spec(lossy: &Av2LossySubsampledTileState, plane: Av2LossyPlane, x0: int, y0: int, horz: bool, p: int) -> int {
    let e = lossy.edges_view(plane, Av2LossyEdgeSource::Recon, None);
    let ox = lossy.plane_spec(plane).origin_x as int;
    let oy = lossy.plane_spec(plane).origin_y as int;
    if horz {
        if p % 4 == 0 {
            h_from_edges_spec(lossy.bit_depth_view(), ox, oy, x0, y0, p / 4, &e)
        } else {
            block_source_spec(lossy, plane, x0, y0)[p - 1] as int
        }
    } else if p / 4 == 0 {
        v_from_edges_spec(lossy.bit_depth_view(), ox, oy, x0, y0, p % 4, &e)
    } else {
        block_source_spec(lossy, plane, x0, y0)[p - 4] as int
    }
}

/// `a` is the BDPCM analysis of the 4x4 block at `(x0, y0)`: its source,
/// BDPCM predictions, residual and source variance, with no DC correction.
pub open spec fn is_dpcm_analysis(
    lossy: &Av2LossySubsampledTileState,
    plane: Av2LossyPlane,
    x0: int,
    y0: int,
    horz: bool,
    a: Av2LossyTxbAnalysis,
) -> bool {
    &&& a.source@ == block_source_spec(lossy, plane, x0, y0)
    &&& forall|p: int| 0 <= p < 16 ==> #[trigger] a.predictor[p] as int == dpcm_predictor_spec(lossy, plane, x0, y0, horz, p)
    &&& forall|p: int| 0 <= p < 16 ==> #[trigger] a.residual[p] == a.source[p] - a.predictor[p]
    &&& a.delta == 0
    &&& a.dc_sse == 0
    &&& a.dc_variance_loss == 0
    &&& a.source_variance == variance_spec(Seq::new(16, |i: int| a.source[i] as i32))
}

impl<'a> Av2LossySubsampledTileState<'a> {
    /// Rate-distortion score of predicting the 4x4 block at `(x0, y0)` with
    /// Paeth while scoring a leaf.
    #[verifier::rlimit(40)]
    pub fn paeth_txb_score_for_score(
        &self,
        plane: Av2LossyPlane,
        x0: usize,
        y0: usize,
        context: Av2LossyLeafPredictorContext,
        kind: Av2CoefficientCodingKind,
    ) -> (r: usize)
        requires
            self.block_in_plane(plane, x0 as int, y0 as int),
            context.ok(),
        ensures
            r == paeth_score_spec(self, plane, x0 as int, y0 as int, context, kind),
    {
        let ghost src = block_source_spec(self, plane, x0 as int, y0 as int);
        let ghost pred = paeth_block_spec(self, plane, x0 as int, y0 as int, context);
        let ghost residual_seq = Seq::new(16, |p: int| (src[p] - pred[p]) as i32);
        let bit_depth = self.bit_depth();
        let mut source: [Av2Sample; 16] = [0; 16];
        let mut predictor: [Av2Sample; 16] = [0; 16];
        let mut score: usize = 16;
        let mut sum: i32 = 0;
        let mut h_pred: [Av2Sample; 4] = [0; 4];
        let mut v_pred: [Av2Sample; 4] = [0; 4];
        let mut index: usize = 0;
        while index < TX4X4_SIZE
            invariant
                index <= 4,
                self.block_in_plane(plane, x0 as int, y0 as int),
                context.ok(),
                forall|i: int| 0 <= i < index ==> #[trigger] h_pred[i] as int == h_score_spec(self, plane, x0 as int, y0 as int, context, i),
                forall|i: int| 0 <= i < index ==> #[trigger] v_pred[i] as int == v_score_spec(self, plane, x0 as int, y0 as int, context, i),
            decreases 4 - index,
        {
            h_pred[index] = self.h_predictor_for_score(plane, x0, y0, index, context);
            v_pred[index] = self.v_predictor_for_score(plane, x0, y0, index, context);
            index = index + 1;
        }
        let above_left = self.above_left_predictor_for_score(plane, x0, y0, context);
        let magnitude_scale = residual_sample_proxy_magnitude_scale(kind);
        let mut local_y: usize = 0;
        while local_y < TX4X4_SIZE
            invariant
                local_y <= 4,
                self.block_in_plane(plane, x0 as int, y0 as int),
                magnitude_scale == magnitude_scale_spec(kind),
                src == block_source_spec(self, plane, x0 as int, y0 as int),
                pred == paeth_block_spec(self, plane, x0 as int, y0 as int, context),
                residual_seq == Seq::new(16, |p: int| (src[p] - pred[p]) as i32),
                forall|i: int| 0 <= i < 4 ==> #[trigger] h_pred[i] as int == h_score_spec(self, plane, x0 as int, y0 as int, context, i),
                forall|i: int| 0 <= i < 4 ==> #[trigger] v_pred[i] as int == v_score_spec(self, plane, x0 as int, y0 as int, context, i),
                above_left as int == above_left_score_spec(self, plane, x0 as int, y0 as int, context),
                forall|i: int| 0 <= i < local_y * 4 ==> #[trigger] source[i] == src[i],
                forall|i: int| 0 <= i < local_y * 4 ==> #[trigger] predictor[i] == pred[i],
                score == 16 + residual_cost_sum(residual_seq, magnitude_scale as int, local_y * 4),
                score <= 16 + 1100 * local_y * 4,
                sum == residual_sum(src, pred, local_y * 4),
                -65535 * local_y * 4 <= sum <= 65535 * local_y * 4,
            decreases 4 - local_y,
        {
            let mut local_x: usize = 0;
            while local_x < TX4X4_SIZE
                invariant
                    local_y < 4,
                    local_x <= 4,
                    self.block_in_plane(plane, x0 as int, y0 as int),
                    magnitude_scale == magnitude_scale_spec(kind),
                    src == block_source_spec(self, plane, x0 as int, y0 as int),
                    pred == paeth_block_spec(self, plane, x0 as int, y0 as int, context),
                    residual_seq == Seq::new(16, |p: int| (src[p] - pred[p]) as i32),
                    forall|i: int| 0 <= i < 4 ==> #[trigger] h_pred[i] as int == h_score_spec(self, plane, x0 as int, y0 as int, context, i),
                    forall|i: int| 0 <= i < 4 ==> #[trigger] v_pred[i] as int == v_score_spec(self, plane, x0 as int, y0 as int, context, i),
                    above_left as int == above_left_score_spec(self, plane, x0 as int, y0 as int, context),
                    forall|i: int| 0 <= i < local_y * 4 + local_x ==> #[trigger] source[i] == src[i],
                    forall|i: int| 0 <= i < local_y * 4 + local_x ==> #[trigger] predictor[i] == pred[i],
                    score == 16 + residual_cost_sum(residual_seq, magnitude_scale as int, local_y * 4 + local_x),
                    score <= 16 + 1100 * (local_y * 4 + local_x),
                    sum == residual_sum(src, pred, local_y * 4 + local_x),
                    -65535 * (local_y * 4 + local_x) <= sum <= 65535 * (local_y * 4 + local_x),
                decreases 4 - local_x,
            {
                let index = local_y * TX4X4_SIZE + local_x;
                let ghost p = index as int;
                proof {
                    assert(p % 4 == local_x as int && p / 4 == local_y as int);
                }
                let sample = self.source_sample(plane, x0 + local_x, y0 + local_y) as i32;
                let paeth = paeth_predictor(h_pred[local_y], v_pred[local_x], above_left) as i32;
                let diff = sample - paeth;
                proof {
                    assert(src[p] == sample);
                    assert(pred[p] == paeth);
                    assert(residual_seq[p] == diff);
                    let level = if diff < 0 { -(diff as int) } else { diff as int };
                    let capped = min_int(level, 255);
                    assert(0 <= capped * magnitude_scale <= 1020) by (nonlinear_arith)
                        requires
                            0 <= capped <= 255,
                            0 <= magnitude_scale <= 4,
                    ;
                    assert(residual_sample_cost_spec(diff, magnitude_scale as int) <= 1100);
                }
                source[index] = sample as Av2Sample;
                predictor[index] = paeth as Av2Sample;
                sum = sum + diff;
                add_residual_sample_proxy_score(&mut score, diff, magnitude_scale);
                local_x = local_x + 1;
            }
            local_y = local_y + 1;
        }
        proof {
            assert(source@ =~= src);
            assert(predictor@ =~= pred);
        }
        let average = round_div_i32(sum, 16);
        let max_delta = bit_depth.max_sample() as i32;
        let step = lossy_dc_delta_quant_step(self.quant_step());
        proof {
            lemma_quantize_to_step_bound(average as int, step as int);
            assert(max_sample_spec(bit_depth@) <= 4095) by {
                vstd::arithmetic::power2::lemma2_to64();
            }
        }
        let delta = clamp_i32(quantize_i32_to_step(average, step), -max_delta, max_delta);
        let (sse, _) = txb_dc_recon_distortion_with_source_variance(&source, &predictor, delta as i16, bit_depth, 0);
        lossy_txb_score(score, sse, 0, self.quant_step())
    }

    /// Analysis of the 4x4 block at `(x0, y0)` under BDPCM prediction: its
    /// source, predictions, residual and source variance; BDPCM blocks carry
    /// no DC correction.
    pub fn analyze_dpcm_txb(&self, plane: Av2LossyPlane, x0: usize, y0: usize, horz: bool) -> (r: Av2LossyTxbAnalysis)
        requires
            self.block_in_plane(plane, x0 as int, y0 as int),
        ensures
            is_dpcm_analysis(self, plane, x0 as int, y0 as int, horz, r),
    {
        let ghost src = block_source_spec(self, plane, x0 as int, y0 as int);
        let mut source: [Av2Sample; 16] = [0; 16];
        let mut predictor: [Av2Sample; 16] = [0; 16];
        let mut residual: [i32; 16] = [0; 16];
        let mut local_y: usize = 0;
        while local_y < TX4X4_SIZE
            invariant
                local_y <= 4,
                self.block_in_plane(plane, x0 as int, y0 as int),
                src == block_source_spec(self, plane, x0 as int, y0 as int),
                forall|i: int| 0 <= i < local_y * 4 ==> #[trigger] source[i] == src[i],
                forall|i: int|
                    0 <= i < local_y * 4 ==> #[trigger] predictor[i] as int == dpcm_predictor_spec(self, plane, x0 as int, y0 as int, horz, i),
                forall|i: int| 0 <= i < local_y * 4 ==> #[trigger] residual[i] == source[i] - predictor[i],
            decreases 4 - local_y,
        {
            let mut local_x: usize = 0;
            while local_x < TX4X4_SIZE
                invariant
                    local_y < 4,
                    local_x <= 4,
                    self.block_in_plane(plane, x0 as int, y0 as int),
                    src == block_source_spec(self, plane, x0 as int, y0 as int),
                    forall|i: int| 0 <= i < local_y * 4 + local_x ==> #[trigger] source[i] == src[i],
                    forall|i: int|
                        0 <= i < local_y * 4 + local_x ==> #[trigger] predictor[i] as int == dpcm_predictor_spec(
                            self,
                            plane,
                            x0 as int,
                            y0 as int,
                            horz,
                            i,
                        ),
                    forall|i: int| 0 <= i < local_y * 4 + local_x ==> #[trigger] residual[i] == source[i] - predictor[i],
                decreases 4 - local_x,
            {
                let index = local_y * TX4X4_SIZE + local_x;
                let ghost p = index as int;
                proof {
                    assert(p % 4 == local_x as int && p / 4 == local_y as int);
                }
                let sample = self.source_sample(plane, x0 + local_x, y0 + local_y);
                let pred = if horz {
                    if local_x == 0 {
                        self.h_predictor(plane, x0, y0, local_y)
                    } else {
                        source[index - 1]
                    }
                } else if local_y == 0 {
                    self.v_predictor(plane, x0, y0, local_x)
                } else {
                    source[index - TX4X4_SIZE]
                };
                proof {
                    assert(src[p] == sample);
                    assert(pred as int == dpcm_predictor_spec(self, plane, x0 as int, y0 as int, horz, p));
                }
                source[index] = sample;
                predictor[index] = pred;
                residual[index] = sample as i32 - pred as i32;
                local_x = local_x + 1;
            }
            local_y = local_y + 1;
        }
        proof {
            assert(source@ =~= src);
        }
        let source_variance = txb_source_variance(&source);
        Av2LossyTxbAnalysis {
            source,
            predictor,
            residual,
            delta: 0,
            dc_sse: 0,
            dc_variance_loss: 0,
            source_variance,
        }
    }
}

} // verus!
