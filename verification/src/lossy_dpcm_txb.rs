use vstd::prelude::*;
use crate::coefficient_levels::levels_spec;
use crate::entropy::Av2EntropyWriter;
use crate::entropy::fields_appended;
use crate::geometry::TX4X4_SCAN;
use crate::high_range::Av2CoefficientCodingKind;
use crate::lossy_candidates::Av2LossyQuantizedResidualCandidate;
use crate::lossy_candidates::Av2LossyResidualCandidateKind;
use crate::lossy_candidates::Av2LossyTxbChoice;
use crate::lossy_candidates::dpcm_distortion_is;
use crate::lossy_candidates::residual_coefficients_are;
use crate::lossy_candidates::transform_candidate_is;
use crate::lossy_metrics::lossy_max_txb_sse;
use crate::lossy_metrics::lossy_quality_rd_quant_step;
use crate::lossy_metrics::lossy_should_try_refined_ac_quantized;
use crate::lossy_metrics::refined_lossy_quant_step;
use crate::lossy_metrics::step_sq_16;
use crate::lossy_recon::block_samples_fit;
use crate::lossy_recon::block_written;
use crate::lossy_recon::dpcm_recon_block_spec;
use crate::lossy_scoring::is_dpcm_analysis;
use crate::lossy_selection::choose_lossy_spec;
use crate::lossy_selection::choose_lossy_txb;
use crate::lossy_selection::lemma_choose_lossy_without_dc;
use crate::lossy_state::Av2LossyPlane;
use crate::lossy_state::Av2LossySubsampledTileState;
use crate::lossy_state::Av2LossyTxbAnalysis;
use crate::residual_math::quantize_to_step_spec;
use crate::sample::bytes_per_sample_spec;
use crate::sample::max_sample_spec;
use crate::txb_chroma::level_sum_from;
use crate::txb_luma::Av2LumaTxbSyntaxPolicy;
use crate::txb_luma::luma_txb_fields;
use crate::txb_luma::tx4x4_txb_result;
use crate::txb_luma::write_luma_palette_residual_txb;
use crate::txb_skip::AV2_STATIC_CDF_TXB_SKIP_Y_BASE;
use crate::txb_skip::normalize_spec;
use crate::txb_skip::skip_written;
use crate::txb_skip::write_y_txb_all_zero;
use crate::txb_skip::y_skip_names;
use crate::txb_skip::u_skip_names;
use crate::txb_skip::v_skip_names;
use crate::txb_skip::write_u_txb_all_zero;
use crate::txb_skip::write_v_txb_all_zero;
use crate::txb_skip::AV2_STATIC_CDF_TXB_SKIP_U_BASE;
use crate::txb_skip::AV2_STATIC_CDF_TXB_SKIP_V_BASE;
use crate::txb_chroma::Av2ChromaTxbGeometry;
use crate::txb_chroma::chroma_txb_fields;
use crate::txb_chroma::chroma_txb_result;
use crate::txb_chroma::write_chroma_bdpcm_txb;
use crate::sample::Av2ChromaPlane;
use crate::walsh_hadamard::fwht4x4_spec;
use crate::walsh_hadamard::lemma_fwht4x4_bound;
use crate::walsh_hadamard::tx4x4_coefficients_from_residual;
use crate::walsh_hadamard::tx4x4_residual_is_zero;

verus! {

/// Step of the refined spatial candidate: a quarter of the quantizer step,
/// at least 1.
pub open spec fn refined_step_spec(quant_step: int) -> int {
    if quant_step / 4 >= 1 {
        quant_step / 4
    } else {
        1
    }
}

/// Whether the refined spatial candidate is tried: its step is finer than
/// the quantizer step and the first candidate's squared error reaches
/// `16 * step^2 / 8`.
pub open spec fn refined_tried_spec(quantized_sse: usize, quant_step: int) -> bool {
    !(refined_step_spec(quant_step) >= quant_step) && quantized_sse >= step_sq_16(quant_step as i32) / 8
}

/// `c` is the spatial candidate of a BDPCM block at `step`: the residual
/// quantized to multiples of the step, its Walsh-Hadamard coefficients, and
/// the distortion of its BDPCM reconstruction.
pub open spec fn dpcm_quantized_candidate_is(
    lossy: &Av2LossySubsampledTileState,
    a: Av2LossyTxbAnalysis,
    step: int,
    horz: bool,
    c: Av2LossyQuantizedResidualCandidate,
) -> bool {
    &&& forall|i: int| 0 <= i < 16 ==> -0x40_0000 <= #[trigger] c.residual[i] <= 0x40_0000
    &&& forall|i: int| 0 <= i < 16 ==> #[trigger] c.residual[i] == quantize_to_step_spec(a.residual[i] as int, step)
    &&& residual_coefficients_are(c.coefficients@, c.residual@, false)
    &&& dpcm_distortion_is(a, c.residual@, horz, max_sample_spec(lossy.bit_depth_view()@), c.sse, c.variance_loss)
    &&& c.kind == (if step < lossy.quant_step_spec() {
        Av2LossyResidualCandidateKind::RefinedSpatial
    } else {
        Av2LossyResidualCandidateKind::Spatial
    })
}

/// `c` is the transform candidate of a BDPCM block: the residual of its
/// quantized Walsh-Hadamard coefficients, and the distortion of its BDPCM
/// reconstruction.
pub open spec fn dpcm_transform_candidate_is(
    lossy: &Av2LossySubsampledTileState,
    a: Av2LossyTxbAnalysis,
    horz: bool,
    c: Av2LossyQuantizedResidualCandidate,
) -> bool {
    &&& forall|i: int| 0 <= i < 16 ==> -0x40_0000 <= #[trigger] c.residual[i] <= 0x40_0000
    &&& exists|coefficients: Seq<i32>| #[trigger] transform_candidate_is(a, lossy.quant_step_spec(), coefficients, c.residual@)
    &&& residual_coefficients_are(c.coefficients@, c.residual@, false)
    &&& dpcm_distortion_is(a, c.residual@, horz, max_sample_spec(lossy.bit_depth_view()@), c.sse, c.variance_loss)
    &&& c.kind == Av2LossyResidualCandidateKind::Transform
}

/// The candidates a BDPCM block offers: the spatial one at the quantizer
/// step, the spatial one at the refined step when that is tried, and the
/// transform one.
pub open spec fn dpcm_candidates_are(
    lossy: &Av2LossySubsampledTileState,
    a: Av2LossyTxbAnalysis,
    horz: bool,
    quantized: Av2LossyQuantizedResidualCandidate,
    refined: Option<Av2LossyQuantizedResidualCandidate>,
    transform: Av2LossyQuantizedResidualCandidate,
) -> bool {
    let quant_step = lossy.quant_step_spec();
    &&& dpcm_quantized_candidate_is(lossy, a, quant_step, horz, quantized)
    &&& if refined_tried_spec(quantized.sse, quant_step) {
        refined matches Some(r) && dpcm_quantized_candidate_is(lossy, a, refined_step_spec(quant_step), horz, r)
    } else {
        refined is None
    }
    &&& dpcm_transform_candidate_is(lossy, a, horz, transform)
}

/// Walsh-Hadamard coefficients of an analysed residual.
pub open spec fn exact_coefficients_spec(a: Av2LossyTxbAnalysis) -> Seq<i32> {
    Seq::new(16, |i: int| fwht4x4_spec(a.residual@.map_values(|v: i32| v as int))[i] as i32)
}

/// Whether every residual sample is zero.
pub open spec fn residual_is_zero(residual: Seq<i32>) -> bool {
    forall|i: int| 0 <= i < 16 ==> #[trigger] residual[i] == 0
}

/// The choice among exact coding and the AC candidates of a BDPCM block
/// (BDPCM offers no DC delta).
pub open spec fn dpcm_choice_spec(
    lossy: &Av2LossySubsampledTileState,
    a: Av2LossyTxbAnalysis,
    kind: Av2CoefficientCodingKind,
    quantized: Av2LossyQuantizedResidualCandidate,
    refined: Option<Av2LossyQuantizedResidualCandidate>,
    transform: Av2LossyQuantizedResidualCandidate,
) -> Av2LossyTxbChoice {
    let quant_step = lossy.quant_step_spec();
    choose_lossy_spec(
        a.delta,
        a.residual@,
        exact_coefficients_spec(a),
        kind,
        (if quant_step / 16 >= 1 {
            quant_step / 16
        } else {
            1
        }) as i32,
        (step_sq_16(quant_step as i32) / 9) as usize,
        a.dc_sse,
        a.dc_variance_loss,
        Some(quantized),
        refined,
        Some(transform),
        false,
    )
}

/// What a lossy luma block writes: the all-zero flag for a zero residual,
/// else the luma syntax of `coefficients`; `r` is the block's entropy
/// context.
pub open spec fn luma_dpcm_written(
    w0: Av2EntropyWriter,
    w1: Av2EntropyWriter,
    skip_ctx: u8,
    dc_sign_ctx: u8,
    coefficients: Seq<i32>,
    zero: bool,
    r: u8,
) -> bool {
    if zero {
        &&& skip_written(
            w0,
            w1,
            y_skip_names(normalize_spec(skip_ctx, 1, 5, 5)),
            AV2_STATIC_CDF_TXB_SKIP_Y_BASE + normalize_spec(skip_ctx, 1, 5, 5),
            true,
        )
        &&& r == 0
    } else {
        &&& fields_appended(w0, w1, luma_txb_fields(Av2LumaTxbSyntaxPolicy::Intra, skip_ctx, dc_sign_ctx, coefficients))
        &&& r as int == tx4x4_txb_result(coefficients).0
    }
}

/// Coefficients of a residual bounded by `2^22` have levels whose scan sum
/// fits 32 bits.
proof fn lemma_residual_levels_fit(residual: Seq<i32>, coefficients: Seq<i32>)
    requires
        residual.len() == 16,
        coefficients.len() == 16,
        forall|i: int| 0 <= i < 16 ==> -0x40_0000 <= #[trigger] residual[i] <= 0x40_0000,
        forall|i: int| 0 <= i < 16 ==> #[trigger] coefficients[i] == fwht4x4_spec(residual.map_values(|v: i32| v as int))[i],
    ensures
        level_sum_from(levels_spec(coefficients), TX4X4_SCAN@, 0, 16) <= u32::MAX,
{
    let x = residual.map_values(|v: i32| v as int);
    assert forall|i: int| 0 <= i < 16 implies -0x40_0000 <= #[trigger] x[i] <= 0x40_0000 by {
        assert(x[i] == residual[i] as int);
    }
    lemma_fwht4x4_bound(x, 0x40_0000);
    let levels = levels_spec(coefficients);
    assert forall|i: int| 0 <= i < 16 implies #[trigger] levels[i] <= 0x110_0000 by {
        assert(-(32 * 0x40_0000 + 24) <= fwht4x4_spec(x)[i] <= 32 * 0x40_0000 + 24);
    }
    assert(forall|i: int| 0 <= i < 16 ==> TX4X4_SCAN@[i] < 16);
    lemma_level_sum_bounded(levels, TX4X4_SCAN@, 0, 16, 0x110_0000);
}

/// A scan sum of levels each at most `m` is at most `m` per position.
proof fn lemma_level_sum_bounded(levels: Seq<u32>, scan: Seq<usize>, lo: int, hi: int, m: int)
    requires
        0 <= lo <= hi <= scan.len(),
        forall|i: int| lo <= i < hi ==> #[trigger] scan[i] < levels.len(),
        forall|i: int| 0 <= i < levels.len() ==> #[trigger] levels[i] <= m,
    ensures
        level_sum_from(levels, scan, lo, hi) <= (hi - lo) * m,
    decreases hi - lo,
{
    if lo < hi {
        lemma_level_sum_bounded(levels, scan, lo + 1, hi, m);
        let k = scan[lo] as int;
        assert(scan[lo] < levels.len());
        assert(levels[k] <= m);
        assert(level_sum_from(levels, scan, lo, hi) == levels[k] + level_sum_from(levels, scan, lo + 1, hi));
        assert((hi - lo) * m == m + (hi - (lo + 1)) * m) by (nonlinear_arith);
    } else {
        assert((hi - lo) * m == 0) by (nonlinear_arith)
            requires
                hi == lo,
        ;
    }
}

/// Writes a lossy luma block coded with BDPCM and reconstructs it: the
/// block is analysed along `horz`, coded exactly or with the AC candidate
/// that scores best, and the chosen coding's reconstruction is stored.
/// Returns the block's entropy context.
pub fn write_lossy_luma_dpcm_txb(
    writer: &mut Av2EntropyWriter,
    skip_ctx: u8,
    dc_sign_ctx: u8,
    lossy: &mut Av2LossySubsampledTileState,
    x0: usize,
    y0: usize,
    horz: bool,
) -> (r: u8)
    requires
        dc_sign_ctx <= 2,
        old(lossy).block_in_plane(Av2LossyPlane::Y, x0 as int, y0 as int),
        old(lossy).quant_step_spec() >= 1,
    ensures
        exists|
            a: Av2LossyTxbAnalysis,
            quantized: Av2LossyQuantizedResidualCandidate,
            refined: Option<Av2LossyQuantizedResidualCandidate>,
            transform: Av2LossyQuantizedResidualCandidate,
        |
            #[trigger] dpcm_candidates_are(old(lossy), a, horz, quantized, refined, transform) && is_dpcm_analysis(
                old(lossy),
                Av2LossyPlane::Y,
                x0 as int,
                y0 as int,
                horz,
                a,
            ) && match dpcm_choice_spec(old(lossy), a, Av2CoefficientCodingKind::LumaTransform, quantized, refined, transform) {
                Av2LossyTxbChoice::Exact => luma_dpcm_written(
                    *old(writer),
                    *final(writer),
                    skip_ctx,
                    dc_sign_ctx,
                    exact_coefficients_spec(a),
                    residual_is_zero(a.residual@),
                    r,
                ) && block_written(old(lossy), final(lossy), Av2LossyPlane::Y, x0 as int, y0 as int, a.source@),
                Av2LossyTxbChoice::QuantizedResidual(c) => luma_dpcm_written(
                    *old(writer),
                    *final(writer),
                    skip_ctx,
                    dc_sign_ctx,
                    c.coefficients@,
                    residual_is_zero(c.residual@),
                    r,
                ) && block_written(
                    old(lossy),
                    final(lossy),
                    Av2LossyPlane::Y,
                    x0 as int,
                    y0 as int,
                    dpcm_recon_block_spec(a, c.residual@, horz, max_sample_spec(old(lossy).bit_depth_view()@)),
                ),
                Av2LossyTxbChoice::DcDelta(_) => false,
            },
{
    let plane = Av2LossyPlane::Y;
    let ghost start = *lossy;
    let analysis = lossy.analyze_dpcm_txb(plane, x0, y0, horz);
    proof {
        assert forall|i: int| 0 <= i < 16 implies -0x40_0000 <= #[trigger] analysis.residual[i] <= 0x40_0000 by {
            assert(analysis.residual[i] == analysis.source[i] - analysis.predictor[i]);
        }
    }
    let coefficients = tx4x4_coefficients_from_residual(&analysis.residual, false);
    let quant_step = lossy.quant_step();
    let quantized = lossy.quantized_dpcm_residual_candidate(&analysis, quant_step, horz);
    let refined = if lossy_should_try_refined_ac_quantized(quantized.sse, quant_step) {
        Some(lossy.quantized_dpcm_residual_candidate(&analysis, refined_lossy_quant_step(quant_step), horz))
    } else {
        None
    };
    let transform = lossy.transform_quantized_dpcm_residual_candidate(&analysis, horz);
    let quality_step = lossy_quality_rd_quant_step(quant_step);
    let max_txb_sse = lossy_max_txb_sse(quant_step);
    let choice = choose_lossy_txb(
        analysis.delta,
        &analysis.residual,
        &coefficients,
        Av2CoefficientCodingKind::LumaTransform,
        quality_step,
        max_txb_sse,
        analysis.dc_sse,
        analysis.dc_variance_loss,
        Some(quantized),
        refined,
        Some(transform),
        false,
    );
    proof {
        assert(coefficients@ =~= exact_coefficients_spec(analysis));
        assert(dpcm_candidates_are(&start, analysis, horz, quantized, refined, transform));
        assert(choice == dpcm_choice_spec(&start, analysis, Av2CoefficientCodingKind::LumaTransform, quantized, refined, transform));
        lemma_choose_lossy_without_dc(
            analysis.delta,
            analysis.residual@,
            coefficients@,
            Av2CoefficientCodingKind::LumaTransform,
            quality_step,
            max_txb_sse,
            analysis.dc_sse,
            analysis.dc_variance_loss,
            Some(quantized),
            refined,
            Some(transform),
        );
    }
    match choice {
        Av2LossyTxbChoice::Exact => {
            let context = if tx4x4_residual_is_zero(&analysis.residual) {
                write_y_txb_all_zero(writer, skip_ctx);
                0
            } else {
                proof {
                    lemma_residual_levels_fit(analysis.residual@, coefficients@);
                }
                let (context, _) = write_luma_palette_residual_txb(writer, skip_ctx, dc_sign_ctx, &coefficients);
                context
            };
            proof {
                assert(block_samples_fit(bytes_per_sample_spec(lossy.bit_depth_view()@), analysis.source@));
            }
            lossy.copy_source_to_recon_txb(plane, x0, y0, &analysis);
            context
        },
        Av2LossyTxbChoice::QuantizedResidual(candidate) => {
            let context = if tx4x4_residual_is_zero(&candidate.residual) {
                write_y_txb_all_zero(writer, skip_ctx);
                0
            } else {
                proof {
                    lemma_residual_levels_fit(candidate.residual@, candidate.coefficients@);
                }
                let (context, _) = write_luma_palette_residual_txb(writer, skip_ctx, dc_sign_ctx, &candidate.coefficients);
                context
            };
            lossy.fill_dpcm_residual_recon_txb(plane, x0, y0, &analysis, &candidate.residual, horz);
            context
        },
        Av2LossyTxbChoice::DcDelta(_) => {
            proof {
                assert(false);
            }
            0
        },
    }
}

/// What a lossy chroma block writes: the plane's all-zero flag for a zero
/// residual, else the chroma 4x4 syntax of `coefficients`; `r` is the
/// block's entropy context and whether it has nonzero levels.
pub open spec fn chroma_dpcm_written(
    w0: Av2EntropyWriter,
    w1: Av2EntropyWriter,
    chroma_plane: Av2ChromaPlane,
    skip_ctx: u8,
    coefficients: Seq<i32>,
    zero: bool,
    r: (u8, bool),
) -> bool {
    if zero {
        &&& match chroma_plane {
            Av2ChromaPlane::U => skip_written(
                w0,
                w1,
                u_skip_names(normalize_spec(skip_ctx, 6, 8, 8), false),
                AV2_STATIC_CDF_TXB_SKIP_U_BASE + normalize_spec(skip_ctx, 6, 8, 8),
                true,
            ),
            Av2ChromaPlane::V => skip_written(
                w0,
                w1,
                v_skip_names(normalize_spec(skip_ctx, 0, 11, 11)),
                AV2_STATIC_CDF_TXB_SKIP_V_BASE + normalize_spec(skip_ctx, 0, 11, 11),
                true,
            ),
        }
        &&& r == (0u8, false)
    } else {
        &&& fields_appended(w0, w1, chroma_txb_fields(Av2ChromaTxbGeometry::Tx4x4, chroma_plane, skip_ctx, false, coefficients))
        &&& (r.0 as int, r.1) == chroma_txb_result(Av2ChromaTxbGeometry::Tx4x4, coefficients)
    }
}

/// The lossy plane of a chroma plane.
pub open spec fn lossy_chroma_plane_spec(chroma_plane: Av2ChromaPlane) -> Av2LossyPlane {
    match chroma_plane {
        Av2ChromaPlane::U => Av2LossyPlane::U,
        Av2ChromaPlane::V => Av2LossyPlane::V,
    }
}

/// Writes a lossy chroma block coded with BDPCM and reconstructs it, as the
/// luma one does. Returns the block's entropy context and whether it has
/// nonzero levels.
pub fn write_lossy_chroma_dpcm_txb(
    writer: &mut Av2EntropyWriter,
    chroma_plane: Av2ChromaPlane,
    skip_ctx: u8,
    lossy: &mut Av2LossySubsampledTileState,
    x0: usize,
    y0: usize,
    horz: bool,
) -> (r: (u8, bool))
    requires
        old(lossy).block_in_plane(lossy_chroma_plane_spec(chroma_plane), x0 as int, y0 as int),
        old(lossy).quant_step_spec() >= 1,
    ensures
        exists|
            a: Av2LossyTxbAnalysis,
            quantized: Av2LossyQuantizedResidualCandidate,
            refined: Option<Av2LossyQuantizedResidualCandidate>,
            transform: Av2LossyQuantizedResidualCandidate,
        |
            #[trigger] dpcm_candidates_are(old(lossy), a, horz, quantized, refined, transform) && is_dpcm_analysis(
                old(lossy),
                lossy_chroma_plane_spec(chroma_plane),
                x0 as int,
                y0 as int,
                horz,
                a,
            ) && match dpcm_choice_spec(old(lossy), a, Av2CoefficientCodingKind::ChromaTransform, quantized, refined, transform) {
                Av2LossyTxbChoice::Exact => chroma_dpcm_written(
                    *old(writer),
                    *final(writer),
                    chroma_plane,
                    skip_ctx,
                    exact_coefficients_spec(a),
                    residual_is_zero(a.residual@),
                    r,
                ) && block_written(old(lossy), final(lossy), lossy_chroma_plane_spec(chroma_plane), x0 as int, y0 as int, a.source@),
                Av2LossyTxbChoice::QuantizedResidual(c) => chroma_dpcm_written(
                    *old(writer),
                    *final(writer),
                    chroma_plane,
                    skip_ctx,
                    c.coefficients@,
                    residual_is_zero(c.residual@),
                    r,
                ) && block_written(
                    old(lossy),
                    final(lossy),
                    lossy_chroma_plane_spec(chroma_plane),
                    x0 as int,
                    y0 as int,
                    dpcm_recon_block_spec(a, c.residual@, horz, max_sample_spec(old(lossy).bit_depth_view()@)),
                ),
                Av2LossyTxbChoice::DcDelta(_) => false,
            },
{
    let plane = match chroma_plane {
        Av2ChromaPlane::U => Av2LossyPlane::U,
        Av2ChromaPlane::V => Av2LossyPlane::V,
    };
    let ghost start = *lossy;
    let analysis = lossy.analyze_dpcm_txb(plane, x0, y0, horz);
    proof {
        assert forall|i: int| 0 <= i < 16 implies -0x40_0000 <= #[trigger] analysis.residual[i] <= 0x40_0000 by {
            assert(analysis.residual[i] == analysis.source[i] - analysis.predictor[i]);
        }
    }
    let coefficients = tx4x4_coefficients_from_residual(&analysis.residual, false);
    let quant_step = lossy.quant_step();
    let quantized = lossy.quantized_dpcm_residual_candidate(&analysis, quant_step, horz);
    let refined = if lossy_should_try_refined_ac_quantized(quantized.sse, quant_step) {
        Some(lossy.quantized_dpcm_residual_candidate(&analysis, refined_lossy_quant_step(quant_step), horz))
    } else {
        None
    };
    let transform = lossy.transform_quantized_dpcm_residual_candidate(&analysis, horz);
    let quality_step = lossy_quality_rd_quant_step(quant_step);
    let max_txb_sse = lossy_max_txb_sse(quant_step);
    let choice = choose_lossy_txb(
        analysis.delta,
        &analysis.residual,
        &coefficients,
        Av2CoefficientCodingKind::ChromaTransform,
        quality_step,
        max_txb_sse,
        analysis.dc_sse,
        analysis.dc_variance_loss,
        Some(quantized),
        refined,
        Some(transform),
        false,
    );
    proof {
        assert(coefficients@ =~= exact_coefficients_spec(analysis));
        assert(dpcm_candidates_are(&start, analysis, horz, quantized, refined, transform));
        assert(choice == dpcm_choice_spec(&start, analysis, Av2CoefficientCodingKind::ChromaTransform, quantized, refined, transform));
        lemma_choose_lossy_without_dc(
            analysis.delta,
            analysis.residual@,
            coefficients@,
            Av2CoefficientCodingKind::ChromaTransform,
            quality_step,
            max_txb_sse,
            analysis.dc_sse,
            analysis.dc_variance_loss,
            Some(quantized),
            refined,
            Some(transform),
        );
    }
    match choice {
        Av2LossyTxbChoice::Exact => {
            let result = if tx4x4_residual_is_zero(&analysis.residual) {
                match chroma_plane {
                    Av2ChromaPlane::U => write_u_txb_all_zero(writer, skip_ctx, false),
                    Av2ChromaPlane::V => write_v_txb_all_zero(writer, skip_ctx),
                }
                (0u8, false)
            } else {
                proof {
                    lemma_residual_levels_fit(analysis.residual@, coefficients@);
                }
                write_chroma_bdpcm_txb(writer, chroma_plane, skip_ctx, &coefficients, false)
            };
            proof {
                assert(block_samples_fit(bytes_per_sample_spec(lossy.bit_depth_view()@), analysis.source@));
            }
            lossy.copy_source_to_recon_txb(plane, x0, y0, &analysis);
            result
        },
        Av2LossyTxbChoice::QuantizedResidual(candidate) => {
            let result = if tx4x4_residual_is_zero(&candidate.residual) {
                match chroma_plane {
                    Av2ChromaPlane::U => write_u_txb_all_zero(writer, skip_ctx, false),
                    Av2ChromaPlane::V => write_v_txb_all_zero(writer, skip_ctx),
                }
                (0u8, false)
            } else {
                proof {
                    lemma_residual_levels_fit(candidate.residual@, candidate.coefficients@);
                }
                write_chroma_bdpcm_txb(writer, chroma_plane, skip_ctx, &candidate.coefficients, false)
            };
            lossy.fill_dpcm_residual_recon_txb(plane, x0, y0, &analysis, &candidate.residual, horz);
            result
        },
        Av2LossyTxbChoice::DcDelta(_) => {
            proof {
                assert(false);
            }
            (0u8, false)
        },
    }
}

} // verus!
