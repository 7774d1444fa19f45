use framefinery_codecs::coefficient_proxy::coefficient_proxy_score;
use framefinery_codecs::high_range::Av2CoefficientCodingKind;
use framefinery_codecs::lossy_metrics::{lossy_txb_score, txb_source_variance};
use framefinery_codecs::lossy_candidates::{Av2LossyResidualCandidateKind, Av2LossyTxbChoice};
use framefinery_codecs::lossy_selection::{
    choose_lossy_txb, choose_regular_q_lossy_txb, lossy_ac_candidate_is_reference_clean, lossy_choice_sse,
    regular_quantized_txb_is_zero,
};
use framefinery_codecs::lossy_state::{Av2LossyLeafPredictorContext, Av2LossyPlane, Av2LossySubsampledTileState};
use framefinery_codecs::planar_layout::Av2CodedMiContext;
use framefinery_codecs::planar_layout::{Av2TileRegion, Av2VideoGeometry};
use framefinery_codecs::sample::{Av2ChromaFormat, SampleBitDepth};

fn frame() -> (Av2VideoGeometry, Vec<u8>) {
    let geometry = Av2VideoGeometry { width: 8, height: 8 };
    // 8x8 luma plus two 4x4 chroma planes.
    (geometry, vec![100u8; 64 + 2 * 16])
}

#[test]
fn lossy_analysis_rounds_the_average_residual_to_the_dc_step() {
    let (geometry, source) = frame();
    let lossy = Av2LossySubsampledTileState::new(
        geometry,
        Av2TileRegion::root(geometry),
        Av2ChromaFormat::Yuv420,
        SampleBitDepth::new(8).unwrap(),
        32,
        &source,
        source.clone(),
    );
    assert_eq!(lossy.quant_step(), 32);
    let analysis = lossy.finish_txb_analysis([100; 16], [90; 16]);
    assert_eq!(analysis.residual, [10; 16]);
    assert_eq!(analysis.delta, 10);
    assert_eq!(analysis.dc_sse, 0);
    assert_eq!(analysis.dc_variance_loss, 0);
    assert_eq!(analysis.source_variance, 0);

    let spatial = lossy.quantized_residual_candidate(&analysis, false);
    assert_eq!(spatial.kind, Av2LossyResidualCandidateKind::Spatial);
    assert_eq!(spatial.residual, [0; 16]);
    assert_eq!(spatial.coefficients, [0; 16]);
    assert_eq!(spatial.sse, 16 * 100);

    let refined = lossy.refined_quantized_residual_candidate(&analysis, false);
    assert_eq!(refined.kind, Av2LossyResidualCandidateKind::RefinedSpatial);
    assert_eq!(refined.residual, [8; 16]);
    assert_eq!(refined.sse, 16 * 4);
    assert_eq!(refined.coefficients[0], 256);
    assert!(refined.coefficients[1..].iter().all(|&c| c == 0));

    let transform = lossy.transform_quantized_residual_candidate(&analysis);
    assert_eq!(transform.kind, Av2LossyResidualCandidateKind::Transform);
    assert_eq!(transform.coefficients[0] % 64, 0);
}

#[test]
fn regular_dct_candidates_of_a_flat_residual_keep_only_the_dc() {
    let (geometry, source) = frame();
    let lossy = Av2LossySubsampledTileState::new(
        geometry,
        Av2TileRegion::root(geometry),
        Av2ChromaFormat::Yuv420,
        SampleBitDepth::new(8).unwrap(),
        32,
        &source,
        source.clone(),
    );
    let analysis = lossy.finish_txb_analysis([100; 16], [90; 16]);
    let candidates = lossy.regular_dct_quantized_residual_candidates(&analysis);
    assert_eq!(candidates.transform.kind, Av2LossyResidualCandidateKind::RegularDct);
    assert_eq!(candidates.transform.coefficients[0], 26 * 8);
    assert!(candidates.transform.coefficients[1..].iter().all(|&c| c == 0));
    assert_eq!(candidates.transform.residual, [10; 16]);
    assert_eq!(candidates.transform.sse, 0);
    assert_eq!(candidates.dc_only, candidates.transform);
    assert!(candidates.tail_pruned.is_none());
    assert!(candidates.double_tail_pruned.is_none());
    let chosen = choose_regular_q_lossy_txb(candidates, Av2CoefficientCodingKind::LumaTransform, lossy.quant_step());
    assert_eq!(chosen, candidates.transform);
    assert!(!regular_quantized_txb_is_zero(&chosen));
}

#[test]
fn regular_dct_candidates_of_an_exact_prediction_are_zero() {
    let (geometry, source) = frame();
    let lossy = Av2LossySubsampledTileState::new(
        geometry,
        Av2TileRegion::root(geometry),
        Av2ChromaFormat::Yuv420,
        SampleBitDepth::new(8).unwrap(),
        32,
        &source,
        source.clone(),
    );
    let analysis = lossy.finish_txb_analysis([77; 16], [77; 16]);
    let candidates = lossy.regular_dct_quantized_residual_candidates(&analysis);
    assert_eq!(candidates.transform.residual, [0; 16]);
    assert!(regular_quantized_txb_is_zero(&candidates.transform));
    assert_eq!(candidates.dc_only, candidates.transform);
}

#[test]
fn lossy_choice_keeps_exact_coding_without_a_cheaper_candidate() {
    let residual = [10i32; 16];
    let mut coefficients = [0i32; 16];
    coefficients[0] = 320;
    let choice = choose_lossy_txb(
        10,
        &residual,
        &coefficients,
        Av2CoefficientCodingKind::LumaTransform,
        2,
        1000,
        0,
        0,
        None,
        None,
        None,
        false,
    );
    assert_eq!(choice, Av2LossyTxbChoice::Exact);
    assert_eq!(lossy_choice_sse(&choice, 7), 0);
    assert_eq!(lossy_choice_sse(&Av2LossyTxbChoice::DcDelta(3), 7), 7);
    assert!(lossy_ac_candidate_is_reference_clean(&coefficients));
}

#[test]
fn lossy_choice_takes_a_zero_cost_spatial_candidate_within_budget() {
    let (geometry, source) = frame();
    let lossy = Av2LossySubsampledTileState::new(
        geometry,
        Av2TileRegion::root(geometry),
        Av2ChromaFormat::Yuv420,
        SampleBitDepth::new(8).unwrap(),
        32,
        &source,
        source.clone(),
    );
    let analysis = lossy.finish_txb_analysis([100; 16], [90; 16]);
    let spatial = lossy.quantized_residual_candidate(&analysis, false);
    let mut coefficients = [0i32; 16];
    coefficients[0] = 320;
    // The all-zero candidate costs 16 rate units plus 1600 / 32 distortion.
    let within_budget = choose_lossy_txb(
        analysis.delta,
        &analysis.residual,
        &coefficients,
        Av2CoefficientCodingKind::LumaTransform,
        32,
        10_000,
        analysis.dc_sse,
        analysis.dc_variance_loss,
        Some(spatial),
        None,
        None,
        false,
    );
    assert_eq!(within_budget, Av2LossyTxbChoice::QuantizedResidual(spatial));
    let over_budget = choose_lossy_txb(
        analysis.delta,
        &analysis.residual,
        &coefficients,
        Av2CoefficientCodingKind::LumaTransform,
        32,
        100,
        analysis.dc_sse,
        analysis.dc_variance_loss,
        Some(spatial),
        None,
        None,
        false,
    );
    assert_eq!(over_budget, Av2LossyTxbChoice::Exact);
}

#[test]
fn lossy_inter_analysis_reads_the_displaced_reference() {
    let (geometry, source) = frame();
    let mut reference = vec![0u8; source.len()];
    for y in 0..8 {
        for x in 0..8 {
            reference[y * 8 + x] = (90 + x) as u8;
        }
    }
    let lossy = Av2LossySubsampledTileState::new(
        geometry,
        Av2TileRegion::root(geometry),
        Av2ChromaFormat::Yuv420,
        SampleBitDepth::new(8).unwrap(),
        32,
        &source,
        source.clone(),
    );
    let analysis = lossy.analyze_inter_txb(&reference, Av2LossyPlane::Y, 0, 0, 0, 2);
    assert_eq!(analysis.source, [100; 16]);
    assert_eq!(analysis.predictor[0], 92);
    assert_eq!(analysis.predictor[3], 95);
    assert_eq!(analysis.residual[0], 8);
}

#[test]
fn regular_q_rd_score_scores_the_chosen_candidate() {
    let (geometry, source) = frame();
    let lossy = Av2LossySubsampledTileState::new(
        geometry,
        Av2TileRegion::root(geometry),
        Av2ChromaFormat::Yuv420,
        SampleBitDepth::new(8).unwrap(),
        32,
        &source,
        source.clone(),
    );
    let kind = Av2CoefficientCodingKind::LumaTransform;
    let analysis = lossy.finish_txb_analysis([100; 16], [90; 16]);
    let chosen = choose_regular_q_lossy_txb(lossy.regular_dct_quantized_residual_candidates(&analysis), kind, lossy.quant_step());
    let expected = coefficient_proxy_score(&chosen.coefficients, kind) + (chosen.sse + 2 * chosen.variance_loss) / 4;
    assert_eq!(lossy.regular_q_txb_rd_score(&analysis, kind), expected);
    assert_eq!(lossy_txb_score(coefficient_proxy_score(&chosen.coefficients, kind), chosen.sse, chosen.variance_loss, 4), expected);

    // A zero residual codes nothing: its score is the rate of an all-zero block.
    let zero = lossy.finish_txb_analysis([100; 16], [100; 16]);
    assert_eq!(lossy.regular_q_txb_rd_score(&zero, kind), coefficient_proxy_score(&[0; 16], kind));
}

#[test]
fn paeth_score_of_a_block_equal_to_its_edges_is_the_base_rate() {
    let (geometry, source) = frame();
    let lossy = Av2LossySubsampledTileState::new(
        geometry,
        Av2TileRegion::root(geometry),
        Av2ChromaFormat::Yuv420,
        SampleBitDepth::new(8).unwrap(),
        32,
        &source,
        source.clone(),
    );
    let coded = Av2CodedMiContext::new(2, 2);
    let context = Av2LossyLeafPredictorContext { leaf_x0: 4, leaf_y0: 4, leaf_width: 4, leaf_height: 4, coded_mi_context: &coded };
    let kind = Av2CoefficientCodingKind::LumaTransform;
    assert_eq!(lossy.paeth_txb_score_for_score(Av2LossyPlane::Y, 4, 4, context, kind), 16);
    // At the tile origin Paeth picks the range midpoint 128 against a flat
    // 100: sixteen residuals of -28 at 80 + 28 * 4 each, and a DC correction
    // of -28 leaves no error.
    let corner = Av2LossyLeafPredictorContext { leaf_x0: 0, leaf_y0: 0, leaf_width: 4, leaf_height: 4, coded_mi_context: &coded };
    assert_eq!(lossy.paeth_txb_score_for_score(Av2LossyPlane::Y, 0, 0, corner, kind), 16 + 16 * (80 + 28 * 4));
}

#[test]
fn dpcm_analysis_predicts_from_the_previous_source_sample() {
    let geometry = Av2VideoGeometry { width: 8, height: 8 };
    let mut source = vec![100u8; 64 + 2 * 16];
    for y in 0..4 {
        for x in 0..4 {
            source[y * 8 + x] = (10 * x + y) as u8;
        }
    }
    let lossy = Av2LossySubsampledTileState::new(
        geometry,
        Av2TileRegion::root(geometry),
        Av2ChromaFormat::Yuv420,
        SampleBitDepth::new(8).unwrap(),
        32,
        &source,
        source.clone(),
    );
    let horizontal = lossy.analyze_dpcm_txb(Av2LossyPlane::Y, 0, 0, true);
    for y in 0..4 {
        for x in 0..4 {
            let p = y * 4 + x;
            assert_eq!(horizontal.source[p], (10 * x + y) as u16);
            // The first column has no left edge at the tile origin: 129.
            let expected_pred = if x == 0 { 129 } else { (10 * (x - 1) + y) as u16 };
            assert_eq!(horizontal.predictor[p], expected_pred);
            assert_eq!(horizontal.residual[p], horizontal.source[p] as i32 - expected_pred as i32);
        }
    }
    assert_eq!((horizontal.delta, horizontal.dc_sse, horizontal.dc_variance_loss), (0, 0, 0));
    assert_eq!(horizontal.source_variance, txb_source_variance(&horizontal.source));

    let vertical = lossy.analyze_dpcm_txb(Av2LossyPlane::Y, 0, 0, false);
    assert_eq!(vertical.predictor[0], 127);
    assert_eq!(vertical.predictor[5], 10);
    assert_eq!(vertical.residual[5], 1);
    // A block with edges inside the tile predicts its first column from the
    // reconstruction to its left.
    let inner = lossy.analyze_dpcm_txb(Av2LossyPlane::Y, 4, 0, true);
    assert_eq!(inner.predictor[0], 30);
    assert_eq!(inner.residual[0], 70);
}
