use framefinery_codecs::entropy::Av2EntropyWriter;
use framefinery_codecs::golomb::{
    adaptive_high_range_score_bits, exp_golomb_score_bits, truncated_rice_score_bits,
};
use framefinery_codecs::high_range::{
    write_coefficient_high_range, write_dc_only_high_range, Av2CoefficientCodingKind,
};
use framefinery_codecs::lossless_state::best_lossless_chroma_candidate_index;
use framefinery_codecs::lossy_metrics::{prune_regular_dct_trailing_unit_acs, txb_variance_measure};
use framefinery_codecs::lossy_state::{dpcm_recon_samples_and_sse, Av2LossyTxbAnalysis};
use framefinery_codecs::modes::Av2ChromaIntraMode;

#[test]
fn exp_golomb_accepts_every_order_below_32() {
    assert_eq!(exp_golomb_score_bits(0, 0), 1);
    assert_eq!(exp_golomb_score_bits(3, 0), 5);
    assert_eq!(exp_golomb_score_bits(10, 2), 5);
    assert_eq!(exp_golomb_score_bits(0, 31), 32);
    assert_eq!(exp_golomb_score_bits(u32::MAX - 1, 0), 63);
}

#[test]
fn truncated_rice_short_prefix_accepts_large_parameters() {
    assert_eq!(truncated_rice_score_bits(5, 1, 2, 5), 4);
    assert_eq!(truncated_rice_score_bits(20, 1, 2, 5), 10);
    assert_eq!(truncated_rice_score_bits(3 << 20, 20, 0, 200), 24);
    assert_eq!(truncated_rice_score_bits(199, 0, 40, 200), 200);
}

#[test]
fn adaptive_high_range_bits_never_decrease() {
    for context in [0u32, 5, 20, 100] {
        let mut previous = 1;
        for value in 0u32..600 {
            let bits = adaptive_high_range_score_bits(value, context);
            assert!(bits >= previous);
            previous = bits;
        }
    }
    assert_eq!(adaptive_high_range_score_bits(u32::MAX, 0), 66);
}

#[test]
fn dc_only_high_range_accepts_every_level() {
    let mut dc_only = Av2EntropyWriter::new();
    write_dc_only_high_range(&mut dc_only, "tile.coeff.y.high_range", Av2CoefficientCodingKind::LumaTransform, u32::MAX);
    let mut direct = Av2EntropyWriter::new();
    let mut average = 0u32;
    write_coefficient_high_range(
        &mut direct,
        "tile.coeff.y.high_range",
        Av2CoefficientCodingKind::LumaTransform,
        0,
        u32::MAX,
        &mut average,
    );
    let dc_only = dc_only.finish();
    let direct = direct.finish();
    assert_eq!(dc_only.fields, direct.fields);
    assert_eq!(dc_only.symbol_bits, direct.symbol_bits);
    assert_eq!(dc_only.fields.len(), 1);
    assert_eq!(dc_only.fields[0].literal_value, Some(u32::MAX - 8));
    assert_eq!(average, (u32::MAX - 8) / 2);
}

#[test]
fn high_range_average_may_reach_the_top_of_u32() {
    let mut writer = Av2EntropyWriter::new();
    let mut average = u32::MAX - 100;
    write_coefficient_high_range(
        &mut writer,
        "tile.coeff.u.high_range",
        Av2CoefficientCodingKind::ChromaTransform,
        0,
        105,
        &mut average,
    );
    let payload = writer.finish();
    assert_eq!(payload.fields[0].literal_value, Some(100));
    assert_eq!(average, u32::MAX / 2);
}

#[test]
fn ineligible_chroma_candidates_may_carry_any_cost() {
    let candidates = [
        (true, Av2ChromaIntraMode::Horizontal, usize::MAX),
        (false, Av2ChromaIntraMode::Dc, 3),
        (false, Av2ChromaIntraMode::Vertical, 1),
    ];
    let scores = [usize::MAX, 10, 12];
    assert_eq!(best_lossless_chroma_candidate_index(&candidates, &scores, false), Some(1));
}

#[test]
fn trailing_unit_pruning_accepts_any_count() {
    let mut qcoeff = [0i32; 16];
    qcoeff[0] = 9;
    qcoeff[1] = 1;
    qcoeff[4] = -1;
    let pruned = prune_regular_dct_trailing_unit_acs(&mut qcoeff, 1000);
    assert_eq!(pruned, 2);
    assert_eq!(qcoeff[0], 9);
    assert!(qcoeff[1..].iter().all(|&c| c == 0));
}

#[test]
fn variance_is_unchanged_by_a_constant_shift_of_large_samples() {
    let mut samples = [0i32; 16];
    samples[0] = 4;
    assert_eq!(txb_variance_measure(&samples), 15);
    let k = 1 << 20;
    let shifted: [i32; 16] = core::array::from_fn(|i| samples[i] + k);
    assert_eq!(txb_variance_measure(&shifted), 15);
    assert_eq!(txb_variance_measure(&[1 << 21; 16]), 0);
}

#[test]
fn bdpcm_reconstruction_undoes_the_exact_residual() {
    let source: [u16; 16] = [10, 12, 15, 15, 9, 9, 30, 31, 0, 255, 254, 1, 7, 8, 9, 10];
    let predictor: [u16; 16] = [11, 11, 11, 11, 20, 20, 20, 20, 3, 3, 3, 3, 6, 6, 6, 6];
    for horz in [true, false] {
        let mut residual = [0i32; 16];
        for i in 0..16 {
            let previous = if horz {
                if i % 4 == 0 { predictor[i] } else { source[i - 1] }
            } else if i < 4 {
                predictor[i]
            } else {
                source[i - 4]
            };
            residual[i] = source[i] as i32 - previous as i32;
        }
        let analysis = Av2LossyTxbAnalysis {
            source,
            predictor,
            residual,
            delta: 0,
            dc_sse: 0,
            dc_variance_loss: 0,
            source_variance: 0,
        };
        let (recon, sse) = dpcm_recon_samples_and_sse(&analysis, &residual, horz, 255);
        for i in 0..16 {
            assert_eq!(recon[i], source[i] as i32);
        }
        assert_eq!(sse, 0);
    }
}
