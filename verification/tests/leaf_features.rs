use framefinery_codecs::block_size::Av2MvpBlockSize;
use framefinery_codecs::chroma444_leaf::{Av2Chroma444Prediction, Av2ChromaTx4x4Span};
use framefinery_codecs::inter_block_modes::Av2LosslessInterBlockMode::{NewMv, ZeroMv, ZeroMvResidual};
use framefinery_codecs::inter_block_modes::Av2LosslessInterTileBlockModes;
use framefinery_codecs::lossy_candidates::Av2LossyTx8x8Analysis;
use framefinery_codecs::lossy_state::{Av2LossyPlane, Av2LossySubsampledTileState};
use framefinery_codecs::modes::{
    lossy_luma_idif_angle, Av2ChromaIntraMode, Av2DirectionalBase, Av2LosslessSubsampledModeDecision,
    Av2LossySubsampledModeDecision, Av2LumaIntraMode,
};
use framefinery_codecs::partition_features::{
    lossless_luma_8x8_is_palette_worthy, luma_region_is_simple_for_adaptive_leaf, use_fast_lossless_subsampled_path,
};
use framefinery_codecs::planar_layout::{Av2TileRegion, Av2VideoGeometry};
use framefinery_codecs::sample::{Av2ChromaFormat, SampleBitDepth};

const U_BASE: usize = 256;

fn yuv444_16x16() -> (Av2VideoGeometry, Vec<u8>) {
    (Av2VideoGeometry { width: 16, height: 16 }, vec![0u8; 3 * 256])
}

fn lossy_state<'a>(geometry: Av2VideoGeometry, format: Av2ChromaFormat, source: &'a [u8], recon: Vec<u8>) -> Av2LossySubsampledTileState<'a> {
    Av2LossySubsampledTileState::new(
        geometry,
        Av2TileRegion::root(geometry),
        format,
        SampleBitDepth::new(8).unwrap(),
        32,
        source,
        recon,
    )
}

#[test]
fn inter_block_modes_report_homogeneous_leaves() {
    let modes = Av2LosslessInterTileBlockModes::new(2, 2, vec![ZeroMv, ZeroMv, ZeroMv, ZeroMv]);
    let leaf16 = Av2MvpBlockSize::new(16, 16);
    let leaf8 = Av2MvpBlockSize::new(8, 8);
    assert_eq!(modes.homogeneous_mode_for_leaf(0, 0, leaf16), Some(ZeroMv));
    assert_eq!(modes.homogeneous_skip_mode_for_leaf(0, 0, leaf16), Some(ZeroMv));
    assert_eq!(modes.mode_for_decision(0, 0, leaf16), ZeroMv);
    // A leaf that reaches past the map has no mode.
    assert_eq!(modes.homogeneous_mode_for_leaf(2, 0, leaf16), None);
    assert_eq!(modes.block_mode_at(1, 1), Some(ZeroMv));
    assert_eq!(modes.block_mode_at(2, 0), None);

    let mixed = Av2LosslessInterTileBlockModes::new(
        2,
        2,
        vec![ZeroMv, NewMv { row_px: 4, col_px: -8 }, ZeroMvResidual, ZeroMv],
    );
    assert_eq!(mixed.homogeneous_mode_for_leaf(0, 0, leaf16), None);
    assert_eq!(mixed.homogeneous_mode_for_leaf(0, 2, leaf8), Some(NewMv { row_px: 4, col_px: -8 }));
    assert_eq!(mixed.homogeneous_skip_mode_for_leaf(0, 2, leaf8), Some(NewMv { row_px: 4, col_px: -8 }));
    assert_eq!(mixed.homogeneous_mode_for_leaf(2, 0, leaf8), Some(ZeroMvResidual));
    assert_eq!(mixed.homogeneous_skip_mode_for_leaf(2, 0, leaf8), None);
    assert_eq!(mixed.block_mode_at(0, 1), Some(ZeroMvResidual));
}

#[test]
fn idif_angles_skip_the_cardinal_directions() {
    assert_eq!(lossy_luma_idif_angle(Av2LumaIntraMode::Directional45), Some(45));
    assert_eq!(lossy_luma_idif_angle(Av2LumaIntraMode::Vertical), None);
    assert_eq!(lossy_luma_idif_angle(Av2LumaIntraMode::Horizontal), None);
    assert_eq!(
        lossy_luma_idif_angle(Av2LumaIntraMode::DirectionalDelta { base: Av2DirectionalBase::Vertical, delta: 1 }),
        Some(93)
    );
    assert_eq!(
        lossy_luma_idif_angle(Av2LumaIntraMode::DirectionalDelta { base: Av2DirectionalBase::Horizontal, delta: 0 }),
        None
    );
    assert_eq!(lossy_luma_idif_angle(Av2LumaIntraMode::Dc), None);
}

#[test]
fn default_mode_decisions_are_dc_luma_and_horizontal_chroma() {
    let lossless = Av2LosslessSubsampledModeDecision::default();
    assert_eq!(lossless.luma_intra_mode, Av2LumaIntraMode::Dc);
    assert_eq!(lossless.luma_bdpcm_horz, None);
    assert!(!lossless.chroma_use_bdpcm);
    assert_eq!(lossless.chroma_intra_mode, Av2ChromaIntraMode::Horizontal);
    assert!(!lossless.use_luma_palette);
    assert!(!lossless.use_fsc);
    let lossy = Av2LossySubsampledModeDecision::default();
    assert_eq!(lossy.luma_intra_mode, Av2LumaIntraMode::Dc);
    assert_eq!(lossy.chroma_intra_mode, Av2ChromaIntraMode::Horizontal);
    assert!(!lossy.use_fsc);
}

#[test]
fn fast_lossless_path_starts_at_128_by_128() {
    let region = |width, height| Av2TileRegion { origin_x: 0, origin_y: 0, width, height };
    assert!(use_fast_lossless_subsampled_path(region(128, 128)));
    assert!(use_fast_lossless_subsampled_path(region(256, 64)));
    assert!(!use_fast_lossless_subsampled_path(region(127, 128)));
}

fn luma_block(geometry: Av2VideoGeometry, value: impl Fn(usize, usize) -> u8) -> Vec<u8> {
    let mut source = vec![0u8; geometry.width * geometry.height];
    for y in 0..geometry.height {
        for x in 0..geometry.width {
            source[y * geometry.width + x] = value(x, y);
        }
    }
    source
}

#[test]
fn palette_worthy_blocks_have_two_to_four_values() {
    let geometry = Av2VideoGeometry { width: 16, height: 16 };
    let bit_depth = SampleBitDepth::new(8).unwrap();
    let flat = luma_block(geometry, |_, _| 7);
    assert!(!lossless_luma_8x8_is_palette_worthy(geometry, bit_depth, &flat, 0, 0));
    let two = luma_block(geometry, |x, _| if x < 4 { 10 } else { 200 });
    assert!(lossless_luma_8x8_is_palette_worthy(geometry, bit_depth, &two, 0, 0));
    let four = luma_block(geometry, |x, y| ((x / 4) * 2 + y / 4) as u8 * 50);
    assert!(lossless_luma_8x8_is_palette_worthy(geometry, bit_depth, &four, 0, 0));
    let five = luma_block(geometry, |x, y| if x == 7 && y == 7 { 255 } else { ((x / 4) * 2 + y / 4) as u8 * 50 });
    assert!(!lossless_luma_8x8_is_palette_worthy(geometry, bit_depth, &five, 0, 0));
    let many = luma_block(geometry, |x, y| (y * 8 + x) as u8);
    assert!(!lossless_luma_8x8_is_palette_worthy(geometry, bit_depth, &many, 0, 0));
    // The second block of the frame: columns 8..16 of the two-colour source
    // hold one colour only.
    assert!(!lossless_luma_8x8_is_palette_worthy(geometry, bit_depth, &two, 8, 8));
}

#[test]
fn simple_leaves_have_few_values_a_narrow_range_or_a_gentle_gradient() {
    let bit_depth = SampleBitDepth::new(8).unwrap();
    let geometry = Av2VideoGeometry { width: 64, height: 64 };
    let flat = luma_block(geometry, |_, _| 90);
    assert!(luma_region_is_simple_for_adaptive_leaf(geometry, bit_depth, &flat, 0, 0, 64, 64));
    // Sixteen sampled values 16 apart: too many values, too wide, too steep.
    let steep = luma_block(geometry, |x, y| (16 * (4 * (y / 4 % 4) + x / 4 % 4)) as u8);
    assert!(!luma_region_is_simple_for_adaptive_leaf(geometry, bit_depth, &steep, 0, 0, 16, 16));
    // Two sampled rows of sixteen values one apart: 16 values over a range of
    // 15, but a mean neighbour step of 30/46.
    let gentle = luma_block(geometry, |x, _| (x / 4) as u8);
    assert!(luma_region_is_simple_for_adaptive_leaf(geometry, bit_depth, &gentle, 0, 0, 64, 8));
    // Sixteen values one apart in a 4x4 grid: the vertical steps of four
    // make the gradient too steep.
    let ramp = luma_block(geometry, |x, y| (4 * (y / 4) + x / 4) as u8);
    assert!(!luma_region_is_simple_for_adaptive_leaf(geometry, bit_depth, &ramp, 0, 0, 16, 16));
    // Nine values within a range of eight.
    let narrow = luma_block(geometry, |x, y| (100 + (x / 4 + y / 4) % 9) as u8);
    assert!(luma_region_is_simple_for_adaptive_leaf(geometry, bit_depth, &narrow, 0, 0, 64, 64));
}

#[test]
fn chroma_leaf_visible_size_and_reference_origin() {
    let (geometry, source) = yuv444_16x16();
    let lossy = lossy_state(geometry, Av2ChromaFormat::Yuv444, &source, source.clone());
    let span = Av2ChromaTx4x4Span { row: 0, col: 0, width: 2, height: 2 };
    assert_eq!(lossy.chroma_444_leaf_visible_size(Av2LossyPlane::U, 0, 0, span), (8, 8));
    assert_eq!(lossy.chroma_444_leaf_visible_size(Av2LossyPlane::U, 12, 0, span), (4, 8));
    let narrow = Av2ChromaTx4x4Span { row: 0, col: 0, width: 1, height: 4 };
    assert_eq!(lossy.chroma_444_leaf_visible_size(Av2LossyPlane::V, 0, 4, narrow), (4, 8));
    assert_eq!(lossy.chroma_444_inter_reference_origin(&source, Av2LossyPlane::U, 8, 8, 4, 8, -4, 2), (10, 4));

    let geometry420 = Av2VideoGeometry { width: 16, height: 16 };
    let source420 = vec![0u8; 256 + 2 * 64];
    let lossy420 = lossy_state(geometry420, Av2ChromaFormat::Yuv420, &source420, source420.clone());
    assert_eq!(lossy420.chroma_444_inter_reference_origin(&source420, Av2LossyPlane::V, 4, 4, 2, 2, -4, 4), (6, 2));
}

fn chroma_test_frames() -> (Av2VideoGeometry, Vec<u8>, Vec<u8>) {
    let (geometry, mut source) = yuv444_16x16();
    for i in 0..256 {
        source[U_BASE + i] = 50;
    }
    let mut recon = vec![0u8; 3 * 256];
    // Row 7 above the leaf at (8, 8) holds 10, column 7 left of it 30, and
    // the corner 70.
    for x in 8..16 {
        recon[U_BASE + 7 * 16 + x] = 10;
    }
    for y in 8..16 {
        recon[U_BASE + y * 16 + 7] = 30;
    }
    recon[U_BASE + 7 * 16 + 7] = 70;
    (geometry, source, recon)
}

#[test]
fn chroma_intra_plan_averages_the_leaf_edges() {
    let (geometry, source, recon) = chroma_test_frames();
    let lossy = lossy_state(geometry, Av2ChromaFormat::Yuv444, &source, recon);
    let span = Av2ChromaTx4x4Span { row: 2, col: 2, width: 2, height: 2 };
    let dc = Av2LossySubsampledModeDecision { chroma_intra_mode: Av2ChromaIntraMode::Dc, ..Default::default() };
    let plan = lossy.chroma_444_intra_predictor_plan(Av2LossyPlane::U, span, dc);
    assert_eq!((plan.leaf_x0, plan.leaf_y0, plan.visible_width, plan.visible_height), (8, 8, 8, 8));
    assert!(plan.have_left && plan.have_top);
    // (8 * 10 + 8 * 30 + 8) / 16
    assert_eq!(plan.dc_pred, 20);
    assert_eq!(plan.above_left, 0);

    let paeth = Av2LossySubsampledModeDecision { chroma_intra_mode: Av2ChromaIntraMode::Paeth, ..Default::default() };
    let plan = lossy.chroma_444_intra_predictor_plan(Av2LossyPlane::U, span, paeth);
    assert_eq!(plan.above_left, 70);
    assert_eq!(plan.dc_pred, 0);

    // A leaf in the tile's corner has no edges: DC is the range midpoint.
    let corner = Av2ChromaTx4x4Span { row: 0, col: 0, width: 2, height: 2 };
    let plan = lossy.chroma_444_intra_predictor_plan(Av2LossyPlane::U, corner, dc);
    assert!(!plan.have_left && !plan.have_top);
    assert_eq!(plan.dc_pred, 128);

    let analysis = lossy.chroma_444_intra_tx8x8_analysis(Av2LossyPlane::U, span, dc);
    assert_eq!(analysis.predictor, [20; 64]);
    assert_eq!(analysis.residual, [30; 64]);

    let horizontal = Av2LossySubsampledModeDecision::default();
    let analysis = lossy.chroma_444_intra_tx8x8_analysis(Av2LossyPlane::U, span, horizontal);
    assert_eq!(analysis.predictor, [30; 64]);
    assert_eq!(analysis.residual, [20; 64]);
}

#[test]
fn chroma_inter_analysis_reads_the_displaced_reference() {
    let (geometry, source, recon) = chroma_test_frames();
    let lossy = lossy_state(geometry, Av2ChromaFormat::Yuv444, &source, recon);
    let mut reference = vec![0u8; 3 * 256];
    for y in 0..16 {
        for x in 0..16 {
            reference[U_BASE + y * 16 + x] = (y * 16 + x) as u8;
        }
    }
    // A 4x4 leaf at (4, 4) moved one row up and two columns right.
    let span = Av2ChromaTx4x4Span { row: 1, col: 1, width: 1, height: 1 };
    let analysis = lossy.chroma_444_inter_tx8x8_analysis(&reference, Av2LossyPlane::U, span, -1, 2);
    assert_eq!((analysis.leaf_x0, analysis.leaf_y0, analysis.visible_width, analysis.visible_height), (4, 4, 4, 4));
    assert_eq!(analysis.predictor[0], (3 * 16 + 6) as u16);
    assert_eq!(analysis.predictor[3 * 8 + 3], (6 * 16 + 9) as u16);
    assert_eq!(analysis.residual[0], 50 - (3 * 16 + 6));
    assert_eq!(analysis.predictor[4], 0);
    assert_eq!(analysis.residual[4 * 8], 0);

    let prediction = Av2Chroma444Prediction::Inter { reference: &reference, ref_x0: 6, ref_y0: 3 };
    let direct = lossy.chroma_444_tx8x8_analysis(Av2LossyPlane::U, 4, 4, 4, 4, prediction);
    assert_eq!(direct, analysis);
}

#[test]
fn chroma_leaf_fill_writes_only_the_visible_rectangle() {
    let (geometry, source, recon) = chroma_test_frames();
    let mut lossy = lossy_state(geometry, Av2ChromaFormat::Yuv444, &source, recon);
    let span = Av2ChromaTx4x4Span { row: 2, col: 2, width: 2, height: 2 };
    let dc = Av2LossySubsampledModeDecision { chroma_intra_mode: Av2ChromaIntraMode::Dc, ..Default::default() };
    let analysis = lossy.chroma_444_intra_tx8x8_analysis(Av2LossyPlane::U, span, dc);
    let mut residual = [5i32; 64];
    residual[9] = 300;
    residual[10] = -300;
    lossy.fill_chroma_444_tx8x8_leaf(Av2LossyPlane::U, &analysis, &residual);
    assert_eq!(lossy.recon_sample(Av2LossyPlane::U, 8, 8), 25);
    assert_eq!(lossy.recon_sample(Av2LossyPlane::U, 15, 15), 25);
    assert_eq!(lossy.recon_sample(Av2LossyPlane::U, 9, 9), 255);
    assert_eq!(lossy.recon_sample(Av2LossyPlane::U, 10, 9), 0);
    assert_eq!(lossy.recon_sample(Av2LossyPlane::U, 7, 8), 30);
    assert_eq!(lossy.recon_sample(Av2LossyPlane::U, 8, 7), 10);
    assert_eq!(lossy.recon_sample(Av2LossyPlane::V, 8, 8), 0);

    let narrow = Av2LossyTx8x8Analysis {
        leaf_x0: 0,
        leaf_y0: 0,
        visible_width: 4,
        visible_height: 8,
        predictor: [100; 64],
        residual: [0; 64],
    };
    let mut residual = [1i32; 32];
    residual[4] = 2;
    lossy.fill_chroma_422_tx4x8_leaf(Av2LossyPlane::V, &narrow, &residual);
    assert_eq!(lossy.recon_sample(Av2LossyPlane::V, 0, 0), 101);
    assert_eq!(lossy.recon_sample(Av2LossyPlane::V, 0, 1), 102);
    assert_eq!(lossy.recon_sample(Av2LossyPlane::V, 3, 7), 101);
    assert_eq!(lossy.recon_sample(Av2LossyPlane::V, 4, 0), 0);
}
