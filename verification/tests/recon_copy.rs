use framefinery_codecs::lossless_state::{
    Av2EdgeSource, Av2LosslessPlane, Av2LosslessSubsampledModeSearch, Av2LosslessSubsampledTileState,
};
use framefinery_codecs::planar_layout::{Av2TileRegion, Av2VideoGeometry};
use framefinery_codecs::sample::{Av2ChromaFormat, SampleBitDepth};
use framefinery_codecs::block_size::Av2MvpBlockSize;
use framefinery_codecs::chroma444_leaf::Av2ChromaTx4x4Span;

fn source_frame() -> Vec<u8> {
    (0..(64 + 2 * 16)).map(|i| (i + 1) as u8).collect()
}

#[test]
fn copying_a_block_fills_only_that_block() {
    let geometry = Av2VideoGeometry { width: 8, height: 8 };
    let source = source_frame();
    let mut lossless = Av2LosslessSubsampledTileState::new(
        geometry,
        Av2TileRegion::root(geometry),
        Av2ChromaFormat::Yuv420,
        SampleBitDepth::new(8).unwrap(),
        Av2LosslessSubsampledModeSearch::Exhaustive,
        &source,
        vec![0u8; source.len()],
    );
    lossless.copy_source_to_recon_txb(Av2LosslessPlane::Y, 4, 4);
    let recon = lossless.into_recon();
    for y in 0..8 {
        for x in 0..8 {
            let i = y * 8 + x;
            if x >= 4 && y >= 4 {
                assert_eq!(recon[i], source[i]);
            } else {
                assert_eq!(recon[i], 0);
            }
        }
    }
    assert!(recon[64..].iter().all(|&b| b == 0));
}

#[test]
fn copying_a_block_at_the_plane_edge_is_clipped() {
    let geometry = Av2VideoGeometry { width: 8, height: 8 };
    let source = source_frame();
    let mut lossless = Av2LosslessSubsampledTileState::new(
        geometry,
        Av2TileRegion::root(geometry),
        Av2ChromaFormat::Yuv420,
        SampleBitDepth::new(8).unwrap(),
        Av2LosslessSubsampledModeSearch::Exhaustive,
        &source,
        vec![0u8; source.len()],
    );
    lossless.copy_source_to_recon_txb(Av2LosslessPlane::U, 2, 2);
    let recon = lossless.into_recon();
    for y in 0..4 {
        for x in 0..4 {
            let i = 64 + y * 4 + x;
            let expected = if x >= 2 && y >= 2 { source[i] } else { 0 };
            assert_eq!(recon[i], expected);
        }
    }
}

#[test]
fn copying_the_region_copies_every_plane() {
    let geometry = Av2VideoGeometry { width: 8, height: 8 };
    let source = source_frame();
    let mut lossless = Av2LosslessSubsampledTileState::new(
        geometry,
        Av2TileRegion::root(geometry),
        Av2ChromaFormat::Yuv420,
        SampleBitDepth::new(8).unwrap(),
        Av2LosslessSubsampledModeSearch::Exhaustive,
        &source,
        vec![0u8; source.len()],
    );
    lossless.copy_source_to_recon_region();
    assert_eq!(lossless.into_recon(), source);
}

#[test]
fn source_backed_reconstruction_is_left_empty() {
    let geometry = Av2VideoGeometry { width: 8, height: 8 };
    let source = source_frame();
    let mut lossless = Av2LosslessSubsampledTileState::new(
        geometry,
        Av2TileRegion::root(geometry),
        Av2ChromaFormat::Yuv420,
        SampleBitDepth::new(8).unwrap(),
        Av2LosslessSubsampledModeSearch::FastScreenContent,
        &source,
        Vec::new(),
    );
    lossless.copy_source_to_recon_region();
    lossless.copy_source_to_recon_txb(Av2LosslessPlane::Y, 0, 0);
    assert!(lossless.into_recon().is_empty());
}

#[test]
fn source_backed_copy_ignores_any_block_origin() {
    let geometry = Av2VideoGeometry { width: 8, height: 8 };
    let source = source_frame();
    let mut lossless = Av2LosslessSubsampledTileState::new(
        geometry,
        Av2TileRegion::root(geometry),
        Av2ChromaFormat::Yuv420,
        SampleBitDepth::new(8).unwrap(),
        Av2LosslessSubsampledModeSearch::FastScreenContent,
        &source,
        vec![0u8; source.len()],
    );
    lossless.copy_source_to_recon_txb(Av2LosslessPlane::Y, 1000, usize::MAX);
    let recon = lossless.into_recon();
    assert!(recon.iter().all(|&b| b == 0));
}

#[test]
fn copying_a_leaf_reconstructs_its_luma_and_chroma_blocks_exactly() {
    let geometry = Av2VideoGeometry { width: 16, height: 16 };
    let source: Vec<u8> = (0..(256 + 2 * 64)).map(|i| (i % 251 + 1) as u8).collect();
    let mut lossless = Av2LosslessSubsampledTileState::new(
        geometry,
        Av2TileRegion::root(geometry),
        Av2ChromaFormat::Yuv420,
        SampleBitDepth::new(8).unwrap(),
        Av2LosslessSubsampledModeSearch::Exhaustive,
        &source,
        vec![0u8; source.len()],
    );
    let span = Av2ChromaTx4x4Span { row: 0, col: 0, width: 1, height: 1 };
    lossless.copy_source_to_recon_leaf(0, 0, Av2MvpBlockSize::new(8, 8), 4, 4, span);
    let recon = lossless.into_recon();
    for y in 0..16 {
        for x in 0..16 {
            let i = y * 16 + x;
            let expected = if x < 8 && y < 8 { source[i] } else { 0 };
            assert_eq!(recon[i], expected);
        }
    }
    for plane_base in [256, 256 + 64] {
        for y in 0..8 {
            for x in 0..8 {
                let i = plane_base + y * 8 + x;
                let expected = if x < 4 && y < 4 { source[i] } else { 0 };
                assert_eq!(recon[i], expected);
            }
        }
    }
}

#[test]
fn copying_a_leaf_stops_at_the_visible_tile() {
    let geometry = Av2VideoGeometry { width: 16, height: 16 };
    let source: Vec<u8> = (0..(256 + 2 * 64)).map(|i| (i % 251 + 1) as u8).collect();
    let mut lossless = Av2LosslessSubsampledTileState::new(
        geometry,
        Av2TileRegion::root(geometry),
        Av2ChromaFormat::Yuv420,
        SampleBitDepth::new(8).unwrap(),
        Av2LosslessSubsampledModeSearch::Exhaustive,
        &source,
        vec![0u8; source.len()],
    );
    let span = Av2ChromaTx4x4Span { row: 0, col: 0, width: 0, height: 0 };
    lossless.copy_source_to_recon_leaf(2, 2, Av2MvpBlockSize::new(16, 16), 3, 4, span);
    let recon = lossless.into_recon();
    for y in 0..16 {
        for x in 0..16 {
            let i = y * 16 + x;
            let expected = if x >= 8 && y >= 8 && y < 12 { source[i] } else { 0 };
            assert_eq!(recon[i], expected);
        }
    }
    assert!(recon[256..].iter().all(|&b| b == 0));
}

fn gradient_state(source: &[u8]) -> Av2LosslessSubsampledTileState<'_> {
    let geometry = Av2VideoGeometry { width: 16, height: 16 };
    Av2LosslessSubsampledTileState::new(
        geometry,
        Av2TileRegion::root(geometry),
        Av2ChromaFormat::Yuv420,
        SampleBitDepth::new(8).unwrap(),
        Av2LosslessSubsampledModeSearch::Exhaustive,
        source,
        vec![0u8; source.len()],
    )
}

#[test]
fn copying_a_leaf_twice_matches_copying_it_once() {
    let source: Vec<u8> = (0..(256 + 2 * 64)).map(|i| (i * 7 % 253 + 1) as u8).collect();
    let span = Av2ChromaTx4x4Span { row: 1, col: 0, width: 1, height: 1 };
    let mut once = gradient_state(&source);
    once.copy_source_to_recon_leaf(2, 0, Av2MvpBlockSize::new(8, 8), 4, 4, span);
    let mut twice = gradient_state(&source);
    twice.copy_source_to_recon_leaf(2, 0, Av2MvpBlockSize::new(8, 8), 4, 4, span);
    twice.copy_source_to_recon_leaf(2, 0, Av2MvpBlockSize::new(8, 8), 4, 4, span);
    assert_eq!(once.into_recon(), twice.into_recon());
}

#[test]
fn copying_a_block_past_the_plane_width_copies_nothing() {
    let source: Vec<u8> = (0..(256 + 2 * 64)).map(|i| (i % 251 + 1) as u8).collect();
    let mut lossless = gradient_state(&source);
    lossless.copy_source_to_recon_txb(Av2LosslessPlane::Y, 16, 0);
    lossless.copy_source_to_recon_txb(Av2LosslessPlane::U, 40, 4);
    assert!(lossless.into_recon().iter().all(|&b| b == 0));
}

#[test]
fn bdpcm_prefix_sums_from_the_edge_give_back_the_source_block() {
    let source: Vec<u8> = (0..(256 + 2 * 64)).map(|i| ((i * 37) % 241 + 3) as u8).collect();
    let lossless = gradient_state(&source);
    let (x0, y0) = (4usize, 8usize);
    for horz in [true, false] {
        let residual = lossless.dpcm_residual4x4_with_edge_predictors(
            Av2LosslessPlane::Y,
            x0,
            y0,
            horz,
            Av2EdgeSource::Source,
        );
        for ly in 0..4 {
            for lx in 0..4 {
                let mut sum: i32 = if horz {
                    lossless.source_backed_h_predictor(Av2LosslessPlane::Y, x0, y0, ly) as i32
                } else {
                    lossless.source_backed_v_predictor(Av2LosslessPlane::Y, x0, y0, lx) as i32
                };
                if horz {
                    for k in 0..=lx {
                        sum += residual[ly * 4 + k];
                    }
                } else {
                    for k in 0..=ly {
                        sum += residual[k * 4 + lx];
                    }
                }
                let expected = source[(y0 + ly) * 16 + x0 + lx] as i32;
                assert_eq!(sum, expected);
            }
        }
    }
}

#[test]
fn inter_residual_reads_a_block_past_the_right_edge_by_row_stride() {
    let source: Vec<u8> = (0..(256 + 2 * 64)).map(|i| ((i * 13) % 239 + 5) as u8).collect();
    let lossless = gradient_state(&source);
    let reference = source.clone();
    let residual = lossless.inter_residual4x4(&reference, Av2LosslessPlane::Y, 14, 0, 0, -4);
    for ly in 0..4 {
        for lx in 0..4 {
            let expected = source[ly * 16 + 14 + lx] as i32 - source[ly * 16 + 10 + lx] as i32;
            assert_eq!(residual[ly * 4 + lx], expected);
        }
    }
}
