use framefinery_codecs::entropy::Av2EntropyWriter;
use framefinery_codecs::lossy_dpcm_txb::{write_lossy_chroma_dpcm_txb, write_lossy_luma_dpcm_txb};
use framefinery_codecs::lossy_state::{Av2LossyPlane, Av2LossySubsampledTileState};
use framefinery_codecs::planar_layout::{Av2TileRegion, Av2VideoGeometry};
use framefinery_codecs::sample::{Av2ChromaFormat, Av2ChromaPlane, SampleBitDepth};

fn state(source: &[u8], qindex: u16) -> Av2LossySubsampledTileState<'_> {
    let geometry = Av2VideoGeometry { width: 16, height: 16 };
    Av2LossySubsampledTileState::new(
        geometry,
        Av2TileRegion::root(geometry),
        Av2ChromaFormat::Yuv420,
        SampleBitDepth::new(8).unwrap(),
        qindex,
        source,
        source.to_vec(),
    )
}

#[test]
fn flat_dpcm_blocks_code_only_the_all_zero_flag() {
    let source = vec![100u8; 256 + 2 * 64];
    let mut lossy = state(&source, 32);
    let mut writer = Av2EntropyWriter::new();
    let context = write_lossy_luma_dpcm_txb(&mut writer, 1, 0, &mut lossy, 4, 4, true);
    assert_eq!(context, 0);
    let (u_context, u_nonzero) = write_lossy_chroma_dpcm_txb(&mut writer, Av2ChromaPlane::U, 6, &mut lossy, 4, 4, false);
    assert_eq!((u_context, u_nonzero), (0, false));
    let (v_context, v_nonzero) = write_lossy_chroma_dpcm_txb(&mut writer, Av2ChromaPlane::V, 0, &mut lossy, 4, 4, true);
    assert_eq!((v_context, v_nonzero), (0, false));
    let payload = writer.finish();
    let names: Vec<&str> = payload.fields.iter().map(|f| f.name.as_str()).collect();
    assert_eq!(
        names,
        vec![
            "tile.coeff.y.txb_all_zero_tx4x4_ctx1",
            "tile.coeff.u.txb_all_zero_tx4x4_ctx6",
            "tile.coeff.v.txb_all_zero_tx4x4_ctx0",
        ]
    );
    assert!(payload.fields.iter().all(|f| f.symbol == Some(1)));
    assert_eq!(lossy.recon_sample(Av2LossyPlane::Y, 5, 5), 100);
}

#[test]
fn fine_quantizer_dpcm_blocks_reconstruct_the_source_exactly() {
    let mut source = vec![100u8; 256 + 2 * 64];
    for y in 0..4 {
        for x in 0..4 {
            source[y * 16 + x] = (10 * x + y) as u8;
        }
    }
    // Base index 1 at 8 bits: a quantizer step of one, so every candidate
    // reproduces the exact residual and the block is coded exactly.
    let mut lossy = state(&source, 1);
    let mut recon_before = Vec::new();
    for y in 0..8 {
        for x in 0..8 {
            recon_before.push(lossy.recon_sample(Av2LossyPlane::Y, x, y));
        }
    }
    let mut writer = Av2EntropyWriter::new();
    let context = write_lossy_luma_dpcm_txb(&mut writer, 1, 0, &mut lossy, 0, 0, true);
    let payload = writer.finish();
    assert_eq!(payload.fields[0].name, "tile.coeff.y.txb_nonzero_tx4x4_ctx1");
    assert!(payload.fields.len() > 1);
    assert!(context != 0);
    for y in 0..8 {
        for x in 0..8 {
            let expected = if x < 4 && y < 4 { (10 * x + y) as u16 } else { recon_before[y * 8 + x] };
            assert_eq!(lossy.recon_sample(Av2LossyPlane::Y, x, y), expected);
        }
    }
}
