use framefinery_codecs::geometry::TX4X4_SAMPLES;
use framefinery_codecs::lossless_state::{
    Av2LosslessPlane, Av2LosslessSubsampledModeSearch, Av2LosslessSubsampledTileState,
};
use framefinery_codecs::planar_layout::{Av2TileRegion, Av2VideoGeometry};
use framefinery_codecs::sample::{Av2ChromaFormat, SampleBitDepth};

#[test]
fn av2_lossless_422_chroma_h_predictor_uses_row_edges() {
    let geometry = Av2VideoGeometry {
        width: 16,
        height: 16,
    };
    let y_len = geometry.width * geometry.height;
    let c_width = geometry.width / 2;
    let c_len = c_width * geometry.height;
    let mut source = vec![128u8; y_len + 2 * c_len];
    let v_offset = y_len + c_len;
    for y in 0..geometry.height {
        for x in 0..c_width {
            source[v_offset + y * c_width + x] = 96 + (y as u8) * 4;
        }
    }
    let recon = source.clone();
    let lossless = Av2LosslessSubsampledTileState::new(
        geometry,
        Av2TileRegion::root(geometry),
        Av2ChromaFormat::Yuv422,
        SampleBitDepth::new(8).expect("valid bit depth"),
        Av2LosslessSubsampledModeSearch::Exhaustive,
        &source,
        recon,
    );

    assert_eq!(
        lossless.tx4x4_coefficients(Av2LosslessPlane::V, 4, 0),
        [0; TX4X4_SAMPLES]
    );
}
