use framefinery_codecs::geometry::{TX4X4_SAMPLES, TX8X8_SAMPLES};
use framefinery_codecs::inverse_transform::{
    av2_idct4x4, av2_idct4x4_dc_only, av2_idct8x8, av2_idct8x8_dc_only,
};
use framefinery_codecs::sample::SampleBitDepth;

#[test]
fn dc_only_inverse_matches_full_inverse() {
    for bit_depth in [
        SampleBitDepth::new(8).unwrap(),
        SampleBitDepth::new(10).unwrap(),
        SampleBitDepth::new(12).unwrap(),
    ] {
        for dc in [-32768, -1024, -1, 0, 1, 1024, 32767] {
            let mut coefficients = [0; TX4X4_SAMPLES];
            coefficients[0] = dc;
            assert_eq!(
                av2_idct4x4_dc_only(&coefficients, bit_depth),
                av2_idct4x4(&coefficients, bit_depth),
                "DC-only inverse mismatch for {bit_depth:?}, dc={dc}"
            );
        }
    }
}

#[test]
fn dc_only_inverse_8x8_matches_full_inverse() {
    for bit_depth in [
        SampleBitDepth::new(8).unwrap(),
        SampleBitDepth::new(10).unwrap(),
        SampleBitDepth::new(12).unwrap(),
    ] {
        for dc in [-32768, -1024, -1, 0, 1, 1024, 32767] {
            let mut coefficients = [0; TX8X8_SAMPLES];
            coefficients[0] = dc;
            assert_eq!(
                av2_idct8x8_dc_only(&coefficients, bit_depth),
                av2_idct8x8(&coefficients, bit_depth),
                "8x8 DC-only inverse mismatch for {bit_depth:?}, dc={dc}"
            );
        }
    }
}
