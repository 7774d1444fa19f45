use framefinery_codecs::geometry::{TX4X4_SAMPLES, TX4X8_SAMPLES, TX8X8_SAMPLES};
use framefinery_codecs::quantization::{
    av2_regular_dequantize, av2_regular_quantize_coefficient, av2_regular_quantize_with_params,
    av2_regular_quantized_level_coefficients, Av2RegularQuantParams,
};
use framefinery_codecs::sample::SampleBitDepth;

fn expected_regular_quantization<const SAMPLES: usize>(
    coefficients: &[i32; SAMPLES],
    params: Av2RegularQuantParams,
) -> ([i32; SAMPLES], [i32; SAMPLES]) {
    let mut qcoeff = [0; SAMPLES];
    for pos in 0..SAMPLES {
        qcoeff[pos] = av2_regular_quantize_coefficient(coefficients[pos], params, pos != 0);
    }
    let dqcoeff = av2_regular_dequantize(&qcoeff, params.dequant);
    (qcoeff, dqcoeff)
}

fn expected_quantized_levels<const SAMPLES: usize>(qcoeff: &[i32; SAMPLES]) -> [i32; SAMPLES] {
    let mut coefficients = [0; SAMPLES];
    for (dst, &level) in coefficients.iter_mut().zip(qcoeff) {
        *dst = level * 8;
    }
    coefficients
}

#[test]
fn regular_quantization_contract_matches_all_transform_sizes() {
    let bit_depth = SampleBitDepth::new(10).unwrap();
    let params = Av2RegularQuantParams::new(91, bit_depth);

    let coefficients_4x4: [i32; TX4X4_SAMPLES] = std::array::from_fn(|pos| pos as i32 * 97 - 511);
    let expected_4x4 = expected_regular_quantization(&coefficients_4x4, params);
    assert_eq!(
        av2_regular_quantize_with_params(&coefficients_4x4, params),
        expected_4x4
    );
    assert_eq!(
        av2_regular_quantized_level_coefficients(&expected_4x4.0),
        expected_quantized_levels(&expected_4x4.0)
    );

    let coefficients_8x8: [i32; TX8X8_SAMPLES] = std::array::from_fn(|pos| pos as i32 * 43 - 997);
    let expected_8x8 = expected_regular_quantization(&coefficients_8x8, params);
    assert_eq!(
        av2_regular_quantize_with_params(&coefficients_8x8, params),
        expected_8x8
    );
    assert_eq!(
        av2_regular_quantized_level_coefficients(&expected_8x8.0),
        expected_quantized_levels(&expected_8x8.0)
    );

    let coefficients_4x8: [i32; TX4X8_SAMPLES] = std::array::from_fn(|pos| pos as i32 * 61 - 733);
    let expected_4x8 = expected_regular_quantization(&coefficients_4x8, params);
    assert_eq!(
        av2_regular_quantize_with_params(&coefficients_4x8, params),
        expected_4x8
    );
    assert_eq!(
        av2_regular_quantized_level_coefficients(&expected_4x8.0),
        expected_quantized_levels(&expected_4x8.0)
    );
}

#[test]
fn dequantize_truncates_to_32_bits_outside_the_quantizer_range() {
    let mut levels = [0i32; 16];
    levels[0] = 0x7fff_ffff;
    levels[1] = -5;
    let dq = framefinery_codecs::quantization::av2_regular_dequantize(&levels, [16, 8]);
    assert_eq!(dq[0], ((0x7fff_ffffi64 * 16 + 4) >> 3) as i32);
    assert_eq!(dq[0], -2);
    assert_eq!(dq[1], -5);
    assert!(dq[2..].iter().all(|&v| v == 0));
}
