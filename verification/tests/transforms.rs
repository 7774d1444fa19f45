use framefinery_codecs::forward_transform::{av2_fdct4x4, av2_fdct4x8, av2_fdct8x8, round_power_of_two_i64};
use framefinery_codecs::inverse_transform::{av2_idct4x4, av2_idct4x8, av2_idct8x8};
use framefinery_codecs::sample::SampleBitDepth;
use framefinery_codecs::walsh_hadamard::{av2_fwht4x4, av2_iwht4x4};

#[test]
fn forward_dct4x4_of_a_flat_block_is_dc_only() {
    let mut expected = [0i32; 16];
    expected[0] = 32;
    assert_eq!(av2_fdct4x4(&[1; 16]), expected);
    expected[0] = 320;
    assert_eq!(av2_fdct4x4(&[10; 16]), expected);
}

#[test]
fn forward_transforms_of_zero_are_zero() {
    assert_eq!(av2_fdct4x4(&[0; 16]), [0; 16]);
    assert_eq!(av2_fdct8x8(&[0; 64]), [0; 64]);
    assert_eq!(av2_fdct4x8(&[0; 32]), [0; 32]);
}

#[test]
fn forward_dct8x8_concentrates_a_flat_block_in_dc() {
    let out = av2_fdct8x8(&[4; 64]);
    assert!(out[0] > 0);
    assert!(out[1..].iter().all(|&c| c == 0));
}

#[test]
fn inverse_transforms_of_zero_are_zero() {
    let bit_depth = SampleBitDepth::new(8).unwrap();
    assert_eq!(av2_idct4x4(&[0; 16], bit_depth), [0; 16]);
    assert_eq!(av2_idct8x8(&[0; 64], bit_depth), [0; 64]);
    assert_eq!(av2_idct4x8(&[0; 32], bit_depth), [0; 32]);
}

#[test]
fn inverse_dct4x8_of_a_dc_coefficient_is_flat() {
    let bit_depth = SampleBitDepth::new(8).unwrap();
    let mut coefficients = [0i32; 32];
    coefficients[0] = 512;
    let out = av2_idct4x8(&coefficients, bit_depth);
    assert!(out.iter().all(|&s| s == out[0]));
    assert!(out[0] > 0);
}

#[test]
fn rounding_shift_rounds_half_up() {
    assert_eq!(round_power_of_two_i64(5, 1), 3);
    assert_eq!(round_power_of_two_i64(-5, 1), -2);
    assert_eq!(round_power_of_two_i64(8191, 14), 0);
    assert_eq!(round_power_of_two_i64(8192, 14), 1);
}

#[test]
fn walsh_hadamard_round_trip_restores_the_residual() {
    let residual: [i32; 16] = [3, -1, 4, 1, -5, 9, 2, -6, 5, 3, -5, 8, 9, -7, 9, 3];
    let coefficients = av2_fwht4x4(&residual);
    assert_eq!(av2_iwht4x4(&coefficients), residual);
    let mut flat = [0i32; 16];
    flat[0] = 256;
    assert_eq!(av2_fwht4x4(&[8; 16]), flat);
}
