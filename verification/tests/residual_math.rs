use framefinery_codecs::residual_math::{quantize_i32_to_step, round_div_i32};

#[test]
fn round_div_rounds_halves_away_from_zero() {
    assert_eq!(round_div_i32(7, 2), 4);
    assert_eq!(round_div_i32(-7, 2), -4);
    assert_eq!(round_div_i32(5, 4), 1);
    assert_eq!(round_div_i32(6, 4), 2);
    assert_eq!(round_div_i32(-6, 4), -2);
    assert_eq!(round_div_i32(0, 3), 0);
}

#[test]
fn quantize_to_step_picks_the_nearest_multiple() {
    assert_eq!(quantize_i32_to_step(10, 4), 12);
    assert_eq!(quantize_i32_to_step(9, 4), 8);
    assert_eq!(quantize_i32_to_step(-6, 4), -8);
    assert_eq!(quantize_i32_to_step(10, 32), 0);
    assert_eq!(quantize_i32_to_step(10, 8), 8);
}
