use vstd::prelude::*;

verus! {

/// `value / divisor` rounded to the nearest integer, halves away from zero.
pub open spec fn round_div_spec(value: int, divisor: int) -> int {
    if value >= 0 {
        (value + divisor / 2) / divisor
    } else {
        -((-value + divisor / 2) / divisor)
    }
}

/// `value` rounded to the nearest multiple of `step`, halves away from zero.
pub open spec fn quantize_to_step_spec(value: int, step: int) -> int {
    round_div_spec(value, step) * step
}

/// `value / divisor` rounded to the nearest integer, halves away from zero.
pub fn round_div_i32(value: i32, divisor: i32) -> (r: i32)
    requires
        divisor > 0,
        value >= 0 ==> value + divisor / 2 <= i32::MAX,
        value < 0 ==> -value + divisor / 2 <= i32::MAX,
    ensures
        r == round_div_spec(value as int, divisor as int),
{
    if value >= 0 {
        (value + divisor / 2) / divisor
    } else {
        -((-value + divisor / 2) / divisor)
    }
}

/// `value` rounded to the nearest multiple of `step`.
pub fn quantize_i32_to_step(value: i32, step: i32) -> (r: i32)
    requires
        step > 0,
        value >= 0 ==> value + step / 2 <= i32::MAX,
        value < 0 ==> -value + step / 2 <= i32::MAX,
        i32::MIN <= quantize_to_step_spec(value as int, step as int) <= i32::MAX,
    ensures
        r == quantize_to_step_spec(value as int, step as int),
{
    round_div_i32(value, step) * step
}

/// Rounding to a multiple of `step` moves a value by at most `step`, so its
/// magnitude grows by at most `step`.
pub proof fn lemma_quantize_to_step_bound(value: int, step: int)
    requires
        step > 0,
    ensures
        -(if value < 0 { -value } else { value }) - step <= quantize_to_step_spec(value, step)
            <= (if value < 0 { -value } else { value }) + step,
{
    let a = if value < 0 { -value } else { value };
    let n = a + step / 2;
    let q = n / step;
    assert(0 <= q * step <= n) by (nonlinear_arith)
        requires
            n >= 0,
            step > 0,
            q == n / step,
    ;
    assert(step / 2 <= step);
    if value >= 0 {
        assert(round_div_spec(value, step) == q);
        assert(quantize_to_step_spec(value, step) == q * step);
    } else {
        assert(round_div_spec(value, step) == -q);
        assert((-q) * step == -(q * step)) by (nonlinear_arith);
        assert(quantize_to_step_spec(value, step) == -(q * step));
    }
}

/// Rounding to a multiple of `step` gives a multiple of `step` at most half
/// a step from the value.
pub proof fn lemma_quantize_to_step_nearest(value: int, step: int)
    requires
        step > 0,
    ensures
        quantize_to_step_spec(value, step) % step == 0,
        -step <= 2 * (quantize_to_step_spec(value, step) - value) <= step,
{
    let a = if value < 0 { -value } else { value };
    let n = a + step / 2;
    let q = n / step;
    assert(q * step <= n < q * step + step) by (nonlinear_arith)
        requires
            n >= 0,
            step > 0,
            q == n / step,
    ;
    vstd::arithmetic::div_mod::lemma_mod_multiples_basic(q, step);
    assert(-step <= 2 * (q * step - a) <= step) by (nonlinear_arith)
        requires
            q * step <= a + step / 2 < q * step + step,
            step > 0,
    ;
    if value >= 0 {
        assert(round_div_spec(value, step) == q);
    } else {
        assert(round_div_spec(value, step) == -q);
        vstd::arithmetic::div_mod::lemma_mod_multiples_basic(-q, step);
        assert((-q) * step == -(q * step)) by (nonlinear_arith);
    }
}

} // verus!
