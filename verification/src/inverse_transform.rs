use vstd::prelude::*;
use vstd::arithmetic::power2::{pow2, lemma2_to64};
use crate::sample::SampleBitDepth;
use crate::forward_transform::{ints, round_shift_spec, round_power_of_two_i64, AV2_NEW_INV_SQRT2, AV2_NEW_SQRT2_BITS};

verus! {

/// `v` clamped to `lo..=hi`.
pub open spec fn clamp_spec(v: int, lo: int, hi: int) -> int {
    if v < lo { lo } else if v > hi { hi } else { v }
}

/// Arithmetic right shift: `x` divided by `2^shift`, rounded toward negative
/// infinity.
pub open spec fn shr_spec(x: int, shift: nat) -> int {
    x / (pow2(shift) as int)
}

/// Arithmetic right shift of a 64-bit value by a small amount.
pub fn shr_i64(x: i64, shift: u32) -> (r: i64)
    requires
        1 <= shift <= 14,
        -0x4000_0000_0000_0000 <= x <= 0x4000_0000_0000_0000,
    ensures
        r == shr_spec(x as int, shift as nat),
{
    let d = crate::sample::pow2_u32(shift) as i64;
    if x >= 0 {
        x / d
    } else {
        proof {
            assert(-((-x + d - 1) / (d as int)) == (x as int) / (d as int)) by (nonlinear_arith)
                requires
                    x < 0,
                    d > 0,
            ;
        }
        -((-x + d - 1) / d)
    }
}

/// `v` clamped to `lo..=hi`.
pub fn clamp_i64(v: i64, lo: i64, hi: i64) -> (r: i64)
    requires
        lo <= hi,
    ensures
        r == clamp_spec(v as int, lo as int, hi as int),
{
    if v < lo {
        lo
    } else if v > hi {
        hi
    } else {
        v
    }
}

/// Output `k` of the 4-point inverse DCT of `(x0, x1, x2, x3)` with a
/// rounding shift and output clamp.
pub open spec fn inv_dct4_out(x0: int, x1: int, x2: int, x3: int, k: int, shift: nat, lo: int, hi: int) -> int {
    let add = pow2((shift - 1) as nat) as int;
    let b0 = 83 * x1 + 35 * x3;
    let b1 = 35 * x1 - 83 * x3;
    let a0 = 64 * x0 + 64 * x2;
    let a1 = 64 * x0 - 64 * x2;
    let v = if k == 0 { a0 + b0 } else if k == 1 { a1 + b1 } else if k == 2 { a1 - b1 } else { a0 - b0 };
    clamp_spec(shr_spec(v + add, shift), lo, hi)
}

/// One separable 4x4 inverse-DCT pass: row `j` of the input becomes column
/// `j` of the output.
pub open spec fn inv_dct4_pass_spec(x: Seq<int>, shift: nat, lo: int, hi: int) -> Seq<int> {
    Seq::new(16, |p: int| {
        let k = p / 4;
        let j = p % 4;
        inv_dct4_out(x[4 * j], x[4 * j + 1], x[4 * j + 2], x[4 * j + 3], k, shift, lo, hi)
    })
}

/// Intermediate range bound `2^(bits + 7)` of the inverse transforms.
pub open spec fn inter_bound(bits: nat) -> int {
    pow2((bits + 7) as nat) as int
}

/// Column output range bound `2^bits`.
pub open spec fn col_bound(bits: nat) -> int {
    pow2(bits) as int
}

/// Full 4x4 inverse DCT: clamp to the intermediate range, a row pass with
/// shift 7, then a column pass with shift 10 clamped to the residual range.
pub open spec fn idct4x4_spec(input: Seq<i32>, bits: nat) -> Seq<int> {
    let lo = -inter_bound(bits);
    let hi = inter_bound(bits) - 1;
    let clamped = Seq::new(16, |i: int| clamp_spec(input[i] as int, lo, hi));
    let tmp = inv_dct4_pass_spec(clamped, 7, lo, hi);
    inv_dct4_pass_spec(tmp, 10, -col_bound(bits), col_bound(bits) - 1)
}

/// The constant sample of a DC-only 4x4 inverse.
pub open spec fn idct4x4_dc_sample_spec(dc: i32, bits: nat) -> int {
    let first = clamp_spec(shr_spec(64 * dc + 64, 7), -inter_bound(bits), inter_bound(bits) - 1);
    clamp_spec(shr_spec(64 * first + 512, 10), -col_bound(bits), col_bound(bits) - 1)
}

/// Range bounds of the inverse transforms for a bit depth.
fn inverse_ranges(bit_depth: SampleBitDepth) -> (r: (i64, i64, i64, i64))
    requires
        bit_depth@ <= 12,
    ensures
        r.0 == -inter_bound(bit_depth@),
        r.1 == inter_bound(bit_depth@) - 1,
        r.2 == -col_bound(bit_depth@),
        r.3 == col_bound(bit_depth@) - 1,
        r.1 <= 0x8_0000,
        r.1 >= 0x7fff,
        r.3 <= 0x1000,
        r.3 >= 255,
{
    let bits = bit_depth.bits() as u32;
    let inter = crate::sample::pow2_u32(bits + 7) as i64;
    let col = crate::sample::pow2_u32(bits) as i64;
    proof {
        lemma2_to64();
        if bits + 7 < 19 {
            vstd::arithmetic::power2::lemma_pow2_strictly_increases((bits + 7) as nat, 19);
        }
        if bits < 12 {
            vstd::arithmetic::power2::lemma_pow2_strictly_increases(bits as nat, 12);
        }
        if bits > 8 {
            vstd::arithmetic::power2::lemma_pow2_strictly_increases(8, bits as nat);
            vstd::arithmetic::power2::lemma_pow2_strictly_increases(15, (bits + 7) as nat);
        }
    }
    (-inter, inter - 1, -col, col - 1)
}

/// Output `k` of one 4-point inverse DCT.
fn inv_dct4_point(x0: i64, x1: i64, x2: i64, x3: i64, k: usize, shift: u32, lo: i64, hi: i64) -> (r: i64)
    requires
        k < 4,
        1 <= shift <= 14,
        lo <= hi,
        -0x10_0000 <= x0 <= 0x10_0000,
        -0x10_0000 <= x1 <= 0x10_0000,
        -0x10_0000 <= x2 <= 0x10_0000,
        -0x10_0000 <= x3 <= 0x10_0000,
    ensures
        r == inv_dct4_out(x0 as int, x1 as int, x2 as int, x3 as int, k as int, shift as nat, lo as int, hi as int),
        lo <= r <= hi,
{
    let add = crate::sample::pow2_u32(shift - 1) as i64;
    // Kernel rows 0..3 of the 4-point DCT: [64, 64], [83, 35], [64, -64], [35, -83].
    let b0 = 83 * x1 + 35 * x3;
    let b1 = 35 * x1 - 83 * x3;
    let a0 = 64 * x0 + 64 * x2;
    let a1 = 64 * x0 - 64 * x2;
    let v = if k == 0 { a0 + b0 } else if k == 1 { a1 + b1 } else if k == 2 { a1 - b1 } else { a0 - b0 };
    clamp_i64(shr_i64(v + add, shift), lo, hi)
}

/// One separable 4x4 inverse-DCT pass.
pub fn inv_dct4_pass(input: &[i64; 16], shift: u32, min: i64, max: i64) -> (r: [i64; 16])
    requires
        1 <= shift <= 14,
        min <= max,
        forall|i: int| 0 <= i < 16 ==> -0x10_0000 <= #[trigger] input[i] <= 0x10_0000,
    ensures
        forall|i: int| 0 <= i < 16 ==> #[trigger] r[i] == inv_dct4_pass_spec(Seq::new(16, |q: int| input[q] as int), shift as nat, min as int, max as int)[i],
        forall|i: int| 0 <= i < 16 ==> min <= #[trigger] r[i] <= max,
{
    let ghost x = Seq::new(16, |q: int| input[q] as int);
    let mut output = [0i64; 16];
    let mut j: usize = 0;
    while j < 4
        invariant
            j <= 4,
            1 <= shift <= 14,
            min <= max,
            x == Seq::new(16, |q: int| input[q] as int),
            forall|i: int| 0 <= i < 16 ==> -0x10_0000 <= #[trigger] input[i] <= 0x10_0000,
            forall|p: int| 0 <= p < 16 && p % 4 < j ==> #[trigger] output[p] == inv_dct4_pass_spec(x, shift as nat, min as int, max as int)[p],
            forall|p: int| 0 <= p < 16 && p % 4 < j ==> min <= #[trigger] output[p] <= max,
        decreases 4 - j,
    {
        let src = j * 4;
        let mut k: usize = 0;
        while k < 4
            invariant
                j < 4,
                k <= 4,
                src == j * 4,
                1 <= shift <= 14,
                min <= max,
                x == Seq::new(16, |q: int| input[q] as int),
                forall|i: int| 0 <= i < 16 ==> -0x10_0000 <= #[trigger] input[i] <= 0x10_0000,
                forall|p: int| 0 <= p < 16 && (p % 4 < j || (p % 4 == j && p / 4 < k)) ==> #[trigger] output[p] == inv_dct4_pass_spec(x, shift as nat, min as int, max as int)[p],
                forall|p: int| 0 <= p < 16 && (p % 4 < j || (p % 4 == j && p / 4 < k)) ==> min <= #[trigger] output[p] <= max,
            decreases 4 - k,
        {
            let v = inv_dct4_point(input[src], input[src + 1], input[src + 2], input[src + 3], k, shift, min, max);
            output[k * 4 + j] = v;
            proof {
                let p = (k * 4 + j) as int;
                assert(p / 4 == k && p % 4 == j);
            }
            k = k + 1;
        }
        j = j + 1;
    }
    output
}

/// Full 4x4 inverse DCT of dequantized coefficients.
pub fn av2_idct4x4(input: &[i32; 16], bit_depth: SampleBitDepth) -> (r: [i32; 16])
    requires
        bit_depth@ <= 12,
    ensures
        forall|i: int| 0 <= i < 16 ==> #[trigger] r[i] == idct4x4_spec(input@, bit_depth@)[i],
{
    let (rng_min, rng_max, col_min, col_max) = inverse_ranges(bit_depth);
    let ghost clamped_spec = Seq::new(16, |i: int| clamp_spec(input@[i] as int, rng_min as int, rng_max as int));
    let mut block = [0i64; 16];
    let mut i: usize = 0;
    while i < 16
        invariant
            i <= 16,
            rng_min == -rng_max - 1,
            0 < rng_max <= 0x8_0000,
            clamped_spec == Seq::new(16, |i: int| clamp_spec(input@[i] as int, rng_min as int, rng_max as int)),
            forall|k: int| 0 <= k < i ==> #[trigger] block[k] == clamped_spec[k],
            forall|k: int| 0 <= k < i ==> rng_min <= #[trigger] block[k] <= rng_max,
        decreases 16 - i,
    {
        block[i] = clamp_i64(input[i] as i64, rng_min, rng_max);
        i = i + 1;
    }
    proof {
        assert(Seq::new(16, |q: int| block[q] as int) =~= clamped_spec);
    }
    let tmp = inv_dct4_pass(&block, 7, rng_min, rng_max);
    proof {
        assert(Seq::new(16, |q: int| tmp[q] as int) =~= inv_dct4_pass_spec(clamped_spec, 7, rng_min as int, rng_max as int));
    }
    let out = inv_dct4_pass(&tmp, 10, col_min, col_max);
    let mut result = [0i32; 16];
    let mut n: usize = 0;
    while n < 16
        invariant
            n <= 16,
            col_max <= 0x1000,
            col_min == -col_max - 1,
            forall|k: int| 0 <= k < 16 ==> col_min <= #[trigger] out[k] <= col_max,
            forall|k: int| 0 <= k < n ==> #[trigger] result[k] == out[k],
        decreases 16 - n,
    {
        result[n] = out[n] as i32;
        n = n + 1;
    }
    result
}

/// DC-only 4x4 inverse: the two rounded and clamped stages applied to the DC
/// coefficient give one constant sample.
pub fn av2_idct4x4_dc_only(input: &[i32; 16], bit_depth: SampleBitDepth) -> (r: [i32; 16])
    requires
        bit_depth@ <= 12,
        -0x100_0000 <= input[0] <= 0x100_0000,
    ensures
        forall|i: int| 0 <= i < 16 ==> #[trigger] r[i] == idct4x4_dc_sample_spec(input[0], bit_depth@),
{
    let (rng_min, rng_max, col_min, col_max) = inverse_ranges(bit_depth);
    let first = clamp_i64(shr_i64(64 * input[0] as i64 + 64, 7), rng_min, rng_max);
    let sample = clamp_i64(shr_i64(64 * first + 512, 10), col_min, col_max);
    proof {
        assert(pow2(6) == 64 && pow2(9) == 512) by {
            lemma2_to64();
        }
    }
    [sample as i32; 16]
}

/// The DC-only inverse equals the full inverse on every block whose AC
/// coefficients are zero and whose DC lies in the intermediate range.
pub proof fn lemma_idct4x4_dc_only_matches_full(input: Seq<i32>, bits: nat)
    requires
        input.len() == 16,
        8 <= bits <= 12,
        forall|i: int| 1 <= i < 16 ==> input[i] == 0,
        -inter_bound(bits) <= input[0] <= inter_bound(bits) - 1,
    ensures
        forall|i: int| 0 <= i < 16 ==> #[trigger] idct4x4_spec(input, bits)[i] == idct4x4_dc_sample_spec(input[0], bits),
{
    let lo = -inter_bound(bits);
    let hi = inter_bound(bits) - 1;
    let clo = -col_bound(bits);
    let chi = col_bound(bits) - 1;
    lemma2_to64();
    assert(pow2(6) == 64);
    assert(pow2(9) == 512);
    vstd::arithmetic::power2::lemma_pow2_pos((bits + 7) as nat);
    let clamped = Seq::new(16, |i: int| clamp_spec(input[i] as int, lo, hi));
    assert(forall|i: int| 1 <= i < 16 ==> clamped[i] == 0);
    assert(clamped[0] == input[0] as int);
    let tmp = inv_dct4_pass_spec(clamped, 7, lo, hi);
    let first = clamp_spec(shr_spec(64 * input[0] + 64, 7), lo, hi);
    assert(shr_spec(64, 7) == 0) by {
        assert(pow2(7) == 128);
    }
    assert forall|p: int| 0 <= p < 16 implies #[trigger] tmp[p] == (if p % 4 == 0 { first } else { 0 }) by {
        let j = p % 4;
        if j != 0 {
            assert(clamped[4 * j] == 0 && clamped[4 * j + 1] == 0 && clamped[4 * j + 2] == 0 && clamped[4 * j + 3] == 0);
        } else {
            assert(clamped[1] == 0 && clamped[2] == 0 && clamped[3] == 0);
        }
    }
    let out = inv_dct4_pass_spec(tmp, 10, clo, chi);
    assert forall|p: int| 0 <= p < 16 implies #[trigger] out[p] == idct4x4_dc_sample_spec(input[0], bits) by {
        let j = p % 4;
        assert(tmp[4 * j] == first);
        assert(tmp[4 * j + 1] == 0 && tmp[4 * j + 2] == 0 && tmp[4 * j + 3] == 0);
    }
}

/// Odd-part term `k` of the 8-point inverse DCT.
pub open spec fn inv_dct8_odd(x1: int, x3: int, x5: int, x7: int, k: int) -> int {
    if k == 0 {
        89 * x1 + 75 * x3 + 50 * x5 + 18 * x7
    } else if k == 1 {
        75 * x1 - 18 * x3 - 89 * x5 - 50 * x7
    } else if k == 2 {
        50 * x1 - 89 * x3 + 18 * x5 + 75 * x7
    } else {
        18 * x1 - 50 * x3 + 75 * x5 - 89 * x7
    }
}

/// Even-part term `k` of the 8-point inverse DCT.
pub open spec fn inv_dct8_even(x0: int, x2: int, x4: int, x6: int, k: int) -> int {
    let d0 = 83 * x2 + 35 * x6;
    let d1 = 35 * x2 - 83 * x6;
    let c0 = 64 * x0 + 64 * x4;
    let c1 = 64 * x0 - 64 * x4;
    if k == 0 { c0 + d0 } else if k == 1 { c1 + d1 } else if k == 2 { c1 - d1 } else { c0 - d0 }
}

/// Output `n` of the 8-point inverse DCT of the eight values starting at
/// `base` of `x`, with a rounding shift and output clamp.
pub open spec fn inv_dct8_out(x: Seq<int>, base: int, n: int, shift: nat, lo: int, hi: int) -> int {
    let add = pow2((shift - 1) as nat) as int;
    let v = if n < 4 {
        inv_dct8_even(x[base], x[base + 2], x[base + 4], x[base + 6], n)
            + inv_dct8_odd(x[base + 1], x[base + 3], x[base + 5], x[base + 7], n)
    } else {
        inv_dct8_even(x[base], x[base + 2], x[base + 4], x[base + 6], 7 - n)
            - inv_dct8_odd(x[base + 1], x[base + 3], x[base + 5], x[base + 7], 7 - n)
    };
    clamp_spec(shr_spec(v + add, shift), lo, hi)
}

/// One separable 8x8 inverse-DCT pass: row `j` becomes column `j`.
pub open spec fn inv_dct8_pass_spec(x: Seq<int>, shift: nat, lo: int, hi: int) -> Seq<int> {
    Seq::new(64, |p: int| inv_dct8_out(x, 8 * (p % 8), p / 8, shift, lo, hi))
}

/// Full 8x8 inverse DCT: clamp, a row pass with shift 7, then a column pass
/// with shift 11 clamped to the residual range.
pub open spec fn idct8x8_spec(input: Seq<i32>, bits: nat) -> Seq<int> {
    let lo = -inter_bound(bits);
    let hi = inter_bound(bits) - 1;
    let clamped = Seq::new(64, |i: int| clamp_spec(input[i] as int, lo, hi));
    let tmp = inv_dct8_pass_spec(clamped, 7, lo, hi);
    inv_dct8_pass_spec(tmp, 11, -col_bound(bits), col_bound(bits) - 1)
}

/// The constant sample of a DC-only 8x8 inverse.
pub open spec fn idct8x8_dc_sample_spec(dc: i32, bits: nat) -> int {
    let first = clamp_spec(shr_spec(64 * dc + 64, 7), -inter_bound(bits), inter_bound(bits) - 1);
    clamp_spec(shr_spec(64 * first + 1024, 11), -col_bound(bits), col_bound(bits) - 1)
}

/// Odd-part term `k` of the 8-point inverse DCT (kernel rows 1, 3, 5, 7).
fn inv_dct8_odd_term(x1: i64, x3: i64, x5: i64, x7: i64, k: usize) -> (r: i64)
    requires
        k < 4,
        -0x10_0000 <= x1 <= 0x10_0000,
        -0x10_0000 <= x3 <= 0x10_0000,
        -0x10_0000 <= x5 <= 0x10_0000,
        -0x10_0000 <= x7 <= 0x10_0000,
    ensures
        r == inv_dct8_odd(x1 as int, x3 as int, x5 as int, x7 as int, k as int),
        -300 * 0x10_0000 <= r <= 300 * 0x10_0000,
{
    if k == 0 {
        89 * x1 + 75 * x3 + 50 * x5 + 18 * x7
    } else if k == 1 {
        75 * x1 - 18 * x3 - 89 * x5 - 50 * x7
    } else if k == 2 {
        50 * x1 - 89 * x3 + 18 * x5 + 75 * x7
    } else {
        18 * x1 - 50 * x3 + 75 * x5 - 89 * x7
    }
}

/// Even-part term `k` of the 8-point inverse DCT (kernel rows 0, 2, 4, 6).
fn inv_dct8_even_term(x0: i64, x2: i64, x4: i64, x6: i64, k: usize) -> (r: i64)
    requires
        k < 4,
        -0x10_0000 <= x0 <= 0x10_0000,
        -0x10_0000 <= x2 <= 0x10_0000,
        -0x10_0000 <= x4 <= 0x10_0000,
        -0x10_0000 <= x6 <= 0x10_0000,
    ensures
        r == inv_dct8_even(x0 as int, x2 as int, x4 as int, x6 as int, k as int),
        -300 * 0x10_0000 <= r <= 300 * 0x10_0000,
{
    let d0 = 83 * x2 + 35 * x6;
    let d1 = 35 * x2 - 83 * x6;
    let c0 = 64 * x0 + 64 * x4;
    let c1 = 64 * x0 - 64 * x4;
    if k == 0 {
        c0 + d0
    } else if k == 1 {
        c1 + d1
    } else if k == 2 {
        c1 - d1
    } else {
        c0 - d0
    }
}

/// Output `n` of one 8-point inverse DCT of `input[base..base + 8]`.
fn inv_dct8_point(input: &[i64; 64], base: usize, n: usize, shift: u32, lo: i64, hi: i64) -> (r: i64)
    requires
        n < 8,
        base + 8 <= 64,
        1 <= shift <= 14,
        lo <= hi,
        forall|i: int| 0 <= i < 64 ==> -0x10_0000 <= #[trigger] input[i] <= 0x10_0000,
    ensures
        r == inv_dct8_out(Seq::new(64, |q: int| input[q] as int), base as int, n as int, shift as nat, lo as int, hi as int),
        lo <= r <= hi,
{
    let ghost x = Seq::new(64, |q: int| input[q] as int);
    let k: usize = if n < 4 { n } else { 7 - n };
    let even = inv_dct8_even_term(input[base], input[base + 2], input[base + 4], input[base + 6], k);
    let odd = inv_dct8_odd_term(input[base + 1], input[base + 3], input[base + 5], input[base + 7], k);
    let add = crate::sample::pow2_u32(shift - 1) as i64;
    let v = if n < 4 { even + odd } else { even - odd };
    proof {
        assert(x[base as int] == input[base as int] && x[base + 1] == input[base + 1] && x[base + 2] == input[base + 2]
            && x[base + 3] == input[base + 3]);
        assert(x[base + 4] == input[base + 4] && x[base + 5] == input[base + 5] && x[base + 6] == input[base + 6]
            && x[base + 7] == input[base + 7]);
    }
    clamp_i64(shr_i64(v + add, shift), lo, hi)
}

/// One separable 8x8 inverse-DCT pass.
pub fn inv_dct8_pass(input: &[i64; 64], shift: u32, min: i64, max: i64) -> (r: [i64; 64])
    requires
        1 <= shift <= 14,
        min <= max,
        forall|i: int| 0 <= i < 64 ==> -0x10_0000 <= #[trigger] input[i] <= 0x10_0000,
    ensures
        forall|i: int| 0 <= i < 64 ==> #[trigger] r[i] == inv_dct8_pass_spec(Seq::new(64, |q: int| input[q] as int), shift as nat, min as int, max as int)[i],
        forall|i: int| 0 <= i < 64 ==> min <= #[trigger] r[i] <= max,
{
    let ghost x = Seq::new(64, |q: int| input[q] as int);
    let mut output = [0i64; 64];
    let mut j: usize = 0;
    while j < 8
        invariant
            j <= 8,
            1 <= shift <= 14,
            min <= max,
            x == Seq::new(64, |q: int| input[q] as int),
            forall|i: int| 0 <= i < 64 ==> -0x10_0000 <= #[trigger] input[i] <= 0x10_0000,
            forall|p: int| 0 <= p < 64 && p % 8 < j ==> #[trigger] output[p] == inv_dct8_pass_spec(x, shift as nat, min as int, max as int)[p],
            forall|p: int| 0 <= p < 64 && p % 8 < j ==> min <= #[trigger] output[p] <= max,
        decreases 8 - j,
    {
        let mut n: usize = 0;
        while n < 8
            invariant
                j < 8,
                n <= 8,
                1 <= shift <= 14,
                min <= max,
                x == Seq::new(64, |q: int| input[q] as int),
                forall|i: int| 0 <= i < 64 ==> -0x10_0000 <= #[trigger] input[i] <= 0x10_0000,
                forall|p: int| 0 <= p < 64 && (p % 8 < j || (p % 8 == j && p / 8 < n)) ==> #[trigger] output[p] == inv_dct8_pass_spec(x, shift as nat, min as int, max as int)[p],
                forall|p: int| 0 <= p < 64 && (p % 8 < j || (p % 8 == j && p / 8 < n)) ==> min <= #[trigger] output[p] <= max,
            decreases 8 - n,
        {
            let v = inv_dct8_point(input, j * 8, n, shift, min, max);
            output[n * 8 + j] = v;
            proof {
                let p = (n * 8 + j) as int;
                assert(p / 8 == n && p % 8 == j);
            }
            n = n + 1;
        }
        j = j + 1;
    }
    output
}

/// Full 8x8 inverse DCT of dequantized coefficients.
pub fn av2_idct8x8(input: &[i32; 64], bit_depth: SampleBitDepth) -> (r: [i32; 64])
    requires
        bit_depth@ <= 12,
    ensures
        forall|i: int| 0 <= i < 64 ==> #[trigger] r[i] == idct8x8_spec(input@, bit_depth@)[i],
{
    let (rng_min, rng_max, col_min, col_max) = inverse_ranges(bit_depth);
    let ghost clamped_spec = Seq::new(64, |i: int| clamp_spec(input@[i] as int, rng_min as int, rng_max as int));
    let mut block = [0i64; 64];
    let mut i: usize = 0;
    while i < 64
        invariant
            i <= 64,
            rng_min == -rng_max - 1,
            0 < rng_max <= 0x8_0000,
            clamped_spec == Seq::new(64, |i: int| clamp_spec(input@[i] as int, rng_min as int, rng_max as int)),
            forall|k: int| 0 <= k < i ==> #[trigger] block[k] == clamped_spec[k],
            forall|k: int| 0 <= k < i ==> rng_min <= #[trigger] block[k] <= rng_max,
        decreases 64 - i,
    {
        block[i] = clamp_i64(input[i] as i64, rng_min, rng_max);
        i = i + 1;
    }
    proof {
        assert(Seq::new(64, |q: int| block[q] as int) =~= clamped_spec);
    }
    let tmp = inv_dct8_pass(&block, 7, rng_min, rng_max);
    proof {
        assert(Seq::new(64, |q: int| tmp[q] as int) =~= inv_dct8_pass_spec(clamped_spec, 7, rng_min as int, rng_max as int));
    }
    let out = inv_dct8_pass(&tmp, 11, col_min, col_max);
    let mut result = [0i32; 64];
    let mut n: usize = 0;
    while n < 64
        invariant
            n <= 64,
            col_max <= 0x1000,
            col_min == -col_max - 1,
            forall|k: int| 0 <= k < 64 ==> col_min <= #[trigger] out[k] <= col_max,
            forall|k: int| 0 <= k < n ==> #[trigger] result[k] == out[k],
        decreases 64 - n,
    {
        result[n] = out[n] as i32;
        n = n + 1;
    }
    result
}

/// DC-only 8x8 inverse.
pub fn av2_idct8x8_dc_only(input: &[i32; 64], bit_depth: SampleBitDepth) -> (r: [i32; 64])
    requires
        bit_depth@ <= 12,
        -0x100_0000 <= input[0] <= 0x100_0000,
    ensures
        forall|i: int| 0 <= i < 64 ==> #[trigger] r[i] == idct8x8_dc_sample_spec(input[0], bit_depth@),
{
    let (rng_min, rng_max, col_min, col_max) = inverse_ranges(bit_depth);
    let first = clamp_i64(shr_i64(64 * input[0] as i64 + 64, 7), rng_min, rng_max);
    let sample = clamp_i64(shr_i64(64 * first + 1024, 11), col_min, col_max);
    proof {
        assert(pow2(6) == 64 && pow2(10) == 1024) by {
            lemma2_to64();
        }
    }
    [sample as i32; 64]
}

/// The 8x8 DC-only inverse equals the full inverse on every block whose AC
/// coefficients are zero and whose DC lies in the intermediate range.
pub proof fn lemma_idct8x8_dc_only_matches_full(input: Seq<i32>, bits: nat)
    requires
        input.len() == 64,
        8 <= bits <= 12,
        forall|i: int| 1 <= i < 64 ==> input[i] == 0,
        -inter_bound(bits) <= input[0] <= inter_bound(bits) - 1,
    ensures
        forall|i: int| 0 <= i < 64 ==> #[trigger] idct8x8_spec(input, bits)[i] == idct8x8_dc_sample_spec(input[0], bits),
{
    let lo = -inter_bound(bits);
    let hi = inter_bound(bits) - 1;
    let clo = -col_bound(bits);
    let chi = col_bound(bits) - 1;
    lemma2_to64();
    vstd::arithmetic::power2::lemma_pow2_pos((bits + 7) as nat);
    let clamped = Seq::new(64, |i: int| clamp_spec(input[i] as int, lo, hi));
    assert(forall|i: int| 1 <= i < 64 ==> clamped[i] == 0);
    assert(clamped[0] == input[0] as int);
    let tmp = inv_dct8_pass_spec(clamped, 7, lo, hi);
    let first = clamp_spec(shr_spec(64 * input[0] + 64, 7), lo, hi);
    assert(shr_spec(64, 7) == 0) by {
        assert(pow2(7) == 128);
    }
    assert forall|p: int| 0 <= p < 64 implies #[trigger] tmp[p] == (if p % 8 == 0 { first } else { 0 }) by {
        let b = 8 * (p % 8);
        assert(clamped[b + 1] == 0 && clamped[b + 2] == 0 && clamped[b + 3] == 0 && clamped[b + 4] == 0);
        assert(clamped[b + 5] == 0 && clamped[b + 6] == 0 && clamped[b + 7] == 0);
        if p % 8 != 0 {
            assert(clamped[b] == 0);
        }
    }
    let out = inv_dct8_pass_spec(tmp, 11, clo, chi);
    assert forall|p: int| 0 <= p < 64 implies #[trigger] out[p] == idct8x8_dc_sample_spec(input[0], bits) by {
        let b = 8 * (p % 8);
        assert(tmp[b] == first);
        assert(tmp[b + 1] == 0 && tmp[b + 2] == 0 && tmp[b + 3] == 0 && tmp[b + 4] == 0);
        assert(tmp[b + 5] == 0 && tmp[b + 6] == 0 && tmp[b + 7] == 0);
        assert(pow2(10) == 1024);
    }
}

/// 4-point inverse DCT of one row, rounded by `shift` and clamped.
fn inv_dct4_shifted(input: &[i32; 4], shift: u8, min: i32, max: i32) -> (r: [i32; 4])
    requires
        1 <= shift <= 14,
        min <= max,
        forall|i: int| 0 <= i < 4 ==> -0x10_0000 <= #[trigger] input[i] <= 0x10_0000,
    ensures
        forall|k: int| 0 <= k < 4 ==> #[trigger] r[k] == inv_dct4_out(input[0] as int, input[1] as int, input[2] as int, input[3] as int, k, shift as nat, min as int, max as int),
        forall|k: int| 0 <= k < 4 ==> min <= #[trigger] r[k] <= max,
{
    let mut output = [0i32; 4];
    let mut k: usize = 0;
    while k < 4
        invariant
            k <= 4,
            1 <= shift <= 14,
            min <= max,
            forall|i: int| 0 <= i < 4 ==> -0x10_0000 <= #[trigger] input[i] <= 0x10_0000,
            forall|j: int| 0 <= j < k ==> #[trigger] output[j] == inv_dct4_out(input[0] as int, input[1] as int, input[2] as int, input[3] as int, j, shift as nat, min as int, max as int),
            forall|j: int| 0 <= j < k ==> min <= #[trigger] output[j] <= max,
        decreases 4 - k,
    {
        let v = inv_dct4_point(input[0] as i64, input[1] as i64, input[2] as i64, input[3] as i64, k, shift as u32, min as i64, max as i64);
        output[k] = v as i32;
        k = k + 1;
    }
    output
}

/// 8-point inverse DCT of one column, rounded by `shift` and clamped.
fn inv_dct8_shifted(input: &[i32; 8], shift: u8, min: i32, max: i32) -> (r: [i32; 8])
    requires
        1 <= shift <= 14,
        min <= max,
        forall|i: int| 0 <= i < 8 ==> -0x10_0000 <= #[trigger] input[i] <= 0x10_0000,
    ensures
        forall|n: int| 0 <= n < 8 ==> #[trigger] r[n] == inv_dct8_out(ints(input@), 0, n, shift as nat, min as int, max as int),
        forall|n: int| 0 <= n < 8 ==> min <= #[trigger] r[n] <= max,
{
    let ghost x = ints(input@);
    proof {
        assert(x[0] == input[0] && x[1] == input[1] && x[2] == input[2] && x[3] == input[3]);
        assert(x[4] == input[4] && x[5] == input[5] && x[6] == input[6] && x[7] == input[7]);
    }
    let add = crate::sample::pow2_u32((shift - 1) as u32) as i64;
    let mut output = [0i32; 8];
    let mut n: usize = 0;
    while n < 8
        invariant
            n <= 8,
            1 <= shift <= 14,
            min <= max,
            add == pow2((shift - 1) as nat),
            add <= 0x1_0000,
            x == ints(input@),
            x[0] == input[0] && x[1] == input[1] && x[2] == input[2] && x[3] == input[3],
            x[4] == input[4] && x[5] == input[5] && x[6] == input[6] && x[7] == input[7],
            forall|i: int| 0 <= i < 8 ==> -0x10_0000 <= #[trigger] input[i] <= 0x10_0000,
            forall|j: int| 0 <= j < n ==> #[trigger] output[j] == inv_dct8_out(x, 0, j, shift as nat, min as int, max as int),
            forall|j: int| 0 <= j < n ==> min <= #[trigger] output[j] <= max,
        decreases 8 - n,
    {
        let k: usize = if n < 4 { n } else { 7 - n };
        let even = inv_dct8_even_term(input[0] as i64, input[2] as i64, input[4] as i64, input[6] as i64, k);
        let odd = inv_dct8_odd_term(input[1] as i64, input[3] as i64, input[5] as i64, input[7] as i64, k);
        let v = if n < 4 { even + odd } else { even - odd };
        let out = clamp_i64(shr_i64(v + add, shift as u32), min as i64, max as i64);
        output[n] = out as i32;
        n = n + 1;
    }
    output
}

/// The 4-wide, 8-tall coefficient block scaled by `1 / sqrt(2)` in 12-bit
/// fixed point and clamped to the intermediate range.
pub open spec fn idct4x8_scaled_input(input: Seq<i32>, bits: nat) -> Seq<int> {
    Seq::new(32, |i: int| clamp_spec(round_shift_spec(input[i] * 2896, 12), -inter_bound(bits), inter_bound(bits) - 1))
}

/// After the horizontal 4-point pass (shift 7): row `q % 8` transformed into
/// column `q % 8`.
#[verifier::opaque]
pub open spec fn idct4x8_intermediate(input: Seq<i32>, bits: nat) -> Seq<int> {
    let block = idct4x8_scaled_input(input, bits);
    let lo = -inter_bound(bits);
    let hi = inter_bound(bits) - 1;
    Seq::new(32, |q: int| {
        let row = q % 8;
        inv_dct4_out(block[4 * row], block[4 * row + 1], block[4 * row + 2], block[4 * row + 3], q / 8, 7, lo, hi)
    })
}

/// Inverse DCT of a 4-wide, 8-tall block: normalization, a horizontal
/// 4-point pass, then a vertical 8-point pass (shift 10) clamped to the
/// residual range.
#[verifier::opaque]
pub open spec fn idct4x8_spec(input: Seq<i32>, bits: nat) -> Seq<int> {
    let mid = idct4x8_intermediate(input, bits);
    Seq::new(
        32,
        |p: int| inv_dct8_out(mid.subrange(8 * (p % 4), 8 * (p % 4) + 8), 0, p / 4, 10, -col_bound(bits), col_bound(bits) - 1),
    )
}

/// Inverse DCT of dequantized 4-wide, 8-tall coefficients.
pub fn av2_idct4x8(input: &[i32; 32], bit_depth: SampleBitDepth) -> (r: [i32; 32])
    requires
        bit_depth@ <= 12,
    ensures
        forall|i: int| 0 <= i < 32 ==> #[trigger] r[i] == idct4x8_spec(input@, bit_depth@)[i],
{
    let (rng_min, rng_max, col_min, col_max) = inverse_ranges(bit_depth);
    let ghost block_spec = idct4x8_scaled_input(input@, bit_depth@);
    let mut block = [0i32; 32];
    let mut i: usize = 0;
    while i < 32
        invariant
            i <= 32,
            rng_min == -inter_bound(bit_depth@),
            rng_max == inter_bound(bit_depth@) - 1,
            rng_min == -rng_max - 1,
            0 < rng_max <= 0x8_0000,
            block_spec == idct4x8_scaled_input(input@, bit_depth@),
            forall|k: int| 0 <= k < i ==> #[trigger] block[k] == block_spec[k],
            forall|k: int| 0 <= k < i ==> rng_min <= #[trigger] block[k] <= rng_max,
        decreases 32 - i,
    {
        let scaled = round_power_of_two_i64(input[i] as i64 * AV2_NEW_INV_SQRT2 as i64, AV2_NEW_SQRT2_BITS);
        block[i] = clamp_i64(scaled, rng_min as i64, rng_max as i64) as i32;
        i = i + 1;
    }
    let ghost mid = idct4x8_intermediate(input@, bit_depth@);
    proof {
        reveal(idct4x8_intermediate);
    }
    let mut intermediate = [0i32; 32];
    let mut row: usize = 0;
    while row < 8
        invariant
            row <= 8,
            rng_min == -inter_bound(bit_depth@),
            rng_max == inter_bound(bit_depth@) - 1,
            rng_min == -rng_max - 1,
            0 < rng_max <= 0x8_0000,
            block_spec == idct4x8_scaled_input(input@, bit_depth@),
            mid == idct4x8_intermediate(input@, bit_depth@),
            forall|k: int| 0 <= k < 32 ==> #[trigger] block[k] == block_spec[k],
            forall|k: int| 0 <= k < 32 ==> rng_min <= #[trigger] block[k] <= rng_max,
            forall|q: int| 0 <= q < 32 && q % 8 < row ==> #[trigger] intermediate[q] == mid[q],
            forall|q: int| 0 <= q < 32 && q % 8 < row ==> rng_min <= #[trigger] intermediate[q] <= rng_max,
        decreases 8 - row,
    {
        let src = [block[row * 4], block[row * 4 + 1], block[row * 4 + 2], block[row * 4 + 3]];
        let dst = inv_dct4_shifted(&src, 7, rng_min as i32, rng_max as i32);
        let mut col: usize = 0;
        while col < 4
            invariant
                row < 8,
                col <= 4,
                rng_min == -inter_bound(bit_depth@),
                rng_max == inter_bound(bit_depth@) - 1,
                block_spec == idct4x8_scaled_input(input@, bit_depth@),
                mid == idct4x8_intermediate(input@, bit_depth@),
                src[0] == block_spec[4 * row] && src[1] == block_spec[4 * row + 1],
                src[2] == block_spec[4 * row + 2] && src[3] == block_spec[4 * row + 3],
                forall|j: int| 0 <= j < 4 ==> #[trigger] dst[j] == inv_dct4_out(src[0] as int, src[1] as int, src[2] as int, src[3] as int, j, 7, rng_min as int, rng_max as int),
                forall|j: int| 0 <= j < 4 ==> rng_min <= #[trigger] dst[j] <= rng_max,
                forall|q: int| 0 <= q < 32 && (q % 8 < row || (q % 8 == row && q / 8 < col)) ==> #[trigger] intermediate[q] == mid[q],
                forall|q: int| 0 <= q < 32 && (q % 8 < row || (q % 8 == row && q / 8 < col)) ==> rng_min <= #[trigger] intermediate[q] <= rng_max,
            decreases 4 - col,
        {
            proof {
                let q = (col * 8 + row) as int;
                assert(q / 8 == col && q % 8 == row);
                assert(mid[q] == inv_dct4_out(src[0] as int, src[1] as int, src[2] as int, src[3] as int, col as int, 7, rng_min as int, rng_max as int)) by {
                    reveal(idct4x8_intermediate);
                }
            }
            intermediate[col * 8 + row] = dst[col];
            col = col + 1;
        }
        row = row + 1;
    }
    let ghost out_spec = idct4x8_spec(input@, bit_depth@);
    proof {
        reveal(idct4x8_spec);
    }
    let mut output = [0i32; 32];
    let mut col: usize = 0;
    while col < 4
        invariant
            col <= 4,
            col_min == -col_bound(bit_depth@),
            col_max == col_bound(bit_depth@) - 1,
            col_max <= 0x1000,
            col_min <= col_max,
            rng_max <= 0x8_0000,
            rng_min == -rng_max - 1,
            mid == idct4x8_intermediate(input@, bit_depth@),
            out_spec == idct4x8_spec(input@, bit_depth@),
            mid.len() == 32,
            out_spec.len() == 32,
            forall|q: int| 0 <= q < 32 ==> #[trigger] intermediate[q] == mid[q],
            forall|q: int| 0 <= q < 32 ==> rng_min <= #[trigger] intermediate[q] <= rng_max,
            forall|p: int| 0 <= p < 32 && p % 4 < col ==> #[trigger] output[p] == out_spec[p],
        decreases 4 - col,
    {
        let base = col * 8;
        let src = [
            intermediate[base],
            intermediate[base + 1],
            intermediate[base + 2],
            intermediate[base + 3],
            intermediate[base + 4],
            intermediate[base + 5],
            intermediate[base + 6],
            intermediate[base + 7],
        ];
        let ghost column = mid.subrange(base as int, base + 8);
        proof {
            assert(ints(src@) =~= column);
        }
        let dst = inv_dct8_shifted(&src, 10, col_min as i32, col_max as i32);
        let mut row: usize = 0;
        while row < 8
            invariant
                col < 4,
                row <= 8,
                base == col * 8,
                col_min == -col_bound(bit_depth@),
                col_max == col_bound(bit_depth@) - 1,
                column == mid.subrange(base as int, base + 8),
                out_spec == idct4x8_spec(input@, bit_depth@),
                out_spec.len() == 32,
                mid == idct4x8_intermediate(input@, bit_depth@),
                forall|n: int| 0 <= n < 8 ==> #[trigger] dst[n] == inv_dct8_out(column, 0, n, 10, col_min as int, col_max as int),
                forall|p: int| 0 <= p < 32 && (p % 4 < col || (p % 4 == col && p / 4 < row)) ==> #[trigger] output[p] == out_spec[p],
            decreases 8 - row,
        {
            proof {
                let p = (row * 4 + col) as int;
                assert(p / 4 == row && p % 4 == col);
                assert(out_spec[p] == inv_dct8_out(column, 0, row as int, 10, col_min as int, col_max as int)) by {
                    reveal(idct4x8_spec);
                }
            }
            output[row * 4 + col] = dst[row];
            row = row + 1;
        }
        col = col + 1;
    }
    output
}

} // verus!
