use vstd::prelude::*;
use vstd::arithmetic::power2::{pow2, lemma2_to64};
use crate::inverse_transform::{shr_spec, shr_i64};

verus! {

/// Fixed-point precision of the DCT cosine constants.
pub const AV2_DCT_CONST_BITS: u8 = 14;
pub const AV2_COSPI_4_64: i32 = 16069;
pub const AV2_COSPI_8_64: i32 = 15137;
pub const AV2_COSPI_12_64: i32 = 13623;
pub const AV2_COSPI_16_64: i32 = 11585;
pub const AV2_COSPI_20_64: i32 = 9102;
pub const AV2_COSPI_24_64: i32 = 6270;
pub const AV2_COSPI_28_64: i32 = 3196;
/// `sqrt(2)` and `1 / sqrt(2)` in `AV2_NEW_SQRT2_BITS` fixed point.
pub const AV2_NEW_SQRT2: i32 = 5793;
pub const AV2_NEW_INV_SQRT2: i32 = 2896;
pub const AV2_NEW_SQRT2_BITS: u8 = 12;

/// Largest residual magnitude the forward transforms take; below it every
/// intermediate of their 32-bit arithmetic stays in range.
pub const FORWARD_TRANSFORM_INPUT_LIMIT: i32 = 0x10_0000;

/// The values of `s` as mathematical integers.
pub open spec fn ints(s: Seq<i32>) -> Seq<int> {
    s.map_values(|v: i32| v as int)
}

/// Every value of `x` lies in `-m..=m`.
pub open spec fn within(x: Seq<int>, m: int) -> bool {
    forall|i: int| 0 <= i < x.len() ==> -m <= #[trigger] x[i] <= m
}

/// `value` plus half of `2^bits`, divided by `2^bits` and rounded down.
pub open spec fn round_shift_spec(value: int, bits: nat) -> int {
    shr_spec(value + pow2((bits - 1) as nat) as int, bits)
}

/// Rounding right shift of a 64-bit value.
pub fn round_power_of_two_i64(value: i64, bits: u8) -> (r: i64)
    requires
        1 <= bits <= 14,
        -0x2000_0000_0000_0000 <= value <= 0x2000_0000_0000_0000,
    ensures
        r == round_shift_spec(value as int, bits as nat),
{
    let add = crate::sample::pow2_u32((bits - 1) as u32) as i64;
    shr_i64(value + add, bits as u32)
}

/// The DCT rounding stage: `(value + 2^13) / 2^14`, rounded down.
pub open spec fn dct_round_spec(value: int) -> int {
    (value + 8192) / 16384
}

/// Rounds a product of cosine constants back to sample precision.
fn fdct_round_shift(value: i64) -> (r: i32)
    requires
        -0x1000_0000_0000 <= value <= 0x1000_0000_0000,
    ensures
        r == dct_round_spec(value as int),
{
    let v = round_power_of_two_i64(value, AV2_DCT_CONST_BITS);
    proof {
        lemma2_to64();
    }
    v as i32
}

/// Output `k` of the 4-point forward DCT of `x`.
#[verifier::opaque]
pub open spec fn fdct4_out(x: Seq<int>, k: int) -> int {
    let step0 = x[0] + x[3];
    let step1 = x[1] + x[2];
    let step2 = x[1] - x[2];
    let step3 = x[0] - x[3];
    if k == 0 {
        dct_round_spec((step0 + step1) * 11585)
    } else if k == 1 {
        dct_round_spec(step2 * 6270 + step3 * 15137)
    } else if k == 2 {
        dct_round_spec((step0 - step1) * 11585)
    } else {
        dct_round_spec(-step2 * 15137 + step3 * 6270)
    }
}

/// The 4-point forward DCT grows magnitudes at most threefold.
pub proof fn lemma_fdct4_out_bound(x: Seq<int>, m: int, k: int)
    requires
        x.len() == 4,
        0 <= m,
        within(x, m),
    ensures
        -(3 * m + 1) <= fdct4_out(x, k) <= 3 * m + 1,
{
    reveal(fdct4_out);
    assert(-m <= x[0] <= m);
    assert(-m <= x[1] <= m);
    assert(-m <= x[2] <= m);
    assert(-m <= x[3] <= m);
}

/// One 4-point forward DCT.
fn fdct4x4_pass(input: &[i32; 4]) -> (r: [i32; 4])
    requires
        forall|i: int| 0 <= i < 4 ==> -0x800_0000 <= #[trigger] input[i] <= 0x800_0000,
    ensures
        forall|k: int| 0 <= k < 4 ==> #[trigger] r[k] == fdct4_out(ints(input@), k),
{
    let step0 = input[0] + input[3];
    let step1 = input[1] + input[2];
    let step2 = input[1] - input[2];
    let step3 = input[0] - input[3];
    let c8: i64 = AV2_COSPI_8_64 as i64;
    let c16: i64 = AV2_COSPI_16_64 as i64;
    let c24: i64 = AV2_COSPI_24_64 as i64;
    assert(c8 == 15137 && c16 == 11585 && c24 == 6270);
    let out0 = fdct_round_shift((step0 + step1) as i64 * c16);
    let out2 = fdct_round_shift((step0 - step1) as i64 * c16);
    let out1 = fdct_round_shift(step2 as i64 * c24 + step3 as i64 * c8);
    let out3 = fdct_round_shift(-(step2 as i64) * c8 + step3 as i64 * c24);
    let ghost x = ints(input@);
    proof {
        reveal(fdct4_out);
        assert(x[0] == input[0] && x[1] == input[1] && x[2] == input[2] && x[3] == input[3]);
    }
    [out0, out1, out2, out3]
}

/// Column `col` of a 4x4 block scaled by 16, with the DC term raised by one
/// when it is nonzero.
pub open spec fn fdct4x4_stage1_input(input: Seq<i32>, col: int) -> Seq<int> {
    Seq::new(
        4,
        |r: int| input[4 * r + col] * 16 + (if col == 0 && r == 0 && input[0] != 0 { 1int } else { 0int }),
    )
}

/// The 4x4 block after the vertical pass: column `p / 4` transformed into
/// row `p / 4`.
pub open spec fn fdct4x4_intermediate(input: Seq<i32>) -> Seq<int> {
    Seq::new(16, |p: int| fdct4_out(fdct4x4_stage1_input(input, p / 4), p % 4))
}

/// Column `col` of a row-major block of `rows` rows and `width` columns.
pub open spec fn column_of(x: Seq<int>, width: int, rows: int, col: int) -> Seq<int> {
    Seq::new(rows as nat, |r: int| x[width * r + col])
}

/// Forward 4x4 DCT: a vertical pass on inputs scaled by 16, a second pass
/// over the transposed result, then `(c + 1) >> 2`.
pub open spec fn fdct4x4_spec(input: Seq<i32>) -> Seq<int> {
    let mid = fdct4x4_intermediate(input);
    Seq::new(16, |p: int| (fdct4_out(column_of(mid, 4, 4, p / 4), p % 4) + 1) / 4)
}

/// Forward 4x4 DCT of a residual block.
pub fn av2_fdct4x4(input: &[i32; 16]) -> (r: [i32; 16])
    requires
        forall|i: int| 0 <= i < 16 ==> -FORWARD_TRANSFORM_INPUT_LIMIT <= #[trigger] input[i] <= FORWARD_TRANSFORM_INPUT_LIMIT,
    ensures
        forall|i: int| 0 <= i < 16 ==> #[trigger] r[i] == fdct4x4_spec(input@)[i],
{
    let ghost mid = fdct4x4_intermediate(input@);
    let mut intermediate = [0i32; 16];
    let mut col: usize = 0;
    while col < 4
        invariant
            col <= 4,
            mid == fdct4x4_intermediate(input@),
            forall|i: int| 0 <= i < 16 ==> -FORWARD_TRANSFORM_INPUT_LIMIT <= #[trigger] input[i] <= FORWARD_TRANSFORM_INPUT_LIMIT,
            forall|p: int| 0 <= p < 16 && p / 4 < col ==> #[trigger] intermediate[p] == mid[p],
            forall|p: int| 0 <= p < 16 && p / 4 < col ==> -0x400_0000 <= #[trigger] intermediate[p] <= 0x400_0000,
        decreases 4 - col,
    {
        let mut in_high = [input[col] * 16, input[4 + col] * 16, input[8 + col] * 16, input[12 + col] * 16];
        if col == 0 && in_high[0] != 0 {
            in_high[0] = in_high[0] + 1;
        }
        let ghost column = fdct4x4_stage1_input(input@, col as int);
        proof {
            assert(ints(in_high@) =~= column);
            assert(within(column, 0x100_0001));
        }
        let out = fdct4x4_pass(&in_high);
        let mut k: usize = 0;
        while k < 4
            invariant
                col < 4,
                k <= 4,
                mid == fdct4x4_intermediate(input@),
                column == fdct4x4_stage1_input(input@, col as int),
                column.len() == 4,
                within(column, 0x100_0001),
                forall|j: int| 0 <= j < 4 ==> #[trigger] out[j] == fdct4_out(column, j),
                forall|p: int| 0 <= p < 16 && (p / 4 < col || (p / 4 == col && p % 4 < k)) ==> #[trigger] intermediate[p] == mid[p],
                forall|p: int| 0 <= p < 16 && (p / 4 < col || (p / 4 == col && p % 4 < k)) ==> -0x400_0000 <= #[trigger] intermediate[p] <= 0x400_0000,
            decreases 4 - k,
        {
            proof {
                lemma_fdct4_out_bound(column, 0x100_0001, k as int);
                let p = (col * 4 + k) as int;
                assert(p / 4 == col && p % 4 == k);
            }
            intermediate[col * 4 + k] = out[k];
            k = k + 1;
        }
        col = col + 1;
    }
    let mut output = [0i32; 16];
    proof {
        lemma2_to64();
    }
    let mut col: usize = 0;
    while col < 4
        invariant
            pow2(2) == 4,
            col <= 4,
            mid == fdct4x4_intermediate(input@),
            forall|p: int| 0 <= p < 16 ==> #[trigger] intermediate[p] == mid[p],
            forall|p: int| 0 <= p < 16 ==> -0x400_0000 <= #[trigger] intermediate[p] <= 0x400_0000,
            forall|p: int| 0 <= p < 16 && p / 4 < col ==> #[trigger] output[p] == fdct4x4_spec(input@)[p],
        decreases 4 - col,
    {
        let in_high = [intermediate[col], intermediate[4 + col], intermediate[8 + col], intermediate[12 + col]];
        let ghost column = column_of(mid, 4, 4, col as int);
        proof {
            assert(ints(in_high@) =~= column);
            assert(within(column, 0x400_0000));
        }
        let out = fdct4x4_pass(&in_high);
        let mut k: usize = 0;
        while k < 4
            invariant
                pow2(2) == 4,
                col < 4,
                k <= 4,
                mid == fdct4x4_intermediate(input@),
                column == column_of(mid, 4, 4, col as int),
                column.len() == 4,
                within(column, 0x400_0000),
                forall|j: int| 0 <= j < 4 ==> #[trigger] out[j] == fdct4_out(column, j),
                forall|p: int| 0 <= p < 16 && (p / 4 < col || (p / 4 == col && p % 4 < k)) ==> #[trigger] output[p] == fdct4x4_spec(input@)[p],
            decreases 4 - k,
        {
            proof {
                lemma_fdct4_out_bound(column, 0x400_0000, k as int);
            }
            let c = out[k];
            let v = shr_i64(c as i64 + 1, 2);
            proof {
                let p = (col * 4 + k) as int;
                assert(p / 4 == col && p % 4 == k);
            }
            output[col * 4 + k] = v as i32;
            k = k + 1;
        }
        col = col + 1;
    }
    output
}

/// Output `k` of the 8-point forward DCT of `x`.
#[verifier::opaque]
pub open spec fn fdct8_out(x: Seq<int>, k: int) -> int {
    let s0 = x[0] + x[7];
    let s1 = x[1] + x[6];
    let s2 = x[2] + x[5];
    let s3 = x[3] + x[4];
    let s4 = x[3] - x[4];
    let s5 = x[2] - x[5];
    let s6 = x[1] - x[6];
    let s7 = x[0] - x[7];
    let e0 = s0 + s3;
    let e1 = s1 + s2;
    let e2 = s1 - s2;
    let e3 = s0 - s3;
    let t0 = dct_round_spec((s6 - s5) * 11585);
    let t1 = dct_round_spec((s6 + s5) * 11585);
    let o0 = s4 + t0;
    let o1 = s4 - t0;
    let o2 = s7 - t1;
    let o3 = s7 + t1;
    if k == 0 {
        dct_round_spec((e0 + e1) * 11585)
    } else if k == 1 {
        dct_round_spec(o0 * 3196 + o3 * 16069)
    } else if k == 2 {
        dct_round_spec(e2 * 6270 + e3 * 15137)
    } else if k == 3 {
        dct_round_spec(o2 * 13623 - o1 * 9102)
    } else if k == 4 {
        dct_round_spec((e0 - e1) * 11585)
    } else if k == 5 {
        dct_round_spec(o1 * 13623 + o2 * 9102)
    } else if k == 6 {
        dct_round_spec(-e2 * 15137 + e3 * 6270)
    } else {
        dct_round_spec(o3 * 3196 - o0 * 16069)
    }
}

/// The 8-point forward DCT grows magnitudes at most sevenfold.
pub proof fn lemma_fdct8_out_bound(x: Seq<int>, m: int, k: int)
    requires
        x.len() == 8,
        0 <= m,
        within(x, m),
    ensures
        -(7 * m + 3) <= fdct8_out(x, k) <= 7 * m + 3,
{
    reveal(fdct8_out);
    assert(-m <= x[0] <= m && -m <= x[1] <= m && -m <= x[2] <= m && -m <= x[3] <= m);
    assert(-m <= x[4] <= m && -m <= x[5] <= m && -m <= x[6] <= m && -m <= x[7] <= m);
    let s5 = x[2] - x[5];
    let s6 = x[1] - x[6];
    let t0 = dct_round_spec((s6 - s5) * 11585);
    let t1 = dct_round_spec((s6 + s5) * 11585);
    assert(-(3 * m + 1) <= t0 <= 3 * m + 1);
    assert(-(3 * m + 1) <= t1 <= 3 * m + 1);
    let o0 = x[3] - x[4] + t0;
    let o1 = x[3] - x[4] - t0;
    let o2 = x[0] - x[7] - t1;
    let o3 = x[0] - x[7] + t1;
    assert(-(5 * m + 1) <= o0 <= 5 * m + 1 && -(5 * m + 1) <= o1 <= 5 * m + 1);
    assert(-(5 * m + 1) <= o2 <= 5 * m + 1 && -(5 * m + 1) <= o3 <= 5 * m + 1);
}

/// One 8-point forward DCT.
#[verifier::rlimit(60)]
#[verifier::spinoff_prover]
fn fdct8x8_pass(input: &[i32; 8]) -> (r: [i32; 8])
    requires
        forall|i: int| 0 <= i < 8 ==> -0x400_0000 <= #[trigger] input[i] <= 0x400_0000,
    ensures
        forall|k: int| 0 <= k < 8 ==> #[trigger] r[k] == fdct8_out(ints(input@), k),
{
    let c4: i64 = AV2_COSPI_4_64 as i64;
    let c8: i64 = AV2_COSPI_8_64 as i64;
    let c12: i64 = AV2_COSPI_12_64 as i64;
    let c16: i64 = AV2_COSPI_16_64 as i64;
    let c20: i64 = AV2_COSPI_20_64 as i64;
    let c24: i64 = AV2_COSPI_24_64 as i64;
    let c28: i64 = AV2_COSPI_28_64 as i64;
    assert(c4 == 16069 && c8 == 15137 && c12 == 13623 && c16 == 11585);
    assert(c20 == 9102 && c24 == 6270 && c28 == 3196);
    let ghost x = ints(input@);
    proof {
        assert(x[0] == input[0] && x[1] == input[1] && x[2] == input[2] && x[3] == input[3]);
        assert(x[4] == input[4] && x[5] == input[5] && x[6] == input[6] && x[7] == input[7]);
    }
    let s0 = input[0] + input[7];
    let s1 = input[1] + input[6];
    let s2 = input[2] + input[5];
    let s3 = input[3] + input[4];
    let s4 = input[3] - input[4];
    let s5 = input[2] - input[5];
    let s6 = input[1] - input[6];
    let s7 = input[0] - input[7];

    let x0 = s0 + s3;
    let x1 = s1 + s2;
    let x2 = s1 - s2;
    let x3 = s0 - s3;
    let out0 = fdct_round_shift((x0 + x1) as i64 * c16);
    let out2 = fdct_round_shift(x2 as i64 * c24 + x3 as i64 * c8);
    let out4 = fdct_round_shift((x0 - x1) as i64 * c16);
    let out6 = fdct_round_shift(-(x2 as i64) * c8 + x3 as i64 * c24);

    let t0 = fdct_round_shift((s6 - s5) as i64 * c16);
    let t1 = fdct_round_shift((s6 + s5) as i64 * c16);
    assert(-0x1000_0000 <= t0 <= 0x1000_0000 && -0x1000_0000 <= t1 <= 0x1000_0000);
    let x0 = s4 + t0;
    let x1 = s4 - t0;
    let x2 = s7 - t1;
    let x3 = s7 + t1;
    let out1 = fdct_round_shift(x0 as i64 * c28 + x3 as i64 * c4);
    let out3 = fdct_round_shift(x2 as i64 * c12 - x1 as i64 * c20);
    let out5 = fdct_round_shift(x1 as i64 * c12 + x2 as i64 * c20);
    let out7 = fdct_round_shift(x3 as i64 * c28 - x0 as i64 * c4);
    proof {
        reveal(fdct8_out);
    }
    [out0, out1, out2, out3, out4, out5, out6, out7]
}

/// Column `col` of an 8x8 block scaled by 4.
pub open spec fn fdct8x8_stage1_input(input: Seq<i32>, col: int) -> Seq<int> {
    Seq::new(8, |r: int| input[8 * r + col] * 4)
}

/// The 8x8 block after the vertical pass: column `p / 8` transformed into
/// row `p / 8`.
pub open spec fn fdct8x8_intermediate(input: Seq<i32>) -> Seq<int> {
    Seq::new(64, |p: int| fdct8_out(fdct8x8_stage1_input(input, p / 8), p % 8))
}

/// `c / 2` rounded toward zero.
pub open spec fn half_toward_zero(c: int) -> int {
    if c >= 0 { c / 2 } else { -((-c) / 2) }
}

/// Forward 8x8 DCT: a vertical pass on inputs scaled by 4, a second pass
/// over the transposed result, then halving toward zero.
pub open spec fn fdct8x8_spec(input: Seq<i32>) -> Seq<int> {
    let mid = fdct8x8_intermediate(input);
    Seq::new(64, |p: int| half_toward_zero(fdct8_out(column_of(mid, 8, 8, p / 8), p % 8)))
}

/// Forward 8x8 DCT of a residual block.
pub fn av2_fdct8x8(input: &[i32; 64]) -> (r: [i32; 64])
    requires
        forall|i: int| 0 <= i < 64 ==> -FORWARD_TRANSFORM_INPUT_LIMIT <= #[trigger] input[i] <= FORWARD_TRANSFORM_INPUT_LIMIT,
    ensures
        forall|i: int| 0 <= i < 64 ==> #[trigger] r[i] == fdct8x8_spec(input@)[i],
{
    let ghost mid = fdct8x8_intermediate(input@);
    let mut intermediate = [0i32; 64];
    let mut col: usize = 0;
    while col < 8
        invariant
            col <= 8,
            mid == fdct8x8_intermediate(input@),
            forall|i: int| 0 <= i < 64 ==> -FORWARD_TRANSFORM_INPUT_LIMIT <= #[trigger] input[i] <= FORWARD_TRANSFORM_INPUT_LIMIT,
            forall|p: int| 0 <= p < 64 && p / 8 < col ==> #[trigger] intermediate[p] == mid[p],
            forall|p: int| 0 <= p < 64 && p / 8 < col ==> -0x200_0000 <= #[trigger] intermediate[p] <= 0x200_0000,
        decreases 8 - col,
    {
        let src = [
            input[col] * 4,
            input[8 + col] * 4,
            input[16 + col] * 4,
            input[24 + col] * 4,
            input[32 + col] * 4,
            input[40 + col] * 4,
            input[48 + col] * 4,
            input[56 + col] * 4,
        ];
        let ghost column = fdct8x8_stage1_input(input@, col as int);
        proof {
            assert(ints(src@) =~= column);
            assert(within(column, 0x40_0000));
        }
        let out = fdct8x8_pass(&src);
        let mut k: usize = 0;
        while k < 8
            invariant
                col < 8,
                k <= 8,
                mid == fdct8x8_intermediate(input@),
                column == fdct8x8_stage1_input(input@, col as int),
                column.len() == 8,
                within(column, 0x40_0000),
                forall|j: int| 0 <= j < 8 ==> #[trigger] out[j] == fdct8_out(column, j),
                forall|p: int| 0 <= p < 64 && (p / 8 < col || (p / 8 == col && p % 8 < k)) ==> #[trigger] intermediate[p] == mid[p],
                forall|p: int| 0 <= p < 64 && (p / 8 < col || (p / 8 == col && p % 8 < k)) ==> -0x200_0000 <= #[trigger] intermediate[p] <= 0x200_0000,
            decreases 8 - k,
        {
            proof {
                lemma_fdct8_out_bound(column, 0x40_0000, k as int);
                let p = (col * 8 + k) as int;
                assert(p / 8 == col && p % 8 == k);
            }
            intermediate[col * 8 + k] = out[k];
            k = k + 1;
        }
        col = col + 1;
    }
    let mut output = [0i32; 64];
    let mut col: usize = 0;
    while col < 8
        invariant
            col <= 8,
            mid == fdct8x8_intermediate(input@),
            forall|p: int| 0 <= p < 64 ==> #[trigger] intermediate[p] == mid[p],
            forall|p: int| 0 <= p < 64 ==> -0x200_0000 <= #[trigger] intermediate[p] <= 0x200_0000,
            forall|p: int| 0 <= p < 64 && p / 8 < col ==> #[trigger] output[p] == fdct8x8_spec(input@)[p],
        decreases 8 - col,
    {
        let src = [
            intermediate[col],
            intermediate[8 + col],
            intermediate[16 + col],
            intermediate[24 + col],
            intermediate[32 + col],
            intermediate[40 + col],
            intermediate[48 + col],
            intermediate[56 + col],
        ];
        let ghost column = column_of(mid, 8, 8, col as int);
        proof {
            assert(ints(src@) =~= column);
            assert(within(column, 0x200_0000));
        }
        let out = fdct8x8_pass(&src);
        let mut k: usize = 0;
        while k < 8
            invariant
                col < 8,
                k <= 8,
                mid == fdct8x8_intermediate(input@),
                column == column_of(mid, 8, 8, col as int),
                column.len() == 8,
                within(column, 0x200_0000),
                forall|j: int| 0 <= j < 8 ==> #[trigger] out[j] == fdct8_out(column, j),
                forall|p: int| 0 <= p < 64 && (p / 8 < col || (p / 8 == col && p % 8 < k)) ==> #[trigger] output[p] == fdct8x8_spec(input@)[p],
            decreases 8 - k,
        {
            proof {
                lemma_fdct8_out_bound(column, 0x200_0000, k as int);
                let p = (col * 8 + k) as int;
                assert(p / 8 == col && p % 8 == k);
            }
            let c = out[k];
            let v = if c >= 0 { c / 2 } else { -((-c) / 2) };
            output[col * 8 + k] = v;
            k = k + 1;
        }
        col = col + 1;
    }
    output
}

/// Rows of the 4-point integer DCT kernel.
pub const AV2_DCT4_KERNEL: [[i32; 4]; 4] = [[64, 64, 64, 64], [83, 35, -35, -83], [64, -64, -64, 64], [35, -83, 83, -35]];

/// Rows of the 8-point integer DCT kernel.
pub const AV2_DCT8_KERNEL: [[i32; 8]; 8] = [
    [64, 64, 64, 64, 64, 64, 64, 64],
    [89, 75, 50, 18, -18, -50, -75, -89],
    [83, 35, -35, -83, -83, -35, 35, 83],
    [75, -18, -89, -50, 50, 89, 18, -75],
    [64, -64, -64, 64, 64, -64, -64, 64],
    [50, -89, 18, 75, -75, -18, 89, -50],
    [35, -83, 83, -35, -35, 83, -83, 35],
    [18, -50, 75, -89, 89, -75, 50, -18],
];

/// `v` is a 32-bit signed value.
pub open spec fn fits_i32(v: int) -> bool {
    -0x8000_0000 <= v <= 0x7fff_ffff
}

/// Kernel product `k` of the 4-point DCT of `x`, before the rounding shift.
pub open spec fn fwd4_kernel_value(x: Seq<int>, k: int) -> int {
    let step0 = x[0] + x[3];
    let step1 = x[1] + x[2];
    let step2 = x[1] - x[2];
    let step3 = x[0] - x[3];
    if k == 0 {
        64 * step0 + 64 * step1
    } else if k == 1 {
        83 * step3 + 35 * step2
    } else if k == 2 {
        64 * step0 - 64 * step1
    } else {
        35 * step3 - 83 * step2
    }
}

/// Kernel products of the 4-point DCT are at most 256 times the inputs.
pub proof fn lemma_fwd4_kernel_bound(x: Seq<int>, m: int, k: int)
    requires
        x.len() == 4,
        0 <= m,
        within(x, m),
    ensures
        -256 * m <= fwd4_kernel_value(x, k) <= 256 * m,
{
    assert(-m <= x[0] <= m && -m <= x[1] <= m && -m <= x[2] <= m && -m <= x[3] <= m);
}

/// 4-point forward DCT with a rounding shift, as the rectangular transforms
/// use it.
fn fwd_dct4_shifted(input: &[i32; 4], shift: u8) -> (r: [i32; 4])
    requires
        1 <= shift <= 14,
        forall|i: int| 0 <= i < 4 ==> -0x2000_0000 <= #[trigger] input[i] <= 0x2000_0000,
        forall|k: int| 0 <= k < 4 ==> fits_i32(#[trigger] round_shift_spec(fwd4_kernel_value(ints(input@), k), shift as nat)),
    ensures
        forall|k: int| 0 <= k < 4 ==> #[trigger] r[k] == round_shift_spec(fwd4_kernel_value(ints(input@), k), shift as nat),
{
    let ghost x = ints(input@);
    proof {
        assert(x[0] == input[0] && x[1] == input[1] && x[2] == input[2] && x[3] == input[3]);
    }
    let step0 = input[0] + input[3];
    let step1 = input[1] + input[2];
    let step2 = input[1] - input[2];
    let step3 = input[0] - input[3];
    let k00 = AV2_DCT4_KERNEL[0][0] as i64;
    let k01 = AV2_DCT4_KERNEL[0][1] as i64;
    let k10 = AV2_DCT4_KERNEL[1][0] as i64;
    let k11 = AV2_DCT4_KERNEL[1][1] as i64;
    let k20 = AV2_DCT4_KERNEL[2][0] as i64;
    let k21 = AV2_DCT4_KERNEL[2][1] as i64;
    let k30 = AV2_DCT4_KERNEL[3][0] as i64;
    let k31 = AV2_DCT4_KERNEL[3][1] as i64;
    assert(k00 == 64 && k01 == 64 && k10 == 83 && k11 == 35 && k20 == 64 && k21 == -64 && k30 == 35 && k31 == -83);
    let out0 = round_power_of_two_i64(k00 * step0 as i64 + k01 * step1 as i64, shift);
    let out1 = round_power_of_two_i64(k10 * step3 as i64 + k11 * step2 as i64, shift);
    let out2 = round_power_of_two_i64(k20 * step0 as i64 + k21 * step1 as i64, shift);
    let out3 = round_power_of_two_i64(k30 * step3 as i64 + k31 * step2 as i64, shift);
    proof {
        assert(fits_i32(round_shift_spec(fwd4_kernel_value(x, 0), shift as nat)));
        assert(fits_i32(round_shift_spec(fwd4_kernel_value(x, 1), shift as nat)));
        assert(fits_i32(round_shift_spec(fwd4_kernel_value(x, 2), shift as nat)));
        assert(fits_i32(round_shift_spec(fwd4_kernel_value(x, 3), shift as nat)));
    }
    [out0 as i32, out1 as i32, out2 as i32, out3 as i32]
}

/// Sum of `kernel[i] * values[i]` over the first `n` positions.
pub open spec fn dot(kernel: Seq<i32>, values: Seq<i32>, n: int) -> int
    decreases n,
{
    if n <= 0 {
        0
    } else {
        dot(kernel, values, n - 1) + kernel[n - 1] * values[n - 1]
    }
}

/// `add` plus the dot product of `kernel` and `values`, shifted right.
fn shifted_kernel_sum(kernel: &[i32], values: &[i32], add: i64, shift: u8) -> (r: i32)
    requires
        kernel@.len() == values@.len(),
        kernel@.len() <= 8,
        forall|i: int| 0 <= i < kernel@.len() ==> -128 <= #[trigger] kernel@[i] <= 128,
        forall|i: int| 0 <= i < values@.len() ==> -0x4000_0000 <= #[trigger] values@[i] <= 0x4000_0000,
        0 <= add <= 0x1_0000,
        1 <= shift <= 14,
        fits_i32(shr_spec(add + dot(kernel@, values@, kernel@.len() as int), shift as nat)),
    ensures
        r == shr_spec(add + dot(kernel@, values@, kernel@.len() as int), shift as nat),
{
    let mut sum: i64 = add;
    let n = kernel.len();
    let mut i: usize = 0;
    while i < n
        invariant
            n == kernel@.len(),
            n == values@.len(),
            n <= 8,
            i <= n,
            forall|j: int| 0 <= j < kernel@.len() ==> -128 <= #[trigger] kernel@[j] <= 128,
            forall|j: int| 0 <= j < values@.len() ==> -0x4000_0000 <= #[trigger] values@[j] <= 0x4000_0000,
            0 <= add <= 0x1_0000,
            sum == add + dot(kernel@, values@, i as int),
            -0x20_0000_0000 * i <= dot(kernel@, values@, i as int) <= 0x20_0000_0000 * i,
        decreases n - i,
    {
        let k = kernel[i];
        let v = values[i];
        proof {
            assert(-0x20_0000_0000 <= k * v <= 0x20_0000_0000) by (nonlinear_arith)
                requires
                    -128 <= k <= 128,
                    -0x4000_0000 <= v <= 0x4000_0000,
            ;
        }
        sum = sum + k as i64 * v as i64;
        i = i + 1;
    }
    shr_i64(sum, shift as u32) as i32
}

/// Kernel product `k` of the 8-point DCT of `x`, before the rounding shift.
pub open spec fn fwd8_kernel_value(x: Seq<int>, k: int) -> int {
    let a0 = x[0] + x[7];
    let a1 = x[1] + x[6];
    let a2 = x[2] + x[5];
    let a3 = x[3] + x[4];
    let b0 = x[0] - x[7];
    let b1 = x[1] - x[6];
    let b2 = x[2] - x[5];
    let b3 = x[3] - x[4];
    let c0 = a0 + a3;
    let d0 = a0 - a3;
    let c1 = a1 + a2;
    let d1 = a1 - a2;
    if k == 0 {
        64 * c0 + 64 * c1
    } else if k == 4 {
        64 * c0 - 64 * c1
    } else if k == 2 {
        83 * d0 + 35 * d1
    } else if k == 6 {
        35 * d0 - 83 * d1
    } else if k == 1 {
        89 * b0 + 75 * b1 + 50 * b2 + 18 * b3
    } else if k == 3 {
        75 * b0 - 18 * b1 - 89 * b2 - 50 * b3
    } else if k == 5 {
        50 * b0 - 89 * b1 + 18 * b2 + 75 * b3
    } else {
        18 * b0 - 50 * b1 + 75 * b2 - 89 * b3
    }
}

/// Kernel products of the 8-point DCT are at most 512 times the inputs.
pub proof fn lemma_fwd8_kernel_bound(x: Seq<int>, m: int, k: int)
    requires
        x.len() == 8,
        0 <= m,
        within(x, m),
    ensures
        -512 * m <= fwd8_kernel_value(x, k) <= 512 * m,
{
    assert(-m <= x[0] <= m && -m <= x[1] <= m && -m <= x[2] <= m && -m <= x[3] <= m);
    assert(-m <= x[4] <= m && -m <= x[5] <= m && -m <= x[6] <= m && -m <= x[7] <= m);
}

/// 8-point forward DCT with a rounding shift, as the rectangular transforms
/// use it.
fn fwd_dct8_shifted(input: &[i32; 8], shift: u8) -> (r: [i32; 8])
    requires
        1 <= shift <= 14,
        forall|i: int| 0 <= i < 8 ==> -0x1000_0000 <= #[trigger] input[i] <= 0x1000_0000,
        forall|k: int| 0 <= k < 8 ==> fits_i32(#[trigger] round_shift_spec(fwd8_kernel_value(ints(input@), k), shift as nat)),
    ensures
        forall|k: int| 0 <= k < 8 ==> #[trigger] r[k] == round_shift_spec(fwd8_kernel_value(ints(input@), k), shift as nat),
{
    let ghost x = ints(input@);
    proof {
        assert(x[0] == input[0] && x[1] == input[1] && x[2] == input[2] && x[3] == input[3]);
        assert(x[4] == input[4] && x[5] == input[5] && x[6] == input[6] && x[7] == input[7]);
    }
    let mut a = [0i32; 4];
    let mut b = [0i32; 4];
    let mut k: usize = 0;
    while k < 4
        invariant
            k <= 4,
            forall|i: int| 0 <= i < 8 ==> -0x1000_0000 <= #[trigger] input[i] <= 0x1000_0000,
            forall|j: int| 0 <= j < k ==> #[trigger] a[j] == input[j] + input[7 - j],
            forall|j: int| 0 <= j < k ==> #[trigger] b[j] == input[j] - input[7 - j],
        decreases 4 - k,
    {
        a[k] = input[k] + input[7 - k];
        b[k] = input[k] - input[7 - k];
        k = k + 1;
    }
    let c0 = a[0] + a[3];
    let d0 = a[0] - a[3];
    let c1 = a[1] + a[2];
    let d1 = a[1] - a[2];
    let add = crate::sample::pow2_u32((shift - 1) as u32) as i64;
    let k0 = AV2_DCT8_KERNEL[0];
    let k1 = AV2_DCT8_KERNEL[1];
    let k2 = AV2_DCT8_KERNEL[2];
    let k3 = AV2_DCT8_KERNEL[3];
    let k4 = AV2_DCT8_KERNEL[4];
    let k5 = AV2_DCT8_KERNEL[5];
    let k6 = AV2_DCT8_KERNEL[6];
    let k7 = AV2_DCT8_KERNEL[7];
    let even0 = [k0[0], k0[1]];
    let even2 = [k2[0], k2[1]];
    let even4 = [k4[0], k4[1]];
    let even6 = [k6[0], k6[1]];
    let odd1 = [k1[0], k1[1], k1[2], k1[3]];
    let odd3 = [k3[0], k3[1], k3[2], k3[3]];
    let odd5 = [k5[0], k5[1], k5[2], k5[3]];
    let odd7 = [k7[0], k7[1], k7[2], k7[3]];
    let cs = [c0, c1];
    let ds = [d0, d1];
    proof {
        assert(b[0] == input[0] - input[7] && b[1] == input[1] - input[6]);
        assert(b[2] == input[2] - input[5] && b[3] == input[3] - input[4]);
        assert(a[0] == input[0] + input[7] && a[1] == input[1] + input[6]);
        assert(a[2] == input[2] + input[5] && a[3] == input[3] + input[4]);
        assert(fits_i32(round_shift_spec(fwd8_kernel_value(x, 0), shift as nat)));
        assert(fits_i32(round_shift_spec(fwd8_kernel_value(x, 1), shift as nat)));
        assert(fits_i32(round_shift_spec(fwd8_kernel_value(x, 2), shift as nat)));
        assert(fits_i32(round_shift_spec(fwd8_kernel_value(x, 3), shift as nat)));
        assert(fits_i32(round_shift_spec(fwd8_kernel_value(x, 4), shift as nat)));
        assert(fits_i32(round_shift_spec(fwd8_kernel_value(x, 5), shift as nat)));
        assert(fits_i32(round_shift_spec(fwd8_kernel_value(x, 6), shift as nat)));
        assert(fits_i32(round_shift_spec(fwd8_kernel_value(x, 7), shift as nat)));
        assert(dot(even0@, cs@, 2) == fwd8_kernel_value(x, 0)) by {
            reveal_with_fuel(dot, 5);
        }
        assert(dot(even4@, cs@, 2) == fwd8_kernel_value(x, 4)) by {
            reveal_with_fuel(dot, 5);
        }
        assert(dot(even2@, ds@, 2) == fwd8_kernel_value(x, 2)) by {
            reveal_with_fuel(dot, 5);
        }
        assert(dot(even6@, ds@, 2) == fwd8_kernel_value(x, 6)) by {
            reveal_with_fuel(dot, 5);
        }
        assert(dot(odd1@, b@, 4) == fwd8_kernel_value(x, 1)) by {
            reveal_with_fuel(dot, 5);
        }
        assert(dot(odd3@, b@, 4) == fwd8_kernel_value(x, 3)) by {
            reveal_with_fuel(dot, 5);
        }
        assert(dot(odd5@, b@, 4) == fwd8_kernel_value(x, 5)) by {
            reveal_with_fuel(dot, 5);
        }
        assert(dot(odd7@, b@, 4) == fwd8_kernel_value(x, 7)) by {
            reveal_with_fuel(dot, 5);
        }
    }
    let mut output = [0i32; 8];
    output[0] = shifted_kernel_sum(&even0, &cs, add, shift);
    output[4] = shifted_kernel_sum(&even4, &cs, add, shift);
    output[2] = shifted_kernel_sum(&even2, &ds, add, shift);
    output[6] = shifted_kernel_sum(&even6, &ds, add, shift);
    output[1] = shifted_kernel_sum(&odd1, &b, add, shift);
    output[3] = shifted_kernel_sum(&odd3, &b, add, shift);
    output[5] = shifted_kernel_sum(&odd5, &b, add, shift);
    output[7] = shifted_kernel_sum(&odd7, &b, add, shift);
    output
}

/// The 4-wide, 8-tall block after the vertical 8-point pass (shift 1):
/// column `q / 8` transformed into row `q / 8`.
pub open spec fn fdct4x8_intermediate(input: Seq<i32>) -> Seq<int> {
    Seq::new(32, |q: int| round_shift_spec(fwd8_kernel_value(column_of(ints(input), 4, 8, q / 8), q % 8), 1))
}

/// The horizontal 4-point pass (shift 11) over the transposed intermediate,
/// before the rectangular normalization.
pub open spec fn fdct4x8_unscaled(input: Seq<i32>) -> Seq<int> {
    let mid = fdct4x8_intermediate(input);
    Seq::new(32, |p: int| round_shift_spec(fwd4_kernel_value(column_of(mid, 8, 4, p / 4), p % 4), 11))
}

/// Forward 4-wide, 8-tall DCT: the two passes, then multiplication by
/// `sqrt(2)` in 12-bit fixed point.
pub open spec fn fdct4x8_spec(input: Seq<i32>) -> Seq<int> {
    Seq::new(32, |p: int| round_shift_spec(fdct4x8_unscaled(input)[p] * 5793, 12))
}

/// Forward DCT of a 4-wide, 8-tall residual block.
pub fn av2_fdct4x8(input: &[i32; 32]) -> (r: [i32; 32])
    requires
        forall|i: int| 0 <= i < 32 ==> -FORWARD_TRANSFORM_INPUT_LIMIT <= #[trigger] input[i] <= FORWARD_TRANSFORM_INPUT_LIMIT,
    ensures
        forall|i: int| 0 <= i < 32 ==> #[trigger] r[i] == fdct4x8_spec(input@)[i],
{
    proof {
        lemma2_to64();
    }
    let ghost mid = fdct4x8_intermediate(input@);
    let mut intermediate = [0i32; 32];
    let mut col: usize = 0;
    while col < 4
        invariant
            pow2(0) == 1 && pow2(1) == 2,
            col <= 4,
            mid == fdct4x8_intermediate(input@),
            forall|i: int| 0 <= i < 32 ==> -FORWARD_TRANSFORM_INPUT_LIMIT <= #[trigger] input[i] <= FORWARD_TRANSFORM_INPUT_LIMIT,
            forall|q: int| 0 <= q < 32 && q / 8 < col ==> #[trigger] intermediate[q] == mid[q],
            forall|q: int| 0 <= q < 32 && q / 8 < col ==> -0x1000_0001 <= #[trigger] intermediate[q] <= 0x1000_0001,
        decreases 4 - col,
    {
        let src = [
            input[col],
            input[4 + col],
            input[8 + col],
            input[12 + col],
            input[16 + col],
            input[20 + col],
            input[24 + col],
            input[28 + col],
        ];
        let ghost column = column_of(ints(input@), 4, 8, col as int);
        proof {
            assert(ints(src@) =~= column);
            assert(within(column, 0x10_0000));
            assert forall|k: int| 0 <= k < 8 implies fits_i32(#[trigger] round_shift_spec(fwd8_kernel_value(column, k), 1)) by {
                lemma_fwd8_kernel_bound(column, 0x10_0000, k);
            }
            assert(forall|i: int| 0 <= i < 8 ==> -0x1000_0000 <= #[trigger] src[i] <= 0x1000_0000);
        }
        let dst = fwd_dct8_shifted(&src, 1);
        let mut row: usize = 0;
        while row < 8
            invariant
                pow2(0) == 1 && pow2(1) == 2,
                col < 4,
                row <= 8,
                mid == fdct4x8_intermediate(input@),
                column == column_of(ints(input@), 4, 8, col as int),
                column.len() == 8,
                within(column, 0x10_0000),
                forall|j: int| 0 <= j < 8 ==> #[trigger] dst[j] == round_shift_spec(fwd8_kernel_value(column, j), 1),
                forall|q: int| 0 <= q < 32 && (q / 8 < col || (q / 8 == col && q % 8 < row)) ==> #[trigger] intermediate[q] == mid[q],
                forall|q: int| 0 <= q < 32 && (q / 8 < col || (q / 8 == col && q % 8 < row)) ==> -0x1000_0001 <= #[trigger] intermediate[q] <= 0x1000_0001,
            decreases 8 - row,
        {
            proof {
                lemma_fwd8_kernel_bound(column, 0x10_0000, row as int);
                let q = (col * 8 + row) as int;
                assert(q / 8 == col && q % 8 == row);
            }
            intermediate[col * 8 + row] = dst[row];
            row = row + 1;
        }
        col = col + 1;
    }
    let ghost unscaled = fdct4x8_unscaled(input@);
    let mut output = [0i32; 32];
    let mut row: usize = 0;
    while row < 8
        invariant
            pow2(10) == 1024 && pow2(11) == 2048,
            row <= 8,
            mid == fdct4x8_intermediate(input@),
            unscaled == fdct4x8_unscaled(input@),
            forall|q: int| 0 <= q < 32 ==> #[trigger] intermediate[q] == mid[q],
            forall|q: int| 0 <= q < 32 ==> -0x1000_0001 <= #[trigger] intermediate[q] <= 0x1000_0001,
            forall|p: int| 0 <= p < 32 && p / 4 < row ==> #[trigger] output[p] == unscaled[p],
            forall|p: int| 0 <= p < 32 && p / 4 < row ==> -0x200_0001 <= #[trigger] output[p] <= 0x200_0001,
        decreases 8 - row,
    {
        let src = [intermediate[row], intermediate[8 + row], intermediate[16 + row], intermediate[24 + row]];
        let ghost column = column_of(mid, 8, 4, row as int);
        proof {
            assert(ints(src@) =~= column);
            assert(within(column, 0x1000_0001));
            assert forall|k: int| 0 <= k < 4 implies fits_i32(#[trigger] round_shift_spec(fwd4_kernel_value(column, k), 11)) by {
                lemma_fwd4_kernel_bound(column, 0x1000_0001, k);
            }
        }
        let dst = fwd_dct4_shifted(&src, 11);
        let mut col: usize = 0;
        while col < 4
            invariant
                pow2(10) == 1024 && pow2(11) == 2048,
                row < 8,
                col <= 4,
                mid == fdct4x8_intermediate(input@),
                unscaled == fdct4x8_unscaled(input@),
                column == column_of(mid, 8, 4, row as int),
                column.len() == 4,
                within(column, 0x1000_0001),
                forall|j: int| 0 <= j < 4 ==> #[trigger] dst[j] == round_shift_spec(fwd4_kernel_value(column, j), 11),
                forall|p: int| 0 <= p < 32 && (p / 4 < row || (p / 4 == row && p % 4 < col)) ==> #[trigger] output[p] == unscaled[p],
                forall|p: int| 0 <= p < 32 && (p / 4 < row || (p / 4 == row && p % 4 < col)) ==> -0x200_0001 <= #[trigger] output[p] <= 0x200_0001,
            decreases 4 - col,
        {
            proof {
                lemma_fwd4_kernel_bound(column, 0x1000_0001, col as int);
                let p = (row * 4 + col) as int;
                assert(p / 4 == row && p % 4 == col);
            }
            output[row * 4 + col] = dst[col];
            col = col + 1;
        }
        row = row + 1;
    }
    let mut i: usize = 0;
    while i < 32
        invariant
            pow2(11) == 2048 && pow2(12) == 4096,
            i <= 32,
            unscaled == fdct4x8_unscaled(input@),
            forall|p: int| i <= p < 32 ==> #[trigger] output[p] == unscaled[p],
            forall|p: int| i <= p < 32 ==> -0x200_0001 <= #[trigger] output[p] <= 0x200_0001,
            forall|p: int| 0 <= p < i ==> #[trigger] output[p] == fdct4x8_spec(input@)[p],
        decreases 32 - i,
    {
        let scaled = round_power_of_two_i64(output[i] as i64 * AV2_NEW_SQRT2 as i64, AV2_NEW_SQRT2_BITS);
        output[i] = scaled as i32;
        i = i + 1;
    }
    output
}

/// The forward 4x4 DCT of residuals within the sample range stays within
/// 2.4 million.
pub proof fn lemma_fdct4x4_bound(input: Seq<i32>)
    requires
        input.len() == 16,
        forall|i: int| 0 <= i < 16 ==> -65535 <= #[trigger] input[i] <= 65535,
    ensures
        forall|p: int| 0 <= p < 16 ==> -2_400_000 <= #[trigger] fdct4x4_spec(input)[p] <= 2_400_000,
{
    let mid = fdct4x4_intermediate(input);
    assert forall|q: int| 0 <= q < 16 implies -3_145_700 <= #[trigger] mid[q] <= 3_145_700 by {
        let col = fdct4x4_stage1_input(input, q / 4);
        assert forall|r: int| 0 <= r < 4 implies -1_048_561 <= #[trigger] col[r] <= 1_048_561 by {
            assert(-65535 <= input[4 * r + q / 4] <= 65535);
        }
        assert(within(col, 1_048_561));
        lemma_fdct4_out_bound(col, 1_048_561, q % 4);
    }
    assert forall|p: int| 0 <= p < 16 implies -2_400_000 <= #[trigger] fdct4x4_spec(input)[p] <= 2_400_000 by {
        let col = column_of(mid, 4, 4, p / 4);
        assert forall|r: int| 0 <= r < 4 implies -3_145_700 <= #[trigger] col[r] <= 3_145_700 by {
            assert(0 <= 4 * r + p / 4 < 16);
        }
        assert(within(col, 3_145_700));
        lemma_fdct4_out_bound(col, 3_145_700, p % 4);
    }
}

/// The forward 8x8 DCT of residuals within the sample range stays within
/// 6.5 million.
pub proof fn lemma_fdct8x8_bound(input: Seq<i32>)
    requires
        input.len() == 64,
        forall|i: int| 0 <= i < 64 ==> -65535 <= #[trigger] input[i] <= 65535,
    ensures
        forall|p: int| 0 <= p < 64 ==> -6_500_000 <= #[trigger] fdct8x8_spec(input)[p] <= 6_500_000,
{
    let mid = fdct8x8_intermediate(input);
    assert forall|q: int| 0 <= q < 64 implies -1_835_000 <= #[trigger] mid[q] <= 1_835_000 by {
        let col = fdct8x8_stage1_input(input, q / 8);
        assert forall|r: int| 0 <= r < 8 implies -262_140 <= #[trigger] col[r] <= 262_140 by {
            assert(-65535 <= input[8 * r + q / 8] <= 65535);
        }
        assert(within(col, 262_140));
        lemma_fdct8_out_bound(col, 262_140, q % 8);
    }
    assert forall|p: int| 0 <= p < 64 implies -6_500_000 <= #[trigger] fdct8x8_spec(input)[p] <= 6_500_000 by {
        let col = column_of(mid, 8, 8, p / 8);
        assert forall|r: int| 0 <= r < 8 implies -1_835_000 <= #[trigger] col[r] <= 1_835_000 by {
            assert(0 <= 8 * r + p / 8 < 64);
        }
        assert(within(col, 1_835_000));
        lemma_fdct8_out_bound(col, 1_835_000, p % 8);
    }
}

/// The forward 4x8 DCT of residuals within the sample range stays within
/// 3.1 million.
pub proof fn lemma_fdct4x8_bound(input: Seq<i32>)
    requires
        input.len() == 32,
        forall|i: int| 0 <= i < 32 ==> -65535 <= #[trigger] input[i] <= 65535,
    ensures
        forall|p: int| 0 <= p < 32 ==> -3_100_000 <= #[trigger] fdct4x8_spec(input)[p] <= 3_100_000,
{
    lemma2_to64();
    let mid = fdct4x8_intermediate(input);
    assert forall|q: int| 0 <= q < 32 implies -16_776_961 <= #[trigger] mid[q] <= 16_776_961 by {
        let col = column_of(ints(input), 4, 8, q / 8);
        assert forall|r: int| 0 <= r < 8 implies -65535 <= #[trigger] col[r] <= 65535 by {
            assert(-65535 <= input[4 * r + q / 8] <= 65535);
        }
        assert(within(col, 65535));
        lemma_fwd8_kernel_bound(col, 65535, q % 8);
    }
    let unscaled = fdct4x8_unscaled(input);
    assert forall|p: int| 0 <= p < 32 implies -2_097_200 <= #[trigger] unscaled[p] <= 2_097_200 by {
        let col = column_of(mid, 8, 4, p / 4);
        assert forall|r: int| 0 <= r < 4 implies -16_776_961 <= #[trigger] col[r] <= 16_776_961 by {
            assert(0 <= 8 * r + p / 4 < 32);
        }
        assert(within(col, 16_776_961));
        lemma_fwd4_kernel_bound(col, 16_776_961, p % 4);
    }
    assert forall|p: int| 0 <= p < 32 implies -3_100_000 <= #[trigger] fdct4x8_spec(input)[p] <= 3_100_000 by {
        assert(-2_097_200 <= unscaled[p] <= 2_097_200);
    }
}

} // verus!
