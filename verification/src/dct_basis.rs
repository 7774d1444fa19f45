use vstd::prelude::*;
use vstd::arithmetic::power2::pow2;
use crate::forward_transform::{dct_round_spec, fdct4_out, fdct8_out, fwd4_kernel_value, fwd8_kernel_value, within};
use crate::inverse_transform::{clamp_spec, inv_dct4_out, inv_dct8_out, shr_spec};

verus! {

/// The 4-point DCT-II basis in 14-bit fixed point: row `k` holds
/// `cos((2j + 1) k pi / 8)` (times `1 / sqrt(2)` for `k == 0`) scaled by
/// `2^14`, for `j = 0..3`.
pub open spec fn dct4_basis_q14(k: int, j: int) -> int {
    let row: Seq<int> = if k == 0 {
        seq![11585, 11585, 11585, 11585]
    } else if k == 1 {
        seq![15137, 6270, -6270, -15137]
    } else if k == 2 {
        seq![11585, -11585, -11585, 11585]
    } else {
        seq![6270, -15137, 15137, -6270]
    };
    row[j]
}

/// The 4-point integer DCT kernel: row `k` is basis function `k` scaled by
/// 64 and rounded.
pub open spec fn dct4_kernel(k: int, j: int) -> int {
    let row: Seq<int> = if k == 0 {
        seq![64, 64, 64, 64]
    } else if k == 1 {
        seq![83, 35, -35, -83]
    } else if k == 2 {
        seq![64, -64, -64, 64]
    } else {
        seq![35, -83, 83, -35]
    };
    row[j]
}

/// The 8-point integer DCT kernel: row `k` is basis function `k` scaled by
/// 64 and rounded.
pub open spec fn dct8_kernel(k: int, j: int) -> int {
    let row: Seq<int> = if k == 0 {
        seq![64, 64, 64, 64, 64, 64, 64, 64]
    } else if k == 1 {
        seq![89, 75, 50, 18, -18, -50, -75, -89]
    } else if k == 2 {
        seq![83, 35, -35, -83, -83, -35, 35, 83]
    } else if k == 3 {
        seq![75, -18, -89, -50, 50, 89, 18, -75]
    } else if k == 4 {
        seq![64, -64, -64, 64, 64, -64, -64, 64]
    } else if k == 5 {
        seq![50, -89, 18, 75, -75, -18, 89, -50]
    } else if k == 6 {
        seq![35, -83, 83, -35, -35, 83, -83, 35]
    } else {
        seq![18, -50, 75, -89, 89, -75, 50, -18]
    };
    row[j]
}

/// Output `k` of the 4-point forward DCT pass is the dot product of the
/// input with basis row `k`, rounded to the nearest integer (halves up)
/// after the 14-bit scale.
pub proof fn lemma_fdct4_out_is_basis_projection(x: Seq<int>, k: int)
    requires
        x.len() == 4,
        0 <= k < 4,
    ensures
        fdct4_out(x, k) == (dct4_basis_q14(k, 0) * x[0] + dct4_basis_q14(k, 1) * x[1] + dct4_basis_q14(k, 2) * x[2]
            + dct4_basis_q14(k, 3) * x[3] + 8192) / 16384,
{
    reveal(fdct4_out);
    if k == 0 {
    } else if k == 1 {
    } else if k == 2 {
    } else {
    }
}

/// The unshifted 4-point forward kernel product `k` is the dot product of
/// the input with kernel row `k`.
pub proof fn lemma_fwd4_kernel_is_dot(x: Seq<int>, k: int)
    requires
        x.len() == 4,
        0 <= k < 4,
    ensures
        fwd4_kernel_value(x, k) == dct4_kernel(k, 0) * x[0] + dct4_kernel(k, 1) * x[1] + dct4_kernel(k, 2) * x[2] + dct4_kernel(k, 3)
            * x[3],
{
    if k == 0 {
    } else if k == 1 {
    } else if k == 2 {
    } else {
    }
}

/// The unshifted 8-point forward kernel product `k` is the dot product of
/// the input with kernel row `k`.
#[verifier::spinoff_prover]
#[verifier::rlimit(40)]
pub proof fn lemma_fwd8_kernel_is_dot(x: Seq<int>, k: int)
    requires
        x.len() == 8,
        0 <= k < 8,
    ensures
        fwd8_kernel_value(x, k) == dct8_kernel(k, 0) * x[0] + dct8_kernel(k, 1) * x[1] + dct8_kernel(k, 2) * x[2] + dct8_kernel(k, 3)
            * x[3] + dct8_kernel(k, 4) * x[4] + dct8_kernel(k, 5) * x[5] + dct8_kernel(k, 6) * x[6] + dct8_kernel(k, 7) * x[7],
{
    if k == 0 {
    } else if k == 1 {
    } else if k == 2 {
    } else if k == 3 {
    } else if k == 4 {
    } else if k == 5 {
    } else if k == 6 {
    } else {
    }
}

/// Output `k` of the 4-point inverse DCT is the input weighted by column
/// `k` of the kernel (the transposed kernel), rounded by the shift and
/// clamped.
pub proof fn lemma_inv_dct4_is_transposed_kernel(x0: int, x1: int, x2: int, x3: int, k: int, shift: nat, lo: int, hi: int)
    requires
        0 <= k < 4,
    ensures
        inv_dct4_out(x0, x1, x2, x3, k, shift, lo, hi) == clamp_spec(
            shr_spec(
                dct4_kernel(0, k) * x0 + dct4_kernel(1, k) * x1 + dct4_kernel(2, k) * x2 + dct4_kernel(3, k) * x3 + pow2(
                    (shift - 1) as nat,
                ) as int,
                shift,
            ),
            lo,
            hi,
        ),
{
}

/// Output `n` of the 8-point inverse DCT is the input weighted by column
/// `n` of the kernel, rounded by the shift and clamped.
pub proof fn lemma_inv_dct8_is_transposed_kernel(x: Seq<int>, base: int, n: int, shift: nat, lo: int, hi: int)
    requires
        0 <= n < 8,
    ensures
        inv_dct8_out(x, base, n, shift, lo, hi) == clamp_spec(
            shr_spec(
                dct8_kernel(0, n) * x[base] + dct8_kernel(1, n) * x[base + 1] + dct8_kernel(2, n) * x[base + 2] + dct8_kernel(3, n)
                    * x[base + 3] + dct8_kernel(4, n) * x[base + 4] + dct8_kernel(5, n) * x[base + 5] + dct8_kernel(6, n) * x[base
                    + 6] + dct8_kernel(7, n) * x[base + 7] + pow2((shift - 1) as nat) as int,
                shift,
            ),
            lo,
            hi,
        ),
{
}

/// The even rows of the 8-point DCT-II basis in 14-bit fixed point:
/// `cos((2j + 1) k pi / 16)` (times `1 / sqrt(2)` for `k == 0`) scaled by
/// `2^14`, for even `k`.
pub open spec fn dct8_even_basis_q14(k: int, j: int) -> int {
    let row: Seq<int> = if k == 0 {
        seq![11585, 11585, 11585, 11585, 11585, 11585, 11585, 11585]
    } else if k == 2 {
        seq![15137, 6270, -6270, -15137, -15137, -6270, 6270, 15137]
    } else if k == 4 {
        seq![11585, -11585, -11585, 11585, 11585, -11585, -11585, 11585]
    } else {
        seq![6270, -15137, 15137, -6270, -6270, 15137, -15137, 6270]
    };
    row[j]
}

/// The even outputs of the 8-point forward DCT pass are the dot products of
/// the input with the even basis rows, rounded after the 14-bit scale.
#[verifier::spinoff_prover]
#[verifier::rlimit(40)]
pub proof fn lemma_fdct8_even_out_is_basis_projection(x: Seq<int>, k: int)
    requires
        x.len() == 8,
        k == 0 || k == 2 || k == 4 || k == 6,
    ensures
        fdct8_out(x, k) == (dct8_even_basis_q14(k, 0) * x[0] + dct8_even_basis_q14(k, 1) * x[1] + dct8_even_basis_q14(k, 2) * x[2]
            + dct8_even_basis_q14(k, 3) * x[3] + dct8_even_basis_q14(k, 4) * x[4] + dct8_even_basis_q14(k, 5) * x[5]
            + dct8_even_basis_q14(k, 6) * x[6] + dct8_even_basis_q14(k, 7) * x[7] + 8192) / 16384,
{
    reveal(fdct8_out);
    if k == 0 {
    } else if k == 2 {
    } else if k == 4 {
    } else {
    }
}

/// The 8-point DCT-II basis in 14-bit fixed point: row `k` holds
/// `cos((2j + 1) k pi / 16)` (times `1 / sqrt(2)` for `k == 0`) scaled by
/// `2^14`, for `j = 0..7`.
pub open spec fn dct8_basis_q14(k: int, j: int) -> int {
    let row: Seq<int> = if k == 0 {
        seq![11585, 11585, 11585, 11585, 11585, 11585, 11585, 11585]
    } else if k == 1 {
        seq![16069, 13623, 9102, 3196, -3196, -9102, -13623, -16069]
    } else if k == 2 {
        seq![15137, 6270, -6270, -15137, -15137, -6270, 6270, 15137]
    } else if k == 3 {
        seq![13623, -3196, -16069, -9102, 9102, 16069, 3196, -13623]
    } else if k == 4 {
        seq![11585, -11585, -11585, 11585, 11585, -11585, -11585, 11585]
    } else if k == 5 {
        seq![9102, -16069, 3196, 13623, -13623, -3196, 16069, -9102]
    } else if k == 6 {
        seq![6270, -15137, 15137, -6270, -6270, 15137, -15137, 6270]
    } else {
        seq![3196, -9102, 13623, -16069, 16069, -13623, 9102, -3196]
    };
    row[j]
}

/// Projection of `x` on 8-point basis row `k`, in 14-bit fixed point.
pub open spec fn dct8_projection_q14(x: Seq<int>, k: int) -> int {
    dct8_basis_q14(k, 0) * x[0] + dct8_basis_q14(k, 1) * x[1] + dct8_basis_q14(k, 2) * x[2] + dct8_basis_q14(k, 3) * x[3]
        + dct8_basis_q14(k, 4) * x[4] + dct8_basis_q14(k, 5) * x[5] + dct8_basis_q14(k, 6) * x[6] + dct8_basis_q14(k, 7) * x[7]
}

/// `dct_round_spec(v)` times `2^14` lies within half a unit of `v`.
proof fn lemma_dct_round_close(v: int)
    ensures
        v - 8191 <= 16384 * dct_round_spec(v) <= v + 8192,
{
    vstd::arithmetic::div_mod::lemma_fundamental_div_mod(v + 8192, 16384);
}

/// Every output of the 8-point forward DCT pass is the projection of the
/// input on the matching DCT-II basis row, to within the rounding of the
/// butterfly: for inputs bounded by `m`, the scaled output differs from the
/// 14-bit projection by at most `20000 + 4m`.
#[verifier::spinoff_prover]
#[verifier::rlimit(60)]
pub proof fn lemma_fdct8_out_near_basis_projection(x: Seq<int>, k: int, m: int)
    requires
        x.len() == 8,
        0 <= k < 8,
        0 <= m,
        within(x, m),
    ensures
        -(20000 + 4 * m) <= 16384 * fdct8_out(x, k) - dct8_projection_q14(x, k) <= 20000 + 4 * m,
{
    reveal(fdct8_out);
    assert(-m <= x[0] <= m && -m <= x[1] <= m && -m <= x[2] <= m && -m <= x[3] <= m);
    assert(-m <= x[4] <= m && -m <= x[5] <= m && -m <= x[6] <= m && -m <= x[7] <= m);
    let s4 = x[3] - x[4];
    let s5 = x[2] - x[5];
    let s6 = x[1] - x[6];
    let s7 = x[0] - x[7];
    let t0 = dct_round_spec((s6 - s5) * 11585);
    let t1 = dct_round_spec((s6 + s5) * 11585);
    lemma_dct_round_close((s6 - s5) * 11585);
    lemma_dct_round_close((s6 + s5) * 11585);
    let o0 = s4 + t0;
    let o1 = s4 - t0;
    let o2 = s7 - t1;
    let o3 = s7 + t1;
    if k == 1 {
        lemma_dct_round_close(o0 * 3196 + o3 * 16069);
    } else if k == 3 {
        lemma_dct_round_close(o2 * 13623 - o1 * 9102);
    } else if k == 5 {
        lemma_dct_round_close(o1 * 13623 + o2 * 9102);
    } else if k == 7 {
        lemma_dct_round_close(o3 * 3196 - o0 * 16069);
    } else {
        lemma_fdct8_even_out_is_basis_projection(x, k);
        let e = dct8_even_basis_q14(k, 0) * x[0] + dct8_even_basis_q14(k, 1) * x[1] + dct8_even_basis_q14(k, 2) * x[2]
            + dct8_even_basis_q14(k, 3) * x[3] + dct8_even_basis_q14(k, 4) * x[4] + dct8_even_basis_q14(k, 5) * x[5]
            + dct8_even_basis_q14(k, 6) * x[6] + dct8_even_basis_q14(k, 7) * x[7];
        lemma_dct_round_close(e);
        if k == 0 {
        } else if k == 2 {
        } else if k == 4 {
        } else {
        }
    }
}

} // verus!
