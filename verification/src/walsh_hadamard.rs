use vstd::prelude::*;

verus! {

/// One forward Walsh-Hadamard lifting butterfly over `(a, b, c, d)`; the
/// outputs are produced in the order `(a, c, d, b)` of the lifted values.
pub open spec fn fwd_wht1(a: int, b: int, c: int, d: int) -> (int, int, int, int) {
    let a1 = a + b;
    let d1 = d - c;
    let e1 = (a1 - d1) / 2;
    let b1 = e1 - b;
    let c1 = e1 - c;
    (a1 - c1, c1, d1 + b1, b1)
}

/// The inverse lifting butterfly, taking the forward outputs in their
/// emitted order and returning `(a, b, c, d)`.
pub open spec fn inv_wht1(i0: int, i1: int, i2: int, i3: int) -> (int, int, int, int) {
    let a1 = i0 + i1;
    let d1 = i2 - i3;
    let e1 = (a1 - d1) / 2;
    let b1 = e1 - i3;
    let c1 = e1 - i1;
    (a1 - b1, b1, c1, d1 + c1)
}

/// Component `k` of a 4-tuple.
pub open spec fn pick(t: (int, int, int, int), k: int) -> int {
    if k == 0 { t.0 } else if k == 1 { t.1 } else if k == 2 { t.2 } else { t.3 }
}

/// Column pass of the forward transform.
pub open spec fn fwht_pass0(x: Seq<int>) -> Seq<int> {
    Seq::new(16, |p: int| pick(fwd_wht1(x[p % 4], x[4 + p % 4], x[8 + p % 4], x[12 + p % 4]), p / 4))
}

/// Row pass of the forward transform, scaled by the unit quantizer factor 8.
pub open spec fn fwht_pass1(p0: Seq<int>) -> Seq<int> {
    Seq::new(16, |p: int| 8 * pick(fwd_wht1(p0[4 * (p / 4)], p0[4 * (p / 4) + 1], p0[4 * (p / 4) + 2], p0[4 * (p / 4) + 3]), p % 4))
}

/// Forward 4x4 Walsh-Hadamard transform with the unit quantizer factor 8.
#[verifier::opaque]
pub open spec fn fwht4x4_spec(x: Seq<int>) -> Seq<int> {
    fwht_pass1(fwht_pass0(x))
}

/// Row pass of the inverse transform, after removing the factor 8.
pub open spec fn iwht_pass0(c: Seq<int>) -> Seq<int> {
    Seq::new(16, |p: int| pick(inv_wht1(c[4 * (p / 4)] / 8, c[4 * (p / 4) + 1] / 8, c[4 * (p / 4) + 2] / 8, c[4 * (p / 4) + 3] / 8), p % 4))
}

/// Column pass of the inverse transform.
pub open spec fn iwht_pass1(p0: Seq<int>) -> Seq<int> {
    Seq::new(16, |p: int| pick(inv_wht1(p0[p % 4], p0[4 + p % 4], p0[8 + p % 4], p0[12 + p % 4]), p / 4))
}

/// Inverse 4x4 Walsh-Hadamard transform (without the predictor add).
#[verifier::opaque]
pub open spec fn iwht4x4_spec(c: Seq<int>) -> Seq<int> {
    iwht_pass1(iwht_pass0(c))
}

/// The inverse butterfly undoes the forward butterfly.
pub proof fn lemma_wht1_round_trip(a: int, b: int, c: int, d: int)
    ensures
        ({
            let f = fwd_wht1(a, b, c, d);
            inv_wht1(f.0, f.1, f.2, f.3) == (a, b, c, d)
        }),
{
}

/// One forward butterfly; its outputs grow by at most a factor of two.
fn fwd_wht1_exec(a: i32, b: i32, c: i32, d: i32, Ghost(m): Ghost<int>) -> (r: (i32, i32, i32, i32))
    requires
        0 <= m <= 0x0400_0000,
        -m <= a <= m,
        -m <= b <= m,
        -m <= c <= m,
        -m <= d <= m,
    ensures
        (r.0 as int, r.1 as int, r.2 as int, r.3 as int) == fwd_wht1(a as int, b as int, c as int, d as int),
        -2 * m - 1 <= r.0 <= 2 * m + 1,
        -2 * m - 1 <= r.1 <= 2 * m + 1,
        -2 * m - 1 <= r.2 <= 2 * m + 1,
        -2 * m - 1 <= r.3 <= 2 * m + 1,
{
    let a1 = a + b;
    let d1 = d - c;
    let e1 = floor_div_pow2(a1 - d1, 2);
    let b1 = e1 - b;
    let c1 = e1 - c;
    (a1 - c1, c1, d1 + b1, b1)
}

/// One inverse butterfly; its outputs grow by at most a factor of two.
fn inv_wht1_exec(i0: i32, i1: i32, i2: i32, i3: i32, Ghost(m): Ghost<int>) -> (r: (i32, i32, i32, i32))
    requires
        0 <= m <= 0x0400_0000,
        -m <= i0 <= m,
        -m <= i1 <= m,
        -m <= i2 <= m,
        -m <= i3 <= m,
    ensures
        (r.0 as int, r.1 as int, r.2 as int, r.3 as int) == inv_wht1(i0 as int, i1 as int, i2 as int, i3 as int),
        -2 * m - 1 <= r.0 <= 2 * m + 1,
        -2 * m - 1 <= r.1 <= 2 * m + 1,
        -2 * m - 1 <= r.2 <= 2 * m + 1,
        -2 * m - 1 <= r.3 <= 2 * m + 1,
{
    let a1 = i0 + i1;
    let d1 = i2 - i3;
    let e1 = floor_div_pow2(a1 - d1, 2);
    let b1 = e1 - i3;
    let c1 = e1 - i1;
    (a1 - b1, b1, c1, d1 + c1)
}

/// `x / d` rounded toward negative infinity, for `d` a power of two: an
/// arithmetic right shift.
pub fn floor_div_pow2(x: i32, d: i32) -> (r: i32)
    requires
        d == 2 || d == 4 || d == 8,
    ensures
        r == x / d,
{
    let y = x as i64;
    let dd = d as i64;
    if y >= 0 {
        (y / dd) as i32
    } else {
        let q = (-y + dd - 1) / dd;
        proof {
            assert(q == (-(y as int) + dd - 1) / (dd as int));
            assert(-q == (y as int) / (dd as int)) by (nonlinear_arith)
                requires
                    q == (-(y as int) + dd - 1) / (dd as int),
                    y < 0,
                    dd == 2 || dd == 4 || dd == 8,
            ;
        }
        (-q) as i32
    }
}

/// Forward 4x4 Walsh-Hadamard transform of a lossless residual, scaled by
/// the unit quantizer factor 8.
pub fn av2_fwht4x4(input: &[i32; 16]) -> (r: [i32; 16])
    requires
        forall|i: int| 0 <= i < 16 ==> -0x0040_0000 <= #[trigger] input[i] <= 0x0040_0000,
    ensures
        forall|i: int| 0 <= i < 16 ==> #[trigger] r[i] == fwht4x4_spec(input@.map_values(|v: i32| v as int))[i],
{
    proof {
        reveal(fwht4x4_spec);
    }
    let ghost x = input@.map_values(|v: i32| v as int);
    let ghost q = fwht_pass0(x);
    let mut pass0 = [0i32; 16];
    let mut i: usize = 0;
    while i < 4
        invariant
            i <= 4,
            x == input@.map_values(|v: i32| v as int),
            q == fwht_pass0(x),
            forall|k: int| 0 <= k < 16 ==> -0x0040_0000 <= #[trigger] input[k] <= 0x0040_0000,
            forall|p: int| 0 <= p < 16 && p % 4 < i ==> #[trigger] pass0[p] == q[p],
            forall|p: int| 0 <= p < 16 && p % 4 < i ==> -0x0080_0001 <= #[trigger] pass0[p] <= 0x0080_0001,
        decreases 4 - i,
    {
        let (a, c, d, b) = fwd_wht1_exec(input[i], input[4 + i], input[8 + i], input[12 + i], Ghost(0x0040_0000));
        pass0[i] = a;
        pass0[4 + i] = c;
        pass0[8 + i] = d;
        pass0[12 + i] = b;
        proof {
            lemma_column_slots(i as int);
            assert(x[i as int] == input[i as int] && x[4 + i] == input[4 + i] && x[8 + i] == input[8 + i] && x[12 + i] == input[12 + i]);
        }
        i = i + 1;
    }
    let mut output = [0i32; 16];
    let mut row: usize = 0;
    while row < 4
        invariant
            row <= 4,
            q == fwht_pass0(x),
            forall|p: int| 0 <= p < 16 ==> #[trigger] pass0[p] == q[p],
            forall|p: int| 0 <= p < 16 ==> -0x0080_0001 <= #[trigger] pass0[p] <= 0x0080_0001,
            forall|p: int| 0 <= p < 16 && p / 4 < row ==> #[trigger] output[p] == fwht_pass1(q)[p],
        decreases 4 - row,
    {
        let base = row * 4;
        let (a, c, d, b) = fwd_wht1_exec(pass0[base], pass0[base + 1], pass0[base + 2], pass0[base + 3], Ghost(0x0080_0001));
        output[base] = a * 8;
        output[base + 1] = c * 8;
        output[base + 2] = d * 8;
        output[base + 3] = b * 8;
        proof {
            lemma_row_slots(row as int);
        }
        row = row + 1;
    }
    output
}

/// Positions `i`, `4 + i`, `8 + i` and `12 + i` form column `i`.
proof fn lemma_column_slots(i: int)
    requires
        0 <= i < 4,
    ensures
        i % 4 == i && (4 + i) % 4 == i && (8 + i) % 4 == i && (12 + i) % 4 == i,
        i / 4 == 0 && (4 + i) / 4 == 1 && (8 + i) / 4 == 2 && (12 + i) / 4 == 3,
        forall|p: int| 0 <= p < 16 && #[trigger] (p % 4) == i ==> p == i || p == 4 + i || p == 8 + i || p == 12 + i,
{
}

/// Positions `4 * r` to `4 * r + 3` form row `r`.
proof fn lemma_row_slots(r: int)
    requires
        0 <= r < 4,
    ensures
        (4 * r) / 4 == r && (4 * r + 1) / 4 == r && (4 * r + 2) / 4 == r && (4 * r + 3) / 4 == r,
        (4 * r) % 4 == 0 && (4 * r + 1) % 4 == 1 && (4 * r + 2) % 4 == 2 && (4 * r + 3) % 4 == 3,
        forall|p: int| 0 <= p < 16 && #[trigger] (p / 4) == r ==> p == 4 * r || p == 4 * r + 1 || p == 4 * r + 2 || p == 4 * r + 3,
{
}

/// Inverse 4x4 Walsh-Hadamard transform (coefficients are first divided by
/// the unit quantizer factor 8).
pub fn av2_iwht4x4(coefficients: &[i32; 16]) -> (r: [i32; 16])
    requires
        forall|i: int| 0 <= i < 16 ==> -0x0400_0000 <= #[trigger] coefficients[i] <= 0x0400_0000,
    ensures
        forall|i: int| 0 <= i < 16 ==> #[trigger] r[i] == iwht4x4_spec(coefficients@.map_values(|v: i32| v as int))[i],
{
    proof {
        reveal(iwht4x4_spec);
    }
    let ghost c = coefficients@.map_values(|v: i32| v as int);
    let ghost q = iwht_pass0(c);
    let mut pass0 = [0i32; 16];
    let mut row: usize = 0;
    while row < 4
        invariant
            row <= 4,
            c == coefficients@.map_values(|v: i32| v as int),
            q == iwht_pass0(c),
            forall|k: int| 0 <= k < 16 ==> -0x0400_0000 <= #[trigger] coefficients[k] <= 0x0400_0000,
            forall|p: int| 0 <= p < 16 && p / 4 < row ==> #[trigger] pass0[p] == q[p],
            forall|p: int| 0 <= p < 16 && p / 4 < row ==> -0x0100_0001 <= #[trigger] pass0[p] <= 0x0100_0001,
        decreases 4 - row,
    {
        let base = row * 4;
        let s0 = floor_div_pow2(coefficients[base], 8);
        let s1 = floor_div_pow2(coefficients[base + 1], 8);
        let s2 = floor_div_pow2(coefficients[base + 2], 8);
        let s3 = floor_div_pow2(coefficients[base + 3], 8);
        let (a, b, cc, d) = inv_wht1_exec(s0, s1, s2, s3, Ghost(0x0080_0000));
        pass0[base] = a;
        pass0[base + 1] = b;
        pass0[base + 2] = cc;
        pass0[base + 3] = d;
        proof {
            lemma_row_slots(row as int);
            assert(c[base as int] == coefficients[base as int]);
            assert(c[base + 1] == coefficients[base + 1]);
            assert(c[base + 2] == coefficients[base + 2]);
            assert(c[base + 3] == coefficients[base + 3]);
        }
        row = row + 1;
    }
    let mut output = [0i32; 16];
    let mut i: usize = 0;
    while i < 4
        invariant
            i <= 4,
            q == iwht_pass0(c),
            forall|p: int| 0 <= p < 16 ==> #[trigger] pass0[p] == q[p],
            forall|p: int| 0 <= p < 16 ==> -0x0100_0001 <= #[trigger] pass0[p] <= 0x0100_0001,
            forall|p: int| 0 <= p < 16 && p % 4 < i ==> #[trigger] output[p] == iwht_pass1(q)[p],
        decreases 4 - i,
    {
        let (a, b, cc, d) = inv_wht1_exec(pass0[i], pass0[4 + i], pass0[8 + i], pass0[12 + i], Ghost(0x0100_0001));
        output[i] = a;
        output[4 + i] = b;
        output[8 + i] = cc;
        output[12 + i] = d;
        proof {
            lemma_column_slots(i as int);
        }
        i = i + 1;
    }
    output
}

/// The inverse row pass recovers each row of the forward column pass.
proof fn lemma_row_pass_inverts(p0: Seq<int>, r: int)
    requires
        p0.len() == 16,
        0 <= r < 4,
    ensures
        iwht_pass0(fwht_pass1(p0))[4 * r] == p0[4 * r],
        iwht_pass0(fwht_pass1(p0))[4 * r + 1] == p0[4 * r + 1],
        iwht_pass0(fwht_pass1(p0))[4 * r + 2] == p0[4 * r + 2],
        iwht_pass0(fwht_pass1(p0))[4 * r + 3] == p0[4 * r + 3],
{
    lemma_row_slots(r);
    let f = fwht_pass1(p0);
    let b = 4 * r;
    let t = fwd_wht1(p0[b], p0[b + 1], p0[b + 2], p0[b + 3]);
    assert(f[b] == 8 * t.0 && f[b + 1] == 8 * t.1 && f[b + 2] == 8 * t.2 && f[b + 3] == 8 * t.3);
    assert((8 * t.0) / 8 == t.0 && (8 * t.1) / 8 == t.1 && (8 * t.2) / 8 == t.2 && (8 * t.3) / 8 == t.3);
    lemma_wht1_round_trip(p0[b], p0[b + 1], p0[b + 2], p0[b + 3]);
}

/// The inverse column pass recovers each column of the input.
proof fn lemma_column_pass_inverts(x: Seq<int>, i: int)
    requires
        x.len() == 16,
        0 <= i < 4,
    ensures
        iwht_pass1(fwht_pass0(x))[i] == x[i],
        iwht_pass1(fwht_pass0(x))[4 + i] == x[4 + i],
        iwht_pass1(fwht_pass0(x))[8 + i] == x[8 + i],
        iwht_pass1(fwht_pass0(x))[12 + i] == x[12 + i],
{
    lemma_column_slots(i);
    let p0 = fwht_pass0(x);
    let t = fwd_wht1(x[i], x[4 + i], x[8 + i], x[12 + i]);
    assert(p0[i] == t.0 && p0[4 + i] == t.1 && p0[8 + i] == t.2 && p0[12 + i] == t.3);
    lemma_wht1_round_trip(x[i], x[4 + i], x[8 + i], x[12 + i]);
}

/// Lossless reconstruction: the inverse Walsh-Hadamard transform gives back
/// exactly the residual the forward transform was applied to.
pub proof fn lemma_wht4x4_round_trip(x: Seq<int>)
    requires
        x.len() == 16,
    ensures
        iwht4x4_spec(fwht4x4_spec(x)) == x,
{
    reveal(fwht4x4_spec);
    reveal(iwht4x4_spec);
    let p0 = fwht_pass0(x);
    let q0 = iwht_pass0(fwht_pass1(p0));
    assert forall|p: int| 0 <= p < 16 implies #[trigger] q0[p] == p0[p] by {
        lemma_row_slots(p / 4);
        lemma_row_pass_inverts(p0, p / 4);
    }
    assert(q0 =~= p0);
    let out = iwht_pass1(q0);
    assert forall|p: int| 0 <= p < 16 implies #[trigger] out[p] == x[p] by {
        lemma_column_slots(p % 4);
        lemma_column_pass_inverts(x, p % 4);
    }
    assert(out =~= x);
}

/// Identity-transform (forward-skip) coefficients of a lossless residual:
/// each sample scaled by the unit quantizer factor 8.
pub fn idtx4x4_coefficients(residual: &[i32; 16]) -> (r: [i32; 16])
    requires
        forall|i: int| 0 <= i < 16 ==> -0x0100_0000 <= #[trigger] residual[i] <= 0x0100_0000,
    ensures
        forall|i: int| 0 <= i < 16 ==> #[trigger] r[i] == residual[i] * 8,
{
    let mut out = [0i32; 16];
    let mut i: usize = 0;
    while i < 16
        invariant
            i <= 16,
            forall|k: int| 0 <= k < 16 ==> -0x0100_0000 <= #[trigger] residual[k] <= 0x0100_0000,
            forall|k: int| 0 <= k < i ==> #[trigger] out[k] == residual[k] * 8,
        decreases 16 - i,
    {
        out[i] = residual[i] * 8;
        i = i + 1;
    }
    out
}

/// Lossless coefficients of a residual: the identity transform under
/// forward-skip coding, the Walsh-Hadamard transform otherwise.
pub fn tx4x4_coefficients_from_residual(residual: &[i32; 16], use_fsc: bool) -> (r: [i32; 16])
    requires
        forall|i: int| 0 <= i < 16 ==> -0x0040_0000 <= #[trigger] residual[i] <= 0x0040_0000,
    ensures
        use_fsc ==> forall|i: int| 0 <= i < 16 ==> #[trigger] r[i] == residual[i] * 8,
        !use_fsc ==> forall|i: int| 0 <= i < 16 ==> #[trigger] r[i] == fwht4x4_spec(residual@.map_values(|v: i32| v as int))[i],
{
    if use_fsc {
        idtx4x4_coefficients(residual)
    } else {
        av2_fwht4x4(residual)
    }
}

/// Whether every sample of a residual is zero.
pub fn tx4x4_residual_is_zero(residual: &[i32; 16]) -> (r: bool)
    ensures
        r == (forall|i: int| 0 <= i < 16 ==> #[trigger] residual[i] == 0),
{
    let mut i: usize = 0;
    while i < 16
        invariant
            i <= 16,
            forall|k: int| 0 <= k < i ==> #[trigger] residual[k] == 0,
        decreases 16 - i,
    {
        if residual[i] != 0 {
            return false;
        }
        i = i + 1;
    }
    true
}

/// Each forward butterfly output is about half a signed sum of the four
/// inputs, so it stays within twice their bound (plus rounding).
pub proof fn lemma_fwd_wht1_bound(a: int, b: int, c: int, d: int, m: int, k: int)
    requires
        -m <= a <= m,
        -m <= b <= m,
        -m <= c <= m,
        -m <= d <= m,
    ensures
        -2 * m - 1 <= pick(fwd_wht1(a, b, c, d), k) <= 2 * m + 1,
{
}

/// Each inverse butterfly output stays within twice the inputs' bound (plus
/// rounding).
pub proof fn lemma_inv_wht1_bound(i0: int, i1: int, i2: int, i3: int, m: int, k: int)
    requires
        -m <= i0 <= m,
        -m <= i1 <= m,
        -m <= i2 <= m,
        -m <= i3 <= m,
    ensures
        -2 * m - 1 <= pick(inv_wht1(i0, i1, i2, i3), k) <= 2 * m + 1,
{
}

/// The forward transform of samples within `m` stays within `32 m + 24`.
pub proof fn lemma_fwht4x4_bound(x: Seq<int>, m: int)
    requires
        x.len() == 16,
        0 <= m,
        forall|i: int| 0 <= i < 16 ==> -m <= #[trigger] x[i] <= m,
    ensures
        forall|p: int| 0 <= p < 16 ==> -(32 * m + 24) <= #[trigger] fwht4x4_spec(x)[p] <= 32 * m + 24,
{
    reveal(fwht4x4_spec);
    let p0 = fwht_pass0(x);
    assert forall|p: int| 0 <= p < 16 implies -(2 * m + 1) <= #[trigger] p0[p] <= 2 * m + 1 by {
        lemma_fwd_wht1_bound(x[p % 4], x[4 + p % 4], x[8 + p % 4], x[12 + p % 4], m, p / 4);
    }
    assert forall|p: int| 0 <= p < 16 implies -(32 * m + 24) <= #[trigger] fwht4x4_spec(x)[p] <= 32 * m + 24 by {
        let r = p / 4;
        assert(0 <= 4 * r && 4 * r + 3 < 16);
        lemma_fwd_wht1_bound(p0[4 * r], p0[4 * r + 1], p0[4 * r + 2], p0[4 * r + 3], 2 * m + 1, p % 4);
    }
}

/// The inverse transform of coefficients within `m` stays within
/// `m / 2 + 8`.
pub proof fn lemma_iwht4x4_bound(c: Seq<int>, m: int)
    requires
        c.len() == 16,
        0 <= m,
        forall|i: int| 0 <= i < 16 ==> -m <= #[trigger] c[i] <= m,
    ensures
        forall|p: int| 0 <= p < 16 ==> -(m / 2 + 8) <= #[trigger] iwht4x4_spec(c)[p] <= m / 2 + 8,
{
    reveal(iwht4x4_spec);
    let m8 = m / 8 + 1;
    assert forall|i: int| 0 <= i < 16 implies -m8 <= #[trigger] (c[i] / 8) <= m8 by {
    }
    let p0 = iwht_pass0(c);
    assert forall|p: int| 0 <= p < 16 implies -(2 * m8 + 1) <= #[trigger] p0[p] <= 2 * m8 + 1 by {
        let r = p / 4;
        assert(0 <= 4 * r && 4 * r + 3 < 16);
        assert(-m8 <= c[4 * r] / 8 <= m8 && -m8 <= c[4 * r + 1] / 8 <= m8);
        assert(-m8 <= c[4 * r + 2] / 8 <= m8 && -m8 <= c[4 * r + 3] / 8 <= m8);
        lemma_inv_wht1_bound(c[4 * r] / 8, c[4 * r + 1] / 8, c[4 * r + 2] / 8, c[4 * r + 3] / 8, m8, p % 4);
    }
    assert forall|p: int| 0 <= p < 16 implies -(m / 2 + 8) <= #[trigger] iwht4x4_spec(c)[p] <= m / 2 + 8 by {
        lemma_inv_wht1_bound(p0[p % 4], p0[4 + p % 4], p0[8 + p % 4], p0[12 + p % 4], 2 * m8 + 1, p / 4);
    }
}

} // verus!
