use vstd::prelude::*;
use vstd::arithmetic::power2::{pow2, lemma2_to64, lemma_pow2_strictly_increases};
use crate::sample::{SampleBitDepth, pow2_u32};

verus! {

/// Regular quantizer step table for the lowest 25 quantizer indices; higher
/// indices double every 24 steps.
pub const AV2_QLOOKUP_QTX: [i32; 25] = [
    64, 40, 41, 43, 44, 45, 47, 48, 49, 51, 52, 54, 55, 57, 59, 60, 62, 64, 66, 68, 70, 72, 74, 76,
    78,
];

/// Bit depths the regular quantizer supports.
pub open spec fn quant_bits_supported(bits: nat) -> bool {
    bits == 8 || bits == 10 || bits == 12
}

/// Largest quantizer index of a bit depth.
pub open spec fn max_qindex_spec(bits: nat) -> int {
    if bits == 8 { 255 } else if bits == 10 { 303 } else { 351 }
}

/// Quantizer step of `qindex` (clamped to `1..=max`) at a bit depth.
pub open spec fn qlookup_spec(qindex: u16, bits: nat) -> int {
    let max = max_qindex_spec(bits);
    let q = if qindex < 1 { 1 } else if qindex > max { max } else { qindex as int };
    if q < 25 {
        AV2_QLOOKUP_QTX[q] as int
    } else {
        AV2_QLOOKUP_QTX[(q - 1) % 24 + 1] as int * pow2(((q - 1) / 24) as nat)
    }
}

/// Quantizer step of a quantizer index.
pub fn av2_qlookup_qtx(qindex: u16, bit_depth: SampleBitDepth) -> (r: i32)
    requires
        quant_bits_supported(bit_depth@),
    ensures
        r == qlookup_spec(qindex, bit_depth@),
        40 <= r <= 78 * 16384,
{
    let bits = bit_depth.bits();
    let max_qindex: i32 = if bits == 8 { 255 } else if bits == 10 { 303 } else { 351 };
    let qindex = if (qindex as i32) < 1 { 1 } else if (qindex as i32) > max_qindex { max_qindex } else { qindex as i32 };
    if qindex < 25 {
        AV2_QLOOKUP_QTX[qindex as usize]
    } else {
        let shift = ((qindex - 1) / 24) as u32;
        let p = pow2_u32(shift);
        proof {
            lemma2_to64();
            if shift < 14 {
                lemma_pow2_strictly_increases(shift as nat, 14);
            }
            assert(forall|i: int| 1 <= i < 25 ==> 40 <= #[trigger] AV2_QLOOKUP_QTX[i] <= 78);
            let t = AV2_QLOOKUP_QTX[(qindex - 1) % 24 + 1];
            assert(t * p <= 78 * 16384) by (nonlinear_arith)
                requires
                    t <= 78,
                    p <= 16384,
                    t >= 0,
            ;
            assert(t * p >= 40) by (nonlinear_arith)
                requires
                    t >= 40,
                    p >= 1,
            ;
        }
        AV2_QLOOKUP_QTX[((qindex - 1) % 24 + 1) as usize] * p as i32
    }
}

/// DC and AC dequantizer steps of a quantizer index.
pub fn av2_regular_dequant_qtx(qindex: u16, bit_depth: SampleBitDepth) -> (r: [i32; 2])
    requires
        quant_bits_supported(bit_depth@),
    ensures
        r[0] == qlookup_spec(qindex, bit_depth@),
        r[1] == qlookup_spec(qindex, bit_depth@),
        40 <= r[0] <= 78 * 16384,
        r[1] == r[0],
{
    let q = av2_qlookup_qtx(qindex, bit_depth);
    [q, q]
}

/// Fixed-point quantizer parameters for the DC (index 0) and AC (index 1)
/// coefficients.
#[derive(Clone, Copy, Debug, PartialEq, Eq)]
pub struct Av2RegularQuantParams {
    pub dequant: [i32; 2],
    pub quant_fp: [i64; 2],
    pub round_fp: [i64; 2],
}

/// Parameters derived from dequantizer steps in the supported range: the
/// reciprocal `2^23 / step` and the rounding offset `64 * step / 1024`.
pub open spec fn quant_params_wf(p: Av2RegularQuantParams) -> bool {
    forall|i: int| 0 <= i < 2 ==> {
        &&& 40 <= #[trigger] p.dequant[i] <= 78 * 16384
        &&& p.quant_fp[i] == 0x80_0000int / (p.dequant[i] as int)
        &&& p.round_fp[i] == 64 * p.dequant[i] / 1024
    }
}

impl Av2RegularQuantParams {
    /// Parameters of a quantizer index at a bit depth.
    pub fn new(qindex: u16, bit_depth: SampleBitDepth) -> (r: Self)
        requires
            quant_bits_supported(bit_depth@),
        ensures
            quant_params_wf(r),
            r.dequant[0] == qlookup_spec(qindex, bit_depth@),
            r.dequant[1] == qlookup_spec(qindex, bit_depth@),
    {
        let dequant = av2_regular_dequant_qtx(qindex, bit_depth);
        let d = dequant[0] as i64;
        let quant = 0x80_0000i64 / d;
        let round = (64 * d) / 1024;
        let r = Av2RegularQuantParams { dequant, quant_fp: [quant, quant], round_fp: [round, round] };
        proof {
            assert(r.dequant[0] == d && r.dequant[1] == d);
            assert forall|i: int| 0 <= i < 2 implies {
                &&& 40 <= #[trigger] r.dequant[i] <= 78 * 16384
                &&& r.quant_fp[i] == 0x80_0000int / (r.dequant[i] as int)
                &&& r.round_fp[i] == 64 * r.dequant[i] / 1024
            } by {
                assert(i == 0 || i == 1);
            }
        }
        r
    }
}

/// Absolute value as an integer.
pub open spec fn abs_int(x: int) -> int {
    if x < 0 { -x } else { x }
}

/// Quantized level of one coefficient: zero below half a step, otherwise the
/// rounded fixed-point quotient with the coefficient's sign.
pub open spec fn quantize_coefficient_spec(coefficient: i32, p: Av2RegularQuantParams, ac: bool) -> int {
    let rc: int = if ac { 1 } else { 0 };
    let a = abs_int(coefficient as int);
    if a * 16 < p.dequant[rc] {
        0
    } else {
        let q = (a + p.round_fp[rc]) * p.quant_fp[rc] / 0x10_0000;
        if coefficient < 0 { -q } else { q }
    }
}

/// Quantizes one coefficient.
pub fn av2_regular_quantize_coefficient(coefficient: i32, params: Av2RegularQuantParams, ac_coefficient: bool) -> (r: i32)
    requires
        quant_params_wf(params),
        -0x4000_0000 <= coefficient <= 0x4000_0000,
    ensures
        r == quantize_coefficient_spec(coefficient, params, ac_coefficient),
        abs_int(r as int) * params.dequant[if ac_coefficient { 1int } else { 0int }] <= 8 * (0x4000_0000 + 0x2_0000),
{
    let rc: usize = if ac_coefficient { 1 } else { 0 };
    let abs_coeff: i64 = if coefficient < 0 { -(coefficient as i64) } else { coefficient as i64 };
    let d = params.dequant[rc] as i64;
    if abs_coeff * 16 < d {
        proof {
            let dd = params.dequant[if ac_coefficient { 1int } else { 0int }] as int;
            assert(abs_int(0int) == 0);
            assert(0 * dd == 0);
            assert(abs_int(0int) * dd == 0);
        }
        return 0;
    }
    let qf = params.quant_fp[rc];
    let rf = params.round_fp[rc];
    proof {
        assert(0 <= rf <= 0x2_0000);
        assert(0 <= qf <= 209715) by (nonlinear_arith)
            requires
                qf == 0x80_0000i64 / d,
                d >= 40,
        ;
        assert(0 <= (abs_coeff + rf) * qf <= (0x4000_0000 + 0x2_0000) * (209715)) by (nonlinear_arith)
            requires
                0 <= abs_coeff <= 0x4000_0000,
                0 <= rf <= 0x2_0000,
                0 <= qf <= 209715,
        ;
        assert(qf * d <= 0x80_0000) by (nonlinear_arith)
            requires
                qf == 0x80_0000i64 / d,
                d > 0,
        ;
        let q = (abs_coeff + rf) * qf / 0x10_0000;
        assert(q * d <= 8 * (abs_coeff + rf)) by (nonlinear_arith)
            requires
                q == (abs_coeff + rf) * qf / 0x10_0000,
                qf * d <= 0x80_0000,
                abs_coeff + rf >= 0,
                qf >= 0,
                d > 0,
        ;
    }
    let abs_qcoeff = (abs_coeff + rf) * qf / 0x10_0000;
    if coefficient < 0 {
        -(abs_qcoeff as i32)
    } else {
        abs_qcoeff as i32
    }
}

/// Dequantized value of one level: `|level| * step / 8`, rounded, with the
/// level's sign.
pub open spec fn dequantize_spec(level: i32, step: i32) -> int {
    let a = (abs_int(level as int) * step + 4) / 8;
    if level < 0 { -a } else { a }
}

/// Rounded magnitude of a dequantized level: `(|level| * step + 4) / 8`,
/// rounded down.
pub open spec fn dequantized_magnitude_spec(level: i32, step: i32) -> int {
    (abs_int(level as int) * step + 4) / 8
}

/// Dequantized value of one level as computed in 32 bits: the rounded
/// magnitude truncated to `i32`, with the level's sign.
pub open spec fn dequantize_wrapping_spec(level: i32, step: i32) -> int {
    let a = dequantized_magnitude_spec(level, step) as i32;
    if level < 0 { -(a as int) } else { a as int }
}

/// A level and a nonnegative step whose product stays within the range the
/// quantizer produces, so that no truncation happens.
pub open spec fn dequant_in_range(level: i32, step: i32) -> bool {
    &&& 0 <= step
    &&& abs_int(level as int) * step <= 8 * (0x4000_0000 + 0x2_0000)
}

/// Dequantizes a block of levels: each level's magnitude times its step
/// (DC or AC), rounded and truncated to 32 bits, with the level's sign.
pub fn av2_regular_dequantize<const SAMPLES: usize>(qcoeff: &[i32; SAMPLES], dequant: [i32; 2]) -> (r: [i32; SAMPLES])
    requires
        forall|i: int| 0 <= i < SAMPLES ==> #[trigger] qcoeff[i] != i32::MIN,
        forall|i: int| 0 <= i < SAMPLES && #[trigger] qcoeff[i] < 0 ==> dequantized_magnitude_spec(
            qcoeff[i],
            dequant[if i != 0 { 1int } else { 0int }],
        ) as i32 != i32::MIN,
    ensures
        forall|i: int| 0 <= i < SAMPLES ==> #[trigger] r[i] == dequantize_wrapping_spec(qcoeff[i], dequant[if i != 0 { 1int } else { 0int }]),
        forall|i: int| 0 <= i < SAMPLES && dequant_in_range(qcoeff[i], dequant[if i != 0 { 1int } else { 0int }]) ==> #[trigger] r[i]
            == dequantize_spec(qcoeff[i], dequant[if i != 0 { 1int } else { 0int }]),
{
    let mut dqcoeff = [0i32; SAMPLES];
    let mut pos: usize = 0;
    while pos < SAMPLES
        invariant
            pos <= SAMPLES,
            forall|i: int| 0 <= i < SAMPLES ==> #[trigger] qcoeff[i] != i32::MIN,
            forall|i: int| 0 <= i < SAMPLES && #[trigger] qcoeff[i] < 0 ==> dequantized_magnitude_spec(
                qcoeff[i],
                dequant[if i != 0 { 1int } else { 0int }],
            ) as i32 != i32::MIN,
            forall|i: int| 0 <= i < pos ==> #[trigger] dqcoeff[i] == dequantize_wrapping_spec(qcoeff[i], dequant[if i != 0 { 1int } else { 0int }]),
            forall|i: int| 0 <= i < pos && dequant_in_range(qcoeff[i], dequant[if i != 0 { 1int } else { 0int }]) ==> #[trigger] dqcoeff[i]
                == dequantize_spec(qcoeff[i], dequant[if i != 0 { 1int } else { 0int }]),
        decreases SAMPLES - pos,
    {
        let rc: usize = if pos != 0 { 1 } else { 0 };
        let level = qcoeff[pos];
        proof {
            assert(qcoeff[pos as int] == level);
        }
        let abs_level: i64 = if level < 0 { -(level as i64) } else { level as i64 };
        let d = dequant[rc] as i64;
        proof {
            assert(-0x3fff_ffff_8000_0000 <= abs_level * d <= 0x3fff_ffff_8000_0000) by (nonlinear_arith)
                requires
                    0 <= abs_level <= 0x7fff_ffff,
                    -0x8000_0000 <= d <= 0x7fff_ffff,
            ;
            lemma2_to64();
        }
        let magnitude = crate::inverse_transform::shr_i64(abs_level * d + 4, 3);
        let abs_dqcoeff = magnitude as i32;
        proof {
            assert(magnitude == dequantized_magnitude_spec(level, dequant[rc as int]));
            if dequant_in_range(level, dequant[rc as int]) {
                assert(0 <= abs_level * d) by (nonlinear_arith)
                    requires
                        0 <= abs_level,
                        0 <= d,
                ;
                assert(0 <= magnitude <= 0x4002_0001);
                assert(abs_dqcoeff == magnitude);
            }
        }
        dqcoeff[pos] = if level < 0 { -abs_dqcoeff } else { abs_dqcoeff };
        pos = pos + 1;
    }
    dqcoeff
}

/// Quantizes a block and returns its levels and dequantized coefficients.
pub fn av2_regular_quantize_with_params<const SAMPLES: usize>(
    coefficients: &[i32; SAMPLES],
    params: Av2RegularQuantParams,
) -> (r: ([i32; SAMPLES], [i32; SAMPLES]))
    requires
        quant_params_wf(params),
        forall|i: int| 0 <= i < SAMPLES ==> -0x4000_0000 <= #[trigger] coefficients[i] <= 0x4000_0000,
    ensures
        forall|i: int| 0 <= i < SAMPLES ==> #[trigger] r.0[i] == quantize_coefficient_spec(coefficients[i], params, i != 0),
        forall|i: int| 0 <= i < SAMPLES ==> #[trigger] r.1[i] == dequantize_spec(r.0[i], params.dequant[if i != 0 { 1int } else { 0int }]),
{
    let mut qcoeff = [0i32; SAMPLES];
    let mut pos: usize = 0;
    while pos < SAMPLES
        invariant
            pos <= SAMPLES,
            quant_params_wf(params),
            forall|i: int| 0 <= i < SAMPLES ==> -0x4000_0000 <= #[trigger] coefficients[i] <= 0x4000_0000,
            forall|i: int| 0 <= i < pos ==> #[trigger] qcoeff[i] == quantize_coefficient_spec(coefficients[i], params, i != 0),
            forall|i: int| 0 <= i < pos ==> abs_int(#[trigger] qcoeff[i] as int) * params.dequant[if i != 0 { 1int } else { 0int }] <= 8 * (0x4000_0000 + 0x2_0000),
        decreases SAMPLES - pos,
    {
        qcoeff[pos] = av2_regular_quantize_coefficient(coefficients[pos], params, pos != 0);
        pos = pos + 1;
    }
    proof {
        assert(40 <= params.dequant[0]);
        assert(40 <= params.dequant[1]);
    }
    let dqcoeff = av2_regular_dequantize(&qcoeff, params.dequant);
    (qcoeff, dqcoeff)
}

/// Quantizes a 4x4 DCT block at a quantizer index.
pub fn av2_regular_quantize_dct4x4(
    coefficients: &[i32; 16],
    qindex: u16,
    bit_depth: SampleBitDepth,
) -> (r: ([i32; 16], [i32; 16]))
    requires
        quant_bits_supported(bit_depth@),
        forall|i: int| 0 <= i < 16 ==> -0x4000_0000 <= #[trigger] coefficients[i] <= 0x4000_0000,
    ensures
        exists|p: Av2RegularQuantParams| {
            &&& quant_params_wf(p)
            &&& p.dequant[0] == qlookup_spec(qindex, bit_depth@)
            &&& #[trigger] p.dequant[1] == qlookup_spec(qindex, bit_depth@)
            &&& forall|i: int| 0 <= i < 16 ==> #[trigger] r.0[i] == quantize_coefficient_spec(coefficients[i], p, i != 0)
            &&& forall|i: int| 0 <= i < 16 ==> #[trigger] r.1[i] == dequantize_spec(r.0[i], p.dequant[if i != 0 { 1int } else { 0int }])
        },
{
    let params = Av2RegularQuantParams::new(qindex, bit_depth);
    av2_regular_quantize_with_params(coefficients, params)
}

/// Coefficient values of quantized levels: each level scaled by 8.
pub fn av2_regular_quantized_level_coefficients<const SAMPLES: usize>(qcoeff: &[i32; SAMPLES]) -> (r: [i32; SAMPLES])
    requires
        forall|i: int| 0 <= i < SAMPLES ==> -0x1000_0000 <= #[trigger] qcoeff[i] <= 0x0fff_ffff,
    ensures
        forall|i: int| 0 <= i < SAMPLES ==> #[trigger] r[i] == qcoeff[i] * 8,
{
    let mut coefficients = [0i32; SAMPLES];
    let mut pos: usize = 0;
    while pos < SAMPLES
        invariant
            pos <= SAMPLES,
            forall|i: int| 0 <= i < SAMPLES ==> -0x1000_0000 <= #[trigger] qcoeff[i] <= 0x0fff_ffff,
            forall|i: int| 0 <= i < pos ==> #[trigger] coefficients[i] == qcoeff[i] * 8,
        decreases SAMPLES - pos,
    {
        coefficients[pos] = qcoeff[pos] * 8;
        pos = pos + 1;
    }
    coefficients
}

/// Quantized level of a coefficient at dequantizer step `step`: zero below
/// a sixteenth of the step, otherwise `(|c| + step / 16) * (2^23 / step)`
/// divided by `2^20`, with the coefficient's sign.
pub open spec fn quantize_level_spec(c: int, step: int) -> int {
    let a = abs_int(c);
    if a * 16 < step {
        0
    } else {
        let q = (a + 64 * step / 1024) * (0x80_0000int / step) / 0x10_0000;
        if c < 0 { -q } else { q }
    }
}

/// Quantizing with well-formed parameters depends only on the step.
pub proof fn lemma_quantize_coefficient_by_step(c: i32, p: Av2RegularQuantParams, ac: bool)
    requires
        quant_params_wf(p),
    ensures
        quantize_coefficient_spec(c, p, ac) == quantize_level_spec(c as int, p.dequant[if ac { 1int } else { 0int }] as int),
{
    let rc: int = if ac { 1 } else { 0 };
    assert(40 <= p.dequant[rc] <= 78 * 16384);
}

/// A quantized level times its step is at most eight times the
/// coefficient's magnitude plus the rounding offset.
pub proof fn lemma_quantize_level_bound(c: int, step: int)
    requires
        40 <= step <= 78 * 16384,
        -0x4000_0000 <= c <= 0x4000_0000,
    ensures
        0 <= abs_int(quantize_level_spec(c, step)) * step <= 8 * (abs_int(c) + 64 * step / 1024),
{
    let a = abs_int(c);
    if a * 16 >= step {
        let rf = 64 * step / 1024;
        let qf = 0x80_0000int / step;
        let q = (a + rf) * qf / 0x10_0000;
        assert(0 <= rf);
        assert(0 <= qf);
        assert(qf * step <= 0x80_0000) by (nonlinear_arith)
            requires
                qf == 0x80_0000int / step,
                step > 0,
        ;
        assert(0 <= (a + rf) * qf) by (nonlinear_arith)
            requires
                a + rf >= 0,
                qf >= 0,
        ;
        assert(0 <= q * step <= 8 * (a + rf)) by (nonlinear_arith)
            requires
                q == (a + rf) * qf / 0x10_0000,
                qf * step <= 0x80_0000,
                a + rf >= 0,
                qf >= 0,
                step > 0,
        ;
        assert(abs_int(quantize_level_spec(c, step)) == q);
    } else {
        assert(abs_int(quantize_level_spec(c, step)) == 0);
    }
}

/// Quantization is odd: negating a coefficient negates its level.
pub proof fn lemma_quantize_is_odd(c: i32, p: Av2RegularQuantParams, ac: bool)
    requires
        quant_params_wf(p),
        c != i32::MIN,
    ensures
        quantize_coefficient_spec((-c) as i32, p, ac) == -quantize_coefficient_spec(c, p, ac),
{
}

/// Quantization never reverses the order of coefficients: a larger
/// coefficient gets a level at least as large.
pub proof fn lemma_quantize_is_monotone(c1: i32, c2: i32, p: Av2RegularQuantParams, ac: bool)
    requires
        quant_params_wf(p),
        c1 <= c2,
        c1 != i32::MIN,
    ensures
        quantize_coefficient_spec(c1, p, ac) <= quantize_coefficient_spec(c2, p, ac),
{
    let rc: int = if ac { 1 } else { 0 };
    assert(40 <= p.dequant[rc]);
    let rf = p.round_fp[rc] as int;
    let qf = p.quant_fp[rc] as int;
    assert(0 <= rf && 0 <= qf) by {
        assert(p.quant_fp[rc] == 0x80_0000int / (p.dequant[rc] as int));
        assert(p.round_fp[rc] == 64 * p.dequant[rc] / 1024);
    }
    assert forall|a: int, b: int| 0 <= a <= b implies #[trigger] ((a + rf) * qf / 0x10_0000) <= #[trigger] ((b + rf) * qf / 0x10_0000)
        && 0 <= (a + rf) * qf / 0x10_0000 by {
        assert((a + rf) * qf <= (b + rf) * qf) by (nonlinear_arith)
            requires
                0 <= a <= b,
                0 <= rf,
                0 <= qf,
        ;
        assert(0 <= (a + rf) * qf) by (nonlinear_arith)
            requires
                0 <= a,
                0 <= rf,
                0 <= qf,
        ;
        vstd::arithmetic::div_mod::lemma_div_is_ordered((a + rf) * qf, (b + rf) * qf, 0x10_0000);
        vstd::arithmetic::div_mod::lemma_div_pos_is_pos((a + rf) * qf, 0x10_0000);
    }
    let a1 = abs_int(c1 as int);
    let a2 = abs_int(c2 as int);
    if c1 >= 0 {
        assert(a1 <= a2);
        assert((a1 + rf) * qf / 0x10_0000 <= (a2 + rf) * qf / 0x10_0000);
    } else if c2 <= 0 {
        assert(a2 <= a1);
        assert((a2 + rf) * qf / 0x10_0000 <= (a1 + rf) * qf / 0x10_0000);
    } else {
        assert(0 <= (a1 + rf) * qf / 0x10_0000 <= (a1 + rf) * qf / 0x10_0000);
        assert(0 <= (a2 + rf) * qf / 0x10_0000 <= (a2 + rf) * qf / 0x10_0000);
    }
}

} // verus!
