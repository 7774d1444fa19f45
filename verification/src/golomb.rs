use vstd::prelude::*;
use vstd::arithmetic::power2::{pow2, lemma2_to64, lemma_pow2_unfold, lemma_pow2_pos, lemma_pow2_strictly_increases};

verus! {

/// Number of binary digits of `x` (0 for 0).
pub open spec fn bit_len(x: nat) -> nat
    decreases x,
{
    if x == 0 {
        0
    } else {
        1 + bit_len(x / 2)
    }
}

/// Bits of an order-`k` Exp-Golomb code of `value`.
pub open spec fn exp_golomb_bits_spec(value: nat, k: nat) -> int {
    2 * bit_len(value + pow2(k)) - 1 - k
}

/// Bits of a truncated Rice code with parameter `m`, escaping to an order-`k`
/// Exp-Golomb suffix once the quotient reaches `cmax`.
pub open spec fn truncated_rice_bits_spec(value: nat, m: nat, k: nat, cmax: nat) -> int {
    let q = value / pow2(m);
    if q >= cmax {
        cmax as int + exp_golomb_bits_spec((value - cmax * pow2(m)) as nat, k)
    } else {
        (q + 1 + m) as int
    }
}

/// Rice parameter selected by the running high-range level average.
pub open spec fn rice_parameter_spec(context: nat) -> nat {
    if context < 4 {
        1
    } else if context < 16 {
        2
    } else if context < 64 {
        3
    } else {
        4
    }
}

/// Bits spent on an adaptive high-range value.
pub open spec fn adaptive_high_range_bits_spec(value: nat, context: nat) -> int {
    let m = rice_parameter_spec(context);
    truncated_rice_bits_spec(value, m, m + 1, if m + 4 <= 6 { m + 4 } else { 6 })
}

/// `x >= 2^k` exactly when `x` has more than `k` binary digits.
pub proof fn lemma_bit_len_lower(x: nat, k: nat)
    requires
        x >= pow2(k),
    ensures
        bit_len(x) >= k + 1,
    decreases k,
{
    lemma_pow2_pos(k);
    if k > 0 {
        lemma_pow2_unfold(k);
        lemma_bit_len_lower(x / 2, (k - 1) as nat);
    }
}

/// `x < 2^k` bounds its number of binary digits by `k`.
pub proof fn lemma_bit_len_upper(x: nat, k: nat)
    requires
        x < pow2(k),
    ensures
        bit_len(x) <= k,
    decreases k,
{
    if k > 0 && x > 0 {
        lemma_pow2_unfold(k);
        lemma_bit_len_upper(x / 2, (k - 1) as nat);
    } else if x > 0 {
        assert(pow2(0) == 1) by {
            lemma2_to64();
        }
    }
}

/// More binary digits never come from a smaller number.
pub proof fn lemma_bit_len_monotone(x: nat, y: nat)
    requires
        x <= y,
    ensures
        bit_len(x) <= bit_len(y),
    decreases y,
{
    if x > 0 {
        lemma_bit_len_monotone(x / 2, y / 2);
    }
}

/// `2^j` has exactly `j + 1` binary digits.
pub proof fn lemma_bit_len_pow2(j: nat)
    ensures
        bit_len(pow2(j)) == j + 1,
{
    lemma_bit_len_lower(pow2(j), j);
    lemma_pow2_strictly_increases(j, j + 1);
    lemma_bit_len_upper(pow2(j), j + 1);
}

/// An order-`k` Exp-Golomb code never gets shorter as the value grows, and
/// codes zero in `k + 1` bits.
pub proof fn lemma_exp_golomb_bits_monotone(a: nat, b: nat, k: nat)
    requires
        a <= b,
    ensures
        exp_golomb_bits_spec(0, k) == k + 1,
        exp_golomb_bits_spec(a, k) <= exp_golomb_bits_spec(b, k),
{
    lemma_bit_len_pow2(k);
    lemma_bit_len_monotone(a + pow2(k), b + pow2(k));
}

/// A truncated Rice code whose escape suffix is at least as long as the
/// last unary code (`m <= k + 1`) never gets shorter as the value grows.
pub proof fn lemma_truncated_rice_bits_monotone(v1: nat, v2: nat, m: nat, k: nat, cmax: nat)
    requires
        v1 <= v2,
        m <= k + 1,
    ensures
        truncated_rice_bits_spec(v1, m, k, cmax) <= truncated_rice_bits_spec(v2, m, k, cmax),
{
    let p = pow2(m);
    lemma_pow2_pos(m);
    let q1 = v1 / p;
    let q2 = v2 / p;
    vstd::arithmetic::div_mod::lemma_div_is_ordered(v1 as int, v2 as int, p as int);
    if q1 >= cmax {
        vstd::arithmetic::div_mod::lemma_fundamental_div_mod(v1 as int, p as int);
        assert(cmax * p <= q1 * p) by (nonlinear_arith)
            requires
                cmax <= q1,
                p > 0,
        ;
        assert(q1 * p <= v1) by (nonlinear_arith)
            requires
                v1 == p * (v1 / p) + v1 % p,
                v1 % p >= 0,
                q1 == v1 / p,
        ;
        lemma_exp_golomb_bits_monotone((v1 - cmax * p) as nat, (v2 - cmax * p) as nat, k);
    } else if q2 >= cmax {
        lemma_exp_golomb_bits_monotone(0, (v2 - cmax * p) as nat, k);
    }
}

/// Number of binary digits of `x`.
pub fn bit_length(x: u64) -> (r: u32)
    ensures
        r as nat == bit_len(x as nat),
        r <= 64,
{
    let mut n = x;
    let mut len: u32 = 0;
    proof {
        lemma2_to64();
        vstd::arithmetic::power2::lemma2_to64_rest();
        lemma_bit_len_upper(x as nat, 64);
    }
    while n > 0
        invariant
            len as nat + bit_len(n as nat) == bit_len(x as nat),
            bit_len(x as nat) <= 64,
        decreases n,
    {
        n = n / 2;
        len = len + 1;
    }
    len
}

/// `2^n` for `n` below 32, as a 64-bit value.
fn pow2_below_32(n: u8) -> (r: u64)
    requires
        n < 32,
    ensures
        r as nat == pow2(n as nat),
        1 <= r <= 0x8000_0000,
{
    proof {
        lemma2_to64();
        lemma_pow2_pos(n as nat);
        if n < 31 {
            vstd::arithmetic::power2::lemma_pow2_strictly_increases(n as nat, 31);
        }
        vstd::bits::lemma_u64_shl_is_mul(1u64, n as u64);
    }
    1u64 << (n as u64)
}

/// Bits of an order-`k` Exp-Golomb code of `value`; the code's leading value
/// `value + 2^k` must fit in 32 bits.
pub fn exp_golomb_score_bits(value: u32, k: u8) -> (r: usize)
    requires
        k < 32,
        value + pow2(k as nat) <= u32::MAX,
    ensures
        r as int == exp_golomb_bits_spec(value as nat, k as nat),
        r <= 64,
{
    let x = value as u64 + pow2_below_32(k);
    let length = bit_length(x);
    proof {
        lemma_bit_len_lower(x as nat, k as nat);
        lemma2_to64();
        lemma_bit_len_upper(x as nat, 32);
    }
    (length - 1 - k as u32 + length) as usize
}

/// Bits of a truncated Rice code with an Exp-Golomb escape. The escape's
/// Exp-Golomb code applies only when the quotient reaches `cmax`.
pub fn truncated_rice_score_bits(value: u32, m: u8, k: u8, cmax: u8) -> (r: usize)
    requires
        m < 32,
        value as nat / pow2(m as nat) >= cmax ==> k < 32 && value - cmax * pow2(m as nat) + pow2(k as nat) <= u32::MAX,
    ensures
        r as int == truncated_rice_bits_spec(value as nat, m as nat, k as nat, cmax as nat),
        r <= 320,
{
    let p = pow2_below_32(m);
    let q = value as u64 / p;
    if q >= cmax as u64 {
        proof {
            assert(q * p <= value) by (nonlinear_arith)
                requires
                    q == (value as u64) / p,
                    p > 0,
            ;
            assert(cmax * p <= value) by (nonlinear_arith)
                requires
                    q * p <= value,
                    cmax <= q,
                    p > 0,
            ;
        }
        let rest = (value as u64 - cmax as u64 * p) as u32;
        cmax as usize + exp_golomb_score_bits(rest, k)
    } else {
        q as usize + 1 + m as usize
    }
}

/// The adaptive high-range bit count fits the rate model: at most 80 bits
/// for any 32-bit value.
pub proof fn lemma_adaptive_bits_bound(value: nat, context: nat)
    requires
        value <= u32::MAX,
    ensures
        1 <= adaptive_high_range_bits_spec(value, context) <= 80,
{
    let m = rice_parameter_spec(context);
    let k = m + 1;
    let cmax: nat = if m + 4 <= 6 { m + 4 } else { 6 };
    let p = pow2(m);
    lemma2_to64();
    lemma_pow2_pos(m);
    let q = value / p;
    if q >= cmax {
        vstd::arithmetic::div_mod::lemma_fundamental_div_mod(value as int, p as int);
        assert(cmax * p <= value) by (nonlinear_arith)
            requires
                value == p * (value / p) + value % p,
                value % p >= 0,
                q == value / p,
                cmax <= q,
                p > 0,
        ;
        lemma_pow2_unfold(k);
        assert(cmax * p >= pow2(k)) by (nonlinear_arith)
            requires
                cmax >= 5,
                pow2(k) == 2 * p,
                p > 0,
        ;
        let rest = (value - cmax * p) as nat;
        lemma_bit_len_upper(rest + pow2(k), 32);
        lemma_bit_len_lower(rest + pow2(k), k);
    }
}

/// The adaptive high-range bit count never decreases as the value grows,
/// for any Rice context, and is at least one bit.
pub proof fn lemma_adaptive_high_range_bits_monotone(v1: nat, v2: nat, context: nat)
    requires
        v1 <= v2,
    ensures
        1 <= adaptive_high_range_bits_spec(v1, context) <= adaptive_high_range_bits_spec(v2, context),
{
    let m = rice_parameter_spec(context);
    let cmax: nat = if m + 4 <= 6 { m + 4 } else { 6 };
    lemma_truncated_rice_bits_monotone(0, v1, m, m + 1, cmax);
    lemma_truncated_rice_bits_monotone(v1, v2, m, m + 1, cmax);
    lemma_pow2_pos(m);
    assert(0nat / pow2(m) == 0) by (nonlinear_arith)
        requires
            pow2(m) > 0,
    ;
}

/// Rice parameter selected by the running high-range level average.
pub fn adaptive_high_range_rice_parameter(context: u32) -> (r: u8)
    ensures
        r as nat == rice_parameter_spec(context as nat),
        1 <= r <= 4,
{
    if context < 4 {
        1
    } else if context < 16 {
        2
    } else if context < 64 {
        3
    } else {
        4
    }
}

/// Bits spent on an adaptive high-range value coded with Rice context
/// `context`.
pub fn adaptive_high_range_score_bits(value: u32, context: u32) -> (r: usize)
    ensures
        r as int == adaptive_high_range_bits_spec(value as nat, context as nat),
        r <= 80,
{
    let m = adaptive_high_range_rice_parameter(context);
    let cmax = if m + 4 <= 6 { m + 4 } else { 6 };
    proof {
        lemma2_to64();
        lemma_pow2_unfold((m + 1) as nat);
        lemma_pow2_pos(m as nat);
        assert(cmax * pow2(m as nat) >= pow2((m + 1) as nat)) by (nonlinear_arith)
            requires
                cmax >= 5,
                pow2((m + 1) as nat) == 2 * pow2(m as nat),
                pow2(m as nat) > 0,
        ;
    }
    let r = truncated_rice_score_bits(value, m, m + 1, cmax);
    proof {
        lemma_adaptive_bits_bound(value as nat, context as nat);
    }
    r
}

} // verus!
