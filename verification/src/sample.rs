use vstd::prelude::*;
use vstd::arithmetic::power2::pow2;
use vstd::arithmetic::power2::lemma2_to64;
use vstd::arithmetic::power2::lemma_pow2_strictly_increases;
use vstd::bits::lemma_u32_shl_is_mul;

verus! {

/// A picture sample value; wide enough for every supported bit depth.
pub type Av2Sample = u16;

/// The 8-bit DC level that a lossless DC coefficient is measured against.
pub const LOSSLESS_DC_PREDICTOR: u8 = 128;

/// A validated sample bit depth between 8 and 16 bits.
#[derive(Clone, Copy, Debug, PartialEq, Eq, Structural)]
pub struct SampleBitDepth {
    bits: u8,
}

impl View for SampleBitDepth {
    type V = nat;

    closed spec fn view(&self) -> nat {
        self.bits as nat
    }
}

/// Bytes per stored sample at `bits` bits per sample.
pub open spec fn bytes_per_sample_spec(bits: nat) -> int {
    if bits <= 8 { 1 } else { 2 }
}

/// Largest sample value representable with `bits` bits.
pub open spec fn max_sample_spec(bits: nat) -> int {
    pow2(bits) - 1
}

/// Midpoint of the sample range for `bits` bits.
pub open spec fn mid_sample_spec(bits: nat) -> int {
    pow2((bits - 1) as nat) as int
}

impl SampleBitDepth {
    #[verifier::type_invariant]
    spec fn supported(self) -> bool {
        8 <= self.bits <= 16
    }

    /// Accepts the bit depths 8 through 16.
    pub fn new(bits: u8) -> (r: Option<SampleBitDepth>)
        ensures
            r.is_some() <==> 8 <= bits <= 16,
            r matches Some(d) ==> d@ == bits as nat,
    {
        if 8 <= bits && bits <= 16 {
            Some(SampleBitDepth { bits })
        } else {
            None
        }
    }

    /// The number of bits per sample.
    pub fn bits(&self) -> (r: u8)
        ensures
            r as nat == self@,
            8 <= r <= 16,
    {
        proof {
            use_type_invariant(self);
        }
        self.bits
    }

    /// Bytes per stored sample: one up to 8 bits, two (little endian) above.
    pub fn bytes_per_sample(&self) -> (r: usize)
        ensures
            r == bytes_per_sample_spec(self@),
    {
        if self.bits() <= 8 {
            1
        } else {
            2
        }
    }

    /// The largest sample value: `2^bits - 1`.
    pub fn max_sample(&self) -> (r: Av2Sample)
        ensures
            r as int == max_sample_spec(self@),
            8 <= self@ <= 16,
            r >= 255,
    {
        let bits = self.bits();
        let p = pow2_u32(bits as u32);
        proof {
            lemma2_to64();
            if bits > 8 {
                lemma_pow2_strictly_increases(8, bits as nat);
            }
        }
        (p - 1) as u16
    }
}

/// `2^n` for small `n`.
pub fn pow2_u32(n: u32) -> (r: u32)
    requires
        n <= 30,
    ensures
        r as nat == pow2(n as nat),
        n <= 16 ==> r <= 65536,
        r <= 0x4000_0000,
        r >= 1,
{
    proof {
        lemma2_to64();
        if n < 16 {
            lemma_pow2_strictly_increases(n as nat, 16);
        }
        if n < 30 {
            lemma_pow2_strictly_increases(n as nat, 30);
        }
        lemma_u32_shl_is_mul(1u32, n);
    }
    1u32 << n
}

/// DC predictor used when no neighbouring samples exist: the midpoint of
/// the sample range.
pub fn av2_lossless_dc_predictor(bit_depth: SampleBitDepth) -> (r: Av2Sample)
    ensures
        r as int == mid_sample_spec(bit_depth@),
        8 <= bit_depth@ <= 16,
        128 <= r <= 32768,
{
    let bits = bit_depth.bits();
    let p = pow2_u32((bits - 1) as u32);
    proof {
        lemma2_to64();
        if bits > 8 {
            lemma_pow2_strictly_increases(7, (bits - 1) as nat);
        }
        if bits < 16 {
            lemma_pow2_strictly_increases((bits - 1) as nat, 15);
        }
    }
    p as u16
}

/// Above-edge substitute when no row above the block is available: one below
/// the range midpoint.
pub fn av2_lossless_v_pred_above_edge(bit_depth: SampleBitDepth) -> (r: Av2Sample)
    ensures
        r as int == mid_sample_spec(bit_depth@) - 1,
{
    av2_lossless_dc_predictor(bit_depth) - 1
}

/// Left-edge substitute when no column left of the block is available: one
/// above the range midpoint.
pub fn av2_lossless_h_pred_left_edge(bit_depth: SampleBitDepth) -> (r: Av2Sample)
    ensures
        r as int == mid_sample_spec(bit_depth@) + 1,
{
    av2_lossless_dc_predictor(bit_depth) + 1
}

/// Rounded average of `count` edge samples summing to `sum`.
pub fn av2_reference_dc_average(sum: u32, count: u32) -> (r: Av2Sample)
    requires
        count > 0,
        sum <= count * 65535,
    ensures
        r as int == (sum + count / 2) / (count as int),
{
    proof {
        assert((sum + count / 2) / (count as int) <= 65535) by (nonlinear_arith)
            requires
                count > 0,
                sum <= count * 65535,
        ;
    }
    ((sum as u64 + (count / 2) as u64) / count as u64) as u16
}

/// Chroma planes.
#[derive(Clone, Copy, Debug, PartialEq, Eq, Structural)]
pub enum Av2ChromaPlane {
    U,
    V,
}

/// Chroma subsampling formats of the planar tile input.
#[derive(Clone, Copy, Debug, PartialEq, Eq, Structural)]
pub enum Av2ChromaFormat {
    Yuv420,
    Yuv422,
    Yuv444,
}

} // verus!
