use vstd::prelude::*;
use crate::high_range::Av2CoefficientCodingKind;
use crate::lossy_metrics::{sat_mul_spec, saturating_mul_usize, sat_sub_spec};
use crate::sample::{Av2ChromaFormat, SampleBitDepth};
use crate::coefficient_contexts::min_int;

verus! {

/// Rate-proxy scores of the DC, horizontal, vertical and the two BDPCM
/// predictions of one lossless 4x4 block.
#[derive(Clone, Copy, Debug, Default, PartialEq, Eq)]
pub struct Av2DcHvBdpcmTxbScores {
    pub dc: usize,
    pub horizontal: usize,
    pub vertical: usize,
    pub bdpcm_horizontal: usize,
    pub bdpcm_vertical: usize,
}

impl Av2DcHvBdpcmTxbScores {
    /// Adds `other` component-wise.
    pub fn add_assign(&mut self, other: Self)
        requires
            old(self).dc + other.dc <= usize::MAX,
            old(self).horizontal + other.horizontal <= usize::MAX,
            old(self).vertical + other.vertical <= usize::MAX,
            old(self).bdpcm_horizontal + other.bdpcm_horizontal <= usize::MAX,
            old(self).bdpcm_vertical + other.bdpcm_vertical <= usize::MAX,
        ensures
            final(self).dc == old(self).dc + other.dc,
            final(self).horizontal == old(self).horizontal + other.horizontal,
            final(self).vertical == old(self).vertical + other.vertical,
            final(self).bdpcm_horizontal == old(self).bdpcm_horizontal + other.bdpcm_horizontal,
            final(self).bdpcm_vertical == old(self).bdpcm_vertical + other.bdpcm_vertical,
    {
        self.dc = self.dc + other.dc;
        self.horizontal = self.horizontal + other.horizontal;
        self.vertical = self.vertical + other.vertical;
        self.bdpcm_horizontal = self.bdpcm_horizontal + other.bdpcm_horizontal;
        self.bdpcm_vertical = self.bdpcm_vertical + other.bdpcm_vertical;
    }
}

/// Per-sample magnitude slope of the residual proxy for a coding family.
pub open spec fn magnitude_scale_spec(kind: Av2CoefficientCodingKind) -> int {
    match kind {
        Av2CoefficientCodingKind::LumaIdtx => 4,
        Av2CoefficientCodingKind::LumaTransform => 4,
        Av2CoefficientCodingKind::ChromaTransform => 3,
    }
}

/// Per-sample magnitude slope of the residual proxy.
pub fn residual_sample_proxy_magnitude_scale(kind: Av2CoefficientCodingKind) -> (r: usize)
    ensures
        r == magnitude_scale_spec(kind),
{
    match kind {
        Av2CoefficientCodingKind::LumaIdtx => 4,
        Av2CoefficientCodingKind::LumaTransform => 4,
        Av2CoefficientCodingKind::ChromaTransform => 3,
    }
}

/// Proxy cost of one residual sample: nothing for zero, otherwise 80 plus the
/// magnitude (capped at 255) times the scale.
pub open spec fn residual_sample_cost_spec(delta: i32, magnitude_scale: int) -> int {
    let level = if delta < 0 { -(delta as int) } else { delta as int };
    if level == 0 { 0 } else { 80 + min_int(level, 255) * magnitude_scale }
}

/// Adds one residual sample's proxy cost to `score`.
pub fn add_residual_sample_proxy_score(score: &mut usize, delta: i32, magnitude_scale: usize)
    requires
        magnitude_scale <= 4,
        *old(score) <= usize::MAX - 2000,
    ensures
        *final(score) == *old(score) + residual_sample_cost_spec(delta, magnitude_scale as int),
{
    let level: u32 = if delta >= 0 {
        delta as u32
    } else if delta == i32::MIN {
        0x8000_0000
    } else {
        (-delta) as u32
    };
    if level != 0 {
        let capped: usize = if level < 255 { level as usize } else { 255 };
        proof {
            assert(capped * magnitude_scale <= 1020) by (nonlinear_arith)
                requires
                    capped <= 255,
                    magnitude_scale <= 4,
            ;
        }
        *score = *score + 80 + capped * magnitude_scale;
    }
}

/// Rate-proxy scores of the lossy intra candidates of a block.
#[derive(Clone, Copy, Debug, Default, PartialEq, Eq)]
pub struct Av2LossyIntraTxbScores {
    pub dc: usize,
    pub horizontal: usize,
    pub vertical: usize,
    pub paeth: usize,
    pub smooth: usize,
    pub smooth_vertical: usize,
    pub smooth_horizontal: usize,
}

/// `score * total / sampled`, unchanged when nothing or everything was
/// sampled.
pub open spec fn scaled_spec(score: usize, total: usize, sampled: usize) -> int {
    if sampled == 0 || sampled == total { score as int } else { sat_mul_spec(score as int, total as int) / (sampled as int) }
}

impl Av2LossyIntraTxbScores {
    /// Adds `other` component-wise.
    pub fn add_assign(&mut self, other: Self)
        requires
            old(self).dc + other.dc <= usize::MAX,
            old(self).horizontal + other.horizontal <= usize::MAX,
            old(self).vertical + other.vertical <= usize::MAX,
            old(self).paeth + other.paeth <= usize::MAX,
            old(self).smooth + other.smooth <= usize::MAX,
            old(self).smooth_vertical + other.smooth_vertical <= usize::MAX,
            old(self).smooth_horizontal + other.smooth_horizontal <= usize::MAX,
        ensures
            final(self).dc == old(self).dc + other.dc,
            final(self).horizontal == old(self).horizontal + other.horizontal,
            final(self).vertical == old(self).vertical + other.vertical,
            final(self).paeth == old(self).paeth + other.paeth,
            final(self).smooth == old(self).smooth + other.smooth,
            final(self).smooth_vertical == old(self).smooth_vertical + other.smooth_vertical,
            final(self).smooth_horizontal == old(self).smooth_horizontal + other.smooth_horizontal,
    {
        self.dc = self.dc + other.dc;
        self.horizontal = self.horizontal + other.horizontal;
        self.vertical = self.vertical + other.vertical;
        self.paeth = self.paeth + other.paeth;
        self.smooth = self.smooth + other.smooth;
        self.smooth_vertical = self.smooth_vertical + other.smooth_vertical;
        self.smooth_horizontal = self.smooth_horizontal + other.smooth_horizontal;
    }

    /// Scales scores measured on `sampled_txbs` blocks to `total_txbs`
    /// blocks.
    pub fn scaled_to_txb_count(self, total_txbs: usize, sampled_txbs: usize) -> (r: Self)
        ensures
            r.dc == scaled_spec(self.dc, total_txbs, sampled_txbs),
            r.horizontal == scaled_spec(self.horizontal, total_txbs, sampled_txbs),
            r.vertical == scaled_spec(self.vertical, total_txbs, sampled_txbs),
            r.paeth == scaled_spec(self.paeth, total_txbs, sampled_txbs),
            r.smooth == scaled_spec(self.smooth, total_txbs, sampled_txbs),
            r.smooth_vertical == scaled_spec(self.smooth_vertical, total_txbs, sampled_txbs),
            r.smooth_horizontal == scaled_spec(self.smooth_horizontal, total_txbs, sampled_txbs),
    {
        if sampled_txbs == 0 || sampled_txbs == total_txbs {
            return self;
        }
        Av2LossyIntraTxbScores {
            dc: saturating_mul_usize(self.dc, total_txbs) / sampled_txbs,
            horizontal: saturating_mul_usize(self.horizontal, total_txbs) / sampled_txbs,
            vertical: saturating_mul_usize(self.vertical, total_txbs) / sampled_txbs,
            paeth: saturating_mul_usize(self.paeth, total_txbs) / sampled_txbs,
            smooth: saturating_mul_usize(self.smooth, total_txbs) / sampled_txbs,
            smooth_vertical: saturating_mul_usize(self.smooth_vertical, total_txbs) / sampled_txbs,
            smooth_horizontal: saturating_mul_usize(self.smooth_horizontal, total_txbs) / sampled_txbs,
        }
    }
}

/// Smaller of two `usize` values.
pub fn min_usize(a: usize, b: usize) -> (r: usize)
    ensures
        r == min_int(a as int, b as int),
{
    if a <= b {
        a
    } else {
        b
    }
}

/// Larger of two `usize` values.
pub fn max_usize(a: usize, b: usize) -> (r: usize)
    ensures
        r == (if a >= b { a } else { b }),
{
    if a >= b {
        a
    } else {
        b
    }
}

/// Whether the luma smooth modes are worth searching: the best simple mode
/// leaves at least 1024 per block and the two axis modes score alike.
pub open spec fn luma_smooth_search_spec(s: Av2LossyIntraTxbScores, total_txbs: usize) -> bool {
    let count = if total_txbs >= 1 { total_txbs as int } else { 1 };
    let best_axis = min_int(s.horizontal as int, s.vertical as int);
    let worst_axis = if s.horizontal >= s.vertical { s.horizontal as int } else { s.vertical as int };
    let best_simple = min_int(min_int(s.dc as int, best_axis), s.paeth as int);
    let gap_limit = if best_axis / 3 >= sat_mul_spec(count, 128) { best_axis / 3 } else { sat_mul_spec(count, 128) };
    best_simple / count >= 1024 && sat_sub_spec(worst_axis, best_axis) <= gap_limit
}

/// Whether the luma smooth modes are worth searching.
pub fn lossy_luma_smooth_search_allowed(scores: Av2LossyIntraTxbScores, total_txbs: usize) -> (r: bool)
    ensures
        r == luma_smooth_search_spec(scores, total_txbs),
{
    let txb_count = max_usize(total_txbs, 1);
    let best_axis = min_usize(scores.horizontal, scores.vertical);
    let worst_axis = max_usize(scores.horizontal, scores.vertical);
    let best_simple = min_usize(min_usize(scores.dc, best_axis), scores.paeth);
    let per_txb_residual = best_simple / txb_count;
    if per_txb_residual < 1024 {
        return false;
    }
    let axis_gap = worst_axis - best_axis;
    axis_gap <= max_usize(best_axis / 3, saturating_mul_usize(txb_count, 128))
}

/// Whether the luma directional modes are worth searching.
pub open spec fn luma_directional_search_spec(
    s: Av2LossyIntraTxbScores,
    total_txbs: usize,
    chroma_format: Av2ChromaFormat,
    bits: nat,
) -> bool {
    let count = if total_txbs >= 1 { total_txbs as int } else { 1 };
    let best_axis = min_int(s.horizontal as int, s.vertical as int);
    let worst_axis = if s.horizontal >= s.vertical { s.horizontal as int } else { s.vertical as int };
    let best_simple = min_int(min_int(s.dc as int, best_axis), s.paeth as int);
    let scale = vstd::arithmetic::power2::pow2((bits - 8) as nat) as int;
    let gap_limit = if best_axis >= sat_mul_spec(sat_mul_spec(count, 256), scale) { best_axis } else { sat_mul_spec(sat_mul_spec(count, 256), scale) };
    if chroma_format == Av2ChromaFormat::Yuv444 && bits <= 8 {
        false
    } else {
        best_simple / count >= 1024 * scale && sat_sub_spec(worst_axis, best_axis) <= gap_limit
    }
}

/// Whether the luma directional modes are worth searching; 8-bit 4:4:4
/// content keeps the cheaper mode set.
pub fn lossy_luma_directional_search_allowed(
    scores: Av2LossyIntraTxbScores,
    total_txbs: usize,
    chroma_format: Av2ChromaFormat,
    bit_depth: SampleBitDepth,
) -> (r: bool)
    ensures
        r == luma_directional_search_spec(scores, total_txbs, chroma_format, bit_depth@),
{
    let bits = bit_depth.bits();
    if chroma_format == Av2ChromaFormat::Yuv444 && bits <= 8 {
        return false;
    }
    let txb_count = max_usize(total_txbs, 1);
    let best_axis = min_usize(scores.horizontal, scores.vertical);
    let worst_axis = max_usize(scores.horizontal, scores.vertical);
    let best_simple = min_usize(min_usize(scores.dc, best_axis), scores.paeth);
    let per_txb_residual = best_simple / txb_count;
    let bit_depth_scale = crate::sample::pow2_u32((bits - 8) as u32) as usize;
    if per_txb_residual < 1024 * bit_depth_scale {
        return false;
    }
    let axis_gap = worst_axis - best_axis;
    axis_gap <= max_usize(best_axis, saturating_mul_usize(saturating_mul_usize(txb_count, 256), bit_depth_scale))
}

/// Chroma smooth search stays disabled.
pub fn lossy_chroma_smooth_search_allowed(scores: Av2LossyIntraTxbScores, total_txbs: usize) -> (r: bool)
    ensures
        !r,
{
    false
}

/// Whether chroma Paeth is worth searching.
pub open spec fn chroma_paeth_search_spec(s: Av2LossyIntraTxbScores, total_txbs: usize) -> bool {
    let count = if total_txbs >= 1 { total_txbs as int } else { 1 };
    let best_axis = min_int(s.horizontal as int, s.vertical as int);
    let worst_axis = if s.horizontal >= s.vertical { s.horizontal as int } else { s.vertical as int };
    let gap_limit = if best_axis / 2 >= sat_mul_spec(count, 128) { best_axis / 2 } else { sat_mul_spec(count, 128) };
    min_int(s.dc as int, best_axis) / count >= 768 && sat_sub_spec(worst_axis, best_axis) <= gap_limit
}

/// Whether chroma Paeth is worth searching.
pub fn lossy_chroma_paeth_search_allowed(scores: Av2LossyIntraTxbScores, total_txbs: usize) -> (r: bool)
    ensures
        r == chroma_paeth_search_spec(scores, total_txbs),
{
    let txb_count = max_usize(total_txbs, 1);
    let best_axis = min_usize(scores.horizontal, scores.vertical);
    let worst_axis = max_usize(scores.horizontal, scores.vertical);
    let per_txb_residual = min_usize(scores.dc, best_axis) / txb_count;
    if per_txb_residual < 768 {
        return false;
    }
    let axis_gap = worst_axis - best_axis;
    axis_gap <= max_usize(best_axis / 2, saturating_mul_usize(txb_count, 128))
}

/// Forward-skip coding search stays disabled on the lossy path.
pub fn lossy_fsc_search_allowed(total_txbs: usize) -> (r: bool)
    ensures
        !r,
{
    false
}

/// Sampling step over a leaf's transform blocks: every block of tiny leaves,
/// otherwise a `sample_grid`-th of them.
pub fn fast_leaf_sample_step(txb_count: usize, sample_grid: usize) -> (r: usize)
    requires
        sample_grid > 0,
    ensures
        txb_count <= 2 ==> r == (if txb_count >= 1 { txb_count as int } else { 1 }),
        txb_count > 2 ==> r == (if (txb_count + sample_grid - 1) / (sample_grid as int) >= 1 { (txb_count + sample_grid - 1) / (sample_grid as int) } else { 1 }),
        r >= 1,
{
    if txb_count <= 2 {
        return max_usize(txb_count, 1);
    }
    proof {
        assert(txb_count % sample_grid != 0 ==> txb_count / sample_grid < usize::MAX) by (nonlinear_arith)
            requires
                sample_grid > 0,
        ;
    }
    let ceil = txb_count / sample_grid + if txb_count % sample_grid != 0 { 1usize } else { 0usize };
    proof {
        assert(ceil == (txb_count + sample_grid - 1) / (sample_grid as int)) by (nonlinear_arith)
            requires
                sample_grid > 0,
                ceil == txb_count / sample_grid + if txb_count % sample_grid != 0 { 1int } else { 0int },
        ;
    }
    max_usize(ceil, 1)
}

/// Sum of the proxy costs of the first `n` residual samples.
pub open spec fn residual_cost_sum(residual: Seq<i32>, magnitude_scale: int, n: int) -> int
    decreases n,
{
    if n <= 0 {
        0
    } else {
        residual_cost_sum(residual, magnitude_scale, n - 1) + residual_sample_cost_spec(residual[n - 1], magnitude_scale)
    }
}

proof fn lemma_residual_cost_sum_bound(residual: Seq<i32>, magnitude_scale: int, n: int)
    requires
        0 <= magnitude_scale <= 4,
        0 <= n,
    ensures
        0 <= residual_cost_sum(residual, magnitude_scale, n) <= 1100 * n,
    decreases n,
{
    if n > 0 {
        lemma_residual_cost_sum_bound(residual, magnitude_scale, n - 1);
        let d = residual[n - 1];
        let level = if d < 0 { -(d as int) } else { d as int };
        let capped = min_int(level, 255);
        assert(0 <= capped * magnitude_scale <= 1020) by (nonlinear_arith)
            requires
                0 <= capped <= 255,
                0 <= magnitude_scale <= 4,
        ;
    }
}

/// Proxy score of a 4x4 residual: 16 plus the cost of each sample.
pub fn txb_residual_proxy_score(residual: &[i32; 16], magnitude_scale: usize) -> (r: usize)
    requires
        magnitude_scale <= 4,
    ensures
        r == 16 + residual_cost_sum(residual@, magnitude_scale as int, 16),
{
    let mut score: usize = 16;
    let mut i: usize = 0;
    while i < 16
        invariant
            i <= 16,
            magnitude_scale <= 4,
            score == 16 + residual_cost_sum(residual@, magnitude_scale as int, i as int),
        decreases 16 - i,
    {
        proof {
            lemma_residual_cost_sum_bound(residual@, magnitude_scale as int, i as int);
        }
        add_residual_sample_proxy_score(&mut score, residual[i], magnitude_scale);
        i = i + 1;
    }
    score
}

} // verus!
