use vstd::prelude::*;
use crate::coefficient_contexts::min_int;
use crate::coefficient_levels::{levels_spec, lemma_scan_bounds_of, lossless_coefficient_levels_and_bounds, scan_bounds_of, scan_bounds_spec};
use crate::geometry::TX4X4_SCAN;
use crate::high_range::{
    Av2CoefficientCodingKind, coefficient_high_range_proxy_score, coefficient_high_range_level_proxy_score,
    high_range_level_score_spec, next_average_spec,
};

verus! {

/// Rate proxy of one coded level: free when zero, otherwise a base cost plus
/// a slope over the first twelve magnitudes.
pub open spec fn level_term_spec(level: u32) -> int {
    if level == 0 { 0 } else { 80 + min_int(level as int, 12) * 14 }
}

/// Sum of the level terms over scan indices `start..end` of a 4x4 block.
pub open spec fn level_terms_spec(levels: Seq<u32>, start: int, end: int) -> int
    decreases end - start,
{
    if end <= start {
        0
    } else {
        level_terms_spec(levels, start, end - 1) + level_term_spec(levels[TX4X4_SCAN[end - 1] as int])
    }
}

/// High-range proxy over scan indices `i..16` in forward order.
pub open spec fn high_range_forward_spec(levels: Seq<u32>, kind: Av2CoefficientCodingKind, i: int, average: u32) -> int
    decreases 16 - i,
{
    if i >= 16 || i < 0 {
        0
    } else {
        let pos = TX4X4_SCAN[i] as int;
        high_range_level_score_spec(kind, levels[pos], pos, average)
            + high_range_forward_spec(levels, kind, i + 1, next_average_spec(kind, levels[pos], pos, average))
    }
}

/// High-range proxy over scan indices `n-1` down to 0.
pub open spec fn high_range_reverse_spec(levels: Seq<u32>, kind: Av2CoefficientCodingKind, n: int, average: u32) -> int
    decreases n,
{
    if n <= 0 || n > 16 {
        0
    } else {
        let pos = TX4X4_SCAN[n - 1] as int;
        high_range_level_score_spec(kind, levels[pos], pos, average)
            + high_range_reverse_spec(levels, kind, n - 1, next_average_spec(kind, levels[pos], pos, average))
    }
}

/// Rate proxy of a 4x4 coefficient block with the given scan bounds.
pub open spec fn coefficient_proxy_spec(levels: Seq<u32>, bounds: Option<(usize, usize)>, kind: Av2CoefficientCodingKind) -> int {
    match bounds {
        None => 16,
        Some((first, eob)) => match kind {
            Av2CoefficientCodingKind::LumaIdtx => 96 + (16 - first) * 10 + level_terms_spec(levels, first as int, 16)
                + high_range_forward_spec(levels, kind, 0, 0),
            _ => 96 + eob * 10 + level_terms_spec(levels, 0, eob as int) + high_range_reverse_spec(levels, kind, eob as int, 0),
        },
    }
}

/// Rate proxy of a 4x4 coefficient block under its scan bounds.
pub open spec fn proxy_score_spec(coefficients: Seq<i32>, kind: Av2CoefficientCodingKind) -> int {
    let levels = levels_spec(coefficients);
    coefficient_proxy_spec(levels, scan_bounds_of(levels, TX4X4_SCAN@), kind)
}

/// Rate proxy of a 4x4 coefficient block (coefficients scaled by 8), in the
/// same units as the entropy-coded cost; 16 for an all-zero block.
pub fn coefficient_proxy_score(coefficients: &[i32; 16], kind: Av2CoefficientCodingKind) -> (r: usize)
    ensures
        r == proxy_score_spec(coefficients@, kind),
        r <= 100_000,
{
    let (levels, bounds) = lossless_coefficient_levels_and_bounds(coefficients);
    let (first, eob) = match bounds {
        Some(b) => b,
        None => {
            proof {
                assert(scan_bounds_spec(levels_spec(coefficients@), TX4X4_SCAN@, bounds)
                    && 16 == coefficient_proxy_spec(levels_spec(coefficients@), bounds, kind));
                lemma_scan_bounds_of(levels_spec(coefficients@), TX4X4_SCAN@, bounds);
            }
            return 16;
        },
    };
    let (start, end): (usize, usize) = match kind {
        Av2CoefficientCodingKind::LumaIdtx => (first, 16),
        _ => (0, eob),
    };
    let mut score: usize = 96 + (end - start) * 10;
    let ghost base = score as int;
    let mut scan_index = start;
    while scan_index < end
        invariant
            start <= scan_index <= end <= 16,
            score == base + level_terms_spec(levels@, start as int, scan_index as int),
            base <= 256,
            score <= base + (scan_index - start) * 248,
        decreases end - scan_index,
    {
        let pos = TX4X4_SCAN[scan_index];
        let level = levels[pos];
        if level != 0 {
            let capped: usize = if level < 12 { level as usize } else { 12 };
            score = score + 80 + capped * 14;
        }
        scan_index = scan_index + 1;
    }
    let ghost level_part = score as int;
    let mut high_range_avg: u32 = 0;
    let mut high: usize = 0;
    match kind {
        Av2CoefficientCodingKind::LumaIdtx => {
            let mut i: usize = 0;
            while i < 16
                invariant
                    i <= 16,
                    high_range_avg <= 0x7fff_ffff,
                    forall|p: int| 0 <= p < 16 ==> levels[p] <= 0x1000_0000,
                    high + high_range_forward_spec(levels@, kind, i as int, high_range_avg)
                        == high_range_forward_spec(levels@, kind, 0, 0),
                    high <= i * 5120,
                decreases 16 - i,
            {
                let pos = TX4X4_SCAN[i];
                high = high + coefficient_high_range_proxy_score(&levels, kind, pos, &mut high_range_avg);
                i = i + 1;
            }
        },
        _ => {
            let mut n: usize = eob;
            while n > 0
                invariant
                    n <= eob <= 16,
                    high_range_avg <= 0x7fff_ffff,
                    forall|p: int| 0 <= p < 16 ==> levels[p] <= 0x1000_0000,
                    high + high_range_reverse_spec(levels@, kind, n as int, high_range_avg)
                        == high_range_reverse_spec(levels@, kind, eob as int, 0),
                    high <= (eob - n) * 5120,
                decreases n,
            {
                let pos = TX4X4_SCAN[n - 1];
                high = high + coefficient_high_range_proxy_score(&levels, kind, pos, &mut high_range_avg);
                n = n - 1;
            }
        },
    }
    proof {
        assert(scan_bounds_spec(levels_spec(coefficients@), TX4X4_SCAN@, bounds)
            && score + high == coefficient_proxy_spec(levels_spec(coefficients@), bounds, kind));
        lemma_scan_bounds_of(levels_spec(coefficients@), TX4X4_SCAN@, bounds);
    }
    score + high
}

/// Rate proxy of coding only a DC delta (level four times the delta).
pub open spec fn dc_delta_proxy_spec(delta: i16, kind: Av2CoefficientCodingKind) -> int {
    let magnitude = if delta < 0 { -(delta as int) } else { delta as int };
    let level = magnitude * 4;
    if level == 0 {
        16
    } else {
        96 + 10 + 80 + min_int(level, 12) * 14 + high_range_level_score_spec(kind, level as u32, 0, 0)
    }
}

/// Rate proxy of a block coded as a single DC delta.
pub fn dc_delta_coefficient_proxy_score(delta: i16, kind: Av2CoefficientCodingKind) -> (r: usize)
    ensures
        r == dc_delta_proxy_spec(delta, kind),
{
    let magnitude: u32 = if delta < 0 { (-(delta as i32)) as u32 } else { delta as u32 };
    let level = magnitude * 4;
    if level == 0 {
        return 16;
    }
    let capped: usize = if level < 12 { level as usize } else { 12 };
    let mut score: usize = 96 + 10 + 80 + capped * 14;
    let mut high_range_avg: u32 = 0;
    score = score + coefficient_high_range_level_proxy_score(level, kind, 0, &mut high_range_avg);
    score
}

} // verus!
