use vstd::prelude::*;
use crate::geometry::{TX4X4_SCAN, TX8X8_SCAN, TX4X8_SCAN};

verus! {

/// Absolute value of a coefficient.
pub open spec fn abs_spec(c: i32) -> int {
    if c < 0 { -(c as int) } else { c as int }
}

/// Coded level of a coefficient scaled by the unit quantizer factor 8.
pub open spec fn coefficient_level_spec(c: i32) -> u32 {
    (abs_spec(c) / 8) as u32
}

/// Levels of every coefficient of a block.
pub open spec fn levels_spec(coefficients: Seq<i32>) -> Seq<u32> {
    Seq::new(coefficients.len(), |i: int| coefficient_level_spec(coefficients[i]))
}

/// `bounds` is the first and one-past-last nonzero scan index of `levels`
/// under `scan`, or `None` when every scanned level is zero.
pub open spec fn scan_bounds_spec(levels: Seq<u32>, scan: Seq<usize>, bounds: Option<(usize, usize)>) -> bool {
    match bounds {
        None => forall|i: int| 0 <= i < scan.len() ==> levels[scan[i] as int] == 0,
        Some((first, eob)) => {
            &&& first < eob <= scan.len()
            &&& levels[scan[first as int] as int] != 0
            &&& levels[scan[eob - 1] as int] != 0
            &&& forall|i: int| 0 <= i < first ==> levels[scan[i] as int] == 0
            &&& forall|i: int| eob <= i < scan.len() ==> levels[scan[i] as int] == 0
        },
    }
}

/// The scan bounds of `levels` under `scan`: the one `bounds` that
/// `scan_bounds_spec` describes.
pub open spec fn scan_bounds_of(levels: Seq<u32>, scan: Seq<usize>) -> Option<(usize, usize)> {
    choose|b: Option<(usize, usize)>| scan_bounds_spec(levels, scan, b)
}

/// Scan bounds are unique.
pub proof fn lemma_scan_bounds_unique(levels: Seq<u32>, scan: Seq<usize>, b1: Option<(usize, usize)>, b2: Option<(usize, usize)>)
    requires
        scan_bounds_spec(levels, scan, b1),
        scan_bounds_spec(levels, scan, b2),
    ensures
        b1 == b2,
{
    match (b1, b2) {
        (Some((f1, e1)), Some((f2, e2))) => {
            if f1 < f2 {
                assert(levels[scan[f1 as int] as int] == 0);
            }
            if f2 < f1 {
                assert(levels[scan[f2 as int] as int] == 0);
            }
            if e1 < e2 {
                assert(levels[scan[e2 - 1] as int] == 0);
            }
            if e2 < e1 {
                assert(levels[scan[e1 - 1] as int] == 0);
            }
        },
        (Some((f1, e1)), None) => {
            assert(levels[scan[f1 as int] as int] == 0);
        },
        (None, Some((f2, e2))) => {
            assert(levels[scan[f2 as int] as int] == 0);
        },
        (None, None) => {},
    }
}

/// Any bounds that `scan_bounds_spec` describes are `scan_bounds_of`.
pub proof fn lemma_scan_bounds_of(levels: Seq<u32>, scan: Seq<usize>, b: Option<(usize, usize)>)
    requires
        scan_bounds_spec(levels, scan, b),
    ensures
        scan_bounds_of(levels, scan) == b,
{
    lemma_scan_bounds_unique(levels, scan, b, scan_bounds_of(levels, scan));
}

/// Level of one coefficient: its magnitude divided by the unit quantizer
/// factor.
pub fn coefficient_level(coefficient: i32) -> (r: u32)
    ensures
        r == coefficient_level_spec(coefficient),
        r <= 0x1000_0000,
{
    let magnitude: u32 = if coefficient >= 0 {
        coefficient as u32
    } else if coefficient == i32::MIN {
        0x8000_0000
    } else {
        (-coefficient) as u32
    };
    magnitude / 8
}

/// Levels of a block and the first and end-of-block scan indices of its
/// nonzero levels.
pub fn coefficient_levels_and_bounds<const SAMPLES: usize>(
    coefficients: &[i32; SAMPLES],
    scan: &[usize; SAMPLES],
) -> (r: ([u32; SAMPLES], Option<(usize, usize)>))
    requires
        forall|i: int| 0 <= i < SAMPLES ==> scan[i] < SAMPLES,
    ensures
        r.0@ == levels_spec(coefficients@),
        scan_bounds_spec(r.0@, scan@, r.1),
        forall|i: int| 0 <= i < SAMPLES ==> r.0[i] <= 0x1000_0000,
{
    let mut levels = [0u32; SAMPLES];
    let mut pos: usize = 0;
    while pos < SAMPLES
        invariant
            pos <= SAMPLES,
            levels@.len() == SAMPLES,
            forall|i: int| 0 <= i < pos ==> levels[i] == coefficient_level_spec(coefficients[i]),
        decreases SAMPLES - pos,
    {
        levels[pos] = coefficient_level(coefficients[pos]);
        pos = pos + 1;
    }
    proof {
        assert(levels@ =~= levels_spec(coefficients@));
    }
    let mut first: Option<usize> = None;
    let mut eob: usize = 0;
    let mut scan_index: usize = 0;
    while scan_index < SAMPLES
        invariant
            scan_index <= SAMPLES,
            levels@ == levels_spec(coefficients@),
            forall|i: int| 0 <= i < SAMPLES ==> scan[i] < SAMPLES,
            first is None ==> eob == 0 && forall|i: int| 0 <= i < scan_index ==> levels[scan[i] as int] == 0,
            first matches Some(f) ==> {
                &&& f < eob <= scan_index
                &&& levels[scan[f as int] as int] != 0
                &&& levels[scan[eob - 1] as int] != 0
                &&& forall|i: int| 0 <= i < f ==> levels[scan[i] as int] == 0
                &&& forall|i: int| eob <= i < scan_index ==> levels[scan[i] as int] == 0
            },
        decreases SAMPLES - scan_index,
    {
        if levels[scan[scan_index]] != 0 {
            if first.is_none() {
                first = Some(scan_index);
            }
            eob = scan_index + 1;
        }
        scan_index = scan_index + 1;
    }
    let bounds = match first {
        Some(f) => Some((f, eob)),
        None => None,
    };
    (levels, bounds)
}

/// Levels and scan bounds of a lossless 4x4 block.
pub fn lossless_coefficient_levels_and_bounds(coefficients: &[i32; 16]) -> (r: ([u32; 16], Option<(usize, usize)>))
    ensures
        r.0@ == levels_spec(coefficients@),
        scan_bounds_spec(r.0@, TX4X4_SCAN@, r.1),
        forall|i: int| 0 <= i < 16 ==> r.0[i] <= 0x1000_0000,
{
    coefficient_levels_and_bounds(coefficients, &TX4X4_SCAN)
}

/// Levels and scan bounds of an 8x8 block.
pub fn tx8x8_coefficient_levels_and_bounds(coefficients: &[i32; 64]) -> (r: ([u32; 64], Option<(usize, usize)>))
    ensures
        r.0@ == levels_spec(coefficients@),
        scan_bounds_spec(r.0@, TX8X8_SCAN@, r.1),
        forall|i: int| 0 <= i < 64 ==> r.0[i] <= 0x1000_0000,
{
    coefficient_levels_and_bounds(coefficients, &TX8X8_SCAN)
}

/// Levels and scan bounds of a 4x8 block.
pub fn tx4x8_coefficient_levels_and_bounds(coefficients: &[i32; 32]) -> (r: ([u32; 32], Option<(usize, usize)>))
    ensures
        r.0@ == levels_spec(coefficients@),
        scan_bounds_spec(r.0@, TX4X8_SCAN@, r.1),
        forall|i: int| 0 <= i < 32 ==> r.0[i] <= 0x1000_0000,
{
    coefficient_levels_and_bounds(coefficients, &TX4X8_SCAN)
}

/// End of block (one past the last nonzero scan index) of a quantized 4x4
/// block, or 0 when it is all zero.
pub fn quantized_txb_eob(coefficients: &[i32; 16]) -> (r: usize)
    ensures
        r <= 16,
        r > 0 ==> coefficients[TX4X4_SCAN[r - 1] as int] != 0,
        forall|i: int| r <= i < 16 ==> coefficients[TX4X4_SCAN[i] as int] == 0,
{
    let mut index: usize = 16;
    while index > 0
        invariant
            index <= 16,
            forall|i: int| index <= i < 16 ==> coefficients[TX4X4_SCAN[i] as int] == 0,
        decreases index,
    {
        if coefficients[TX4X4_SCAN[index - 1]] != 0 {
            return index;
        }
        index = index - 1;
    }
    0
}

} // verus!
