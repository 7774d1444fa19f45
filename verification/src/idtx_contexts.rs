use vstd::prelude::*;
use crate::coefficient_contexts::{min_int, min_u32};
use crate::sample::LOSSLESS_DC_PREDICTOR;

verus! {

/// Raster neighbours of a 4x4 position that precede it in the identity
/// transform's coding order.
#[derive(Clone, Copy, Debug, PartialEq, Eq, Structural)]
pub struct Av2IdtxNeighbourPositions {
    pub left: Option<usize>,
    pub above: Option<usize>,
    pub above_left: Option<usize>,
}

/// Left, above and above-left raster neighbours of a 4x4 position, where they
/// exist.
pub open spec fn idtx_neighbours_spec(pos: int) -> (Option<usize>, Option<usize>, Option<usize>) {
    let row = pos / 4;
    let col = pos % 4;
    (
        if col > 0 { Some((pos - 1) as usize) } else { None },
        if row > 0 { Some((pos - 4) as usize) } else { None },
        if row > 0 && col > 0 { Some((pos - 5) as usize) } else { None },
    )
}

/// Clamped level of an optional neighbour.
pub open spec fn idtx_neighbour_level_spec(levels: Seq<u32>, neighbour: Option<usize>) -> int {
    match neighbour {
        Some(n) => min_int(levels[n as int] as int, 127),
        None => 0,
    }
}

/// Identity-transform level context with neighbours clamped to `limit`.
pub open spec fn idtx_level_context_spec(levels: Seq<u32>, pos: int, limit: int) -> int {
    let (left, above, _) = idtx_neighbours_spec(pos);
    min_int(
        min_int(idtx_neighbour_level_spec(levels, left), limit) + min_int(idtx_neighbour_level_spec(levels, above), limit),
        6,
    )
}

/// Sign contribution of an optional neighbour: +1 or -1 for a coded
/// neighbour, 0 otherwise.
pub open spec fn idtx_sign_contribution(levels: Seq<u32>, coefficients: Seq<i32>, neighbour: Option<usize>) -> int {
    match neighbour {
        Some(n) => if levels[n as int] != 0 {
            if coefficients[n as int] < 0 { -1int } else { 1int }
        } else {
            0
        },
        None => 0,
    }
}

/// Identity-transform sign context.
pub open spec fn idtx_sign_context_spec(levels: Seq<u32>, coefficients: Seq<i32>, pos: int) -> int {
    let (left, above, above_left) = idtx_neighbours_spec(pos);
    let sum = idtx_sign_contribution(levels, coefficients, left) + idtx_sign_contribution(levels, coefficients, above)
        + idtx_sign_contribution(levels, coefficients, above_left);
    let ctx = if sum > 2 {
        5int
    } else if sum < -2 {
        6int
    } else if sum > 0 {
        1int
    } else if sum < 0 {
        2int
    } else {
        0int
    };
    if levels[pos] > 3 && ctx != 0 {
        ctx + 2
    } else {
        ctx
    }
}

/// Beginning-of-block context of the identity transform from the scan index.
pub fn idtx_bob_context(scan_index: usize) -> (r: usize)
    ensures
        r == (if scan_index <= 2 { 0int } else if scan_index <= 4 { 1int } else { 2int }),
{
    if scan_index <= 16 / 8 {
        0
    } else if scan_index <= 16 / 4 {
        1
    } else {
        2
    }
}

/// Raster neighbours of `pos` in a 4x4 block.
pub fn idtx_neighbour_positions(pos: usize) -> (r: Av2IdtxNeighbourPositions)
    requires
        pos < 16,
    ensures
        (r.left, r.above, r.above_left) == idtx_neighbours_spec(pos as int),
{
    let row = pos / 4;
    let col = pos % 4;
    Av2IdtxNeighbourPositions {
        left: if col > 0 { Some(pos - 1) } else { None },
        above: if row > 0 { Some(pos - 4) } else { None },
        above_left: if row > 0 && col > 0 { Some(pos - 5) } else { None },
    }
}

/// Clamped level of an optional neighbour.
pub fn idtx_neighbour_level(levels: &[u32; 16], neighbour: Option<usize>) -> (r: u32)
    requires
        neighbour matches Some(n) ==> n < 16,
    ensures
        r == idtx_neighbour_level_spec(levels@, neighbour),
        r <= 127,
{
    match neighbour {
        Some(n) => min_u32(levels[n], 127),
        None => 0,
    }
}

/// Identity-transform level context with neighbours clamped to
/// `neighbour_limit`.
pub fn idtx_neighbour_levels_context(levels: &[u32; 16], pos: usize, neighbour_limit: u32) -> (r: usize)
    requires
        pos < 16,
    ensures
        r == idtx_level_context_spec(levels@, pos as int, neighbour_limit as int),
{
    let neighbours = idtx_neighbour_positions(pos);
    let magnitude = min_u32(idtx_neighbour_level(levels, neighbours.left), neighbour_limit)
        + min_u32(idtx_neighbour_level(levels, neighbours.above), neighbour_limit);
    min_u32(magnitude, 6) as usize
}

/// Identity-transform context of the upper-level (base) symbols.
pub fn idtx_upper_levels_context(levels: &[u32; 16], pos: usize) -> (r: usize)
    requires
        pos < 16,
    ensures
        r == idtx_level_context_spec(levels@, pos as int, 3),
{
    idtx_neighbour_levels_context(levels, pos, 3)
}

/// Identity-transform base-range context.
pub fn idtx_br_context(levels: &[u32; 16], pos: usize) -> (r: usize)
    requires
        pos < 16,
    ensures
        r == idtx_level_context_spec(levels@, pos as int, 5),
{
    idtx_neighbour_levels_context(levels, pos, 5)
}

/// Sign of a coefficient as -1 (negative) or +1 (zero or positive).
pub fn idtx_sign_value(coefficient: i32) -> (r: i32)
    ensures
        r == (if coefficient < 0 { -1int } else { 1int }),
{
    if coefficient < 0 {
        -1
    } else {
        1
    }
}

/// Sign contribution of one neighbour.
fn idtx_sign_term(levels: &[u32; 16], coefficients: &[i32; 16], neighbour: Option<usize>) -> (r: i32)
    requires
        neighbour matches Some(n) ==> n < 16,
    ensures
        r == idtx_sign_contribution(levels@, coefficients@, neighbour),
{
    match neighbour {
        Some(n) => if levels[n] != 0 {
            idtx_sign_value(coefficients[n])
        } else {
            0
        },
        None => 0,
    }
}

/// Identity-transform sign context from the coded neighbours' signs.
pub fn idtx_sign_context(levels: &[u32; 16], coefficients: &[i32; 16], pos: usize) -> (r: usize)
    requires
        pos < 16,
    ensures
        r == idtx_sign_context_spec(levels@, coefficients@, pos as int),
{
    let neighbours = idtx_neighbour_positions(pos);
    let sign_sum = idtx_sign_term(levels, coefficients, neighbours.left) + idtx_sign_term(levels, coefficients, neighbours.above)
        + idtx_sign_term(levels, coefficients, neighbours.above_left);
    let mut ctx: usize = if sign_sum > 2 {
        5
    } else if sign_sum < -2 {
        6
    } else if sign_sum > 0 {
        1
    } else if sign_sum < 0 {
        2
    } else {
        0
    };
    if levels[pos] > 3 && ctx != 0 {
        ctx += 2;
    }
    ctx
}

/// Transform-block entropy context left for neighbouring blocks: the
/// cumulative level (clamped to 7) in the low bits, plus bit 3 for a negative
/// DC and 16 for a positive DC.
pub fn lossless_entropy_context(cul_level: u32, dc_val: i32) -> (r: u8)
    ensures
        r == min_int(cul_level as int, 7) + (if dc_val < 0 { 8int } else if dc_val > 0 { 16int } else { 0int }),
{
    let mut context = min_u32(cul_level, 7) as u8;
    if dc_val < 0 {
        context = context + 8;
    } else if dc_val > 0 {
        context = context + 16;
    }
    context
}

/// DC coefficient level and sign of a flat 8-bit block in the lossless path:
/// four times the distance from the DC predictor.
pub fn lossless_dc_level_for_sample(sample: u8) -> (r: (u16, bool))
    ensures
        r.0 == 4 * (if sample >= LOSSLESS_DC_PREDICTOR { sample - LOSSLESS_DC_PREDICTOR } else { LOSSLESS_DC_PREDICTOR - sample }),
        r.1 == (sample < LOSSLESS_DC_PREDICTOR),
{
    let delta = sample as i16 - LOSSLESS_DC_PREDICTOR as i16;
    let magnitude: u16 = if delta < 0 { (-delta) as u16 } else { delta as u16 };
    (magnitude * 4, delta < 0)
}

/// Entropy context of a transform block holding one nonzero DC coefficient of
/// level 1.
pub const NONZERO_NEGATIVE_DC_ENTROPY_CONTEXT: u8 = 9;
/// Entropy context of a transform block holding one positive DC coefficient
/// of level 1.
pub const NONZERO_POSITIVE_DC_ENTROPY_CONTEXT: u8 = 17;

/// Entropy context of a block whose only coefficient is a nonzero DC.
pub fn nonzero_dc_entropy_context(negative: bool) -> (r: u8)
    ensures
        r == (if negative { NONZERO_NEGATIVE_DC_ENTROPY_CONTEXT } else { NONZERO_POSITIVE_DC_ENTROPY_CONTEXT }),
{
    if negative {
        NONZERO_NEGATIVE_DC_ENTROPY_CONTEXT
    } else {
        NONZERO_POSITIVE_DC_ENTROPY_CONTEXT
    }
}

} // verus!
