use vstd::prelude::*;
use crate::geometry::{TX4X4_SIZE, TX4X4_SAMPLES, TX8X8_SIZE, TX8X8_SAMPLES, TX4X8_WIDTH, TX4X8_HEIGHT, TX4X8_SAMPLES};
use crate::sample::Av2ChromaPlane;

verus! {

/// Smaller of two integers.
pub open spec fn min_int(a: int, b: int) -> int {
    if a <= b { a } else { b }
}

/// Level at `(row + row_delta, col + col_delta)` of a `width`x`height` block
/// (row-major), clamped to 127; 0 outside the block.
pub open spec fn level_at_spec(
    levels: Seq<u32>,
    width: int,
    height: int,
    pos: int,
    row_delta: int,
    col_delta: int,
) -> int {
    let row = pos / width + row_delta;
    let col = pos % width + col_delta;
    if row < height && col < width {
        min_int(levels[row * width + col] as int, 127)
    } else {
        0
    }
}

/// Sum of the right, below and below-right neighbour levels, each clamped to
/// `limit`.
pub open spec fn three_neighbour_mag(levels: Seq<u32>, width: int, height: int, pos: int, limit: int) -> int {
    min_int(level_at_spec(levels, width, height, pos, 0, 1), limit)
        + min_int(level_at_spec(levels, width, height, pos, 1, 0), limit)
        + min_int(level_at_spec(levels, width, height, pos, 1, 1), limit)
}

/// Sum of the five luma neighbour levels (right, below, below-right, two
/// right, two below), each clamped to `limit`.
pub open spec fn five_neighbour_mag(levels: Seq<u32>, pos: int, limit: int) -> int {
    three_neighbour_mag(levels, 4, 4, pos, limit)
        + min_int(level_at_spec(levels, 4, 4, pos, 0, 2), limit)
        + min_int(level_at_spec(levels, 4, 4, pos, 2, 0), limit)
}

/// Context of the end-of-block coefficient from its scan index.
pub open spec fn eob_context_spec(scan_index: int, samples: int) -> int {
    if scan_index == 0 {
        0
    } else if scan_index <= samples / 8 {
        1
    } else if scan_index <= samples / 4 {
        2
    } else {
        3
    }
}

/// Plane offset applied to chroma contexts: V contexts follow the four U
/// contexts.
pub open spec fn plane_offset_spec(plane: Av2ChromaPlane) -> int {
    match plane {
        Av2ChromaPlane::U => 0,
        Av2ChromaPlane::V => 4,
    }
}

/// Chroma lower-level (non-EOB) context: neighbours clamped to 5 at the DC
/// position and to 3 elsewhere.
pub open spec fn chroma_lower_levels_spec(
    levels: Seq<u32>,
    width: int,
    height: int,
    pos: int,
    plane: Av2ChromaPlane,
) -> int {
    let limit = if pos == 0 { 5int } else { 3int };
    min_int((three_neighbour_mag(levels, width, height, pos, limit) + 1) / 2, 3) + plane_offset_spec(plane)
}

/// Chroma significance-map context.
pub open spec fn chroma_nz_map_spec(
    levels: Seq<u32>,
    width: int,
    height: int,
    pos: int,
    scan_index: int,
    is_eob: bool,
    plane: Av2ChromaPlane,
) -> int {
    if is_eob {
        eob_context_spec(scan_index, width * height)
    } else {
        chroma_lower_levels_spec(levels, width, height, pos, plane)
    }
}

/// Chroma base-range context (unclamped neighbours).
pub open spec fn chroma_br_spec(levels: Seq<u32>, width: int, height: int, pos: int) -> int {
    min_int(
        (level_at_spec(levels, width, height, pos, 0, 1) + level_at_spec(levels, width, height, pos, 1, 0)
            + level_at_spec(levels, width, height, pos, 1, 1) + 1) / 2,
        3,
    )
}

/// Whether a 4x4 luma position lies in the low-frequency region.
pub open spec fn luma_lf_spec(pos: int) -> bool {
    pos / 4 + pos % 4 < 4
}

/// Luma lower-level context for the low-frequency or the regular coefficient
/// set.
pub open spec fn luma_lower_levels_spec(levels: Seq<u32>, pos: int, low_frequency: bool) -> int {
    let diag = pos / 4 + pos % 4;
    if low_frequency {
        let ctx = (five_neighbour_mag(levels, pos, 5) + 1) / 2;
        if pos == 0 {
            min_int(ctx, 8)
        } else if diag < 2 {
            min_int(ctx, 6) + 9
        } else {
            min_int(ctx, 4) + 16
        }
    } else if pos == 0 {
        0
    } else {
        let ctx = min_int((five_neighbour_mag(levels, pos, 3) + 1) / 2, 4);
        if diag < 6 {
            ctx
        } else if diag < 8 {
            ctx + 5
        } else {
            ctx + 10
        }
    }
}

/// Luma significance-map context.
pub open spec fn luma_nz_map_spec(levels: Seq<u32>, pos: int, scan_index: int, is_eob: bool) -> int {
    if is_eob {
        eob_context_spec(scan_index, 16)
    } else {
        luma_lower_levels_spec(levels, pos, luma_lf_spec(pos))
    }
}

/// Luma base-range context; low-frequency non-DC positions use the second
/// group of seven contexts.
pub open spec fn luma_br_spec(levels: Seq<u32>, pos: int, low_frequency: bool) -> int {
    let ctx = min_int((three_neighbour_mag(levels, 4, 4, pos, 5) + 1) / 2, 6);
    if low_frequency && pos != 0 {
        ctx + 7
    } else {
        ctx
    }
}

/// Smaller of two `u32` values.
pub fn min_u32(a: u32, b: u32) -> (r: u32)
    ensures
        r as int == min_int(a as int, b as int),
{
    if a <= b {
        a
    } else {
        b
    }
}

/// Level sampler shared by every transform geometry.
pub fn tx_level_at<const SAMPLES: usize>(
    levels: &[u32; SAMPLES],
    width: usize,
    height: usize,
    pos: usize,
    row_delta: usize,
    col_delta: usize,
) -> (r: u32)
    requires
        0 < width <= 8,
        height <= 8,
        width * height == SAMPLES,
        SAMPLES <= 64,
        pos < SAMPLES,
        row_delta <= 8,
        col_delta <= 8,
    ensures
        r as int == level_at_spec(levels@, width as int, height as int, pos as int, row_delta as int, col_delta as int),
        r <= 127,
{
    let row = pos / width + row_delta;
    let col = pos % width + col_delta;
    if row < height && col < width {
        proof {
            assert(row * width + col < width * height) by (nonlinear_arith)
                requires
                    row < height,
                    col < width,
            ;
        }
        min_u32(levels[row * width + col], 127)
    } else {
        0
    }
}

/// Level sampler of a 4x4 block.
pub fn tx4x4_level_at(levels: &[u32; 16], pos: usize, row_delta: usize, col_delta: usize) -> (r: u32)
    requires
        pos < 16,
        row_delta <= 8,
        col_delta <= 8,
    ensures
        r as int == level_at_spec(levels@, 4, 4, pos as int, row_delta as int, col_delta as int),
        r <= 127,
{
    tx_level_at(levels, TX4X4_SIZE, TX4X4_SIZE, pos, row_delta, col_delta)
}

/// Level sampler of an 8x8 block.
pub fn tx8x8_level_at(levels: &[u32; 64], pos: usize, row_delta: usize, col_delta: usize) -> (r: u32)
    requires
        pos < 64,
        row_delta <= 8,
        col_delta <= 8,
    ensures
        r as int == level_at_spec(levels@, 8, 8, pos as int, row_delta as int, col_delta as int),
        r <= 127,
{
    tx_level_at(levels, TX8X8_SIZE, TX8X8_SIZE, pos, row_delta, col_delta)
}

/// Level sampler of a 4-wide, 8-tall block.
pub fn tx4x8_level_at(levels: &[u32; 32], pos: usize, row_delta: usize, col_delta: usize) -> (r: u32)
    requires
        pos < 32,
        row_delta <= 8,
        col_delta <= 8,
    ensures
        r as int == level_at_spec(levels@, 4, 8, pos as int, row_delta as int, col_delta as int),
        r <= 127,
{
    tx_level_at(levels, TX4X8_WIDTH, TX4X8_HEIGHT, pos, row_delta, col_delta)
}

/// The chroma low-frequency set is the DC position.
pub fn chroma_lf_limits(pos: usize) -> (r: bool)
    ensures
        r == (pos == 0),
{
    pos == 0
}

/// The luma low-frequency set holds positions with `row + col < 4`.
pub fn luma_lf_limits(pos: usize) -> (r: bool)
    ensures
        r == luma_lf_spec(pos as int),
{
    let row = pos / TX4X4_SIZE;
    let col = pos % TX4X4_SIZE;
    row + col < 4
}

/// End-of-block coefficient context for a block of `samples` coefficients.
pub fn get_lower_levels_ctx_eob_for_txb(scan_index: usize, samples: usize) -> (r: usize)
    ensures
        r as int == eob_context_spec(scan_index as int, samples as int),
{
    if scan_index == 0 {
        0
    } else if scan_index <= samples / 8 {
        1
    } else if scan_index <= samples / 4 {
        2
    } else {
        3
    }
}

/// End-of-block coefficient context of a 4x4 block.
pub fn get_lower_levels_ctx_eob(scan_index: usize) -> (r: usize)
    ensures
        r as int == eob_context_spec(scan_index as int, 16),
{
    get_lower_levels_ctx_eob_for_txb(scan_index, TX4X4_SAMPLES)
}

/// Adds the V-plane context offset.
pub fn chroma_context_with_plane_offset(ctx: usize, plane: Av2ChromaPlane) -> (r: usize)
    requires
        ctx <= 3,
    ensures
        r == ctx + plane_offset_spec(plane),
{
    match plane {
        Av2ChromaPlane::U => ctx,
        Av2ChromaPlane::V => ctx + 4,
    }
}

/// Chroma lower-level context with neighbours clamped to `limit`, shared by
/// every geometry.
fn chroma_lower_levels_for<const SAMPLES: usize>(
    levels: &[u32; SAMPLES],
    width: usize,
    height: usize,
    pos: usize,
    limit: u32,
    plane: Av2ChromaPlane,
) -> (r: usize)
    requires
        0 < width <= 8,
        height <= 8,
        width * height == SAMPLES,
        SAMPLES <= 64,
        pos < SAMPLES,
    ensures
        r == min_int((three_neighbour_mag(levels@, width as int, height as int, pos as int, limit as int) + 1) / 2, 3)
            + plane_offset_spec(plane),
{
    let mag = min_u32(tx_level_at(levels, width, height, pos, 0, 1), limit)
        + min_u32(tx_level_at(levels, width, height, pos, 1, 0), limit)
        + min_u32(tx_level_at(levels, width, height, pos, 1, 1), limit);
    let ctx = min_u32((mag + 1) / 2, 3) as usize;
    chroma_context_with_plane_offset(ctx, plane)
}

/// 4x4 chroma low-frequency context.
pub fn chroma_lower_levels_lf_context(levels: &[u32; 16], pos: usize, plane: Av2ChromaPlane) -> (r: usize)
    requires
        pos < 16,
    ensures
        r == min_int((three_neighbour_mag(levels@, 4, 4, pos as int, 5) + 1) / 2, 3) + plane_offset_spec(plane),
{
    chroma_lower_levels_for(levels, TX4X4_SIZE, TX4X4_SIZE, pos, 5, plane)
}

/// 4x4 chroma context outside the low-frequency set.
pub fn chroma_lower_levels_context(levels: &[u32; 16], pos: usize, plane: Av2ChromaPlane) -> (r: usize)
    requires
        pos < 16,
    ensures
        r == min_int((three_neighbour_mag(levels@, 4, 4, pos as int, 3) + 1) / 2, 3) + plane_offset_spec(plane),
{
    chroma_lower_levels_for(levels, TX4X4_SIZE, TX4X4_SIZE, pos, 3, plane)
}

/// 8x8 chroma low-frequency context.
pub fn chroma_tx8x8_lower_levels_lf_context(levels: &[u32; 64], pos: usize, plane: Av2ChromaPlane) -> (r: usize)
    requires
        pos < 64,
    ensures
        r == min_int((three_neighbour_mag(levels@, 8, 8, pos as int, 5) + 1) / 2, 3) + plane_offset_spec(plane),
{
    chroma_lower_levels_for(levels, TX8X8_SIZE, TX8X8_SIZE, pos, 5, plane)
}

/// 8x8 chroma context outside the low-frequency set.
pub fn chroma_tx8x8_lower_levels_context(levels: &[u32; 64], pos: usize, plane: Av2ChromaPlane) -> (r: usize)
    requires
        pos < 64,
    ensures
        r == min_int((three_neighbour_mag(levels@, 8, 8, pos as int, 3) + 1) / 2, 3) + plane_offset_spec(plane),
{
    chroma_lower_levels_for(levels, TX8X8_SIZE, TX8X8_SIZE, pos, 3, plane)
}

/// 4x8 chroma low-frequency context.
pub fn chroma_tx4x8_lower_levels_lf_context(levels: &[u32; 32], pos: usize, plane: Av2ChromaPlane) -> (r: usize)
    requires
        pos < 32,
    ensures
        r == min_int((three_neighbour_mag(levels@, 4, 8, pos as int, 5) + 1) / 2, 3) + plane_offset_spec(plane),
{
    chroma_lower_levels_for(levels, TX4X8_WIDTH, TX4X8_HEIGHT, pos, 5, plane)
}

/// 4x8 chroma context outside the low-frequency set.
pub fn chroma_tx4x8_lower_levels_context(levels: &[u32; 32], pos: usize, plane: Av2ChromaPlane) -> (r: usize)
    requires
        pos < 32,
    ensures
        r == min_int((three_neighbour_mag(levels@, 4, 8, pos as int, 3) + 1) / 2, 3) + plane_offset_spec(plane),
{
    chroma_lower_levels_for(levels, TX4X8_WIDTH, TX4X8_HEIGHT, pos, 3, plane)
}

/// 4x4 chroma significance-map context.
pub fn chroma_nz_map_context(
    levels: &[u32; 16],
    pos: usize,
    scan_index: usize,
    is_eob_coefficient: bool,
    plane: Av2ChromaPlane,
) -> (r: usize)
    requires
        pos < 16,
    ensures
        r == chroma_nz_map_spec(levels@, 4, 4, pos as int, scan_index as int, is_eob_coefficient, plane),
{
    if is_eob_coefficient {
        return get_lower_levels_ctx_eob(scan_index);
    }
    if chroma_lf_limits(pos) {
        return chroma_lower_levels_lf_context(levels, pos, plane);
    }
    chroma_lower_levels_context(levels, pos, plane)
}

/// 8x8 chroma significance-map context.
pub fn chroma_tx8x8_nz_map_context(
    levels: &[u32; 64],
    pos: usize,
    scan_index: usize,
    is_eob_coefficient: bool,
    plane: Av2ChromaPlane,
) -> (r: usize)
    requires
        pos < 64,
    ensures
        r == chroma_nz_map_spec(levels@, 8, 8, pos as int, scan_index as int, is_eob_coefficient, plane),
{
    if is_eob_coefficient {
        return get_lower_levels_ctx_eob_for_txb(scan_index, TX8X8_SAMPLES);
    }
    if chroma_lf_limits(pos) {
        return chroma_tx8x8_lower_levels_lf_context(levels, pos, plane);
    }
    chroma_tx8x8_lower_levels_context(levels, pos, plane)
}

/// 4x8 chroma significance-map context.
pub fn chroma_tx4x8_nz_map_context(
    levels: &[u32; 32],
    pos: usize,
    scan_index: usize,
    is_eob_coefficient: bool,
    plane: Av2ChromaPlane,
) -> (r: usize)
    requires
        pos < 32,
    ensures
        r == chroma_nz_map_spec(levels@, 4, 8, pos as int, scan_index as int, is_eob_coefficient, plane),
{
    if is_eob_coefficient {
        return get_lower_levels_ctx_eob_for_txb(scan_index, TX4X8_SAMPLES);
    }
    if chroma_lf_limits(pos) {
        return chroma_tx4x8_lower_levels_lf_context(levels, pos, plane);
    }
    chroma_tx4x8_lower_levels_context(levels, pos, plane)
}

/// Chroma significance-map context shared by every geometry.
pub fn chroma_nz_map_for<const SAMPLES: usize>(
    levels: &[u32; SAMPLES],
    width: usize,
    height: usize,
    pos: usize,
    scan_index: usize,
    is_eob_coefficient: bool,
    plane: Av2ChromaPlane,
) -> (r: usize)
    requires
        0 < width <= 8,
        height <= 8,
        width * height == SAMPLES,
        SAMPLES <= 64,
        pos < SAMPLES,
    ensures
        r == chroma_nz_map_spec(levels@, width as int, height as int, pos as int, scan_index as int, is_eob_coefficient, plane),
{
    if is_eob_coefficient {
        return get_lower_levels_ctx_eob_for_txb(scan_index, SAMPLES);
    }
    if chroma_lf_limits(pos) {
        return chroma_lower_levels_for(levels, width, height, pos, 5, plane);
    }
    chroma_lower_levels_for(levels, width, height, pos, 3, plane)
}

/// Chroma base-range context shared by every geometry.
pub fn chroma_br_for<const SAMPLES: usize>(levels: &[u32; SAMPLES], width: usize, height: usize, pos: usize) -> (r: usize)
    requires
        0 < width <= 8,
        height <= 8,
        width * height == SAMPLES,
        SAMPLES <= 64,
        pos < SAMPLES,
    ensures
        r == chroma_br_spec(levels@, width as int, height as int, pos as int),
{
    let mag = tx_level_at(levels, width, height, pos, 0, 1) + tx_level_at(levels, width, height, pos, 1, 0)
        + tx_level_at(levels, width, height, pos, 1, 1);
    min_u32((mag + 1) / 2, 3) as usize
}

/// 4x4 chroma base-range context.
pub fn chroma_br_context(levels: &[u32; 16], pos: usize) -> (r: usize)
    requires
        pos < 16,
    ensures
        r == chroma_br_spec(levels@, 4, 4, pos as int),
{
    chroma_br_for(levels, TX4X4_SIZE, TX4X4_SIZE, pos)
}

/// 8x8 chroma base-range context.
pub fn chroma_tx8x8_br_context(levels: &[u32; 64], pos: usize) -> (r: usize)
    requires
        pos < 64,
    ensures
        r == chroma_br_spec(levels@, 8, 8, pos as int),
{
    chroma_br_for(levels, TX8X8_SIZE, TX8X8_SIZE, pos)
}

/// 4x8 chroma base-range context.
pub fn chroma_tx4x8_br_context(levels: &[u32; 32], pos: usize) -> (r: usize)
    requires
        pos < 32,
    ensures
        r == chroma_br_spec(levels@, 4, 8, pos as int),
{
    chroma_br_for(levels, TX4X8_WIDTH, TX4X8_HEIGHT, pos)
}

/// Sum of the five luma neighbours clamped to `limit`.
fn luma_five_neighbour_mag(levels: &[u32; 16], pos: usize, limit: u32) -> (r: u32)
    requires
        pos < 16,
    ensures
        r == five_neighbour_mag(levels@, pos as int, limit as int),
        r <= 5 * 127,
{
    min_u32(tx4x4_level_at(levels, pos, 0, 1), limit) + min_u32(tx4x4_level_at(levels, pos, 1, 0), limit)
        + min_u32(tx4x4_level_at(levels, pos, 1, 1), limit) + min_u32(tx4x4_level_at(levels, pos, 0, 2), limit)
        + min_u32(tx4x4_level_at(levels, pos, 2, 0), limit)
}

/// Luma low-frequency lower-level context.
pub fn luma_lower_levels_lf_context(levels: &[u32; 16], pos: usize) -> (r: usize)
    requires
        pos < 16,
    ensures
        r == luma_lower_levels_spec(levels@, pos as int, true),
{
    let mag = luma_five_neighbour_mag(levels, pos, 5);
    let row = pos / TX4X4_SIZE;
    let col = pos % TX4X4_SIZE;
    let ctx = (mag + 1) / 2;
    if pos == 0 {
        return min_u32(ctx, 8) as usize;
    }
    if row + col < 2 {
        return min_u32(ctx, 6) as usize + 9;
    }
    min_u32(ctx, 4) as usize + 16
}

/// Luma lower-level context for the low-frequency (`low_frequency`) or the
/// regular coefficient set.
pub fn luma_lower_levels_context(levels: &[u32; 16], pos: usize, low_frequency: bool) -> (r: usize)
    requires
        pos < 16,
    ensures
        r == luma_lower_levels_spec(levels@, pos as int, low_frequency),
{
    if low_frequency {
        return luma_lower_levels_lf_context(levels, pos);
    }
    if pos == 0 {
        return 0;
    }
    let mag = luma_five_neighbour_mag(levels, pos, 3);
    let row = pos / TX4X4_SIZE;
    let col = pos % TX4X4_SIZE;
    let ctx = min_u32((mag + 1) / 2, 4) as usize;
    if row + col < 6 {
        ctx
    } else if row + col < 8 {
        ctx + 5
    } else {
        ctx + 10
    }
}

/// Luma significance-map context.
pub fn luma_nz_map_context(levels: &[u32; 16], pos: usize, scan_index: usize, is_eob_coefficient: bool) -> (r: usize)
    requires
        pos < 16,
    ensures
        r == luma_nz_map_spec(levels@, pos as int, scan_index as int, is_eob_coefficient),
{
    if is_eob_coefficient {
        return get_lower_levels_ctx_eob(scan_index);
    }
    luma_lower_levels_context(levels, pos, luma_lf_limits(pos))
}

/// Luma base-range context in the low-frequency set.
pub fn luma_br_lf_context(levels: &[u32; 16], pos: usize) -> (r: usize)
    requires
        pos < 16,
    ensures
        r == luma_br_spec(levels@, pos as int, true),
{
    luma_br_context(levels, pos, true)
}

/// Luma base-range context for the low-frequency or the regular set.
pub fn luma_br_context(levels: &[u32; 16], pos: usize, low_frequency: bool) -> (r: usize)
    requires
        pos < 16,
    ensures
        r == luma_br_spec(levels@, pos as int, low_frequency),
{
    let mag = min_u32(tx4x4_level_at(levels, pos, 0, 1), 5) + min_u32(tx4x4_level_at(levels, pos, 1, 0), 5)
        + min_u32(tx4x4_level_at(levels, pos, 1, 1), 5);
    let ctx = min_u32((mag + 1) / 2, 6) as usize;
    if low_frequency && pos != 0 {
        ctx + 7
    } else {
        ctx
    }
}

} // verus!
