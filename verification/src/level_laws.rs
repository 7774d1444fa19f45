use vstd::prelude::*;
use crate::entropy::Av2FieldSpec;
use crate::geometry::TX4X4_SCAN;
use crate::high_range::{Av2CoefficientCodingKind, high_range_symbol_spec};
use crate::txb_chroma::{Av2ChromaTxbGeometry, chroma_level_fields};
use crate::txb_luma::{fsc_level_fields, luma_level_fields};

verus! {

/// The level a decoder reads from a coefficient's base element (one less
/// than the level at the end-of-block position) and, when present, the low
/// range element that follows it.
pub open spec fn base_low_decoded(fields: Seq<Av2FieldSpec>, eob_offset: int) -> int {
    fields[0].1.unwrap() as int + eob_offset + if fields.len() >= 2 { fields[1].1.unwrap() as int } else { 0 }
}

/// What the high-range remainder adds to a coefficient's level.
pub open spec fn high_range_decoded(kind: Av2CoefficientCodingKind, level: u32, pos: int, average: u32) -> int {
    match high_range_symbol_spec(kind, level, pos, average) {
        Some(s) => s.value as int,
        None => 0,
    }
}

/// A luma coefficient's base and low-range elements and its high-range
/// remainder add back to its level, at every position and under any
/// running average.
pub proof fn lemma_luma_level_read_back(levels: Seq<u32>, pos: int, is_eob: bool, coeff_ctx: int, level: u32, average: u32)
    requires
        is_eob ==> level >= 1,
    ensures
        ({
            let f = luma_level_fields(levels, pos, is_eob, coeff_ctx, level);
            &&& 1 <= f.len() <= 2
            &&& base_low_decoded(f, if is_eob { 1 } else { 0 }) + high_range_decoded(
                Av2CoefficientCodingKind::LumaTransform,
                level,
                pos,
                average,
            ) == level
        }),
{
}

/// A chroma coefficient's base and low-range elements and its high-range
/// remainder add back to its level, in every geometry.
pub proof fn lemma_chroma_level_read_back(
    g: Av2ChromaTxbGeometry,
    levels: Seq<u32>,
    pos: int,
    is_eob: bool,
    coeff_ctx: int,
    level: u32,
    average: u32,
)
    requires
        is_eob ==> level >= 1,
        pos >= 0,
    ensures
        ({
            let f = chroma_level_fields(g, levels, pos, is_eob, coeff_ctx, level);
            &&& 1 <= f.len() <= 2
            &&& base_low_decoded(f, if is_eob { 1 } else { 0 }) + high_range_decoded(
                Av2CoefficientCodingKind::ChromaTransform,
                level,
                pos,
                average,
            ) == level
        }),
{
}

/// A forward-skip coefficient's base and low-range elements and its
/// high-range remainder add back to its level; the first coded coefficient
/// (`bob`) has a nonzero level and codes one less.
pub proof fn lemma_idtx_level_read_back(levels: Seq<u32>, bob: int, si: int, average: u32)
    requires
        0 <= si < 16,
        si == bob ==> levels[TX4X4_SCAN@[si] as int] >= 1,
    ensures
        ({
            let level = levels[TX4X4_SCAN@[si] as int];
            let f = fsc_level_fields(levels, bob, si);
            &&& 1 <= f.len() <= 2
            &&& base_low_decoded(f, if si == bob { 1 } else { 0 }) + high_range_decoded(
                Av2CoefficientCodingKind::LumaIdtx,
                level,
                0,
                average,
            ) == level
        }),
{
}

} // verus!
