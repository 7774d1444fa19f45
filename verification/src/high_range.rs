use vstd::prelude::*;
use crate::coefficient_contexts::{luma_lf_limits, luma_lf_spec};
use crate::entropy::{Av2EntropyWriter, appended_one, is_high_range_field, last_field};
use crate::entropy::{Av2FieldSpec, fields_appended, lemma_fields_appended_none, lemma_fields_appended_one, literal_spec, total_bits};
use crate::golomb::{adaptive_high_range_bits_spec, adaptive_high_range_score_bits, lemma_adaptive_bits_bound};
use crate::sample::Av2ChromaPlane;

verus! {

/// Coefficient coding families that share one decoded-base and high-range
/// context policy between rate estimation and entropy coding.
#[derive(Clone, Copy, Debug, PartialEq, Eq, Structural)]
pub enum Av2CoefficientCodingKind {
    LumaTransform,
    LumaIdtx,
    ChromaTransform,
}

/// A high-range remainder and the Rice context it is coded with.
#[derive(Clone, Copy, Debug, PartialEq, Eq, Structural)]
pub struct Av2CoefficientHighRangeSymbol {
    pub value: u32,
    pub context: u32,
}

/// Level above which a coefficient carries a high-range remainder.
pub open spec fn decoded_base_spec(kind: Av2CoefficientCodingKind, pos: int) -> int {
    match kind {
        Av2CoefficientCodingKind::LumaIdtx => 6,
        Av2CoefficientCodingKind::LumaTransform => if luma_lf_spec(pos) { 8 } else { 6 },
        Av2CoefficientCodingKind::ChromaTransform => if pos == 0 { 5 } else { 6 },
    }
}

/// Symbol emitted for `level` at `pos` given the running average, if any.
pub open spec fn high_range_symbol_spec(
    kind: Av2CoefficientCodingKind,
    level: u32,
    pos: int,
    average: u32,
) -> Option<Av2CoefficientHighRangeSymbol> {
    let base = decoded_base_spec(kind, pos);
    if level >= base {
        Some(Av2CoefficientHighRangeSymbol { value: (level - base) as u32, context: average })
    } else {
        None
    }
}

/// The running average can absorb the remainder of `level` at `pos`
/// without leaving 32 bits: nothing to absorb below the decoded base.
pub open spec fn average_update_fits(kind: Av2CoefficientCodingKind, level: u32, pos: int, average: u32) -> bool {
    level >= decoded_base_spec(kind, pos) ==> average + (level - decoded_base_spec(kind, pos)) <= u32::MAX
}

/// Running average after coding `level` at `pos`: the halved sum with the
/// new remainder, or unchanged when no remainder is coded.
pub open spec fn next_average_spec(kind: Av2CoefficientCodingKind, level: u32, pos: int, average: u32) -> u32 {
    match high_range_symbol_spec(kind, level, pos, average) {
        Some(s) => ((average + s.value) / 2) as u32,
        None => average,
    }
}

impl Av2CoefficientCodingKind {
    /// Decoded base of this family at `pos`.
    pub fn decoded_base(self, pos: usize) -> (r: u32)
        ensures
            r == decoded_base_spec(self, pos as int),
    {
        match self {
            Av2CoefficientCodingKind::LumaIdtx => 6,
            Av2CoefficientCodingKind::LumaTransform => if luma_lf_limits(pos) { 8 } else { 6 },
            Av2CoefficientCodingKind::ChromaTransform => if pos == 0 { 5 } else { 6 },
        }
    }

    /// The high-range symbol of `level` at `pos`, advancing the running
    /// average when a remainder is coded.
    pub fn next_high_range_symbol(
        self,
        level: u32,
        pos: usize,
        level_average: &mut u32,
    ) -> (r: Option<Av2CoefficientHighRangeSymbol>)
        requires
            average_update_fits(self, level, pos as int, *old(level_average)),
        ensures
            r == high_range_symbol_spec(self, level, pos as int, *old(level_average)),
            *final(level_average) == next_average_spec(self, level, pos as int, *old(level_average)),
            *final(level_average) <= *old(level_average) || *final(level_average) <= level,
    {
        let decoded_base = self.decoded_base(pos);
        if level < decoded_base {
            return None;
        }
        let value = level - decoded_base;
        let context = *level_average;
        *level_average = (*level_average + value) / 2;
        Some(Av2CoefficientHighRangeSymbol { value, context })
    }
}

/// Field name of a chroma plane's high-range values.
pub open spec fn chroma_high_range_name(plane: Av2ChromaPlane) -> Seq<char> {
    match plane {
        Av2ChromaPlane::U => "tile.coeff.u.high_range"@,
        Av2ChromaPlane::V => "tile.coeff.v.high_range"@,
    }
}

/// Effect of coding one coefficient's high range: a single element named
/// `name` when the level reaches the decoded base, nothing otherwise.
pub open spec fn high_range_written(
    old_w: Av2EntropyWriter,
    new_w: Av2EntropyWriter,
    name: Seq<char>,
    kind: Av2CoefficientCodingKind,
    level: u32,
    pos: int,
    average: u32,
) -> bool {
    match high_range_symbol_spec(kind, level, pos, average) {
        Some(s) => appended_one(old_w, new_w) && is_high_range_field(last_field(new_w), name, s.value, s.context),
        None => new_w == old_w,
    }
}

/// Codes the high-range remainder of one coefficient.
pub fn write_coefficient_high_range(
    writer: &mut Av2EntropyWriter,
    name: &str,
    kind: Av2CoefficientCodingKind,
    pos: usize,
    level: u32,
    level_average: &mut u32,
)
    requires
        average_update_fits(kind, level, pos as int, *old(level_average)),
    ensures
        high_range_written(*old(writer), *final(writer), name@, kind, level, pos as int, *old(level_average)),
        *final(level_average) == next_average_spec(kind, level, pos as int, *old(level_average)),
        *final(level_average) <= *old(level_average) || *final(level_average) <= level,
{
    let symbol = kind.next_high_range_symbol(level, pos, level_average);
    match symbol {
        Some(symbol) => writer.write_adaptive_high_range_with_context(name, symbol.value, symbol.context),
        None => {},
    }
}

/// Codes a luma transform coefficient's high range.
pub fn write_luma_high_range(writer: &mut Av2EntropyWriter, pos: usize, level: u32, level_average: &mut u32)
    requires
        average_update_fits(Av2CoefficientCodingKind::LumaTransform, level, pos as int, *old(level_average)),
    ensures
        high_range_written(
            *old(writer),
            *final(writer),
            "tile.coeff.y.high_range"@,
            Av2CoefficientCodingKind::LumaTransform,
            level,
            pos as int,
            *old(level_average),
        ),
        *final(level_average) == next_average_spec(Av2CoefficientCodingKind::LumaTransform, level, pos as int, *old(level_average)),
        *final(level_average) <= *old(level_average) || *final(level_average) <= level,
{
    write_coefficient_high_range(
        writer,
        "tile.coeff.y.high_range",
        Av2CoefficientCodingKind::LumaTransform,
        pos,
        level,
        level_average,
    );
}

/// Codes an identity-transform luma coefficient's high range.
pub fn write_idtx_high_range(writer: &mut Av2EntropyWriter, level: u32, level_average: &mut u32)
    requires
        average_update_fits(Av2CoefficientCodingKind::LumaIdtx, level, 0, *old(level_average)),
    ensures
        high_range_written(
            *old(writer),
            *final(writer),
            "tile.coeff.y.idtx_high_range"@,
            Av2CoefficientCodingKind::LumaIdtx,
            level,
            0,
            *old(level_average),
        ),
        *final(level_average) == next_average_spec(Av2CoefficientCodingKind::LumaIdtx, level, 0, *old(level_average)),
        *final(level_average) <= *old(level_average) || *final(level_average) <= level,
{
    write_coefficient_high_range(
        writer,
        "tile.coeff.y.idtx_high_range",
        Av2CoefficientCodingKind::LumaIdtx,
        0,
        level,
        level_average,
    );
}

/// Codes a chroma coefficient's high range under the plane's field name.
pub fn write_chroma_high_range(
    writer: &mut Av2EntropyWriter,
    plane: Av2ChromaPlane,
    pos: usize,
    level: u32,
    level_average: &mut u32,
)
    requires
        average_update_fits(Av2CoefficientCodingKind::ChromaTransform, level, pos as int, *old(level_average)),
    ensures
        high_range_written(
            *old(writer),
            *final(writer),
            chroma_high_range_name(plane),
            Av2CoefficientCodingKind::ChromaTransform,
            level,
            pos as int,
            *old(level_average),
        ),
        *final(level_average) == next_average_spec(Av2CoefficientCodingKind::ChromaTransform, level, pos as int, *old(level_average)),
        *final(level_average) <= *old(level_average) || *final(level_average) <= level,
{
    let name = match plane {
        Av2ChromaPlane::U => "tile.coeff.u.high_range",
        Av2ChromaPlane::V => "tile.coeff.v.high_range",
    };
    write_coefficient_high_range(
        writer,
        name,
        Av2CoefficientCodingKind::ChromaTransform,
        pos,
        level,
        level_average,
    );
}

/// Codes the high range of a block whose only coefficient is the DC.
pub fn write_dc_only_high_range(writer: &mut Av2EntropyWriter, name: &str, kind: Av2CoefficientCodingKind, level: u32)
    ensures
        high_range_written(*old(writer), *final(writer), name@, kind, level, 0, 0),
{
    let mut level_average: u32 = 0;
    write_coefficient_high_range(writer, name, kind, 0, level, &mut level_average);
}

/// Rate proxy (in 1/64 bit units) of one level's high-range remainder.
pub open spec fn high_range_level_score_spec(kind: Av2CoefficientCodingKind, level: u32, pos: int, average: u32) -> int {
    match high_range_symbol_spec(kind, level, pos, average) {
        Some(s) => adaptive_high_range_bits_spec(s.value as nat, s.context as nat) * 64,
        None => 0,
    }
}

/// Rate proxy of one level's high-range remainder, advancing the same
/// running average that entropy coding advances.
pub fn coefficient_high_range_level_proxy_score(
    level: u32,
    kind: Av2CoefficientCodingKind,
    pos: usize,
    high_range_avg: &mut u32,
) -> (r: usize)
    requires
        average_update_fits(kind, level, pos as int, *old(high_range_avg)),
    ensures
        r == high_range_level_score_spec(kind, level, pos as int, *old(high_range_avg)),
        r <= 80 * 64,
        r % 64 == 0,
        r == 0 <==> level < decoded_base_spec(kind, pos as int),
        *final(high_range_avg) == next_average_spec(kind, level, pos as int, *old(high_range_avg)),
        *final(high_range_avg) <= *old(high_range_avg) || *final(high_range_avg) <= level,
{
    let symbol = kind.next_high_range_symbol(level, pos, high_range_avg);
    match symbol {
        Some(symbol) => {
            proof {
                lemma_adaptive_bits_bound(symbol.value as nat, symbol.context as nat);
            }
            adaptive_high_range_score_bits(symbol.value, symbol.context) * 64
        },
        None => 0,
    }
}

/// Rate proxy of the high range of the level at raster position `pos`.
pub fn coefficient_high_range_proxy_score(
    levels: &[u32; 16],
    kind: Av2CoefficientCodingKind,
    pos: usize,
    high_range_avg: &mut u32,
) -> (r: usize)
    requires
        pos < 16,
        average_update_fits(kind, levels[pos as int], pos as int, *old(high_range_avg)),
    ensures
        r == high_range_level_score_spec(kind, levels[pos as int], pos as int, *old(high_range_avg)),
        r <= 80 * 64,
        r % 64 == 0,
        r == 0 <==> levels[pos as int] < decoded_base_spec(kind, pos as int),
        *final(high_range_avg) == next_average_spec(kind, levels[pos as int], pos as int, *old(high_range_avg)),
        *final(high_range_avg) <= *old(high_range_avg) || *final(high_range_avg) <= levels[pos as int],
{
    let level = levels[pos];
    coefficient_high_range_level_proxy_score(level, kind, pos, high_range_avg)
}

/// Bits spent on an adaptive high-range value (delegates to the Golomb-Rice
/// model).
pub fn adaptive_high_range_bits(value: u32, context: u32) -> (r: usize)
    ensures
        r == adaptive_high_range_bits_spec(value as nat, context as nat),
{
    adaptive_high_range_score_bits(value, context)
}

/// The elements that coding one coefficient's high range appends.
pub open spec fn high_range_fields(
    name: Seq<char>,
    kind: Av2CoefficientCodingKind,
    level: u32,
    pos: int,
    average: u32,
) -> Seq<Av2FieldSpec> {
    match high_range_symbol_spec(kind, level, pos, average) {
        Some(s) => seq![literal_spec(name, s.value, adaptive_high_range_bits_spec(s.value as nat, s.context as nat) as nat)],
        None => Seq::empty(),
    }
}

/// A high-range write appends exactly its elements.
pub proof fn lemma_high_range_fields(
    old_w: Av2EntropyWriter,
    new_w: Av2EntropyWriter,
    name: Seq<char>,
    kind: Av2CoefficientCodingKind,
    level: u32,
    pos: int,
    average: u32,
)
    requires
        high_range_written(old_w, new_w, name, kind, level, pos, average),
    ensures
        fields_appended(old_w, new_w, high_range_fields(name, kind, level, pos, average)),
{
    match high_range_symbol_spec(kind, level, pos, average) {
        Some(s) => {
            lemma_fields_appended_one(
                old_w,
                new_w,
                literal_spec(name, s.value, adaptive_high_range_bits_spec(s.value as nat, s.context as nat) as nat),
            );
        },
        None => {
            lemma_fields_appended_none(old_w);
        },
    }
}

/// The rate proxy of a level's high range is exactly 64 times the literal
/// bits that coding it appends, under any field name; both advance the
/// running average to `next_average_spec`.
pub proof fn lemma_high_range_proxy_matches_coding(
    name: Seq<char>,
    kind: Av2CoefficientCodingKind,
    level: u32,
    pos: int,
    average: u32,
)
    ensures
        high_range_level_score_spec(kind, level, pos, average)
            == 64 * total_bits(high_range_fields(name, kind, level, pos, average)),
{
    let fields = high_range_fields(name, kind, level, pos, average);
    match high_range_symbol_spec(kind, level, pos, average) {
        Some(s) => {
            assert(fields.drop_last() =~= Seq::<Av2FieldSpec>::empty());
            assert(total_bits(Seq::<Av2FieldSpec>::empty()) == 0);
            assert(total_bits(fields) == fields.last().4);
        },
        None => {
            assert(total_bits(fields) == 0);
        },
    }
}

} // verus!
