use vstd::prelude::*;
use crate::coefficient_contexts::chroma_br_for;
use crate::coefficient_contexts::chroma_br_spec;
use crate::coefficient_contexts::chroma_nz_map_for;
use crate::coefficient_contexts::chroma_nz_map_spec;
use crate::coefficient_contexts::min_int;
use crate::coefficient_levels::coefficient_levels_and_bounds;
use crate::coefficient_levels::levels_spec;
use crate::coefficient_levels::scan_bounds_spec;
use crate::entropy::Av2EntropyWriter;
use crate::entropy::Av2FieldSpec;
use crate::entropy::fields_appended;
use crate::entropy::lemma_fields_appended_none;
use crate::entropy::lemma_fields_appended_one;
use crate::entropy::lemma_fields_appended_trans;
use crate::entropy::literal_spec;
use crate::entropy::symbol_spec;
use crate::geometry::TX4X4_SCAN;
use crate::geometry::TX4X8_SCAN;
use crate::geometry::TX8X8_SCAN;
use crate::high_range::Av2CoefficientCodingKind;
use crate::high_range::chroma_high_range_name;
use crate::high_range::high_range_fields;
use crate::high_range::lemma_high_range_fields;
use crate::high_range::next_average_spec;
use crate::high_range::write_chroma_high_range;
use crate::idtx_contexts::lossless_entropy_context;
use crate::sample::Av2ChromaPlane;
use crate::txb_eob::AV2_STATIC_CDF_EOB_UV;
use crate::txb_eob::AV2_STATIC_CDF_EOB_UV_TX4X8;
use crate::txb_eob::AV2_STATIC_CDF_EOB_UV_TX8X8;
use crate::txb_eob::eob_fields_spec;
use crate::txb_eob::write_eob_uv;
use crate::txb_eob::write_eob_uv_tx4x8;
use crate::txb_eob::write_eob_uv_tx8x8;
use crate::txb_skip::AV2_STATIC_CDF_TXB_SKIP_U_BASE;
use crate::txb_skip::AV2_STATIC_CDF_TXB_SKIP_U_FSC_BASE;
use crate::txb_skip::AV2_STATIC_CDF_TXB_SKIP_U_INTER_TX8X8_BASE;
use crate::txb_skip::AV2_STATIC_CDF_TXB_SKIP_U_TX8X8_BASE;
use crate::txb_skip::AV2_STATIC_CDF_TXB_SKIP_V_BASE;
use crate::txb_skip::normalize_spec;
use crate::txb_skip::u_skip_names;
use crate::txb_skip::u_tx8x8_skip_names;
use crate::txb_skip::v_skip_names;
use crate::txb_skip::write_u_txb_skip;
use crate::txb_skip::write_u_txb_skip_tx8x8;
use crate::txb_skip::write_v_txb_skip;

verus! {

pub const AV2_STATIC_CDF_COEFF_UV_BASE_LF_EOB_BASE: usize = 260;
pub const AV2_STATIC_CDF_COEFF_UV_BASE_EOB_BASE: usize = 280;
pub const AV2_STATIC_CDF_COEFF_UV_BASE_LF_BASE: usize = 300;
pub const AV2_STATIC_CDF_COEFF_UV_BASE_BASE: usize = 320;
pub const AV2_STATIC_CDF_COEFF_UV_BR_BASE: usize = 340;

/// Transform geometries of chroma blocks.
#[derive(Clone, Copy, Debug, PartialEq, Eq, Structural)]
pub enum Av2ChromaTxbGeometry {
    Tx4x4,
    Tx8x8,
    Tx4x8,
}

pub open spec fn geometry_width(g: Av2ChromaTxbGeometry) -> int {
    match g {
        Av2ChromaTxbGeometry::Tx8x8 => 8,
        _ => 4,
    }
}

pub open spec fn geometry_height(g: Av2ChromaTxbGeometry) -> int {
    match g {
        Av2ChromaTxbGeometry::Tx4x4 => 4,
        _ => 8,
    }
}

pub open spec fn geometry_samples(g: Av2ChromaTxbGeometry) -> int {
    geometry_width(g) * geometry_height(g)
}

/// Coefficient scan order of a geometry.
pub open spec fn geometry_scan(g: Av2ChromaTxbGeometry) -> Seq<usize> {
    match g {
        Av2ChromaTxbGeometry::Tx4x4 => TX4X4_SCAN@,
        Av2ChromaTxbGeometry::Tx8x8 => TX8X8_SCAN@,
        Av2ChromaTxbGeometry::Tx4x8 => TX4X8_SCAN@,
    }
}

/// Names of the base-level, end-of-block base-level and low-range elements
/// of a geometry: `(base_lf_eob, base_eob, base_lf, base, low_range)`.
pub open spec fn chroma_coefficient_names(g: Av2ChromaTxbGeometry) -> (Seq<char>, Seq<char>, Seq<char>, Seq<char>, Seq<char>) {
    match g {
        Av2ChromaTxbGeometry::Tx4x4 => (
            "tile.coeff.uv.base_lf_eob"@,
            "tile.coeff.uv.base_eob"@,
            "tile.coeff.uv.base_lf"@,
            "tile.coeff.uv.base"@,
            "tile.coeff.uv.low_range"@,
        ),
        Av2ChromaTxbGeometry::Tx8x8 => (
            "tile.coeff.uv.base_lf_eob_tx8x8"@,
            "tile.coeff.uv.base_eob_tx8x8"@,
            "tile.coeff.uv.base_lf_tx8x8"@,
            "tile.coeff.uv.base_tx8x8"@,
            "tile.coeff.uv.low_range_tx8x8"@,
        ),
        Av2ChromaTxbGeometry::Tx4x8 => (
            "tile.coeff.uv.base_lf_eob_tx4x8"@,
            "tile.coeff.uv.base_eob_tx4x8"@,
            "tile.coeff.uv.base_lf_tx4x8"@,
            "tile.coeff.uv.base_tx4x8"@,
            "tile.coeff.uv.low_range_tx4x8"@,
        ),
    }
}

/// Field names of a geometry's coefficient elements.
#[derive(Clone, Copy)]
pub struct Av2ChromaCoefficientFields {
    pub base_lf_eob: &'static str,
    pub base_eob: &'static str,
    pub base_lf: &'static str,
    pub base: &'static str,
    pub low_range: &'static str,
}

/// The field names of a geometry.
pub fn chroma_coefficient_fields(g: Av2ChromaTxbGeometry) -> (r: Av2ChromaCoefficientFields)
    ensures
        (r.base_lf_eob@, r.base_eob@, r.base_lf@, r.base@, r.low_range@) == chroma_coefficient_names(g),
{
    match g {
        Av2ChromaTxbGeometry::Tx4x4 => Av2ChromaCoefficientFields {
            base_lf_eob: "tile.coeff.uv.base_lf_eob",
            base_eob: "tile.coeff.uv.base_eob",
            base_lf: "tile.coeff.uv.base_lf",
            base: "tile.coeff.uv.base",
            low_range: "tile.coeff.uv.low_range",
        },
        Av2ChromaTxbGeometry::Tx8x8 => Av2ChromaCoefficientFields {
            base_lf_eob: "tile.coeff.uv.base_lf_eob_tx8x8",
            base_eob: "tile.coeff.uv.base_eob_tx8x8",
            base_lf: "tile.coeff.uv.base_lf_tx8x8",
            base: "tile.coeff.uv.base_tx8x8",
            low_range: "tile.coeff.uv.low_range_tx8x8",
        },
        Av2ChromaTxbGeometry::Tx4x8 => Av2ChromaCoefficientFields {
            base_lf_eob: "tile.coeff.uv.base_lf_eob_tx4x8",
            base_eob: "tile.coeff.uv.base_eob_tx4x8",
            base_lf: "tile.coeff.uv.base_lf_tx4x8",
            base: "tile.coeff.uv.base_tx4x8",
            low_range: "tile.coeff.uv.low_range_tx4x8",
        },
    }
}

/// Name of the sign bit of a DC or AC coefficient.
pub open spec fn chroma_sign_name(g: Av2ChromaTxbGeometry, plane: Av2ChromaPlane, dc: bool) -> Seq<char> {
    match (g, plane, dc) {
        (Av2ChromaTxbGeometry::Tx4x4, Av2ChromaPlane::U, true) => "tile.coeff.u.dc_sign_negative"@,
        (Av2ChromaTxbGeometry::Tx4x4, Av2ChromaPlane::V, true) => "tile.coeff.v.dc_sign_negative"@,
        (Av2ChromaTxbGeometry::Tx4x4, Av2ChromaPlane::U, false) => "tile.coeff.u.ac_sign_negative"@,
        (Av2ChromaTxbGeometry::Tx4x4, Av2ChromaPlane::V, false) => "tile.coeff.v.ac_sign_negative"@,
        (Av2ChromaTxbGeometry::Tx8x8, Av2ChromaPlane::U, true) => "tile.coeff.u.dc_sign_negative_tx8x8"@,
        (Av2ChromaTxbGeometry::Tx8x8, Av2ChromaPlane::V, true) => "tile.coeff.v.dc_sign_negative_tx8x8"@,
        (Av2ChromaTxbGeometry::Tx8x8, Av2ChromaPlane::U, false) => "tile.coeff.u.ac_sign_negative_tx8x8"@,
        (Av2ChromaTxbGeometry::Tx8x8, Av2ChromaPlane::V, false) => "tile.coeff.v.ac_sign_negative_tx8x8"@,
        (Av2ChromaTxbGeometry::Tx4x8, Av2ChromaPlane::U, true) => "tile.coeff.u.dc_sign_negative_tx4x8"@,
        (Av2ChromaTxbGeometry::Tx4x8, Av2ChromaPlane::V, true) => "tile.coeff.v.dc_sign_negative_tx4x8"@,
        (Av2ChromaTxbGeometry::Tx4x8, Av2ChromaPlane::U, false) => "tile.coeff.u.ac_sign_negative_tx4x8"@,
        (Av2ChromaTxbGeometry::Tx4x8, Av2ChromaPlane::V, false) => "tile.coeff.v.ac_sign_negative_tx4x8"@,
    }
}

/// Field name of a sign bit.
pub fn chroma_sign_field(g: Av2ChromaTxbGeometry, plane: Av2ChromaPlane, dc: bool) -> (r: &'static str)
    ensures
        r@ == chroma_sign_name(g, plane, dc),
{
    match (g, plane, dc) {
        (Av2ChromaTxbGeometry::Tx4x4, Av2ChromaPlane::U, true) => "tile.coeff.u.dc_sign_negative",
        (Av2ChromaTxbGeometry::Tx4x4, Av2ChromaPlane::V, true) => "tile.coeff.v.dc_sign_negative",
        (Av2ChromaTxbGeometry::Tx4x4, Av2ChromaPlane::U, false) => "tile.coeff.u.ac_sign_negative",
        (Av2ChromaTxbGeometry::Tx4x4, Av2ChromaPlane::V, false) => "tile.coeff.v.ac_sign_negative",
        (Av2ChromaTxbGeometry::Tx8x8, Av2ChromaPlane::U, true) => "tile.coeff.u.dc_sign_negative_tx8x8",
        (Av2ChromaTxbGeometry::Tx8x8, Av2ChromaPlane::V, true) => "tile.coeff.v.dc_sign_negative_tx8x8",
        (Av2ChromaTxbGeometry::Tx8x8, Av2ChromaPlane::U, false) => "tile.coeff.u.ac_sign_negative_tx8x8",
        (Av2ChromaTxbGeometry::Tx8x8, Av2ChromaPlane::V, false) => "tile.coeff.v.ac_sign_negative_tx8x8",
        (Av2ChromaTxbGeometry::Tx4x8, Av2ChromaPlane::U, true) => "tile.coeff.u.dc_sign_negative_tx4x8",
        (Av2ChromaTxbGeometry::Tx4x8, Av2ChromaPlane::V, true) => "tile.coeff.v.dc_sign_negative_tx4x8",
        (Av2ChromaTxbGeometry::Tx4x8, Av2ChromaPlane::U, false) => "tile.coeff.u.ac_sign_negative_tx4x8",
        (Av2ChromaTxbGeometry::Tx4x8, Av2ChromaPlane::V, false) => "tile.coeff.v.ac_sign_negative_tx4x8",
    }
}

/// The skip flag of a chroma block: U with its geometry's contexts (forward
/// skip for 4x4, inter contexts for the larger geometries), V with its own.
pub open spec fn chroma_skip_fields(
    g: Av2ChromaTxbGeometry,
    plane: Av2ChromaPlane,
    skip_ctx: u8,
    syntax_context: bool,
    all_zero: bool,
) -> Seq<Av2FieldSpec> {
    let (names, key) = match (plane, g) {
        (Av2ChromaPlane::V, _) => (
            v_skip_names(normalize_spec(skip_ctx, 0, 11, 11)),
            AV2_STATIC_CDF_TXB_SKIP_V_BASE + normalize_spec(skip_ctx, 0, 11, 11),
        ),
        (Av2ChromaPlane::U, Av2ChromaTxbGeometry::Tx4x4) => (
            u_skip_names(normalize_spec(skip_ctx, 6, 8, 8), syntax_context),
            (if syntax_context { AV2_STATIC_CDF_TXB_SKIP_U_FSC_BASE } else { AV2_STATIC_CDF_TXB_SKIP_U_BASE })
                + normalize_spec(skip_ctx, 6, 8, 8),
        ),
        (Av2ChromaPlane::U, _) => (
            u_tx8x8_skip_names(normalize_spec(skip_ctx, 6, 8, 8), syntax_context),
            (if syntax_context {
                AV2_STATIC_CDF_TXB_SKIP_U_INTER_TX8X8_BASE
            } else {
                AV2_STATIC_CDF_TXB_SKIP_U_TX8X8_BASE
            }) + normalize_spec(skip_ctx, 6, 8, 8),
        ),
    };
    seq![symbol_spec(if all_zero { names.0 } else { names.1 }, Some(key as usize), if all_zero { 1 } else { 0 })]
}

/// Writes a chroma block's skip flag.
pub fn write_chroma_skip(
    writer: &mut Av2EntropyWriter,
    g: Av2ChromaTxbGeometry,
    plane: Av2ChromaPlane,
    skip_ctx: u8,
    syntax_context: bool,
    all_zero: bool,
)
    ensures
        fields_appended(*old(writer), *final(writer), chroma_skip_fields(g, plane, skip_ctx, syntax_context, all_zero)),
{
    let ghost w0 = *writer;
    match (plane, g) {
        (Av2ChromaPlane::V, _) => write_v_txb_skip(writer, skip_ctx, all_zero),
        (Av2ChromaPlane::U, Av2ChromaTxbGeometry::Tx4x4) => write_u_txb_skip(writer, skip_ctx, syntax_context, all_zero),
        (Av2ChromaPlane::U, _) => write_u_txb_skip_tx8x8(writer, skip_ctx, syntax_context, all_zero),
    }
    proof {
        lemma_fields_appended_one(w0, *writer, chroma_skip_fields(g, plane, skip_ctx, syntax_context, all_zero)[0]);
        assert(seq![chroma_skip_fields(g, plane, skip_ctx, syntax_context, all_zero)[0]] =~= chroma_skip_fields(
            g,
            plane,
            skip_ctx,
            syntax_context,
            all_zero,
        ));
    }
}

/// The end of block of a chroma block in its geometry's elements.
pub open spec fn chroma_eob_fields(g: Av2ChromaTxbGeometry, eob: int) -> Seq<Av2FieldSpec> {
    match g {
        Av2ChromaTxbGeometry::Tx4x4 => eob_fields_spec("tile.coeff.uv.eob_pt_tx4x4"@, AV2_STATIC_CDF_EOB_UV, "tile.coeff.uv.eob_extra"@, eob),
        Av2ChromaTxbGeometry::Tx8x8 => eob_fields_spec(
            "tile.coeff.uv.eob_pt_tx8x8"@,
            AV2_STATIC_CDF_EOB_UV_TX8X8,
            "tile.coeff.uv.eob_extra_tx8x8"@,
            eob,
        ),
        Av2ChromaTxbGeometry::Tx4x8 => eob_fields_spec(
            "tile.coeff.uv.eob_pt_tx4x8"@,
            AV2_STATIC_CDF_EOB_UV_TX4X8,
            "tile.coeff.uv.eob_extra_tx4x8"@,
            eob,
        ),
    }
}

/// Writes a chroma block's end of block.
pub fn write_chroma_eob(writer: &mut Av2EntropyWriter, g: Av2ChromaTxbGeometry, eob: usize)
    requires
        1 <= eob <= geometry_samples(g),
    ensures
        fields_appended(*old(writer), *final(writer), chroma_eob_fields(g, eob as int)),
{
    match g {
        Av2ChromaTxbGeometry::Tx4x4 => write_eob_uv(writer, eob),
        Av2ChromaTxbGeometry::Tx8x8 => write_eob_uv_tx8x8(writer, eob),
        Av2ChromaTxbGeometry::Tx4x8 => write_eob_uv_tx4x8(writer, eob),
    }
}

/// The base-level elements of one chroma coefficient: the end-of-block
/// coefficient codes `level - 1` (at least 1), the others `level`; the DC
/// position saturates at 5 with no low range, the others at 3 followed by
/// a low-range symbol above 2.
pub open spec fn chroma_level_fields(
    g: Av2ChromaTxbGeometry,
    levels: Seq<u32>,
    pos: int,
    is_eob: bool,
    coeff_ctx: int,
    level: u32,
) -> Seq<Av2FieldSpec> {
    let names = chroma_coefficient_names(g);
    let low = seq![symbol_spec(
        names.4,
        Some((AV2_STATIC_CDF_COEFF_UV_BR_BASE + chroma_br_spec(levels, geometry_width(g), geometry_height(g), pos)) as usize),
        min_int(level - 3, 3) as usize,
    )];
    if is_eob {
        if pos == 0 {
            seq![symbol_spec(names.0, Some((AV2_STATIC_CDF_COEFF_UV_BASE_LF_EOB_BASE + coeff_ctx) as usize), (min_int(level as int, 5) - 1) as usize)]
        } else {
            seq![symbol_spec(names.1, Some((AV2_STATIC_CDF_COEFF_UV_BASE_EOB_BASE + coeff_ctx) as usize), (min_int(level as int, 3) - 1) as usize)]
                + if level > 2 { low } else { Seq::empty() }
        }
    } else if pos == 0 {
        seq![symbol_spec(names.2, Some((AV2_STATIC_CDF_COEFF_UV_BASE_LF_BASE + coeff_ctx) as usize), min_int(level as int, 5) as usize)]
    } else {
        seq![symbol_spec(names.3, Some((AV2_STATIC_CDF_COEFF_UV_BASE_BASE + coeff_ctx) as usize), min_int(level as int, 3) as usize)]
            + if level > 2 { low } else { Seq::empty() }
    }
}

/// Writes the low-range symbol `field_name` of a chroma coefficient: its
/// level above the base range, capped at 3, in the base-range context of its
/// neighbours.
pub fn write_chroma_low_range<const SAMPLES: usize>(
    writer: &mut Av2EntropyWriter,
    g: Av2ChromaTxbGeometry,
    levels: &[u32; SAMPLES],
    pos: usize,
    base_range: u32,
    field_name: &str,
)
    requires
        SAMPLES == geometry_samples(g),
        pos < SAMPLES,
    ensures
        fields_appended(
            *old(writer),
            *final(writer),
            seq![symbol_spec(
                field_name@,
                Some((AV2_STATIC_CDF_COEFF_UV_BR_BASE + chroma_br_spec(levels@, geometry_width(g), geometry_height(g), pos as int)) as usize),
                min_int(base_range as int, 3) as usize,
            )],
        ),
{
    let (width, height): (usize, usize) = match g {
        Av2ChromaTxbGeometry::Tx4x4 => (4, 4),
        Av2ChromaTxbGeometry::Tx8x8 => (8, 8),
        Av2ChromaTxbGeometry::Tx4x8 => (4, 8),
    };
    let br_ctx = chroma_br_for(levels, width, height, pos);
    let capped: usize = if base_range < 3 { base_range as usize } else { 3 };
    let ghost w0 = *writer;
    writer.write_symbol_with_static_cdf_key(field_name, AV2_STATIC_CDF_COEFF_UV_BR_BASE + br_ctx, capped);
    proof {
        lemma_fields_appended_one(w0, *writer, symbol_spec(field_name@, Some((AV2_STATIC_CDF_COEFF_UV_BR_BASE + br_ctx) as usize), capped));
    }
}

/// Writes one chroma coefficient's base-level elements.
pub fn write_chroma_coefficient_level<const SAMPLES: usize>(
    writer: &mut Av2EntropyWriter,
    g: Av2ChromaTxbGeometry,
    levels: &[u32; SAMPLES],
    pos: usize,
    is_eob_coefficient: bool,
    coeff_ctx: usize,
    level: u32,
)
    requires
        SAMPLES == geometry_samples(g),
        pos < SAMPLES,
        coeff_ctx <= 64,
        is_eob_coefficient ==> level > 0,
    ensures
        fields_appended(*old(writer), *final(writer), chroma_level_fields(g, levels@, pos as int, is_eob_coefficient, coeff_ctx as int, level)),
{
    let fields = chroma_coefficient_fields(g);
    let ghost w0 = *writer;
    let ghost names = chroma_coefficient_names(g);
    let capped5: usize = if level < 5 { level as usize } else { 5 };
    let capped3: usize = if level < 3 { level as usize } else { 3 };
    let mut low_needed = false;
    let ghost mut first: Av2FieldSpec = symbol_spec(names.0, None, 0);
    if is_eob_coefficient {
        if pos == 0 {
            writer.write_symbol_with_static_cdf_key(fields.base_lf_eob, AV2_STATIC_CDF_COEFF_UV_BASE_LF_EOB_BASE + coeff_ctx, capped5 - 1);
            proof {
                first = symbol_spec(names.0, Some((AV2_STATIC_CDF_COEFF_UV_BASE_LF_EOB_BASE + coeff_ctx) as usize), (capped5 - 1) as usize);
            }
        } else {
            writer.write_symbol_with_static_cdf_key(fields.base_eob, AV2_STATIC_CDF_COEFF_UV_BASE_EOB_BASE + coeff_ctx, capped3 - 1);
            proof {
                first = symbol_spec(names.1, Some((AV2_STATIC_CDF_COEFF_UV_BASE_EOB_BASE + coeff_ctx) as usize), (capped3 - 1) as usize);
            }
            low_needed = level > 2;
        }
    } else if pos == 0 {
        writer.write_symbol_with_static_cdf_key(fields.base_lf, AV2_STATIC_CDF_COEFF_UV_BASE_LF_BASE + coeff_ctx, capped5);
        proof {
            first = symbol_spec(names.2, Some((AV2_STATIC_CDF_COEFF_UV_BASE_LF_BASE + coeff_ctx) as usize), capped5);
        }
    } else {
        writer.write_symbol_with_static_cdf_key(fields.base, AV2_STATIC_CDF_COEFF_UV_BASE_BASE + coeff_ctx, capped3);
        proof {
            first = symbol_spec(names.3, Some((AV2_STATIC_CDF_COEFF_UV_BASE_BASE + coeff_ctx) as usize), capped3);
        }
        low_needed = level > 2;
    }
    let ghost w1 = *writer;
    proof {
        lemma_fields_appended_one(w0, w1, first);
    }
    if low_needed {
        write_chroma_low_range(writer, g, levels, pos, level - 3, fields.low_range);
        proof {
            let low = symbol_spec(
                names.4,
                Some((AV2_STATIC_CDF_COEFF_UV_BR_BASE + chroma_br_spec(levels@, geometry_width(g), geometry_height(g), pos as int)) as usize),
                min_int(level - 3, 3) as usize,
            );
            lemma_fields_appended_trans(w0, w1, *writer, seq![first], seq![low]);
            assert(seq![first] + seq![low] =~= chroma_level_fields(g, levels@, pos as int, is_eob_coefficient, coeff_ctx as int, level));
        }
    } else {
        proof {
            assert(seq![first] =~= chroma_level_fields(g, levels@, pos as int, is_eob_coefficient, coeff_ctx as int, level));
        }
    }
}

/// One past the last nonzero level among the first `n` scan positions, or 0
/// when they are all zero.
pub open spec fn scan_eob_spec(levels: Seq<u32>, scan: Seq<usize>, n: int) -> int
    decreases n,
{
    if n <= 0 {
        0
    } else if levels[scan[n - 1] as int] != 0 {
        n
    } else {
        scan_eob_spec(levels, scan, n - 1)
    }
}

proof fn lemma_scan_eob_is(levels: Seq<u32>, scan: Seq<usize>, eob: int, n: int)
    requires
        0 <= eob <= n,
        eob > 0 ==> levels[scan[eob - 1] as int] != 0,
        forall|i: int| eob <= i < n ==> levels[scan[i] as int] == 0,
    ensures
        scan_eob_spec(levels, scan, n) == eob,
    decreases n,
{
    if n > eob {
        lemma_scan_eob_is(levels, scan, eob, n - 1);
    }
}

/// The scan bounds found for a block give its end of block.
pub proof fn lemma_scan_eob_of_bounds(levels: Seq<u32>, scan: Seq<usize>, bounds: Option<(usize, usize)>)
    requires
        scan_bounds_spec(levels, scan, bounds),
    ensures
        scan_eob_spec(levels, scan, scan.len() as int) == match bounds {
            Some((_, eob)) => eob as int,
            None => 0,
        },
{
    match bounds {
        Some((_, eob)) => lemma_scan_eob_is(levels, scan, eob as int, scan.len() as int),
        None => lemma_scan_eob_is(levels, scan, 0, scan.len() as int),
    }
}

/// Sum of the levels at scan positions `lo` to `hi - 1`.
pub open spec fn level_sum_from(levels: Seq<u32>, scan: Seq<usize>, lo: int, hi: int) -> int
    decreases hi - lo,
{
    if lo >= hi {
        0
    } else {
        levels[scan[lo] as int] + level_sum_from(levels, scan, lo + 1, hi)
    }
}

pub proof fn lemma_level_sum_split(levels: Seq<u32>, scan: Seq<usize>, lo: int, mid: int, hi: int)
    requires
        lo <= mid <= hi,
    ensures
        level_sum_from(levels, scan, lo, hi) == level_sum_from(levels, scan, lo, mid) + level_sum_from(levels, scan, mid, hi),
        level_sum_from(levels, scan, lo, mid) >= 0,
        level_sum_from(levels, scan, mid, hi) >= 0,
    decreases mid - lo,
{
    lemma_level_sum_nonneg(levels, scan, mid, hi);
    if lo < mid {
        lemma_level_sum_split(levels, scan, lo + 1, mid, hi);
    }
}

pub proof fn lemma_level_sum_nonneg(levels: Seq<u32>, scan: Seq<usize>, lo: int, hi: int)
    ensures
        level_sum_from(levels, scan, lo, hi) >= 0,
    decreases hi - lo,
{
    if lo < hi {
        lemma_level_sum_nonneg(levels, scan, lo + 1, hi);
    }
}

/// The base-level elements of scan positions `hi - 1` down to 0.
pub open spec fn chroma_levels_desc(
    g: Av2ChromaTxbGeometry,
    plane: Av2ChromaPlane,
    levels: Seq<u32>,
    eob: int,
    hi: int,
) -> Seq<Av2FieldSpec>
    decreases hi,
{
    if hi <= 0 {
        Seq::empty()
    } else {
        let si = hi - 1;
        let pos = geometry_scan(g)[si] as int;
        let is_eob = si + 1 == eob;
        let ctx = chroma_nz_map_spec(levels, geometry_width(g), geometry_height(g), pos, si, is_eob, plane);
        chroma_level_fields(g, levels, pos, is_eob, ctx, levels[pos]) + chroma_levels_desc(g, plane, levels, eob, hi - 1)
    }
}

/// Sign bits and high ranges of the nonzero coefficients at scan positions
/// `hi - 1` down to 0, with the running high-range average `average`.
pub open spec fn chroma_signs_desc(
    g: Av2ChromaTxbGeometry,
    plane: Av2ChromaPlane,
    coefficients: Seq<i32>,
    levels: Seq<u32>,
    hi: int,
    average: u32,
) -> Seq<Av2FieldSpec>
    decreases hi,
{
    if hi <= 0 {
        Seq::empty()
    } else {
        let si = hi - 1;
        let pos = geometry_scan(g)[si] as int;
        let level = levels[pos];
        if level == 0 {
            chroma_signs_desc(g, plane, coefficients, levels, hi - 1, average)
        } else {
            seq![literal_spec(chroma_sign_name(g, plane, si == 0), if coefficients[pos] < 0 { 1u32 } else { 0u32 }, 1)]
                + high_range_fields(chroma_high_range_name(plane), Av2CoefficientCodingKind::ChromaTransform, level, pos, average)
                + chroma_signs_desc(
                g,
                plane,
                coefficients,
                levels,
                hi - 1,
                next_average_spec(Av2CoefficientCodingKind::ChromaTransform, level, pos, average),
            )
        }
    }
}

/// Signed DC level: the DC level with its coefficient's sign, or 0.
pub open spec fn dc_value_spec(coefficients: Seq<i32>, levels: Seq<u32>) -> int {
    if levels[0] == 0 {
        0
    } else if coefficients[0] < 0 {
        -(levels[0] as int)
    } else {
        levels[0] as int
    }
}

/// Entropy context a coded block leaves for its neighbours: its level sum
/// capped at 7, plus 8 for a negative and 16 for a positive DC.
pub open spec fn entropy_context_spec(cul_level: int, dc_val: int) -> int {
    min_int(cul_level, 7) + (if dc_val < 0 { 8int } else if dc_val > 0 { 16int } else { 0int })
}

/// Writes the sign bits and high ranges of a block's nonzero coefficients
/// from the end of block down to the DC, and returns the level sum and the
/// signed DC level.
pub fn write_chroma_signs_and_high_range<const SAMPLES: usize>(
    writer: &mut Av2EntropyWriter,
    g: Av2ChromaTxbGeometry,
    plane: Av2ChromaPlane,
    coefficients: &[i32; SAMPLES],
    levels: &[u32; SAMPLES],
    scan: &[usize; SAMPLES],
    eob: usize,
) -> (r: (u32, i32))
    requires
        SAMPLES == geometry_samples(g),
        scan@ == geometry_scan(g),
        forall|i: int| 0 <= i < SAMPLES ==> scan[i] < SAMPLES,
        scan[0] == 0,
        1 <= eob <= SAMPLES,
        forall|i: int| 0 <= i < SAMPLES ==> levels[i] <= 0x1000_0000,
        level_sum_from(levels@, scan@, 0, eob as int) <= u32::MAX,
    ensures
        fields_appended(*old(writer), *final(writer), chroma_signs_desc(g, plane, coefficients@, levels@, eob as int, 0)),
        r.0 == level_sum_from(levels@, scan@, 0, eob as int),
        r.1 == dc_value_spec(coefficients@, levels@),
{
    let ghost w0 = *writer;
    let ghost total = chroma_signs_desc(g, plane, coefficients@, levels@, eob as int, 0);
    let ghost mut prefix: Seq<Av2FieldSpec> = Seq::empty();
    let mut cul_level: u32 = 0;
    let mut dc_val: i32 = 0;
    let mut hr_level_avg: u32 = 0;
    let mut hi = eob;
    proof {
        lemma_fields_appended_none(w0);
        assert(prefix + chroma_signs_desc(g, plane, coefficients@, levels@, hi as int, hr_level_avg) =~= total);
    }
    while hi > 0
        invariant
            SAMPLES == geometry_samples(g),
            scan@ == geometry_scan(g),
            forall|i: int| 0 <= i < SAMPLES ==> scan[i] < SAMPLES,
            scan[0] == 0,
            hi <= eob <= SAMPLES,
            forall|i: int| 0 <= i < SAMPLES ==> levels[i] <= 0x1000_0000,
            level_sum_from(levels@, scan@, 0, eob as int) <= u32::MAX,
            fields_appended(w0, *writer, prefix),
            prefix + chroma_signs_desc(g, plane, coefficients@, levels@, hi as int, hr_level_avg) == total,
            total == chroma_signs_desc(g, plane, coefficients@, levels@, eob as int, 0),
            cul_level == level_sum_from(levels@, scan@, hi as int, eob as int),
            hr_level_avg <= 0x7fff_ffff,
            hi > 0 ==> dc_val == 0,
            hi == 0 ==> dc_val == dc_value_spec(coefficients@, levels@),
        decreases hi,
    {
        let scan_index = hi - 1;
        let pos = scan[scan_index];
        let level = levels[pos];
        proof {
            lemma_level_sum_split(levels@, scan@, 0, scan_index as int, eob as int);
        }
        if level != 0 {
            let negative = coefficients[pos] < 0;
            let ghost w1 = *writer;
            let ghost avg0 = hr_level_avg;
            let name = chroma_sign_field(g, plane, scan_index == 0);
            writer.write_literal_bit(name, negative);
            let ghost w2 = *writer;
            write_chroma_high_range(writer, plane, pos, level, &mut hr_level_avg);
            if scan_index == 0 {
                dc_val = if negative { -(level as i32) } else { level as i32 };
            }
            cul_level = cul_level + level;
            proof {
                let sign = literal_spec(chroma_sign_name(g, plane, scan_index == 0), if negative { 1u32 } else { 0u32 }, 1);
                let hr = high_range_fields(chroma_high_range_name(plane), Av2CoefficientCodingKind::ChromaTransform, level, pos as int, avg0);
                lemma_fields_appended_one(w1, w2, sign);
                lemma_high_range_fields(w2, *writer, chroma_high_range_name(plane), Av2CoefficientCodingKind::ChromaTransform, level, pos as int, avg0);
                lemma_fields_appended_trans(w1, w2, *writer, seq![sign], hr);
                lemma_fields_appended_trans(w0, w1, *writer, prefix, seq![sign] + hr);
                assert(prefix + (seq![sign] + hr) + chroma_signs_desc(g, plane, coefficients@, levels@, scan_index as int, hr_level_avg) =~= total);
                prefix = prefix + (seq![sign] + hr);
            }
        } else {
            proof {
                assert(chroma_signs_desc(g, plane, coefficients@, levels@, hi as int, hr_level_avg) == chroma_signs_desc(
                    g,
                    plane,
                    coefficients@,
                    levels@,
                    scan_index as int,
                    hr_level_avg,
                ));
            }
        }
        hi = scan_index;
    }
    (cul_level, dc_val)
}

/// Every element of a chroma block: the skip flag; for a block with nonzero
/// levels also the end of block, the base levels from the end of block down
/// to the DC, and the signs and high ranges in the same order.
pub open spec fn chroma_txb_fields(
    g: Av2ChromaTxbGeometry,
    plane: Av2ChromaPlane,
    skip_ctx: u8,
    syntax_context: bool,
    coefficients: Seq<i32>,
) -> Seq<Av2FieldSpec> {
    let levels = levels_spec(coefficients);
    let eob = scan_eob_spec(levels, geometry_scan(g), geometry_samples(g));
    if eob == 0 {
        chroma_skip_fields(g, plane, skip_ctx, syntax_context, true)
    } else {
        chroma_skip_fields(g, plane, skip_ctx, syntax_context, false) + chroma_eob_fields(g, eob)
            + chroma_levels_desc(g, plane, levels, eob, eob) + chroma_signs_desc(g, plane, coefficients, levels, eob, 0)
    }
}

/// Entropy context and coded flag a chroma block leaves: `(0, false)` when
/// all its levels are zero.
pub open spec fn chroma_txb_result(g: Av2ChromaTxbGeometry, coefficients: Seq<i32>) -> (int, bool) {
    let levels = levels_spec(coefficients);
    let eob = scan_eob_spec(levels, geometry_scan(g), geometry_samples(g));
    if eob == 0 {
        (0, false)
    } else {
        (entropy_context_spec(level_sum_from(levels, geometry_scan(g), 0, eob), dc_value_spec(coefficients, levels)), true)
    }
}

/// Codes a chroma block of the given geometry.
fn write_chroma_txb_with<const SAMPLES: usize>(
    writer: &mut Av2EntropyWriter,
    g: Av2ChromaTxbGeometry,
    scan: &[usize; SAMPLES],
    plane: Av2ChromaPlane,
    skip_ctx: u8,
    coefficients: &[i32; SAMPLES],
    syntax_context: bool,
) -> (r: (u8, bool))
    requires
        SAMPLES == geometry_samples(g),
        scan@ == geometry_scan(g),
        forall|i: int| 0 <= i < SAMPLES ==> scan[i] < SAMPLES,
        scan[0] == 0,
        level_sum_from(levels_spec(coefficients@), geometry_scan(g), 0, SAMPLES as int) <= u32::MAX,
    ensures
        fields_appended(*old(writer), *final(writer), chroma_txb_fields(g, plane, skip_ctx, syntax_context, coefficients@)),
        (r.0 as int, r.1) == chroma_txb_result(g, coefficients@),
{
    let (levels, bounds) = coefficient_levels_and_bounds(coefficients, scan);
    proof {
        lemma_scan_eob_of_bounds(levels@, scan@, bounds);
    }
    let ghost w0 = *writer;
    let eob = match bounds {
        None => {
            write_chroma_skip(writer, g, plane, skip_ctx, syntax_context, true);
            return (0, false);
        },
        Some((_, eob)) => eob,
    };
    write_chroma_skip(writer, g, plane, skip_ctx, syntax_context, false);
    let ghost w1 = *writer;
    write_chroma_eob(writer, g, eob);
    let ghost w2 = *writer;
    let (width, height): (usize, usize) = match g {
        Av2ChromaTxbGeometry::Tx4x4 => (4, 4),
        Av2ChromaTxbGeometry::Tx8x8 => (8, 8),
        Av2ChromaTxbGeometry::Tx4x8 => (4, 8),
    };
    let ghost levels_total = chroma_levels_desc(g, plane, levels@, eob as int, eob as int);
    let ghost mut prefix: Seq<Av2FieldSpec> = Seq::empty();
    proof {
        lemma_fields_appended_none(w2);
        assert(prefix + chroma_levels_desc(g, plane, levels@, eob as int, eob as int) =~= levels_total);
    }
    let mut hi = eob;
    while hi > 0
        invariant
            SAMPLES == geometry_samples(g),
            scan@ == geometry_scan(g),
            forall|i: int| 0 <= i < SAMPLES ==> scan[i] < SAMPLES,
            width == geometry_width(g),
            height == geometry_height(g),
            hi <= eob <= SAMPLES,
            levels[scan[eob - 1] as int] != 0,
            fields_appended(w2, *writer, prefix),
            prefix + chroma_levels_desc(g, plane, levels@, eob as int, hi as int) == levels_total,
            levels_total == chroma_levels_desc(g, plane, levels@, eob as int, eob as int),
        decreases hi,
    {
        let scan_index = hi - 1;
        let pos = scan[scan_index];
        let level = levels[pos];
        let is_eob_coefficient = scan_index + 1 == eob;
        let coeff_ctx = chroma_nz_map_for(&levels, width, height, pos, scan_index, is_eob_coefficient, plane);
        let ghost w3 = *writer;
        write_chroma_coefficient_level(writer, g, &levels, pos, is_eob_coefficient, coeff_ctx, level);
        proof {
            let f = chroma_level_fields(g, levels@, pos as int, is_eob_coefficient, coeff_ctx as int, level);
            lemma_fields_appended_trans(w2, w3, *writer, prefix, f);
            assert(prefix + f + chroma_levels_desc(g, plane, levels@, eob as int, scan_index as int) =~= levels_total);
            prefix = prefix + f;
        }
        hi = scan_index;
    }
    let ghost w4 = *writer;
    proof {
        lemma_level_sum_split(levels@, scan@, 0, eob as int, SAMPLES as int);
    }
    let (cul_level, dc_val) = write_chroma_signs_and_high_range(writer, g, plane, coefficients, &levels, scan, eob);
    proof {
        lemma_fields_appended_trans(w0, w1, w2, chroma_skip_fields(g, plane, skip_ctx, syntax_context, false), chroma_eob_fields(g, eob as int));
        lemma_fields_appended_trans(
            w0,
            w2,
            w4,
            chroma_skip_fields(g, plane, skip_ctx, syntax_context, false) + chroma_eob_fields(g, eob as int),
            levels_total,
        );
        lemma_fields_appended_trans(
            w0,
            w4,
            *writer,
            chroma_skip_fields(g, plane, skip_ctx, syntax_context, false) + chroma_eob_fields(g, eob as int) + levels_total,
            chroma_signs_desc(g, plane, coefficients@, levels@, eob as int, 0),
        );
    }
    (lossless_entropy_context(cul_level, dc_val), true)
}

/// Codes a 4x4 chroma block (BDPCM or Walsh-Hadamard residual); the U skip
/// flag uses the forward-skip contexts under `use_fsc`.
pub fn write_chroma_bdpcm_txb(
    writer: &mut Av2EntropyWriter,
    plane: Av2ChromaPlane,
    skip_ctx: u8,
    coefficients: &[i32; 16],
    use_fsc: bool,
) -> (r: (u8, bool))
    requires
        level_sum_from(levels_spec(coefficients@), TX4X4_SCAN@, 0, 16) <= u32::MAX,
    ensures
        fields_appended(*old(writer), *final(writer), chroma_txb_fields(Av2ChromaTxbGeometry::Tx4x4, plane, skip_ctx, use_fsc, coefficients@)),
        (r.0 as int, r.1) == chroma_txb_result(Av2ChromaTxbGeometry::Tx4x4, coefficients@),
{
    proof {
        assert(forall|i: int| 0 <= i < 16 ==> TX4X4_SCAN[i] < 16);
    }
    write_chroma_txb_with(writer, Av2ChromaTxbGeometry::Tx4x4, &TX4X4_SCAN, plane, skip_ctx, coefficients, use_fsc)
}

/// Codes an 8x8 chroma block; the U skip flag uses the inter contexts under
/// `use_inter_contexts`.
pub fn write_chroma_tx8x8_txb(
    writer: &mut Av2EntropyWriter,
    plane: Av2ChromaPlane,
    skip_ctx: u8,
    coefficients: &[i32; 64],
    use_inter_contexts: bool,
) -> (r: (u8, bool))
    requires
        level_sum_from(levels_spec(coefficients@), TX8X8_SCAN@, 0, 64) <= u32::MAX,
    ensures
        fields_appended(*old(writer), *final(writer), chroma_txb_fields(Av2ChromaTxbGeometry::Tx8x8, plane, skip_ctx, use_inter_contexts, coefficients@)),
        (r.0 as int, r.1) == chroma_txb_result(Av2ChromaTxbGeometry::Tx8x8, coefficients@),
{
    proof {
        assert(forall|i: int| 0 <= i < 64 ==> TX8X8_SCAN[i] < 64);
    }
    write_chroma_txb_with(writer, Av2ChromaTxbGeometry::Tx8x8, &TX8X8_SCAN, plane, skip_ctx, coefficients, use_inter_contexts)
}

/// Codes a 4x8 chroma block; the U skip flag uses the inter contexts under
/// `use_inter_contexts`.
pub fn write_chroma_tx4x8_txb(
    writer: &mut Av2EntropyWriter,
    plane: Av2ChromaPlane,
    skip_ctx: u8,
    coefficients: &[i32; 32],
    use_inter_contexts: bool,
) -> (r: (u8, bool))
    requires
        level_sum_from(levels_spec(coefficients@), TX4X8_SCAN@, 0, 32) <= u32::MAX,
    ensures
        fields_appended(*old(writer), *final(writer), chroma_txb_fields(Av2ChromaTxbGeometry::Tx4x8, plane, skip_ctx, use_inter_contexts, coefficients@)),
        (r.0 as int, r.1) == chroma_txb_result(Av2ChromaTxbGeometry::Tx4x8, coefficients@),
{
    proof {
        assert(forall|i: int| 0 <= i < 32 ==> TX4X8_SCAN[i] < 32);
    }
    write_chroma_txb_with(writer, Av2ChromaTxbGeometry::Tx4x8, &TX4X8_SCAN, plane, skip_ctx, coefficients, use_inter_contexts)
}

} // verus!
