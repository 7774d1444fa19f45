use vstd::prelude::*;
use crate::coefficient_contexts::luma_br_context;
use crate::coefficient_contexts::luma_br_spec;
use crate::coefficient_contexts::luma_lf_limits;
use crate::coefficient_contexts::luma_lf_spec;
use crate::coefficient_contexts::luma_nz_map_context;
use crate::coefficient_contexts::luma_nz_map_spec;
use crate::coefficient_contexts::min_int;
use crate::coefficient_levels::levels_spec;
use crate::coefficient_levels::lossless_coefficient_levels_and_bounds;
use crate::entropy::Av2EntropyWriter;
use crate::entropy::Av2FieldSpec;
use crate::entropy::fields_appended;
use crate::entropy::lemma_fields_appended_none;
use crate::entropy::lemma_fields_appended_one;
use crate::entropy::lemma_fields_appended_trans;
use crate::entropy::literal_spec;
use crate::entropy::symbol_spec;
use crate::geometry::TX4X4_SCAN;
use crate::high_range::Av2CoefficientCodingKind;
use crate::high_range::high_range_fields;
use crate::high_range::lemma_high_range_fields;
use crate::high_range::next_average_spec;
use crate::high_range::write_luma_high_range;
use crate::idtx_contexts::lossless_entropy_context;
use crate::txb_chroma::dc_value_spec;
use crate::txb_chroma::entropy_context_spec;
use crate::txb_chroma::lemma_level_sum_split;
use crate::txb_chroma::lemma_scan_eob_of_bounds;
use crate::txb_chroma::level_sum_from;
use crate::txb_chroma::scan_eob_spec;
use crate::txb_eob::AV2_STATIC_CDF_EOB_Y;
use crate::txb_eob::AV2_STATIC_CDF_EOB_Y_INTER;
use crate::txb_eob::AV2_STATIC_CDF_INTER_EXT_TX_DCT_IDTX_4X4_BASE;
use crate::txb_eob::eob_fields_spec;
use crate::txb_eob::write_eob_y;
use crate::txb_eob::write_eob_y_inter;
use crate::txb_eob::write_regular_inter_dct_dct_tx_type;
use crate::txb_skip::AV2_STATIC_CDF_TXB_SKIP_Y_BASE;
use crate::txb_skip::AV2_STATIC_CDF_TXB_SKIP_Y_INTER_BASE;
use crate::txb_skip::normalize_spec;
use crate::txb_skip::write_y_inter_txb_skip;
use crate::txb_skip::write_y_txb_skip;
use crate::txb_skip::y_inter_skip_names;
use crate::txb_skip::y_skip_names;
use crate::txb_skip::y_fsc_skip_names;
use crate::txb_skip::write_y_fsc_txb_skip;
use crate::txb_skip::AV2_STATIC_CDF_TXB_SKIP_Y_FSC_BASE;
use crate::high_range::write_idtx_high_range;

verus! {

pub const AV2_STATIC_CDF_COEFF_Y_BASE_LF_EOB_BASE: usize = 110;
pub const AV2_STATIC_CDF_COEFF_Y_BASE_EOB_BASE: usize = 130;
pub const AV2_STATIC_CDF_COEFF_Y_BASE_LF_BASE: usize = 160;
pub const AV2_STATIC_CDF_COEFF_Y_BASE_BASE: usize = 190;
pub const AV2_STATIC_CDF_COEFF_Y_BR_LF_BASE: usize = 220;
pub const AV2_STATIC_CDF_COEFF_Y_BR_BASE: usize = 240;
pub const AV2_STATIC_CDF_COEFF_Y_DC_SIGN_BASE: usize = 370;

/// Whether a luma block is coded with the intra or the inter syntax.
#[derive(Clone, Copy, Debug, PartialEq, Eq, Structural)]
pub enum Av2LumaTxbSyntaxPolicy {
    Intra,
    Inter,
}

/// The skip flag of a luma block under a policy.
pub open spec fn luma_skip_fields(policy: Av2LumaTxbSyntaxPolicy, skip_ctx: u8, all_zero: bool) -> Seq<Av2FieldSpec> {
    let ctx = normalize_spec(skip_ctx, 1, 5, 5);
    let (names, key) = match policy {
        Av2LumaTxbSyntaxPolicy::Intra => (y_skip_names(ctx), AV2_STATIC_CDF_TXB_SKIP_Y_BASE + ctx),
        Av2LumaTxbSyntaxPolicy::Inter => (y_inter_skip_names(ctx), AV2_STATIC_CDF_TXB_SKIP_Y_INTER_BASE + ctx),
    };
    seq![symbol_spec(if all_zero { names.0 } else { names.1 }, Some(key as usize), if all_zero { 1 } else { 0 })]
}

/// The end of block of a luma block, followed under the inter policy by its
/// transform type.
pub open spec fn luma_eob_fields(policy: Av2LumaTxbSyntaxPolicy, eob: int) -> Seq<Av2FieldSpec> {
    match policy {
        Av2LumaTxbSyntaxPolicy::Intra => eob_fields_spec("tile.coeff.y.eob_pt_tx4x4"@, AV2_STATIC_CDF_EOB_Y, "tile.coeff.y.eob_extra"@, eob),
        Av2LumaTxbSyntaxPolicy::Inter => {
            let last = eob - 1;
            let diag = last % 4 + last / 4;
            let ctx: int = if diag < 2 { 1 } else if diag > 4 { 2 } else { 0 };
            eob_fields_spec("tile.coeff.y.inter_eob_pt_tx4x4"@, AV2_STATIC_CDF_EOB_Y_INTER, "tile.coeff.y.inter_eob_extra"@, eob)
                + seq![symbol_spec("tile.tx_type.inter_reduced_dct_dct"@, Some((AV2_STATIC_CDF_INTER_EXT_TX_DCT_IDTX_4X4_BASE + ctx) as usize), 1)]
        },
    }
}

impl Av2LumaTxbSyntaxPolicy {
    /// Writes the skip flag.
    pub fn write_skip(self, writer: &mut Av2EntropyWriter, skip_ctx: u8, all_zero: bool)
        ensures
            fields_appended(*old(writer), *final(writer), luma_skip_fields(self, skip_ctx, all_zero)),
    {
        let ghost w0 = *writer;
        match self {
            Av2LumaTxbSyntaxPolicy::Intra => write_y_txb_skip(writer, skip_ctx, all_zero),
            Av2LumaTxbSyntaxPolicy::Inter => write_y_inter_txb_skip(writer, skip_ctx, all_zero),
        }
        proof {
            lemma_fields_appended_one(w0, *writer, luma_skip_fields(self, skip_ctx, all_zero)[0]);
            assert(seq![luma_skip_fields(self, skip_ctx, all_zero)[0]] =~= luma_skip_fields(self, skip_ctx, all_zero));
        }
    }

    /// Writes the end of block and, under the inter policy, the transform
    /// type.
    pub fn write_eob_and_tx_type(self, writer: &mut Av2EntropyWriter, eob: usize)
        requires
            1 <= eob <= 16,
        ensures
            fields_appended(*old(writer), *final(writer), luma_eob_fields(self, eob as int)),
    {
        match self {
            Av2LumaTxbSyntaxPolicy::Intra => write_eob_y(writer, eob),
            Av2LumaTxbSyntaxPolicy::Inter => {
                let ghost w0 = *writer;
                write_eob_y_inter(writer, eob);
                let ghost w1 = *writer;
                write_regular_inter_dct_dct_tx_type(writer, eob);
                proof {
                    let last = eob - 1;
                    let diag = last % 4 + last / 4;
                    let ctx: int = if diag < 2 { 1 } else if diag > 4 { 2 } else { 0 };
                    lemma_fields_appended_trans(
                        w0,
                        w1,
                        *writer,
                        eob_fields_spec("tile.coeff.y.inter_eob_pt_tx4x4"@, AV2_STATIC_CDF_EOB_Y_INTER, "tile.coeff.y.inter_eob_extra"@, eob as int),
                        seq![symbol_spec("tile.tx_type.inter_reduced_dct_dct"@, Some((AV2_STATIC_CDF_INTER_EXT_TX_DCT_IDTX_4X4_BASE + ctx) as usize), 1)],
                    );
                }
            },
        }
    }
}

/// The low-range symbol of a luma coefficient above its base range.
pub open spec fn luma_low_range_fields(levels: Seq<u32>, pos: int, lf: bool, base_range: int) -> Seq<Av2FieldSpec> {
    if lf {
        seq![symbol_spec(
            "tile.coeff.y.low_range_lf"@,
            Some((AV2_STATIC_CDF_COEFF_Y_BR_LF_BASE + luma_br_spec(levels, pos, true)) as usize),
            min_int(base_range, 3) as usize,
        )]
    } else {
        seq![symbol_spec(
            "tile.coeff.y.low_range"@,
            Some((AV2_STATIC_CDF_COEFF_Y_BR_BASE + luma_br_spec(levels, pos, false)) as usize),
            min_int(base_range, 3) as usize,
        )]
    }
}

/// The base-level elements of one luma coefficient: low-frequency positions
/// saturate at 5 with a low range above 4, the others at 3 with a low range
/// above 2; the end-of-block coefficient codes `level - 1`.
pub open spec fn luma_level_fields(levels: Seq<u32>, pos: int, is_eob: bool, coeff_ctx: int, level: u32) -> Seq<Av2FieldSpec> {
    let lf = luma_lf_spec(pos);
    let (name, key_base, cap) = if is_eob {
        if lf {
            ("tile.coeff.y.base_lf_eob"@, AV2_STATIC_CDF_COEFF_Y_BASE_LF_EOB_BASE as int, 5int)
        } else {
            ("tile.coeff.y.base_eob"@, AV2_STATIC_CDF_COEFF_Y_BASE_EOB_BASE as int, 3int)
        }
    } else if lf {
        ("tile.coeff.y.base_lf"@, AV2_STATIC_CDF_COEFF_Y_BASE_LF_BASE as int, 5int)
    } else {
        ("tile.coeff.y.base"@, AV2_STATIC_CDF_COEFF_Y_BASE_BASE as int, 3int)
    };
    let symbol = min_int(level as int, cap) - if is_eob { 1int } else { 0int };
    seq![symbol_spec(name, Some((key_base + coeff_ctx) as usize), symbol as usize)] + if level >= cap {
        luma_low_range_fields(levels, pos, lf, level - cap)
    } else {
        Seq::empty()
    }
}

/// Writes the low-range symbol of a luma coefficient: its level above the
/// base range, capped at 3, in the low-frequency or the other context set.
pub fn write_luma_low_range(writer: &mut Av2EntropyWriter, levels: &[u32; 16], pos: usize, lf: bool, base_range: u32)
    requires
        pos < 16,
    ensures
        fields_appended(*old(writer), *final(writer), luma_low_range_fields(levels@, pos as int, lf, base_range as int)),
{
    let range_symbol: usize = if base_range < 3 { base_range as usize } else { 3 };
    let ghost w0 = *writer;
    if lf {
        let br_ctx = luma_br_context(levels, pos, true);
        writer.write_symbol_with_static_cdf_key("tile.coeff.y.low_range_lf", AV2_STATIC_CDF_COEFF_Y_BR_LF_BASE + br_ctx, range_symbol);
    } else {
        let br_ctx = luma_br_context(levels, pos, false);
        writer.write_symbol_with_static_cdf_key("tile.coeff.y.low_range", AV2_STATIC_CDF_COEFF_Y_BR_BASE + br_ctx, range_symbol);
    }
    proof {
        let low = luma_low_range_fields(levels@, pos as int, lf, base_range as int);
        lemma_fields_appended_one(w0, *writer, low[0]);
        assert(seq![low[0]] =~= low);
    }
}

/// Writes one luma coefficient's base-level elements.
pub fn write_luma_coefficient_level(
    writer: &mut Av2EntropyWriter,
    levels: &[u32; 16],
    pos: usize,
    is_eob_coefficient: bool,
    coeff_ctx: usize,
    level: u32,
)
    requires
        pos < 16,
        coeff_ctx <= 64,
        is_eob_coefficient ==> level > 0,
    ensures
        fields_appended(*old(writer), *final(writer), luma_level_fields(levels@, pos as int, is_eob_coefficient, coeff_ctx as int, level)),
{
    let limits = luma_lf_limits(pos);
    let (name, key_base, cap): (&str, usize, u32) = if is_eob_coefficient {
        if limits {
            ("tile.coeff.y.base_lf_eob", AV2_STATIC_CDF_COEFF_Y_BASE_LF_EOB_BASE, 5)
        } else {
            ("tile.coeff.y.base_eob", AV2_STATIC_CDF_COEFF_Y_BASE_EOB_BASE, 3)
        }
    } else if limits {
        ("tile.coeff.y.base_lf", AV2_STATIC_CDF_COEFF_Y_BASE_LF_BASE, 5)
    } else {
        ("tile.coeff.y.base", AV2_STATIC_CDF_COEFF_Y_BASE_BASE, 3)
    };
    let capped = if level < cap { level } else { cap };
    let symbol = if is_eob_coefficient { capped - 1 } else { capped };
    let ghost w0 = *writer;
    writer.write_symbol_with_static_cdf_key(name, key_base + coeff_ctx, symbol as usize);
    let ghost w1 = *writer;
    let ghost first = symbol_spec(name@, Some((key_base + coeff_ctx) as usize), symbol as usize);
    proof {
        lemma_fields_appended_one(w0, w1, first);
    }
    if level >= cap {
        let base_range = level - cap;
        write_luma_low_range(writer, levels, pos, limits, base_range);
        proof {
            let low = luma_low_range_fields(levels@, pos as int, limits, base_range as int);
            lemma_fields_appended_trans(w0, w1, *writer, seq![first], low);
            assert(seq![first] + low =~= luma_level_fields(levels@, pos as int, is_eob_coefficient, coeff_ctx as int, level));
        }
    } else {
        proof {
            assert(seq![first] =~= luma_level_fields(levels@, pos as int, is_eob_coefficient, coeff_ctx as int, level));
        }
    }
}

/// Name of the DC sign symbol in sign context 0 to 2.
pub open spec fn y_dc_sign_name(ctx: u8) -> Seq<char> {
    if ctx == 0 {
        "tile.coeff.y.dc_sign_negative_ctx0"@
    } else if ctx == 1 {
        "tile.coeff.y.dc_sign_negative_ctx1"@
    } else {
        "tile.coeff.y.dc_sign_negative_ctx2"@
    }
}

/// Writes the sign of a luma DC coefficient as a context-coded symbol
/// (1 for negative).
pub fn write_y_dc_sign(writer: &mut Av2EntropyWriter, negative: bool, dc_sign_ctx: u8)
    requires
        dc_sign_ctx <= 2,
    ensures
        fields_appended(
            *old(writer),
            *final(writer),
            seq![symbol_spec(y_dc_sign_name(dc_sign_ctx), Some((AV2_STATIC_CDF_COEFF_Y_DC_SIGN_BASE + dc_sign_ctx) as usize), if negative { 1 } else { 0 })],
        ),
{
    let ghost w0 = *writer;
    let name = match dc_sign_ctx {
        0 => "tile.coeff.y.dc_sign_negative_ctx0",
        1 => "tile.coeff.y.dc_sign_negative_ctx1",
        _ => "tile.coeff.y.dc_sign_negative_ctx2",
    };
    writer.write_symbol_with_static_cdf_key(name, AV2_STATIC_CDF_COEFF_Y_DC_SIGN_BASE + dc_sign_ctx as usize, if negative { 1 } else { 0 });
    proof {
        lemma_fields_appended_one(
            w0,
            *writer,
            symbol_spec(y_dc_sign_name(dc_sign_ctx), Some((AV2_STATIC_CDF_COEFF_Y_DC_SIGN_BASE + dc_sign_ctx) as usize), if negative { 1 } else { 0 }),
        );
    }
}

/// Base-level elements of luma scan positions `hi - 1` down to 0.
pub open spec fn luma_levels_desc(levels: Seq<u32>, eob: int, hi: int) -> Seq<Av2FieldSpec>
    decreases hi,
{
    if hi <= 0 {
        Seq::empty()
    } else {
        let si = hi - 1;
        let pos = TX4X4_SCAN@[si] as int;
        let is_eob = si + 1 == eob;
        luma_level_fields(levels, pos, is_eob, luma_nz_map_spec(levels, pos, si, is_eob), levels[pos]) + luma_levels_desc(levels, eob, hi - 1)
    }
}

/// Signs and high ranges of the nonzero luma coefficients at scan positions
/// `hi - 1` down to 0: the DC sign as a context-coded symbol, AC signs as
/// literal bits.
pub open spec fn luma_signs_desc(
    coefficients: Seq<i32>,
    levels: Seq<u32>,
    dc_sign_ctx: u8,
    hi: int,
    average: u32,
) -> Seq<Av2FieldSpec>
    decreases hi,
{
    if hi <= 0 {
        Seq::empty()
    } else {
        let si = hi - 1;
        let pos = TX4X4_SCAN@[si] as int;
        let level = levels[pos];
        let negative = coefficients[pos] < 0;
        if level == 0 {
            luma_signs_desc(coefficients, levels, dc_sign_ctx, hi - 1, average)
        } else {
            let sign = if si == 0 {
                symbol_spec(y_dc_sign_name(dc_sign_ctx), Some((AV2_STATIC_CDF_COEFF_Y_DC_SIGN_BASE + dc_sign_ctx) as usize), if negative { 1 } else { 0 })
            } else {
                literal_spec("tile.coeff.y.ac_sign_negative"@, if negative { 1u32 } else { 0u32 }, 1)
            };
            seq![sign] + high_range_fields("tile.coeff.y.high_range"@, Av2CoefficientCodingKind::LumaTransform, level, pos, average)
                + luma_signs_desc(
                coefficients,
                levels,
                dc_sign_ctx,
                hi - 1,
                next_average_spec(Av2CoefficientCodingKind::LumaTransform, level, pos, average),
            )
        }
    }
}

/// Every element of a luma block under a policy.
pub open spec fn luma_txb_fields(
    policy: Av2LumaTxbSyntaxPolicy,
    skip_ctx: u8,
    dc_sign_ctx: u8,
    coefficients: Seq<i32>,
) -> Seq<Av2FieldSpec> {
    let levels = levels_spec(coefficients);
    let eob = scan_eob_spec(levels, TX4X4_SCAN@, 16);
    if eob == 0 {
        luma_skip_fields(policy, skip_ctx, true)
    } else {
        luma_skip_fields(policy, skip_ctx, false) + luma_eob_fields(policy, eob) + luma_levels_desc(levels, eob, eob)
            + luma_signs_desc(coefficients, levels, dc_sign_ctx, eob, 0)
    }
}

/// Entropy context and coded flag a 4x4 block leaves.
pub open spec fn tx4x4_txb_result(coefficients: Seq<i32>) -> (int, bool) {
    let levels = levels_spec(coefficients);
    let eob = scan_eob_spec(levels, TX4X4_SCAN@, 16);
    if eob == 0 {
        (0, false)
    } else {
        (entropy_context_spec(level_sum_from(levels, TX4X4_SCAN@, 0, eob), dc_value_spec(coefficients, levels)), true)
    }
}

/// Codes a 4x4 luma block with the regular (transform) coefficient syntax.
pub fn write_luma_regular_residual_txb(
    writer: &mut Av2EntropyWriter,
    skip_ctx: u8,
    dc_sign_ctx: u8,
    coefficients: &[i32; 16],
    syntax: Av2LumaTxbSyntaxPolicy,
) -> (r: (u8, bool))
    requires
        dc_sign_ctx <= 2,
        level_sum_from(levels_spec(coefficients@), TX4X4_SCAN@, 0, 16) <= u32::MAX,
    ensures
        fields_appended(*old(writer), *final(writer), luma_txb_fields(syntax, skip_ctx, dc_sign_ctx, coefficients@)),
        (r.0 as int, r.1) == tx4x4_txb_result(coefficients@),
{
    let (levels, bounds) = lossless_coefficient_levels_and_bounds(coefficients);
    proof {
        lemma_scan_eob_of_bounds(levels@, TX4X4_SCAN@, bounds);
        assert(forall|i: int| 0 <= i < 16 ==> TX4X4_SCAN[i] < 16);
    }
    let ghost w0 = *writer;
    let eob = match bounds {
        None => {
            syntax.write_skip(writer, skip_ctx, true);
            return (0, false);
        },
        Some((_, eob)) => eob,
    };
    syntax.write_skip(writer, skip_ctx, false);
    let ghost w1 = *writer;
    syntax.write_eob_and_tx_type(writer, eob);
    let ghost w2 = *writer;
    let ghost levels_total = luma_levels_desc(levels@, eob as int, eob as int);
    let ghost mut prefix: Seq<Av2FieldSpec> = Seq::empty();
    proof {
        lemma_fields_appended_none(w2);
        assert(prefix + luma_levels_desc(levels@, eob as int, eob as int) =~= levels_total);
    }
    let mut hi = eob;
    while hi > 0
        invariant
            forall|i: int| 0 <= i < 16 ==> TX4X4_SCAN[i] < 16,
            hi <= eob <= 16,
            levels[TX4X4_SCAN[eob - 1] as int] != 0,
            fields_appended(w2, *writer, prefix),
            prefix + luma_levels_desc(levels@, eob as int, hi as int) == levels_total,
            levels_total == luma_levels_desc(levels@, eob as int, eob as int),
        decreases hi,
    {
        let scan_index = hi - 1;
        let pos = TX4X4_SCAN[scan_index];
        let level = levels[pos];
        let is_eob_coefficient = scan_index + 1 == eob;
        let coeff_ctx = luma_nz_map_context(&levels, pos, scan_index, is_eob_coefficient);
        let ghost w3 = *writer;
        write_luma_coefficient_level(writer, &levels, pos, is_eob_coefficient, coeff_ctx, level);
        proof {
            let f = luma_level_fields(levels@, pos as int, is_eob_coefficient, coeff_ctx as int, level);
            lemma_fields_appended_trans(w2, w3, *writer, prefix, f);
            assert(prefix + f + luma_levels_desc(levels@, eob as int, scan_index as int) =~= levels_total);
            prefix = prefix + f;
        }
        hi = scan_index;
    }
    let ghost w4 = *writer;
    proof {
        lemma_level_sum_split(levels@, TX4X4_SCAN@, 0, eob as int, 16);
    }
    let ghost signs_total = luma_signs_desc(coefficients@, levels@, dc_sign_ctx, eob as int, 0);
    let ghost mut signs_prefix: Seq<Av2FieldSpec> = Seq::empty();
    let mut cul_level: u32 = 0;
    let mut dc_val: i32 = 0;
    let mut hr_level_avg: u32 = 0;
    proof {
        lemma_fields_appended_none(w4);
        assert(signs_prefix + luma_signs_desc(coefficients@, levels@, dc_sign_ctx, eob as int, 0) =~= signs_total);
    }
    let mut hi = eob;
    while hi > 0
        invariant
            forall|i: int| 0 <= i < 16 ==> TX4X4_SCAN[i] < 16,
            TX4X4_SCAN[0] == 0,
            dc_sign_ctx <= 2,
            hi <= eob <= 16,
            forall|i: int| 0 <= i < 16 ==> levels[i] <= 0x1000_0000,
            level_sum_from(levels@, TX4X4_SCAN@, 0, eob as int) <= u32::MAX,
            fields_appended(w4, *writer, signs_prefix),
            signs_prefix + luma_signs_desc(coefficients@, levels@, dc_sign_ctx, hi as int, hr_level_avg) == signs_total,
            signs_total == luma_signs_desc(coefficients@, levels@, dc_sign_ctx, eob as int, 0),
            cul_level == level_sum_from(levels@, TX4X4_SCAN@, hi as int, eob as int),
            hr_level_avg <= 0x7fff_ffff,
            hi > 0 ==> dc_val == 0,
            hi == 0 ==> dc_val == dc_value_spec(coefficients@, levels@),
        decreases hi,
    {
        let scan_index = hi - 1;
        let pos = TX4X4_SCAN[scan_index];
        let level = levels[pos];
        proof {
            lemma_level_sum_split(levels@, TX4X4_SCAN@, 0, scan_index as int, eob as int);
        }
        if level != 0 {
            let negative = coefficients[pos] < 0;
            let ghost w5 = *writer;
            let ghost avg0 = hr_level_avg;
            let ghost sign = if scan_index == 0 {
                symbol_spec(y_dc_sign_name(dc_sign_ctx), Some((AV2_STATIC_CDF_COEFF_Y_DC_SIGN_BASE + dc_sign_ctx) as usize), if negative { 1 } else { 0 })
            } else {
                literal_spec("tile.coeff.y.ac_sign_negative"@, if negative { 1u32 } else { 0u32 }, 1)
            };
            if scan_index == 0 {
                write_y_dc_sign(writer, negative, dc_sign_ctx);
                dc_val = if negative { -(level as i32) } else { level as i32 };
            } else {
                writer.write_literal_bit("tile.coeff.y.ac_sign_negative", negative);
                proof {
                    lemma_fields_appended_one(w5, *writer, sign);
                }
            }
            let ghost w6 = *writer;
            write_luma_high_range(writer, pos, level, &mut hr_level_avg);
            cul_level = cul_level + level;
            proof {
                let hr = high_range_fields("tile.coeff.y.high_range"@, Av2CoefficientCodingKind::LumaTransform, level, pos as int, avg0);
                lemma_high_range_fields(w6, *writer, "tile.coeff.y.high_range"@, Av2CoefficientCodingKind::LumaTransform, level, pos as int, avg0);
                lemma_fields_appended_trans(w5, w6, *writer, seq![sign], hr);
                lemma_fields_appended_trans(w4, w5, *writer, signs_prefix, seq![sign] + hr);
                assert(signs_prefix + (seq![sign] + hr) + luma_signs_desc(coefficients@, levels@, dc_sign_ctx, scan_index as int, hr_level_avg) =~= signs_total);
                signs_prefix = signs_prefix + (seq![sign] + hr);
            }
        }
        hi = scan_index;
    }
    proof {
        lemma_fields_appended_trans(w0, w1, w2, luma_skip_fields(syntax, skip_ctx, false), luma_eob_fields(syntax, eob as int));
        lemma_fields_appended_trans(w0, w2, w4, luma_skip_fields(syntax, skip_ctx, false) + luma_eob_fields(syntax, eob as int), levels_total);
        lemma_fields_appended_trans(
            w0,
            w4,
            *writer,
            luma_skip_fields(syntax, skip_ctx, false) + luma_eob_fields(syntax, eob as int) + levels_total,
            signs_total,
        );
    }
    (lossless_entropy_context(cul_level, dc_val), true)
}

/// Codes a luma palette residual block with the intra syntax.
pub fn write_luma_palette_residual_txb(
    writer: &mut Av2EntropyWriter,
    skip_ctx: u8,
    dc_sign_ctx: u8,
    coefficients: &[i32; 16],
) -> (r: (u8, bool))
    requires
        dc_sign_ctx <= 2,
        level_sum_from(levels_spec(coefficients@), TX4X4_SCAN@, 0, 16) <= u32::MAX,
    ensures
        fields_appended(*old(writer), *final(writer), luma_txb_fields(Av2LumaTxbSyntaxPolicy::Intra, skip_ctx, dc_sign_ctx, coefficients@)),
        (r.0 as int, r.1) == tx4x4_txb_result(coefficients@),
{
    write_luma_regular_residual_txb(writer, skip_ctx, dc_sign_ctx, coefficients, Av2LumaTxbSyntaxPolicy::Intra)
}

/// Codes an inter luma residual block.
pub fn write_luma_inter_residual_txb(
    writer: &mut Av2EntropyWriter,
    skip_ctx: u8,
    dc_sign_ctx: u8,
    coefficients: &[i32; 16],
) -> (r: (u8, bool))
    requires
        dc_sign_ctx <= 2,
        level_sum_from(levels_spec(coefficients@), TX4X4_SCAN@, 0, 16) <= u32::MAX,
    ensures
        fields_appended(*old(writer), *final(writer), luma_txb_fields(Av2LumaTxbSyntaxPolicy::Inter, skip_ctx, dc_sign_ctx, coefficients@)),
        (r.0 as int, r.1) == tx4x4_txb_result(coefficients@),
{
    write_luma_regular_residual_txb(writer, skip_ctx, dc_sign_ctx, coefficients, Av2LumaTxbSyntaxPolicy::Inter)
}

/// The forward-skip skip flag.
pub open spec fn fsc_skip_fields(all_zero: bool) -> Seq<Av2FieldSpec> {
    let names = y_fsc_skip_names();
    seq![symbol_spec(
        if all_zero { names.0 } else { names.1 },
        Some((AV2_STATIC_CDF_TXB_SKIP_Y_FSC_BASE + 9) as usize),
        if all_zero { 1 } else { 0 },
    )]
}

/// Writes the low-range symbol of a forward-skip coefficient of `level`
/// above 2: the level above the base range, capped at 3.
pub fn write_idtx_low_range(writer: &mut Av2EntropyWriter, level: u32)
    requires
        level >= 3,
    ensures
        fields_appended(
            *old(writer),
            *final(writer),
            seq![symbol_spec("tile.coeff.y.idtx_low_range"@, None, min_int(level - 3, 3) as usize)],
        ),
{
    let range = level - 3;
    let range_symbol: usize = if range < 3 { range as usize } else { 3 };
    let ghost w0 = *writer;
    writer.write_symbol("tile.coeff.y.idtx_low_range", range_symbol);
    proof {
        lemma_fields_appended_one(w0, *writer, symbol_spec("tile.coeff.y.idtx_low_range"@, None, range_symbol));
    }
}

/// Base-level elements of a forward-skip coefficient at scan index `si`: the
/// first nonzero one (`bob`) codes `min(level, 3) - 1`, the later ones
/// `min(level, 3)`, each followed above 2 by a low-range symbol.
pub open spec fn fsc_level_fields(levels: Seq<u32>, bob: int, si: int) -> Seq<Av2FieldSpec> {
    let level = levels[TX4X4_SCAN@[si] as int];
    let base = if si == bob {
        symbol_spec("tile.coeff.y.idtx_base_bob"@, None, (min_int(level as int, 3) - 1) as usize)
    } else {
        symbol_spec("tile.coeff.y.idtx_base"@, None, min_int(level as int, 3) as usize)
    };
    seq![base] + if level > 2 {
        seq![symbol_spec("tile.coeff.y.idtx_low_range"@, None, min_int(level - 3, 3) as usize)]
    } else {
        Seq::empty()
    }
}

/// Base-level elements of forward-skip scan indices `lo` to 15.
pub open spec fn fsc_levels_asc(levels: Seq<u32>, bob: int, lo: int) -> Seq<Av2FieldSpec>
    decreases 16 - lo,
{
    if lo >= 16 {
        Seq::empty()
    } else {
        fsc_level_fields(levels, bob, lo) + fsc_levels_asc(levels, bob, lo + 1)
    }
}

/// Signs and high ranges of the nonzero forward-skip coefficients at scan
/// indices `lo` to 15.
pub open spec fn fsc_signs_asc(coefficients: Seq<i32>, levels: Seq<u32>, lo: int, average: u32) -> Seq<Av2FieldSpec>
    decreases 16 - lo,
{
    if lo >= 16 {
        Seq::empty()
    } else {
        let pos = TX4X4_SCAN@[lo] as int;
        let level = levels[pos];
        if level == 0 {
            fsc_signs_asc(coefficients, levels, lo + 1, average)
        } else {
            seq![symbol_spec("tile.coeff.y.idtx_sign_negative"@, None, if coefficients[pos] < 0 { 1 } else { 0 })]
                + high_range_fields("tile.coeff.y.idtx_high_range"@, Av2CoefficientCodingKind::LumaIdtx, level, 0, average)
                + fsc_signs_asc(coefficients, levels, lo + 1, next_average_spec(Av2CoefficientCodingKind::LumaIdtx, level, 0, average))
        }
    }
}

/// The first nonzero scan index at or after `lo` (16 when none).
pub open spec fn first_nonzero_from(levels: Seq<u32>, lo: int) -> int
    decreases 16 - lo,
{
    if lo >= 16 {
        16
    } else if levels[TX4X4_SCAN@[lo] as int] != 0 {
        lo
    } else {
        first_nonzero_from(levels, lo + 1)
    }
}

proof fn lemma_first_nonzero_is(levels: Seq<u32>, bob: int, lo: int)
    requires
        0 <= lo <= bob < 16,
        levels[TX4X4_SCAN@[bob] as int] != 0,
        forall|i: int| lo <= i < bob ==> levels[TX4X4_SCAN@[i] as int] == 0,
    ensures
        first_nonzero_from(levels, lo) == bob,
    decreases bob - lo,
{
    if lo < bob {
        lemma_first_nonzero_is(levels, bob, lo + 1);
    }
}

/// Every element of a forward-skip (identity transform) luma block: the
/// skip flag; for a block with nonzero levels also the end of block counted
/// from the first nonzero level to the end of the scan, the base levels
/// forward from there, and the signs and high ranges forward over the scan.
pub open spec fn fsc_txb_fields(coefficients: Seq<i32>) -> Seq<Av2FieldSpec> {
    let levels = levels_spec(coefficients);
    let bob = first_nonzero_from(levels, 0);
    if bob == 16 {
        fsc_skip_fields(true)
    } else {
        fsc_skip_fields(false) + eob_fields_spec("tile.coeff.y.eob_pt_tx4x4"@, AV2_STATIC_CDF_EOB_Y, "tile.coeff.y.eob_extra"@, 16 - bob)
            + fsc_levels_asc(levels, bob, bob) + fsc_signs_asc(coefficients, levels, 0, 0)
    }
}

/// Entropy context and coded flag a forward-skip block leaves.
pub open spec fn fsc_txb_result(coefficients: Seq<i32>) -> (int, bool) {
    let levels = levels_spec(coefficients);
    if first_nonzero_from(levels, 0) == 16 {
        (0, false)
    } else {
        (entropy_context_spec(level_sum_from(levels, TX4X4_SCAN@, 0, 16), dc_value_spec(coefficients, levels)), true)
    }
}

/// Codes a forward-skip (identity transform) luma block.
pub fn write_luma_palette_fsc_txb(writer: &mut Av2EntropyWriter, coefficients: &[i32; 16]) -> (r: (u8, bool))
    requires
        level_sum_from(levels_spec(coefficients@), TX4X4_SCAN@, 0, 16) <= u32::MAX,
    ensures
        fields_appended(*old(writer), *final(writer), fsc_txb_fields(coefficients@)),
        (r.0 as int, r.1) == fsc_txb_result(coefficients@),
{
    let (levels, bounds) = lossless_coefficient_levels_and_bounds(coefficients);
    proof {
        assert(forall|i: int| 0 <= i < 16 ==> TX4X4_SCAN[i] < 16);
    }
    let ghost w0 = *writer;
    let bob = match bounds {
        None => {
            proof {
                assert(forall|i: int| 0 <= i < 16 ==> levels@[TX4X4_SCAN@[i] as int] == 0);
                assert(first_nonzero_from(levels@, 16) == 16);
                lemma_first_nonzero_all_zero(levels@, 0);
            }
            write_y_fsc_txb_skip(writer, true);
            proof {
                lemma_fields_appended_one(w0, *writer, fsc_skip_fields(true)[0]);
                assert(seq![fsc_skip_fields(true)[0]] =~= fsc_skip_fields(true));
            }
            return (0, false);
        },
        Some((bob, _)) => bob,
    };
    proof {
        lemma_first_nonzero_is(levels@, bob as int, 0);
    }
    write_y_fsc_txb_skip(writer, false);
    let ghost w1 = *writer;
    proof {
        lemma_fields_appended_one(w0, w1, fsc_skip_fields(false)[0]);
        assert(seq![fsc_skip_fields(false)[0]] =~= fsc_skip_fields(false));
    }
    write_eob_y(writer, 16 - bob);
    let ghost w2 = *writer;
    let ghost levels_total = fsc_levels_asc(levels@, bob as int, bob as int);
    let ghost mut prefix: Seq<Av2FieldSpec> = Seq::empty();
    proof {
        lemma_fields_appended_none(w2);
        assert(prefix + fsc_levels_asc(levels@, bob as int, bob as int) =~= levels_total);
    }
    let mut scan_index = bob;
    while scan_index < 16
        invariant
            forall|i: int| 0 <= i < 16 ==> TX4X4_SCAN[i] < 16,
            bob <= scan_index <= 16,
            bob < 16,
            levels[TX4X4_SCAN[bob as int] as int] != 0,
            fields_appended(w2, *writer, prefix),
            prefix + fsc_levels_asc(levels@, bob as int, scan_index as int) == levels_total,
            levels_total == fsc_levels_asc(levels@, bob as int, bob as int),
        decreases 16 - scan_index,
    {
        let pos = TX4X4_SCAN[scan_index];
        let level = levels[pos];
        let capped: usize = if level < 3 { level as usize } else { 3 };
        let ghost w3 = *writer;
        if scan_index == bob {
            writer.write_symbol("tile.coeff.y.idtx_base_bob", capped - 1);
        } else {
            writer.write_symbol("tile.coeff.y.idtx_base", capped);
        }
        let ghost w4 = *writer;
        let ghost f = fsc_level_fields(levels@, bob as int, scan_index as int);
        proof {
            lemma_fields_appended_one(w3, w4, f[0]);
        }
        if level > 2 {
            write_idtx_low_range(writer, level);
            proof {
                lemma_fields_appended_trans(w3, w4, *writer, seq![f[0]], seq![f[1]]);
                assert(seq![f[0]] + seq![f[1]] =~= f);
            }
        } else {
            proof {
                assert(seq![f[0]] =~= f);
            }
        }
        proof {
            lemma_fields_appended_trans(w2, w3, *writer, prefix, f);
            assert(prefix + f + fsc_levels_asc(levels@, bob as int, scan_index + 1) =~= levels_total);
            prefix = prefix + f;
        }
        scan_index = scan_index + 1;
    }
    let ghost w5 = *writer;
    let ghost signs_total = fsc_signs_asc(coefficients@, levels@, 0, 0);
    let ghost mut signs_prefix: Seq<Av2FieldSpec> = Seq::empty();
    let mut cul_level: u32 = 0;
    let mut dc_val: i32 = 0;
    let mut hr_level_avg: u32 = 0;
    proof {
        lemma_fields_appended_none(w5);
        assert(signs_prefix + fsc_signs_asc(coefficients@, levels@, 0, 0) =~= signs_total);
        crate::txb_chroma::lemma_level_sum_nonneg(levels@, TX4X4_SCAN@, 0, 16);
    }
    let mut scan_index: usize = 0;
    while scan_index < 16
        invariant
            forall|i: int| 0 <= i < 16 ==> TX4X4_SCAN[i] < 16,
            TX4X4_SCAN[0] == 0,
            scan_index <= 16,
            forall|i: int| 0 <= i < 16 ==> levels[i] <= 0x1000_0000,
            level_sum_from(levels@, TX4X4_SCAN@, 0, 16) <= u32::MAX,
            fields_appended(w5, *writer, signs_prefix),
            signs_prefix + fsc_signs_asc(coefficients@, levels@, scan_index as int, hr_level_avg) == signs_total,
            signs_total == fsc_signs_asc(coefficients@, levels@, 0, 0),
            cul_level == level_sum_from(levels@, TX4X4_SCAN@, 0, scan_index as int),
            hr_level_avg <= 0x7fff_ffff,
            scan_index > 0 ==> dc_val == dc_value_spec(coefficients@, levels@),
            scan_index == 0 ==> dc_val == 0,
        decreases 16 - scan_index,
    {
        let pos = TX4X4_SCAN[scan_index];
        let level = levels[pos];
        proof {
            lemma_level_sum_split(levels@, TX4X4_SCAN@, 0, scan_index as int, 16);
            lemma_level_sum_split(levels@, TX4X4_SCAN@, scan_index as int, scan_index + 1, 16);
            lemma_level_sum_split(levels@, TX4X4_SCAN@, 0, scan_index as int, scan_index + 1);
            assert(level_sum_from(levels@, TX4X4_SCAN@, scan_index as int, scan_index + 1) == level);
        }
        if level != 0 {
            let negative = coefficients[pos] < 0;
            let ghost w6 = *writer;
            let ghost avg0 = hr_level_avg;
            writer.write_symbol("tile.coeff.y.idtx_sign_negative", if negative { 1 } else { 0 });
            let ghost w7 = *writer;
            let ghost sign = symbol_spec("tile.coeff.y.idtx_sign_negative"@, None, if negative { 1 } else { 0 });
            write_idtx_high_range(writer, level, &mut hr_level_avg);
            if scan_index == 0 {
                dc_val = if negative { -(level as i32) } else { level as i32 };
            }
            cul_level = cul_level + level;
            proof {
                let hr = high_range_fields("tile.coeff.y.idtx_high_range"@, Av2CoefficientCodingKind::LumaIdtx, level, 0, avg0);
                lemma_fields_appended_one(w6, w7, sign);
                lemma_high_range_fields(w7, *writer, "tile.coeff.y.idtx_high_range"@, Av2CoefficientCodingKind::LumaIdtx, level, 0, avg0);
                lemma_fields_appended_trans(w6, w7, *writer, seq![sign], hr);
                lemma_fields_appended_trans(w5, w6, *writer, signs_prefix, seq![sign] + hr);
                assert(signs_prefix + (seq![sign] + hr) + fsc_signs_asc(coefficients@, levels@, scan_index + 1, hr_level_avg) =~= signs_total);
                signs_prefix = signs_prefix + (seq![sign] + hr);
            }
        }
        scan_index = scan_index + 1;
    }
    proof {
        lemma_fields_appended_trans(
            w0,
            w1,
            w2,
            fsc_skip_fields(false),
            eob_fields_spec("tile.coeff.y.eob_pt_tx4x4"@, AV2_STATIC_CDF_EOB_Y, "tile.coeff.y.eob_extra"@, 16 - bob),
        );
        lemma_fields_appended_trans(
            w0,
            w2,
            w5,
            fsc_skip_fields(false) + eob_fields_spec("tile.coeff.y.eob_pt_tx4x4"@, AV2_STATIC_CDF_EOB_Y, "tile.coeff.y.eob_extra"@, 16 - bob),
            levels_total,
        );
        lemma_fields_appended_trans(
            w0,
            w5,
            *writer,
            fsc_skip_fields(false) + eob_fields_spec("tile.coeff.y.eob_pt_tx4x4"@, AV2_STATIC_CDF_EOB_Y, "tile.coeff.y.eob_extra"@, 16 - bob)
                + levels_total,
            signs_total,
        );
    }
    (lossless_entropy_context(cul_level, dc_val), true)
}

proof fn lemma_first_nonzero_all_zero(levels: Seq<u32>, lo: int)
    requires
        0 <= lo <= 16,
        forall|i: int| lo <= i < 16 ==> levels[TX4X4_SCAN@[i] as int] == 0,
    ensures
        first_nonzero_from(levels, lo) == 16,
    decreases 16 - lo,
{
    if lo < 16 {
        lemma_first_nonzero_all_zero(levels, lo + 1);
    }
}

} // verus!
