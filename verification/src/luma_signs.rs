use vstd::prelude::*;
use crate::coefficient_levels::levels_spec;
use crate::entropy::Av2FieldSpec;
use crate::geometry::TX4X4_SCAN;
use crate::high_range::{Av2CoefficientCodingKind, high_range_fields, high_range_symbol_spec, next_average_spec};
use crate::txb_chroma::scan_eob_spec;
use crate::txb_eob::eob_fields_spec;
use crate::txb_luma::{
    fsc_level_fields, fsc_levels_asc, fsc_signs_asc, fsc_skip_fields, fsc_txb_fields, first_nonzero_from,
    Av2LumaTxbSyntaxPolicy, luma_eob_fields, luma_level_fields, luma_levels_desc, luma_low_range_fields, luma_signs_desc, luma_skip_fields,
    luma_txb_fields, y_dc_sign_name,
};
use crate::txb_skip::{normalize_spec, y_inter_skip_names, y_skip_names};

verus! {

/// The values of the AC sign literals among `fields`, in order.
pub open spec fn ac_sign_values(fields: Seq<Av2FieldSpec>) -> Seq<Option<u32>>
    decreases fields.len(),
{
    if fields.len() == 0 {
        Seq::empty()
    } else {
        ac_sign_values(fields.drop_last()) + if fields.last().0 == "tile.coeff.y.ac_sign_negative"@ {
            seq![fields.last().3]
        } else {
            Seq::empty()
        }
    }
}

/// The signs a decoder must recover for the AC coefficients at scan
/// indices `hi - 1` down to 1 whose level is nonzero (magnitude at least 8):
/// 1 for a negative coefficient, 0 for a positive one.
pub open spec fn ac_negative_flags(coefficients: Seq<i32>, hi: int) -> Seq<Option<u32>>
    decreases hi,
{
    if hi <= 1 {
        Seq::empty()
    } else {
        let c = coefficients[TX4X4_SCAN@[hi - 1] as int];
        (if c <= -8 || c >= 8 { seq![Some(if c < 0 { 1u32 } else { 0u32 })] } else { Seq::empty() }) + ac_negative_flags(
            coefficients,
            hi - 1,
        )
    }
}

/// No element of `fields` has the AC sign literal's name length.
pub open spec fn no_ac_sign_name(fields: Seq<Av2FieldSpec>) -> bool {
    forall|i: int| 0 <= i < fields.len() ==> (#[trigger] fields[i]).0.len() != 29
}

proof fn lemma_ac_sign_values_concat(a: Seq<Av2FieldSpec>, b: Seq<Av2FieldSpec>)
    ensures
        ac_sign_values(a + b) == ac_sign_values(a) + ac_sign_values(b),
    decreases b.len(),
{
    if b.len() == 0 {
        assert(a + b =~= a);
        assert(ac_sign_values(b) =~= Seq::<Option<u32>>::empty());
        assert(ac_sign_values(a) + ac_sign_values(b) =~= ac_sign_values(a));
    } else {
        assert((a + b).drop_last() =~= a + b.drop_last());
        assert((a + b).last() == b.last());
        lemma_ac_sign_values_concat(a, b.drop_last());
        assert(ac_sign_values(a + b) =~= ac_sign_values(a) + ac_sign_values(b));
    }
}

proof fn lemma_no_ac_sign_values(fields: Seq<Av2FieldSpec>)
    requires
        no_ac_sign_name(fields),
    ensures
        ac_sign_values(fields) == Seq::<Option<u32>>::empty(),
    decreases fields.len(),
{
    reveal_strlit("tile.coeff.y.ac_sign_negative");
    if fields.len() > 0 {
        assert(fields.last() == fields[fields.len() - 1]);
        assert(no_ac_sign_name(fields.drop_last())) by {
            assert forall|i: int| 0 <= i < fields.drop_last().len() implies (#[trigger] fields.drop_last()[i]).0.len() != 29 by {
                assert(fields.drop_last()[i] == fields[i]);
            }
        }
        lemma_no_ac_sign_values(fields.drop_last());
        assert(ac_sign_values(fields) =~= Seq::<Option<u32>>::empty());
    }
}

proof fn lemma_skip_names_lengths(ctx: u8)
    ensures
        y_skip_names(ctx).0.len() >= 35,
        y_skip_names(ctx).1.len() >= 35,
        y_inter_skip_names(ctx).0.len() >= 35,
        y_inter_skip_names(ctx).1.len() >= 35,
{
    reveal_strlit("tile.coeff.y.txb_all_zero_tx4x4_ctx1");
    reveal_strlit("tile.coeff.y.txb_nonzero_tx4x4_ctx1");
    reveal_strlit("tile.coeff.y.txb_all_zero_tx4x4_ctx2");
    reveal_strlit("tile.coeff.y.txb_nonzero_tx4x4_ctx2");
    reveal_strlit("tile.coeff.y.txb_all_zero_tx4x4_ctx3");
    reveal_strlit("tile.coeff.y.txb_nonzero_tx4x4_ctx3");
    reveal_strlit("tile.coeff.y.txb_all_zero_tx4x4_ctx4");
    reveal_strlit("tile.coeff.y.txb_nonzero_tx4x4_ctx4");
    reveal_strlit("tile.coeff.y.txb_all_zero_tx4x4_ctx5");
    reveal_strlit("tile.coeff.y.txb_nonzero_tx4x4_ctx5");
    reveal_strlit("tile.coeff.y.inter_txb_all_zero_tx4x4_ctx1");
    reveal_strlit("tile.coeff.y.inter_txb_nonzero_tx4x4_ctx1");
    reveal_strlit("tile.coeff.y.inter_txb_all_zero_tx4x4_ctx2");
    reveal_strlit("tile.coeff.y.inter_txb_nonzero_tx4x4_ctx2");
    reveal_strlit("tile.coeff.y.inter_txb_all_zero_tx4x4_ctx3");
    reveal_strlit("tile.coeff.y.inter_txb_nonzero_tx4x4_ctx3");
    reveal_strlit("tile.coeff.y.inter_txb_all_zero_tx4x4_ctx4");
    reveal_strlit("tile.coeff.y.inter_txb_nonzero_tx4x4_ctx4");
    reveal_strlit("tile.coeff.y.inter_txb_all_zero_tx4x4_ctx5");
    reveal_strlit("tile.coeff.y.inter_txb_nonzero_tx4x4_ctx5");
}

proof fn lemma_skip_no_ac_sign(policy: Av2LumaTxbSyntaxPolicy, skip_ctx: u8, all_zero: bool)
    ensures
        no_ac_sign_name(luma_skip_fields(policy, skip_ctx, all_zero)),
{
    lemma_skip_names_lengths(normalize_spec(skip_ctx, 1, 5, 5));
}

proof fn lemma_eob_no_ac_sign(policy: Av2LumaTxbSyntaxPolicy, eob: int)
    ensures
        no_ac_sign_name(luma_eob_fields(policy, eob)),
{
    reveal_strlit("tile.coeff.y.eob_pt_tx4x4");
    reveal_strlit("tile.coeff.y.eob_extra");
    reveal_strlit("tile.coeff.y.inter_eob_pt_tx4x4");
    reveal_strlit("tile.coeff.y.inter_eob_extra");
    reveal_strlit("tile.coeff.eob_extra_bit");
    reveal_strlit("tile.tx_type.inter_reduced_dct_dct");
    let f = luma_eob_fields(policy, eob);
    assert forall|i: int| 0 <= i < f.len() implies (#[trigger] f[i]).0.len() != 29 by {
        match policy {
            Av2LumaTxbSyntaxPolicy::Intra => {},
            Av2LumaTxbSyntaxPolicy::Inter => {
                let e = eob_fields_spec("tile.coeff.y.inter_eob_pt_tx4x4"@, crate::txb_eob::AV2_STATIC_CDF_EOB_Y_INTER, "tile.coeff.y.inter_eob_extra"@, eob);
                if i < e.len() {
                    assert(f[i] == e[i]);
                }
            },
        }
    }
}

proof fn lemma_levels_no_ac_sign(levels: Seq<u32>, eob: int, hi: int)
    ensures
        no_ac_sign_name(luma_levels_desc(levels, eob, hi)),
    decreases hi,
{
    reveal_strlit("tile.coeff.y.base");
    reveal_strlit("tile.coeff.y.base_eob");
    reveal_strlit("tile.coeff.y.base_lf");
    reveal_strlit("tile.coeff.y.base_lf_eob");
    reveal_strlit("tile.coeff.y.low_range");
    reveal_strlit("tile.coeff.y.low_range_lf");
    if hi > 0 {
        lemma_levels_no_ac_sign(levels, eob, hi - 1);
        let si = hi - 1;
        let pos = TX4X4_SCAN@[si] as int;
        let is_eob = si + 1 == eob;
        let head = luma_level_fields(levels, pos, is_eob, crate::coefficient_contexts::luma_nz_map_spec(levels, pos, si, is_eob), levels[pos]);
        let rest = luma_levels_desc(levels, eob, hi - 1);
        assert(luma_levels_desc(levels, eob, hi) == head + rest);
        assert forall|i: int| 0 <= i < head.len() implies (#[trigger] head[i]).0.len() != 29 by {
        }
        assert forall|i: int| 0 <= i < (head + rest).len() implies (#[trigger] (head + rest)[i]).0.len() != 29 by {
            if i < head.len() {
                assert((head + rest)[i] == head[i]);
            } else {
                assert((head + rest)[i] == rest[i - head.len()]);
            }
        }
    }
}

proof fn lemma_signs_are_flags(coefficients: Seq<i32>, levels: Seq<u32>, dc_sign_ctx: u8, hi: int, average: u32)
    requires
        coefficients.len() == 16,
        levels == levels_spec(coefficients),
        hi <= 16,
    ensures
        ac_sign_values(luma_signs_desc(coefficients, levels, dc_sign_ctx, hi, average)) == ac_negative_flags(coefficients, hi),
    decreases hi,
{
    reveal_strlit("tile.coeff.y.ac_sign_negative");
    reveal_strlit("tile.coeff.y.dc_sign_negative_ctx0");
    reveal_strlit("tile.coeff.y.dc_sign_negative_ctx1");
    reveal_strlit("tile.coeff.y.dc_sign_negative_ctx2");
    reveal_strlit("tile.coeff.y.high_range");
    if hi > 0 {
        let si = hi - 1;
        let pos = TX4X4_SCAN@[si] as int;
        assert(0 <= pos < 16) by {
            assert(forall|i: int| 0 <= i < 16 ==> TX4X4_SCAN[i] < 16);
        }
        let level = levels[pos];
        let c = coefficients[pos];
        assert(level == 0 <==> -8 < c < 8) by {
            assert(level == crate::coefficient_levels::coefficient_level_spec(c));
        }
        let next_avg = next_average_spec(Av2CoefficientCodingKind::LumaTransform, level, pos, average);
        lemma_signs_are_flags(coefficients, levels, dc_sign_ctx, hi - 1, next_avg);
        lemma_signs_are_flags(coefficients, levels, dc_sign_ctx, hi - 1, average);
        if level != 0 {
            let negative = c < 0;
            let sign = if si == 0 {
                crate::entropy::symbol_spec(
                    y_dc_sign_name(dc_sign_ctx),
                    Some((crate::txb_luma::AV2_STATIC_CDF_COEFF_Y_DC_SIGN_BASE + dc_sign_ctx) as usize),
                    if negative { 1 } else { 0 },
                )
            } else {
                crate::entropy::literal_spec("tile.coeff.y.ac_sign_negative"@, if negative { 1u32 } else { 0u32 }, 1)
            };
            let hr = high_range_fields("tile.coeff.y.high_range"@, Av2CoefficientCodingKind::LumaTransform, level, pos, average);
            let rest = luma_signs_desc(coefficients, levels, dc_sign_ctx, hi - 1, next_avg);
            assert(luma_signs_desc(coefficients, levels, dc_sign_ctx, hi, average) == seq![sign] + hr + rest);
            lemma_ac_sign_values_concat(seq![sign] + hr, rest);
            lemma_ac_sign_values_concat(seq![sign], hr);
            assert(no_ac_sign_name(hr)) by {
                assert forall|i: int| 0 <= i < hr.len() implies (#[trigger] hr[i]).0.len() != 29 by {
                    match high_range_symbol_spec(Av2CoefficientCodingKind::LumaTransform, level, pos, average) {
                        Some(s) => {},
                        None => {},
                    }
                }
            }
            lemma_no_ac_sign_values(hr);
            assert(seq![sign].drop_last() =~= Seq::<Av2FieldSpec>::empty());
            assert(ac_sign_values(Seq::<Av2FieldSpec>::empty()) =~= Seq::<Option<u32>>::empty());
            if si == 0 {
                assert(y_dc_sign_name(dc_sign_ctx).len() == 34);
                assert(ac_sign_values(seq![sign]) =~= Seq::<Option<u32>>::empty());
                assert(ac_sign_values(luma_signs_desc(coefficients, levels, dc_sign_ctx, hi, average)) =~= ac_negative_flags(coefficients, hi));
            } else {
                assert(ac_sign_values(seq![sign]) =~= seq![Some(if negative { 1u32 } else { 0u32 })]);
                assert(ac_sign_values(luma_signs_desc(coefficients, levels, dc_sign_ctx, hi, average)) =~= ac_negative_flags(coefficients, hi));
            }
        } else {
            assert(ac_negative_flags(coefficients, hi) =~= ac_negative_flags(coefficients, hi - 1)) by {
                if hi > 1 {
                    assert(c == coefficients[TX4X4_SCAN@[hi - 1] as int]);
                }
            }
        }
    }
}

proof fn lemma_flags_past_eob(coefficients: Seq<i32>, n: int)
    requires
        coefficients.len() == 16,
        0 <= n <= 16,
    ensures
        ac_negative_flags(coefficients, n) == ac_negative_flags(coefficients, scan_eob_spec(levels_spec(coefficients), TX4X4_SCAN@, n)),
    decreases n,
{
    let levels = levels_spec(coefficients);
    if n > 0 {
        let pos = TX4X4_SCAN@[n - 1] as int;
        assert(0 <= pos < 16) by {
            assert(forall|i: int| 0 <= i < 16 ==> TX4X4_SCAN[i] < 16);
        }
        if levels[pos] == 0 {
            lemma_flags_past_eob(coefficients, n - 1);
            let c = coefficients[pos];
            assert(levels[pos] == crate::coefficient_levels::coefficient_level_spec(c));
            assert(ac_negative_flags(coefficients, n) =~= ac_negative_flags(coefficients, n - 1));
        }
    }
}

proof fn lemma_scan_eob_le(levels: Seq<u32>, n: int)
    requires
        0 <= n,
    ensures
        0 <= scan_eob_spec(levels, TX4X4_SCAN@, n) <= n,
    decreases n,
{
    if n > 0 {
        lemma_scan_eob_le(levels, n - 1);
    }
}

/// The AC sign literals that a luma block writes, read in order, are the
/// signs of its AC coefficients of nonzero level in reverse scan order: 1
/// exactly for a negative coefficient. A decoder reading them back recovers
/// every AC sign.
pub proof fn lemma_luma_ac_signs_read_back(
    policy: Av2LumaTxbSyntaxPolicy,
    skip_ctx: u8,
    dc_sign_ctx: u8,
    coefficients: Seq<i32>,
)
    requires
        coefficients.len() == 16,
    ensures
        ac_sign_values(luma_txb_fields(policy, skip_ctx, dc_sign_ctx, coefficients)) == ac_negative_flags(coefficients, 16),
{
    let levels = levels_spec(coefficients);
    let eob = scan_eob_spec(levels, TX4X4_SCAN@, 16);
    lemma_flags_past_eob(coefficients, 16);
    assert(0 <= eob <= 16) by {
        lemma_scan_eob_le(levels, 16);
    }
    if eob == 0 {
        lemma_skip_no_ac_sign(policy, skip_ctx, true);
        lemma_no_ac_sign_values(luma_skip_fields(policy, skip_ctx, true));
    } else {
        let s = luma_skip_fields(policy, skip_ctx, false);
        let e = luma_eob_fields(policy, eob);
        let l = luma_levels_desc(levels, eob, eob);
        let g = luma_signs_desc(coefficients, levels, dc_sign_ctx, eob, 0);
        lemma_skip_no_ac_sign(policy, skip_ctx, false);
        lemma_eob_no_ac_sign(policy, eob);
        lemma_levels_no_ac_sign(levels, eob, eob);
        lemma_no_ac_sign_values(s);
        lemma_no_ac_sign_values(e);
        lemma_no_ac_sign_values(l);
        lemma_ac_sign_values_concat(s + e + l, g);
        lemma_ac_sign_values_concat(s + e, l);
        lemma_ac_sign_values_concat(s, e);
        lemma_signs_are_flags(coefficients, levels, dc_sign_ctx, eob, 0);
        assert(ac_sign_values(s + e + l + g) =~= ac_negative_flags(coefficients, eob));
    }
}

/// The symbols of the elements named `name` among `fields`, in order.
pub open spec fn named_symbols(fields: Seq<Av2FieldSpec>, name: Seq<char>) -> Seq<Option<usize>>
    decreases fields.len(),
{
    if fields.len() == 0 {
        Seq::empty()
    } else {
        named_symbols(fields.drop_last(), name) + if fields.last().0 == name {
            seq![fields.last().1]
        } else {
            Seq::empty()
        }
    }
}

/// No element of `fields` is named `name`.
pub open spec fn none_named(fields: Seq<Av2FieldSpec>, name: Seq<char>) -> bool {
    forall|i: int| 0 <= i < fields.len() ==> (#[trigger] fields[i]).0 != name
}

proof fn lemma_named_symbols_concat(a: Seq<Av2FieldSpec>, b: Seq<Av2FieldSpec>, name: Seq<char>)
    ensures
        named_symbols(a + b, name) == named_symbols(a, name) + named_symbols(b, name),
    decreases b.len(),
{
    if b.len() == 0 {
        assert(a + b =~= a);
        assert(named_symbols(a, name) + named_symbols(b, name) =~= named_symbols(a, name));
    } else {
        assert((a + b).drop_last() =~= a + b.drop_last());
        lemma_named_symbols_concat(a, b.drop_last(), name);
        assert(named_symbols(a + b, name) =~= named_symbols(a, name) + named_symbols(b, name));
    }
}

proof fn lemma_none_named_symbols(fields: Seq<Av2FieldSpec>, name: Seq<char>)
    requires
        none_named(fields, name),
    ensures
        named_symbols(fields, name) == Seq::<Option<usize>>::empty(),
    decreases fields.len(),
{
    if fields.len() > 0 {
        assert(fields.last() == fields[fields.len() - 1]);
        assert(none_named(fields.drop_last(), name)) by {
            assert forall|i: int| 0 <= i < fields.drop_last().len() implies (#[trigger] fields.drop_last()[i]).0 != name by {
                assert(fields.drop_last()[i] == fields[i]);
            }
        }
        lemma_none_named_symbols(fields.drop_last(), name);
        assert(named_symbols(fields, name) =~= Seq::<Option<usize>>::empty());
    }
}

/// Names that are not 34 characters long are not a luma DC sign name.
proof fn lemma_len_not_dc_name(fields: Seq<Av2FieldSpec>, dc_sign_ctx: u8)
    requires
        forall|i: int| 0 <= i < fields.len() ==> (#[trigger] fields[i]).0.len() != 34,
    ensures
        none_named(fields, y_dc_sign_name(dc_sign_ctx)),
{
    reveal_strlit("tile.coeff.y.dc_sign_negative_ctx0");
    reveal_strlit("tile.coeff.y.dc_sign_negative_ctx1");
    reveal_strlit("tile.coeff.y.dc_sign_negative_ctx2");
    assert(y_dc_sign_name(dc_sign_ctx).len() == 34);
}

/// The symbol the DC sign of a luma block must carry: 1 for a negative DC
/// coefficient of nonzero level, 0 for a positive one; no symbol when the
/// DC level is zero.
pub open spec fn dc_negative_flag(coefficients: Seq<i32>) -> Seq<Option<usize>> {
    let c = coefficients[0];
    if c <= -8 || c >= 8 { seq![Some(if c < 0 { 1usize } else { 0usize })] } else { Seq::empty() }
}

proof fn lemma_signs_dc(coefficients: Seq<i32>, levels: Seq<u32>, dc_sign_ctx: u8, hi: int, average: u32)
    requires
        coefficients.len() == 16,
        levels == levels_spec(coefficients),
        0 <= hi <= 16,
    ensures
        named_symbols(luma_signs_desc(coefficients, levels, dc_sign_ctx, hi, average), y_dc_sign_name(dc_sign_ctx)) == (if hi > 0 {
            dc_negative_flag(coefficients)
        } else {
            Seq::empty()
        }),
    decreases hi,
{
    reveal_strlit("tile.coeff.y.ac_sign_negative");
    reveal_strlit("tile.coeff.y.dc_sign_negative_ctx0");
    reveal_strlit("tile.coeff.y.dc_sign_negative_ctx1");
    reveal_strlit("tile.coeff.y.dc_sign_negative_ctx2");
    reveal_strlit("tile.coeff.y.high_range");
    let name = y_dc_sign_name(dc_sign_ctx);
    assert(name.len() == 34);
    if hi > 0 {
        let si = hi - 1;
        let pos = TX4X4_SCAN@[si] as int;
        assert(0 <= pos < 16) by {
            assert(forall|i: int| 0 <= i < 16 ==> TX4X4_SCAN[i] < 16);
        }
        assert(TX4X4_SCAN@[0] == 0);
        let level = levels[pos];
        let c = coefficients[pos];
        assert(level == 0 <==> -8 < c < 8) by {
            assert(level == crate::coefficient_levels::coefficient_level_spec(c));
        }
        let next_avg = next_average_spec(Av2CoefficientCodingKind::LumaTransform, level, pos, average);
        lemma_signs_dc(coefficients, levels, dc_sign_ctx, hi - 1, next_avg);
        lemma_signs_dc(coefficients, levels, dc_sign_ctx, hi - 1, average);
        if level != 0 {
            let negative = c < 0;
            let sign = if si == 0 {
                crate::entropy::symbol_spec(
                    name,
                    Some((crate::txb_luma::AV2_STATIC_CDF_COEFF_Y_DC_SIGN_BASE + dc_sign_ctx) as usize),
                    if negative { 1 } else { 0 },
                )
            } else {
                crate::entropy::literal_spec("tile.coeff.y.ac_sign_negative"@, if negative { 1u32 } else { 0u32 }, 1)
            };
            let hr = high_range_fields("tile.coeff.y.high_range"@, Av2CoefficientCodingKind::LumaTransform, level, pos, average);
            let rest = luma_signs_desc(coefficients, levels, dc_sign_ctx, hi - 1, next_avg);
            assert(luma_signs_desc(coefficients, levels, dc_sign_ctx, hi, average) == seq![sign] + hr + rest);
            lemma_named_symbols_concat(seq![sign] + hr, rest, name);
            lemma_named_symbols_concat(seq![sign], hr, name);
            assert forall|i: int| 0 <= i < hr.len() implies (#[trigger] hr[i]).0.len() != 34 by {
                match high_range_symbol_spec(Av2CoefficientCodingKind::LumaTransform, level, pos, average) {
                    Some(s) => {},
                    None => {},
                }
            }
            lemma_len_not_dc_name(hr, dc_sign_ctx);
            lemma_none_named_symbols(hr, name);
            assert(seq![sign].drop_last() =~= Seq::<Av2FieldSpec>::empty());
            assert(named_symbols(Seq::<Av2FieldSpec>::empty(), name) =~= Seq::<Option<usize>>::empty());
            if si == 0 {
                assert(named_symbols(seq![sign], name) =~= seq![Some(if negative { 1usize } else { 0usize })]);
                assert(named_symbols(luma_signs_desc(coefficients, levels, dc_sign_ctx, hi, average), name) =~= dc_negative_flag(coefficients));
            } else {
                assert(named_symbols(seq![sign], name) =~= Seq::<Option<usize>>::empty());
                assert(named_symbols(luma_signs_desc(coefficients, levels, dc_sign_ctx, hi, average), name) =~= named_symbols(rest, name));
            }
        } else if si == 0 {
            assert(named_symbols(luma_signs_desc(coefficients, levels, dc_sign_ctx, hi, average), name) =~= dc_negative_flag(coefficients));
        }
    }
}

/// The DC sign symbol that a luma block writes is 1 exactly for a negative
/// DC coefficient, and is written exactly when the DC level is nonzero.
pub proof fn lemma_luma_dc_sign_read_back(
    policy: Av2LumaTxbSyntaxPolicy,
    skip_ctx: u8,
    dc_sign_ctx: u8,
    coefficients: Seq<i32>,
)
    requires
        coefficients.len() == 16,
    ensures
        named_symbols(luma_txb_fields(policy, skip_ctx, dc_sign_ctx, coefficients), y_dc_sign_name(dc_sign_ctx)) == dc_negative_flag(
            coefficients,
        ),
{
    let levels = levels_spec(coefficients);
    let eob = scan_eob_spec(levels, TX4X4_SCAN@, 16);
    let name = y_dc_sign_name(dc_sign_ctx);
    lemma_scan_eob_le(levels, 16);
    reveal_strlit("tile.coeff.y.dc_sign_negative_ctx0");
    reveal_strlit("tile.coeff.y.dc_sign_negative_ctx1");
    reveal_strlit("tile.coeff.y.dc_sign_negative_ctx2");
    reveal_strlit("tile.tx_type.inter_reduced_dct_dct");
    assert(name.len() == 34);
    assert(TX4X4_SCAN@[0] == 0);
    if eob == 0 {
        lemma_skip_names_lengths(normalize_spec(skip_ctx, 1, 5, 5));
        let s = luma_skip_fields(policy, skip_ctx, true);
        assert forall|i: int| 0 <= i < s.len() implies (#[trigger] s[i]).0.len() != 34 by {}
        lemma_len_not_dc_name(s, dc_sign_ctx);
        lemma_none_named_symbols(s, name);
        assert(levels[0] == 0) by {
            lemma_zero_before_eob_dc(levels);
        }
        assert(levels[0] == crate::coefficient_levels::coefficient_level_spec(coefficients[0]));
        assert(dc_negative_flag(coefficients) =~= Seq::<Option<usize>>::empty());
    } else {
        let s = luma_skip_fields(policy, skip_ctx, false);
        let e = luma_eob_fields(policy, eob);
        let l = luma_levels_desc(levels, eob, eob);
        let g = luma_signs_desc(coefficients, levels, dc_sign_ctx, eob, 0);
        lemma_skip_names_lengths(normalize_spec(skip_ctx, 1, 5, 5));
        assert forall|i: int| 0 <= i < s.len() implies (#[trigger] s[i]).0.len() != 34 by {}
        lemma_len_not_dc_name(s, dc_sign_ctx);
        lemma_eob_not_dc_name(policy, eob, dc_sign_ctx);
        lemma_levels_no_ac_sign(levels, eob, eob);
        lemma_levels_not_dc_name(levels, eob, eob, dc_sign_ctx);
        lemma_none_named_symbols(s, name);
        lemma_none_named_symbols(e, name);
        lemma_none_named_symbols(l, name);
        lemma_named_symbols_concat(s + e + l, g, name);
        lemma_named_symbols_concat(s + e, l, name);
        lemma_named_symbols_concat(s, e, name);
        lemma_signs_dc(coefficients, levels, dc_sign_ctx, eob, 0);
        assert(named_symbols(s + e + l + g, name) =~= dc_negative_flag(coefficients));
    }
}

/// With no nonzero level in the scan, the DC level is zero.
proof fn lemma_zero_before_eob_dc(levels: Seq<u32>)
    requires
        scan_eob_spec(levels, TX4X4_SCAN@, 16) == 0,
    ensures
        levels[0] == 0,
{
    lemma_eob_zero_all(levels, 16);
    assert(TX4X4_SCAN@[0] == 0);
}

proof fn lemma_eob_zero_all(levels: Seq<u32>, n: int)
    requires
        0 <= n <= 16,
        scan_eob_spec(levels, TX4X4_SCAN@, n) == 0,
    ensures
        forall|i: int| 0 <= i < n ==> levels[TX4X4_SCAN@[i] as int] == 0,
    decreases n,
{
    if n > 0 {
        lemma_eob_zero_all(levels, n - 1);
    }
}

proof fn lemma_eob_not_dc_name(policy: Av2LumaTxbSyntaxPolicy, eob: int, dc_sign_ctx: u8)
    ensures
        none_named(luma_eob_fields(policy, eob), y_dc_sign_name(dc_sign_ctx)),
{
    reveal_strlit("tile.coeff.y.eob_pt_tx4x4");
    reveal_strlit("tile.coeff.y.eob_extra");
    reveal_strlit("tile.coeff.y.inter_eob_pt_tx4x4");
    reveal_strlit("tile.coeff.y.inter_eob_extra");
    reveal_strlit("tile.coeff.eob_extra_bit");
    reveal_strlit("tile.tx_type.inter_reduced_dct_dct");
    reveal_strlit("tile.coeff.y.dc_sign_negative_ctx0");
    reveal_strlit("tile.coeff.y.dc_sign_negative_ctx1");
    reveal_strlit("tile.coeff.y.dc_sign_negative_ctx2");
    let name = y_dc_sign_name(dc_sign_ctx);
    let tx = "tile.tx_type.inter_reduced_dct_dct"@;
    assert(tx[5] == 't');
    if dc_sign_ctx == 0 {
        assert(name[5] == 'c');
    } else if dc_sign_ctx == 1 {
        assert(name[5] == 'c');
    } else {
        assert(name[5] == 'c');
    }
    assert(tx != name);
    assert(name.len() == 34);
    let f = luma_eob_fields(policy, eob);
    assert forall|i: int| 0 <= i < f.len() implies (#[trigger] f[i]).0 != name by {
        match policy {
            Av2LumaTxbSyntaxPolicy::Intra => {},
            Av2LumaTxbSyntaxPolicy::Inter => {
                let e = eob_fields_spec("tile.coeff.y.inter_eob_pt_tx4x4"@, crate::txb_eob::AV2_STATIC_CDF_EOB_Y_INTER, "tile.coeff.y.inter_eob_extra"@, eob);
                if i < e.len() {
                    assert(f[i] == e[i]);
                } else {
                    assert(f[i].0 == tx);
                }
            },
        }
    }
}

proof fn lemma_levels_not_dc_name(levels: Seq<u32>, eob: int, hi: int, dc_sign_ctx: u8)
    ensures
        none_named(luma_levels_desc(levels, eob, hi), y_dc_sign_name(dc_sign_ctx)),
    decreases hi,
{
    reveal_strlit("tile.coeff.y.base");
    reveal_strlit("tile.coeff.y.base_eob");
    reveal_strlit("tile.coeff.y.base_lf");
    reveal_strlit("tile.coeff.y.base_lf_eob");
    reveal_strlit("tile.coeff.y.low_range");
    reveal_strlit("tile.coeff.y.low_range_lf");
    let l = luma_levels_desc(levels, eob, hi);
    assert forall|i: int| 0 <= i < l.len() implies (#[trigger] l[i]).0.len() != 34 by {
        lemma_levels_short_names(levels, eob, hi);
    }
    lemma_len_not_dc_name(l, dc_sign_ctx);
}

proof fn lemma_levels_short_names(levels: Seq<u32>, eob: int, hi: int)
    ensures
        forall|i: int| 0 <= i < luma_levels_desc(levels, eob, hi).len() ==> (#[trigger] luma_levels_desc(levels, eob, hi)[i]).0.len() <= 25,
    decreases hi,
{
    reveal_strlit("tile.coeff.y.base");
    reveal_strlit("tile.coeff.y.base_eob");
    reveal_strlit("tile.coeff.y.base_lf");
    reveal_strlit("tile.coeff.y.base_lf_eob");
    reveal_strlit("tile.coeff.y.low_range");
    reveal_strlit("tile.coeff.y.low_range_lf");
    if hi > 0 {
        lemma_levels_short_names(levels, eob, hi - 1);
        let si = hi - 1;
        let pos = TX4X4_SCAN@[si] as int;
        let is_eob = si + 1 == eob;
        let head = luma_level_fields(levels, pos, is_eob, crate::coefficient_contexts::luma_nz_map_spec(levels, pos, si, is_eob), levels[pos]);
        let rest = luma_levels_desc(levels, eob, hi - 1);
        assert(luma_levels_desc(levels, eob, hi) == head + rest);
        assert forall|i: int| 0 <= i < (head + rest).len() implies (#[trigger] (head + rest)[i]).0.len() <= 25 by {
            if i < head.len() {
                assert((head + rest)[i] == head[i]);
            } else {
                assert((head + rest)[i] == rest[i - head.len()]);
            }
        }
    }
}

/// Fields whose names differ in length from `name` are not named `name`.
proof fn lemma_len_not_named(fields: Seq<Av2FieldSpec>, name: Seq<char>)
    requires
        forall|i: int| 0 <= i < fields.len() ==> (#[trigger] fields[i]).0.len() != name.len(),
    ensures
        none_named(fields, name),
{
}

/// The sign symbols a forward-skip block must carry for its coefficients
/// of nonzero level at scan indices `lo` to 15, in scan order: 1 for a
/// negative coefficient, 0 for a positive one.
pub open spec fn idtx_negative_flags(coefficients: Seq<i32>, lo: int) -> Seq<Option<usize>>
    decreases 16 - lo,
{
    if lo >= 16 {
        Seq::empty()
    } else {
        let c = coefficients[TX4X4_SCAN@[lo] as int];
        (if c <= -8 || c >= 8 { seq![Some(if c < 0 { 1usize } else { 0usize })] } else { Seq::empty() }) + idtx_negative_flags(
            coefficients,
            lo + 1,
        )
    }
}

proof fn lemma_fsc_levels_names(levels: Seq<u32>, bob: int, lo: int)
    requires
        0 <= lo,
    ensures
        forall|i: int| 0 <= i < fsc_levels_asc(levels, bob, lo).len() ==> (#[trigger] fsc_levels_asc(levels, bob, lo)[i]).0.len() != 31,
    decreases 16 - lo,
{
    reveal_strlit("tile.coeff.y.idtx_base_bob");
    reveal_strlit("tile.coeff.y.idtx_base");
    reveal_strlit("tile.coeff.y.idtx_low_range");
    if lo < 16 {
        lemma_fsc_levels_names(levels, bob, lo + 1);
        let head = fsc_level_fields(levels, bob, lo);
        let rest = fsc_levels_asc(levels, bob, lo + 1);
        assert(fsc_levels_asc(levels, bob, lo) == head + rest);
        assert forall|i: int| 0 <= i < (head + rest).len() implies (#[trigger] (head + rest)[i]).0.len() != 31 by {
            if i < head.len() {
                assert((head + rest)[i] == head[i]);
            } else {
                assert((head + rest)[i] == rest[i - head.len()]);
            }
        }
    }
}

proof fn lemma_fsc_signs_are_flags(coefficients: Seq<i32>, levels: Seq<u32>, lo: int, average: u32)
    requires
        coefficients.len() == 16,
        levels == levels_spec(coefficients),
        0 <= lo,
    ensures
        named_symbols(fsc_signs_asc(coefficients, levels, lo, average), "tile.coeff.y.idtx_sign_negative"@) == idtx_negative_flags(
            coefficients,
            lo,
        ),
    decreases 16 - lo,
{
    reveal_strlit("tile.coeff.y.idtx_sign_negative");
    reveal_strlit("tile.coeff.y.idtx_high_range");
    let name = "tile.coeff.y.idtx_sign_negative"@;
    if lo < 16 {
        let pos = TX4X4_SCAN@[lo] as int;
        assert(0 <= pos < 16) by {
            assert(forall|i: int| 0 <= i < 16 ==> TX4X4_SCAN[i] < 16);
        }
        let level = levels[pos];
        let c = coefficients[pos];
        assert(level == 0 <==> -8 < c < 8) by {
            assert(level == crate::coefficient_levels::coefficient_level_spec(c));
        }
        let next_avg = next_average_spec(Av2CoefficientCodingKind::LumaIdtx, level, 0, average);
        lemma_fsc_signs_are_flags(coefficients, levels, lo + 1, next_avg);
        lemma_fsc_signs_are_flags(coefficients, levels, lo + 1, average);
        if level != 0 {
            let sign = crate::entropy::symbol_spec(name, None, if c < 0 { 1 } else { 0 });
            let hr = high_range_fields("tile.coeff.y.idtx_high_range"@, Av2CoefficientCodingKind::LumaIdtx, level, 0, average);
            let rest = fsc_signs_asc(coefficients, levels, lo + 1, next_avg);
            assert(fsc_signs_asc(coefficients, levels, lo, average) == seq![sign] + hr + rest);
            lemma_named_symbols_concat(seq![sign] + hr, rest, name);
            lemma_named_symbols_concat(seq![sign], hr, name);
            assert forall|i: int| 0 <= i < hr.len() implies (#[trigger] hr[i]).0.len() != name.len() by {
                match high_range_symbol_spec(Av2CoefficientCodingKind::LumaIdtx, level, 0, average) {
                    Some(s) => {},
                    None => {},
                }
            }
            lemma_len_not_named(hr, name);
            lemma_none_named_symbols(hr, name);
            assert(seq![sign].drop_last() =~= Seq::<Av2FieldSpec>::empty());
            assert(named_symbols(Seq::<Av2FieldSpec>::empty(), name) =~= Seq::<Option<usize>>::empty());
            assert(named_symbols(seq![sign], name) =~= seq![Some(if c < 0 { 1usize } else { 0usize })]);
            assert(named_symbols(fsc_signs_asc(coefficients, levels, lo, average), name) =~= idtx_negative_flags(coefficients, lo));
        } else {
            assert(idtx_negative_flags(coefficients, lo) =~= idtx_negative_flags(coefficients, lo + 1));
        }
    }
}

proof fn lemma_all_zero_no_idtx_flags(coefficients: Seq<i32>, lo: int)
    requires
        coefficients.len() == 16,
        0 <= lo,
        first_nonzero_from(levels_spec(coefficients), lo) == 16,
    ensures
        idtx_negative_flags(coefficients, lo) == Seq::<Option<usize>>::empty(),
    decreases 16 - lo,
{
    if lo < 16 {
        let levels = levels_spec(coefficients);
        let pos = TX4X4_SCAN@[lo] as int;
        assert(0 <= pos < 16) by {
            assert(forall|i: int| 0 <= i < 16 ==> TX4X4_SCAN[i] < 16);
        }
        assert(levels[pos] == crate::coefficient_levels::coefficient_level_spec(coefficients[pos]));
        lemma_all_zero_no_idtx_flags(coefficients, lo + 1);
        assert(idtx_negative_flags(coefficients, lo) =~= Seq::<Option<usize>>::empty());
    }
}

/// The sign symbols that a forward-skip (identity transform) luma block
/// writes, read in order, are the signs of its coefficients of nonzero
/// level in scan order: 1 exactly for a negative coefficient.
pub proof fn lemma_idtx_signs_read_back(coefficients: Seq<i32>)
    requires
        coefficients.len() == 16,
    ensures
        named_symbols(fsc_txb_fields(coefficients), "tile.coeff.y.idtx_sign_negative"@) == idtx_negative_flags(coefficients, 0),
{
    reveal_strlit("tile.coeff.y.idtx_sign_negative");
    reveal_strlit("tile.coeff.y.txb_all_zero_fsc_tx4x4_ctx9");
    reveal_strlit("tile.coeff.y.txb_nonzero_fsc_tx4x4_ctx9");
    reveal_strlit("tile.coeff.y.eob_pt_tx4x4");
    reveal_strlit("tile.coeff.y.eob_extra");
    reveal_strlit("tile.coeff.eob_extra_bit");
    let name = "tile.coeff.y.idtx_sign_negative"@;
    let levels = levels_spec(coefficients);
    let bob = first_nonzero_from(levels, 0);
    if bob == 16 {
        let s = fsc_skip_fields(true);
        lemma_len_not_named(s, name);
        lemma_none_named_symbols(s, name);
        lemma_all_zero_no_idtx_flags(coefficients, 0);
    } else {
        let s = fsc_skip_fields(false);
        let e = eob_fields_spec("tile.coeff.y.eob_pt_tx4x4"@, crate::txb_eob::AV2_STATIC_CDF_EOB_Y, "tile.coeff.y.eob_extra"@, 16 - bob);
        let l = fsc_levels_asc(levels, bob, bob);
        let g = fsc_signs_asc(coefficients, levels, 0, 0);
        assert(0 <= bob) by {
            lemma_first_nonzero_ge(levels, 0);
        }
        lemma_fsc_levels_names(levels, bob, bob);
        lemma_len_not_named(s, name);
        lemma_len_not_named(e, name);
        lemma_len_not_named(l, name);
        lemma_none_named_symbols(s, name);
        lemma_none_named_symbols(e, name);
        lemma_none_named_symbols(l, name);
        lemma_named_symbols_concat(s + e + l, g, name);
        lemma_named_symbols_concat(s + e, l, name);
        lemma_named_symbols_concat(s, e, name);
        lemma_fsc_signs_are_flags(coefficients, levels, 0, 0);
        assert(named_symbols(s + e + l + g, name) =~= idtx_negative_flags(coefficients, 0));
    }
}

proof fn lemma_first_nonzero_ge(levels: Seq<u32>, lo: int)
    requires
        0 <= lo,
    ensures
        lo <= first_nonzero_from(levels, lo) <= 16 || lo > 16,
    decreases 16 - lo,
{
    if lo < 16 {
        lemma_first_nonzero_ge(levels, lo + 1);
    }
}

} // verus!
