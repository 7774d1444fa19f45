use vstd::prelude::*;
use crate::coefficient_levels::levels_spec;
use crate::entropy::Av2FieldSpec;
use crate::high_range::{Av2CoefficientCodingKind, chroma_high_range_name, high_range_fields, high_range_symbol_spec, next_average_spec};
use crate::sample::Av2ChromaPlane;
use crate::txb_chroma::{
    Av2ChromaTxbGeometry, chroma_coefficient_names, chroma_eob_fields, chroma_level_fields, chroma_levels_desc, chroma_sign_name,
    chroma_signs_desc, chroma_skip_fields, chroma_txb_fields, geometry_samples, geometry_scan, scan_eob_spec,
};
use crate::txb_skip::{u_skip_names, u_tx8x8_skip_names, v_skip_names};

verus! {

/// Whether `name` is one of the two sign-bit names (DC or AC) of a chroma
/// plane's blocks of geometry `g`.
pub open spec fn is_chroma_sign_name(g: Av2ChromaTxbGeometry, plane: Av2ChromaPlane, name: Seq<char>) -> bool {
    name == chroma_sign_name(g, plane, true) || name == chroma_sign_name(g, plane, false)
}

/// The values of the sign bits among `fields`, in order.
pub open spec fn chroma_sign_values(g: Av2ChromaTxbGeometry, plane: Av2ChromaPlane, fields: Seq<Av2FieldSpec>) -> Seq<Option<u32>>
    decreases fields.len(),
{
    if fields.len() == 0 {
        Seq::empty()
    } else {
        chroma_sign_values(g, plane, fields.drop_last()) + if is_chroma_sign_name(g, plane, fields.last().0) {
            seq![fields.last().3]
        } else {
            Seq::empty()
        }
    }
}

/// The signs a decoder must recover for the coefficients at scan indices
/// `hi - 1` down to 0 whose level is nonzero (magnitude at least 8): 1 for a
/// negative coefficient, 0 for a positive one.
pub open spec fn chroma_negative_flags(g: Av2ChromaTxbGeometry, coefficients: Seq<i32>, hi: int) -> Seq<Option<u32>>
    decreases hi,
{
    if hi <= 0 {
        Seq::empty()
    } else {
        let c = coefficients[geometry_scan(g)[hi - 1] as int];
        (if c <= -8 || c >= 8 { seq![Some(if c < 0 { 1u32 } else { 0u32 })] } else { Seq::empty() }) + chroma_negative_flags(
            g,
            coefficients,
            hi - 1,
        )
    }
}

/// Every name in `fields` has a character other than `a` or `d` after the
/// plane prefix, so none is a sign-bit name.
pub open spec fn no_sign_mark(fields: Seq<Av2FieldSpec>) -> bool {
    forall|i: int| 0 <= i < fields.len() ==> (#[trigger] fields[i]).0.len() > 13 && fields[i].0[13] != 'a' && fields[i].0[13] != 'd'
}

proof fn lemma_sign_names_marked(g: Av2ChromaTxbGeometry, plane: Av2ChromaPlane, dc: bool)
    ensures
        chroma_sign_name(g, plane, dc).len() > 13,
        chroma_sign_name(g, plane, dc)[13] == 'a' || chroma_sign_name(g, plane, dc)[13] == 'd',
{
    reveal_strlit("tile.coeff.u.ac_sign_negative");
    reveal_strlit("tile.coeff.u.ac_sign_negative_tx4x8");
    reveal_strlit("tile.coeff.u.ac_sign_negative_tx8x8");
    reveal_strlit("tile.coeff.u.dc_sign_negative");
    reveal_strlit("tile.coeff.u.dc_sign_negative_tx4x8");
    reveal_strlit("tile.coeff.u.dc_sign_negative_tx8x8");
    reveal_strlit("tile.coeff.v.ac_sign_negative");
    reveal_strlit("tile.coeff.v.ac_sign_negative_tx4x8");
    reveal_strlit("tile.coeff.v.ac_sign_negative_tx8x8");
    reveal_strlit("tile.coeff.v.dc_sign_negative");
    reveal_strlit("tile.coeff.v.dc_sign_negative_tx4x8");
    reveal_strlit("tile.coeff.v.dc_sign_negative_tx8x8");
}

proof fn lemma_chroma_sign_values_concat(g: Av2ChromaTxbGeometry, plane: Av2ChromaPlane, a: Seq<Av2FieldSpec>, b: Seq<Av2FieldSpec>)
    ensures
        chroma_sign_values(g, plane, a + b) == chroma_sign_values(g, plane, a) + chroma_sign_values(g, plane, b),
    decreases b.len(),
{
    if b.len() == 0 {
        assert(a + b =~= a);
        assert(chroma_sign_values(g, plane, a) + chroma_sign_values(g, plane, b) =~= chroma_sign_values(g, plane, a));
    } else {
        assert((a + b).drop_last() =~= a + b.drop_last());
        lemma_chroma_sign_values_concat(g, plane, a, b.drop_last());
        assert(chroma_sign_values(g, plane, a + b) =~= chroma_sign_values(g, plane, a) + chroma_sign_values(g, plane, b));
    }
}

proof fn lemma_no_sign_values(g: Av2ChromaTxbGeometry, plane: Av2ChromaPlane, fields: Seq<Av2FieldSpec>)
    requires
        no_sign_mark(fields),
    ensures
        chroma_sign_values(g, plane, fields) == Seq::<Option<u32>>::empty(),
    decreases fields.len(),
{
    if fields.len() > 0 {
        lemma_sign_names_marked(g, plane, true);
        lemma_sign_names_marked(g, plane, false);
        let f = fields.last();
        assert(f == fields[fields.len() - 1]);
        if f.0 == chroma_sign_name(g, plane, true) {
            assert(f.0[13] == chroma_sign_name(g, plane, true)[13]);
        }
        if f.0 == chroma_sign_name(g, plane, false) {
            assert(f.0[13] == chroma_sign_name(g, plane, false)[13]);
        }
        assert(no_sign_mark(fields.drop_last())) by {
            assert forall|i: int| 0 <= i < fields.drop_last().len() implies (#[trigger] fields.drop_last()[i]).0.len() > 13
                && fields.drop_last()[i].0[13] != 'a' && fields.drop_last()[i].0[13] != 'd' by {
                assert(fields.drop_last()[i] == fields[i]);
            }
        }
        lemma_no_sign_values(g, plane, fields.drop_last());
        assert(chroma_sign_values(g, plane, fields) =~= Seq::<Option<u32>>::empty());
    }
}

proof fn lemma_u_skip_marks(ctx: u8, fsc: bool)
    ensures
        u_skip_names(ctx, fsc).0.len() > 13 && u_skip_names(ctx, fsc).0[13] == 't',
        u_skip_names(ctx, fsc).1.len() > 13 && u_skip_names(ctx, fsc).1[13] == 't',
{
    reveal_strlit("tile.coeff.u.txb_all_zero_fsc_tx4x4_ctx6");
    reveal_strlit("tile.coeff.u.txb_all_zero_fsc_tx4x4_ctx7");
    reveal_strlit("tile.coeff.u.txb_all_zero_fsc_tx4x4_ctx8");
    reveal_strlit("tile.coeff.u.txb_all_zero_tx4x4_ctx6");
    reveal_strlit("tile.coeff.u.txb_all_zero_tx4x4_ctx7");
    reveal_strlit("tile.coeff.u.txb_all_zero_tx4x4_ctx8");
    reveal_strlit("tile.coeff.u.txb_nonzero_fsc_tx4x4_ctx6");
    reveal_strlit("tile.coeff.u.txb_nonzero_fsc_tx4x4_ctx7");
    reveal_strlit("tile.coeff.u.txb_nonzero_fsc_tx4x4_ctx8");
    reveal_strlit("tile.coeff.u.txb_nonzero_tx4x4_ctx6");
    reveal_strlit("tile.coeff.u.txb_nonzero_tx4x4_ctx7");
    reveal_strlit("tile.coeff.u.txb_nonzero_tx4x4_ctx8");
}

proof fn lemma_u8_skip_marks(ctx: u8, inter: bool)
    ensures
        u_tx8x8_skip_names(ctx, inter).0.len() > 13 && u_tx8x8_skip_names(ctx, inter).0[13] == 't',
        u_tx8x8_skip_names(ctx, inter).1.len() > 13 && u_tx8x8_skip_names(ctx, inter).1[13] == 't',
{
    reveal_strlit("tile.coeff.u.txb_all_zero_inter_tx8x8_ctx6");
    reveal_strlit("tile.coeff.u.txb_all_zero_inter_tx8x8_ctx7");
    reveal_strlit("tile.coeff.u.txb_all_zero_inter_tx8x8_ctx8");
    reveal_strlit("tile.coeff.u.txb_all_zero_tx8x8_ctx6");
    reveal_strlit("tile.coeff.u.txb_all_zero_tx8x8_ctx7");
    reveal_strlit("tile.coeff.u.txb_all_zero_tx8x8_ctx8");
    reveal_strlit("tile.coeff.u.txb_nonzero_inter_tx8x8_ctx6");
    reveal_strlit("tile.coeff.u.txb_nonzero_inter_tx8x8_ctx7");
    reveal_strlit("tile.coeff.u.txb_nonzero_inter_tx8x8_ctx8");
    reveal_strlit("tile.coeff.u.txb_nonzero_tx8x8_ctx6");
    reveal_strlit("tile.coeff.u.txb_nonzero_tx8x8_ctx7");
    reveal_strlit("tile.coeff.u.txb_nonzero_tx8x8_ctx8");
}

proof fn lemma_v_skip_marks(ctx: u8)
    ensures
        v_skip_names(ctx).0.len() > 13 && v_skip_names(ctx).0[13] == 't',
        v_skip_names(ctx).1.len() > 13 && v_skip_names(ctx).1[13] == 't',
{
    reveal_strlit("tile.coeff.v.txb_all_zero_tx4x4_ctx0");
    reveal_strlit("tile.coeff.v.txb_all_zero_tx4x4_ctx1");
    reveal_strlit("tile.coeff.v.txb_all_zero_tx4x4_ctx10");
    reveal_strlit("tile.coeff.v.txb_all_zero_tx4x4_ctx11");
    reveal_strlit("tile.coeff.v.txb_all_zero_tx4x4_ctx2");
    reveal_strlit("tile.coeff.v.txb_all_zero_tx4x4_ctx3");
    reveal_strlit("tile.coeff.v.txb_all_zero_tx4x4_ctx4");
    reveal_strlit("tile.coeff.v.txb_all_zero_tx4x4_ctx5");
    reveal_strlit("tile.coeff.v.txb_all_zero_tx4x4_ctx6");
    reveal_strlit("tile.coeff.v.txb_all_zero_tx4x4_ctx7");
    reveal_strlit("tile.coeff.v.txb_all_zero_tx4x4_ctx8");
    reveal_strlit("tile.coeff.v.txb_all_zero_tx4x4_ctx9");
    reveal_strlit("tile.coeff.v.txb_nonzero_tx4x4_ctx0");
    reveal_strlit("tile.coeff.v.txb_nonzero_tx4x4_ctx1");
    reveal_strlit("tile.coeff.v.txb_nonzero_tx4x4_ctx10");
    reveal_strlit("tile.coeff.v.txb_nonzero_tx4x4_ctx11");
    reveal_strlit("tile.coeff.v.txb_nonzero_tx4x4_ctx2");
    reveal_strlit("tile.coeff.v.txb_nonzero_tx4x4_ctx3");
    reveal_strlit("tile.coeff.v.txb_nonzero_tx4x4_ctx4");
    reveal_strlit("tile.coeff.v.txb_nonzero_tx4x4_ctx5");
    reveal_strlit("tile.coeff.v.txb_nonzero_tx4x4_ctx6");
    reveal_strlit("tile.coeff.v.txb_nonzero_tx4x4_ctx7");
    reveal_strlit("tile.coeff.v.txb_nonzero_tx4x4_ctx8");
    reveal_strlit("tile.coeff.v.txb_nonzero_tx4x4_ctx9");
}

proof fn lemma_skip_no_sign(g: Av2ChromaTxbGeometry, plane: Av2ChromaPlane, skip_ctx: u8, syntax_context: bool, all_zero: bool)
    ensures
        no_sign_mark(chroma_skip_fields(g, plane, skip_ctx, syntax_context, all_zero)),
{
    lemma_u_skip_marks(crate::txb_skip::normalize_spec(skip_ctx, 6, 8, 8), syntax_context);
    lemma_u8_skip_marks(crate::txb_skip::normalize_spec(skip_ctx, 6, 8, 8), syntax_context);
    lemma_v_skip_marks(crate::txb_skip::normalize_spec(skip_ctx, 0, 11, 11));
}

proof fn lemma_eob_no_sign(g: Av2ChromaTxbGeometry, eob: int)
    ensures
        no_sign_mark(chroma_eob_fields(g, eob)),
{
    reveal_strlit("tile.coeff.uv.eob_extra");
    reveal_strlit("tile.coeff.uv.eob_extra_tx4x8");
    reveal_strlit("tile.coeff.uv.eob_extra_tx8x8");
    reveal_strlit("tile.coeff.uv.eob_pt_tx4x4");
    reveal_strlit("tile.coeff.uv.eob_pt_tx4x8");
    reveal_strlit("tile.coeff.uv.eob_pt_tx8x8");
    reveal_strlit("tile.coeff.eob_extra_bit");
}

proof fn lemma_level_names_marks(g: Av2ChromaTxbGeometry)
    ensures
        ({
            let n = chroma_coefficient_names(g);
            &&& n.0.len() > 13 && n.0[13] == '.'
            &&& n.1.len() > 13 && n.1[13] == '.'
            &&& n.2.len() > 13 && n.2[13] == '.'
            &&& n.3.len() > 13 && n.3[13] == '.'
            &&& n.4.len() > 13 && n.4[13] == '.'
        }),
{
    reveal_strlit("tile.coeff.uv.base");
    reveal_strlit("tile.coeff.uv.base_eob");
    reveal_strlit("tile.coeff.uv.base_eob_tx4x8");
    reveal_strlit("tile.coeff.uv.base_eob_tx8x8");
    reveal_strlit("tile.coeff.uv.base_lf");
    reveal_strlit("tile.coeff.uv.base_lf_eob");
    reveal_strlit("tile.coeff.uv.base_lf_eob_tx4x8");
    reveal_strlit("tile.coeff.uv.base_lf_eob_tx8x8");
    reveal_strlit("tile.coeff.uv.base_lf_tx4x8");
    reveal_strlit("tile.coeff.uv.base_lf_tx8x8");
    reveal_strlit("tile.coeff.uv.base_tx4x8");
    reveal_strlit("tile.coeff.uv.base_tx8x8");
    reveal_strlit("tile.coeff.uv.low_range");
    reveal_strlit("tile.coeff.uv.low_range_tx4x8");
    reveal_strlit("tile.coeff.uv.low_range_tx8x8");
}

proof fn lemma_levels_no_sign(g: Av2ChromaTxbGeometry, plane: Av2ChromaPlane, levels: Seq<u32>, eob: int, hi: int)
    ensures
        no_sign_mark(chroma_levels_desc(g, plane, levels, eob, hi)),
    decreases hi,
{
    if hi > 0 {
        lemma_levels_no_sign(g, plane, levels, eob, hi - 1);
        lemma_level_names_marks(g);
        let si = hi - 1;
        let pos = geometry_scan(g)[si] as int;
        let is_eob = si + 1 == eob;
        let ctx = crate::coefficient_contexts::chroma_nz_map_spec(
            levels,
            crate::txb_chroma::geometry_width(g),
            crate::txb_chroma::geometry_height(g),
            pos,
            si,
            is_eob,
            plane,
        );
        let head = chroma_level_fields(g, levels, pos, is_eob, ctx, levels[pos]);
        let rest = chroma_levels_desc(g, plane, levels, eob, hi - 1);
        assert(chroma_levels_desc(g, plane, levels, eob, hi) == head + rest);
        assert(no_sign_mark(head));
        assert forall|i: int| 0 <= i < (head + rest).len() implies (#[trigger] (head + rest)[i]).0.len() > 13
            && (head + rest)[i].0[13] != 'a' && (head + rest)[i].0[13] != 'd' by {
            if i < head.len() {
                assert((head + rest)[i] == head[i]);
            } else {
                assert((head + rest)[i] == rest[i - head.len()]);
            }
        }
    }
}

proof fn lemma_signs_are_flags(
    g: Av2ChromaTxbGeometry,
    plane: Av2ChromaPlane,
    coefficients: Seq<i32>,
    levels: Seq<u32>,
    hi: int,
    average: u32,
)
    requires
        coefficients.len() == geometry_samples(g),
        levels == levels_spec(coefficients),
        0 <= hi <= geometry_samples(g),
        forall|i: int| 0 <= i < geometry_samples(g) ==> 0 <= #[trigger] geometry_scan(g)[i] < geometry_samples(g),
        geometry_scan(g).len() == geometry_samples(g),
    ensures
        chroma_sign_values(g, plane, chroma_signs_desc(g, plane, coefficients, levels, hi, average)) == chroma_negative_flags(
            g,
            coefficients,
            hi,
        ),
    decreases hi,
{
    reveal_strlit("tile.coeff.u.high_range");
    reveal_strlit("tile.coeff.v.high_range");
    if hi > 0 {
        let si = hi - 1;
        let pos = geometry_scan(g)[si] as int;
        let level = levels[pos];
        let c = coefficients[pos];
        assert(level == 0 <==> -8 < c < 8) by {
            assert(level == crate::coefficient_levels::coefficient_level_spec(c));
        }
        let next_avg = next_average_spec(Av2CoefficientCodingKind::ChromaTransform, level, pos, average);
        lemma_signs_are_flags(g, plane, coefficients, levels, hi - 1, next_avg);
        lemma_signs_are_flags(g, plane, coefficients, levels, hi - 1, average);
        if level != 0 {
            let sign = crate::entropy::literal_spec(chroma_sign_name(g, plane, si == 0), if c < 0 { 1u32 } else { 0u32 }, 1);
            let hr = high_range_fields(chroma_high_range_name(plane), Av2CoefficientCodingKind::ChromaTransform, level, pos, average);
            let rest = chroma_signs_desc(g, plane, coefficients, levels, hi - 1, next_avg);
            assert(chroma_signs_desc(g, plane, coefficients, levels, hi, average) == seq![sign] + hr + rest);
            lemma_chroma_sign_values_concat(g, plane, seq![sign] + hr, rest);
            lemma_chroma_sign_values_concat(g, plane, seq![sign], hr);
            assert(no_sign_mark(hr)) by {
                assert(chroma_high_range_name(plane)[13] == 'h' && chroma_high_range_name(plane).len() > 13);
                match high_range_symbol_spec(Av2CoefficientCodingKind::ChromaTransform, level, pos, average) {
                    Some(s) => {},
                    None => {},
                }
            }
            lemma_no_sign_values(g, plane, hr);
            assert(seq![sign].drop_last() =~= Seq::<Av2FieldSpec>::empty());
            assert(chroma_sign_values(g, plane, Seq::<Av2FieldSpec>::empty()) =~= Seq::<Option<u32>>::empty());
            assert(is_chroma_sign_name(g, plane, sign.0));
            assert(chroma_sign_values(g, plane, seq![sign]) =~= seq![Some(if c < 0 { 1u32 } else { 0u32 })]);
            assert(chroma_sign_values(g, plane, chroma_signs_desc(g, plane, coefficients, levels, hi, average)) =~= chroma_negative_flags(
                g,
                coefficients,
                hi,
            ));
        } else {
            assert(chroma_negative_flags(g, coefficients, hi) =~= chroma_negative_flags(g, coefficients, hi - 1));
        }
    }
}

proof fn lemma_scan_eob_le(levels: Seq<u32>, scan: Seq<usize>, n: int)
    requires
        0 <= n,
    ensures
        0 <= scan_eob_spec(levels, scan, n) <= n,
    decreases n,
{
    if n > 0 {
        lemma_scan_eob_le(levels, scan, n - 1);
    }
}

proof fn lemma_flags_past_eob(g: Av2ChromaTxbGeometry, coefficients: Seq<i32>, n: int)
    requires
        coefficients.len() == geometry_samples(g),
        0 <= n <= geometry_samples(g),
        forall|i: int| 0 <= i < geometry_samples(g) ==> 0 <= #[trigger] geometry_scan(g)[i] < geometry_samples(g),
    ensures
        chroma_negative_flags(g, coefficients, n) == chroma_negative_flags(
            g,
            coefficients,
            scan_eob_spec(levels_spec(coefficients), geometry_scan(g), n),
        ),
    decreases n,
{
    let levels = levels_spec(coefficients);
    if n > 0 {
        let pos = geometry_scan(g)[n - 1] as int;
        if levels[pos] == 0 {
            lemma_flags_past_eob(g, coefficients, n - 1);
            assert(levels[pos] == crate::coefficient_levels::coefficient_level_spec(coefficients[pos]));
            assert(chroma_negative_flags(g, coefficients, n) =~= chroma_negative_flags(g, coefficients, n - 1));
        }
    }
}

proof fn lemma_scan_in_range(g: Av2ChromaTxbGeometry)
    ensures
        geometry_scan(g).len() == geometry_samples(g),
        forall|i: int| 0 <= i < geometry_samples(g) ==> 0 <= #[trigger] geometry_scan(g)[i] < geometry_samples(g),
{
    match g {
        Av2ChromaTxbGeometry::Tx4x4 => {
            assert(forall|i: int| 0 <= i < 16 ==> crate::geometry::TX4X4_SCAN[i] < 16);
        },
        Av2ChromaTxbGeometry::Tx8x8 => {
            assert(forall|i: int| 0 <= i < 64 ==> crate::geometry::TX8X8_SCAN[i] < 64);
        },
        Av2ChromaTxbGeometry::Tx4x8 => {
            assert(forall|i: int| 0 <= i < 32 ==> crate::geometry::TX4X8_SCAN[i] < 32);
        },
    }
}

/// The sign bits that a chroma block of any geometry writes, read in
/// order, are the signs of its coefficients of nonzero level in reverse
/// scan order, DC included: 1 exactly for a negative coefficient. A decoder
/// reading them back recovers every sign.
pub proof fn lemma_chroma_signs_read_back(
    g: Av2ChromaTxbGeometry,
    plane: Av2ChromaPlane,
    skip_ctx: u8,
    syntax_context: bool,
    coefficients: Seq<i32>,
)
    requires
        coefficients.len() == geometry_samples(g),
    ensures
        chroma_sign_values(g, plane, chroma_txb_fields(g, plane, skip_ctx, syntax_context, coefficients)) == chroma_negative_flags(
            g,
            coefficients,
            geometry_samples(g),
        ),
{
    let levels = levels_spec(coefficients);
    let n = geometry_samples(g);
    let eob = scan_eob_spec(levels, geometry_scan(g), n);
    lemma_scan_in_range(g);
    lemma_flags_past_eob(g, coefficients, n);
    lemma_scan_eob_le(levels, geometry_scan(g), n);
    if eob == 0 {
        lemma_skip_no_sign(g, plane, skip_ctx, syntax_context, true);
        lemma_no_sign_values(g, plane, chroma_skip_fields(g, plane, skip_ctx, syntax_context, true));
    } else {
        let s = chroma_skip_fields(g, plane, skip_ctx, syntax_context, false);
        let e = chroma_eob_fields(g, eob);
        let l = chroma_levels_desc(g, plane, levels, eob, eob);
        let q = chroma_signs_desc(g, plane, coefficients, levels, eob, 0);
        lemma_skip_no_sign(g, plane, skip_ctx, syntax_context, false);
        lemma_eob_no_sign(g, eob);
        lemma_levels_no_sign(g, plane, levels, eob, eob);
        lemma_no_sign_values(g, plane, s);
        lemma_no_sign_values(g, plane, e);
        lemma_no_sign_values(g, plane, l);
        lemma_chroma_sign_values_concat(g, plane, s + e + l, q);
        lemma_chroma_sign_values_concat(g, plane, s + e, l);
        lemma_chroma_sign_values_concat(g, plane, s, e);
        lemma_signs_are_flags(g, plane, coefficients, levels, eob, 0);
        assert(chroma_sign_values(g, plane, s + e + l + q) =~= chroma_negative_flags(g, coefficients, eob));
    }
}

} // verus!
