use vstd::prelude::*;
use crate::entropy::Av2EntropyWriter;
use crate::entropy::Av2FieldSpec;
use crate::entropy::fields_appended;
use crate::entropy::lemma_fields_appended_one;
use crate::entropy::lemma_fields_appended_trans;
use crate::entropy::literal_spec;
use crate::entropy::symbol_spec;
use crate::geometry::TX4X4_SIZE;

verus! {

pub const AV2_STATIC_CDF_EOB_Y: usize = 100;
pub const AV2_STATIC_CDF_EOB_UV: usize = 101;
pub const AV2_STATIC_CDF_EOB_EXTRA: usize = 102;
pub const AV2_STATIC_CDF_EOB_Y_INTER: usize = 600;
pub const AV2_STATIC_CDF_INTER_EXT_TX_DCT_IDTX_4X4_BASE: usize = 601;
pub const AV2_STATIC_CDF_EOB_UV_TX8X8: usize = 640;
pub const AV2_STATIC_CDF_EOB_UV_TX4X8: usize = 641;

/// End-of-block position token: the group `1 + ceil(log2(eob))` (1 for an
/// end of block of 1).
pub open spec fn eob_token_spec(eob: int) -> int {
    if eob <= 1 {
        1
    } else if eob <= 2 {
        2
    } else if eob <= 4 {
        3
    } else if eob <= 8 {
        4
    } else if eob <= 16 {
        5
    } else if eob <= 32 {
        6
    } else {
        7
    }
}

/// First end-of-block value of token group `token`.
pub open spec fn eob_group_start_spec(token: int) -> int {
    if token <= 3 {
        token
    } else if token == 4 {
        5
    } else if token == 5 {
        9
    } else if token == 6 {
        17
    } else {
        33
    }
}

/// Extra bits coded after token `token`.
pub open spec fn eob_offset_bits_spec(token: int) -> int {
    if token <= 2 { 0 } else { token - 2 }
}

/// Splits an end of block (1 to 64) into its position token and the offset
/// within the token's group.
pub fn eob_pos_token(eob: usize) -> (r: (usize, usize))
    requires
        1 <= eob <= 64,
    ensures
        r.0 == eob_token_spec(eob as int),
        r.1 == eob - eob_group_start_spec(r.0 as int),
        0 <= r.1 < vstd::arithmetic::power2::pow2(eob_offset_bits_spec(r.0 as int) as nat),
{
    let eob_to_pos_small: [usize; 33] = [
        0, 1, 2, 3, 3, 4, 4, 4, 4, 5, 5, 5, 5, 5, 5, 5, 5, 6, 6, 6, 6, 6, 6, 6, 6, 6, 6, 6, 6, 6,
        6, 6, 6,
    ];
    let eob_group_start: [usize; 12] = [0, 1, 2, 3, 5, 9, 17, 33, 65, 129, 257, 513];
    let token = if eob < 33 {
        eob_to_pos_small[eob]
    } else {
        7
    };
    proof {
        vstd::arithmetic::power2::lemma2_to64();
    }
    (token, eob - eob_group_start[token])
}

/// Number of extra bits coded after an end-of-block token.
pub fn eob_offset_bits(eob_pt: usize) -> (r: usize)
    requires
        eob_pt < 12,
    ensures
        r == (if eob_pt <= 2 { 0 } else { eob_pt - 2 }),
{
    let eob_offset_bits: [usize; 12] = [0, 0, 0, 1, 2, 3, 4, 5, 6, 7, 8, 9];
    eob_offset_bits[eob_pt]
}

/// The syntax elements of one end-of-block geometry.
#[derive(Clone, Copy)]
pub struct Av2EobSyntax {
    pub point_name: &'static str,
    pub point_cdf_key: usize,
    pub point_symbols: usize,
    pub extra_name: &'static str,
}

/// The elements coding an end of block: the position token, then (for
/// tokens above 2) the most significant offset bit as a symbol and the other
/// offset bits as literal bits.
pub open spec fn eob_fields_spec(point_name: Seq<char>, point_cdf_key: usize, extra_name: Seq<char>, eob: int) -> Seq<Av2FieldSpec> {
    let token = eob_token_spec(eob);
    let extra = eob - eob_group_start_spec(token);
    let bits = eob_offset_bits_spec(token);
    let point = seq![symbol_spec(point_name, Some(point_cdf_key), (token - 1) as usize)];
    if bits > 0 {
        let shift = (bits - 1) as nat;
        let p = vstd::arithmetic::power2::pow2(shift) as int;
        point + seq![
            symbol_spec("tile.coeff.eob_extra_bit"@, Some(AV2_STATIC_CDF_EOB_EXTRA), ((extra / p) % 2) as usize),
            literal_spec(extra_name, (extra % p) as u32, shift),
        ]
    } else {
        point
    }
}

/// Writes an end of block with the given geometry's elements.
pub fn write_eob(writer: &mut Av2EntropyWriter, eob: usize, syntax: Av2EobSyntax)
    requires
        1 <= eob <= 64,
        eob_token_spec(eob as int) <= syntax.point_symbols,
    ensures
        fields_appended(*old(writer), *final(writer), eob_fields_spec(syntax.point_name@, syntax.point_cdf_key, syntax.extra_name@, eob as int)),
{
    let (eob_pt, eob_extra) = eob_pos_token(eob);
    let ghost w0 = *writer;
    writer.write_symbol_with_static_cdf_key(syntax.point_name, syntax.point_cdf_key, eob_pt - 1);
    let ghost w1 = *writer;
    let ghost point = symbol_spec(syntax.point_name@, Some(syntax.point_cdf_key), (eob_pt - 1) as usize);
    proof {
        lemma_fields_appended_one(w0, w1, point);
    }
    let offset_bits = eob_offset_bits(eob_pt);
    if offset_bits > 0 {
        let eob_shift = offset_bits - 1;
        let powers: [usize; 6] = [1, 2, 4, 8, 16, 32];
        let p = powers[eob_shift];
        proof {
            vstd::arithmetic::power2::lemma2_to64();
            assert(p == vstd::arithmetic::power2::pow2(eob_shift as nat));
        }
        let bit = (eob_extra / p) % 2;
        writer.write_symbol_with_static_cdf_key("tile.coeff.eob_extra_bit", AV2_STATIC_CDF_EOB_EXTRA, bit);
        let ghost w2 = *writer;
        let ghost bit_field = symbol_spec("tile.coeff.eob_extra_bit"@, Some(AV2_STATIC_CDF_EOB_EXTRA), bit);
        let low_bits = eob_extra % p;
        writer.write_literal(syntax.extra_name, low_bits as u32, eob_shift as u8);
        let ghost low_field = literal_spec(syntax.extra_name@, low_bits as u32, eob_shift as nat);
        proof {
            lemma_fields_appended_one(w1, w2, bit_field);
            lemma_fields_appended_one(w2, *writer, low_field);
            lemma_fields_appended_trans(w1, w2, *writer, seq![bit_field], seq![low_field]);
            lemma_fields_appended_trans(w0, w1, *writer, seq![point], seq![bit_field] + seq![low_field]);
            assert(seq![bit_field] + seq![low_field] =~= seq![bit_field, low_field]);
        }
    }
}

/// Intra luma 4x4 end of block.
pub fn write_eob_y(writer: &mut Av2EntropyWriter, eob: usize)
    requires
        1 <= eob <= 16,
    ensures
        fields_appended(*old(writer), *final(writer), eob_fields_spec("tile.coeff.y.eob_pt_tx4x4"@, AV2_STATIC_CDF_EOB_Y, "tile.coeff.y.eob_extra"@, eob as int)),
{
    let syntax = Av2EobSyntax {
        point_name: "tile.coeff.y.eob_pt_tx4x4",
        point_cdf_key: AV2_STATIC_CDF_EOB_Y,
        point_symbols: 5,
        extra_name: "tile.coeff.y.eob_extra",
    };
    write_eob(writer, eob, syntax);
}

/// Inter luma 4x4 end of block.
pub fn write_eob_y_inter(writer: &mut Av2EntropyWriter, eob: usize)
    requires
        1 <= eob <= 16,
    ensures
        fields_appended(*old(writer), *final(writer), eob_fields_spec("tile.coeff.y.inter_eob_pt_tx4x4"@, AV2_STATIC_CDF_EOB_Y_INTER, "tile.coeff.y.inter_eob_extra"@, eob as int)),
{
    let syntax = Av2EobSyntax {
        point_name: "tile.coeff.y.inter_eob_pt_tx4x4",
        point_cdf_key: AV2_STATIC_CDF_EOB_Y_INTER,
        point_symbols: 5,
        extra_name: "tile.coeff.y.inter_eob_extra",
    };
    write_eob(writer, eob, syntax);
}

/// Chroma 4x4 end of block.
pub fn write_eob_uv(writer: &mut Av2EntropyWriter, eob: usize)
    requires
        1 <= eob <= 16,
    ensures
        fields_appended(*old(writer), *final(writer), eob_fields_spec("tile.coeff.uv.eob_pt_tx4x4"@, AV2_STATIC_CDF_EOB_UV, "tile.coeff.uv.eob_extra"@, eob as int)),
{
    let syntax = Av2EobSyntax {
        point_name: "tile.coeff.uv.eob_pt_tx4x4",
        point_cdf_key: AV2_STATIC_CDF_EOB_UV,
        point_symbols: 5,
        extra_name: "tile.coeff.uv.eob_extra",
    };
    write_eob(writer, eob, syntax);
}

/// Chroma 8x8 end of block.
pub fn write_eob_uv_tx8x8(writer: &mut Av2EntropyWriter, eob: usize)
    requires
        1 <= eob <= 64,
    ensures
        fields_appended(*old(writer), *final(writer), eob_fields_spec("tile.coeff.uv.eob_pt_tx8x8"@, AV2_STATIC_CDF_EOB_UV_TX8X8, "tile.coeff.uv.eob_extra_tx8x8"@, eob as int)),
{
    let syntax = Av2EobSyntax {
        point_name: "tile.coeff.uv.eob_pt_tx8x8",
        point_cdf_key: AV2_STATIC_CDF_EOB_UV_TX8X8,
        point_symbols: 7,
        extra_name: "tile.coeff.uv.eob_extra_tx8x8",
    };
    write_eob(writer, eob, syntax);
}

/// Chroma 4x8 end of block.
pub fn write_eob_uv_tx4x8(writer: &mut Av2EntropyWriter, eob: usize)
    requires
        1 <= eob <= 32,
    ensures
        fields_appended(*old(writer), *final(writer), eob_fields_spec("tile.coeff.uv.eob_pt_tx4x8"@, AV2_STATIC_CDF_EOB_UV_TX4X8, "tile.coeff.uv.eob_extra_tx4x8"@, eob as int)),
{
    let syntax = Av2EobSyntax {
        point_name: "tile.coeff.uv.eob_pt_tx4x8",
        point_cdf_key: AV2_STATIC_CDF_EOB_UV_TX4X8,
        point_symbols: 6,
        extra_name: "tile.coeff.uv.eob_extra_tx4x8",
    };
    write_eob(writer, eob, syntax);
}

/// Transform-type context of an inter 4x4 block: from the raster position
/// `eob - 1`, 1 near DC (row + column below 2), 2 far from it (above 4),
/// else 0.
pub fn regular_inter_tx_type_eob_ctx_4x4(eob: usize) -> (r: usize)
    requires
        1 <= eob <= 16,
    ensures
        ({
            let last = eob - 1;
            let diag = last % 4 + last / 4;
            r == (if diag < 2 { 1int } else if diag > 4 { 2int } else { 0int })
        }),
{
    let last = eob - 1;
    let diag = last % TX4X4_SIZE + last / TX4X4_SIZE;
    if diag < 2 {
        1
    } else if diag > 4 {
        2
    } else {
        0
    }
}

/// The transform type of an inter 4x4 block in the reduced DCT/IDTX set:
/// symbol 1 (DCT_DCT).
pub fn write_regular_inter_dct_dct_tx_type(writer: &mut Av2EntropyWriter, eob: usize)
    requires
        1 <= eob <= 16,
    ensures
        ({
            let last = eob - 1;
            let diag = last % 4 + last / 4;
            let ctx: int = if diag < 2 { 1 } else if diag > 4 { 2 } else { 0 };
            fields_appended(
                *old(writer),
                *final(writer),
                seq![symbol_spec("tile.tx_type.inter_reduced_dct_dct"@, Some((AV2_STATIC_CDF_INTER_EXT_TX_DCT_IDTX_4X4_BASE + ctx) as usize), 1)],
            )
        }),
{
    let eob_ctx = regular_inter_tx_type_eob_ctx_4x4(eob);
    let ghost w0 = *writer;
    writer.write_symbol_with_static_cdf_key(
        "tile.tx_type.inter_reduced_dct_dct",
        AV2_STATIC_CDF_INTER_EXT_TX_DCT_IDTX_4X4_BASE + eob_ctx,
        1,
    );
    proof {
        lemma_fields_appended_one(
            w0,
            *writer,
            symbol_spec("tile.tx_type.inter_reduced_dct_dct"@, Some((AV2_STATIC_CDF_INTER_EXT_TX_DCT_IDTX_4X4_BASE + eob_ctx) as usize), 1),
        );
    }
}

/// The end of block a decoder reads back from the elements of an end of
/// block: the position token `t` (coded as `t - 1`) names the group
/// starting at `t` for `t <= 2` and at `2^(t - 2) + 1` above; for `t >= 3`
/// the high offset bit and then the `t - 3` low offset bits follow.
pub open spec fn decoded_eob(fields: Seq<Av2FieldSpec>) -> int {
    let t = fields[0].1.unwrap() as int + 1;
    if t <= 2 {
        t
    } else {
        vstd::arithmetic::power2::pow2((t - 2) as nat) + 1 + fields[1].1.unwrap() as int * vstd::arithmetic::power2::pow2(
            (t - 3) as nat,
        ) + fields[2].3.unwrap() as int
    }
}

/// An end of block codes losslessly: its elements are the point token, then
/// (for ends past 2) the high offset bit and the low offset literal, and a
/// decoder reading them back recovers the end of block.
pub proof fn lemma_eob_fields_read_back(point_name: Seq<char>, point_cdf_key: usize, extra_name: Seq<char>, eob: int)
    requires
        1 <= eob <= 64,
    ensures
        ({
            let f = eob_fields_spec(point_name, point_cdf_key, extra_name, eob);
            &&& f.len() == 1 || f.len() == 3
            &&& f[0].0 == point_name
            &&& f.len() == 3 ==> f[1].1 is Some && f[2].3 is Some && f[2].0 == extra_name
            &&& decoded_eob(f) == eob
        }),
{
    vstd::arithmetic::power2::lemma2_to64();
    let token = eob_token_spec(eob);
    let extra = eob - eob_group_start_spec(token);
    let bits = eob_offset_bits_spec(token);
    let f = eob_fields_spec(point_name, point_cdf_key, extra_name, eob);
    if bits > 0 {
        let shift = (bits - 1) as nat;
        let p = vstd::arithmetic::power2::pow2(shift) as int;
        assert(0 <= extra < 2 * p);
        vstd::arithmetic::div_mod::lemma_fundamental_div_mod(extra, p);
        assert(0 <= extra / p < 2) by {
            vstd::arithmetic::div_mod::lemma_div_pos_is_pos(extra, p);
            if extra / p >= 2 {
                assert(p * (extra / p) >= 2 * p) by (nonlinear_arith)
                    requires
                        extra / p >= 2,
                        p > 0,
                ;
            }
        }
        assert((extra / p) % 2 == extra / p);
        assert(f[1].1.unwrap() as int == extra / p);
        assert(f[2].3.unwrap() as int == extra % p) by {
            vstd::arithmetic::div_mod::lemma_mod_pos_bound(extra, p);
        }
        assert(decoded_eob(f) == vstd::arithmetic::power2::pow2((token - 2) as nat) + 1 + (extra / p) * p + extra % p) by {
            assert((extra / p) * p == p * (extra / p)) by (nonlinear_arith);
        }
    }
}

} // verus!
