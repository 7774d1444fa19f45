use vstd::prelude::*;
use crate::block_size::Av2MvpBlockSize;
use crate::entropy::{
    Av2EntropyWriter, Av2FieldSpec, fields_appended, lemma_fields_appended_one, lemma_fields_appended_trans, symbol_spec,
};
use crate::mode_contexts::{Av2InterModeContext, Av2IntrabcContext, Av2IntrabcNeighborField};

verus! {

pub const AV2_STATIC_CDF_INTER_IS_INTER_BASE: usize = 380;
pub const AV2_STATIC_CDF_INTER_SKIP_TXFM_BASE: usize = 384;
pub const AV2_STATIC_CDF_INTER_SINGLE_REF_BASE: usize = 390;
pub const AV2_STATIC_CDF_INTER_SINGLE_MODE_BASE: usize = 394;
pub const AV2_STATIC_CDF_INTER_DRL_BASE: usize = 400;
pub const AV2_STATIC_CDF_INTRABC_USE_BASE: usize = 405;
pub const AV2_STATIC_CDF_INTRABC_SKIP_TXFM_BASE: usize = 408;
pub const AV2_STATIC_CDF_PARTITION_DO_SPLIT_BASE: usize = 415;
pub const AV2_STATIC_CDF_PARTITION_RECT_TYPE_BASE: usize = 479;
pub const AV2_STATIC_CDF_INTRA_FSC_MODE_BASE: usize = 543;
pub const AV2_STATIC_CDF_INTRA_Y_MODE_IDX_OFFSET_BASE: usize = 567;
pub const AV2_STATIC_CDF_INTRA_Y_MODE_IDX_BASE: usize = 570;
pub const AV2_STATIC_CDF_INTRA_UV_MODE_IDX_BASE: usize = 573;

/// Static CDF key of the intra/inter flag in context `ctx`.
pub fn inter_is_inter_static_cdf_key(ctx: usize) -> (r: usize)
    requires
        ctx <= usize::MAX - AV2_STATIC_CDF_INTER_IS_INTER_BASE,
    ensures
        r == AV2_STATIC_CDF_INTER_IS_INTER_BASE + ctx,
{
    AV2_STATIC_CDF_INTER_IS_INTER_BASE + ctx
}

/// Static CDF key of the inter skip flag in context `ctx`.
pub fn inter_skip_txfm_static_cdf_key(ctx: usize) -> (r: usize)
    requires
        ctx <= usize::MAX - AV2_STATIC_CDF_INTER_SKIP_TXFM_BASE,
    ensures
        r == AV2_STATIC_CDF_INTER_SKIP_TXFM_BASE + ctx,
{
    AV2_STATIC_CDF_INTER_SKIP_TXFM_BASE + ctx
}

/// Static CDF key of the single-reference flag in context `ctx`.
pub fn inter_single_ref_static_cdf_key(ctx: usize) -> (r: usize)
    requires
        ctx <= usize::MAX - AV2_STATIC_CDF_INTER_SINGLE_REF_BASE,
    ensures
        r == AV2_STATIC_CDF_INTER_SINGLE_REF_BASE + ctx,
{
    AV2_STATIC_CDF_INTER_SINGLE_REF_BASE + ctx
}

/// Static CDF key of the single-reference inter mode in context `ctx`.
pub fn inter_single_mode_static_cdf_key(ctx: usize) -> (r: usize)
    requires
        ctx <= usize::MAX - AV2_STATIC_CDF_INTER_SINGLE_MODE_BASE,
    ensures
        r == AV2_STATIC_CDF_INTER_SINGLE_MODE_BASE + ctx,
{
    AV2_STATIC_CDF_INTER_SINGLE_MODE_BASE + ctx
}

/// Static CDF key of the reference-list index in context `ctx`.
pub fn inter_drl_static_cdf_key(ctx: usize) -> (r: usize)
    requires
        ctx <= usize::MAX - AV2_STATIC_CDF_INTER_DRL_BASE,
    ensures
        r == AV2_STATIC_CDF_INTER_DRL_BASE + ctx,
{
    AV2_STATIC_CDF_INTER_DRL_BASE + ctx
}

/// Static CDF key of the intra-block-copy flag in context `ctx`.
pub fn intrabc_use_static_cdf_key(ctx: usize) -> (r: usize)
    requires
        ctx <= usize::MAX - AV2_STATIC_CDF_INTRABC_USE_BASE,
    ensures
        r == AV2_STATIC_CDF_INTRABC_USE_BASE + ctx,
{
    AV2_STATIC_CDF_INTRABC_USE_BASE + ctx
}

/// Static CDF key of the intra-block-copy skip flag in context `ctx`.
pub fn intrabc_skip_txfm_static_cdf_key(ctx: usize) -> (r: usize)
    requires
        ctx <= usize::MAX - AV2_STATIC_CDF_INTRABC_SKIP_TXFM_BASE,
    ensures
        r == AV2_STATIC_CDF_INTRABC_SKIP_TXFM_BASE + ctx,
{
    AV2_STATIC_CDF_INTRABC_SKIP_TXFM_BASE + ctx
}

/// Static CDF key of the partition split flag in context `ctx`.
pub fn partition_do_split_static_cdf_key(ctx: usize) -> (r: usize)
    requires
        ctx <= usize::MAX - AV2_STATIC_CDF_PARTITION_DO_SPLIT_BASE,
    ensures
        r == AV2_STATIC_CDF_PARTITION_DO_SPLIT_BASE + ctx,
{
    AV2_STATIC_CDF_PARTITION_DO_SPLIT_BASE + ctx
}

/// Static CDF key of the rectangular partition type in context `ctx`.
pub fn partition_rect_type_static_cdf_key(ctx: usize) -> (r: usize)
    requires
        ctx <= usize::MAX - AV2_STATIC_CDF_PARTITION_RECT_TYPE_BASE,
    ensures
        r == AV2_STATIC_CDF_PARTITION_RECT_TYPE_BASE + ctx,
{
    AV2_STATIC_CDF_PARTITION_RECT_TYPE_BASE + ctx
}

/// Static CDF key of the forward-skip mode flag: six size groups per
/// context.
pub fn intra_fsc_mode_static_cdf_key(context: usize, size_group: usize) -> (r: usize)
    requires
        AV2_STATIC_CDF_INTRA_FSC_MODE_BASE + context * 6 + size_group <= usize::MAX,
    ensures
        r == AV2_STATIC_CDF_INTRA_FSC_MODE_BASE + context * 6 + size_group,
{
    AV2_STATIC_CDF_INTRA_FSC_MODE_BASE + context * 6 + size_group
}

/// Static CDF key of the luma mode index offset in mode context
/// `mode_context`.
pub fn intra_y_mode_idx_offset_static_cdf_key(mode_context: u8) -> (r: usize)
    ensures
        r == AV2_STATIC_CDF_INTRA_Y_MODE_IDX_OFFSET_BASE + mode_context,
{
    AV2_STATIC_CDF_INTRA_Y_MODE_IDX_OFFSET_BASE + mode_context as usize
}

/// Static CDF key of the luma mode index in mode context `mode_context`.
pub fn intra_y_mode_idx_static_cdf_key(mode_context: u8) -> (r: usize)
    ensures
        r == AV2_STATIC_CDF_INTRA_Y_MODE_IDX_BASE + mode_context,
{
    AV2_STATIC_CDF_INTRA_Y_MODE_IDX_BASE + mode_context as usize
}

/// Static CDF key of the chroma mode index in mode context `mode_context`.
pub fn intra_uv_mode_idx_static_cdf_key(mode_context: usize) -> (r: usize)
    requires
        mode_context <= usize::MAX - AV2_STATIC_CDF_INTRA_UV_MODE_IDX_BASE,
    ensures
        r == AV2_STATIC_CDF_INTRA_UV_MODE_IDX_BASE + mode_context,
{
    AV2_STATIC_CDF_INTRA_UV_MODE_IDX_BASE + mode_context
}

/// The intra/inter flag of a leaf.
pub open spec fn intra_flag_fields(intra_inter_ctx: int, is_inter: bool) -> Seq<Av2FieldSpec> {
    seq![symbol_spec("tile.inter.is_inter"@, Some((AV2_STATIC_CDF_INTER_IS_INTER_BASE + intra_inter_ctx) as usize), if is_inter { 1 } else { 0 })]
}

/// Codes the intra/inter flag of the leaf at `(row_mi, col_mi)`.
pub fn write_inter_intra_flag(
    writer: &mut Av2EntropyWriter,
    row_mi: usize,
    col_mi: usize,
    inter_context: &Av2InterModeContext,
    is_inter: bool,
)
    requires
        inter_context.wf(),
    ensures
        fields_appended(*old(writer), *final(writer), intra_flag_fields(inter_context.intra_inter_ctx_spec(row_mi, col_mi), is_inter)),
{
    let intra_inter_ctx = inter_context.intra_inter_ctx(row_mi, col_mi);
    let ghost before = *writer;
    writer.write_symbol_with_static_cdf_key(
        "tile.inter.is_inter",
        inter_is_inter_static_cdf_key(intra_inter_ctx),
        if is_inter { 1 } else { 0 },
    );
    proof {
        lemma_fields_appended_one(
            before,
            *writer,
            symbol_spec(
                "tile.inter.is_inter"@,
                Some((AV2_STATIC_CDF_INTER_IS_INTER_BASE + intra_inter_ctx) as usize),
                if is_inter { 1 } else { 0 },
            ),
        );
    }
}

/// The syntax of a global-motion inter leaf: the inter flag, the skip flag,
/// the single-reference flag when there is more than one reference, and the
/// global-motion mode.
pub open spec fn globalmv_fields(
    intra_inter_ctx: int,
    skip_ctx: int,
    single_ref_ctx: int,
    mode_ctx: int,
    total_refs: usize,
    skip_txfm: bool,
) -> Seq<Av2FieldSpec> {
    intra_flag_fields(intra_inter_ctx, true) + seq![
        symbol_spec("tile.inter.skip_txfm"@, Some((AV2_STATIC_CDF_INTER_SKIP_TXFM_BASE + skip_ctx) as usize), if skip_txfm { 1 } else { 0 }),
    ] + (if total_refs > 1 {
        seq![symbol_spec("tile.inter.single_ref"@, Some((AV2_STATIC_CDF_INTER_SINGLE_REF_BASE + single_ref_ctx) as usize), 1)]
    } else {
        Seq::empty()
    }) + seq![symbol_spec("tile.inter.single_mode"@, Some((AV2_STATIC_CDF_INTER_SINGLE_MODE_BASE + mode_ctx) as usize), 1)]
}

/// Codes a global-motion inter leaf, skipped or with a residual.
fn write_inter_globalmv(
    writer: &mut Av2EntropyWriter,
    row_mi: usize,
    col_mi: usize,
    block_size: Av2MvpBlockSize,
    skip_context: &Av2IntrabcContext,
    inter_context: &Av2InterModeContext,
    total_refs: usize,
    skip_txfm: bool,
)
    requires
        skip_context.wf(),
        inter_context.wf(),
        row_mi + block_size.height / 4 <= usize::MAX,
        col_mi + block_size.width / 4 <= usize::MAX,
    ensures
        fields_appended(
            *old(writer),
            *final(writer),
            globalmv_fields(
                inter_context.intra_inter_ctx_spec(row_mi, col_mi),
                skip_context.neighbor_sum_spec(row_mi, col_mi, block_size, false, Av2IntrabcNeighborField::Skip),
                inter_context.single_ref_ctx_spec(row_mi, col_mi, 0, total_refs),
                inter_context.inter_single_mode_ctx_spec(row_mi, col_mi, block_size, 0),
                total_refs,
                skip_txfm,
            ),
        ),
{
    let ghost w0 = *writer;
    write_inter_intra_flag(writer, row_mi, col_mi, inter_context, true);
    let ghost w1 = *writer;
    let skip_ctx = skip_context.skip_txfm_ctx(row_mi, col_mi, block_size);
    writer.write_symbol_with_static_cdf_key(
        "tile.inter.skip_txfm",
        inter_skip_txfm_static_cdf_key(skip_ctx),
        if skip_txfm { 1 } else { 0 },
    );
    let ghost s_skip = symbol_spec(
        "tile.inter.skip_txfm"@,
        Some((AV2_STATIC_CDF_INTER_SKIP_TXFM_BASE + skip_ctx) as usize),
        if skip_txfm { 1 } else { 0 },
    );
    proof {
        lemma_fields_appended_one(w1, *writer, s_skip);
        lemma_fields_appended_trans(w0, w1, *writer, intra_flag_fields(inter_context.intra_inter_ctx_spec(row_mi, col_mi), true), seq![s_skip]);
    }
    let ghost w2 = *writer;
    let ghost single_ref_ctx_spec = inter_context.single_ref_ctx_spec(row_mi, col_mi, 0, total_refs);
    let ghost ref_fields: Seq<Av2FieldSpec> = if total_refs > 1 {
        seq![symbol_spec("tile.inter.single_ref"@, Some((AV2_STATIC_CDF_INTER_SINGLE_REF_BASE + single_ref_ctx_spec) as usize), 1)]
    } else {
        Seq::empty()
    };
    if total_refs > 1 {
        let single_ref_ctx = inter_context.single_ref_ctx(row_mi, col_mi, 0, total_refs);
        writer.write_symbol_with_static_cdf_key("tile.inter.single_ref", inter_single_ref_static_cdf_key(single_ref_ctx), 1);
        proof {
            lemma_fields_appended_one(w2, *writer, ref_fields[0]);
            assert(seq![ref_fields[0]] =~= ref_fields);
        }
    } else {
        proof {
            crate::entropy::lemma_fields_appended_none(w2);
        }
    }
    proof {
        lemma_fields_appended_trans(
            w0,
            w2,
            *writer,
            intra_flag_fields(inter_context.intra_inter_ctx_spec(row_mi, col_mi), true) + seq![s_skip],
            ref_fields,
        );
    }
    let ghost w3 = *writer;
    let mode_ctx = inter_context.inter_single_mode_ctx(row_mi, col_mi, block_size, 0);
    writer.write_symbol_with_static_cdf_key("tile.inter.single_mode", inter_single_mode_static_cdf_key(mode_ctx), 1);
    let ghost s_mode = symbol_spec("tile.inter.single_mode"@, Some((AV2_STATIC_CDF_INTER_SINGLE_MODE_BASE + mode_ctx) as usize), 1);
    proof {
        lemma_fields_appended_one(w3, *writer, s_mode);
        lemma_fields_appended_trans(
            w0,
            w3,
            *writer,
            intra_flag_fields(inter_context.intra_inter_ctx_spec(row_mi, col_mi), true) + seq![s_skip] + ref_fields,
            seq![s_mode],
        );
    }
}

/// Codes a skipped global-motion inter leaf.
pub fn write_inter_globalmv_skip(
    writer: &mut Av2EntropyWriter,
    row_mi: usize,
    col_mi: usize,
    block_size: Av2MvpBlockSize,
    skip_context: &Av2IntrabcContext,
    inter_context: &Av2InterModeContext,
    total_refs: usize,
)
    requires
        skip_context.wf(),
        inter_context.wf(),
        row_mi + block_size.height / 4 <= usize::MAX,
        col_mi + block_size.width / 4 <= usize::MAX,
    ensures
        fields_appended(
            *old(writer),
            *final(writer),
            globalmv_fields(
                inter_context.intra_inter_ctx_spec(row_mi, col_mi),
                skip_context.neighbor_sum_spec(row_mi, col_mi, block_size, false, Av2IntrabcNeighborField::Skip),
                inter_context.single_ref_ctx_spec(row_mi, col_mi, 0, total_refs),
                inter_context.inter_single_mode_ctx_spec(row_mi, col_mi, block_size, 0),
                total_refs,
                true,
            ),
        ),
{
    write_inter_globalmv(writer, row_mi, col_mi, block_size, skip_context, inter_context, total_refs, true);
}

/// Codes a global-motion inter leaf with a residual.
pub fn write_inter_globalmv_residual(
    writer: &mut Av2EntropyWriter,
    row_mi: usize,
    col_mi: usize,
    block_size: Av2MvpBlockSize,
    skip_context: &Av2IntrabcContext,
    inter_context: &Av2InterModeContext,
    total_refs: usize,
)
    requires
        skip_context.wf(),
        inter_context.wf(),
        row_mi + block_size.height / 4 <= usize::MAX,
        col_mi + block_size.width / 4 <= usize::MAX,
    ensures
        fields_appended(
            *old(writer),
            *final(writer),
            globalmv_fields(
                inter_context.intra_inter_ctx_spec(row_mi, col_mi),
                skip_context.neighbor_sum_spec(row_mi, col_mi, block_size, false, Av2IntrabcNeighborField::Skip),
                inter_context.single_ref_ctx_spec(row_mi, col_mi, 0, total_refs),
                inter_context.inter_single_mode_ctx_spec(row_mi, col_mi, block_size, 0),
                total_refs,
                false,
            ),
        ),
{
    write_inter_globalmv(writer, row_mi, col_mi, block_size, skip_context, inter_context, total_refs, false);
}

} // verus!
