use vstd::prelude::*;
use crate::entropy::Av2EntropyWriter;
use crate::entropy::appended_one;
use crate::entropy::is_symbol_field;
use crate::entropy::last_field;

verus! {

pub const AV2_STATIC_CDF_TXB_SKIP_Y_BASE: usize = 0;
pub const AV2_STATIC_CDF_TXB_SKIP_Y_FSC_BASE: usize = 16;
pub const AV2_STATIC_CDF_TXB_SKIP_U_BASE: usize = 32;
pub const AV2_STATIC_CDF_TXB_SKIP_U_FSC_BASE: usize = 48;
pub const AV2_STATIC_CDF_TXB_SKIP_V_BASE: usize = 64;
pub const AV2_STATIC_CDF_TXB_SKIP_Y_INTER_BASE: usize = 584;
pub const AV2_STATIC_CDF_TXB_SKIP_U_TX8X8_BASE: usize = 620;
pub const AV2_STATIC_CDF_TXB_SKIP_U_INTER_TX8X8_BASE: usize = 630;

/// Static CDF key of the intra luma skip flag in context `skip_ctx`.
pub fn y_txb_skip_static_cdf_key(skip_ctx: u8) -> (r: usize)
    ensures
        r == AV2_STATIC_CDF_TXB_SKIP_Y_BASE + skip_ctx,
{
    AV2_STATIC_CDF_TXB_SKIP_Y_BASE + skip_ctx as usize
}

/// Static CDF key of the inter luma skip flag.
pub fn y_inter_txb_skip_static_cdf_key(skip_ctx: u8) -> (r: usize)
    ensures
        r == AV2_STATIC_CDF_TXB_SKIP_Y_INTER_BASE + skip_ctx,
{
    AV2_STATIC_CDF_TXB_SKIP_Y_INTER_BASE + skip_ctx as usize
}

/// Static CDF key of the forward-skip luma skip flag.
pub fn y_fsc_txb_skip_static_cdf_key(skip_ctx: u8) -> (r: usize)
    ensures
        r == AV2_STATIC_CDF_TXB_SKIP_Y_FSC_BASE + skip_ctx,
{
    AV2_STATIC_CDF_TXB_SKIP_Y_FSC_BASE + skip_ctx as usize
}

/// Static CDF key of the 4x4 U skip flag, with or without forward skip.
pub fn u_txb_skip_static_cdf_key(skip_ctx: u8, use_fsc: bool) -> (r: usize)
    ensures
        r == (if use_fsc { AV2_STATIC_CDF_TXB_SKIP_U_FSC_BASE } else { AV2_STATIC_CDF_TXB_SKIP_U_BASE }) + skip_ctx,
{
    let base = if use_fsc {
        AV2_STATIC_CDF_TXB_SKIP_U_FSC_BASE
    } else {
        AV2_STATIC_CDF_TXB_SKIP_U_BASE
    };
    base + skip_ctx as usize
}

/// Static CDF key of the 8x8 U skip flag, intra or inter.
pub fn u_txb_skip_tx8x8_static_cdf_key(skip_ctx: u8, use_inter_contexts: bool) -> (r: usize)
    ensures
        r == (if use_inter_contexts {
            AV2_STATIC_CDF_TXB_SKIP_U_INTER_TX8X8_BASE
        } else {
            AV2_STATIC_CDF_TXB_SKIP_U_TX8X8_BASE
        }) + skip_ctx,
{
    let base = if use_inter_contexts {
        AV2_STATIC_CDF_TXB_SKIP_U_INTER_TX8X8_BASE
    } else {
        AV2_STATIC_CDF_TXB_SKIP_U_TX8X8_BASE
    };
    base + skip_ctx as usize
}

/// Static CDF key of the V skip flag.
pub fn v_txb_skip_static_cdf_key(skip_ctx: u8) -> (r: usize)
    ensures
        r == AV2_STATIC_CDF_TXB_SKIP_V_BASE + skip_ctx,
{
    AV2_STATIC_CDF_TXB_SKIP_V_BASE + skip_ctx as usize
}

/// `context` when it lies in `min..=max`, else `fallback`.
pub open spec fn normalize_spec(context: u8, min: u8, max: u8, fallback: u8) -> u8 {
    if min <= context <= max { context } else { fallback }
}

/// Keeps a context in its supported range, substituting `fallback` for an
/// unsupported one (`label` names the syntax element it belongs to).
pub fn normalize_av2_context(context: u8, min: u8, max: u8, fallback: u8, label: &str) -> (r: u8)
    ensures
        r == normalize_spec(context, min, max, fallback),
{
    if min <= context && context <= max {
        context
    } else {
        fallback
    }
}

/// `new` extends `old` by one skip flag: symbol 1 under `all_zero_name` for
/// an all-zero block, symbol 0 under `nonzero_name` otherwise.
pub open spec fn skip_written(
    old_w: Av2EntropyWriter,
    new_w: Av2EntropyWriter,
    names: (Seq<char>, Seq<char>),
    static_cdf_key: int,
    all_zero: bool,
) -> bool {
    &&& appended_one(old_w, new_w)
    &&& is_symbol_field(
        last_field(new_w),
        if all_zero { names.0 } else { names.1 },
        Some(static_cdf_key as usize),
        if all_zero { 1 } else { 0 },
    )
}

/// Writes one skip flag.
fn write_txb_skip(writer: &mut Av2EntropyWriter, all_zero_name: &str, nonzero_name: &str, static_cdf_key: usize, all_zero: bool)
    ensures
        skip_written(*old(writer), *final(writer), (all_zero_name@, nonzero_name@), static_cdf_key as int, all_zero),
{
    let name = if all_zero { all_zero_name } else { nonzero_name };
    writer.write_symbol_with_static_cdf_key(name, static_cdf_key, if all_zero { 1 } else { 0 });
}

/// Names of the intra luma skip flag in context 1 to 5.
pub open spec fn y_skip_names(ctx: u8) -> (Seq<char>, Seq<char>) {
    if ctx == 1 {
        ("tile.coeff.y.txb_all_zero_tx4x4_ctx1"@, "tile.coeff.y.txb_nonzero_tx4x4_ctx1"@)
    } else if ctx == 2 {
        ("tile.coeff.y.txb_all_zero_tx4x4_ctx2"@, "tile.coeff.y.txb_nonzero_tx4x4_ctx2"@)
    } else if ctx == 3 {
        ("tile.coeff.y.txb_all_zero_tx4x4_ctx3"@, "tile.coeff.y.txb_nonzero_tx4x4_ctx3"@)
    } else if ctx == 4 {
        ("tile.coeff.y.txb_all_zero_tx4x4_ctx4"@, "tile.coeff.y.txb_nonzero_tx4x4_ctx4"@)
    } else {
        ("tile.coeff.y.txb_all_zero_tx4x4_ctx5"@, "tile.coeff.y.txb_nonzero_tx4x4_ctx5"@)
    }
}

/// Writes the intra luma skip flag; contexts outside 1 to 5 code as 5.
pub fn write_y_txb_skip(writer: &mut Av2EntropyWriter, skip_ctx: u8, all_zero: bool)
    ensures
        skip_written(
            *old(writer),
            *final(writer),
            y_skip_names(normalize_spec(skip_ctx, 1, 5, 5)),
            AV2_STATIC_CDF_TXB_SKIP_Y_BASE + normalize_spec(skip_ctx, 1, 5, 5),
            all_zero,
        ),
{
    let skip_ctx = normalize_av2_context(skip_ctx, 1, 5, 5, "AV2 luma TXB skip");
    let key = y_txb_skip_static_cdf_key(skip_ctx);
    match skip_ctx {
        1 => write_txb_skip(writer, "tile.coeff.y.txb_all_zero_tx4x4_ctx1", "tile.coeff.y.txb_nonzero_tx4x4_ctx1", key, all_zero),
        2 => write_txb_skip(writer, "tile.coeff.y.txb_all_zero_tx4x4_ctx2", "tile.coeff.y.txb_nonzero_tx4x4_ctx2", key, all_zero),
        3 => write_txb_skip(writer, "tile.coeff.y.txb_all_zero_tx4x4_ctx3", "tile.coeff.y.txb_nonzero_tx4x4_ctx3", key, all_zero),
        4 => write_txb_skip(writer, "tile.coeff.y.txb_all_zero_tx4x4_ctx4", "tile.coeff.y.txb_nonzero_tx4x4_ctx4", key, all_zero),
        _ => write_txb_skip(writer, "tile.coeff.y.txb_all_zero_tx4x4_ctx5", "tile.coeff.y.txb_nonzero_tx4x4_ctx5", key, all_zero),
    }
}

/// The intra luma all-zero flag.
pub fn write_y_txb_all_zero(writer: &mut Av2EntropyWriter, skip_ctx: u8)
    ensures
        skip_written(*old(writer), *final(writer), y_skip_names(normalize_spec(skip_ctx, 1, 5, 5)), AV2_STATIC_CDF_TXB_SKIP_Y_BASE + normalize_spec(skip_ctx, 1, 5, 5), true),
{
    write_y_txb_skip(writer, skip_ctx, true);
}

/// The intra luma nonzero flag.
pub fn write_y_txb_nonzero(writer: &mut Av2EntropyWriter, skip_ctx: u8)
    ensures
        skip_written(*old(writer), *final(writer), y_skip_names(normalize_spec(skip_ctx, 1, 5, 5)), AV2_STATIC_CDF_TXB_SKIP_Y_BASE + normalize_spec(skip_ctx, 1, 5, 5), false),
{
    write_y_txb_skip(writer, skip_ctx, false);
}

/// Names of the inter luma skip flag in context 1 to 5.
pub open spec fn y_inter_skip_names(ctx: u8) -> (Seq<char>, Seq<char>) {
    if ctx == 1 {
        ("tile.coeff.y.inter_txb_all_zero_tx4x4_ctx1"@, "tile.coeff.y.inter_txb_nonzero_tx4x4_ctx1"@)
    } else if ctx == 2 {
        ("tile.coeff.y.inter_txb_all_zero_tx4x4_ctx2"@, "tile.coeff.y.inter_txb_nonzero_tx4x4_ctx2"@)
    } else if ctx == 3 {
        ("tile.coeff.y.inter_txb_all_zero_tx4x4_ctx3"@, "tile.coeff.y.inter_txb_nonzero_tx4x4_ctx3"@)
    } else if ctx == 4 {
        ("tile.coeff.y.inter_txb_all_zero_tx4x4_ctx4"@, "tile.coeff.y.inter_txb_nonzero_tx4x4_ctx4"@)
    } else {
        ("tile.coeff.y.inter_txb_all_zero_tx4x4_ctx5"@, "tile.coeff.y.inter_txb_nonzero_tx4x4_ctx5"@)
    }
}

/// Writes the inter luma skip flag; contexts outside 1 to 5 code as 5.
pub fn write_y_inter_txb_skip(writer: &mut Av2EntropyWriter, skip_ctx: u8, all_zero: bool)
    ensures
        skip_written(
            *old(writer),
            *final(writer),
            y_inter_skip_names(normalize_spec(skip_ctx, 1, 5, 5)),
            AV2_STATIC_CDF_TXB_SKIP_Y_INTER_BASE + normalize_spec(skip_ctx, 1, 5, 5),
            all_zero,
        ),
{
    let skip_ctx = normalize_av2_context(skip_ctx, 1, 5, 5, "AV2 inter luma TXB skip");
    let key = y_inter_txb_skip_static_cdf_key(skip_ctx);
    match skip_ctx {
        1 => write_txb_skip(writer, "tile.coeff.y.inter_txb_all_zero_tx4x4_ctx1", "tile.coeff.y.inter_txb_nonzero_tx4x4_ctx1", key, all_zero),
        2 => write_txb_skip(writer, "tile.coeff.y.inter_txb_all_zero_tx4x4_ctx2", "tile.coeff.y.inter_txb_nonzero_tx4x4_ctx2", key, all_zero),
        3 => write_txb_skip(writer, "tile.coeff.y.inter_txb_all_zero_tx4x4_ctx3", "tile.coeff.y.inter_txb_nonzero_tx4x4_ctx3", key, all_zero),
        4 => write_txb_skip(writer, "tile.coeff.y.inter_txb_all_zero_tx4x4_ctx4", "tile.coeff.y.inter_txb_nonzero_tx4x4_ctx4", key, all_zero),
        _ => write_txb_skip(writer, "tile.coeff.y.inter_txb_all_zero_tx4x4_ctx5", "tile.coeff.y.inter_txb_nonzero_tx4x4_ctx5", key, all_zero),
    }
}

/// The inter luma all-zero flag.
pub fn write_y_inter_txb_all_zero(writer: &mut Av2EntropyWriter, skip_ctx: u8)
    ensures
        skip_written(*old(writer), *final(writer), y_inter_skip_names(normalize_spec(skip_ctx, 1, 5, 5)), AV2_STATIC_CDF_TXB_SKIP_Y_INTER_BASE + normalize_spec(skip_ctx, 1, 5, 5), true),
{
    write_y_inter_txb_skip(writer, skip_ctx, true);
}

/// The inter luma nonzero flag.
pub fn write_y_inter_txb_nonzero(writer: &mut Av2EntropyWriter, skip_ctx: u8)
    ensures
        skip_written(*old(writer), *final(writer), y_inter_skip_names(normalize_spec(skip_ctx, 1, 5, 5)), AV2_STATIC_CDF_TXB_SKIP_Y_INTER_BASE + normalize_spec(skip_ctx, 1, 5, 5), false),
{
    write_y_inter_txb_skip(writer, skip_ctx, false);
}

/// Names of the forward-skip luma skip flag (its single context 9).
pub open spec fn y_fsc_skip_names() -> (Seq<char>, Seq<char>) {
    ("tile.coeff.y.txb_all_zero_fsc_tx4x4_ctx9"@, "tile.coeff.y.txb_nonzero_fsc_tx4x4_ctx9"@)
}

/// Writes the forward-skip luma skip flag.
pub fn write_y_fsc_txb_skip(writer: &mut Av2EntropyWriter, all_zero: bool)
    ensures
        skip_written(*old(writer), *final(writer), y_fsc_skip_names(), AV2_STATIC_CDF_TXB_SKIP_Y_FSC_BASE + 9, all_zero),
{
    let key = y_fsc_txb_skip_static_cdf_key(9);
    write_txb_skip(writer, "tile.coeff.y.txb_all_zero_fsc_tx4x4_ctx9", "tile.coeff.y.txb_nonzero_fsc_tx4x4_ctx9", key, all_zero);
}

/// The forward-skip luma all-zero flag.
pub fn write_y_fsc_txb_all_zero(writer: &mut Av2EntropyWriter)
    ensures
        skip_written(*old(writer), *final(writer), y_fsc_skip_names(), AV2_STATIC_CDF_TXB_SKIP_Y_FSC_BASE + 9, true),
{
    write_y_fsc_txb_skip(writer, true);
}

/// The forward-skip luma nonzero flag.
pub fn write_y_fsc_txb_nonzero(writer: &mut Av2EntropyWriter)
    ensures
        skip_written(*old(writer), *final(writer), y_fsc_skip_names(), AV2_STATIC_CDF_TXB_SKIP_Y_FSC_BASE + 9, false),
{
    write_y_fsc_txb_skip(writer, false);
}

/// Names of the 4x4 U skip flag in context 6 to 8, with or without forward
/// skip.
pub open spec fn u_skip_names(ctx: u8, use_fsc: bool) -> (Seq<char>, Seq<char>) {
    if use_fsc {
        if ctx == 6 {
            ("tile.coeff.u.txb_all_zero_fsc_tx4x4_ctx6"@, "tile.coeff.u.txb_nonzero_fsc_tx4x4_ctx6"@)
        } else if ctx == 7 {
            ("tile.coeff.u.txb_all_zero_fsc_tx4x4_ctx7"@, "tile.coeff.u.txb_nonzero_fsc_tx4x4_ctx7"@)
        } else {
            ("tile.coeff.u.txb_all_zero_fsc_tx4x4_ctx8"@, "tile.coeff.u.txb_nonzero_fsc_tx4x4_ctx8"@)
        }
    } else if ctx == 6 {
        ("tile.coeff.u.txb_all_zero_tx4x4_ctx6"@, "tile.coeff.u.txb_nonzero_tx4x4_ctx6"@)
    } else if ctx == 7 {
        ("tile.coeff.u.txb_all_zero_tx4x4_ctx7"@, "tile.coeff.u.txb_nonzero_tx4x4_ctx7"@)
    } else {
        ("tile.coeff.u.txb_all_zero_tx4x4_ctx8"@, "tile.coeff.u.txb_nonzero_tx4x4_ctx8"@)
    }
}

/// Writes the 4x4 U skip flag; contexts outside 6 to 8 code as 8.
pub fn write_u_txb_skip(writer: &mut Av2EntropyWriter, skip_ctx: u8, use_fsc: bool, all_zero: bool)
    ensures
        skip_written(
            *old(writer),
            *final(writer),
            u_skip_names(normalize_spec(skip_ctx, 6, 8, 8), use_fsc),
            (if use_fsc { AV2_STATIC_CDF_TXB_SKIP_U_FSC_BASE } else { AV2_STATIC_CDF_TXB_SKIP_U_BASE }) + normalize_spec(skip_ctx, 6, 8, 8),
            all_zero,
        ),
{
    let skip_ctx = normalize_av2_context(skip_ctx, 6, 8, 8, "AV2 U TXB skip");
    let key = u_txb_skip_static_cdf_key(skip_ctx, use_fsc);
    if use_fsc {
        match skip_ctx {
            6 => write_txb_skip(writer, "tile.coeff.u.txb_all_zero_fsc_tx4x4_ctx6", "tile.coeff.u.txb_nonzero_fsc_tx4x4_ctx6", key, all_zero),
            7 => write_txb_skip(writer, "tile.coeff.u.txb_all_zero_fsc_tx4x4_ctx7", "tile.coeff.u.txb_nonzero_fsc_tx4x4_ctx7", key, all_zero),
            _ => write_txb_skip(writer, "tile.coeff.u.txb_all_zero_fsc_tx4x4_ctx8", "tile.coeff.u.txb_nonzero_fsc_tx4x4_ctx8", key, all_zero),
        }
    } else {
        match skip_ctx {
            6 => write_txb_skip(writer, "tile.coeff.u.txb_all_zero_tx4x4_ctx6", "tile.coeff.u.txb_nonzero_tx4x4_ctx6", key, all_zero),
            7 => write_txb_skip(writer, "tile.coeff.u.txb_all_zero_tx4x4_ctx7", "tile.coeff.u.txb_nonzero_tx4x4_ctx7", key, all_zero),
            _ => write_txb_skip(writer, "tile.coeff.u.txb_all_zero_tx4x4_ctx8", "tile.coeff.u.txb_nonzero_tx4x4_ctx8", key, all_zero),
        }
    }
}

/// The 4x4 U all-zero flag.
pub fn write_u_txb_all_zero(writer: &mut Av2EntropyWriter, skip_ctx: u8, use_fsc: bool)
    ensures
        skip_written(
            *old(writer),
            *final(writer),
            u_skip_names(normalize_spec(skip_ctx, 6, 8, 8), use_fsc),
            (if use_fsc { AV2_STATIC_CDF_TXB_SKIP_U_FSC_BASE } else { AV2_STATIC_CDF_TXB_SKIP_U_BASE }) + normalize_spec(skip_ctx, 6, 8, 8),
            true,
        ),
{
    write_u_txb_skip(writer, skip_ctx, use_fsc, true);
}

/// The 4x4 U nonzero flag.
pub fn write_u_txb_nonzero(writer: &mut Av2EntropyWriter, skip_ctx: u8, use_fsc: bool)
    ensures
        skip_written(
            *old(writer),
            *final(writer),
            u_skip_names(normalize_spec(skip_ctx, 6, 8, 8), use_fsc),
            (if use_fsc { AV2_STATIC_CDF_TXB_SKIP_U_FSC_BASE } else { AV2_STATIC_CDF_TXB_SKIP_U_BASE }) + normalize_spec(skip_ctx, 6, 8, 8),
            false,
        ),
{
    write_u_txb_skip(writer, skip_ctx, use_fsc, false);
}

/// Names of the V skip flag in context 0 to 11.
pub open spec fn v_skip_names(ctx: u8) -> (Seq<char>, Seq<char>) {
    if ctx == 0 {
        ("tile.coeff.v.txb_all_zero_tx4x4_ctx0"@, "tile.coeff.v.txb_nonzero_tx4x4_ctx0"@)
    } else if ctx == 1 {
        ("tile.coeff.v.txb_all_zero_tx4x4_ctx1"@, "tile.coeff.v.txb_nonzero_tx4x4_ctx1"@)
    } else if ctx == 2 {
        ("tile.coeff.v.txb_all_zero_tx4x4_ctx2"@, "tile.coeff.v.txb_nonzero_tx4x4_ctx2"@)
    } else if ctx == 3 {
        ("tile.coeff.v.txb_all_zero_tx4x4_ctx3"@, "tile.coeff.v.txb_nonzero_tx4x4_ctx3"@)
    } else if ctx == 4 {
        ("tile.coeff.v.txb_all_zero_tx4x4_ctx4"@, "tile.coeff.v.txb_nonzero_tx4x4_ctx4"@)
    } else if ctx == 5 {
        ("tile.coeff.v.txb_all_zero_tx4x4_ctx5"@, "tile.coeff.v.txb_nonzero_tx4x4_ctx5"@)
    } else if ctx == 6 {
        ("tile.coeff.v.txb_all_zero_tx4x4_ctx6"@, "tile.coeff.v.txb_nonzero_tx4x4_ctx6"@)
    } else if ctx == 7 {
        ("tile.coeff.v.txb_all_zero_tx4x4_ctx7"@, "tile.coeff.v.txb_nonzero_tx4x4_ctx7"@)
    } else if ctx == 8 {
        ("tile.coeff.v.txb_all_zero_tx4x4_ctx8"@, "tile.coeff.v.txb_nonzero_tx4x4_ctx8"@)
    } else if ctx == 9 {
        ("tile.coeff.v.txb_all_zero_tx4x4_ctx9"@, "tile.coeff.v.txb_nonzero_tx4x4_ctx9"@)
    } else if ctx == 10 {
        ("tile.coeff.v.txb_all_zero_tx4x4_ctx10"@, "tile.coeff.v.txb_nonzero_tx4x4_ctx10"@)
    } else {
        ("tile.coeff.v.txb_all_zero_tx4x4_ctx11"@, "tile.coeff.v.txb_nonzero_tx4x4_ctx11"@)
    }
}

/// Writes the V skip flag; contexts above 11 code as 11.
pub fn write_v_txb_skip(writer: &mut Av2EntropyWriter, skip_ctx: u8, all_zero: bool)
    ensures
        skip_written(
            *old(writer),
            *final(writer),
            v_skip_names(normalize_spec(skip_ctx, 0, 11, 11)),
            AV2_STATIC_CDF_TXB_SKIP_V_BASE + normalize_spec(skip_ctx, 0, 11, 11),
            all_zero,
        ),
{
    let skip_ctx = normalize_av2_context(skip_ctx, 0, 11, 11, "AV2 V TXB skip");
    let key = v_txb_skip_static_cdf_key(skip_ctx);
    match skip_ctx {
        0 => write_txb_skip(writer, "tile.coeff.v.txb_all_zero_tx4x4_ctx0", "tile.coeff.v.txb_nonzero_tx4x4_ctx0", key, all_zero),
        1 => write_txb_skip(writer, "tile.coeff.v.txb_all_zero_tx4x4_ctx1", "tile.coeff.v.txb_nonzero_tx4x4_ctx1", key, all_zero),
        2 => write_txb_skip(writer, "tile.coeff.v.txb_all_zero_tx4x4_ctx2", "tile.coeff.v.txb_nonzero_tx4x4_ctx2", key, all_zero),
        3 => write_txb_skip(writer, "tile.coeff.v.txb_all_zero_tx4x4_ctx3", "tile.coeff.v.txb_nonzero_tx4x4_ctx3", key, all_zero),
        4 => write_txb_skip(writer, "tile.coeff.v.txb_all_zero_tx4x4_ctx4", "tile.coeff.v.txb_nonzero_tx4x4_ctx4", key, all_zero),
        5 => write_txb_skip(writer, "tile.coeff.v.txb_all_zero_tx4x4_ctx5", "tile.coeff.v.txb_nonzero_tx4x4_ctx5", key, all_zero),
        6 => write_txb_skip(writer, "tile.coeff.v.txb_all_zero_tx4x4_ctx6", "tile.coeff.v.txb_nonzero_tx4x4_ctx6", key, all_zero),
        7 => write_txb_skip(writer, "tile.coeff.v.txb_all_zero_tx4x4_ctx7", "tile.coeff.v.txb_nonzero_tx4x4_ctx7", key, all_zero),
        8 => write_txb_skip(writer, "tile.coeff.v.txb_all_zero_tx4x4_ctx8", "tile.coeff.v.txb_nonzero_tx4x4_ctx8", key, all_zero),
        9 => write_txb_skip(writer, "tile.coeff.v.txb_all_zero_tx4x4_ctx9", "tile.coeff.v.txb_nonzero_tx4x4_ctx9", key, all_zero),
        10 => write_txb_skip(writer, "tile.coeff.v.txb_all_zero_tx4x4_ctx10", "tile.coeff.v.txb_nonzero_tx4x4_ctx10", key, all_zero),
        _ => write_txb_skip(writer, "tile.coeff.v.txb_all_zero_tx4x4_ctx11", "tile.coeff.v.txb_nonzero_tx4x4_ctx11", key, all_zero),
    }
}

/// The V all-zero flag.
pub fn write_v_txb_all_zero(writer: &mut Av2EntropyWriter, skip_ctx: u8)
    ensures
        skip_written(*old(writer), *final(writer), v_skip_names(normalize_spec(skip_ctx, 0, 11, 11)), AV2_STATIC_CDF_TXB_SKIP_V_BASE + normalize_spec(skip_ctx, 0, 11, 11), true),
{
    write_v_txb_skip(writer, skip_ctx, true);
}

/// The V nonzero flag.
pub fn write_v_txb_nonzero(writer: &mut Av2EntropyWriter, skip_ctx: u8)
    ensures
        skip_written(*old(writer), *final(writer), v_skip_names(normalize_spec(skip_ctx, 0, 11, 11)), AV2_STATIC_CDF_TXB_SKIP_V_BASE + normalize_spec(skip_ctx, 0, 11, 11), false),
{
    write_v_txb_skip(writer, skip_ctx, false);
}

/// Names of the 8x8 U skip flag in context 6 to 8, intra or inter.
pub open spec fn u_tx8x8_skip_names(ctx: u8, use_inter_contexts: bool) -> (Seq<char>, Seq<char>) {
    if use_inter_contexts {
        if ctx == 6 {
            ("tile.coeff.u.txb_all_zero_inter_tx8x8_ctx6"@, "tile.coeff.u.txb_nonzero_inter_tx8x8_ctx6"@)
        } else if ctx == 7 {
            ("tile.coeff.u.txb_all_zero_inter_tx8x8_ctx7"@, "tile.coeff.u.txb_nonzero_inter_tx8x8_ctx7"@)
        } else {
            ("tile.coeff.u.txb_all_zero_inter_tx8x8_ctx8"@, "tile.coeff.u.txb_nonzero_inter_tx8x8_ctx8"@)
        }
    } else if ctx == 6 {
        ("tile.coeff.u.txb_all_zero_tx8x8_ctx6"@, "tile.coeff.u.txb_nonzero_tx8x8_ctx6"@)
    } else if ctx == 7 {
        ("tile.coeff.u.txb_all_zero_tx8x8_ctx7"@, "tile.coeff.u.txb_nonzero_tx8x8_ctx7"@)
    } else {
        ("tile.coeff.u.txb_all_zero_tx8x8_ctx8"@, "tile.coeff.u.txb_nonzero_tx8x8_ctx8"@)
    }
}

/// Writes the 8x8 U skip flag; contexts outside 6 to 8 code as 8.
pub fn write_u_txb_skip_tx8x8(writer: &mut Av2EntropyWriter, skip_ctx: u8, use_inter_contexts: bool, all_zero: bool)
    ensures
        skip_written(
            *old(writer),
            *final(writer),
            u_tx8x8_skip_names(normalize_spec(skip_ctx, 6, 8, 8), use_inter_contexts),
            (if use_inter_contexts {
                AV2_STATIC_CDF_TXB_SKIP_U_INTER_TX8X8_BASE
            } else {
                AV2_STATIC_CDF_TXB_SKIP_U_TX8X8_BASE
            }) + normalize_spec(skip_ctx, 6, 8, 8),
            all_zero,
        ),
{
    let skip_ctx = normalize_av2_context(skip_ctx, 6, 8, 8, "AV2 U TXB skip 8x8");
    let key = u_txb_skip_tx8x8_static_cdf_key(skip_ctx, use_inter_contexts);
    if use_inter_contexts {
        match skip_ctx {
            6 => write_txb_skip(writer, "tile.coeff.u.txb_all_zero_inter_tx8x8_ctx6", "tile.coeff.u.txb_nonzero_inter_tx8x8_ctx6", key, all_zero),
            7 => write_txb_skip(writer, "tile.coeff.u.txb_all_zero_inter_tx8x8_ctx7", "tile.coeff.u.txb_nonzero_inter_tx8x8_ctx7", key, all_zero),
            _ => write_txb_skip(writer, "tile.coeff.u.txb_all_zero_inter_tx8x8_ctx8", "tile.coeff.u.txb_nonzero_inter_tx8x8_ctx8", key, all_zero),
        }
    } else {
        match skip_ctx {
            6 => write_txb_skip(writer, "tile.coeff.u.txb_all_zero_tx8x8_ctx6", "tile.coeff.u.txb_nonzero_tx8x8_ctx6", key, all_zero),
            7 => write_txb_skip(writer, "tile.coeff.u.txb_all_zero_tx8x8_ctx7", "tile.coeff.u.txb_nonzero_tx8x8_ctx7", key, all_zero),
            _ => write_txb_skip(writer, "tile.coeff.u.txb_all_zero_tx8x8_ctx8", "tile.coeff.u.txb_nonzero_tx8x8_ctx8", key, all_zero),
        }
    }
}

/// The 8x8 U all-zero flag.
pub fn write_u_txb_all_zero_tx8x8(writer: &mut Av2EntropyWriter, skip_ctx: u8, use_inter_contexts: bool)
    ensures
        skip_written(
            *old(writer),
            *final(writer),
            u_tx8x8_skip_names(normalize_spec(skip_ctx, 6, 8, 8), use_inter_contexts),
            (if use_inter_contexts {
                AV2_STATIC_CDF_TXB_SKIP_U_INTER_TX8X8_BASE
            } else {
                AV2_STATIC_CDF_TXB_SKIP_U_TX8X8_BASE
            }) + normalize_spec(skip_ctx, 6, 8, 8),
            true,
        ),
{
    write_u_txb_skip_tx8x8(writer, skip_ctx, use_inter_contexts, true);
}

/// The 8x8 U nonzero flag.
pub fn write_u_txb_nonzero_tx8x8(writer: &mut Av2EntropyWriter, skip_ctx: u8, use_inter_contexts: bool)
    ensures
        skip_written(
            *old(writer),
            *final(writer),
            u_tx8x8_skip_names(normalize_spec(skip_ctx, 6, 8, 8), use_inter_contexts),
            (if use_inter_contexts {
                AV2_STATIC_CDF_TXB_SKIP_U_INTER_TX8X8_BASE
            } else {
                AV2_STATIC_CDF_TXB_SKIP_U_TX8X8_BASE
            }) + normalize_spec(skip_ctx, 6, 8, 8),
            false,
        ),
{
    write_u_txb_skip_tx8x8(writer, skip_ctx, use_inter_contexts, false);
}

} // verus!
