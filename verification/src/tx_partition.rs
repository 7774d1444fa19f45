use vstd::prelude::*;
use crate::block_size::Av2MvpBlockSize;
use crate::entropy::{Av2EntropyWriter, Av2FieldSpec, fields_appended, lemma_fields_appended_one, lemma_fields_appended_trans, symbol_spec};

verus! {

/// Static CDF of the intra 8x8 transform-partition flag.
pub const AV2_STATIC_CDF_TX_PARTITION_INTRA_DO_8X8: usize = 580;

/// Static CDF of the intra 8x8 transform-partition type.
pub const AV2_STATIC_CDF_TX_PARTITION_INTRA_TYPE_8X8: usize = 581;

/// Static CDF of the inter 8x8 transform-partition flag.
pub const AV2_STATIC_CDF_TX_PARTITION_INTER_DO_8X8: usize = 582;

/// Static CDF of the inter 8x8 transform-partition type.
pub const AV2_STATIC_CDF_TX_PARTITION_INTER_TYPE_8X8: usize = 583;

/// Splitting an 8x8 block into four 4x4 transform blocks: the partition
/// flag set, then partition type 0 (the four-way split).
pub open spec fn tx_partition_split_fields(
    do_partition_name: Seq<char>,
    do_partition_static_key: usize,
    partition_type_name: Seq<char>,
    partition_type_static_key: usize,
) -> Seq<Av2FieldSpec> {
    seq![
        symbol_spec(do_partition_name, Some(do_partition_static_key), 1),
        symbol_spec(partition_type_name, Some(partition_type_static_key), 0),
    ]
}

/// Codes the four-way 4x4 transform split of an 8x8 block under the given
/// field names and static CDFs.
pub fn write_regular_q_tx_partition_split_8x8_with_cdfs(
    writer: &mut Av2EntropyWriter,
    block_size: Av2MvpBlockSize,
    do_partition_name: &str,
    do_partition_static_key: usize,
    partition_type_name: &str,
    partition_type_static_key: usize,
)
    requires
        block_size.width == 8,
        block_size.height == 8,
    ensures
        fields_appended(
            *old(writer),
            *final(writer),
            tx_partition_split_fields(do_partition_name@, do_partition_static_key, partition_type_name@, partition_type_static_key),
        ),
{
    let ghost w0 = *writer;
    writer.write_symbol_with_static_cdf_key(do_partition_name, do_partition_static_key, 1);
    let ghost w1 = *writer;
    writer.write_symbol_with_static_cdf_key(partition_type_name, partition_type_static_key, 0);
    proof {
        let s1 = symbol_spec(do_partition_name@, Some(do_partition_static_key), 1);
        let s2 = symbol_spec(partition_type_name@, Some(partition_type_static_key), 0);
        lemma_fields_appended_one(w0, w1, s1);
        lemma_fields_appended_one(w1, *writer, s2);
        lemma_fields_appended_trans(w0, w1, *writer, seq![s1], seq![s2]);
        assert(seq![s1] + seq![s2] =~= tx_partition_split_fields(
            do_partition_name@,
            do_partition_static_key,
            partition_type_name@,
            partition_type_static_key,
        ));
    }
}

/// Codes the four-way 4x4 transform split of an intra 8x8 block.
pub fn write_regular_q_tx_partition_split_8x8(writer: &mut Av2EntropyWriter, block_size: Av2MvpBlockSize)
    requires
        block_size.width == 8,
        block_size.height == 8,
    ensures
        fields_appended(
            *old(writer),
            *final(writer),
            tx_partition_split_fields(
                "tile.tx_partition.do_partition"@,
                AV2_STATIC_CDF_TX_PARTITION_INTRA_DO_8X8,
                "tile.tx_partition.partition_type"@,
                AV2_STATIC_CDF_TX_PARTITION_INTRA_TYPE_8X8,
            ),
        ),
{
    write_regular_q_tx_partition_split_8x8_with_cdfs(
        writer,
        block_size,
        "tile.tx_partition.do_partition",
        AV2_STATIC_CDF_TX_PARTITION_INTRA_DO_8X8,
        "tile.tx_partition.partition_type",
        AV2_STATIC_CDF_TX_PARTITION_INTRA_TYPE_8X8,
    );
}

/// Codes the four-way 4x4 transform split of an inter 8x8 block.
pub fn write_regular_q_inter_tx_partition_split_8x8(writer: &mut Av2EntropyWriter, block_size: Av2MvpBlockSize)
    requires
        block_size.width == 8,
        block_size.height == 8,
    ensures
        fields_appended(
            *old(writer),
            *final(writer),
            tx_partition_split_fields(
                "tile.inter_tx_partition.do_partition"@,
                AV2_STATIC_CDF_TX_PARTITION_INTER_DO_8X8,
                "tile.inter_tx_partition.partition_type"@,
                AV2_STATIC_CDF_TX_PARTITION_INTER_TYPE_8X8,
            ),
        ),
{
    write_regular_q_tx_partition_split_8x8_with_cdfs(
        writer,
        block_size,
        "tile.inter_tx_partition.do_partition",
        AV2_STATIC_CDF_TX_PARTITION_INTER_DO_8X8,
        "tile.inter_tx_partition.partition_type",
        AV2_STATIC_CDF_TX_PARTITION_INTER_TYPE_8X8,
    );
}

} // verus!
