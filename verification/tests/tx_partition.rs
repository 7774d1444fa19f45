use framefinery_codecs::block_size::Av2MvpBlockSize;
use framefinery_codecs::entropy::Av2EntropyWriter;
use framefinery_codecs::mode_contexts::Av2TxbEntropyContexts;
use framefinery_codecs::tx_partition::{
    write_regular_q_inter_tx_partition_split_8x8, write_regular_q_tx_partition_split_8x8,
};

#[test]
fn intra_8x8_split_codes_the_flag_then_the_four_way_type() {
    let mut writer = Av2EntropyWriter::new();
    write_regular_q_tx_partition_split_8x8(&mut writer, Av2MvpBlockSize::new(8, 8));
    let payload = writer.finish();
    assert_eq!(payload.fields.len(), 2);
    assert_eq!(payload.fields[0].name, "tile.tx_partition.do_partition");
    assert_eq!(payload.fields[0].symbol, Some(1));
    assert_eq!(payload.fields[0].static_cdf_key, Some(580));
    assert_eq!(payload.fields[1].name, "tile.tx_partition.partition_type");
    assert_eq!(payload.fields[1].symbol, Some(0));
    assert_eq!(payload.fields[1].static_cdf_key, Some(581));
    assert_eq!(payload.symbol_bits, 0);
}

#[test]
fn inter_8x8_split_uses_the_inter_fields() {
    let mut writer = Av2EntropyWriter::new();
    write_regular_q_inter_tx_partition_split_8x8(&mut writer, Av2MvpBlockSize::new(8, 8));
    let payload = writer.finish();
    assert_eq!(payload.fields.len(), 2);
    assert_eq!(payload.fields[0].name, "tile.inter_tx_partition.do_partition");
    assert_eq!(payload.fields[0].static_cdf_key, Some(582));
    assert_eq!(payload.fields[1].name, "tile.inter_tx_partition.partition_type");
    assert_eq!(payload.fields[1].static_cdf_key, Some(583));
}

#[test]
fn new_txb_contexts_are_cleared_per_row_and_column() {
    let contexts = Av2TxbEntropyContexts::new(3, 5);
    assert_eq!(contexts.y_above, vec![0u8; 5]);
    assert_eq!(contexts.u_above, vec![0u8; 5]);
    assert_eq!(contexts.v_above, vec![0u8; 5]);
    assert_eq!(contexts.y_left, vec![0u8; 3]);
    assert_eq!(contexts.u_left, vec![0u8; 3]);
    assert_eq!(contexts.v_left, vec![0u8; 3]);
}
