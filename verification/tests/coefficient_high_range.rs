use framefinery_codecs::entropy::Av2EntropyWriter;
use framefinery_codecs::high_range::{
    coefficient_high_range_level_proxy_score, write_chroma_high_range, write_idtx_high_range,
    write_luma_high_range, Av2CoefficientCodingKind,
};
use framefinery_codecs::sample::Av2ChromaPlane;

fn assert_writer_matches_proxy(
    kind: Av2CoefficientCodingKind,
    expected_field_name: &'static str,
    sequence: &[(usize, u32)],
    expected_symbol_bits: usize,
    expected_final_average: u32,
    mut write: impl FnMut(&mut Av2EntropyWriter, usize, u32, &mut u32),
) {
    let mut writer = Av2EntropyWriter::new();
    let mut writer_average = 0;
    let mut proxy_average = 0;
    let mut proxy_score = 0;

    for &(pos, level) in sequence {
        write(&mut writer, pos, level, &mut writer_average);
        proxy_score +=
            coefficient_high_range_level_proxy_score(level, kind, pos, &mut proxy_average);
    }

    let payload = writer.finish();
    assert_eq!(writer_average, expected_final_average);
    assert_eq!(proxy_average, expected_final_average);
    assert_eq!(payload.symbol_bits, expected_symbol_bits);
    assert_eq!(proxy_score, expected_symbol_bits * 64);
    assert!(!payload.fields.is_empty());
    assert!(payload
        .fields
        .iter()
        .all(|field| field.name == expected_field_name));
}

#[test]
fn coefficient_high_range_writer_matches_rate_proxy() {
    assert_writer_matches_proxy(
        Av2CoefficientCodingKind::LumaTransform,
        "tile.coeff.y.high_range",
        &[(0, 7), (0, 8), (0, 20), (15, 5), (15, 6), (15, 40)],
        25,
        18,
        write_luma_high_range,
    );
    assert_writer_matches_proxy(
        Av2CoefficientCodingKind::LumaIdtx,
        "tile.coeff.y.idtx_high_range",
        &[(0, 5), (0, 6), (7, 21), (15, 64)],
        26,
        32,
        |writer, _, level, average| write_idtx_high_range(writer, level, average),
    );
    assert_writer_matches_proxy(
        Av2CoefficientCodingKind::ChromaTransform,
        "tile.coeff.u.high_range",
        &[(0, 4), (0, 5), (0, 17), (1, 5), (1, 6), (1, 48)],
        27,
        22,
        |writer, pos, level, average| {
            write_chroma_high_range(writer, Av2ChromaPlane::U, pos, level, average)
        },
    );
    assert_writer_matches_proxy(
        Av2CoefficientCodingKind::ChromaTransform,
        "tile.coeff.v.high_range",
        &[(0, 5), (1, 6), (1, 48)],
        18,
        21,
        |writer, pos, level, average| {
            write_chroma_high_range(writer, Av2ChromaPlane::V, pos, level, average)
        },
    );
}
