use framefinery_codecs::coefficient_levels::{
    lossless_coefficient_levels_and_bounds, tx4x8_coefficient_levels_and_bounds,
    tx8x8_coefficient_levels_and_bounds,
};
use framefinery_codecs::coefficient_contexts::luma_br_context;
use framefinery_codecs::entropy::Av2EntropyWriter;
use framefinery_codecs::txb_chroma::{write_chroma_low_range, Av2ChromaTxbGeometry};
use framefinery_codecs::txb_luma::{write_idtx_low_range, write_luma_low_range};
use framefinery_codecs::geometry::{
    TX4X4_SAMPLES, TX4X4_SCAN, TX4X8_SAMPLES, TX4X8_SCAN, TX8X8_SAMPLES, TX8X8_SCAN,
};
use framefinery_codecs::txb_eob::{
    eob_pos_token, write_eob_uv, write_eob_uv_tx4x8, write_eob_uv_tx8x8, write_eob_y,
    write_eob_y_inter,
};
use framefinery_codecs::txb_skip::{
    write_u_txb_all_zero, write_u_txb_all_zero_tx8x8, write_u_txb_nonzero,
    write_u_txb_nonzero_tx8x8, write_v_txb_all_zero, write_v_txb_nonzero,
    write_y_fsc_txb_all_zero, write_y_fsc_txb_nonzero, write_y_inter_txb_all_zero,
    write_y_inter_txb_nonzero, write_y_txb_all_zero, write_y_txb_nonzero,
};

fn assert_skip_pair(
    write_all_zero: impl FnOnce(&mut Av2EntropyWriter),
    write_nonzero: impl FnOnce(&mut Av2EntropyWriter),
    expected_all_zero_name: &str,
    expected_nonzero_name: &str,
) {
    let mut all_zero_writer = Av2EntropyWriter::with_cdf_updates(true);
    write_all_zero(&mut all_zero_writer);
    let all_zero = all_zero_writer.finish();
    assert_eq!(all_zero.fields.len(), 1);
    assert_eq!(all_zero.fields[0].name, expected_all_zero_name);
    assert_eq!(all_zero.fields[0].symbol, Some(1));

    let mut nonzero_writer = Av2EntropyWriter::with_cdf_updates(true);
    write_nonzero(&mut nonzero_writer);
    let nonzero = nonzero_writer.finish();
    assert_eq!(nonzero.fields.len(), 1);
    assert_eq!(nonzero.fields[0].name, expected_nonzero_name);
    assert_eq!(nonzero.fields[0].symbol, Some(0));
}

#[test]
fn txb_skip_writer_pairs_preserve_all_context_names_and_symbols() {
    for skip_ctx in 1..=5 {
        assert_skip_pair(
            |writer| write_y_txb_all_zero(writer, skip_ctx),
            |writer| write_y_txb_nonzero(writer, skip_ctx),
            &format!("tile.coeff.y.txb_all_zero_tx4x4_ctx{skip_ctx}"),
            &format!("tile.coeff.y.txb_nonzero_tx4x4_ctx{skip_ctx}"),
        );
        assert_skip_pair(
            |writer| write_y_inter_txb_all_zero(writer, skip_ctx),
            |writer| write_y_inter_txb_nonzero(writer, skip_ctx),
            &format!("tile.coeff.y.inter_txb_all_zero_tx4x4_ctx{skip_ctx}"),
            &format!("tile.coeff.y.inter_txb_nonzero_tx4x4_ctx{skip_ctx}"),
        );
    }

    assert_skip_pair(
        write_y_fsc_txb_all_zero,
        write_y_fsc_txb_nonzero,
        "tile.coeff.y.txb_all_zero_fsc_tx4x4_ctx9",
        "tile.coeff.y.txb_nonzero_fsc_tx4x4_ctx9",
    );

    for skip_ctx in 6..=8 {
        for use_fsc in [false, true] {
            let fsc = if use_fsc { "_fsc" } else { "" };
            assert_skip_pair(
                |writer| write_u_txb_all_zero(writer, skip_ctx, use_fsc),
                |writer| write_u_txb_nonzero(writer, skip_ctx, use_fsc),
                &format!("tile.coeff.u.txb_all_zero{fsc}_tx4x4_ctx{skip_ctx}"),
                &format!("tile.coeff.u.txb_nonzero{fsc}_tx4x4_ctx{skip_ctx}"),
            );
        }
        for use_inter_contexts in [false, true] {
            let inter = if use_inter_contexts { "_inter" } else { "" };
            assert_skip_pair(
                |writer| write_u_txb_all_zero_tx8x8(writer, skip_ctx, use_inter_contexts),
                |writer| write_u_txb_nonzero_tx8x8(writer, skip_ctx, use_inter_contexts),
                &format!("tile.coeff.u.txb_all_zero{inter}_tx8x8_ctx{skip_ctx}"),
                &format!("tile.coeff.u.txb_nonzero{inter}_tx8x8_ctx{skip_ctx}"),
            );
        }
    }

    for skip_ctx in 0..=11 {
        assert_skip_pair(
            |writer| write_v_txb_all_zero(writer, skip_ctx),
            |writer| write_v_txb_nonzero(writer, skip_ctx),
            &format!("tile.coeff.v.txb_all_zero_tx4x4_ctx{skip_ctx}"),
            &format!("tile.coeff.v.txb_nonzero_tx4x4_ctx{skip_ctx}"),
        );
    }
}

#[test]
fn av2_chroma_eob_supports_last_transform_scan_positions() {
    let tx4x4_last = *TX4X4_SCAN.last().expect("TX_4X4 scan is non-empty");
    let mut tx4x4_coefficients = [0i32; TX4X4_SAMPLES];
    tx4x4_coefficients[tx4x4_last] = 8;
    let (tx4x4_levels, tx4x4_bounds) = lossless_coefficient_levels_and_bounds(&tx4x4_coefficients);

    assert_eq!(tx4x4_levels[tx4x4_last], 1);
    assert_eq!(tx4x4_bounds, Some((TX4X4_SAMPLES - 1, TX4X4_SAMPLES)));
    assert_eq!(eob_pos_token(TX4X4_SAMPLES), (5, 7));

    let tx8x8_last = *TX8X8_SCAN.last().expect("TX_8X8 scan is non-empty");
    let mut tx8x8_coefficients = [0i32; TX8X8_SAMPLES];
    tx8x8_coefficients[tx8x8_last] = -16;
    let (tx8x8_levels, tx8x8_bounds) = tx8x8_coefficient_levels_and_bounds(&tx8x8_coefficients);
    assert_eq!(tx8x8_levels[tx8x8_last], 2);
    assert_eq!(tx8x8_bounds, Some((TX8X8_SAMPLES - 1, TX8X8_SAMPLES)));

    let tx4x8_last = *TX4X8_SCAN.last().expect("TX_4X8 scan is non-empty");
    let mut tx4x8_coefficients = [0i32; TX4X8_SAMPLES];
    tx4x8_coefficients[tx4x8_last] = 24;
    let (tx4x8_levels, tx4x8_bounds) = tx4x8_coefficient_levels_and_bounds(&tx4x8_coefficients);
    assert_eq!(tx4x8_levels[tx4x8_last], 3);
    assert_eq!(tx4x8_bounds, Some((TX4X8_SAMPLES - 1, TX4X8_SAMPLES)));
}

#[test]
fn av2_eob_writers_keep_geometry_specific_point_and_extra_fields() {
    type EobWriter = fn(&mut Av2EntropyWriter, usize);

    let cases: [(EobWriter, usize, &str, usize, &str, u32, usize); 5] = [
        (
            write_eob_y,
            TX4X4_SAMPLES,
            "tile.coeff.y.eob_pt_tx4x4",
            4,
            "tile.coeff.y.eob_extra",
            3,
            2,
        ),
        (
            write_eob_y_inter,
            TX4X4_SAMPLES,
            "tile.coeff.y.inter_eob_pt_tx4x4",
            4,
            "tile.coeff.y.inter_eob_extra",
            3,
            2,
        ),
        (
            write_eob_uv,
            TX4X4_SAMPLES,
            "tile.coeff.uv.eob_pt_tx4x4",
            4,
            "tile.coeff.uv.eob_extra",
            3,
            2,
        ),
        (
            write_eob_uv_tx8x8,
            TX8X8_SAMPLES,
            "tile.coeff.uv.eob_pt_tx8x8",
            6,
            "tile.coeff.uv.eob_extra_tx8x8",
            15,
            4,
        ),
        (
            write_eob_uv_tx4x8,
            TX4X8_SAMPLES,
            "tile.coeff.uv.eob_pt_tx4x8",
            5,
            "tile.coeff.uv.eob_extra_tx4x8",
            7,
            3,
        ),
    ];

    for (write, eob, point_name, point_symbol, extra_name, low_bits, bit_count) in cases {
        let mut writer = Av2EntropyWriter::new();
        write(&mut writer, eob);
        let fields = writer.finish().fields;

        assert_eq!(fields.len(), 3, "unexpected field count for {point_name}");
        assert_eq!(fields[0].name, point_name);
        assert_eq!(fields[0].symbol, Some(point_symbol));
        assert_eq!(fields[1].name, "tile.coeff.eob_extra_bit");
        assert_eq!(fields[1].symbol, Some(1));
        assert_eq!(fields[2].name, extra_name);
        assert_eq!(fields[2].literal_value, Some(low_bits));
        assert_eq!(fields[2].bit_count, bit_count);
    }

    let mut writer = Av2EntropyWriter::new();
    write_eob_uv(&mut writer, 1);
    let fields = writer.finish().fields;
    assert_eq!(fields.len(), 1);
    assert_eq!(fields[0].name, "tile.coeff.uv.eob_pt_tx4x4");
    assert_eq!(fields[0].symbol, Some(0));
}

#[test]
fn low_range_writers_cap_the_level_above_the_base_range() {
    let mut levels = [0u32; 16];
    levels[1] = 4;
    levels[4] = 2;
    levels[5] = 1;
    let mut writer = Av2EntropyWriter::new();
    write_luma_low_range(&mut writer, &levels, 0, true, 5);
    write_luma_low_range(&mut writer, &levels, 0, false, 1);
    write_chroma_low_range(&mut writer, Av2ChromaTxbGeometry::Tx4x4, &levels, 0, 2, "tile.coeff.uv.low_range");
    write_idtx_low_range(&mut writer, 9);
    let payload = writer.finish();
    assert_eq!(payload.fields.len(), 4);
    assert_eq!(payload.fields[0].name, "tile.coeff.y.low_range_lf");
    assert_eq!(payload.fields[0].static_cdf_key, Some(220 + luma_br_context(&levels, 0, true)));
    assert_eq!(payload.fields[0].symbol, Some(3));
    assert_eq!(payload.fields[1].name, "tile.coeff.y.low_range");
    assert_eq!(payload.fields[1].static_cdf_key, Some(240 + luma_br_context(&levels, 0, false)));
    assert_eq!(payload.fields[1].symbol, Some(1));
    // Neighbour levels 4, 2 and 1 give a base-range context of min((7 + 1) / 2, 3).
    assert_eq!(payload.fields[2].name, "tile.coeff.uv.low_range");
    assert_eq!(payload.fields[2].static_cdf_key, Some(343));
    assert_eq!(payload.fields[2].symbol, Some(2));
    assert_eq!(payload.fields[3].name, "tile.coeff.y.idtx_low_range");
    assert_eq!(payload.fields[3].static_cdf_key, None);
    assert_eq!(payload.fields[3].symbol, Some(3));
}
