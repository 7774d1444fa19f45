use framefinery_codecs::block_size::Av2MvpBlockSize;
use framefinery_codecs::entropy::Av2EntropyWriter;
use framefinery_codecs::inter_syntax::{write_inter_globalmv_residual, write_inter_globalmv_skip};
use framefinery_codecs::mode_contexts::{
    active_inter_leaf_matches, Av2ActiveInterLeaf, Av2InterModeContext, Av2InterNeighborState, Av2IntrabcContext,
    Av2IntrabcNeighborState,
};

#[test]
fn intrabc_grid_reads_back_recorded_leaves() {
    let mut grid = Av2IntrabcContext::new(4, 4);
    let block = Av2MvpBlockSize::new(8, 8);
    assert_eq!(grid.state_at(0, 0), None);
    grid.update_leaf(0, 0, block, true, false);
    let coded = Some(Av2IntrabcNeighborState { ibc: true, skip: false });
    assert_eq!(grid.state_at(0, 0), coded);
    assert_eq!(grid.state_at(1, 1), coded);
    assert_eq!(grid.state_at(2, 2), None);
    assert_eq!(grid.state_at(0, 2), None);
    assert_eq!(grid.state_at(9, 9), None);
    // The leaf at (0, 2) sees the recorded leaf to its left and bottom-left.
    assert_eq!(grid.intrabc_ctx(0, 2, block), 2);
    assert_eq!(grid.skip_txfm_ctx(0, 2, block), 0);
    // Nothing coded around (2, 2) yet except its above-left corner.
    assert_eq!(grid.intrabc_ctx(2, 2, block), 0);
}

#[test]
fn intrabc_context_counts_at_most_two_neighbours() {
    let mut grid = Av2IntrabcContext::new(4, 4);
    let unit = Av2MvpBlockSize::new(4, 4);
    for row in 0..4 {
        for col in 0..4 {
            grid.update_leaf(row, col, unit, true, true);
        }
    }
    assert_eq!(grid.intrabc_ctx(1, 1, unit), 2);
    assert_eq!(grid.skip_txfm_ctx(1, 1, unit), 2);
}

#[test]
fn inter_contexts_follow_the_neighbours() {
    let mut grid = Av2InterModeContext::new(4, 4);
    let block = Av2MvpBlockSize::new(8, 8);
    assert_eq!(grid.intra_inter_ctx(0, 2), 0);
    assert_eq!(grid.single_ref_ctx(0, 2, 0, 2), 1);
    assert_eq!(grid.nearest_ref_mv(0, 2, block, 0), (0, 0));
    grid.update_leaf(0, 0, block, true, 0, true, -4, 6);
    assert_eq!(
        grid.state_at(1, 0),
        Some(Av2InterNeighborState { inter: true, ref_frame: 0, newmv: true, mv_row_px: -4, mv_col_px: 6 })
    );
    assert_eq!(grid.intra_inter_ctx(0, 2), 0);
    assert_eq!(grid.inter_single_mode_ctx(0, 2, block, 0), 3);
    assert_eq!(grid.single_ref_ctx(0, 2, 0, 2), 2);
    assert_eq!(grid.nearest_ref_mv(0, 2, block, 0), (-4, 6));
    grid.update_leaf(2, 0, block, false, 0, false, 0, 0);
    // Left of (2, 2) is intra; above is not coded.
    assert_eq!(grid.intra_inter_ctx(2, 2), 3);
}

#[test]
fn active_leaf_matches_only_its_origin() {
    let leaf = Av2ActiveInterLeaf::Residual { row: 2, col: 4, mv_row_px: 1, mv_col_px: -1 };
    assert_eq!(leaf.origin(), (2, 4));
    assert_eq!(active_inter_leaf_matches(Some(leaf), 2, 4), Some(leaf));
    assert_eq!(active_inter_leaf_matches(Some(leaf), 2, 5), None);
    assert_eq!(active_inter_leaf_matches(None, 2, 4), None);
}

#[test]
fn global_motion_leaves_code_their_flags_in_order() {
    let skip = Av2IntrabcContext::new(4, 4);
    let inter = Av2InterModeContext::new(4, 4);
    let block = Av2MvpBlockSize::new(8, 8);
    let mut writer = Av2EntropyWriter::new();
    write_inter_globalmv_skip(&mut writer, 0, 0, block, &skip, &inter, 1);
    let names: Vec<&str> = writer.fields.iter().map(|f| f.name.as_str()).collect();
    assert_eq!(names, ["tile.inter.is_inter", "tile.inter.skip_txfm", "tile.inter.single_mode"]);
    let symbols: Vec<Option<usize>> = writer.fields.iter().map(|f| f.symbol).collect();
    assert_eq!(symbols, [Some(1), Some(1), Some(1)]);
    let keys: Vec<Option<usize>> = writer.fields.iter().map(|f| f.static_cdf_key).collect();
    assert_eq!(keys, [Some(380), Some(384), Some(394)]);

    let mut writer = Av2EntropyWriter::new();
    write_inter_globalmv_residual(&mut writer, 0, 0, block, &skip, &inter, 2);
    let names: Vec<&str> = writer.fields.iter().map(|f| f.name.as_str()).collect();
    assert_eq!(
        names,
        ["tile.inter.is_inter", "tile.inter.skip_txfm", "tile.inter.single_ref", "tile.inter.single_mode"]
    );
    let symbols: Vec<Option<usize>> = writer.fields.iter().map(|f| f.symbol).collect();
    assert_eq!(symbols, [Some(1), Some(0), Some(1), Some(1)]);
    assert_eq!(writer.fields[2].static_cdf_key, Some(391));
}
