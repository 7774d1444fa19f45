use framefinery_codecs::prediction_edges::{
    av2_directional_above_edge, av2_directional_left_edge, av2_smooth_intra_edges,
    Av2IntraEdgeContext, Av2SampleGrid,
};
use framefinery_codecs::sample::{
    av2_lossless_h_pred_left_edge, av2_lossless_v_pred_above_edge, Av2Sample, SampleBitDepth,
};

fn context(
    edge_limit: (usize, usize),
    leaf_origin: (usize, usize),
    leaf_size: (usize, usize),
) -> Av2IntraEdgeContext {
    Av2IntraEdgeContext {
        bit_depth: SampleBitDepth::new(8).expect("8-bit depth is supported"),
        tile_origin: (0, 0),
        plane_size: (16, 16),
        edge_limit,
        subsampling: (1, 1),
        leaf_origin,
        leaf_size,
    }
}

fn sample(x: usize, y: usize) -> Av2Sample {
    (y * 16 + x) as Av2Sample
}

/// A 16x16 plane whose sample at `(x, y)` is `sample(x, y)`, with the given
/// positions coded.
fn grid(coded: &[(usize, usize)]) -> Av2SampleGrid {
    let mut samples = Vec::new();
    let mut flags = Vec::new();
    for y in 0..16 {
        for x in 0..16 {
            samples.push(sample(x, y));
            flags.push(coded.contains(&(x, y)));
        }
    }
    Av2SampleGrid {
        width: 16,
        height: 16,
        samples,
        coded: flags,
    }
}

#[test]
fn directional_edges_use_spec_fallbacks_at_tile_origin() {
    let edge_context = context((16, 16), (0, 0), (8, 8));
    let plane = grid(&[]);
    let above = av2_directional_above_edge(edge_context, 0, 0, &plane);
    let left = av2_directional_left_edge(edge_context, 0, 0, &plane);

    assert_eq!(
        above,
        [av2_lossless_v_pred_above_edge(edge_context.bit_depth); 8]
    );
    assert_eq!(
        left,
        [av2_lossless_h_pred_left_edge(edge_context.bit_depth); 8]
    );
}

#[test]
fn directional_edges_admit_only_coded_external_overhang_samples() {
    let edge_context = context((16, 16), (4, 4), (4, 4));
    let above = av2_directional_above_edge(edge_context, 4, 4, &grid(&[(8, 3)]));
    let left = av2_directional_left_edge(edge_context, 4, 4, &grid(&[(3, 8)]));

    assert_eq!(above, [52, 53, 54, 55, 56, 56, 56, 56]);
    assert_eq!(left, [67, 83, 99, 115, 131, 131, 131, 131]);
}

#[test]
fn directional_edges_respect_the_explicit_edge_limit() {
    let edge_context = context((8, 8), (4, 4), (4, 4));
    let plane = grid(&[]);
    let above = av2_directional_above_edge(edge_context, 4, 4, &plane);
    let left = av2_directional_left_edge(edge_context, 4, 4, &plane);

    assert_eq!(above, [52, 53, 54, 55, 55, 55, 55, 55]);
    assert_eq!(left, [67, 83, 99, 115, 115, 115, 115, 115]);
}

#[test]
fn smooth_edges_use_spec_fallbacks_at_tile_origin() {
    let edge_context = context((16, 16), (0, 0), (8, 8));
    let (above, left) = av2_smooth_intra_edges(edge_context, 0, 0, &grid(&[]));

    assert_eq!(
        above,
        [av2_lossless_v_pred_above_edge(edge_context.bit_depth); 5]
    );
    assert_eq!(
        left,
        [av2_lossless_h_pred_left_edge(edge_context.bit_depth); 5]
    );
}

#[test]
fn smooth_edges_read_interior_top_right_and_bottom_left_samples() {
    let (above, left) =
        av2_smooth_intra_edges(context((16, 16), (4, 4), (8, 8)), 4, 4, &grid(&[]));

    assert_eq!(above, [52, 53, 54, 55, 56]);
    assert_eq!(left, [67, 83, 99, 115, 131]);
}

#[test]
fn smooth_edges_admit_coded_external_overhang_samples() {
    let (above, left) = av2_smooth_intra_edges(
        context((16, 16), (4, 4), (4, 4)),
        4,
        4,
        &grid(&[(8, 3), (3, 8)]),
    );

    assert_eq!(above, [52, 53, 54, 55, 56]);
    assert_eq!(left, [67, 83, 99, 115, 131]);
}

#[test]
fn smooth_edges_repeat_the_last_sample_at_region_limits() {
    let (above, left) =
        av2_smooth_intra_edges(context((8, 8), (4, 4), (4, 4)), 4, 4, &grid(&[]));

    assert_eq!(above, [52, 53, 54, 55, 55]);
    assert_eq!(left, [67, 83, 99, 115, 115]);
}
