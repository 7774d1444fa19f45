use vstd::prelude::*;
use crate::geometry::MVP_SUPERBLOCK_SIZE;
use crate::geometry::TX4X4_SIZE;
use crate::sample::Av2Sample;
use crate::sample::SampleBitDepth;
use crate::sample::mid_sample_spec;
use crate::sample::av2_lossless_dc_predictor;
use crate::sample::av2_lossless_h_pred_left_edge;
use crate::sample::av2_lossless_v_pred_above_edge;
use crate::sample::av2_reference_dc_average;

verus! {

/// Where intra edge samples come from: neighbouring sample values of a
/// plane, and whether the block covering a position is already coded.
pub trait Av2EdgeSampler {
    /// Positions that may be read.
    spec fn readable(&self, x: int, y: int) -> bool;

    /// The sample at a readable position.
    spec fn sample_spec(&self, x: int, y: int) -> int;

    /// Whether the block covering a readable position is coded.
    spec fn coded_spec(&self, x: int, y: int) -> bool;

    fn sample(&self, x: usize, y: usize) -> (r: Av2Sample)
        requires
            self.readable(x as int, y as int),
        ensures
            r as int == self.sample_spec(x as int, y as int),
    ;

    fn is_coded(&self, x: usize, y: usize) -> (r: bool)
        requires
            self.readable(x as int, y as int),
        ensures
            r == self.coded_spec(x as int, y as int),
    ;
}

/// A plane held as a row-major grid of samples and coded flags.
pub struct Av2SampleGrid {
    pub width: usize,
    pub height: usize,
    pub samples: Vec<Av2Sample>,
    pub coded: Vec<bool>,
}

impl Av2SampleGrid {
    /// Sizes agree with the dimensions.
    pub open spec fn wf(&self) -> bool {
        &&& self.samples@.len() == self.width * self.height
        &&& self.coded@.len() == self.width * self.height
    }
}

impl Av2EdgeSampler for Av2SampleGrid {
    open spec fn readable(&self, x: int, y: int) -> bool {
        self.wf() && 0 <= x < self.width && 0 <= y < self.height
    }

    open spec fn sample_spec(&self, x: int, y: int) -> int {
        self.samples@[y * self.width + x] as int
    }

    open spec fn coded_spec(&self, x: int, y: int) -> bool {
        self.coded@[y * self.width + x]
    }

    fn sample(&self, x: usize, y: usize) -> (r: Av2Sample) {
        let n = self.samples.len();
        proof {
            crate::planar_layout::lemma_index_in_plane(x as int, y as int, self.width as int, self.height as int);
        }
        self.samples[y * self.width + x]
    }

    fn is_coded(&self, x: usize, y: usize) -> (r: bool) {
        let n = self.coded.len();
        proof {
            crate::planar_layout::lemma_index_in_plane(x as int, y as int, self.width as int, self.height as int);
        }
        self.coded[y * self.width + x]
    }
}

/// What intra edge construction needs to know about a 4x4 block's plane,
/// tile and prediction leaf.
#[derive(Clone, Copy)]
pub struct Av2IntraEdgeContext {
    pub bit_depth: SampleBitDepth,
    pub tile_origin: (usize, usize),
    pub plane_size: (usize, usize),
    pub edge_limit: (usize, usize),
    pub subsampling: (usize, usize),
    pub leaf_origin: (usize, usize),
    pub leaf_size: (usize, usize),
}

/// Whether a block at `(x0, y0)` has an available row above / column left.
pub open spec fn have_top_spec(ctx: Av2IntraEdgeContext, y0: int) -> bool {
    y0 > ctx.tile_origin.1
}

pub open spec fn have_left_spec(ctx: Av2IntraEdgeContext, x0: int) -> bool {
    x0 > ctx.tile_origin.0
}

/// Superblock size in the plane's samples.
pub open spec fn sb_width_spec(ctx: Av2IntraEdgeContext) -> int {
    MVP_SUPERBLOCK_SIZE as int / ctx.subsampling.0 as int
}

pub open spec fn sb_height_spec(ctx: Av2IntraEdgeContext) -> int {
    MVP_SUPERBLOCK_SIZE as int / ctx.subsampling.1 as int
}

pub open spec fn min_int(a: int, b: int) -> int {
    if a <= b { a } else { b }
}

/// Right end of the superblock containing `x0`, clipped to the plane and
/// the edge limit.
pub open spec fn sb_right_spec(ctx: Av2IntraEdgeContext, x0: int) -> int {
    let w = sb_width_spec(ctx);
    min_int(min_int((x0 / w) * w + w, ctx.plane_size.0 as int), ctx.edge_limit.0 as int)
}

/// Bottom end of the superblock containing `y0`, clipped likewise.
pub open spec fn sb_bottom_spec(ctx: Av2IntraEdgeContext, y0: int) -> int {
    let h = sb_height_spec(ctx);
    min_int(min_int((y0 / h) * h + h, ctx.plane_size.1 as int), ctx.edge_limit.1 as int)
}

/// Limits under which the edge builders neither divide by zero nor
/// overflow.
pub open spec fn edge_context_ok(ctx: Av2IntraEdgeContext, x0: int, y0: int) -> bool {
    &&& 1 <= ctx.subsampling.0 <= MVP_SUPERBLOCK_SIZE
    &&& 1 <= ctx.subsampling.1 <= MVP_SUPERBLOCK_SIZE
    &&& x0 + 2 * MVP_SUPERBLOCK_SIZE <= usize::MAX
    &&& y0 + 2 * MVP_SUPERBLOCK_SIZE <= usize::MAX
    &&& ctx.leaf_origin.0 + ctx.leaf_size.0 <= usize::MAX
    &&& ctx.leaf_origin.1 + ctx.leaf_size.1 <= usize::MAX
}

/// Every position that an edge builder may read is readable: the row above
/// up to the right edge limit, the column left down to the bottom edge limit.
pub open spec fn edges_readable<S: Av2EdgeSampler>(
    ctx: Av2IntraEdgeContext,
    x0: int,
    y0: int,
    s: &S,
) -> bool {
    &&& have_top_spec(ctx, y0) ==> forall|x: int|
        x0 <= x < ctx.edge_limit.0 ==> #[trigger] s.readable(x, y0 - 1)
    &&& have_left_spec(ctx, x0) ==> forall|y: int|
        y0 <= y < ctx.edge_limit.1 ==> #[trigger] s.readable(x0 - 1, y)
    &&& have_top_spec(ctx, y0) ==> s.readable(x0, y0 - 1)
    &&& have_left_spec(ctx, x0) ==> s.readable(x0 - 1, y0)
    &&& (have_top_spec(ctx, y0) && have_left_spec(ctx, x0)) ==> s.readable(x0 - 1, y0 - 1)
}

/// Entry `i` of the directional above edge.
pub open spec fn directional_above_spec<S: Av2EdgeSampler>(
    ctx: Av2IntraEdgeContext,
    x0: int,
    y0: int,
    s: &S,
    i: int,
) -> int
    decreases i,
{
    if have_top_spec(ctx, y0) {
        let x = x0 + i;
        let overhang = i >= TX4X4_SIZE;
        let external = overhang && y0 == ctx.leaf_origin.1 && x < ctx.edge_limit.0 && (y0
            % sb_height_spec(ctx) == 0 || (x < sb_right_spec(ctx, x0) && s.coded_spec(x, y0 - 1)));
        if x < ctx.edge_limit.0 && (!overhang || x < ctx.leaf_origin.0 + ctx.leaf_size.0 || external) {
            s.sample_spec(x, y0 - 1)
        } else if i > 0 {
            directional_above_spec(ctx, x0, y0, s, i - 1)
        } else {
            mid_sample_spec(ctx.bit_depth@) - 1
        }
    } else if have_left_spec(ctx, x0) {
        s.sample_spec(x0 - 1, y0)
    } else {
        mid_sample_spec(ctx.bit_depth@) - 1
    }
}

/// Entry `i` of the directional left edge.
pub open spec fn directional_left_spec<S: Av2EdgeSampler>(
    ctx: Av2IntraEdgeContext,
    x0: int,
    y0: int,
    s: &S,
    i: int,
) -> int
    decreases i,
{
    if have_left_spec(ctx, x0) {
        let y = y0 + i;
        let overhang = i >= TX4X4_SIZE;
        let external = overhang && x0 == ctx.leaf_origin.0 && y < sb_bottom_spec(ctx, y0) && (x0
            % sb_width_spec(ctx) == 0 || s.coded_spec(x0 - 1, y));
        if y < ctx.edge_limit.1 && (!overhang || (x0 == ctx.leaf_origin.0 && (y < ctx.leaf_origin.1
            + ctx.leaf_size.1 || external))) {
            s.sample_spec(x0 - 1, y)
        } else if i > 0 {
            directional_left_spec(ctx, x0, y0, s, i - 1)
        } else {
            mid_sample_spec(ctx.bit_depth@) + 1
        }
    } else if have_top_spec(ctx, y0) {
        s.sample_spec(x0, y0 - 1)
    } else {
        mid_sample_spec(ctx.bit_depth@) + 1
    }
}

proof fn lemma_sb_arith(ctx: Av2IntraEdgeContext, x0: int, y0: int)
    requires
        1 <= ctx.subsampling.0 <= MVP_SUPERBLOCK_SIZE,
        1 <= ctx.subsampling.1 <= MVP_SUPERBLOCK_SIZE,
        0 <= x0,
        0 <= y0,
    ensures
        1 <= sb_width_spec(ctx) <= MVP_SUPERBLOCK_SIZE,
        1 <= sb_height_spec(ctx) <= MVP_SUPERBLOCK_SIZE,
        0 <= (x0 / sb_width_spec(ctx)) * sb_width_spec(ctx) <= x0,
        0 <= (y0 / sb_height_spec(ctx)) * sb_height_spec(ctx) <= y0,
{
    let w = sb_width_spec(ctx);
    let h = sb_height_spec(ctx);
    assert(1 <= w <= 64int) by (nonlinear_arith)
        requires
            w == 64int / (ctx.subsampling.0 as int),
            1 <= ctx.subsampling.0 <= 64,
    ;
    assert(1 <= h <= 64int) by (nonlinear_arith)
        requires
            h == 64int / (ctx.subsampling.1 as int),
            1 <= ctx.subsampling.1 <= 64,
    ;
    assert(0 <= (x0 / w) * w <= x0) by (nonlinear_arith)
        requires
            1 <= w,
            0 <= x0,
    ;
    assert(0 <= (y0 / h) * h <= y0) by (nonlinear_arith)
        requires
            1 <= h,
            0 <= y0,
    ;
}

/// The eight-sample above edge of a 4x4 block for directional prediction:
/// the row above, extended right only into samples of the same leaf or of
/// coded blocks, else by repeating the last sample.
pub fn av2_directional_above_edge<S: Av2EdgeSampler>(
    context: Av2IntraEdgeContext,
    x0: usize,
    y0: usize,
    s: &S,
) -> (r: [Av2Sample; 8])
    requires
        edge_context_ok(context, x0 as int, y0 as int),
        edges_readable(context, x0 as int, y0 as int, s),
    ensures
        forall|i: int| 0 <= i < 8 ==> #[trigger] r[i] as int == directional_above_spec(context, x0 as int, y0 as int, s, i),
{
    let (tile_origin_x, tile_origin_y) = context.tile_origin;
    let (plane_width, _) = context.plane_size;
    let (edge_right, _) = context.edge_limit;
    let (sub_x, sub_y) = context.subsampling;
    let (leaf_x0, leaf_y0) = context.leaf_origin;
    let (leaf_width, _) = context.leaf_size;
    let have_top = y0 > tile_origin_y;
    let have_left = x0 > tile_origin_x;
    let fallback = av2_lossless_v_pred_above_edge(context.bit_depth);
    let mut above = [fallback; 8];
    if have_top {
        proof {
            lemma_sb_arith(context, x0 as int, y0 as int);
        }
        let plane_sb_width = MVP_SUPERBLOCK_SIZE / sub_x;
        let plane_sb_height = MVP_SUPERBLOCK_SIZE / sub_y;
        let sb_origin_x = (x0 / plane_sb_width) * plane_sb_width;
        let sb_end = sb_origin_x + plane_sb_width;
        let sb_right_a = if sb_end <= plane_width { sb_end } else { plane_width };
        let sb_right = if sb_right_a <= edge_right { sb_right_a } else { edge_right };
        let superblock_top_row = y0 % plane_sb_height == 0;
        let mut index: usize = 0;
        while index < 8
            invariant
                index <= 8,
                have_top,
                have_top_spec(context, y0 as int),
                y0 > 0,
                edge_context_ok(context, x0 as int, y0 as int),
                edges_readable(context, x0 as int, y0 as int, s),
                context.edge_limit.0 == edge_right,
                context.leaf_origin == (leaf_x0, leaf_y0),
                context.leaf_size.0 == leaf_width,
                sb_right == sb_right_spec(context, x0 as int),
                superblock_top_row == ((y0 as int) % sb_height_spec(context) == 0),
                forall|k: int| 0 <= k < index ==> #[trigger] above[k] as int == directional_above_spec(context, x0 as int, y0 as int, s, k),
                forall|k: int| index <= k < 8 ==> #[trigger] above[k] == fallback,
                fallback as int == mid_sample_spec(context.bit_depth@) - 1,
            decreases 8 - index,
        {
            let x = x0 + index;
            let overhang = index >= TX4X4_SIZE;
            proof {
                if x < edge_right {
                    assert(s.readable(x as int, y0 - 1));
                }
            }
            let external_top_right_coded = overhang && y0 == leaf_y0 && x < edge_right && (
            superblock_top_row || (x < sb_right && s.is_coded(x, y0 - 1)));
            if x < edge_right && (!overhang || x < leaf_x0 + leaf_width || external_top_right_coded) {
                above[index] = s.sample(x, y0 - 1);
            } else if index > 0 {
                above[index] = above[index - 1];
            }
            proof {
                assert(above[index as int] as int == directional_above_spec(context, x0 as int, y0 as int, s, index as int));
            }
            index = index + 1;
        }
    } else if have_left {
        let v = s.sample(x0 - 1, y0);
        above = [v; 8];
    }
    above
}

/// The eight-sample left edge of a 4x4 block for directional prediction:
/// the column to the left, extended down only within the leaf or into
/// coded blocks of the superblock, else by repeating the last sample.
pub fn av2_directional_left_edge<S: Av2EdgeSampler>(
    context: Av2IntraEdgeContext,
    x0: usize,
    y0: usize,
    s: &S,
) -> (r: [Av2Sample; 8])
    requires
        edge_context_ok(context, x0 as int, y0 as int),
        edges_readable(context, x0 as int, y0 as int, s),
    ensures
        forall|i: int| 0 <= i < 8 ==> #[trigger] r[i] as int == directional_left_spec(context, x0 as int, y0 as int, s, i),
{
    let (tile_origin_x, tile_origin_y) = context.tile_origin;
    let (_, plane_height) = context.plane_size;
    let (_, edge_bottom) = context.edge_limit;
    let (sub_x, sub_y) = context.subsampling;
    let (leaf_x0, leaf_y0) = context.leaf_origin;
    let (_, leaf_height) = context.leaf_size;
    let have_top = y0 > tile_origin_y;
    let have_left = x0 > tile_origin_x;
    let fallback = av2_lossless_h_pred_left_edge(context.bit_depth);
    let mut left = [fallback; 8];
    if have_left {
        proof {
            lemma_sb_arith(context, x0 as int, y0 as int);
        }
        let plane_sb_width = MVP_SUPERBLOCK_SIZE / sub_x;
        let plane_sb_height = MVP_SUPERBLOCK_SIZE / sub_y;
        let sb_origin_y = (y0 / plane_sb_height) * plane_sb_height;
        let sb_end = sb_origin_y + plane_sb_height;
        let sb_bottom_a = if sb_end <= plane_height { sb_end } else { plane_height };
        let sb_bottom = if sb_bottom_a <= edge_bottom { sb_bottom_a } else { edge_bottom };
        let superblock_left_col = x0 % plane_sb_width == 0;
        let mut index: usize = 0;
        while index < 8
            invariant
                index <= 8,
                have_left,
                have_left_spec(context, x0 as int),
                x0 > 0,
                edge_context_ok(context, x0 as int, y0 as int),
                edges_readable(context, x0 as int, y0 as int, s),
                context.edge_limit.1 == edge_bottom,
                context.leaf_origin == (leaf_x0, leaf_y0),
                context.leaf_size.1 == leaf_height,
                sb_bottom == sb_bottom_spec(context, y0 as int),
                sb_bottom <= edge_bottom,
                superblock_left_col == ((x0 as int) % sb_width_spec(context) == 0),
                forall|k: int| 0 <= k < index ==> #[trigger] left[k] as int == directional_left_spec(context, x0 as int, y0 as int, s, k),
                forall|k: int| index <= k < 8 ==> #[trigger] left[k] == fallback,
                fallback as int == mid_sample_spec(context.bit_depth@) + 1,
            decreases 8 - index,
        {
            let y = y0 + index;
            let overhang = index >= TX4X4_SIZE;
            proof {
                if y < edge_bottom {
                    assert(s.readable(x0 - 1, y as int));
                }
            }
            let external_bottom_left_coded = overhang && x0 == leaf_x0 && y < sb_bottom && (
            superblock_left_col || s.is_coded(x0 - 1, y));
            if y < edge_bottom && (!overhang || (x0 == leaf_x0 && (y < leaf_y0 + leaf_height
                || external_bottom_left_coded))) {
                left[index] = s.sample(x0 - 1, y);
            } else if index > 0 {
                left[index] = left[index - 1];
            }
            proof {
                assert(left[index as int] as int == directional_left_spec(context, x0 as int, y0 as int, s, index as int));
            }
            index = index + 1;
        }
    } else if have_top {
        let v = s.sample(x0, y0 - 1);
        left = [v; 8];
    }
    left
}

/// The positions that the smooth edge builder may read are readable.
pub open spec fn smooth_edges_readable<S: Av2EdgeSampler>(
    ctx: Av2IntraEdgeContext,
    x0: int,
    y0: int,
    s: &S,
) -> bool {
    &&& have_top_spec(ctx, y0) ==> forall|x: int| x0 <= x < x0 + TX4X4_SIZE ==> #[trigger] s.readable(x, y0 - 1)
    &&& (have_top_spec(ctx, y0) && x0 + TX4X4_SIZE < ctx.edge_limit.0) ==> s.readable(x0 + TX4X4_SIZE, y0 - 1)
    &&& have_left_spec(ctx, x0) ==> forall|y: int| y0 <= y < y0 + TX4X4_SIZE ==> #[trigger] s.readable(x0 - 1, y)
    &&& (have_left_spec(ctx, x0) && y0 + TX4X4_SIZE < ctx.edge_limit.1) ==> s.readable(x0 - 1, y0 + TX4X4_SIZE)
}

/// Entry `i` (0 to 3) of the row above a block, with the left neighbour or
/// the above-edge substitute in its place where no row above exists.
pub open spec fn above_row_spec<S: Av2EdgeSampler>(
    ctx: Av2IntraEdgeContext,
    x0: int,
    y0: int,
    s: &S,
    i: int,
) -> int {
    if have_top_spec(ctx, y0) {
        s.sample_spec(x0 + i, y0 - 1)
    } else if have_left_spec(ctx, x0) {
        s.sample_spec(x0 - 1, y0)
    } else {
        mid_sample_spec(ctx.bit_depth@) - 1
    }
}

/// Entry `i` (0 to 3) of the column left of a block, likewise.
pub open spec fn left_column_spec<S: Av2EdgeSampler>(
    ctx: Av2IntraEdgeContext,
    x0: int,
    y0: int,
    s: &S,
    i: int,
) -> int {
    if have_left_spec(ctx, x0) {
        s.sample_spec(x0 - 1, y0 + i)
    } else if have_top_spec(ctx, y0) {
        s.sample_spec(x0, y0 - 1)
    } else {
        mid_sample_spec(ctx.bit_depth@) + 1
    }
}

/// Entry `i` (0 to 4) of the smooth predictor's above edge; entry 4 is the
/// top-right sample.
pub open spec fn smooth_above_spec<S: Av2EdgeSampler>(
    ctx: Av2IntraEdgeContext,
    x0: int,
    y0: int,
    s: &S,
    i: int,
) -> int {
    let have_top = have_top_spec(ctx, y0);
    if i < TX4X4_SIZE {
        above_row_spec(ctx, x0, y0, s, i)
    } else {
        let tr = x0 + TX4X4_SIZE;
        let external = have_top && y0 == ctx.leaf_origin.1 && tr < ctx.edge_limit.0 && (y0
            % sb_height_spec(ctx) == 0 || (tr < sb_right_spec(ctx, x0) && s.coded_spec(tr, y0 - 1)));
        if have_top && tr < ctx.edge_limit.0 && (tr < ctx.leaf_origin.0 + ctx.leaf_size.0 || external) {
            s.sample_spec(tr, y0 - 1)
        } else {
            above_row_spec(ctx, x0, y0, s, TX4X4_SIZE - 1)
        }
    }
}

/// Entry `i` (0 to 4) of the smooth predictor's left edge; entry 4 is the
/// bottom-left sample.
pub open spec fn smooth_left_spec<S: Av2EdgeSampler>(
    ctx: Av2IntraEdgeContext,
    x0: int,
    y0: int,
    s: &S,
    i: int,
) -> int {
    let have_left = have_left_spec(ctx, x0);
    if i < TX4X4_SIZE {
        left_column_spec(ctx, x0, y0, s, i)
    } else {
        let bl = y0 + TX4X4_SIZE;
        let external = have_left && x0 == ctx.leaf_origin.0 && bl < sb_bottom_spec(ctx, y0) && (x0
            % sb_width_spec(ctx) == 0 || s.coded_spec(x0 - 1, bl));
        if have_left && x0 == ctx.leaf_origin.0 && bl < ctx.edge_limit.1 && (bl < ctx.leaf_origin.1
            + ctx.leaf_size.1 || external) {
            s.sample_spec(x0 - 1, bl)
        } else {
            left_column_spec(ctx, x0, y0, s, TX4X4_SIZE - 1)
        }
    }
}

/// The five-sample above and left edges of the smooth predictors: the row
/// above plus the top-right sample, and the column left plus the
/// bottom-left sample, each extra sample admitted only inside the leaf or
/// from a coded block.
pub fn av2_smooth_intra_edges<S: Av2EdgeSampler>(
    context: Av2IntraEdgeContext,
    x0: usize,
    y0: usize,
    s: &S,
) -> (r: ([Av2Sample; 5], [Av2Sample; 5]))
    requires
        edge_context_ok(context, x0 as int, y0 as int),
        smooth_edges_readable(context, x0 as int, y0 as int, s),
    ensures
        forall|i: int| 0 <= i < 5 ==> #[trigger] r.0[i] as int == smooth_above_spec(context, x0 as int, y0 as int, s, i),
        forall|i: int| 0 <= i < 5 ==> #[trigger] r.1[i] as int == smooth_left_spec(context, x0 as int, y0 as int, s, i),
{
    let (tile_origin_x, tile_origin_y) = context.tile_origin;
    let (plane_width, plane_height) = context.plane_size;
    let (plane_region_right, plane_region_bottom) = context.edge_limit;
    let (sub_x, sub_y) = context.subsampling;
    let (leaf_x0, leaf_y0) = context.leaf_origin;
    let (leaf_width, leaf_height) = context.leaf_size;
    let have_top = y0 > tile_origin_y;
    let have_left = x0 > tile_origin_x;
    let mut above = [av2_lossless_v_pred_above_edge(context.bit_depth); 5];
    let mut left = [av2_lossless_h_pred_left_edge(context.bit_depth); 5];
    if have_top {
        proof {
            assert(s.readable(x0 as int, y0 - 1));
            assert(s.readable(x0 + 1, y0 - 1));
            assert(s.readable(x0 + 2, y0 - 1));
            assert(s.readable(x0 + 3, y0 - 1));
        }
        above[0] = s.sample(x0, y0 - 1);
        above[1] = s.sample(x0 + 1, y0 - 1);
        above[2] = s.sample(x0 + 2, y0 - 1);
        above[3] = s.sample(x0 + 3, y0 - 1);
    } else if have_left {
        proof {
            assert(s.readable(x0 - 1, y0 as int));
        }
        let v = s.sample(x0 - 1, y0);
        above[0] = v;
        above[1] = v;
        above[2] = v;
        above[3] = v;
    }
    if have_left {
        proof {
            assert(s.readable(x0 - 1, y0 as int));
            assert(s.readable(x0 - 1, y0 + 1));
            assert(s.readable(x0 - 1, y0 + 2));
            assert(s.readable(x0 - 1, y0 + 3));
        }
        left[0] = s.sample(x0 - 1, y0);
        left[1] = s.sample(x0 - 1, y0 + 1);
        left[2] = s.sample(x0 - 1, y0 + 2);
        left[3] = s.sample(x0 - 1, y0 + 3);
    } else if have_top {
        proof {
            assert(s.readable(x0 as int, y0 - 1));
        }
        let v = s.sample(x0, y0 - 1);
        left[0] = v;
        left[1] = v;
        left[2] = v;
        left[3] = v;
    }
    proof {
        lemma_sb_arith(context, x0 as int, y0 as int);
    }
    let plane_sb_width = MVP_SUPERBLOCK_SIZE / sub_x;
    let plane_sb_height = MVP_SUPERBLOCK_SIZE / sub_y;
    let sb_origin_x = (x0 / plane_sb_width) * plane_sb_width;
    let sb_end_x = sb_origin_x + plane_sb_width;
    let sb_right_a = if sb_end_x <= plane_width { sb_end_x } else { plane_width };
    let sb_right = if sb_right_a <= plane_region_right { sb_right_a } else { plane_region_right };
    let top_right_x = x0 + TX4X4_SIZE;
    let superblock_top_row = y0 % plane_sb_height == 0;
    let external_top_right_coded = have_top && y0 == leaf_y0 && top_right_x < plane_region_right && (
    superblock_top_row || (top_right_x < sb_right && s.is_coded(top_right_x, y0 - 1)));
    if have_top && top_right_x < plane_region_right && (top_right_x < leaf_x0 + leaf_width
        || external_top_right_coded) {
        above[4] = s.sample(top_right_x, y0 - 1);
    } else {
        above[4] = above[3];
    }
    let sb_origin_y = (y0 / plane_sb_height) * plane_sb_height;
    let sb_end_y = sb_origin_y + plane_sb_height;
    let sb_bottom_a = if sb_end_y <= plane_height { sb_end_y } else { plane_height };
    let sb_bottom = if sb_bottom_a <= plane_region_bottom { sb_bottom_a } else { plane_region_bottom };
    let bottom_left_y = y0 + TX4X4_SIZE;
    let superblock_left_col = x0 % plane_sb_width == 0;
    let external_bottom_left_coded = have_left && x0 == leaf_x0 && bottom_left_y < sb_bottom && (
    superblock_left_col || s.is_coded(x0 - 1, bottom_left_y));
    if have_left && x0 == leaf_x0 && bottom_left_y < plane_region_bottom && (bottom_left_y
        < leaf_y0 + leaf_height || external_bottom_left_coded) {
        left[4] = s.sample(x0 - 1, bottom_left_y);
    } else {
        left[4] = left[3];
    }
    (above, left)
}

/// The positions that a 4x4 block's DC predictor reads are readable.
pub open spec fn block_edges_readable<S: Av2EdgeSampler>(
    tile_origin_x: int,
    tile_origin_y: int,
    x0: int,
    y0: int,
    s: &S,
) -> bool {
    &&& y0 > tile_origin_y ==> forall|x: int| x0 <= x < x0 + TX4X4_SIZE ==> #[trigger] s.readable(x, y0 - 1)
    &&& x0 > tile_origin_x ==> forall|y: int| y0 <= y < y0 + TX4X4_SIZE ==> #[trigger] s.readable(x0 - 1, y)
}

/// Sum of the four samples above a block.
pub open spec fn above_sum_spec<S: Av2EdgeSampler>(x0: int, y0: int, s: &S) -> int {
    s.sample_spec(x0, y0 - 1) + s.sample_spec(x0 + 1, y0 - 1) + s.sample_spec(x0 + 2, y0 - 1)
        + s.sample_spec(x0 + 3, y0 - 1)
}

/// Sum of the four samples left of a block.
pub open spec fn left_sum_spec<S: Av2EdgeSampler>(x0: int, y0: int, s: &S) -> int {
    s.sample_spec(x0 - 1, y0) + s.sample_spec(x0 - 1, y0 + 1) + s.sample_spec(x0 - 1, y0 + 2)
        + s.sample_spec(x0 - 1, y0 + 3)
}

/// DC prediction: the rounded mean of the available above and left
/// samples, or the range midpoint when neither exists.
pub open spec fn dc_from_edges_spec<S: Av2EdgeSampler>(
    bit_depth: SampleBitDepth,
    tile_origin_x: int,
    tile_origin_y: int,
    x0: int,
    y0: int,
    s: &S,
) -> int {
    let have_left = x0 > tile_origin_x;
    let have_top = y0 > tile_origin_y;
    let sum = (if have_top { above_sum_spec(x0, y0, s) } else { 0 }) + (if have_left {
        left_sum_spec(x0, y0, s)
    } else {
        0
    });
    let count: int = (if have_top { 4int } else { 0int }) + (if have_left { 4int } else { 0int });
    if !have_left && !have_top {
        mid_sample_spec(bit_depth@)
    } else {
        (sum + count / 2) / count
    }
}

/// DC predictor of a 4x4 block from its edges.
pub fn av2_dc_predictor_from_edges<S: Av2EdgeSampler>(
    bit_depth: SampleBitDepth,
    tile_origin_x: usize,
    tile_origin_y: usize,
    x0: usize,
    y0: usize,
    s: &S,
) -> (r: Av2Sample)
    requires
        x0 + TX4X4_SIZE <= usize::MAX,
        y0 + TX4X4_SIZE <= usize::MAX,
        block_edges_readable(tile_origin_x as int, tile_origin_y as int, x0 as int, y0 as int, s),
    ensures
        r as int == dc_from_edges_spec(bit_depth, tile_origin_x as int, tile_origin_y as int, x0 as int, y0 as int, s),
{
    let have_left = x0 > tile_origin_x;
    let have_top = y0 > tile_origin_y;
    if !have_left && !have_top {
        return av2_lossless_dc_predictor(bit_depth);
    }
    let mut sum: u32 = 0;
    let mut count: u32 = 0;
    if have_top {
        proof {
            assert(s.readable(x0 as int, y0 - 1));
            assert(s.readable(x0 + 1, y0 - 1));
            assert(s.readable(x0 + 2, y0 - 1));
            assert(s.readable(x0 + 3, y0 - 1));
        }
        let a = s.sample(x0, y0 - 1) as u32;
        let b = s.sample(x0 + 1, y0 - 1) as u32;
        let c = s.sample(x0 + 2, y0 - 1) as u32;
        let d = s.sample(x0 + 3, y0 - 1) as u32;
        sum = a + b + c + d;
        count = 4;
    }
    if have_left {
        proof {
            assert(s.readable(x0 - 1, y0 as int));
            assert(s.readable(x0 - 1, y0 + 1));
            assert(s.readable(x0 - 1, y0 + 2));
            assert(s.readable(x0 - 1, y0 + 3));
        }
        let a = s.sample(x0 - 1, y0) as u32;
        let b = s.sample(x0 - 1, y0 + 1) as u32;
        let c = s.sample(x0 - 1, y0 + 2) as u32;
        let d = s.sample(x0 - 1, y0 + 3) as u32;
        sum = sum + a + b + c + d;
        count = count + 4;
    }
    av2_reference_dc_average(sum, count)
}

/// Horizontal prediction of row `local_y`: the sample left of that row, or
/// the sample above the block at the left tile edge, or the left-edge
/// substitute at the tile origin.
pub open spec fn h_from_edges_spec<S: Av2EdgeSampler>(
    bit_depth: SampleBitDepth,
    tile_origin_x: int,
    tile_origin_y: int,
    x0: int,
    y0: int,
    local_y: int,
    s: &S,
) -> int {
    if x0 > tile_origin_x {
        s.sample_spec(x0 - 1, y0 + local_y)
    } else if y0 > tile_origin_y {
        s.sample_spec(x0, y0 - 1)
    } else {
        mid_sample_spec(bit_depth@) + 1
    }
}

/// Vertical prediction of column `local_x`, symmetric to the horizontal one.
pub open spec fn v_from_edges_spec<S: Av2EdgeSampler>(
    bit_depth: SampleBitDepth,
    tile_origin_x: int,
    tile_origin_y: int,
    x0: int,
    y0: int,
    local_x: int,
    s: &S,
) -> int {
    if y0 > tile_origin_y {
        s.sample_spec(x0 + local_x, y0 - 1)
    } else if x0 > tile_origin_x {
        s.sample_spec(x0 - 1, y0)
    } else {
        mid_sample_spec(bit_depth@) - 1
    }
}

/// The above-left corner sample, falling back to the above or left
/// neighbour, or the range midpoint.
pub open spec fn above_left_from_edges_spec<S: Av2EdgeSampler>(
    bit_depth: SampleBitDepth,
    tile_origin_x: int,
    tile_origin_y: int,
    x0: int,
    y0: int,
    s: &S,
) -> int {
    let have_left = x0 > tile_origin_x;
    let have_top = y0 > tile_origin_y;
    if have_left && have_top {
        s.sample_spec(x0 - 1, y0 - 1)
    } else if have_top {
        s.sample_spec(x0, y0 - 1)
    } else if have_left {
        s.sample_spec(x0 - 1, y0)
    } else {
        mid_sample_spec(bit_depth@)
    }
}

/// Horizontal predictor of one row of a 4x4 block.
pub fn av2_h_predictor_from_edges<S: Av2EdgeSampler>(
    bit_depth: SampleBitDepth,
    tile_origin_x: usize,
    tile_origin_y: usize,
    x0: usize,
    y0: usize,
    local_y: usize,
    s: &S,
) -> (r: Av2Sample)
    requires
        y0 + local_y <= usize::MAX,
        x0 > tile_origin_x ==> s.readable(x0 - 1, y0 + local_y),
        x0 <= tile_origin_x && y0 > tile_origin_y ==> s.readable(x0 as int, y0 - 1),
    ensures
        r as int == h_from_edges_spec(bit_depth, tile_origin_x as int, tile_origin_y as int, x0 as int, y0 as int, local_y as int, s),
{
    if x0 > tile_origin_x {
        s.sample(x0 - 1, y0 + local_y)
    } else if y0 > tile_origin_y {
        s.sample(x0, y0 - 1)
    } else {
        av2_lossless_h_pred_left_edge(bit_depth)
    }
}

/// Vertical predictor of one column of a 4x4 block.
pub fn av2_v_predictor_from_edges<S: Av2EdgeSampler>(
    bit_depth: SampleBitDepth,
    tile_origin_x: usize,
    tile_origin_y: usize,
    x0: usize,
    y0: usize,
    local_x: usize,
    s: &S,
) -> (r: Av2Sample)
    requires
        x0 + local_x <= usize::MAX,
        y0 > tile_origin_y ==> s.readable(x0 + local_x, y0 - 1),
        y0 <= tile_origin_y && x0 > tile_origin_x ==> s.readable(x0 - 1, y0 as int),
    ensures
        r as int == v_from_edges_spec(bit_depth, tile_origin_x as int, tile_origin_y as int, x0 as int, y0 as int, local_x as int, s),
{
    if y0 > tile_origin_y {
        s.sample(x0 + local_x, y0 - 1)
    } else if x0 > tile_origin_x {
        s.sample(x0 - 1, y0)
    } else {
        av2_lossless_v_pred_above_edge(bit_depth)
    }
}

/// Above-left corner predictor of a 4x4 block.
pub fn av2_above_left_predictor_from_edges<S: Av2EdgeSampler>(
    bit_depth: SampleBitDepth,
    tile_origin_x: usize,
    tile_origin_y: usize,
    x0: usize,
    y0: usize,
    s: &S,
) -> (r: Av2Sample)
    requires
        x0 > tile_origin_x && y0 > tile_origin_y ==> s.readable(x0 - 1, y0 - 1),
        x0 <= tile_origin_x && y0 > tile_origin_y ==> s.readable(x0 as int, y0 - 1),
        x0 > tile_origin_x && y0 <= tile_origin_y ==> s.readable(x0 - 1, y0 as int),
    ensures
        r as int == above_left_from_edges_spec(bit_depth, tile_origin_x as int, tile_origin_y as int, x0 as int, y0 as int, s),
{
    let have_left = x0 > tile_origin_x;
    let have_top = y0 > tile_origin_y;
    if have_left && have_top {
        s.sample(x0 - 1, y0 - 1)
    } else if have_top {
        s.sample(x0, y0 - 1)
    } else if have_left {
        s.sample(x0 - 1, y0)
    } else {
        av2_lossless_dc_predictor(bit_depth)
    }
}

/// Absolute value.
pub open spec fn abs_int(v: int) -> int {
    if v < 0 { -v } else { v }
}

/// Paeth prediction: of `left`, `above` and `above_left`, the one closest
/// to `left + above - above_left`, preferring left, then above, on ties.
pub open spec fn paeth_spec(left: int, above: int, above_left: int) -> int {
    let base = left + above - above_left;
    let p_left = abs_int(base - left);
    let p_top = abs_int(base - above);
    let p_top_left = abs_int(base - above_left);
    if p_left <= p_top && p_left <= p_top_left {
        left
    } else if p_top <= p_top_left {
        above
    } else {
        above_left
    }
}

/// Paeth predictor of one sample.
pub fn paeth_predictor(left: Av2Sample, above: Av2Sample, above_left: Av2Sample) -> (r: Av2Sample)
    ensures
        r as int == paeth_spec(left as int, above as int, above_left as int),
{
    let base = left as i32 + above as i32 - above_left as i32;
    let p_left = if base >= left as i32 { base - left as i32 } else { left as i32 - base };
    let p_top = if base >= above as i32 { base - above as i32 } else { above as i32 - base };
    let p_top_left = if base >= above_left as i32 { base - above_left as i32 } else { above_left as i32 - base };
    if p_left <= p_top && p_left <= p_top_left {
        left
    } else if p_top <= p_top_left {
        above
    } else {
        above_left
    }
}

/// DC prediction averages every available edge sample: with both edges,
/// the rounded mean of the four samples above and the four to the left;
/// with one edge, the rounded mean of its four samples; with none, the
/// midpoint of the sample range.
pub proof fn lemma_dc_prediction_is_edge_mean<S: Av2EdgeSampler>(
    bit_depth: SampleBitDepth,
    tile_origin_x: int,
    tile_origin_y: int,
    x0: int,
    y0: int,
    s: &S,
)
    ensures
        ({
            let above = s.sample_spec(x0, y0 - 1) + s.sample_spec(x0 + 1, y0 - 1) + s.sample_spec(x0 + 2, y0 - 1) + s.sample_spec(
                x0 + 3,
                y0 - 1,
            );
            let left = s.sample_spec(x0 - 1, y0) + s.sample_spec(x0 - 1, y0 + 1) + s.sample_spec(x0 - 1, y0 + 2) + s.sample_spec(
                x0 - 1,
                y0 + 3,
            );
            let dc = dc_from_edges_spec(bit_depth, tile_origin_x, tile_origin_y, x0, y0, s);
            &&& x0 > tile_origin_x && y0 > tile_origin_y ==> dc == (above + left + 4) / 8
            &&& x0 <= tile_origin_x && y0 > tile_origin_y ==> dc == (above + 2) / 4
            &&& x0 > tile_origin_x && y0 <= tile_origin_y ==> dc == (left + 2) / 4
            &&& x0 <= tile_origin_x && y0 <= tile_origin_y ==> dc == mid_sample_spec(bit_depth@)
        }),
{
}

/// DC prediction is symmetric in the two edges: exchanging the samples
/// above the block with those to its left (with both edges present) does
/// not change it.
pub proof fn lemma_dc_prediction_edge_symmetric<S: Av2EdgeSampler, T: Av2EdgeSampler>(
    bit_depth: SampleBitDepth,
    tile_origin_x: int,
    tile_origin_y: int,
    x0: int,
    y0: int,
    s: &S,
    t: &T,
)
    requires
        x0 > tile_origin_x,
        y0 > tile_origin_y,
        forall|i: int| 0 <= i < 4 ==> #[trigger] t.sample_spec(x0 + i, y0 - 1) == s.sample_spec(x0 - 1, y0 + i),
        forall|i: int| 0 <= i < 4 ==> #[trigger] t.sample_spec(x0 - 1, y0 + i) == s.sample_spec(x0 + i, y0 - 1),
    ensures
        dc_from_edges_spec(bit_depth, tile_origin_x, tile_origin_y, x0, y0, t) == dc_from_edges_spec(
            bit_depth,
            tile_origin_x,
            tile_origin_y,
            x0,
            y0,
            s,
        ),
{
    lemma_dc_prediction_is_edge_mean(bit_depth, tile_origin_x, tile_origin_y, x0, y0, s);
    lemma_dc_prediction_is_edge_mean(bit_depth, tile_origin_x, tile_origin_y, x0, y0, t);
    assert(t.sample_spec(x0 + 0, y0 - 1) == s.sample_spec(x0 - 1, y0 + 0));
    assert(t.sample_spec(x0 + 1, y0 - 1) == s.sample_spec(x0 - 1, y0 + 1));
    assert(t.sample_spec(x0 + 2, y0 - 1) == s.sample_spec(x0 - 1, y0 + 2));
    assert(t.sample_spec(x0 + 3, y0 - 1) == s.sample_spec(x0 - 1, y0 + 3));
    assert(t.sample_spec(x0 - 1, y0 + 0) == s.sample_spec(x0 + 0, y0 - 1));
    assert(t.sample_spec(x0 - 1, y0 + 1) == s.sample_spec(x0 + 1, y0 - 1));
    assert(t.sample_spec(x0 - 1, y0 + 2) == s.sample_spec(x0 + 2, y0 - 1));
    assert(t.sample_spec(x0 - 1, y0 + 3) == s.sample_spec(x0 + 3, y0 - 1));
}

/// Horizontal and vertical prediction are transposes of each other: with
/// at least one edge available, row `i` of the horizontal prediction of a
/// block equals column `i` of the vertical prediction of the transposed
/// block in the transposed neighbourhood.
pub proof fn lemma_h_prediction_is_transposed_v<S: Av2EdgeSampler, T: Av2EdgeSampler>(
    bit_depth: SampleBitDepth,
    tile_origin_x: int,
    tile_origin_y: int,
    x0: int,
    y0: int,
    i: int,
    s: &S,
    t: &T,
)
    requires
        x0 > tile_origin_x || y0 > tile_origin_y,
        forall|x: int, y: int| #[trigger] t.sample_spec(x, y) == s.sample_spec(y, x),
    ensures
        h_from_edges_spec(bit_depth, tile_origin_x, tile_origin_y, x0, y0, i, s) == v_from_edges_spec(
            bit_depth,
            tile_origin_y,
            tile_origin_x,
            y0,
            x0,
            i,
            t,
        ),
{
    assert(t.sample_spec(y0 + i, x0 - 1) == s.sample_spec(x0 - 1, y0 + i));
    assert(t.sample_spec(y0 - 1, x0) == s.sample_spec(x0, y0 - 1));
}

/// The Paeth predictor picks, among the left, above and above-left
/// samples, one closest to `left + above - above_left`.
pub proof fn lemma_paeth_picks_closest(left: int, above: int, above_left: int)
    ensures
        ({
            let base = left + above - above_left;
            let r = paeth_spec(left, above, above_left);
            &&& r == left || r == above || r == above_left
            &&& abs_int(base - r) <= abs_int(base - left)
            &&& abs_int(base - r) <= abs_int(base - above)
            &&& abs_int(base - r) <= abs_int(base - above_left)
        }),
{
}

/// The directional above edge never invents a sample: with the row above
/// available and the block's first column within the edge limit, entry `i`
/// is the sample above column `x0 + j` for some `j <= i`, and exactly the
/// sample above column `x0 + i` for the block's own four columns within the
/// limit.
pub proof fn lemma_directional_above_reads_row_above<S: Av2EdgeSampler>(ctx: Av2IntraEdgeContext, x0: int, y0: int, s: &S, i: int)
    requires
        have_top_spec(ctx, y0),
        x0 < ctx.edge_limit.0,
        0 <= i,
    ensures
        exists|j: int| 0 <= j <= i && #[trigger] s.sample_spec(x0 + j, y0 - 1) == directional_above_spec(ctx, x0, y0, s, i),
        i < TX4X4_SIZE && x0 + i < ctx.edge_limit.0 ==> directional_above_spec(ctx, x0, y0, s, i) == s.sample_spec(x0 + i, y0 - 1),
    decreases i,
{
    let x = x0 + i;
    let overhang = i >= TX4X4_SIZE;
    let external = overhang && y0 == ctx.leaf_origin.1 && x < ctx.edge_limit.0 && (y0 % sb_height_spec(ctx) == 0 || (x
        < sb_right_spec(ctx, x0) && s.coded_spec(x, y0 - 1)));
    if x < ctx.edge_limit.0 && (!overhang || x < ctx.leaf_origin.0 + ctx.leaf_size.0 || external) {
        assert(s.sample_spec(x0 + i, y0 - 1) == directional_above_spec(ctx, x0, y0, s, i));
    } else if i > 0 {
        lemma_directional_above_reads_row_above(ctx, x0, y0, s, i - 1);
        let j = choose|j: int| 0 <= j <= i - 1 && #[trigger] s.sample_spec(x0 + j, y0 - 1) == directional_above_spec(ctx, x0, y0, s, i - 1);
        assert(s.sample_spec(x0 + j, y0 - 1) == directional_above_spec(ctx, x0, y0, s, i));
    } else {
        assert(s.sample_spec(x0 + 0, y0 - 1) == directional_above_spec(ctx, x0, y0, s, i));
    }
}

/// The directional left edge never invents a sample: with the column to
/// the left available and the block's first row within the edge limit,
/// entry `i` is the sample left of row `y0 + j` for some `j <= i`, and
/// exactly the sample left of row `y0 + i` for the block's own four rows
/// within the limit.
pub proof fn lemma_directional_left_reads_column_left<S: Av2EdgeSampler>(ctx: Av2IntraEdgeContext, x0: int, y0: int, s: &S, i: int)
    requires
        have_left_spec(ctx, x0),
        y0 < ctx.edge_limit.1,
        0 <= i,
    ensures
        exists|j: int| 0 <= j <= i && #[trigger] s.sample_spec(x0 - 1, y0 + j) == directional_left_spec(ctx, x0, y0, s, i),
        i < TX4X4_SIZE && y0 + i < ctx.edge_limit.1 ==> directional_left_spec(ctx, x0, y0, s, i) == s.sample_spec(x0 - 1, y0 + i),
    decreases i,
{
    let y = y0 + i;
    let overhang = i >= TX4X4_SIZE;
    let external = overhang && x0 == ctx.leaf_origin.0 && y < sb_bottom_spec(ctx, y0) && (x0 % sb_width_spec(ctx) == 0
        || s.coded_spec(x0 - 1, y));
    if y < ctx.edge_limit.1 && (!overhang || (x0 == ctx.leaf_origin.0 && (y < ctx.leaf_origin.1 + ctx.leaf_size.1 || external))) {
        assert(s.sample_spec(x0 - 1, y0 + i) == directional_left_spec(ctx, x0, y0, s, i));
    } else if i > 0 {
        lemma_directional_left_reads_column_left(ctx, x0, y0, s, i - 1);
        let j = choose|j: int| 0 <= j <= i - 1 && #[trigger] s.sample_spec(x0 - 1, y0 + j) == directional_left_spec(ctx, x0, y0, s, i - 1);
        assert(s.sample_spec(x0 - 1, y0 + j) == directional_left_spec(ctx, x0, y0, s, i));
    } else {
        assert(s.sample_spec(x0 - 1, y0 + 0) == directional_left_spec(ctx, x0, y0, s, i));
    }
}

/// The smooth and directional predictors read the same edges: when the
/// row above is available and the block's four columns lie within the edge
/// limit, the five entries of the smooth above edge (the row above and the
/// top-right sample) equal the first five of the directional above edge.
pub proof fn lemma_smooth_above_matches_directional<S: Av2EdgeSampler>(ctx: Av2IntraEdgeContext, x0: int, y0: int, s: &S, i: int)
    requires
        have_top_spec(ctx, y0),
        x0 + 3 < ctx.edge_limit.0,
        0 <= i <= 4,
    ensures
        smooth_above_spec(ctx, x0, y0, s, i) == directional_above_spec(ctx, x0, y0, s, i),
{
    if i == 4 {
        assert(directional_above_spec(ctx, x0, y0, s, 3) == s.sample_spec(x0 + 3, y0 - 1));
    }
}

/// Likewise for the left edges: when the column to the left is available
/// and the block's four rows lie within the edge limit, the five entries of
/// the smooth left edge equal the first five of the directional left edge.
pub proof fn lemma_smooth_left_matches_directional<S: Av2EdgeSampler>(ctx: Av2IntraEdgeContext, x0: int, y0: int, s: &S, i: int)
    requires
        have_left_spec(ctx, x0),
        y0 + 3 < ctx.edge_limit.1,
        0 <= i <= 4,
    ensures
        smooth_left_spec(ctx, x0, y0, s, i) == directional_left_spec(ctx, x0, y0, s, i),
{
    if i == 4 {
        assert(directional_left_spec(ctx, x0, y0, s, 3) == s.sample_spec(x0 - 1, y0 + 3));
    }
}

} // verus!
