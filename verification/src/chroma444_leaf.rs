use vstd::prelude::*;
use crate::coefficient_contexts::min_int;
use crate::geometry::TX4X4_SIZE;
use crate::geometry::TX8X8_SAMPLES;
use crate::geometry::TX8X8_SIZE;
use crate::geometry::TX4X8_HEIGHT;
use crate::geometry::TX4X8_SAMPLES;
use crate::geometry::TX4X8_WIDTH;
use crate::lossless_state::byte_in_rect;
use crate::lossy_candidates::clamp_int;
use crate::lossy_metrics::clamp_i32;
use crate::lossy_recon::lemma_distinct_plane_index;
use crate::lossy_recon::lemma_sample_in_rect_bytes;
use crate::sample::bytes_per_sample_spec;
use crate::sample::max_sample_spec;
use crate::lossy_candidates::Av2LossyTx8x8Analysis;
use crate::lossy_metrics::sat_sub_spec;
use crate::lossy_state::Av2Chroma444IntraPredictorPlan;
use crate::lossy_state::Av2LossyPlane;
use crate::lossy_state::Av2LossySubsampledTileState;
use crate::sample::Av2Sample;
use crate::sample::av2_lossless_dc_predictor;
use crate::sample::av2_reference_dc_average;
use crate::sample::mid_sample_spec;
use crate::modes::Av2ChromaIntraMode;
use crate::modes::Av2LossySubsampledModeDecision;

verus! {

/// The 4x4 chroma transform blocks under a leaf: the first block's column
/// and row in the tile's chroma 4x4 grid, and how many blocks the leaf spans
/// across and down.
#[derive(Clone, Copy, Debug, PartialEq, Eq, Structural)]
pub struct Av2ChromaTx4x4Span {
    pub row: usize,
    pub col: usize,
    pub width: usize,
    pub height: usize,
}

/// Visible extent of a chroma leaf along one axis: `blocks` 4x4 blocks, at
/// most one 8x8 block, cut at the plane's edge.
pub open spec fn visible_extent(blocks: int, plane_size: int, origin: int) -> int {
    min_int(min_int(blocks * TX4X4_SIZE, TX8X8_SIZE as int), sat_sub_spec(plane_size, origin))
}

/// Where the samples of an 8x8 chroma leaf are predicted from.
pub enum Av2Chroma444Prediction<'r> {
    /// Intra prediction from the leaf's reconstructed edges.
    Intra(Av2Chroma444IntraPredictorPlan),
    /// The co-located samples of a reference frame, displaced to
    /// `(ref_x0, ref_y0)`.
    Inter { reference: &'r [u8], ref_x0: usize, ref_y0: usize },
}

/// Whether the prediction of leaf sample `(local_x, local_y)` reads only
/// samples that exist.
pub open spec fn prediction_readable(
    lossy: &Av2LossySubsampledTileState,
    plane: Av2LossyPlane,
    prediction: Av2Chroma444Prediction,
    local_x: int,
    local_y: int,
) -> bool {
    match prediction {
        Av2Chroma444Prediction::Intra(plan) => {
            &&& plan.have_left ==> plan.leaf_x0 >= 1 && lossy.in_plane(plane, plan.leaf_x0 - 1, plan.leaf_y0 + local_y)
                && lossy.in_plane(plane, plan.leaf_x0 - 1, plan.leaf_y0 as int)
            &&& plan.have_top ==> plan.leaf_y0 >= 1 && lossy.in_plane(plane, plan.leaf_x0 + local_x, plan.leaf_y0 - 1)
                && lossy.in_plane(plane, plan.leaf_x0 as int, plan.leaf_y0 - 1)
        },
        Av2Chroma444Prediction::Inter { reference, ref_x0, ref_y0 } => {
            &&& reference@.len() == lossy.source_view().len()
            &&& lossy.in_plane(plane, ref_x0 + local_x, ref_y0 + local_y)
        },
    }
}

/// The predicted value of leaf sample `(local_x, local_y)`.
pub open spec fn prediction_sample_spec(
    lossy: &Av2LossySubsampledTileState,
    plane: Av2LossyPlane,
    prediction: Av2Chroma444Prediction,
    local_x: int,
    local_y: int,
) -> int {
    match prediction {
        Av2Chroma444Prediction::Intra(plan) => plan.sample_spec(lossy, plane, local_x, local_y),
        Av2Chroma444Prediction::Inter { reference, ref_x0, ref_y0 } => lossy.reference_sample_spec(
            reference@,
            plane,
            ref_x0 + local_x,
            ref_y0 + local_y,
        ),
    }
}

impl<'r> Av2Chroma444Prediction<'r> {
    /// The predicted value of leaf sample `(local_x, local_y)`.
    pub fn sample(&self, lossy: &Av2LossySubsampledTileState, plane: Av2LossyPlane, local_x: usize, local_y: usize) -> (r: Av2Sample)
        requires
            prediction_readable(lossy, plane, *self, local_x as int, local_y as int),
        ensures
            r as int == prediction_sample_spec(lossy, plane, *self, local_x as int, local_y as int),
    {
        match self {
            Av2Chroma444Prediction::Intra(plan) => plan.sample(lossy, plane, local_x, local_y),
            Av2Chroma444Prediction::Inter { reference, ref_x0, ref_y0 } => lossy.reference_sample(
                reference,
                plane,
                *ref_x0 + local_x,
                *ref_y0 + local_y,
            ),
        }
    }
}

/// `a` is the analysis of the chroma leaf at `(leaf_x0, leaf_y0)` with the
/// given visible extent: inside the visible part the predictor and the
/// source-minus-predictor residual, zero elsewhere (rows of eight).
pub open spec fn is_tx8x8_analysis(
    lossy: &Av2LossySubsampledTileState,
    plane: Av2LossyPlane,
    a: Av2LossyTx8x8Analysis,
    leaf_x0: usize,
    leaf_y0: usize,
    visible_width: usize,
    visible_height: usize,
    prediction: Av2Chroma444Prediction,
) -> bool {
    &&& a.leaf_x0 == leaf_x0
    &&& a.leaf_y0 == leaf_y0
    &&& a.visible_width == visible_width
    &&& a.visible_height == visible_height
    &&& forall|i: int|
        0 <= i < 64 ==> #[trigger] a.predictor[i] == (if i % 8 < visible_width && i / 8 < visible_height {
            prediction_sample_spec(lossy, plane, prediction, i % 8, i / 8)
        } else {
            0
        })
    &&& forall|i: int|
        0 <= i < 64 ==> #[trigger] a.residual[i] == (if i % 8 < visible_width && i / 8 < visible_height {
            lossy.source_sample_spec(plane, leaf_x0 + i % 8, leaf_y0 + i / 8) - prediction_sample_spec(
                lossy,
                plane,
                prediction,
                i % 8,
                i / 8,
            )
        } else {
            0
        })
}

/// Column of a chroma leaf's first sample in the plane.
pub open spec fn leaf_x0_spec(lossy: &Av2LossySubsampledTileState, plane: Av2LossyPlane, span: Av2ChromaTx4x4Span) -> int {
    lossy.plane_spec(plane).origin_x + span.col * TX4X4_SIZE
}

/// Row of a chroma leaf's first sample in the plane.
pub open spec fn leaf_y0_spec(lossy: &Av2LossySubsampledTileState, plane: Av2LossyPlane, span: Av2ChromaTx4x4Span) -> int {
    lossy.plane_spec(plane).origin_y + span.row * TX4X4_SIZE
}

/// Visible width of a chroma leaf.
pub open spec fn leaf_visible_width_spec(lossy: &Av2LossySubsampledTileState, plane: Av2LossyPlane, span: Av2ChromaTx4x4Span) -> int {
    visible_extent(span.width as int, lossy.plane_spec(plane).width as int, leaf_x0_spec(lossy, plane, span))
}

/// Visible height of a chroma leaf.
pub open spec fn leaf_visible_height_spec(lossy: &Av2LossySubsampledTileState, plane: Av2LossyPlane, span: Av2ChromaTx4x4Span) -> int {
    visible_extent(span.height as int, lossy.plane_spec(plane).height as int, leaf_y0_spec(lossy, plane, span))
}

/// A chroma span the leaf functions can address: its first sample lies in
/// the plane and its extent is representable.
pub open spec fn leaf_span_ok(lossy: &Av2LossySubsampledTileState, plane: Av2LossyPlane, span: Av2ChromaTx4x4Span) -> bool {
    &&& plane != Av2LossyPlane::Y
    &&& span.width * TX4X4_SIZE <= usize::MAX
    &&& span.height * TX4X4_SIZE <= usize::MAX
    &&& leaf_x0_spec(lossy, plane, span) < lossy.plane_spec(plane).width
    &&& leaf_y0_spec(lossy, plane, span) < lossy.plane_spec(plane).height
}

/// Sum of the `n` reconstructed samples of row `y` starting at column `x0`.
pub open spec fn recon_row_sum(lossy: &Av2LossySubsampledTileState, plane: Av2LossyPlane, x0: int, y: int, n: nat) -> int
    decreases n,
{
    if n == 0 {
        0
    } else {
        recon_row_sum(lossy, plane, x0, y, (n - 1) as nat) + lossy.recon_sample_spec(plane, x0 + n - 1, y)
    }
}

/// Sum of the `n` reconstructed samples of column `x` starting at row `y0`.
pub open spec fn recon_column_sum(lossy: &Av2LossySubsampledTileState, plane: Av2LossyPlane, x: int, y0: int, n: nat) -> int
    decreases n,
{
    if n == 0 {
        0
    } else {
        recon_column_sum(lossy, plane, x, y0, (n - 1) as nat) + lossy.recon_sample_spec(plane, x, y0 + n - 1)
    }
}

/// DC prediction of a chroma leaf: the rounded mean of the reconstructed
/// row above its visible width and column left of its visible height, where
/// those exist; the range midpoint when neither does.
pub open spec fn leaf_dc_spec(
    lossy: &Av2LossySubsampledTileState,
    plane: Av2LossyPlane,
    leaf_x0: int,
    leaf_y0: int,
    visible_width: int,
    visible_height: int,
    have_left: bool,
    have_top: bool,
) -> int {
    let count = (if have_top { visible_width } else { 0 }) + (if have_left { visible_height } else { 0 });
    let sum = (if have_top {
        recon_row_sum(lossy, plane, leaf_x0, leaf_y0 - 1, visible_width as nat)
    } else {
        0
    }) + (if have_left {
        recon_column_sum(lossy, plane, leaf_x0 - 1, leaf_y0, visible_height as nat)
    } else {
        0
    });
    if count == 0 {
        mid_sample_spec(lossy.bit_depth_view()@)
    } else {
        (sum + count / 2) / count
    }
}

/// Above-left neighbour of a chroma leaf for Paeth prediction: the corner
/// sample, else the first sample above, else the first sample to the left,
/// else the range midpoint.
pub open spec fn leaf_above_left_spec(
    lossy: &Av2LossySubsampledTileState,
    plane: Av2LossyPlane,
    leaf_x0: int,
    leaf_y0: int,
    have_left: bool,
    have_top: bool,
) -> int {
    if have_left && have_top {
        lossy.recon_sample_spec(plane, leaf_x0 - 1, leaf_y0 - 1)
    } else if have_top {
        lossy.recon_sample_spec(plane, leaf_x0, leaf_y0 - 1)
    } else if have_left {
        lossy.recon_sample_spec(plane, leaf_x0 - 1, leaf_y0)
    } else {
        mid_sample_spec(lossy.bit_depth_view()@)
    }
}

/// The intra predictor plan of a chroma leaf: where it lies, which of its
/// edges lie inside the tile, and the DC and Paeth corner values its mode
/// needs (zero for other modes).
pub open spec fn intra_plan_spec(
    lossy: &Av2LossySubsampledTileState,
    plane: Av2LossyPlane,
    span: Av2ChromaTx4x4Span,
    mode: Av2LossySubsampledModeDecision,
) -> Av2Chroma444IntraPredictorPlan {
    let leaf_x0 = leaf_x0_spec(lossy, plane, span);
    let leaf_y0 = leaf_y0_spec(lossy, plane, span);
    let visible_width = leaf_visible_width_spec(lossy, plane, span);
    let visible_height = leaf_visible_height_spec(lossy, plane, span);
    let have_left = leaf_x0 > lossy.plane_spec(plane).origin_x;
    let have_top = leaf_y0 > lossy.plane_spec(plane).origin_y;
    let m = mode.chroma_intra_mode;
    Av2Chroma444IntraPredictorPlan {
        leaf_x0: leaf_x0 as usize,
        leaf_y0: leaf_y0 as usize,
        visible_width: visible_width as usize,
        visible_height: visible_height as usize,
        have_left,
        have_top,
        dc_pred: if m == Av2ChromaIntraMode::Dc {
            leaf_dc_spec(lossy, plane, leaf_x0, leaf_y0, visible_width, visible_height, have_left, have_top) as u16
        } else {
            0
        },
        above_left: if m == Av2ChromaIntraMode::Paeth {
            leaf_above_left_spec(lossy, plane, leaf_x0, leaf_y0, have_left, have_top) as u16
        } else {
            0
        },
        mode: m,
        bit_depth: lossy.bit_depth_view(),
    }
}

/// Prediction plus residual of visible leaf sample `(local_x, local_y)`,
/// the residual read from rows `stride` apart.
pub open spec fn fill_sum(a: Av2LossyTx8x8Analysis, residual: Seq<i32>, stride: int, local_x: int, local_y: int) -> int {
    a.predictor[local_y * 8 + local_x] + residual[local_y * stride + local_x]
}

/// Residual rows `stride` apart that cover the visible part of a leaf
/// analysis, with sums that fit the arithmetic.
pub open spec fn fill_inputs_ok(a: Av2LossyTx8x8Analysis, residual: Seq<i32>, stride: int) -> bool {
    &&& a.visible_width <= 8
    &&& a.visible_height <= 8
    &&& (a.visible_width == 0 || a.visible_height == 0 || (a.visible_height - 1) * stride + a.visible_width
        <= residual.len())
    &&& forall|x: int, y: int|
        0 <= x < a.visible_width && 0 <= y < a.visible_height ==> #[trigger] fill_sum(a, residual, stride, x, y)
            <= i32::MAX
}

/// Row-major position `y * 8 + x` of an 8-wide block splits back into
/// `x` and `y`.
proof fn lemma_row8_index(x: int, y: int)
    requires
        0 <= x < 8,
        0 <= y < 8,
    ensures
        (y * 8 + x) % 8 == x,
        (y * 8 + x) / 8 == y,
        0 <= y * 8 + x < 64,
{
    assert((y * 8 + x) % 8 == x && (y * 8 + x) / 8 == y) by (nonlinear_arith)
        requires
            0 <= x < 8,
            0 <= y < 8,
    ;
}

impl<'a> Av2LossySubsampledTileState<'a> {
    /// Visible size of a chroma leaf of one 8x8 block at most: the span's
    /// extent, cut at the plane's edge.
    pub fn chroma_444_leaf_visible_size(
        &self,
        plane: Av2LossyPlane,
        leaf_x0: usize,
        leaf_y0: usize,
        chroma_span: Av2ChromaTx4x4Span,
    ) -> (r: (usize, usize))
        requires
            chroma_span.width * TX4X4_SIZE <= usize::MAX,
            chroma_span.height * TX4X4_SIZE <= usize::MAX,
        ensures
            r.0 == visible_extent(chroma_span.width as int, self.plane_spec(plane).width as int, leaf_x0 as int),
            r.1 == visible_extent(chroma_span.height as int, self.plane_spec(plane).height as int, leaf_y0 as int),
    {
        let width = min_usize(chroma_span.width * TX4X4_SIZE, TX8X8_SIZE);
        let height = min_usize(chroma_span.height * TX4X4_SIZE, TX8X8_SIZE);
        let (plane_width, plane_height) = self.plane_geometry(plane);
        (
            min_usize(width, plane_width.saturating_sub(leaf_x0)),
            min_usize(height, plane_height.saturating_sub(leaf_y0)),
        )
    }

    /// Top-left sample of the reference block of an inter chroma leaf: the
    /// leaf's origin displaced by the motion vector, scaled down by the
    /// plane's subsampling. The vector must land on whole chroma samples and
    /// the displaced block must lie inside the plane.
    pub fn chroma_444_inter_reference_origin(
        &self,
        reference: &[u8],
        plane: Av2LossyPlane,
        leaf_x0: usize,
        leaf_y0: usize,
        visible_width: usize,
        visible_height: usize,
        mv_row_px: i16,
        mv_col_px: i16,
    ) -> (r: (usize, usize))
        requires
            reference@.len() == self.source_view().len(),
            (mv_col_px as int) % (self.plane_spec(plane).sub_x as int) == 0,
            (mv_row_px as int) % (self.plane_spec(plane).sub_y as int) == 0,
            leaf_x0 <= isize::MAX,
            leaf_y0 <= isize::MAX,
            0 <= leaf_x0 + (mv_col_px as int) / (self.plane_spec(plane).sub_x as int),
            0 <= leaf_y0 + (mv_row_px as int) / (self.plane_spec(plane).sub_y as int),
            leaf_x0 + (mv_col_px as int) / (self.plane_spec(plane).sub_x as int) + visible_width <= self.plane_spec(plane).width,
            leaf_y0 + (mv_row_px as int) / (self.plane_spec(plane).sub_y as int) + visible_height <= self.plane_spec(plane).height,
        ensures
            r.0 == leaf_x0 + (mv_col_px as int) / (self.plane_spec(plane).sub_x as int),
            r.1 == leaf_y0 + (mv_row_px as int) / (self.plane_spec(plane).sub_y as int),
    {
        let (sub_x, sub_y) = self.plane_subsampling(plane);
        let dx: isize = scaled_displacement(mv_col_px, sub_x);
        let dy: isize = scaled_displacement(mv_row_px, sub_y);
        (offset_by(leaf_x0, dx), offset_by(leaf_y0, dy))
    }

    /// The intra predictor plan of a chroma leaf of one 8x8 block at most.
    pub fn chroma_444_intra_predictor_plan(
        &self,
        plane: Av2LossyPlane,
        chroma_span: Av2ChromaTx4x4Span,
        mode: Av2LossySubsampledModeDecision,
    ) -> (r: Av2Chroma444IntraPredictorPlan)
        requires
            leaf_span_ok(self, plane, chroma_span),
        ensures
            r == intra_plan_spec(self, plane, chroma_span, mode),
    {
        let ghost p = self.plane_spec(plane);
        let (leaf_x0, leaf_y0) = self.txb_origin(plane, chroma_span.col, chroma_span.row);
        let width = chroma_span.width * TX4X4_SIZE;
        let height = chroma_span.height * TX4X4_SIZE;
        let (plane_width, plane_height) = self.plane_geometry(plane);
        let visible_width = min_usize(min_usize(width, plane_width.saturating_sub(leaf_x0)), TX8X8_SIZE);
        let visible_height = min_usize(min_usize(height, plane_height.saturating_sub(leaf_y0)), TX8X8_SIZE);
        let (tile_origin_x, tile_origin_y) = self.plane_origin(plane);
        let have_left = leaf_x0 > tile_origin_x;
        let have_top = leaf_y0 > tile_origin_y;
        let mode = mode.chroma_intra_mode;
        let bit_depth = self.bit_depth();
        let dc_pred: Av2Sample = if mode == Av2ChromaIntraMode::Dc {
            if !have_left && !have_top {
                av2_lossless_dc_predictor(bit_depth)
            } else {
                let mut sum: u32 = 0;
                let mut count: u32 = 0;
                if have_top {
                    let mut x = leaf_x0;
                    while x < leaf_x0 + visible_width
                        invariant
                            leaf_x0 <= x <= leaf_x0 + visible_width,
                            leaf_x0 + visible_width <= p.width,
                            1 <= leaf_y0 <= p.height,
                            p == self.plane_spec(plane),
                            count == x - leaf_x0,
                            visible_width <= 8,
                            sum == recon_row_sum(self, plane, leaf_x0 as int, leaf_y0 - 1, count as nat),
                            sum <= count * 65535,
                        decreases leaf_x0 + visible_width - x,
                    {
                        let sample = self.recon_sample(plane, x, leaf_y0 - 1);
                        sum = sum + sample as u32;
                        count = count + 1;
                        x = x + 1;
                    }
                }
                let ghost top_sum = sum;
                let ghost top_count = count;
                if have_left {
                    let mut y = leaf_y0;
                    while y < leaf_y0 + visible_height
                        invariant
                            leaf_y0 <= y <= leaf_y0 + visible_height,
                            leaf_y0 + visible_height <= p.height,
                            1 <= leaf_x0 <= p.width,
                            p == self.plane_spec(plane),
                            top_count <= 8,
                            visible_height <= 8,
                            count == top_count + (y - leaf_y0),
                            sum == top_sum + recon_column_sum(self, plane, leaf_x0 - 1, leaf_y0 as int, (y - leaf_y0) as nat),
                            sum <= count * 65535,
                        decreases leaf_y0 + visible_height - y,
                    {
                        let sample = self.recon_sample(plane, leaf_x0 - 1, y);
                        sum = sum + sample as u32;
                        count = count + 1;
                        y = y + 1;
                    }
                }
                if count == 0 {
                    av2_lossless_dc_predictor(bit_depth)
                } else {
                    av2_reference_dc_average(sum, count)
                }
            }
        } else {
            0
        };
        let above_left: Av2Sample = if mode == Av2ChromaIntraMode::Paeth {
            if have_left && have_top {
                self.recon_sample(plane, leaf_x0 - 1, leaf_y0 - 1)
            } else if have_top {
                self.recon_sample(plane, leaf_x0, leaf_y0 - 1)
            } else if have_left {
                self.recon_sample(plane, leaf_x0 - 1, leaf_y0)
            } else {
                av2_lossless_dc_predictor(bit_depth)
            }
        } else {
            0
        };
        Av2Chroma444IntraPredictorPlan {
            leaf_x0,
            leaf_y0,
            visible_width,
            visible_height,
            have_left,
            have_top,
            dc_pred,
            above_left,
            mode,
            bit_depth,
        }
    }

    /// Intra analysis of a chroma leaf of one 8x8 block at most: its plan's
    /// prediction and the residual against the source.
    pub fn chroma_444_intra_tx8x8_analysis(
        &self,
        plane: Av2LossyPlane,
        chroma_span: Av2ChromaTx4x4Span,
        mode: Av2LossySubsampledModeDecision,
    ) -> (r: Av2LossyTx8x8Analysis)
        requires
            leaf_span_ok(self, plane, chroma_span),
        ensures
            is_tx8x8_analysis(
                self,
                plane,
                r,
                intra_plan_spec(self, plane, chroma_span, mode).leaf_x0,
                intra_plan_spec(self, plane, chroma_span, mode).leaf_y0,
                intra_plan_spec(self, plane, chroma_span, mode).visible_width,
                intra_plan_spec(self, plane, chroma_span, mode).visible_height,
                Av2Chroma444Prediction::Intra(intra_plan_spec(self, plane, chroma_span, mode)),
            ),
    {
        let plan = self.chroma_444_intra_predictor_plan(plane, chroma_span, mode);
        let prediction = Av2Chroma444Prediction::Intra(plan);
        assert forall|x: int, y: int|
            0 <= x < plan.visible_width && x < 8 && 0 <= y < plan.visible_height && y < 8 implies #[trigger] prediction_readable(
                self,
                plane,
                prediction,
                x,
                y,
            ) && self.in_plane(plane, plan.leaf_x0 + x, plan.leaf_y0 + y) by {}
        self.chroma_444_tx8x8_analysis(
            plane,
            plan.leaf_x0,
            plan.leaf_y0,
            plan.visible_width,
            plan.visible_height,
            prediction,
        )
    }

    /// Inter analysis of a chroma leaf of one 8x8 block at most: the
    /// reference samples displaced by the motion vector, and the residual
    /// against the source.
    pub fn chroma_444_inter_tx8x8_analysis(
        &self,
        reference: &[u8],
        plane: Av2LossyPlane,
        chroma_span: Av2ChromaTx4x4Span,
        mv_row_px: i16,
        mv_col_px: i16,
    ) -> (r: Av2LossyTx8x8Analysis)
        requires
            leaf_span_ok(self, plane, chroma_span),
            reference@.len() == self.source_view().len(),
            (mv_col_px as int) % (self.plane_spec(plane).sub_x as int) == 0,
            (mv_row_px as int) % (self.plane_spec(plane).sub_y as int) == 0,
            leaf_x0_spec(self, plane, chroma_span) <= isize::MAX,
            leaf_y0_spec(self, plane, chroma_span) <= isize::MAX,
            0 <= leaf_x0_spec(self, plane, chroma_span) + (mv_col_px as int) / (self.plane_spec(plane).sub_x as int),
            0 <= leaf_y0_spec(self, plane, chroma_span) + (mv_row_px as int) / (self.plane_spec(plane).sub_y as int),
            leaf_x0_spec(self, plane, chroma_span) + (mv_col_px as int) / (self.plane_spec(plane).sub_x as int)
                + leaf_visible_width_spec(self, plane, chroma_span) <= self.plane_spec(plane).width,
            leaf_y0_spec(self, plane, chroma_span) + (mv_row_px as int) / (self.plane_spec(plane).sub_y as int)
                + leaf_visible_height_spec(self, plane, chroma_span) <= self.plane_spec(plane).height,
        ensures
            is_tx8x8_analysis(
                self,
                plane,
                r,
                leaf_x0_spec(self, plane, chroma_span) as usize,
                leaf_y0_spec(self, plane, chroma_span) as usize,
                leaf_visible_width_spec(self, plane, chroma_span) as usize,
                leaf_visible_height_spec(self, plane, chroma_span) as usize,
                Av2Chroma444Prediction::Inter {
                    reference,
                    ref_x0: (leaf_x0_spec(self, plane, chroma_span) + (mv_col_px as int) / (self.plane_spec(
                        plane,
                    ).sub_x as int)) as usize,
                    ref_y0: (leaf_y0_spec(self, plane, chroma_span) + (mv_row_px as int) / (self.plane_spec(
                        plane,
                    ).sub_y as int)) as usize,
                },
            ),
    {
        let (leaf_x0, leaf_y0) = self.txb_origin(plane, chroma_span.col, chroma_span.row);
        let (visible_width, visible_height) = self.chroma_444_leaf_visible_size(plane, leaf_x0, leaf_y0, chroma_span);
        let (ref_x0, ref_y0) = self.chroma_444_inter_reference_origin(
            reference,
            plane,
            leaf_x0,
            leaf_y0,
            visible_width,
            visible_height,
            mv_row_px,
            mv_col_px,
        );
        let prediction = Av2Chroma444Prediction::Inter { reference, ref_x0, ref_y0 };
        assert forall|x: int, y: int|
            0 <= x < visible_width && x < 8 && 0 <= y < visible_height && y < 8 implies #[trigger] prediction_readable(
                self,
                plane,
                prediction,
                x,
                y,
            ) && self.in_plane(plane, leaf_x0 + x, leaf_y0 + y) by {}
        self.chroma_444_tx8x8_analysis(plane, leaf_x0, leaf_y0, visible_width, visible_height, prediction)
    }

    /// Reconstructs the visible part of a chroma leaf: each sample is its
    /// prediction plus its residual (rows `residual_stride` apart), clamped
    /// to the sample range. No byte outside the visible rectangle changes.
    pub fn fill_chroma_leaf_with(
        &mut self,
        plane: Av2LossyPlane,
        analysis: &Av2LossyTx8x8Analysis,
        residual: &[i32],
        residual_stride: usize,
    )
        requires
            fill_inputs_ok(*analysis, residual@, residual_stride as int),
            analysis.leaf_y0 + analysis.visible_height <= usize::MAX,
            analysis.visible_width == 0 || analysis.visible_height == 0 || (analysis.leaf_x0 + analysis.visible_width
                <= old(self).plane_spec(plane).width && analysis.leaf_y0 + analysis.visible_height <= old(
                self,
            ).plane_spec(plane).height),
        ensures
            final(self).layout_view() == old(self).layout_view(),
            final(self).bit_depth_view() == old(self).bit_depth_view(),
            final(self).chroma_format_view() == old(self).chroma_format_view(),
            final(self).base_qindex_view() == old(self).base_qindex_view(),
            final(self).source_view() == old(self).source_view(),
            final(self).recon_view().len() == old(self).recon_view().len(),
            forall|x: int, y: int|
                analysis.leaf_x0 <= x < analysis.leaf_x0 + analysis.visible_width && analysis.leaf_y0 <= y
                    < analysis.leaf_y0 + analysis.visible_height ==> #[trigger] final(self).recon_sample_spec(plane, x, y)
                    == clamp_int(
                    fill_sum(*analysis, residual@, residual_stride as int, x - analysis.leaf_x0, y - analysis.leaf_y0),
                    0,
                    max_sample_spec(old(self).bit_depth_view()@),
                ),
            forall|b: int|
                0 <= b < old(self).recon_view().len() && !byte_in_rect(
                    old(self).plane_spec(plane),
                    bytes_per_sample_spec(old(self).bit_depth_view()@),
                    analysis.leaf_x0 as int,
                    analysis.leaf_x0 + analysis.visible_width,
                    analysis.leaf_y0 as int,
                    analysis.leaf_y0 + analysis.visible_height,
                    b,
                ) ==> #[trigger] final(self).recon_view()[b] == old(self).recon_view()[b],
    {
        let bit_depth = self.bit_depth();
        let max_sample = bit_depth.max_sample() as i32;
        let ghost p = self.plane_spec(plane);
        let ghost bps = bytes_per_sample_spec(bit_depth@);
        let ghost max = max_sample_spec(bit_depth@);
        let ghost x0 = analysis.leaf_x0 as int;
        let ghost y0 = analysis.leaf_y0 as int;
        let ghost x_end = analysis.leaf_x0 + analysis.visible_width;
        let ghost y_end = analysis.leaf_y0 + analysis.visible_height;
        let ghost stride = residual_stride as int;
        proof {
            if bps == 1 {
                vstd::arithmetic::power2::lemma2_to64();
                assert(max == 255);
            }
        }
        let mut local_y: usize = 0;
        while local_y < analysis.visible_height
            invariant
                0 <= local_y <= analysis.visible_height,
                analysis.leaf_y0 + analysis.visible_height <= usize::MAX,
                x0 == analysis.leaf_x0,
                y0 == analysis.leaf_y0,
                x_end == analysis.leaf_x0 + analysis.visible_width,
                y_end == analysis.leaf_y0 + analysis.visible_height,
                fill_inputs_ok(*analysis, residual@, stride),
                analysis.visible_width == 0 || analysis.visible_height == 0 || (x_end <= p.width && y_end <= p.height),
                max_sample == max,
                max == max_sample_spec(old(self).bit_depth_view()@),
                bps == bytes_per_sample_spec(old(self).bit_depth_view()@),
                bps == 1 ==> max <= 255,
                0 <= max_sample <= 65535,
                stride == residual_stride,
                bps == 1 || bps == 2,
                p == old(self).plane_spec(plane),
                self.layout_view() == old(self).layout_view(),
                self.bit_depth_view() == old(self).bit_depth_view(),
                self.chroma_format_view() == old(self).chroma_format_view(),
                self.base_qindex_view() == old(self).base_qindex_view(),
                self.source_view() == old(self).source_view(),
                self.recon_view().len() == old(self).recon_view().len(),
                forall|x: int, y: int|
                    x0 <= x < x_end && y0 <= y < y0 + local_y ==> #[trigger] self.recon_sample_spec(plane, x, y)
                        == clamp_int(fill_sum(*analysis, residual@, stride, x - x0, y - y0), 0, max),
                forall|b: int|
                    0 <= b < old(self).recon_view().len() && !byte_in_rect(p, bps, x0, x_end, y0, y_end, b)
                        ==> #[trigger] self.recon_view()[b] == old(self).recon_view()[b],
            decreases analysis.visible_height - local_y,
        {
            let y = analysis.leaf_y0 + local_y;
            let mut local_x: usize = 0;
            while local_x < analysis.visible_width
                invariant
                    0 <= local_x <= analysis.visible_width,
                    x0 == analysis.leaf_x0,
                    y0 == analysis.leaf_y0,
                    x_end == analysis.leaf_x0 + analysis.visible_width,
                    y_end == analysis.leaf_y0 + analysis.visible_height,
                    local_y < analysis.visible_height,
                    y == y0 + local_y,
                    fill_inputs_ok(*analysis, residual@, stride),
                    analysis.visible_width == 0 || (x_end <= p.width && y_end <= p.height),
                    max_sample == max,
                    max == max_sample_spec(old(self).bit_depth_view()@),
                    bps == bytes_per_sample_spec(old(self).bit_depth_view()@),
                    bps == 1 ==> max <= 255,
                    0 <= max_sample <= 65535,
                    stride == residual_stride,
                    bps == 1 || bps == 2,
                    p == old(self).plane_spec(plane),
                    self.layout_view() == old(self).layout_view(),
                    self.bit_depth_view() == old(self).bit_depth_view(),
                    self.chroma_format_view() == old(self).chroma_format_view(),
                    self.base_qindex_view() == old(self).base_qindex_view(),
                    self.source_view() == old(self).source_view(),
                    self.recon_view().len() == old(self).recon_view().len(),
                    forall|x: int, yy: int|
                        x0 <= x < x_end && y0 <= yy < y0 + local_y ==> #[trigger] self.recon_sample_spec(plane, x, yy)
                            == clamp_int(fill_sum(*analysis, residual@, stride, x - x0, yy - y0), 0, max),
                    forall|x: int|
                        x0 <= x < x0 + local_x ==> #[trigger] self.recon_sample_spec(plane, x, y as int) == clamp_int(
                            fill_sum(*analysis, residual@, stride, x - x0, y - y0),
                            0,
                            max,
                        ),
                    forall|b: int|
                        0 <= b < old(self).recon_view().len() && !byte_in_rect(p, bps, x0, x_end, y0, y_end, b)
                            ==> #[trigger] self.recon_view()[b] == old(self).recon_view()[b],
                decreases analysis.visible_width - local_x,
            {
                let x = analysis.leaf_x0 + local_x;
                proof {
                    lemma_row8_index(local_x as int, local_y as int);
                    assert(local_y * stride + local_x < residual@.len()) by (nonlinear_arith)
                        requires
                            local_x < analysis.visible_width,
                            local_y < analysis.visible_height,
                            (analysis.visible_height - 1) * stride + analysis.visible_width <= residual@.len(),
                            0 <= stride,
                    ;
                    assert(fill_sum(*analysis, residual@, stride, local_x as int, local_y as int) <= i32::MAX);
                    assert(local_y * residual_stride <= local_y * residual_stride + local_x);
                    assert(local_y * residual_stride + local_x < residual@.len());
                }
                let residual_len = residual.len();
                let analysis_index = local_y * TX8X8_SIZE + local_x;
                let residual_index = local_y * residual_stride + local_x;
                let predictor = analysis.predictor[analysis_index] as i32;
                let value = clamp_i32(predictor + residual[residual_index], 0, max_sample);
                let ghost before = *self;
                proof {
                    lemma_sample_in_rect_bytes(p, bps, x0, x_end, y0, y_end, x as int, y as int);
                }
                self.set_recon_sample(plane, x, y, value as Av2Sample);
                proof {
                    assert forall|xx: int, yy: int|
                        x0 <= xx < x_end && y0 <= yy < y0 + local_y implies #[trigger] self.recon_sample_spec(plane, xx, yy)
                        == clamp_int(fill_sum(*analysis, residual@, stride, xx - x0, yy - y0), 0, max) by {
                        lemma_distinct_plane_index(p, xx, yy, x as int, y as int);
                        assert(before.recon_sample_spec(plane, xx, yy) == clamp_int(
                            fill_sum(*analysis, residual@, stride, xx - x0, yy - y0),
                            0,
                            max,
                        ));
                    }
                    assert forall|xx: int| x0 <= xx < x0 + local_x + 1 implies #[trigger] self.recon_sample_spec(
                        plane,
                        xx,
                        y as int,
                    ) == clamp_int(fill_sum(*analysis, residual@, stride, xx - x0, y - y0), 0, max) by {
                        if xx < x0 + local_x {
                            lemma_distinct_plane_index(p, xx, y as int, x as int, y as int);
                            assert(before.recon_sample_spec(plane, xx, y as int) == clamp_int(
                                fill_sum(*analysis, residual@, stride, xx - x0, y - y0),
                                0,
                                max,
                            ));
                        }
                    }
                    assert forall|b: int|
                        0 <= b < old(self).recon_view().len() && !byte_in_rect(p, bps, x0, x_end, y0, y_end, b) implies #[trigger] self.recon_view()[b]
                        == old(self).recon_view()[b] by {
                        assert(before.recon_view()[b] == old(self).recon_view()[b]);
                    }
                }
                local_x = local_x + 1;
            }
            local_y = local_y + 1;
        }
    }

    /// Reconstructs the visible part of a chroma leaf coded with one 8x8
    /// transform.
    pub fn fill_chroma_444_tx8x8_leaf(&mut self, plane: Av2LossyPlane, analysis: &Av2LossyTx8x8Analysis, residual: &[i32; TX8X8_SAMPLES])
        requires
            fill_inputs_ok(*analysis, residual@, TX8X8_SIZE as int),
            analysis.leaf_y0 + analysis.visible_height <= usize::MAX,
            analysis.visible_width == 0 || analysis.visible_height == 0 || (analysis.leaf_x0 + analysis.visible_width
                <= old(self).plane_spec(plane).width && analysis.leaf_y0 + analysis.visible_height <= old(
                self,
            ).plane_spec(plane).height),
        ensures
            final(self).layout_view() == old(self).layout_view(),
            final(self).bit_depth_view() == old(self).bit_depth_view(),
            final(self).chroma_format_view() == old(self).chroma_format_view(),
            final(self).base_qindex_view() == old(self).base_qindex_view(),
            final(self).source_view() == old(self).source_view(),
            final(self).recon_view().len() == old(self).recon_view().len(),
            forall|x: int, y: int|
                analysis.leaf_x0 <= x < analysis.leaf_x0 + analysis.visible_width && analysis.leaf_y0 <= y
                    < analysis.leaf_y0 + analysis.visible_height ==> #[trigger] final(self).recon_sample_spec(plane, x, y)
                    == clamp_int(
                    fill_sum(*analysis, residual@, TX8X8_SIZE as int, x - analysis.leaf_x0, y - analysis.leaf_y0),
                    0,
                    max_sample_spec(old(self).bit_depth_view()@),
                ),
            forall|b: int|
                0 <= b < old(self).recon_view().len() && !byte_in_rect(
                    old(self).plane_spec(plane),
                    bytes_per_sample_spec(old(self).bit_depth_view()@),
                    analysis.leaf_x0 as int,
                    analysis.leaf_x0 + analysis.visible_width,
                    analysis.leaf_y0 as int,
                    analysis.leaf_y0 + analysis.visible_height,
                    b,
                ) ==> #[trigger] final(self).recon_view()[b] == old(self).recon_view()[b],
    {
        self.fill_chroma_leaf_with(plane, analysis, residual, TX8X8_SIZE);
    }

    /// Reconstructs the visible part of a 4:2:2 chroma leaf coded with one
    /// 4x8 transform (four wide, eight tall).
    pub fn fill_chroma_422_tx4x8_leaf(&mut self, plane: Av2LossyPlane, analysis: &Av2LossyTx8x8Analysis, residual: &[i32; TX4X8_SAMPLES])
        requires
            analysis.visible_width <= TX4X8_WIDTH,
            analysis.visible_height <= TX4X8_HEIGHT,
            fill_inputs_ok(*analysis, residual@, TX4X8_WIDTH as int),
            analysis.leaf_y0 + analysis.visible_height <= usize::MAX,
            analysis.visible_width == 0 || analysis.visible_height == 0 || (analysis.leaf_x0 + analysis.visible_width
                <= old(self).plane_spec(plane).width && analysis.leaf_y0 + analysis.visible_height <= old(
                self,
            ).plane_spec(plane).height),
        ensures
            final(self).layout_view() == old(self).layout_view(),
            final(self).bit_depth_view() == old(self).bit_depth_view(),
            final(self).chroma_format_view() == old(self).chroma_format_view(),
            final(self).base_qindex_view() == old(self).base_qindex_view(),
            final(self).source_view() == old(self).source_view(),
            final(self).recon_view().len() == old(self).recon_view().len(),
            forall|x: int, y: int|
                analysis.leaf_x0 <= x < analysis.leaf_x0 + analysis.visible_width && analysis.leaf_y0 <= y
                    < analysis.leaf_y0 + analysis.visible_height ==> #[trigger] final(self).recon_sample_spec(plane, x, y)
                    == clamp_int(
                    fill_sum(*analysis, residual@, TX4X8_WIDTH as int, x - analysis.leaf_x0, y - analysis.leaf_y0),
                    0,
                    max_sample_spec(old(self).bit_depth_view()@),
                ),
            forall|b: int|
                0 <= b < old(self).recon_view().len() && !byte_in_rect(
                    old(self).plane_spec(plane),
                    bytes_per_sample_spec(old(self).bit_depth_view()@),
                    analysis.leaf_x0 as int,
                    analysis.leaf_x0 + analysis.visible_width,
                    analysis.leaf_y0 as int,
                    analysis.leaf_y0 + analysis.visible_height,
                    b,
                ) ==> #[trigger] final(self).recon_view()[b] == old(self).recon_view()[b],
    {
        self.fill_chroma_leaf_with(plane, analysis, residual, TX4X8_WIDTH);
    }

    /// Analysis of a chroma leaf of one 8x8 block at most: for each visible
    /// sample, its prediction and the source-minus-prediction residual.
    pub fn chroma_444_tx8x8_analysis(
        &self,
        plane: Av2LossyPlane,
        leaf_x0: usize,
        leaf_y0: usize,
        visible_width: usize,
        visible_height: usize,
        prediction: Av2Chroma444Prediction,
    ) -> (r: Av2LossyTx8x8Analysis)
        requires
            plane != Av2LossyPlane::Y,
            forall|x: int, y: int|
                0 <= x < visible_width && x < 8 && 0 <= y < visible_height && y < 8 ==> #[trigger] prediction_readable(
                    self,
                    plane,
                    prediction,
                    x,
                    y,
                ) && self.in_plane(plane, leaf_x0 + x, leaf_y0 + y),
        ensures
            is_tx8x8_analysis(self, plane, r, leaf_x0, leaf_y0, visible_width, visible_height, prediction),
    {
        let mut predictor_block: [Av2Sample; 64] = [0; 64];
        let mut residual: [i32; 64] = [0; 64];
        let mut local_y: usize = 0;
        while local_y < TX8X8_SIZE
            invariant
                local_y <= 8,
                forall|x: int, y: int|
                    0 <= x < visible_width && x < 8 && 0 <= y < visible_height && y < 8 ==> #[trigger] prediction_readable(
                        self,
                        plane,
                        prediction,
                        x,
                        y,
                    ) && self.in_plane(plane, leaf_x0 + x, leaf_y0 + y),
                forall|i: int|
                    0 <= i < 64 ==> #[trigger] predictor_block[i] == (if i / 8 < local_y && i % 8 < visible_width && i / 8
                        < visible_height {
                        prediction_sample_spec(self, plane, prediction, i % 8, i / 8)
                    } else {
                        0
                    }),
                forall|i: int|
                    0 <= i < 64 ==> #[trigger] residual[i] == (if i / 8 < local_y && i % 8 < visible_width && i / 8
                        < visible_height {
                        self.source_sample_spec(plane, leaf_x0 + i % 8, leaf_y0 + i / 8) - prediction_sample_spec(
                            self,
                            plane,
                            prediction,
                            i % 8,
                            i / 8,
                        )
                    } else {
                        0
                    }),
            decreases 8 - local_y,
        {
            let mut local_x: usize = 0;
            while local_x < TX8X8_SIZE
                invariant
                    local_y < 8,
                    local_x <= 8,
                    forall|x: int, y: int|
                        0 <= x < visible_width && x < 8 && 0 <= y < visible_height && y < 8 ==> #[trigger] prediction_readable(
                            self,
                            plane,
                            prediction,
                            x,
                            y,
                        ) && self.in_plane(plane, leaf_x0 + x, leaf_y0 + y),
                    forall|i: int|
                        0 <= i < 64 ==> #[trigger] predictor_block[i] == (if (i / 8 < local_y || (i / 8 == local_y && i % 8
                            < local_x)) && i % 8 < visible_width && i / 8 < visible_height {
                            prediction_sample_spec(self, plane, prediction, i % 8, i / 8)
                        } else {
                            0
                        }),
                    forall|i: int|
                        0 <= i < 64 ==> #[trigger] residual[i] == (if (i / 8 < local_y || (i / 8 == local_y && i % 8
                            < local_x)) && i % 8 < visible_width && i / 8 < visible_height {
                            self.source_sample_spec(plane, leaf_x0 + i % 8, leaf_y0 + i / 8) - prediction_sample_spec(
                                self,
                                plane,
                                prediction,
                                i % 8,
                                i / 8,
                            )
                        } else {
                            0
                        }),
                decreases 8 - local_x,
            {
                proof {
                    lemma_row8_index(local_x as int, local_y as int);
                }
                let index = local_y * TX8X8_SIZE + local_x;
                if local_x < visible_width && local_y < visible_height {
                    assert(local_x < visible_width && local_x < 8 && local_y < visible_height && local_y < 8);
                    assert(prediction_readable(self, plane, prediction, local_x as int, local_y as int));
                    assert(self.in_plane(plane, leaf_x0 + local_x, leaf_y0 + local_y));
                    let pred = prediction.sample(self, plane, local_x, local_y);
                    let source = self.source_sample(plane, leaf_x0 + local_x, leaf_y0 + local_y);
                    predictor_block[index] = pred;
                    residual[index] = source as i32 - pred as i32;
                }
                local_x = local_x + 1;
            }
            local_y = local_y + 1;
        }
        Av2LossyTx8x8Analysis {
            leaf_x0,
            leaf_y0,
            visible_width,
            visible_height,
            predictor: predictor_block,
            residual,
        }
    }
}

/// `base` moved by `delta`.
fn offset_by(base: usize, delta: isize) -> (r: usize)
    requires
        -32768 <= delta <= 32767,
        0 <= base + delta <= usize::MAX,
    ensures
        r == base + delta,
{
    if delta >= 0 {
        base + delta as usize
    } else {
        base - (0 - delta) as usize
    }
}

/// The smaller of two sizes.
fn min_usize(a: usize, b: usize) -> (r: usize)
    ensures
        r == min_int(a as int, b as int),
{
    if a <= b {
        a
    } else {
        b
    }
}

/// A motion-vector component scaled down by a subsampling factor of 1 or 2
/// that divides it.
fn scaled_displacement(mv: i16, sub: usize) -> (r: isize)
    requires
        sub == 1 || sub == 2,
        (mv as int) % (sub as int) == 0,
    ensures
        r == (mv as int) / (sub as int),
        -32768 <= r <= 32767,
{
    if sub == 1 {
        mv as isize
    } else if mv >= 0 {
        ((mv as u16) / 2) as isize
    } else {
        let magnitude: u16 = (0 - (mv as i32)) as u16;
        let half: u16 = magnitude / 2;
        0 - (half as isize)
    }
}

} // verus!
