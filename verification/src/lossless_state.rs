use vstd::prelude::*;
use crate::coefficient_contexts::min_int;
use crate::geometry::TX4X4_SIZE;
use crate::geometry::TX4X4_SAMPLES;
use crate::planar_layout::Av2CodedMiContext;
use crate::planar_layout::Av2PlanarPlane;
use crate::planar_layout::Av2PlanarTileLayout;
use crate::planar_layout::Av2PlaneLayout;
use crate::planar_layout::Av2TileRegion;
use crate::planar_layout::Av2VideoGeometry;
use crate::planar_layout::layout_spec;
use crate::planar_layout::valid_shape_spec;
use crate::prediction_edges::Av2EdgeSampler;
use crate::prediction_edges::Av2IntraEdgeContext;
use crate::prediction_edges::above_left_from_edges_spec;
use crate::prediction_edges::av2_above_left_predictor_from_edges;
use crate::prediction_edges::av2_dc_predictor_from_edges;
use crate::prediction_edges::av2_directional_above_edge;
use crate::prediction_edges::av2_directional_left_edge;
use crate::prediction_edges::av2_h_predictor_from_edges;
use crate::prediction_edges::av2_smooth_intra_edges;
use crate::prediction_edges::av2_v_predictor_from_edges;
use crate::prediction_edges::dc_from_edges_spec;
use crate::prediction_edges::directional_above_spec;
use crate::prediction_edges::directional_left_spec;
use crate::prediction_edges::h_from_edges_spec;
use crate::prediction_edges::smooth_above_spec;
use crate::prediction_edges::smooth_left_spec;
use crate::prediction_edges::v_from_edges_spec;
use crate::sample::Av2ChromaFormat;
use crate::sample::Av2Sample;
use crate::sample::SampleBitDepth;
use crate::sample::bytes_per_sample_spec;
use crate::modes::Av2ChromaIntraMode;
use crate::block_size::Av2MvpBlockSize;
use crate::chroma444_leaf::Av2ChromaTx4x4Span;
use crate::modes::Av2LumaIntraMode;
use crate::modes::chroma_mode_for_luma_mode;
use crate::modes::chroma_mode_for_luma_mode_spec;
use crate::high_range::Av2CoefficientCodingKind;
use crate::mode_scores::Av2DcHvBdpcmTxbScores;
use crate::mode_scores::magnitude_scale_spec;
use crate::mode_scores::residual_cost_sum;
use crate::mode_scores::residual_sample_proxy_magnitude_scale;
use crate::mode_scores::txb_residual_proxy_score;
use crate::mode_scores::min_usize;
use crate::walsh_hadamard::av2_fwht4x4;
use crate::walsh_hadamard::fwht4x4_spec;

verus! {

/// The planes of a lossless planar tile.
#[derive(Clone, Copy, Debug, PartialEq, Eq, Structural)]
pub enum Av2LosslessPlane {
    Y,
    U,
    V,
}

/// The planar plane a lossless plane is stored as.
pub open spec fn planar_spec(plane: Av2LosslessPlane) -> Av2PlanarPlane {
    match plane {
        Av2LosslessPlane::Y => Av2PlanarPlane::Y,
        Av2LosslessPlane::U => Av2PlanarPlane::U,
        Av2LosslessPlane::V => Av2PlanarPlane::V,
    }
}

impl Av2LosslessPlane {
    /// The planar plane this plane is stored as.
    pub fn planar(self) -> (r: Av2PlanarPlane)
        ensures
            r == planar_spec(self),
    {
        match self {
            Av2LosslessPlane::Y => Av2PlanarPlane::Y,
            Av2LosslessPlane::U => Av2PlanarPlane::U,
            Av2LosslessPlane::V => Av2PlanarPlane::V,
        }
    }
}

/// How thoroughly lossless modes are searched.
#[derive(Clone, Copy, Debug, PartialEq, Eq, Structural)]
pub enum Av2LosslessSubsampledModeSearch {
    Exhaustive,
    FastScreenContent,
}

/// Which samples intra prediction reads at a block's edges.
#[derive(Clone, Copy, Debug, PartialEq, Eq, Structural)]
pub enum Av2EdgeSource {
    /// The reconstruction.
    Recon,
    /// The source picture (lossless reconstruction equals it).
    Source,
    /// The source inside the leaf being scored (at or right of and below its
    /// origin), the reconstruction elsewhere.
    ScoreNeighbor { leaf_x0: usize, leaf_y0: usize },
}

/// Value of the sample with index `index` in a buffer of one- or two-byte
/// little-endian samples.
pub open spec fn read_sample_spec(bytes: Seq<u8>, index: int, bytes_per_sample: int) -> int {
    if bytes_per_sample == 1 {
        bytes[index] as int
    } else {
        bytes[2 * index] as int + 256 * bytes[2 * index + 1] as int
    }
}

/// Reads the sample with index `index` of a planar buffer.
pub fn read_planar_sample(bytes: &[u8], index: usize, bit_depth: SampleBitDepth) -> (r: Av2Sample)
    requires
        (index + 1) * bytes_per_sample_spec(bit_depth@) <= bytes@.len(),
    ensures
        r as int == read_sample_spec(bytes@, index as int, bytes_per_sample_spec(bit_depth@)),
{
    let n = bytes.len();
    if bit_depth.bits() <= 8 {
        bytes[index] as u16
    } else {
        let lo = bytes[2 * index] as u16;
        let hi = bytes[2 * index + 1] as u16;
        hi * 256 + lo
    }
}

/// The lossless coding state of a planar tile: the source picture, the
/// reconstruction being built, and where each plane lies in them.
pub struct Av2LosslessSubsampledTileState<'a> {
    chroma_format: Av2ChromaFormat,
    bit_depth: SampleBitDepth,
    mode_search: Av2LosslessSubsampledModeSearch,
    source: &'a [u8],
    recon: Vec<u8>,
    layout: Av2PlanarTileLayout,
    source_backed_recon: bool,
}

impl<'a> Av2LosslessSubsampledTileState<'a> {
    #[verifier::type_invariant]
    spec fn inv(self) -> bool {
        &&& self.layout.wf()
        &&& self.layout.bytes_per_sample == bytes_per_sample_spec(self.bit_depth@)
        &&& self.source@.len() == self.layout.frame_len_spec()
        &&& self.source_backed_recon == (self.mode_search == Av2LosslessSubsampledModeSearch::FastScreenContent)
        &&& (self.recon@.len() == self.source@.len() || (self.source_backed_recon && self.recon@.len() == 0))
    }

    pub closed spec fn layout_view(&self) -> Av2PlanarTileLayout {
        self.layout
    }

    pub closed spec fn bit_depth_view(&self) -> SampleBitDepth {
        self.bit_depth
    }

    pub closed spec fn chroma_format_view(&self) -> Av2ChromaFormat {
        self.chroma_format
    }

    pub closed spec fn mode_search_view(&self) -> Av2LosslessSubsampledModeSearch {
        self.mode_search
    }

    pub closed spec fn source_view(&self) -> Seq<u8> {
        self.source@
    }

    pub closed spec fn recon_view(&self) -> Seq<u8> {
        self.recon@
    }

    /// Whether the reconstruction is read from the source (fast search).
    pub closed spec fn source_backed(&self) -> bool {
        self.source_backed_recon
    }

    /// The reconstruction bytes handed back.
    pub fn into_recon(self) -> (r: Vec<u8>)
        ensures
            r@ == self.recon_view(),
    {
        self.recon
    }

    /// Placement of a plane.
    pub open spec fn plane_spec(&self, plane: Av2LosslessPlane) -> Av2PlaneLayout {
        self.layout_view().plane_spec(planar_spec(plane))
    }

    /// Whether `(x, y)` is a sample of the plane.
    pub open spec fn in_plane(&self, plane: Av2LosslessPlane, x: int, y: int) -> bool {
        0 <= x < self.plane_spec(plane).width && 0 <= y < self.plane_spec(plane).height
    }

    /// Whether the 4x4 block at `(x0, y0)` lies in the plane.
    pub open spec fn block_in_plane(&self, plane: Av2LosslessPlane, x0: int, y0: int) -> bool {
        0 <= x0 && 0 <= y0 && x0 + TX4X4_SIZE <= self.plane_spec(plane).width && y0 + TX4X4_SIZE
            <= self.plane_spec(plane).height
    }

    /// Source sample at `(x, y)`.
    pub open spec fn source_sample_spec(&self, plane: Av2LosslessPlane, x: int, y: int) -> int {
        read_sample_spec(
            self.source_view(),
            self.plane_spec(plane).index_spec(x, y),
            bytes_per_sample_spec(self.bit_depth_view()@),
        )
    }

    /// Reconstructed sample at `(x, y)`.
    pub open spec fn recon_sample_spec(&self, plane: Av2LosslessPlane, x: int, y: int) -> int {
        if self.source_backed() {
            self.source_sample_spec(plane, x, y)
        } else {
            read_sample_spec(
                self.recon_view(),
                self.plane_spec(plane).index_spec(x, y),
                bytes_per_sample_spec(self.bit_depth_view()@),
            )
        }
    }

    /// Edge sample at `(x, y)` from the given edge source.
    pub open spec fn edge_sample_spec(&self, edge: Av2EdgeSource, plane: Av2LosslessPlane, x: int, y: int) -> int {
        match edge {
            Av2EdgeSource::Recon => self.recon_sample_spec(plane, x, y),
            Av2EdgeSource::Source => self.source_sample_spec(plane, x, y),
            Av2EdgeSource::ScoreNeighbor { leaf_x0, leaf_y0 } => if x >= leaf_x0 && y >= leaf_y0 {
                self.source_sample_spec(plane, x, y)
            } else {
                self.recon_sample_spec(plane, x, y)
            },
        }
    }

    /// Sets up the state of a tile of a frame with the given shape; the
    /// reconstruction may be empty under the fast search, which reads the
    /// source in its place.
    pub fn new(
        geometry: Av2VideoGeometry,
        region: Av2TileRegion,
        chroma_format: Av2ChromaFormat,
        bit_depth: SampleBitDepth,
        mode_search: Av2LosslessSubsampledModeSearch,
        source: &'a [u8],
        recon: Vec<u8>,
    ) -> (r: Self)
        requires
            valid_shape_spec(geometry, region, chroma_format, bit_depth),
            source@.len() == layout_spec(geometry, region, chroma_format, bit_depth).frame_len_spec(),
            mode_search == Av2LosslessSubsampledModeSearch::Exhaustive ==> recon@.len() == source@.len(),
            mode_search == Av2LosslessSubsampledModeSearch::FastScreenContent ==> (recon@.len() == 0
                || recon@.len() == source@.len()),
        ensures
            r.layout_view() == layout_spec(geometry, region, chroma_format, bit_depth),
            r.bit_depth_view() == bit_depth,
            r.chroma_format_view() == chroma_format,
            r.mode_search_view() == mode_search,
            r.source_view() == source@,
            r.recon_view() == recon@,
            r.source_backed() == (mode_search == Av2LosslessSubsampledModeSearch::FastScreenContent),
    {
        let layout = Av2PlanarTileLayout::for_validated_shape(geometry, region, chroma_format, bit_depth);
        let source_backed_recon = mode_search == Av2LosslessSubsampledModeSearch::FastScreenContent;
        Av2LosslessSubsampledTileState {
            chroma_format,
            bit_depth,
            mode_search,
            source,
            recon,
            layout,
            source_backed_recon,
        }
    }

    /// Plane size in samples.
    pub fn plane_geometry(&self, plane: Av2LosslessPlane) -> (r: (usize, usize))
        ensures
            r == (self.plane_spec(plane).width, self.plane_spec(plane).height),
    {
        self.layout.plane_geometry(plane.planar())
    }

    /// The tile's first sample in the plane.
    pub fn plane_origin(&self, plane: Av2LosslessPlane) -> (r: (usize, usize))
        ensures
            r == (self.plane_spec(plane).origin_x, self.plane_spec(plane).origin_y),
    {
        self.layout.plane_origin(plane.planar())
    }

    /// One past the tile's last sample in the plane.
    pub fn plane_region_limit(&self, plane: Av2LosslessPlane) -> (r: (usize, usize))
        ensures
            r == (self.plane_spec(plane).limit_x, self.plane_spec(plane).limit_y),
    {
        self.layout.plane_region_limit(plane.planar())
    }

    /// Subsampling of the plane relative to luma.
    pub fn plane_subsampling(&self, plane: Av2LosslessPlane) -> (r: (usize, usize))
        ensures
            r == (self.plane_spec(plane).sub_x, self.plane_spec(plane).sub_y),
    {
        self.layout.plane_subsampling(plane.planar())
    }

    /// The mode-info unit covering a plane sample.
    pub fn coded_mi_for_plane_sample(&self, plane: Av2LosslessPlane, x: usize, y: usize) -> (r: (usize, usize))
        requires
            self.in_plane(plane, x as int, y as int),
        ensures
            r.0 == y * self.plane_spec(plane).sub_y / 4,
            r.1 == x * self.plane_spec(plane).sub_x / 4,
    {
        proof {
            use_type_invariant(self);
        }
        self.layout.coded_mi_for_plane_sample(plane.planar(), x, y)
    }

    /// Top-left sample of the tile's 4x4 transform block (`col`, `row`).
    pub fn txb_origin(&self, plane: Av2LosslessPlane, col: usize, row: usize) -> (r: (usize, usize))
        requires
            self.plane_spec(plane).origin_x + col * TX4X4_SIZE <= usize::MAX,
            self.plane_spec(plane).origin_y + row * TX4X4_SIZE <= usize::MAX,
        ensures
            r.0 == self.plane_spec(plane).origin_x + col * TX4X4_SIZE,
            r.1 == self.plane_spec(plane).origin_y + row * TX4X4_SIZE,
    {
        self.layout.txb_origin(plane.planar(), col, row)
    }

    /// Sample index of `(x, y)` in the planar buffers.
    pub fn offset(&self, plane: Av2LosslessPlane, x: usize, y: usize) -> (r: usize)
        requires
            self.in_plane(plane, x as int, y as int),
        ensures
            r == self.plane_spec(plane).index_spec(x as int, y as int),
            r < self.layout_view().total_samples,
    {
        proof {
            use_type_invariant(self);
        }
        self.layout.offset(plane.planar(), x, y)
    }

    /// Source sample at `(x, y)`.
    pub fn source_sample(&self, plane: Av2LosslessPlane, x: usize, y: usize) -> (r: Av2Sample)
        requires
            self.in_plane(plane, x as int, y as int),
        ensures
            r as int == self.source_sample_spec(plane, x as int, y as int),
    {
        proof {
            use_type_invariant(self);
        }
        let index = self.offset(plane, x, y);
        read_planar_sample(self.source, index, self.bit_depth)
    }

    /// Source sample at `(x, y)` wherever its index, by the planar layout's
    /// row stride, falls inside the frame buffer.
    fn source_sample_in_buffer(&self, plane: Av2LosslessPlane, x: usize, y: usize) -> (r: Av2Sample)
        requires
            self.plane_spec(plane).index_spec(x as int, y as int) < self.layout_view().total_samples,
        ensures
            r as int == self.source_sample_spec(plane, x as int, y as int),
    {
        proof {
            use_type_invariant(self);
        }
        let p = self.layout.plane(plane.planar());
        proof {
            assert(0 <= y * p.width <= p.base + y * p.width + x) by (nonlinear_arith)
                requires
                    y >= 0,
                    p.width >= 0,
                    p.base >= 0,
                    x >= 0,
            ;
            assert(self.layout.total_samples <= usize::MAX) by (nonlinear_arith)
                requires
                    self.layout.total_samples * self.layout.bytes_per_sample <= usize::MAX,
                    self.layout.bytes_per_sample >= 1,
            ;
        }
        let index = p.base + y * p.width + x;
        proof {
            assert((index + 1) * self.layout.bytes_per_sample <= self.layout.total_samples * self.layout.bytes_per_sample) by (nonlinear_arith)
                requires
                    index < self.layout.total_samples,
                    self.layout.bytes_per_sample >= 1,
            ;
        }
        read_planar_sample(self.source, index, self.bit_depth)
    }

    /// Sample at `(x, y)` of a reference picture with this tile's layout.
    pub fn reference_sample(&self, reference: &[u8], plane: Av2LosslessPlane, x: usize, y: usize) -> (r: Av2Sample)
        requires
            self.in_plane(plane, x as int, y as int),
            reference@.len() == self.source_view().len(),
        ensures
            r as int == read_sample_spec(
                reference@,
                self.plane_spec(plane).index_spec(x as int, y as int),
                bytes_per_sample_spec(self.bit_depth_view()@),
            ),
    {
        proof {
            use_type_invariant(self);
        }
        let index = self.offset(plane, x, y);
        read_planar_sample(reference, index, self.bit_depth)
    }

    /// Reconstructed sample at `(x, y)`.
    pub fn recon_sample(&self, plane: Av2LosslessPlane, x: usize, y: usize) -> (r: Av2Sample)
        requires
            self.in_plane(plane, x as int, y as int),
        ensures
            r as int == self.recon_sample_spec(plane, x as int, y as int),
    {
        proof {
            use_type_invariant(self);
        }
        if self.source_backed_recon {
            return self.source_sample(plane, x, y);
        }
        let index = self.offset(plane, x, y);
        read_planar_sample(self.recon.as_slice(), index, self.bit_depth)
    }

    /// Edge sample at `(x, y)` from the given edge source.
    pub fn edge_sample(&self, edge: Av2EdgeSource, plane: Av2LosslessPlane, x: usize, y: usize) -> (r: Av2Sample)
        requires
            self.in_plane(plane, x as int, y as int),
        ensures
            r as int == self.edge_sample_spec(edge, plane, x as int, y as int),
    {
        match edge {
            Av2EdgeSource::Recon => self.recon_sample(plane, x, y),
            Av2EdgeSource::Source => self.source_sample(plane, x, y),
            Av2EdgeSource::ScoreNeighbor { leaf_x0, leaf_y0 } => self.neighbor_sample_for_score(
                plane,
                x,
                y,
                leaf_x0,
                leaf_y0,
            ),
        }
    }

    /// Neighbour sample while scoring a leaf: the source inside the leaf,
    /// the reconstruction outside it.
    pub fn neighbor_sample_for_score(
        &self,
        plane: Av2LosslessPlane,
        x: usize,
        y: usize,
        leaf_x0: usize,
        leaf_y0: usize,
    ) -> (r: Av2Sample)
        requires
            self.in_plane(plane, x as int, y as int),
        ensures
            r as int == self.edge_sample_spec(Av2EdgeSource::ScoreNeighbor { leaf_x0, leaf_y0 }, plane, x as int, y as int),
    {
        if x >= leaf_x0 && y >= leaf_y0 {
            self.source_sample(plane, x, y)
        } else {
            self.recon_sample(plane, x, y)
        }
    }
}

/// Edge samples of one plane of a lossless tile, read from the chosen
/// source, with coded flags from a mode-info context where one is given.
pub struct Av2LosslessEdges<'s, 'a> {
    pub state: &'s Av2LosslessSubsampledTileState<'a>,
    pub plane: Av2LosslessPlane,
    pub edge: Av2EdgeSource,
    pub coded: Option<&'s Av2CodedMiContext>,
}

impl<'s, 'a> Av2EdgeSampler for Av2LosslessEdges<'s, 'a> {
    open spec fn readable(&self, x: int, y: int) -> bool {
        &&& self.state.in_plane(self.plane, x, y)
        &&& match self.coded {
            Some(c) => c.wf(),
            None => true,
        }
    }

    open spec fn sample_spec(&self, x: int, y: int) -> int {
        self.state.edge_sample_spec(self.edge, self.plane, x, y)
    }

    open spec fn coded_spec(&self, x: int, y: int) -> bool {
        match self.coded {
            Some(c) => c.is_coded_spec(
                y * self.state.plane_spec(self.plane).sub_y / 4,
                x * self.state.plane_spec(self.plane).sub_x / 4,
            ),
            None => false,
        }
    }

    fn sample(&self, x: usize, y: usize) -> (r: Av2Sample) {
        self.state.edge_sample(self.edge, self.plane, x, y)
    }

    fn is_coded(&self, x: usize, y: usize) -> (r: bool) {
        match self.coded {
            Some(c) => {
                let (row_mi, col_mi) = self.state.coded_mi_for_plane_sample(self.plane, x, y);
                c.is_coded(row_mi, col_mi)
            },
            None => false,
        }
    }
}

impl<'a> Av2LosslessSubsampledTileState<'a> {
    /// Edge samples of a plane from an edge source, with optional coded flags.
    pub open spec fn edges_view<'s>(
        &'s self,
        plane: Av2LosslessPlane,
        edge: Av2EdgeSource,
        coded: Option<&'s Av2CodedMiContext>,
    ) -> Av2LosslessEdges<'s, 'a> {
        Av2LosslessEdges { state: self, plane, edge, coded }
    }

    /// The edge context of a block of a plane within a leaf, with the given
    /// edge limits.
    pub open spec fn edge_context_spec(
        &self,
        plane: Av2LosslessPlane,
        edge_limit: (usize, usize),
        leaf_origin: (usize, usize),
        leaf_size: (usize, usize),
    ) -> Av2IntraEdgeContext {
        Av2IntraEdgeContext {
            bit_depth: self.bit_depth_view(),
            tile_origin: (self.plane_spec(plane).origin_x, self.plane_spec(plane).origin_y),
            plane_size: (self.plane_spec(plane).width, self.plane_spec(plane).height),
            edge_limit,
            subsampling: (self.plane_spec(plane).sub_x, self.plane_spec(plane).sub_y),
            leaf_origin,
            leaf_size,
        }
    }

    /// Whether `r` holds the smooth-predictor edges of a block: the row
    /// above with the top-right sample and the column left with the
    /// bottom-left sample, limited to the tile region.
    pub open spec fn smooth_edges_are(
        &self,
        r: ([Av2Sample; 5], [Av2Sample; 5]),
        plane: Av2LosslessPlane,
        x0: usize,
        y0: usize,
        leaf_x0: usize,
        leaf_y0: usize,
        leaf_width: usize,
        leaf_height: usize,
        coded_mi_context: &Av2CodedMiContext,
        edge: Av2EdgeSource,
    ) -> bool {
        let ctx = self.edge_context_spec(
            plane,
            (self.plane_spec(plane).limit_x, self.plane_spec(plane).limit_y),
            (leaf_x0, leaf_y0),
            (leaf_width, leaf_height),
        );
        let edges = self.edges_view(plane, edge, Some(coded_mi_context));
        &&& forall|i: int| 0 <= i < 5 ==> #[trigger] r.0[i] as int == smooth_above_spec(ctx, x0 as int, y0 as int, &edges, i)
        &&& forall|i: int| 0 <= i < 5 ==> #[trigger] r.1[i] as int == smooth_left_spec(ctx, x0 as int, y0 as int, &edges, i)
    }

    /// DC predictor of a block from the given edges.
    pub open spec fn dc_predictor_spec(&self, plane: Av2LosslessPlane, x0: int, y0: int, edge: Av2EdgeSource) -> int {
        dc_from_edges_spec(
            self.bit_depth_view(),
            self.plane_spec(plane).origin_x as int,
            self.plane_spec(plane).origin_y as int,
            x0,
            y0,
            &self.edges_view(plane, edge, None),
        )
    }

    /// Horizontal predictor of row `local_y` of a block.
    pub open spec fn h_predictor_spec(
        &self,
        plane: Av2LosslessPlane,
        x0: int,
        y0: int,
        local_y: int,
        edge: Av2EdgeSource,
    ) -> int {
        h_from_edges_spec(
            self.bit_depth_view(),
            self.plane_spec(plane).origin_x as int,
            self.plane_spec(plane).origin_y as int,
            x0,
            y0,
            local_y,
            &self.edges_view(plane, edge, None),
        )
    }

    /// Vertical predictor of column `local_x` of a block.
    pub open spec fn v_predictor_spec(
        &self,
        plane: Av2LosslessPlane,
        x0: int,
        y0: int,
        local_x: int,
        edge: Av2EdgeSource,
    ) -> int {
        v_from_edges_spec(
            self.bit_depth_view(),
            self.plane_spec(plane).origin_x as int,
            self.plane_spec(plane).origin_y as int,
            x0,
            y0,
            local_x,
            &self.edges_view(plane, edge, None),
        )
    }

    /// Above-left predictor of a block.
    pub open spec fn above_left_predictor_spec(&self, plane: Av2LosslessPlane, x0: int, y0: int, edge: Av2EdgeSource) -> int {
        above_left_from_edges_spec(
            self.bit_depth_view(),
            self.plane_spec(plane).origin_x as int,
            self.plane_spec(plane).origin_y as int,
            x0,
            y0,
            &self.edges_view(plane, edge, None),
        )
    }

    /// A block in its plane keeps its neighbourhood addressable.
    proof fn lemma_block_limits(&self, plane: Av2LosslessPlane, x0: int, y0: int)
        requires
            self.inv(),
            self.block_in_plane(plane, x0, y0),
        ensures
            x0 + 256 <= usize::MAX,
            y0 + 256 <= usize::MAX,
            self.plane_spec(plane).sub_x == 1 || self.plane_spec(plane).sub_x == 2,
            self.plane_spec(plane).sub_y == 1 || self.plane_spec(plane).sub_y == 2,
            self.plane_spec(plane).limit_x <= self.plane_spec(plane).width,
            self.plane_spec(plane).limit_y <= self.plane_spec(plane).height,
            self.plane_spec(plane).origin_x <= self.plane_spec(plane).limit_x,
            self.plane_spec(plane).origin_y <= self.plane_spec(plane).limit_y,
    {
        let p = self.plane_spec(plane);
        let total = self.layout.total_samples as int;
        assert(p.base + p.width * p.height <= total);
        crate::planar_layout::lemma_mul_le(4, p.width as int, p.height as int, p.width as int);
        crate::planar_layout::lemma_mul_le(p.height as int, 4, p.height as int, p.width as int);
        assert(p.height * p.width == p.width * p.height) by (nonlinear_arith);
        assert(total <= usize::MAX) by (nonlinear_arith)
            requires
                total * self.layout.bytes_per_sample <= usize::MAX,
                self.layout.bytes_per_sample >= 1,
                total >= 0,
        ;
    }

    /// DC predictor of the block at `(x0, y0)` from the given edges.
    pub fn dc_predictor_with(&self, plane: Av2LosslessPlane, x0: usize, y0: usize, edge: Av2EdgeSource) -> (r: Av2Sample)
        requires
            self.block_in_plane(plane, x0 as int, y0 as int),
        ensures
            r as int == self.dc_predictor_spec(plane, x0 as int, y0 as int, edge),
    {
        proof {
            use_type_invariant(self);
            self.lemma_block_limits(plane, x0 as int, y0 as int);
        }
        let (ox, oy) = self.plane_origin(plane);
        let edges = Av2LosslessEdges { state: self, plane, edge, coded: None };
        av2_dc_predictor_from_edges(self.bit_depth, ox, oy, x0, y0, &edges)
    }

    /// Horizontal predictor of row `local_y` from the given edges.
    pub fn h_predictor_with(
        &self,
        plane: Av2LosslessPlane,
        x0: usize,
        y0: usize,
        local_y: usize,
        edge: Av2EdgeSource,
    ) -> (r: Av2Sample)
        requires
            self.block_in_plane(plane, x0 as int, y0 as int),
            local_y < TX4X4_SIZE,
        ensures
            r as int == self.h_predictor_spec(plane, x0 as int, y0 as int, local_y as int, edge),
    {
        proof {
            use_type_invariant(self);
            self.lemma_block_limits(plane, x0 as int, y0 as int);
        }
        let (ox, oy) = self.plane_origin(plane);
        let edges = Av2LosslessEdges { state: self, plane, edge, coded: None };
        av2_h_predictor_from_edges(self.bit_depth, ox, oy, x0, y0, local_y, &edges)
    }

    /// Vertical predictor of column `local_x` from the given edges.
    pub fn v_predictor_with(
        &self,
        plane: Av2LosslessPlane,
        x0: usize,
        y0: usize,
        local_x: usize,
        edge: Av2EdgeSource,
    ) -> (r: Av2Sample)
        requires
            self.block_in_plane(plane, x0 as int, y0 as int),
            local_x < TX4X4_SIZE,
        ensures
            r as int == self.v_predictor_spec(plane, x0 as int, y0 as int, local_x as int, edge),
    {
        proof {
            use_type_invariant(self);
            self.lemma_block_limits(plane, x0 as int, y0 as int);
        }
        let (ox, oy) = self.plane_origin(plane);
        let edges = Av2LosslessEdges { state: self, plane, edge, coded: None };
        av2_v_predictor_from_edges(self.bit_depth, ox, oy, x0, y0, local_x, &edges)
    }

    /// Horizontal predictor from the reconstruction.
    pub fn h_predictor(&self, plane: Av2LosslessPlane, x0: usize, y0: usize, local_y: usize) -> (r: Av2Sample)
        requires
            self.block_in_plane(plane, x0 as int, y0 as int),
            local_y < TX4X4_SIZE,
        ensures
            r as int == self.h_predictor_spec(plane, x0 as int, y0 as int, local_y as int, Av2EdgeSource::Recon),
    {
        self.h_predictor_with(plane, x0, y0, local_y, Av2EdgeSource::Recon)
    }

    /// Vertical predictor from the reconstruction.
    pub fn v_predictor(&self, plane: Av2LosslessPlane, x0: usize, y0: usize, local_x: usize) -> (r: Av2Sample)
        requires
            self.block_in_plane(plane, x0 as int, y0 as int),
            local_x < TX4X4_SIZE,
        ensures
            r as int == self.v_predictor_spec(plane, x0 as int, y0 as int, local_x as int, Av2EdgeSource::Recon),
    {
        self.v_predictor_with(plane, x0, y0, local_x, Av2EdgeSource::Recon)
    }

    /// Horizontal predictor while scoring the leaf at `(leaf_x0, leaf_y0)`.
    pub fn h_predictor_for_score(
        &self,
        plane: Av2LosslessPlane,
        x0: usize,
        y0: usize,
        local_y: usize,
        leaf_x0: usize,
        leaf_y0: usize,
    ) -> (r: Av2Sample)
        requires
            self.block_in_plane(plane, x0 as int, y0 as int),
            local_y < TX4X4_SIZE,
        ensures
            r as int == self.h_predictor_spec(plane, x0 as int, y0 as int, local_y as int, Av2EdgeSource::ScoreNeighbor { leaf_x0, leaf_y0 }),
    {
        self.h_predictor_with(plane, x0, y0, local_y, Av2EdgeSource::ScoreNeighbor { leaf_x0, leaf_y0 })
    }

    /// Vertical predictor while scoring the leaf at `(leaf_x0, leaf_y0)`.
    pub fn v_predictor_for_score(
        &self,
        plane: Av2LosslessPlane,
        x0: usize,
        y0: usize,
        local_x: usize,
        leaf_x0: usize,
        leaf_y0: usize,
    ) -> (r: Av2Sample)
        requires
            self.block_in_plane(plane, x0 as int, y0 as int),
            local_x < TX4X4_SIZE,
        ensures
            r as int == self.v_predictor_spec(plane, x0 as int, y0 as int, local_x as int, Av2EdgeSource::ScoreNeighbor { leaf_x0, leaf_y0 }),
    {
        self.v_predictor_with(plane, x0, y0, local_x, Av2EdgeSource::ScoreNeighbor { leaf_x0, leaf_y0 })
    }

    /// DC predictor from the source (lossless reconstruction equals it).
    pub fn source_backed_dc_predictor(&self, plane: Av2LosslessPlane, x0: usize, y0: usize) -> (r: Av2Sample)
        requires
            self.block_in_plane(plane, x0 as int, y0 as int),
        ensures
            r as int == self.dc_predictor_spec(plane, x0 as int, y0 as int, Av2EdgeSource::Source),
    {
        self.dc_predictor_with(plane, x0, y0, Av2EdgeSource::Source)
    }

    /// Horizontal predictor from the source.
    pub fn source_backed_h_predictor(&self, plane: Av2LosslessPlane, x0: usize, y0: usize, local_y: usize) -> (r: Av2Sample)
        requires
            self.block_in_plane(plane, x0 as int, y0 as int),
            local_y < TX4X4_SIZE,
        ensures
            r as int == self.h_predictor_spec(plane, x0 as int, y0 as int, local_y as int, Av2EdgeSource::Source),
    {
        self.h_predictor_with(plane, x0, y0, local_y, Av2EdgeSource::Source)
    }

    /// Vertical predictor from the source.
    pub fn source_backed_v_predictor(&self, plane: Av2LosslessPlane, x0: usize, y0: usize, local_x: usize) -> (r: Av2Sample)
        requires
            self.block_in_plane(plane, x0 as int, y0 as int),
            local_x < TX4X4_SIZE,
        ensures
            r as int == self.v_predictor_spec(plane, x0 as int, y0 as int, local_x as int, Av2EdgeSource::Source),
    {
        self.v_predictor_with(plane, x0, y0, local_x, Av2EdgeSource::Source)
    }

    /// Above-left corner predictor from the given edges.
    pub fn above_left_predictor_with(&self, plane: Av2LosslessPlane, x0: usize, y0: usize, edge: Av2EdgeSource) -> (r: Av2Sample)
        requires
            self.block_in_plane(plane, x0 as int, y0 as int),
        ensures
            r as int == self.above_left_predictor_spec(plane, x0 as int, y0 as int, edge),
    {
        let (ox, oy) = self.plane_origin(plane);
        let edges = Av2LosslessEdges { state: self, plane, edge, coded: None };
        av2_above_left_predictor_from_edges(self.bit_depth, ox, oy, x0, y0, &edges)
    }

    /// Directional above edge of a block, admitting samples up to the plane's
    /// right edge.
    pub fn directional_above_edge_with(
        &self,
        plane: Av2LosslessPlane,
        x0: usize,
        y0: usize,
        leaf_x0: usize,
        leaf_y0: usize,
        leaf_width: usize,
        coded_mi_context: &Av2CodedMiContext,
        edge: Av2EdgeSource,
    ) -> (r: [Av2Sample; 8])
        requires
            self.block_in_plane(plane, x0 as int, y0 as int),
            coded_mi_context.wf(),
            leaf_x0 + leaf_width <= usize::MAX,
        ensures
            forall|i: int| 0 <= i < 8 ==> #[trigger] r[i] as int == directional_above_spec(
                self.edge_context_spec(
                    plane,
                    (self.plane_spec(plane).width, self.plane_spec(plane).height),
                    (leaf_x0, leaf_y0),
                    (leaf_width, 0),
                ),
                x0 as int,
                y0 as int,
                &self.edges_view(plane, edge, Some(coded_mi_context)),
                i,
            ),
    {
        proof {
            use_type_invariant(self);
            self.lemma_block_limits(plane, x0 as int, y0 as int);
        }
        let context = Av2IntraEdgeContext {
            bit_depth: self.bit_depth,
            tile_origin: self.plane_origin(plane),
            plane_size: self.plane_geometry(plane),
            edge_limit: self.plane_geometry(plane),
            subsampling: self.plane_subsampling(plane),
            leaf_origin: (leaf_x0, leaf_y0),
            leaf_size: (leaf_width, 0),
        };
        let edges = Av2LosslessEdges { state: self, plane, edge, coded: Some(coded_mi_context) };
        av2_directional_above_edge(context, x0, y0, &edges)
    }

    /// Directional left edge of a block, admitting samples down to the
    /// plane's bottom edge.
    pub fn directional_left_edge_with(
        &self,
        plane: Av2LosslessPlane,
        x0: usize,
        y0: usize,
        leaf_x0: usize,
        leaf_y0: usize,
        leaf_height: usize,
        coded_mi_context: &Av2CodedMiContext,
        edge: Av2EdgeSource,
    ) -> (r: [Av2Sample; 8])
        requires
            self.block_in_plane(plane, x0 as int, y0 as int),
            coded_mi_context.wf(),
            leaf_y0 + leaf_height <= usize::MAX,
        ensures
            forall|i: int| 0 <= i < 8 ==> #[trigger] r[i] as int == directional_left_spec(
                self.edge_context_spec(
                    plane,
                    (self.plane_spec(plane).width, self.plane_spec(plane).height),
                    (leaf_x0, leaf_y0),
                    (0, leaf_height),
                ),
                x0 as int,
                y0 as int,
                &self.edges_view(plane, edge, Some(coded_mi_context)),
                i,
            ),
    {
        proof {
            use_type_invariant(self);
            self.lemma_block_limits(plane, x0 as int, y0 as int);
        }
        let context = Av2IntraEdgeContext {
            bit_depth: self.bit_depth,
            tile_origin: self.plane_origin(plane),
            plane_size: self.plane_geometry(plane),
            edge_limit: self.plane_geometry(plane),
            subsampling: self.plane_subsampling(plane),
            leaf_origin: (leaf_x0, leaf_y0),
            leaf_size: (0, leaf_height),
        };
        let edges = Av2LosslessEdges { state: self, plane, edge, coded: Some(coded_mi_context) };
        av2_directional_left_edge(context, x0, y0, &edges)
    }

    /// Smooth-predictor edges of a block from the given edges, limited to the
    /// tile region.
    pub fn smooth_edges_with(
        &self,
        plane: Av2LosslessPlane,
        x0: usize,
        y0: usize,
        leaf_x0: usize,
        leaf_y0: usize,
        leaf_width: usize,
        leaf_height: usize,
        coded_mi_context: &Av2CodedMiContext,
        edge: Av2EdgeSource,
    ) -> (r: ([Av2Sample; 5], [Av2Sample; 5]))
        requires
            self.block_in_plane(plane, x0 as int, y0 as int),
            coded_mi_context.wf(),
            leaf_x0 + leaf_width <= usize::MAX,
            leaf_y0 + leaf_height <= usize::MAX,
        ensures
            self.smooth_edges_are(r, plane, x0, y0, leaf_x0, leaf_y0, leaf_width, leaf_height, coded_mi_context, edge),
    {
        proof {
            use_type_invariant(self);
            self.lemma_block_limits(plane, x0 as int, y0 as int);
        }
        let context = Av2IntraEdgeContext {
            bit_depth: self.bit_depth,
            tile_origin: self.plane_origin(plane),
            plane_size: self.plane_geometry(plane),
            edge_limit: self.plane_region_limit(plane),
            subsampling: self.plane_subsampling(plane),
            leaf_origin: (leaf_x0, leaf_y0),
            leaf_size: (leaf_width, leaf_height),
        };
        let edges = Av2LosslessEdges { state: self, plane, edge, coded: Some(coded_mi_context) };
        av2_smooth_intra_edges(context, x0, y0, &edges)
    }
}

/// Column of position `pos` of a 4x4 block.
pub open spec fn col_of(pos: int) -> int {
    pos % 4
}

/// Row of position `pos` of a 4x4 block.
pub open spec fn row_of(pos: int) -> int {
    pos / 4
}

impl<'a> Av2LosslessSubsampledTileState<'a> {
    /// Source sample at position `pos` of the block at `(x0, y0)`.
    pub open spec fn block_source_spec(&self, plane: Av2LosslessPlane, x0: int, y0: int, pos: int) -> int {
        self.source_sample_spec(plane, x0 + col_of(pos), y0 + row_of(pos))
    }

    /// BDPCM residual at `pos`: each sample minus its left (horizontal) or
    /// upper (vertical) neighbour, the first column or row against the
    /// horizontal or vertical predictor.
    pub open spec fn dpcm_residual_spec(
        &self,
        plane: Av2LosslessPlane,
        x0: int,
        y0: int,
        horz: bool,
        edge: Av2EdgeSource,
        pos: int,
    ) -> int {
        let lx = col_of(pos);
        let ly = row_of(pos);
        let sample = self.block_source_spec(plane, x0, y0, pos);
        if horz {
            if lx == 0 {
                sample - self.h_predictor_spec(plane, x0, y0, ly, edge)
            } else {
                sample - self.source_sample_spec(plane, x0 + lx - 1, y0 + ly)
            }
        } else if ly == 0 {
            sample - self.v_predictor_spec(plane, x0, y0, lx, edge)
        } else {
            sample - self.source_sample_spec(plane, x0 + lx, y0 + ly - 1)
        }
    }

    /// The horizontal predictor of row `ly` plus the horizontal BDPCM
    /// residuals of that row's first `lx + 1` samples.
    pub open spec fn dpcm_row_prefix_spec(
        &self,
        plane: Av2LosslessPlane,
        x0: int,
        y0: int,
        edge: Av2EdgeSource,
        lx: int,
        ly: int,
    ) -> int
        decreases lx,
    {
        let residual = self.dpcm_residual_spec(plane, x0, y0, true, edge, ly * 4 + lx);
        if lx <= 0 {
            self.h_predictor_spec(plane, x0, y0, ly, edge) + residual
        } else {
            self.dpcm_row_prefix_spec(plane, x0, y0, edge, lx - 1, ly) + residual
        }
    }

    /// The vertical predictor of column `lx` plus the vertical BDPCM
    /// residuals of that column's first `ly + 1` samples.
    pub open spec fn dpcm_column_prefix_spec(
        &self,
        plane: Av2LosslessPlane,
        x0: int,
        y0: int,
        edge: Av2EdgeSource,
        lx: int,
        ly: int,
    ) -> int
        decreases ly,
    {
        let residual = self.dpcm_residual_spec(plane, x0, y0, false, edge, ly * 4 + lx);
        if ly <= 0 {
            self.v_predictor_spec(plane, x0, y0, lx, edge) + residual
        } else {
            self.dpcm_column_prefix_spec(plane, x0, y0, edge, lx, ly - 1) + residual
        }
    }

    /// Summing the BDPCM residuals along a row (horizontal) or a column
    /// (vertical), starting from the edge predictor, gives back every source
    /// sample of the block.
    pub proof fn lemma_dpcm_prefix_sums_undo_residual(
        &self,
        plane: Av2LosslessPlane,
        x0: int,
        y0: int,
        edge: Av2EdgeSource,
        lx: int,
        ly: int,
    )
        requires
            0 <= lx < 4,
            0 <= ly < 4,
        ensures
            self.dpcm_row_prefix_spec(plane, x0, y0, edge, lx, ly) == self.source_sample_spec(plane, x0 + lx, y0 + ly),
            self.dpcm_column_prefix_spec(plane, x0, y0, edge, lx, ly) == self.source_sample_spec(plane, x0 + lx, y0 + ly),
        decreases lx + ly,
    {
        let pos = ly * 4 + lx;
        assert(pos % 4 == lx && pos / 4 == ly) by (nonlinear_arith)
            requires
                pos == ly * 4 + lx,
                0 <= lx < 4,
                0 <= ly < 4,
        ;
        assert(col_of(pos) == lx && row_of(pos) == ly);
        if lx > 0 {
            self.lemma_dpcm_prefix_sums_undo_residual(plane, x0, y0, edge, lx - 1, ly);
        }
        if ly > 0 {
            self.lemma_dpcm_prefix_sums_undo_residual(plane, x0, y0, edge, lx, ly - 1);
        }
    }

    /// Residual at `pos` of DC, horizontal or vertical prediction.
    pub open spec fn simple_intra_residual_spec(
        &self,
        plane: Av2LosslessPlane,
        x0: int,
        y0: int,
        mode: Av2ChromaIntraMode,
        edge: Av2EdgeSource,
        pos: int,
    ) -> int {
        let sample = self.block_source_spec(plane, x0, y0, pos);
        match mode {
            Av2ChromaIntraMode::Horizontal => sample - self.h_predictor_spec(plane, x0, y0, row_of(pos), edge),
            Av2ChromaIntraMode::Vertical => sample - self.v_predictor_spec(plane, x0, y0, col_of(pos), edge),
            _ => sample - self.dc_predictor_spec(plane, x0, y0, edge),
        }
    }

    /// The 4x4 source block at `(x0, y0)`, row by row.
    pub fn source_block4x4(&self, plane: Av2LosslessPlane, x0: usize, y0: usize) -> (r: [i32; 16])
        requires
            self.block_in_plane(plane, x0 as int, y0 as int),
        ensures
            forall|pos: int| 0 <= pos < 16 ==> #[trigger] r[pos] as int == self.block_source_spec(plane, x0 as int, y0 as int, pos),
    {
        let mut block = [0i32; 16];
        let mut pos: usize = 0;
        while pos < TX4X4_SAMPLES
            invariant
                pos <= 16,
                self.block_in_plane(plane, x0 as int, y0 as int),
                forall|p: int| 0 <= p < pos ==> #[trigger] block[p] as int == self.block_source_spec(plane, x0 as int, y0 as int, p),
            decreases 16 - pos,
        {
            let v = self.source_sample(plane, x0 + pos % 4, y0 + pos / 4);
            block[pos] = v as i32;
            pos = pos + 1;
        }
        block
    }

    /// BDPCM residual of a block with the first column or row predicted from
    /// the given edges.
    pub fn dpcm_residual4x4_with_edge_predictors(
        &self,
        plane: Av2LosslessPlane,
        x0: usize,
        y0: usize,
        horz: bool,
        edge: Av2EdgeSource,
    ) -> (r: [i32; 16])
        requires
            self.block_in_plane(plane, x0 as int, y0 as int),
        ensures
            forall|pos: int| 0 <= pos < 16 ==> #[trigger] r[pos] as int == self.dpcm_residual_spec(plane, x0 as int, y0 as int, horz, edge, pos),
    {
        let mut residual = [0i32; 16];
        let mut pos: usize = 0;
        while pos < TX4X4_SAMPLES
            invariant
                pos <= 16,
                self.block_in_plane(plane, x0 as int, y0 as int),
                forall|p: int| 0 <= p < pos ==> #[trigger] residual[p] as int == self.dpcm_residual_spec(plane, x0 as int, y0 as int, horz, edge, p),
            decreases 16 - pos,
        {
            let local_x = pos % 4;
            let local_y = pos / 4;
            let x = x0 + local_x;
            let y = y0 + local_y;
            let sample = self.source_sample(plane, x, y) as i32;
            let predicted = if horz {
                if local_x == 0 {
                    self.h_predictor_with(plane, x0, y0, local_y, edge) as i32
                } else {
                    self.source_sample(plane, x - 1, y) as i32
                }
            } else if local_y == 0 {
                self.v_predictor_with(plane, x0, y0, local_x, edge) as i32
            } else {
                self.source_sample(plane, x, y - 1) as i32
            };
            residual[pos] = sample - predicted;
            pos = pos + 1;
        }
        residual
    }

    /// BDPCM residual against the reconstruction.
    pub fn dpcm_residual4x4(&self, plane: Av2LosslessPlane, x0: usize, y0: usize, horz: bool) -> (r: [i32; 16])
        requires
            self.block_in_plane(plane, x0 as int, y0 as int),
        ensures
            forall|pos: int| 0 <= pos < 16 ==> #[trigger] r[pos] as int == self.dpcm_residual_spec(plane, x0 as int, y0 as int, horz, Av2EdgeSource::Recon, pos),
    {
        self.dpcm_residual4x4_with_edge_predictors(plane, x0, y0, horz, Av2EdgeSource::Recon)
    }

    /// BDPCM residual while scoring the leaf at `(leaf_x0, leaf_y0)`.
    pub fn dpcm_residual4x4_for_score(
        &self,
        plane: Av2LosslessPlane,
        x0: usize,
        y0: usize,
        horz: bool,
        leaf_x0: usize,
        leaf_y0: usize,
    ) -> (r: [i32; 16])
        requires
            self.block_in_plane(plane, x0 as int, y0 as int),
        ensures
            forall|pos: int| 0 <= pos < 16 ==> #[trigger] r[pos] as int == self.dpcm_residual_spec(
                plane,
                x0 as int,
                y0 as int,
                horz,
                Av2EdgeSource::ScoreNeighbor { leaf_x0, leaf_y0 },
                pos,
            ),
    {
        self.dpcm_residual4x4_with_edge_predictors(plane, x0, y0, horz, Av2EdgeSource::ScoreNeighbor { leaf_x0, leaf_y0 })
    }

    /// BDPCM residual against the source (lossless reconstruction equals it).
    pub fn source_backed_dpcm_residual4x4(&self, plane: Av2LosslessPlane, x0: usize, y0: usize, horz: bool) -> (r: [i32; 16])
        requires
            self.block_in_plane(plane, x0 as int, y0 as int),
        ensures
            forall|pos: int| 0 <= pos < 16 ==> #[trigger] r[pos] as int == self.dpcm_residual_spec(plane, x0 as int, y0 as int, horz, Av2EdgeSource::Source, pos),
    {
        self.dpcm_residual4x4_with_edge_predictors(plane, x0, y0, horz, Av2EdgeSource::Source)
    }

    /// Residual of DC, horizontal or vertical prediction from the given edges.
    pub fn simple_intra_residual4x4(
        &self,
        plane: Av2LosslessPlane,
        x0: usize,
        y0: usize,
        mode: Av2ChromaIntraMode,
        edge: Av2EdgeSource,
    ) -> (r: [i32; 16])
        requires
            self.block_in_plane(plane, x0 as int, y0 as int),
            mode == Av2ChromaIntraMode::Dc || mode == Av2ChromaIntraMode::Horizontal || mode == Av2ChromaIntraMode::Vertical,
        ensures
            forall|pos: int| 0 <= pos < 16 ==> #[trigger] r[pos] as int == self.simple_intra_residual_spec(plane, x0 as int, y0 as int, mode, edge, pos),
            forall|pos: int| 0 <= pos < 16 ==> -65535 <= #[trigger] r[pos] <= 65535,
    {
        let dc = self.dc_predictor_with(plane, x0, y0, edge) as i32;
        let mut residual = [0i32; 16];
        let mut pos: usize = 0;
        while pos < TX4X4_SAMPLES
            invariant
                pos <= 16,
                self.block_in_plane(plane, x0 as int, y0 as int),
                dc as int == self.dc_predictor_spec(plane, x0 as int, y0 as int, edge),
                0 <= dc <= 65535,
                mode == Av2ChromaIntraMode::Dc || mode == Av2ChromaIntraMode::Horizontal || mode == Av2ChromaIntraMode::Vertical,
                forall|p: int| 0 <= p < pos ==> #[trigger] residual[p] as int == self.simple_intra_residual_spec(plane, x0 as int, y0 as int, mode, edge, p),
                forall|p: int| 0 <= p < pos ==> -65535 <= #[trigger] residual[p] <= 65535,
            decreases 16 - pos,
        {
            let sample = self.source_sample(plane, x0 + pos % 4, y0 + pos / 4) as i32;
            let predicted = match mode {
                Av2ChromaIntraMode::Horizontal => self.h_predictor_with(plane, x0, y0, pos / 4, edge) as i32,
                Av2ChromaIntraMode::Vertical => self.v_predictor_with(plane, x0, y0, pos % 4, edge) as i32,
                _ => dc,
            };
            residual[pos] = sample - predicted;
            pos = pos + 1;
        }
        residual
    }

    /// Residual of DC, horizontal or vertical chroma prediction against the
    /// source; `None` for the other modes.
    pub fn source_backed_chroma_intra_residual4x4(
        &self,
        plane: Av2LosslessPlane,
        x0: usize,
        y0: usize,
        mode: Av2ChromaIntraMode,
    ) -> (r: Option<[i32; 16]>)
        requires
            self.block_in_plane(plane, x0 as int, y0 as int),
        ensures
            r.is_some() <==> (mode == Av2ChromaIntraMode::Dc || mode == Av2ChromaIntraMode::Horizontal || mode
                == Av2ChromaIntraMode::Vertical),
            r matches Some(res) ==> forall|pos: int| 0 <= pos < 16 ==> #[trigger] res[pos] as int
                == self.simple_intra_residual_spec(plane, x0 as int, y0 as int, mode, Av2EdgeSource::Source, pos),
    {
        match mode {
            Av2ChromaIntraMode::Dc | Av2ChromaIntraMode::Horizontal | Av2ChromaIntraMode::Vertical => Some(
                self.simple_intra_residual4x4(plane, x0, y0, mode, Av2EdgeSource::Source),
            ),
            _ => None,
        }
    }

    /// The same for a luma mode, through its chroma counterpart.
    pub fn source_backed_luma_intra_residual4x4(&self, x0: usize, y0: usize, mode: Av2LumaIntraMode) -> (r: Option<[i32; 16]>)
        requires
            self.block_in_plane(Av2LosslessPlane::Y, x0 as int, y0 as int),
        ensures
            ({
                let cm = chroma_mode_for_luma_mode_spec(mode);
                &&& r.is_some() <==> (cm == Av2ChromaIntraMode::Dc || cm == Av2ChromaIntraMode::Horizontal || cm
                    == Av2ChromaIntraMode::Vertical)
                &&& r matches Some(res) ==> forall|pos: int| 0 <= pos < 16 ==> #[trigger] res[pos] as int
                    == self.simple_intra_residual_spec(Av2LosslessPlane::Y, x0 as int, y0 as int, cm, Av2EdgeSource::Source, pos)
            }),
    {
        self.source_backed_chroma_intra_residual4x4(Av2LosslessPlane::Y, x0, y0, chroma_mode_for_luma_mode(mode))
    }

    /// Residual at `pos` of inter prediction from `reference` displaced by
    /// the given whole-sample offset.
    pub open spec fn inter_residual_spec(
        &self,
        reference: Seq<u8>,
        plane: Av2LosslessPlane,
        x0: int,
        y0: int,
        ref_x0: int,
        ref_y0: int,
        pos: int,
    ) -> int {
        self.block_source_spec(plane, x0, y0, pos) - read_sample_spec(
            reference,
            self.plane_spec(plane).index_spec(ref_x0 + col_of(pos), ref_y0 + row_of(pos)),
            bytes_per_sample_spec(self.bit_depth_view()@),
        )
    }

    /// Inter residual of the block at `(x0, y0)` against `reference`
    /// displaced by a motion vector in luma samples, which must be a whole
    /// number of the plane's samples and keep the reference block in the
    /// plane.
    pub fn inter_residual4x4(
        &self,
        reference: &[u8],
        plane: Av2LosslessPlane,
        x0: usize,
        y0: usize,
        mv_row_px: i16,
        mv_col_px: i16,
    ) -> (r: [i32; 16])
        requires
            reference@.len() == self.source_view().len(),
            x0 + 3 <= usize::MAX,
            y0 + 3 <= usize::MAX,
            self.plane_spec(plane).index_spec(x0 + 3, y0 + 3) < self.layout_view().total_samples,
            (mv_col_px as int) % (self.plane_spec(plane).sub_x as int) == 0,
            (mv_row_px as int) % (self.plane_spec(plane).sub_y as int) == 0,
            self.block_in_plane(
                plane,
                x0 + (mv_col_px as int) / (self.plane_spec(plane).sub_x as int),
                y0 + (mv_row_px as int) / (self.plane_spec(plane).sub_y as int),
            ),
        ensures
            forall|pos: int| 0 <= pos < 16 ==> #[trigger] r[pos] as int == self.inter_residual_spec(
                reference@,
                plane,
                x0 as int,
                y0 as int,
                x0 + (mv_col_px as int) / (self.plane_spec(plane).sub_x as int),
                y0 + (mv_row_px as int) / (self.plane_spec(plane).sub_y as int),
                pos,
            ),
    {
        proof {
            use_type_invariant(self);
            self.lemma_block_limits(
                plane,
                x0 + (mv_col_px as int) / (self.plane_spec(plane).sub_x as int),
                y0 + (mv_row_px as int) / (self.plane_spec(plane).sub_y as int),
            );
        }
        let (sub_x, sub_y) = self.plane_subsampling(plane);
        let ref_x0 = displaced(x0, mv_col_px, sub_x);
        let ref_y0 = displaced(y0, mv_row_px, sub_y);
        let mut residual = [0i32; 16];
        let mut pos: usize = 0;
        while pos < TX4X4_SAMPLES
            invariant
                pos <= 16,
                reference@.len() == self.source_view().len(),
                x0 + 3 <= usize::MAX,
                y0 + 3 <= usize::MAX,
                self.plane_spec(plane).index_spec(x0 + 3, y0 + 3) < self.layout_view().total_samples,
                self.block_in_plane(plane, ref_x0 as int, ref_y0 as int),
                forall|p: int| 0 <= p < pos ==> #[trigger] residual[p] as int == self.inter_residual_spec(
                    reference@,
                    plane,
                    x0 as int,
                    y0 as int,
                    ref_x0 as int,
                    ref_y0 as int,
                    p,
                ),
            decreases 16 - pos,
        {
            proof {
                let p = self.plane_spec(plane);
                assert(p.index_spec(x0 + pos % 4, y0 + pos / 4) <= p.index_spec(x0 + 3, y0 + 3)) by (nonlinear_arith)
                    requires
                        pos < 16,
                        p.index_spec(x0 + pos % 4, y0 + pos / 4) == p.base + (y0 + pos / 4) * p.width + x0 + pos % 4,
                        p.index_spec(x0 + 3, y0 + 3) == p.base + (y0 + 3) * p.width + x0 + 3,
                ;
            }
            let source_sample = self.source_sample_in_buffer(plane, x0 + pos % 4, y0 + pos / 4) as i32;
            let reference_sample = self.reference_sample(reference, plane, ref_x0 + pos % 4, ref_y0 + pos / 4) as i32;
            residual[pos] = source_sample - reference_sample;
            pos = pos + 1;
        }
        residual
    }

    /// Proxy scores of DC, horizontal, vertical and both BDPCM predictions of
    /// a block while scoring the leaf at `(leaf_x0, leaf_y0)`.
    pub fn dc_h_v_bdpcm_txb_scores_for_score(
        &self,
        plane: Av2LosslessPlane,
        x0: usize,
        y0: usize,
        leaf_x0: usize,
        leaf_y0: usize,
        kind: Av2CoefficientCodingKind,
    ) -> (r: Av2DcHvBdpcmTxbScores)
        requires
            self.block_in_plane(plane, x0 as int, y0 as int),
        ensures
            ({
                let edge = Av2EdgeSource::ScoreNeighbor { leaf_x0, leaf_y0 };
                let scale = magnitude_scale_spec(kind);
                &&& r.dc == 16 + residual_cost_sum(
                    Seq::new(16, |p: int| self.simple_intra_residual_spec(plane, x0 as int, y0 as int, Av2ChromaIntraMode::Dc, edge, p) as i32),
                    scale,
                    16,
                )
                &&& r.horizontal == 16 + residual_cost_sum(
                    Seq::new(16, |p: int| self.simple_intra_residual_spec(plane, x0 as int, y0 as int, Av2ChromaIntraMode::Horizontal, edge, p) as i32),
                    scale,
                    16,
                )
                &&& r.vertical == 16 + residual_cost_sum(
                    Seq::new(16, |p: int| self.simple_intra_residual_spec(plane, x0 as int, y0 as int, Av2ChromaIntraMode::Vertical, edge, p) as i32),
                    scale,
                    16,
                )
                &&& r.bdpcm_horizontal == 16 + residual_cost_sum(
                    Seq::new(16, |p: int| self.dpcm_residual_spec(plane, x0 as int, y0 as int, true, edge, p) as i32),
                    scale,
                    16,
                )
                &&& r.bdpcm_vertical == 16 + residual_cost_sum(
                    Seq::new(16, |p: int| self.dpcm_residual_spec(plane, x0 as int, y0 as int, false, edge, p) as i32),
                    scale,
                    16,
                )
            }),
    {
        let edge = Av2EdgeSource::ScoreNeighbor { leaf_x0, leaf_y0 };
        let scale = residual_sample_proxy_magnitude_scale(kind);
        let dc = self.simple_intra_residual4x4(plane, x0, y0, Av2ChromaIntraMode::Dc, edge);
        let horizontal = self.simple_intra_residual4x4(plane, x0, y0, Av2ChromaIntraMode::Horizontal, edge);
        let vertical = self.simple_intra_residual4x4(plane, x0, y0, Av2ChromaIntraMode::Vertical, edge);
        let bdpcm_horizontal = self.dpcm_residual4x4_with_edge_predictors(plane, x0, y0, true, edge);
        let bdpcm_vertical = self.dpcm_residual4x4_with_edge_predictors(plane, x0, y0, false, edge);
        proof {
            assert(dc@ =~= Seq::new(16, |p: int| self.simple_intra_residual_spec(plane, x0 as int, y0 as int, Av2ChromaIntraMode::Dc, edge, p) as i32));
            assert(horizontal@ =~= Seq::new(16, |p: int| self.simple_intra_residual_spec(plane, x0 as int, y0 as int, Av2ChromaIntraMode::Horizontal, edge, p) as i32));
            assert(vertical@ =~= Seq::new(16, |p: int| self.simple_intra_residual_spec(plane, x0 as int, y0 as int, Av2ChromaIntraMode::Vertical, edge, p) as i32));
            assert(bdpcm_horizontal@ =~= Seq::new(16, |p: int| self.dpcm_residual_spec(plane, x0 as int, y0 as int, true, edge, p) as i32));
            assert(bdpcm_vertical@ =~= Seq::new(16, |p: int| self.dpcm_residual_spec(plane, x0 as int, y0 as int, false, edge, p) as i32));
        }
        Av2DcHvBdpcmTxbScores {
            dc: txb_residual_proxy_score(&dc, scale),
            horizontal: txb_residual_proxy_score(&horizontal, scale),
            vertical: txb_residual_proxy_score(&vertical, scale),
            bdpcm_horizontal: txb_residual_proxy_score(&bdpcm_horizontal, scale),
            bdpcm_vertical: txb_residual_proxy_score(&bdpcm_vertical, scale),
        }
    }

    /// Smooth-predictor edges from the reconstruction.
    pub fn smooth_edges(
        &self,
        plane: Av2LosslessPlane,
        x0: usize,
        y0: usize,
        leaf_x0: usize,
        leaf_y0: usize,
        leaf_width: usize,
        leaf_height: usize,
        coded_mi_context: &Av2CodedMiContext,
    ) -> (r: ([Av2Sample; 5], [Av2Sample; 5]))
        requires
            self.block_in_plane(plane, x0 as int, y0 as int),
            coded_mi_context.wf(),
            leaf_x0 + leaf_width <= usize::MAX,
            leaf_y0 + leaf_height <= usize::MAX,
        ensures
            self.smooth_edges_are(r, plane, x0, y0, leaf_x0, leaf_y0, leaf_width, leaf_height, coded_mi_context, Av2EdgeSource::Recon),
    {
        self.smooth_edges_with(plane, x0, y0, leaf_x0, leaf_y0, leaf_width, leaf_height, coded_mi_context, Av2EdgeSource::Recon)
    }

    /// Smooth-predictor edges while scoring the leaf.
    pub fn smooth_edges_for_score(
        &self,
        plane: Av2LosslessPlane,
        x0: usize,
        y0: usize,
        leaf_x0: usize,
        leaf_y0: usize,
        leaf_width: usize,
        leaf_height: usize,
        coded_mi_context: &Av2CodedMiContext,
    ) -> (r: ([Av2Sample; 5], [Av2Sample; 5]))
        requires
            self.block_in_plane(plane, x0 as int, y0 as int),
            coded_mi_context.wf(),
            leaf_x0 + leaf_width <= usize::MAX,
            leaf_y0 + leaf_height <= usize::MAX,
        ensures
            self.smooth_edges_are(
                r,
                plane,
                x0,
                y0,
                leaf_x0,
                leaf_y0,
                leaf_width,
                leaf_height,
                coded_mi_context,
                Av2EdgeSource::ScoreNeighbor { leaf_x0, leaf_y0 },
            ),
    {
        self.smooth_edges_with(
            plane,
            x0,
            y0,
            leaf_x0,
            leaf_y0,
            leaf_width,
            leaf_height,
            coded_mi_context,
            Av2EdgeSource::ScoreNeighbor { leaf_x0, leaf_y0 },
        )
    }
}

/// `x` moved by `mv` luma samples in a plane subsampled by `sub`.
fn displaced(x: usize, mv: i16, sub: usize) -> (r: usize)
    requires
        sub == 1 || sub == 2,
        (mv as int) % (sub as int) == 0,
        0 <= x + (mv as int) / (sub as int) <= usize::MAX,
    ensures
        r == x + (mv as int) / (sub as int),
{
    if mv >= 0 {
        x + (mv as usize) / sub
    } else {
        let m = (-(mv as i32)) as usize;
        proof {
            assert((m as int) / (sub as int) == -((mv as int) / (sub as int))) by (nonlinear_arith)
                requires
                    m == -(mv as int),
                    mv < 0,
                    sub == 1 || sub == 2,
                    (mv as int) % (sub as int) == 0,
            ;
        }
        x - m / sub
    }
}

/// Whether chroma candidate `i` may be chosen: BDPCM candidates only when
/// BDPCM is allowed.
pub open spec fn chroma_candidate_eligible(candidates: Seq<(bool, Av2ChromaIntraMode, usize)>, allow_bdpcm: bool, i: int) -> bool {
    allow_bdpcm || !candidates[i].0
}

/// Score of chroma candidate `i` with its syntax penalty.
pub open spec fn chroma_candidate_key(candidates: Seq<(bool, Av2ChromaIntraMode, usize)>, scores: Seq<usize>, i: int) -> int {
    scores[i] + candidates[i].2
}

/// The eligible chroma candidate with the lowest score plus syntax penalty,
/// the first such on ties; `None` when none is eligible.
pub fn best_lossless_chroma_candidate_index(
    candidates: &[(bool, Av2ChromaIntraMode, usize)],
    scores: &[usize],
    allow_bdpcm: bool,
) -> (r: Option<usize>)
    requires
        candidates@.len() == scores@.len(),
        forall|i: int| 0 <= i < scores@.len() && chroma_candidate_eligible(candidates@, allow_bdpcm, i)
            ==> #[trigger] chroma_candidate_key(candidates@, scores@, i) <= usize::MAX,
    ensures
        r.is_none() <==> (forall|j: int| 0 <= j < candidates@.len() ==> !#[trigger] chroma_candidate_eligible(candidates@, allow_bdpcm, j)),
        r matches Some(i) ==> {
            &&& 0 <= i < candidates@.len()
            &&& chroma_candidate_eligible(candidates@, allow_bdpcm, i as int)
            &&& forall|j: int| 0 <= j < candidates@.len() && #[trigger] chroma_candidate_eligible(candidates@, allow_bdpcm, j)
                ==> chroma_candidate_key(candidates@, scores@, i as int) <= chroma_candidate_key(candidates@, scores@, j)
            &&& forall|j: int| 0 <= j < i && #[trigger] chroma_candidate_eligible(candidates@, allow_bdpcm, j)
                ==> chroma_candidate_key(candidates@, scores@, i as int) < chroma_candidate_key(candidates@, scores@, j)
        },
{
    let mut best: Option<usize> = None;
    let mut best_key: usize = 0;
    let mut index: usize = 0;
    while index < candidates.len()
        invariant
            index <= candidates@.len(),
            candidates@.len() == scores@.len(),
                forall|i: int| 0 <= i < scores@.len() && chroma_candidate_eligible(candidates@, allow_bdpcm, i)
                ==> #[trigger] chroma_candidate_key(candidates@, scores@, i) <= usize::MAX,
            best.is_none() <==> (forall|j: int| 0 <= j < index ==> !#[trigger] chroma_candidate_eligible(candidates@, allow_bdpcm, j)),
            best matches Some(i) ==> {
                &&& 0 <= i < index
                &&& best_key == chroma_candidate_key(candidates@, scores@, i as int)
                &&& chroma_candidate_eligible(candidates@, allow_bdpcm, i as int)
                &&& forall|j: int| 0 <= j < index && #[trigger] chroma_candidate_eligible(candidates@, allow_bdpcm, j)
                    ==> best_key <= chroma_candidate_key(candidates@, scores@, j)
                &&& forall|j: int| 0 <= j < i && #[trigger] chroma_candidate_eligible(candidates@, allow_bdpcm, j)
                    ==> best_key < chroma_candidate_key(candidates@, scores@, j)
            },
        decreases candidates@.len() - index,
    {
        let (use_bdpcm, _, syntax_penalty) = candidates[index];
        proof {
            assert(chroma_candidate_eligible(candidates@, allow_bdpcm, index as int) == (allow_bdpcm || !use_bdpcm));
        }
        if allow_bdpcm || !use_bdpcm {
            proof {
                assert(chroma_candidate_key(candidates@, scores@, index as int) <= usize::MAX);
            }
            let key = scores[index] + syntax_penalty;
            let better = match best {
                None => true,
                Some(_) => key < best_key,
            };
            if better {
                best = Some(index);
                best_key = key;
            }
        }
        index = index + 1;
    }
    best
}

impl<'a> Av2LosslessSubsampledTileState<'a> {
    /// The intra mode of the default mode decision on a plane: DC for luma,
    /// horizontal for chroma.
    pub open spec fn default_mode_spec(plane: Av2LosslessPlane) -> Av2ChromaIntraMode {
        if plane == Av2LosslessPlane::Y {
            Av2ChromaIntraMode::Dc
        } else {
            Av2ChromaIntraMode::Horizontal
        }
    }

    /// Lossless coefficients of the block at `(x0, y0)` under the default
    /// mode decision (luma DC, chroma horizontal, no BDPCM or forward skip):
    /// the Walsh-Hadamard transform of the prediction residual against the
    /// reconstruction.
    pub fn tx4x4_coefficients(&self, plane: Av2LosslessPlane, x0: usize, y0: usize) -> (r: [i32; 16])
        requires
            self.block_in_plane(plane, x0 as int, y0 as int),
        ensures
            forall|i: int| 0 <= i < 16 ==> #[trigger] r[i] == fwht4x4_spec(Seq::new(
                16,
                |p: int| self.simple_intra_residual_spec(plane, x0 as int, y0 as int, Self::default_mode_spec(plane), Av2EdgeSource::Recon, p),
            ))[i],
    {
        let mode = if plane == Av2LosslessPlane::Y {
            Av2ChromaIntraMode::Dc
        } else {
            Av2ChromaIntraMode::Horizontal
        };
        let residual = self.simple_intra_residual4x4(plane, x0, y0, mode, Av2EdgeSource::Recon);
        proof {
            assert(residual@.map_values(|v: i32| v as int) =~= Seq::new(
                16,
                |p: int| self.simple_intra_residual_spec(plane, x0 as int, y0 as int, Self::default_mode_spec(plane), Av2EdgeSource::Recon, p),
            ));
        }
        av2_fwht4x4(&residual)
    }
}

/// First byte of sample `(x, y)` of a plane laid out by `p`, at `bps` bytes
/// per sample.
pub open spec fn sample_byte(p: Av2PlaneLayout, bps: int, x: int, y: int) -> int {
    (p.base + y * p.width + x) * bps
}

/// Byte `b` holds a sample of rows `y0..y_end`, columns `x0..x_end` of the
/// plane.
pub open spec fn byte_in_rect(p: Av2PlaneLayout, bps: int, x0: int, x_end: int, y0: int, y_end: int, b: int) -> bool {
    exists|y: int| y0 <= y < y_end && sample_byte(p, bps, x0, y) <= b < #[trigger] sample_byte(p, bps, x_end, y)
}

/// `new` is `old` with the bytes of the rectangle's samples taken from
/// `source`.
pub open spec fn rect_copied(
    old: Seq<u8>,
    new: Seq<u8>,
    source: Seq<u8>,
    p: Av2PlaneLayout,
    bps: int,
    x0: int,
    x_end: int,
    y0: int,
    y_end: int,
) -> bool {
    &&& new.len() == old.len()
    &&& forall|b: int| 0 <= b < new.len() ==> #[trigger] new[b] == (if byte_in_rect(p, bps, x0, x_end, y0, y_end, b) {
        source[b]
    } else {
        old[b]
    })
}

/// Adding row `y` to a rectangle adds exactly that row's bytes.
proof fn lemma_rect_extend(p: Av2PlaneLayout, bps: int, x0: int, x_end: int, y0: int, y: int, b: int)
    requires
        y0 <= y,
    ensures
        byte_in_rect(p, bps, x0, x_end, y0, y + 1, b) == (byte_in_rect(p, bps, x0, x_end, y0, y, b) || (sample_byte(p, bps, x0, y) <= b
            < sample_byte(p, bps, x_end, y))),
{
    if byte_in_rect(p, bps, x0, x_end, y0, y + 1, b) {
        let w = choose|w: int| y0 <= w < y + 1 && sample_byte(p, bps, x0, w) <= b < #[trigger] sample_byte(p, bps, x_end, w);
        if w < y {
            assert(y0 <= w < y && sample_byte(p, bps, x0, w) <= b < sample_byte(p, bps, x_end, w));
        }
    }
    if sample_byte(p, bps, x0, y) <= b < sample_byte(p, bps, x_end, y) {
        assert(y0 <= y < y + 1 && sample_byte(p, bps, x0, y) <= b < sample_byte(p, bps, x_end, y));
    }
    if byte_in_rect(p, bps, x0, x_end, y0, y, b) {
        let w = choose|w: int| y0 <= w < y && sample_byte(p, bps, x0, w) <= b < #[trigger] sample_byte(p, bps, x_end, w);
        assert(y0 <= w < y + 1 && sample_byte(p, bps, x0, w) <= b < sample_byte(p, bps, x_end, w));
    }
}

/// A rectangle with no columns holds no byte.
proof fn lemma_rect_empty_columns(p: Av2PlaneLayout, bps: int, x0: int, x_end: int, y0: int, y_end: int, b: int)
    requires
        x_end <= x0,
        bps == 1 || bps == 2,
    ensures
        !byte_in_rect(p, bps, x0, x_end, y0, y_end, b),
{
    if byte_in_rect(p, bps, x0, x_end, y0, y_end, b) {
        let y = choose|y: int| y0 <= y < y_end && sample_byte(p, bps, x0, y) <= b < #[trigger] sample_byte(p, bps, x_end, y);
        assert(sample_byte(p, bps, x_end, y) <= sample_byte(p, bps, x0, y)) by (nonlinear_arith)
            requires
                x_end <= x0,
                bps == 1 || bps == 2,
                sample_byte(p, bps, x_end, y) == (p.base + y * p.width + x_end) * bps,
                sample_byte(p, bps, x0, y) == (p.base + y * p.width + x0) * bps,
        ;
    }
}

/// A sample of a copied rectangle reads as the source's.
pub proof fn lemma_rect_copied_sample(
    old: Seq<u8>,
    new: Seq<u8>,
    source: Seq<u8>,
    p: Av2PlaneLayout,
    bps: int,
    x0: int,
    x_end: int,
    y0: int,
    y_end: int,
    x: int,
    y: int,
)
    requires
        rect_copied(old, new, source, p, bps, x0, x_end, y0, y_end),
        bps == 1 || bps == 2,
        x0 <= x < x_end,
        y0 <= y < y_end,
        0 <= p.index_spec(x, y),
        (p.index_spec(x, y) + 1) * bps <= new.len(),
    ensures
        read_sample_spec(new, p.index_spec(x, y), bps) == read_sample_spec(source, p.index_spec(x, y), bps),
{
    let i = p.index_spec(x, y);
    assert(sample_byte(p, bps, x, y) == i * bps);
    assert(sample_byte(p, bps, x0, y) <= i * bps) by (nonlinear_arith)
        requires
            x0 <= x,
            bps == 1 || bps == 2,
            i == p.base + y * p.width + x,
    ;
    assert(i * bps + bps <= sample_byte(p, bps, x_end, y)) by (nonlinear_arith)
        requires
            x < x_end,
            bps == 1 || bps == 2,
            i == p.base + y * p.width + x,
    ;
    if bps == 1 {
        assert(byte_in_rect(p, bps, x0, x_end, y0, y_end, i));
        assert(new[i] == source[i]);
    } else {
        assert(byte_in_rect(p, bps, x0, x_end, y0, y_end, 2 * i));
        assert(byte_in_rect(p, bps, x0, x_end, y0, y_end, 2 * i + 1));
        assert(new[2 * i] == source[2 * i]);
        assert(new[2 * i + 1] == source[2 * i + 1]);
    }
}

impl<'a> Av2LosslessSubsampledTileState<'a> {
    /// Copies source bytes `lo..hi` into the reconstruction.
    fn copy_source_bytes(&mut self, lo: usize, hi: usize)
        requires
            lo <= hi <= old(self).recon_view().len(),
        ensures
            final(self).recon_view().len() == old(self).recon_view().len(),
            forall|b: int| 0 <= b < final(self).recon_view().len() ==> #[trigger] final(self).recon_view()[b] == (if lo <= b < hi {
                old(self).source_view()[b]
            } else {
                old(self).recon_view()[b]
            }),
            final(self).layout_view() == old(self).layout_view(),
            final(self).bit_depth_view() == old(self).bit_depth_view(),
            final(self).chroma_format_view() == old(self).chroma_format_view(),
            final(self).mode_search_view() == old(self).mode_search_view(),
            final(self).source_view() == old(self).source_view(),
            final(self).source_backed() == old(self).source_backed(),
    {
        proof {
            use_type_invariant(&*self);
        }
        let ghost pre = self.recon@;
        let mut b = lo;
        while b < hi
            invariant
                lo <= b <= hi,
                hi <= self.recon@.len(),
                self.recon@.len() == pre.len(),
                self.source@.len() == self.recon@.len() || self.recon@.len() == 0,
                forall|k: int| 0 <= k < self.recon@.len() ==> #[trigger] self.recon@[k] == (if lo <= k < b { self.source@[k] } else { pre[k] }),
                self.source == old(self).source,
                self.layout == old(self).layout,
                self.bit_depth == old(self).bit_depth,
                self.chroma_format == old(self).chroma_format,
                self.mode_search == old(self).mode_search,
                self.source_backed_recon == old(self).source_backed_recon,
            decreases hi - b,
        {
            proof {
                use_type_invariant(&*self);
            }
            let byte = self.source[b];
            self.recon[b] = byte;
            b = b + 1;
        }
    }

    /// Copies the source samples of the 4x4 block at `(x0, y0)` (clipped to
    /// the plane) into the reconstruction; nothing to copy when the
    /// reconstruction reads the source.
    pub fn copy_source_to_recon_txb(&mut self, plane: Av2LosslessPlane, x0: usize, y0: usize)
        requires
            !old(self).source_backed() ==> y0 + TX4X4_SIZE <= usize::MAX,
        ensures
            final(self).layout_view() == old(self).layout_view(),
            final(self).bit_depth_view() == old(self).bit_depth_view(),
            final(self).source_view() == old(self).source_view(),
            final(self).source_backed() == old(self).source_backed(),
            final(self).mode_search_view() == old(self).mode_search_view(),
            final(self).chroma_format_view() == old(self).chroma_format_view(),
            old(self).source_backed() ==> final(self).recon_view() == old(self).recon_view(),
            !old(self).source_backed() ==> rect_copied(
                old(self).recon_view(),
                final(self).recon_view(),
                old(self).source_view(),
                old(self).plane_spec(plane),
                bytes_per_sample_spec(old(self).bit_depth_view()@),
                x0 as int,
                x0 + min_int(TX4X4_SIZE as int, old(self).plane_spec(plane).width - x0),
                y0 as int,
                min_int(y0 + TX4X4_SIZE, old(self).plane_spec(plane).height as int),
            ),
            forall|x: int, y: int|
                x0 <= x < x0 + min_int(TX4X4_SIZE as int, old(self).plane_spec(plane).width - x0) && y0 <= y < min_int(
                    y0 + TX4X4_SIZE,
                    old(self).plane_spec(plane).height as int,
                ) ==> #[trigger] final(self).recon_sample_spec(plane, x, y) == old(self).source_sample_spec(plane, x, y),
    {
        proof {
            use_type_invariant(&*self);
        }
        if self.source_backed_recon {
            return;
        }
        let ghost pre = self.recon@;
        let ghost p = self.plane_spec(plane);
        let ghost bps_spec = bytes_per_sample_spec(self.bit_depth@);
        let (plane_width, plane_height) = self.plane_geometry(plane);
        let bytes_per_sample = self.bit_depth.bytes_per_sample();
        if x0 >= plane_width {
            proof {
                let x_end = x0 + min_int(TX4X4_SIZE as int, plane_width - x0);
                assert forall|b: int| 0 <= b < pre.len() implies #[trigger] pre[b] == (if byte_in_rect(
                    p,
                    bps_spec,
                    x0 as int,
                    x_end,
                    y0 as int,
                    min_int(y0 + TX4X4_SIZE, plane_height as int),
                    b,
                ) {
                    self.source@[b]
                } else {
                    pre[b]
                }) by {
                    lemma_rect_empty_columns(p, bps_spec, x0 as int, x_end, y0 as int, min_int(y0 + TX4X4_SIZE, plane_height as int), b);
                }
            }
            return;
        }
        let row_samples = if TX4X4_SIZE < plane_width - x0 { TX4X4_SIZE } else { plane_width - x0 };
        let y_end = if y0 + TX4X4_SIZE < plane_height { y0 + TX4X4_SIZE } else { plane_height };
        let mut y = y0;
        while y < y0 + TX4X4_SIZE
            invariant
                y0 <= y <= y0 + TX4X4_SIZE,
                y0 + TX4X4_SIZE <= usize::MAX,
                !self.source_backed_recon,
                self.layout == old(self).layout,
                self.bit_depth == old(self).bit_depth,
                self.source == old(self).source,
                self.chroma_format == old(self).chroma_format,
                self.mode_search == old(self).mode_search,
                self.source_backed_recon == old(self).source_backed_recon,
                pre == old(self).recon@,
                p == self.plane_spec(plane),
                bps_spec == bytes_per_sample_spec(self.bit_depth@),
                bytes_per_sample == bps_spec,
                bytes_per_sample == 1 || bytes_per_sample == 2,
                plane_width == p.width,
                plane_height == p.height,
                x0 < plane_width,
                row_samples == min_int(TX4X4_SIZE as int, plane_width - x0),
                y_end == min_int(y0 + TX4X4_SIZE, plane_height as int),
                rect_copied(pre, self.recon@, self.source@, p, bps_spec, x0 as int, x0 + row_samples, y0 as int, min_int(y as int, y_end as int)),
            decreases y0 + TX4X4_SIZE - y,
        {
            proof {
                use_type_invariant(&*self);
            }
            if y < plane_height {
                let index = self.offset(plane, x0, y);
                proof {
                    assert(index * bytes_per_sample <= self.layout.total_samples * bytes_per_sample) by (nonlinear_arith)
                        requires
                            index < self.layout.total_samples,
                            bytes_per_sample == 1 || bytes_per_sample == 2,
                    ;
                }
                let offset = index * bytes_per_sample;
                let row_bytes = row_samples * bytes_per_sample;
                proof {
                    crate::planar_layout::lemma_index_in_plane(x0 as int, y as int, p.width as int, p.height as int);
                    assert(p.base + p.width * p.height <= self.layout.total_samples);
                    assert(offset + row_bytes <= self.recon@.len()) by (nonlinear_arith)
                        requires
                            offset == (p.base + y * p.width + x0) * bytes_per_sample,
                            row_bytes == row_samples * bytes_per_sample,
                            x0 + row_samples <= p.width,
                            y * p.width + p.width <= p.width * p.height,
                            p.base + p.width * p.height <= self.layout.total_samples,
                            self.recon@.len() == self.layout.total_samples * bytes_per_sample,
                            bytes_per_sample == 1 || bytes_per_sample == 2,
                    ;
                    assert(offset == sample_byte(p, bps_spec, x0 as int, y as int));
                    assert(offset + row_bytes == (p.base + y * p.width + x0 + row_samples) * bytes_per_sample) by (nonlinear_arith)
                        requires
                            offset == (p.base + y * p.width + x0) * bytes_per_sample,
                            row_bytes == row_samples * bytes_per_sample,
                    ;
                    assert(offset + row_bytes == sample_byte(p, bps_spec, x0 + row_samples, y as int));
                }
                let ghost mid = self.recon@;
                self.copy_source_bytes(offset, offset + row_bytes);
                proof {
                    assert forall|b: int| 0 <= b < self.recon@.len() implies #[trigger] self.recon@[b] == (if byte_in_rect(
                        p,
                        bps_spec,
                        x0 as int,
                        x0 + row_samples,
                        y0 as int,
                        y + 1,
                        b,
                    ) {
                        self.source@[b]
                    } else {
                        pre[b]
                    }) by {
                        lemma_rect_extend(p, bps_spec, x0 as int, x0 + row_samples, y0 as int, y as int, b);
                        assert(mid[b] == (if byte_in_rect(p, bps_spec, x0 as int, x0 + row_samples, y0 as int, y as int, b) {
                            self.source@[b]
                        } else {
                            pre[b]
                        }));
                    }
                }
            } else {
                proof {
                    assert(min_int(y as int, y_end as int) == min_int(y + 1, y_end as int));
                }
            }
            y = y + 1;
        }
        proof {
            assert forall|x: int, yy: int|
                x0 <= x < x0 + row_samples && y0 <= yy < y_end implies #[trigger] self.recon_sample_spec(plane, x, yy) == self.source_sample_spec(
                plane,
                x,
                yy,
            ) by {
                crate::planar_layout::lemma_index_in_plane(x, yy, p.width as int, p.height as int);
                assert(p.base + p.width * p.height <= self.layout.total_samples);
                assert((p.index_spec(x, yy) + 1) * bps_spec <= self.recon@.len()) by (nonlinear_arith)
                    requires
                        p.index_spec(x, yy) == p.base + yy * p.width + x,
                        yy * p.width + x < p.width * p.height,
                        p.base + p.width * p.height <= self.layout.total_samples,
                        self.recon@.len() == self.layout.total_samples * bps_spec,
                        bps_spec == 1 || bps_spec == 2,
                ;
                lemma_rect_copied_sample(pre, self.recon@, self.source@, p, bps_spec, x0 as int, x0 + row_samples, y0 as int, y_end as int, x, yy);
            }
        }
    }
}

/// Byte `b` holds a sample of the 4x4 block at `(x0, y0)`, clipped to the
/// plane.
pub open spec fn txb_byte(p: Av2PlaneLayout, bps: int, x0: int, y0: int, b: int) -> bool {
    byte_in_rect(
        p,
        bps,
        x0,
        x0 + min_int(TX4X4_SIZE as int, p.width - x0),
        y0,
        min_int(y0 + TX4X4_SIZE, p.height as int),
        b,
    )
}

/// Byte `b` holds a sample of block `(r, c)` of the grid of 4x4 blocks whose
/// first block is block `(row0, col0)` of the tile.
pub open spec fn grid_txb_byte(p: Av2PlaneLayout, bps: int, col0: int, row0: int, r: int, c: int, b: int) -> bool {
    txb_byte(p, bps, p.origin_x + (col0 + c) * TX4X4_SIZE, p.origin_y + (row0 + r) * TX4X4_SIZE, b)
}

/// Byte `b` holds a sample of one of the grid's blocks that come before
/// block `(row, col)` in raster order.
pub open spec fn grid_prefix_byte(
    p: Av2PlaneLayout,
    bps: int,
    col0: int,
    row0: int,
    cols: int,
    rows: int,
    row: int,
    col: int,
    b: int,
) -> bool {
    exists|r: int, c: int|
        0 <= r < rows && 0 <= c < cols && (r < row || (r == row && c < col)) && #[trigger] grid_txb_byte(p, bps, col0, row0, r, c, b)
}

/// Byte `b` holds a sample of one of the `rows` by `cols` blocks of the grid.
pub open spec fn grid_byte(p: Av2PlaneLayout, bps: int, col0: int, row0: int, cols: int, rows: int, b: int) -> bool {
    grid_prefix_byte(p, bps, col0, row0, cols, rows, rows, 0, b)
}

/// Taking the next block of a row adds exactly its bytes.
proof fn lemma_grid_prefix_step(p: Av2PlaneLayout, bps: int, col0: int, row0: int, cols: int, rows: int, r: int, c: int, b: int)
    requires
        0 <= r < rows,
        0 <= c < cols,
    ensures
        grid_prefix_byte(p, bps, col0, row0, cols, rows, r, c + 1, b) == (grid_prefix_byte(p, bps, col0, row0, cols, rows, r, c, b)
            || grid_txb_byte(p, bps, col0, row0, r, c, b)),
{
    if grid_prefix_byte(p, bps, col0, row0, cols, rows, r, c + 1, b) {
        let (rr, cc) = choose|rr: int, cc: int|
            0 <= rr < rows && 0 <= cc < cols && (rr < r || (rr == r && cc < c + 1)) && #[trigger] grid_txb_byte(p, bps, col0, row0, rr, cc, b);
        if !(rr == r && cc == c) {
            assert(0 <= rr < rows && 0 <= cc < cols && (rr < r || (rr == r && cc < c)) && grid_txb_byte(p, bps, col0, row0, rr, cc, b));
        }
    }
    if grid_prefix_byte(p, bps, col0, row0, cols, rows, r, c, b) {
        let (rr, cc) = choose|rr: int, cc: int|
            0 <= rr < rows && 0 <= cc < cols && (rr < r || (rr == r && cc < c)) && #[trigger] grid_txb_byte(p, bps, col0, row0, rr, cc, b);
        assert(0 <= rr < rows && 0 <= cc < cols && (rr < r || (rr == r && cc < c + 1)) && grid_txb_byte(p, bps, col0, row0, rr, cc, b));
    }
    if grid_txb_byte(p, bps, col0, row0, r, c, b) {
        assert(0 <= r < rows && 0 <= c < cols && (r < r || (r == r && c < c + 1)) && grid_txb_byte(p, bps, col0, row0, r, c, b));
    }
}

/// A finished row of blocks is the start of the next row.
proof fn lemma_grid_prefix_row(p: Av2PlaneLayout, bps: int, col0: int, row0: int, cols: int, rows: int, r: int, b: int)
    ensures
        grid_prefix_byte(p, bps, col0, row0, cols, rows, r, cols, b) == grid_prefix_byte(p, bps, col0, row0, cols, rows, r + 1, 0, b),
{
    if grid_prefix_byte(p, bps, col0, row0, cols, rows, r, cols, b) {
        let (rr, cc) = choose|rr: int, cc: int|
            0 <= rr < rows && 0 <= cc < cols && (rr < r || (rr == r && cc < cols)) && #[trigger] grid_txb_byte(p, bps, col0, row0, rr, cc, b);
        assert(0 <= rr < rows && 0 <= cc < cols && (rr < r + 1 || (rr == r + 1 && cc < 0)) && grid_txb_byte(p, bps, col0, row0, rr, cc, b));
    }
    if grid_prefix_byte(p, bps, col0, row0, cols, rows, r + 1, 0, b) {
        let (rr, cc) = choose|rr: int, cc: int|
            0 <= rr < rows && 0 <= cc < cols && (rr < r + 1 || (rr == r + 1 && cc < 0)) && #[trigger] grid_txb_byte(p, bps, col0, row0, rr, cc, b);
        assert(0 <= rr < rows && 0 <= cc < cols && (rr < r || (rr == r && cc < cols)) && grid_txb_byte(p, bps, col0, row0, rr, cc, b));
    }
}

/// A sample of the grid's region, clipped to the plane, reads the same in
/// two buffers that agree on every byte of the grid.
pub proof fn lemma_grid_sample(
    new: Seq<u8>,
    source: Seq<u8>,
    p: Av2PlaneLayout,
    bps: int,
    total: int,
    col0: int,
    row0: int,
    cols: int,
    rows: int,
    x: int,
    y: int,
)
    requires
        bps == 1 || bps == 2,
        new.len() == total * bps,
        p.base + p.width * p.height <= total,
        forall|b: int| 0 <= b < new.len() && #[trigger] grid_byte(p, bps, col0, row0, cols, rows, b) ==> new[b] == source[b],
        0 <= col0,
        0 <= row0,
        p.origin_x + col0 * TX4X4_SIZE <= x < p.width,
        x < p.origin_x + (col0 + cols) * TX4X4_SIZE,
        p.origin_y + row0 * TX4X4_SIZE <= y < p.height,
        y < p.origin_y + (row0 + rows) * TX4X4_SIZE,
    ensures
        read_sample_spec(new, p.index_spec(x, y), bps) == read_sample_spec(source, p.index_spec(x, y), bps),
{
    let c = (x - p.origin_x - col0 * TX4X4_SIZE) / 4;
    let r = (y - p.origin_y - row0 * TX4X4_SIZE) / 4;
    let x0 = p.origin_x + (col0 + c) * TX4X4_SIZE;
    let y0 = p.origin_y + (row0 + r) * TX4X4_SIZE;
    assert(0 <= c < cols && x0 <= x < x0 + 4) by (nonlinear_arith)
        requires
            c == (x - p.origin_x - col0 * 4) / 4,
            x0 == p.origin_x + (col0 + c) * 4,
            p.origin_x + col0 * 4 <= x < p.origin_x + (col0 + cols) * 4,
    ;
    assert(0 <= r < rows && y0 <= y < y0 + 4) by (nonlinear_arith)
        requires
            r == (y - p.origin_y - row0 * 4) / 4,
            y0 == p.origin_y + (row0 + r) * 4,
            p.origin_y + row0 * 4 <= y < p.origin_y + (row0 + rows) * 4,
    ;
    let x_end = x0 + min_int(TX4X4_SIZE as int, p.width - x0);
    let y_end = min_int(y0 + TX4X4_SIZE, p.height as int);
    assert forall|b: int| 0 <= b < new.len() implies #[trigger] new[b] == (if byte_in_rect(p, bps, x0, x_end, y0, y_end, b) {
        source[b]
    } else {
        new[b]
    }) by {
        if byte_in_rect(p, bps, x0, x_end, y0, y_end, b) {
            assert(grid_txb_byte(p, bps, col0, row0, r, c, b));
            assert(grid_byte(p, bps, col0, row0, cols, rows, b));
        }
    }
    crate::planar_layout::lemma_index_in_plane(x, y, p.width as int, p.height as int);
    assert((p.index_spec(x, y) + 1) * bps <= new.len()) by (nonlinear_arith)
        requires
            p.index_spec(x, y) == p.base + y * p.width + x,
            y * p.width + x < p.width * p.height,
            p.base + p.width * p.height <= total,
            new.len() == total * bps,
            bps == 1 || bps == 2,
    ;
    lemma_rect_copied_sample(new, new, source, p, bps, x0, x_end, y0, y_end, x, y);
}

impl<'a> Av2LosslessSubsampledTileState<'a> {
    /// Copies the source samples of a `rows` by `cols` grid of 4x4 blocks,
    /// starting at block `(row0, col0)` of the tile, into the
    /// reconstruction, block by block in raster order.
    fn copy_source_to_recon_grid(&mut self, plane: Av2LosslessPlane, col0: usize, row0: usize, cols: usize, rows: usize)
        requires
            old(self).plane_spec(plane).origin_x + (col0 + cols) * TX4X4_SIZE <= usize::MAX,
            old(self).plane_spec(plane).origin_y + (row0 + rows) * TX4X4_SIZE <= usize::MAX,
        ensures
            final(self).layout_view() == old(self).layout_view(),
            final(self).bit_depth_view() == old(self).bit_depth_view(),
            final(self).source_view() == old(self).source_view(),
            final(self).source_backed() == old(self).source_backed(),
            final(self).mode_search_view() == old(self).mode_search_view(),
            final(self).chroma_format_view() == old(self).chroma_format_view(),
            old(self).source_backed() ==> final(self).recon_view() == old(self).recon_view(),
            !old(self).source_backed() ==> final(self).recon_view().len() == old(self).recon_view().len(),
            !old(self).source_backed() ==> forall|b: int| 0 <= b < final(self).recon_view().len() ==> #[trigger] final(self).recon_view()[b]
                == (if grid_byte(
                old(self).plane_spec(plane),
                bytes_per_sample_spec(old(self).bit_depth_view()@),
                col0 as int,
                row0 as int,
                cols as int,
                rows as int,
                b,
            ) {
                old(self).source_view()[b]
            } else {
                old(self).recon_view()[b]
            }),
    {
        let ghost pre = self.recon_view();
        let ghost p = self.plane_spec(plane);
        let ghost bps = bytes_per_sample_spec(self.bit_depth_view()@);
        let ghost sb = self.source_backed();
        let mut r: usize = 0;
        while r < rows
            invariant
                r <= rows,
                p == old(self).plane_spec(plane),
                bps == bytes_per_sample_spec(old(self).bit_depth_view()@),
                sb == old(self).source_backed(),
                pre == old(self).recon_view(),
                self.layout_view() == old(self).layout_view(),
                self.bit_depth_view() == old(self).bit_depth_view(),
                self.source_view() == old(self).source_view(),
                self.source_backed() == old(self).source_backed(),
                self.mode_search_view() == old(self).mode_search_view(),
                self.chroma_format_view() == old(self).chroma_format_view(),
                p.origin_x + (col0 + cols) * TX4X4_SIZE <= usize::MAX,
                p.origin_y + (row0 + rows) * TX4X4_SIZE <= usize::MAX,
                sb ==> self.recon_view() == pre,
                !sb ==> self.recon_view().len() == pre.len(),
                !sb ==> forall|b: int| 0 <= b < self.recon_view().len() ==> #[trigger] self.recon_view()[b] == (if grid_prefix_byte(
                    p,
                    bps,
                    col0 as int,
                    row0 as int,
                    cols as int,
                    rows as int,
                    r as int,
                    0,
                    b,
                ) {
                    self.source_view()[b]
                } else {
                    pre[b]
                }),
            decreases rows - r,
        {
            let mut c: usize = 0;
            while c < cols
                invariant
                    r < rows,
                    c <= cols,
                    p == old(self).plane_spec(plane),
                    bps == bytes_per_sample_spec(old(self).bit_depth_view()@),
                    sb == old(self).source_backed(),
                    pre == old(self).recon_view(),
                    self.layout_view() == old(self).layout_view(),
                    self.bit_depth_view() == old(self).bit_depth_view(),
                    self.source_view() == old(self).source_view(),
                    self.source_backed() == old(self).source_backed(),
                    self.mode_search_view() == old(self).mode_search_view(),
                    self.chroma_format_view() == old(self).chroma_format_view(),
                    p.origin_x + (col0 + cols) * TX4X4_SIZE <= usize::MAX,
                    p.origin_y + (row0 + rows) * TX4X4_SIZE <= usize::MAX,
                    sb ==> self.recon_view() == pre,
                    !sb ==> self.recon_view().len() == pre.len(),
                    !sb ==> forall|b: int| 0 <= b < self.recon_view().len() ==> #[trigger] self.recon_view()[b] == (if grid_prefix_byte(
                        p,
                        bps,
                        col0 as int,
                        row0 as int,
                        cols as int,
                        rows as int,
                        r as int,
                        c as int,
                        b,
                    ) {
                        self.source_view()[b]
                    } else {
                        pre[b]
                    }),
                decreases cols - c,
            {
                proof {
                    assert((col0 + c) * TX4X4_SIZE <= (col0 + cols) * TX4X4_SIZE) by (nonlinear_arith)
                        requires
                            c < cols,
                    ;
                    assert((row0 + r) * TX4X4_SIZE + TX4X4_SIZE <= (row0 + rows) * TX4X4_SIZE) by (nonlinear_arith)
                        requires
                            r < rows,
                    ;
                }
                let (x0, y0) = self.txb_origin(plane, col0 + c, row0 + r);
                let ghost mid = self.recon_view();
                self.copy_source_to_recon_txb(plane, x0, y0);
                proof {
                    if !sb {
                        assert forall|b: int| 0 <= b < self.recon_view().len() implies #[trigger] self.recon_view()[b] == (if grid_prefix_byte(
                            p,
                            bps,
                            col0 as int,
                            row0 as int,
                            cols as int,
                            rows as int,
                            r as int,
                            c + 1,
                            b,
                        ) {
                            self.source_view()[b]
                        } else {
                            pre[b]
                        }) by {
                            lemma_grid_prefix_step(p, bps, col0 as int, row0 as int, cols as int, rows as int, r as int, c as int, b);
                            assert(mid[b] == (if grid_prefix_byte(p, bps, col0 as int, row0 as int, cols as int, rows as int, r as int, c as int, b) {
                                self.source_view()[b]
                            } else {
                                pre[b]
                            }));
                            assert(grid_txb_byte(p, bps, col0 as int, row0 as int, r as int, c as int, b) == txb_byte(p, bps, x0 as int, y0 as int, b));
                        }
                    }
                }
                c = c + 1;
            }
            proof {
                if !sb {
                    assert forall|b: int| 0 <= b < self.recon_view().len() implies #[trigger] self.recon_view()[b] == (if grid_prefix_byte(
                        p,
                        bps,
                        col0 as int,
                        row0 as int,
                        cols as int,
                        rows as int,
                        r + 1,
                        0,
                        b,
                    ) {
                        self.source_view()[b]
                    } else {
                        pre[b]
                    }) by {
                        lemma_grid_prefix_row(p, bps, col0 as int, row0 as int, cols as int, rows as int, r as int, b);
                    }
                }
            }
            r = r + 1;
        }
    }
}

/// Number of 4x4 blocks a leaf spans along one axis: its own size, cut at
/// the visible part of the tile.
pub open spec fn leaf_txb_span(start_mi: int, size: int, visible_mi: int) -> int {
    min_int(size / 4, if visible_mi > start_mi { visible_mi - start_mi } else { 0 })
}

/// The sample coordinates of a grid of `cols` by `rows` 4x4 blocks starting
/// at block `(col0, row0)` of the tile stay within `usize`.
pub open spec fn grid_fits(p: Av2PlaneLayout, col0: int, row0: int, cols: int, rows: int) -> bool {
    &&& p.origin_x + (col0 + cols) * TX4X4_SIZE <= usize::MAX
    &&& p.origin_y + (row0 + rows) * TX4X4_SIZE <= usize::MAX
}

/// `(x, y)` is a sample of the grid's region, clipped to the plane.
pub open spec fn in_grid_region(p: Av2PlaneLayout, col0: int, row0: int, cols: int, rows: int, x: int, y: int) -> bool {
    &&& p.origin_x + col0 * TX4X4_SIZE <= x < p.width
    &&& x < p.origin_x + (col0 + cols) * TX4X4_SIZE
    &&& p.origin_y + row0 * TX4X4_SIZE <= y < p.height
    &&& y < p.origin_y + (row0 + rows) * TX4X4_SIZE
}

impl<'a> Av2LosslessSubsampledTileState<'a> {
    /// Byte `b` holds a sample of the leaf: of its luma 4x4 blocks, or of
    /// the chroma 4x4 blocks of `chroma_span` in either chroma plane.
    pub open spec fn leaf_byte(
        &self,
        row_mi: int,
        col_mi: int,
        block_size: Av2MvpBlockSize,
        visible_rows_mi: int,
        visible_cols_mi: int,
        chroma_span: Av2ChromaTx4x4Span,
        b: int,
    ) -> bool {
        let bps = bytes_per_sample_spec(self.bit_depth_view()@);
        ||| grid_byte(
            self.plane_spec(Av2LosslessPlane::Y),
            bps,
            col_mi,
            row_mi,
            leaf_txb_span(col_mi, block_size.width as int, visible_cols_mi),
            leaf_txb_span(row_mi, block_size.height as int, visible_rows_mi),
            b,
        )
        ||| grid_byte(
            self.plane_spec(Av2LosslessPlane::U),
            bps,
            chroma_span.col as int,
            chroma_span.row as int,
            chroma_span.width as int,
            chroma_span.height as int,
            b,
        )
        ||| grid_byte(
            self.plane_spec(Av2LosslessPlane::V),
            bps,
            chroma_span.col as int,
            chroma_span.row as int,
            chroma_span.width as int,
            chroma_span.height as int,
            b,
        )
    }

    /// Every sample of the reconstruction that a lossless leaf covers equals
    /// the source sample: its luma 4x4 blocks and its chroma blocks
    /// `chroma_span` in both chroma planes, each clipped to the plane.
    pub open spec fn leaf_reconstructed(
        &self,
        row_mi: int,
        col_mi: int,
        block_size: Av2MvpBlockSize,
        visible_rows_mi: int,
        visible_cols_mi: int,
        chroma_span: Av2ChromaTx4x4Span,
    ) -> bool {
        let cols = leaf_txb_span(col_mi, block_size.width as int, visible_cols_mi);
        let rows = leaf_txb_span(row_mi, block_size.height as int, visible_rows_mi);
        &&& forall|x: int, y: int| #[trigger] in_grid_region(self.plane_spec(Av2LosslessPlane::Y), col_mi, row_mi, cols, rows, x, y)
            ==> self.recon_sample_spec(Av2LosslessPlane::Y, x, y) == self.source_sample_spec(Av2LosslessPlane::Y, x, y)
        &&& forall|plane: Av2LosslessPlane, x: int, y: int| plane != Av2LosslessPlane::Y && #[trigger] in_grid_region(
            self.plane_spec(plane),
            chroma_span.col as int,
            chroma_span.row as int,
            chroma_span.width as int,
            chroma_span.height as int,
            x,
            y,
        ) ==> self.recon_sample_spec(plane, x, y) == self.source_sample_spec(plane, x, y)
    }

    /// `after` is `before` with the leaf's source samples copied into the
    /// reconstruction: the bytes of the leaf's blocks taken from the source,
    /// every other byte and all the rest of the state unchanged; nothing
    /// changes when the reconstruction reads the source.
    pub open spec fn leaf_copied(
        before: Self,
        after: Self,
        row_mi: int,
        col_mi: int,
        block_size: Av2MvpBlockSize,
        visible_rows_mi: int,
        visible_cols_mi: int,
        chroma_span: Av2ChromaTx4x4Span,
    ) -> bool {
        &&& after.layout_view() == before.layout_view()
        &&& after.bit_depth_view() == before.bit_depth_view()
        &&& after.source_view() == before.source_view()
        &&& after.source_backed() == before.source_backed()
        &&& after.mode_search_view() == before.mode_search_view()
        &&& after.chroma_format_view() == before.chroma_format_view()
        &&& before.source_backed() ==> after.recon_view() == before.recon_view()
        &&& !before.source_backed() ==> after.recon_view().len() == before.recon_view().len()
        &&& !before.source_backed() ==> forall|b: int| 0 <= b < after.recon_view().len() ==> #[trigger] after.recon_view()[b] == (if before.leaf_byte(
            row_mi,
            col_mi,
            block_size,
            visible_rows_mi,
            visible_cols_mi,
            chroma_span,
            b,
        ) {
            before.source_view()[b]
        } else {
            before.recon_view()[b]
        })
    }

    /// Copying a leaf's source samples twice leaves the reconstruction as
    /// copying them once.
    pub proof fn lemma_leaf_copy_idempotent(
        s0: Self,
        s1: Self,
        s2: Self,
        row_mi: int,
        col_mi: int,
        block_size: Av2MvpBlockSize,
        visible_rows_mi: int,
        visible_cols_mi: int,
        chroma_span: Av2ChromaTx4x4Span,
    )
        requires
            Self::leaf_copied(s0, s1, row_mi, col_mi, block_size, visible_rows_mi, visible_cols_mi, chroma_span),
            Self::leaf_copied(s1, s2, row_mi, col_mi, block_size, visible_rows_mi, visible_cols_mi, chroma_span),
        ensures
            s2.recon_view() == s1.recon_view(),
    {
        if !s0.source_backed() {
            assert forall|b: int| 0 <= b < s2.recon_view().len() implies s2.recon_view()[b] == s1.recon_view()[b] by {
                assert(s1.leaf_byte(row_mi, col_mi, block_size, visible_rows_mi, visible_cols_mi, chroma_span, b) == s0.leaf_byte(
                    row_mi,
                    col_mi,
                    block_size,
                    visible_rows_mi,
                    visible_cols_mi,
                    chroma_span,
                    b,
                ));
            }
            assert(s2.recon_view() =~= s1.recon_view());
        }
    }

    /// Copies the source samples of a leaf into the reconstruction: its
    /// luma 4x4 blocks, cut at the visible part of the tile, then the chroma
    /// 4x4 blocks `chroma_span` of the U and V planes; nothing to copy when
    /// the reconstruction reads the source. Afterwards the leaf reconstructs
    /// exactly.
    pub fn copy_source_to_recon_leaf(
        &mut self,
        row_mi: usize,
        col_mi: usize,
        block_size: Av2MvpBlockSize,
        visible_rows_mi: usize,
        visible_cols_mi: usize,
        chroma_span: Av2ChromaTx4x4Span,
    )
        requires
            grid_fits(
                old(self).plane_spec(Av2LosslessPlane::Y),
                col_mi as int,
                row_mi as int,
                leaf_txb_span(col_mi as int, block_size.width as int, visible_cols_mi as int),
                leaf_txb_span(row_mi as int, block_size.height as int, visible_rows_mi as int),
            ),
            grid_fits(
                old(self).plane_spec(Av2LosslessPlane::U),
                chroma_span.col as int,
                chroma_span.row as int,
                chroma_span.width as int,
                chroma_span.height as int,
            ),
            grid_fits(
                old(self).plane_spec(Av2LosslessPlane::V),
                chroma_span.col as int,
                chroma_span.row as int,
                chroma_span.width as int,
                chroma_span.height as int,
            ),
        ensures
            Self::leaf_copied(
                *old(self),
                *final(self),
                row_mi as int,
                col_mi as int,
                block_size,
                visible_rows_mi as int,
                visible_cols_mi as int,
                chroma_span,
            ),
            final(self).leaf_reconstructed(
                row_mi as int,
                col_mi as int,
                block_size,
                visible_rows_mi as int,
                visible_cols_mi as int,
                chroma_span,
            ),
    {
        proof {
            use_type_invariant(&*self);
        }
        let txb_width = min_usize(block_size.tx4x4_width(), visible_cols_mi.saturating_sub(col_mi));
        let txb_height = min_usize(block_size.tx4x4_height(), visible_rows_mi.saturating_sub(row_mi));
        let ghost pre = self.recon_view();
        self.copy_source_to_recon_grid(Av2LosslessPlane::Y, col_mi, row_mi, txb_width, txb_height);
        let ghost after_y = self.recon_view();
        self.copy_source_to_recon_grid(Av2LosslessPlane::U, chroma_span.col, chroma_span.row, chroma_span.width, chroma_span.height);
        let ghost after_u = self.recon_view();
        self.copy_source_to_recon_grid(Av2LosslessPlane::V, chroma_span.col, chroma_span.row, chroma_span.width, chroma_span.height);
        proof {
            use_type_invariant(&*self);
            let bps = bytes_per_sample_spec(self.bit_depth_view()@);
            let total = self.layout.total_samples as int;
            if !self.source_backed() {
                let new = self.recon_view();
                let src = self.source_view();
                assert forall|b: int| 0 <= b < new.len() implies #[trigger] new[b] == (if old(self).leaf_byte(
                    row_mi as int,
                    col_mi as int,
                    block_size,
                    visible_rows_mi as int,
                    visible_cols_mi as int,
                    chroma_span,
                    b,
                ) {
                    src[b]
                } else {
                    pre[b]
                }) by {
                    assert(after_u[b] == new[b] || grid_byte(self.plane_spec(Av2LosslessPlane::V), bps, chroma_span.col as int, chroma_span.row as int, chroma_span.width as int, chroma_span.height as int, b));
                    assert(after_y[b] == after_u[b] || grid_byte(self.plane_spec(Av2LosslessPlane::U), bps, chroma_span.col as int, chroma_span.row as int, chroma_span.width as int, chroma_span.height as int, b));
                }
                assert(new.len() == total * bps);
                let cols = leaf_txb_span(col_mi as int, block_size.width as int, visible_cols_mi as int);
                let rows = leaf_txb_span(row_mi as int, block_size.height as int, visible_rows_mi as int);
                assert(cols == txb_width && rows == txb_height);
                assert forall|x: int, y: int| #[trigger] in_grid_region(self.plane_spec(Av2LosslessPlane::Y), col_mi as int, row_mi as int, cols, rows, x, y)
                    implies self.recon_sample_spec(Av2LosslessPlane::Y, x, y) == self.source_sample_spec(Av2LosslessPlane::Y, x, y) by {
                    let p = self.plane_spec(Av2LosslessPlane::Y);
                    assert(p.base + p.width * p.height <= total);
                    lemma_grid_sample(new, src, p, bps, total, col_mi as int, row_mi as int, cols, rows, x, y);
                }
                assert forall|plane: Av2LosslessPlane, x: int, y: int| plane != Av2LosslessPlane::Y && #[trigger] in_grid_region(
                    self.plane_spec(plane),
                    chroma_span.col as int,
                    chroma_span.row as int,
                    chroma_span.width as int,
                    chroma_span.height as int,
                    x,
                    y,
                ) implies self.recon_sample_spec(plane, x, y) == self.source_sample_spec(plane, x, y) by {
                    let p = self.plane_spec(plane);
                    assert(p.base + p.width * p.height <= total);
                    lemma_grid_sample(
                        new,
                        src,
                        p,
                        bps,
                        total,
                        chroma_span.col as int,
                        chroma_span.row as int,
                        chroma_span.width as int,
                        chroma_span.height as int,
                        x,
                        y,
                    );
                }
            }
        }
    }
}

/// The tile's rectangle of a plane: from its origin to its region limit
/// clipped to the plane.
pub open spec fn tile_rect_end(p: Av2PlaneLayout) -> (int, int) {
    (min_int(p.limit_x as int, p.width as int), min_int(p.limit_y as int, p.height as int))
}

/// Byte `b` holds a sample of the tile's rectangle of plane `p`.
pub open spec fn byte_in_tile_rect(p: Av2PlaneLayout, bps: int, b: int) -> bool {
    byte_in_rect(p, bps, p.origin_x as int, tile_rect_end(p).0, p.origin_y as int, tile_rect_end(p).1, b)
}

impl<'a> Av2LosslessSubsampledTileState<'a> {
    /// Copies the tile's source samples of one plane into the
    /// reconstruction; nothing to copy when the reconstruction is empty and
    /// reads the source.
    pub fn copy_source_to_recon_plane_region(&mut self, plane: Av2LosslessPlane)
        ensures
            final(self).layout_view() == old(self).layout_view(),
            final(self).bit_depth_view() == old(self).bit_depth_view(),
            final(self).source_view() == old(self).source_view(),
            final(self).source_backed() == old(self).source_backed(),
            final(self).mode_search_view() == old(self).mode_search_view(),
            final(self).chroma_format_view() == old(self).chroma_format_view(),
            (old(self).source_backed() && old(self).recon_view().len() == 0) ==> final(self).recon_view() == old(self).recon_view(),
            !(old(self).source_backed() && old(self).recon_view().len() == 0) ==> rect_copied(
                old(self).recon_view(),
                final(self).recon_view(),
                old(self).source_view(),
                old(self).plane_spec(plane),
                bytes_per_sample_spec(old(self).bit_depth_view()@),
                old(self).plane_spec(plane).origin_x as int,
                tile_rect_end(old(self).plane_spec(plane)).0,
                old(self).plane_spec(plane).origin_y as int,
                tile_rect_end(old(self).plane_spec(plane)).1,
            ),
            forall|x: int, y: int|
                old(self).plane_spec(plane).origin_x <= x < tile_rect_end(old(self).plane_spec(plane)).0 && old(self).plane_spec(plane).origin_y
                    <= y < tile_rect_end(old(self).plane_spec(plane)).1 ==> #[trigger] final(self).recon_sample_spec(plane, x, y)
                    == old(self).source_sample_spec(plane, x, y),
    {
        proof {
            use_type_invariant(&*self);
        }
        if self.source_backed_recon && self.recon.len() == 0 {
            return;
        }
        let ghost pre = self.recon@;
        let ghost p = self.plane_spec(plane);
        let ghost bps_spec = bytes_per_sample_spec(self.bit_depth@);
        let (origin_x, origin_y) = self.plane_origin(plane);
        let (end_x, end_y) = self.layout.clipped_plane_region_limit(plane.planar());
        if origin_x >= end_x || origin_y >= end_y {
            proof {
                assert forall|b: int| 0 <= b < self.recon@.len() implies #[trigger] self.recon@[b] == (if byte_in_rect(
                    p,
                    bps_spec,
                    origin_x as int,
                    end_x as int,
                    origin_y as int,
                    end_y as int,
                    b,
                ) {
                    self.source@[b]
                } else {
                    pre[b]
                }) by {
                    if byte_in_rect(p, bps_spec, origin_x as int, end_x as int, origin_y as int, end_y as int, b) {
                        let w = choose|w: int| origin_y <= w < end_y && sample_byte(p, bps_spec, origin_x as int, w) <= b
                            < #[trigger] sample_byte(p, bps_spec, end_x as int, w);
                        assert(sample_byte(p, bps_spec, end_x as int, w) <= sample_byte(p, bps_spec, origin_x as int, w)) by (nonlinear_arith)
                            requires
                                end_x <= origin_x,
                                bps_spec == 1 || bps_spec == 2,
                                sample_byte(p, bps_spec, end_x as int, w) == (p.base + w * p.width + end_x) * bps_spec,
                                sample_byte(p, bps_spec, origin_x as int, w) == (p.base + w * p.width + origin_x) * bps_spec,
                        ;
                    }
                }
            }
            return;
        }
        let bytes_per_sample = self.bit_depth.bytes_per_sample();
        proof {
            assert(p.base + p.width * p.height <= self.layout.total_samples);
            assert((end_x - origin_x) * bytes_per_sample <= self.layout.total_samples * bytes_per_sample) by (nonlinear_arith)
                requires
                    end_x - origin_x <= p.width,
                    1 <= p.height,
                    p.base + p.width * p.height <= self.layout.total_samples,
                    bytes_per_sample == 1 || bytes_per_sample == 2,
            ;
        }
        let row_bytes = (end_x - origin_x) * bytes_per_sample;
        let mut y = origin_y;
        while y < end_y
            invariant
                origin_y <= y <= end_y,
                origin_x < end_x,
                end_x <= p.width,
                end_y <= p.height,
                self.recon@.len() == self.source@.len(),
                self.layout == old(self).layout,
                self.bit_depth == old(self).bit_depth,
                self.source == old(self).source,
                self.chroma_format == old(self).chroma_format,
                self.mode_search == old(self).mode_search,
                self.source_backed_recon == old(self).source_backed_recon,
                pre == old(self).recon@,
                p == self.plane_spec(plane),
                origin_x == p.origin_x,
                origin_y == p.origin_y,
                end_x == tile_rect_end(p).0,
                end_y == tile_rect_end(p).1,
                bps_spec == bytes_per_sample_spec(self.bit_depth@),
                bytes_per_sample == bps_spec,
                bytes_per_sample == 1 || bytes_per_sample == 2,
                row_bytes == (end_x - origin_x) * bytes_per_sample,
                rect_copied(pre, self.recon@, self.source@, p, bps_spec, origin_x as int, end_x as int, origin_y as int, y as int),
            decreases end_y - y,
        {
            proof {
                use_type_invariant(&*self);
            }
            let index = self.offset(plane, origin_x, y);
            proof {
                assert(index * bytes_per_sample <= self.layout.total_samples * bytes_per_sample) by (nonlinear_arith)
                    requires
                        index < self.layout.total_samples,
                        bytes_per_sample == 1 || bytes_per_sample == 2,
                ;
                crate::planar_layout::lemma_index_in_plane(origin_x as int, y as int, p.width as int, p.height as int);
                assert(p.base + p.width * p.height <= self.layout.total_samples);
            }
            let offset = index * bytes_per_sample;
            proof {
                assert(offset + row_bytes <= self.recon@.len()) by (nonlinear_arith)
                    requires
                        offset == (p.base + y * p.width + origin_x) * bytes_per_sample,
                        row_bytes == (end_x - origin_x) * bytes_per_sample,
                        end_x <= p.width,
                        y * p.width + p.width <= p.width * p.height,
                        p.base + p.width * p.height <= self.layout.total_samples,
                        self.recon@.len() == self.layout.total_samples * bytes_per_sample,
                        bytes_per_sample == 1 || bytes_per_sample == 2,
                ;
                assert(offset + row_bytes == (p.base + y * p.width + end_x) * bytes_per_sample) by (nonlinear_arith)
                    requires
                        offset == (p.base + y * p.width + origin_x) * bytes_per_sample,
                        row_bytes == (end_x - origin_x) * bytes_per_sample,
                ;
                assert(offset == sample_byte(p, bps_spec, origin_x as int, y as int));
                assert(offset + row_bytes == sample_byte(p, bps_spec, end_x as int, y as int));
            }
            let ghost mid = self.recon@;
            self.copy_source_bytes(offset, offset + row_bytes);
            proof {
                assert forall|b: int| 0 <= b < self.recon@.len() implies #[trigger] self.recon@[b] == (if byte_in_rect(
                    p,
                    bps_spec,
                    origin_x as int,
                    end_x as int,
                    origin_y as int,
                    y + 1,
                    b,
                ) {
                    self.source@[b]
                } else {
                    pre[b]
                }) by {
                    lemma_rect_extend(p, bps_spec, origin_x as int, end_x as int, origin_y as int, y as int, b);
                    assert(mid[b] == (if byte_in_rect(p, bps_spec, origin_x as int, end_x as int, origin_y as int, y as int, b) {
                        self.source@[b]
                    } else {
                        pre[b]
                    }));
                }
            }
            y = y + 1;
        }
        proof {
            assert forall|x: int, yy: int| origin_x <= x < end_x && origin_y <= yy < end_y implies #[trigger] self.recon_sample_spec(
                plane,
                x,
                yy,
            ) == self.source_sample_spec(plane, x, yy) by {
                crate::planar_layout::lemma_index_in_plane(x, yy, p.width as int, p.height as int);
                assert(p.base + p.width * p.height <= self.layout.total_samples);
                assert((p.index_spec(x, yy) + 1) * bps_spec <= self.recon@.len()) by (nonlinear_arith)
                    requires
                        p.index_spec(x, yy) == p.base + yy * p.width + x,
                        yy * p.width + x < p.width * p.height,
                        p.base + p.width * p.height <= self.layout.total_samples,
                        self.recon@.len() == self.layout.total_samples * bps_spec,
                        bps_spec == 1 || bps_spec == 2,
                ;
                lemma_rect_copied_sample(pre, self.recon@, self.source@, p, bps_spec, origin_x as int, end_x as int, origin_y as int, end_y as int, x, yy);
            }
        }
    }

    /// Copies the tile's source samples of every plane into the
    /// reconstruction; nothing to copy when the reconstruction is empty and
    /// reads the source.
    pub fn copy_source_to_recon_region(&mut self)
        ensures
            final(self).layout_view() == old(self).layout_view(),
            final(self).bit_depth_view() == old(self).bit_depth_view(),
            final(self).source_view() == old(self).source_view(),
            final(self).source_backed() == old(self).source_backed(),
            (old(self).source_backed() && old(self).recon_view().len() == 0) ==> final(self).recon_view() == old(self).recon_view(),
            !(old(self).source_backed() && old(self).recon_view().len() == 0) ==> ({
                let bps = bytes_per_sample_spec(old(self).bit_depth_view()@);
                &&& final(self).recon_view().len() == old(self).recon_view().len()
                &&& forall|b: int| 0 <= b < final(self).recon_view().len() ==> #[trigger] final(self).recon_view()[b] == (if byte_in_tile_rect(
                    old(self).plane_spec(Av2LosslessPlane::Y),
                    bps,
                    b,
                ) || byte_in_tile_rect(old(self).plane_spec(Av2LosslessPlane::U), bps, b) || byte_in_tile_rect(
                    old(self).plane_spec(Av2LosslessPlane::V),
                    bps,
                    b,
                ) {
                    old(self).source_view()[b]
                } else {
                    old(self).recon_view()[b]
                })
            }),
    {
        proof {
            use_type_invariant(&*self);
        }
        if self.source_backed_recon && self.recon.len() == 0 {
            return;
        }
        let ghost r0 = self.recon@;
        self.copy_source_to_recon_plane_region(Av2LosslessPlane::Y);
        let ghost r1 = self.recon@;
        self.copy_source_to_recon_plane_region(Av2LosslessPlane::U);
        let ghost r2 = self.recon@;
        self.copy_source_to_recon_plane_region(Av2LosslessPlane::V);
        proof {
            let bps = bytes_per_sample_spec(self.bit_depth@);
            assert forall|b: int| 0 <= b < self.recon@.len() implies #[trigger] self.recon@[b] == (if byte_in_tile_rect(
                self.plane_spec(Av2LosslessPlane::Y),
                bps,
                b,
            ) || byte_in_tile_rect(self.plane_spec(Av2LosslessPlane::U), bps, b) || byte_in_tile_rect(
                self.plane_spec(Av2LosslessPlane::V),
                bps,
                b,
            ) {
                self.source@[b]
            } else {
                r0[b]
            }) by {
                assert(r1[b] == (if byte_in_tile_rect(self.plane_spec(Av2LosslessPlane::Y), bps, b) { self.source@[b] } else { r0[b] }));
                assert(r2[b] == (if byte_in_tile_rect(self.plane_spec(Av2LosslessPlane::U), bps, b) { self.source@[b] } else { r1[b] }));
            }
        }
    }
}

} // verus!
