use vstd::prelude::*;
use vstd::arithmetic::power2::pow2;
use vstd::arithmetic::power2::lemma2_to64;
use vstd::arithmetic::power2::lemma_pow2_strictly_increases;
use vstd::bits::lemma_u32_shl_is_mul;
use crate::geometry::TX4X4_SIZE;
use crate::lossless_state::read_planar_sample;
use crate::lossless_state::read_sample_spec;
use crate::lossy_metrics::clamp_i32;
use crate::lossy_metrics::clamp_recon_spec;
use crate::lossy_metrics::sat_sub_spec;
use crate::lossy_metrics::sq;
use crate::lossy_metrics::txb_recon_variance_loss;
use crate::lossy_metrics::u64_to_usize_saturating;
use crate::lossy_metrics::usize_sat;
use crate::lossy_metrics::variance_spec;
use crate::modes::Av2ChromaIntraMode;
use crate::planar_layout::Av2CodedMiContext;
use crate::planar_layout::Av2PlanarPlane;
use crate::planar_layout::Av2PlanarTileLayout;
use crate::planar_layout::Av2PlaneLayout;
use crate::planar_layout::Av2TileRegion;
use crate::planar_layout::Av2VideoGeometry;
use crate::planar_layout::layout_spec;
use crate::planar_layout::lemma_index_in_plane;
use crate::planar_layout::valid_shape_spec;
use crate::prediction_edges::Av2EdgeSampler;
use crate::quantization::max_qindex_spec;
use crate::quantization::quant_bits_supported;
use crate::prediction_edges::Av2IntraEdgeContext;
use crate::prediction_edges::above_left_from_edges_spec;
use crate::prediction_edges::av2_above_left_predictor_from_edges;
use crate::prediction_edges::av2_dc_predictor_from_edges;
use crate::prediction_edges::av2_directional_above_edge;
use crate::prediction_edges::av2_directional_left_edge;
use crate::prediction_edges::av2_h_predictor_from_edges;
use crate::prediction_edges::av2_smooth_intra_edges;
use crate::prediction_edges::av2_v_predictor_from_edges;
use crate::prediction_edges::dc_from_edges_spec;
use crate::prediction_edges::directional_above_spec;
use crate::prediction_edges::directional_left_spec;
use crate::prediction_edges::h_from_edges_spec;
use crate::prediction_edges::paeth_predictor;
use crate::prediction_edges::paeth_spec;
use crate::prediction_edges::smooth_above_spec;
use crate::prediction_edges::smooth_left_spec;
use crate::prediction_edges::v_from_edges_spec;
use crate::sample::Av2ChromaFormat;
use crate::sample::Av2Sample;
use crate::sample::SampleBitDepth;
use crate::sample::av2_lossless_dc_predictor;
use crate::sample::av2_lossless_h_pred_left_edge;
use crate::sample::av2_lossless_v_pred_above_edge;
use crate::sample::bytes_per_sample_spec;
use crate::sample::mid_sample_spec;
use crate::sample::max_sample_spec;

verus! {

/// The planes of a lossy planar tile.
#[derive(Clone, Copy, Debug, PartialEq, Eq, Structural)]
pub enum Av2LossyPlane {
    Y,
    U,
    V,
}

/// The planar plane a lossy plane is stored as.
pub open spec fn lossy_planar_spec(plane: Av2LossyPlane) -> Av2PlanarPlane {
    match plane {
        Av2LossyPlane::Y => Av2PlanarPlane::Y,
        Av2LossyPlane::U => Av2PlanarPlane::U,
        Av2LossyPlane::V => Av2PlanarPlane::V,
    }
}

impl Av2LossyPlane {
    /// The planar plane this plane is stored as.
    pub fn planar(self) -> (r: Av2PlanarPlane)
        ensures
            r == lossy_planar_spec(self),
    {
        match self {
            Av2LossyPlane::Y => Av2PlanarPlane::Y,
            Av2LossyPlane::U => Av2PlanarPlane::U,
            Av2LossyPlane::V => Av2PlanarPlane::V,
        }
    }
}

/// Sum of squared differences between `source` and the clamped
/// reconstruction `predictor + residual` over the first `n` samples.
pub open spec fn residual_sse_sum(
    source: Seq<Av2Sample>,
    predictor: Seq<Av2Sample>,
    residual: Seq<i32>,
    max_sample: int,
    n: int,
) -> int
    decreases n,
{
    if n <= 0 {
        0
    } else {
        residual_sse_sum(source, predictor, residual, max_sample, n - 1) + sq(
            source[n - 1] - clamp_recon_spec(predictor[n - 1] as int, residual[n - 1] as int, max_sample),
        )
    }
}

/// Squared error of a 4x4 reconstruction `predictor + residual` (clamped to
/// the sample range) against the source, and the source's variance lost in
/// it.
pub fn txb_recon_sse_and_variance_loss(
    source: &[Av2Sample; 16],
    predictor: &[Av2Sample; 16],
    residual: &[i32; 16],
    max_sample: i32,
    source_variance: usize,
) -> (r: (usize, usize))
    requires
        0 <= max_sample <= 65535,
        forall|i: int| 0 <= i < 16 ==> -0x4000_0000 <= #[trigger] residual[i] <= 0x4000_0000,
    ensures
        r.0 == usize_sat(residual_sse_sum(source@, predictor@, residual@, max_sample as int, 16)),
        r.1 == sat_sub_spec(
            source_variance as int,
            variance_spec(Seq::new(16, |i: int| clamp_recon_spec(predictor[i] as int, residual[i] as int, max_sample as int) as i32)),
        ),
{
    let ghost recon_spec = Seq::new(16, |i: int| clamp_recon_spec(predictor[i] as int, residual[i] as int, max_sample as int) as i32);
    let mut sse: u64 = 0;
    let mut recon_samples = [0i32; 16];
    let mut index: usize = 0;
    while index < 16
        invariant
            index <= 16,
            0 <= max_sample <= 65535,
            forall|i: int| 0 <= i < 16 ==> -0x4000_0000 <= #[trigger] residual[i] <= 0x4000_0000,
            recon_spec == Seq::new(16, |i: int| clamp_recon_spec(predictor[i] as int, residual[i] as int, max_sample as int) as i32),
            forall|k: int| 0 <= k < index ==> recon_samples[k] == recon_spec[k],
            forall|k: int| 0 <= k < index ==> 0 <= #[trigger] recon_samples[k] <= 65535,
            sse == residual_sse_sum(source@, predictor@, residual@, max_sample as int, index as int),
            sse <= index * 0x1_0000_0000,
        decreases 16 - index,
    {
        let recon = clamp_i32(predictor[index] as i32 + residual[index], 0, max_sample);
        recon_samples[index] = recon;
        let diff = source[index] as i32 - recon;
        proof {
            assert(0 <= diff * diff <= 0x1_0000_0000) by (nonlinear_arith)
                requires
                    -65535 <= diff <= 65535,
            ;
        }
        sse = sse + (diff as i64 * diff as i64) as u64;
        index = index + 1;
    }
    proof {
        assert(recon_samples@ =~= recon_spec);
        crate::lossy_metrics::lemma_variance_fits_bounded(recon_samples@);
    }
    (u64_to_usize_saturating(sse), txb_recon_variance_loss(source_variance, &recon_samples))
}

/// What the analysis of a lossy 4x4 block keeps: source, predictor,
/// residual, and the DC-only reconstruction's delta, distortion and
/// variance loss.
#[derive(Clone, Copy, Debug, PartialEq, Eq)]
pub struct Av2LossyTxbAnalysis {
    pub source: [Av2Sample; 16],
    pub predictor: [Av2Sample; 16],
    pub residual: [i32; 16],
    pub delta: i16,
    pub dc_sse: usize,
    pub dc_variance_loss: usize,
    pub source_variance: usize,
}

/// BDPCM reconstruction at `index`: the residual added to the left
/// (horizontal) or upper (vertical) reconstructed sample, the first column
/// or row to the predictor, clamped to the sample range.
pub open spec fn dpcm_recon_spec(
    predictor: Seq<Av2Sample>,
    residual: Seq<i32>,
    horz: bool,
    max_sample: int,
    index: int,
) -> int
    decreases index,
{
    if index < 0 {
        0
    } else {
        let lx = index % 4;
        let ly = index / 4;
        let pred = if horz {
            if lx == 0 { predictor[index] as int } else { dpcm_recon_spec(predictor, residual, horz, max_sample, index - 1) }
        } else if ly == 0 {
            predictor[index] as int
        } else {
            dpcm_recon_spec(predictor, residual, horz, max_sample, index - 4)
        };
        clamp_recon_spec(pred, residual[index] as int, max_sample)
    }
}

/// Squared error of the BDPCM reconstruction over the first `n` samples.
pub open spec fn dpcm_sse_sum(
    source: Seq<Av2Sample>,
    predictor: Seq<Av2Sample>,
    residual: Seq<i32>,
    horz: bool,
    max_sample: int,
    n: int,
) -> int
    decreases n,
{
    if n <= 0 {
        0
    } else {
        dpcm_sse_sum(source, predictor, residual, horz, max_sample, n - 1) + sq(
            source[n - 1] - dpcm_recon_spec(predictor, residual, horz, max_sample, n - 1),
        )
    }
}

pub proof fn lemma_dpcm_recon_range(predictor: Seq<Av2Sample>, residual: Seq<i32>, horz: bool, max_sample: int, index: int)
    requires
        0 <= max_sample,
    ensures
        0 <= dpcm_recon_spec(predictor, residual, horz, max_sample, index) <= max_sample,
    decreases index,
{
}

/// Exact BDPCM residual of a source block at `index`: each sample minus its
/// left (horizontal) or upper (vertical) neighbour, the first column or row
/// against the predictor.
pub open spec fn dpcm_exact_residual_spec(source: Seq<Av2Sample>, predictor: Seq<Av2Sample>, horz: bool, index: int) -> int {
    let lx = index % 4;
    let ly = index / 4;
    if horz {
        if lx == 0 { source[index] - predictor[index] } else { source[index] - source[index - 1] }
    } else if ly == 0 {
        source[index] - predictor[index]
    } else {
        source[index] - source[index - 4]
    }
}

/// BDPCM reconstruction undoes the exact BDPCM residual: summing the
/// differences along each row (horizontal) or column (vertical) from the
/// predictor gives back every source sample within the sample range.
pub proof fn lemma_dpcm_round_trip(
    source: Seq<Av2Sample>,
    predictor: Seq<Av2Sample>,
    residual: Seq<i32>,
    horz: bool,
    max_sample: int,
    index: int,
)
    requires
        source.len() == 16,
        predictor.len() == 16,
        residual.len() == 16,
        0 <= index < 16,
        forall|k: int| 0 <= k < 16 ==> #[trigger] source[k] <= max_sample,
        forall|k: int| 0 <= k < 16 ==> #[trigger] residual[k] as int == dpcm_exact_residual_spec(source, predictor, horz, k),
    ensures
        dpcm_recon_spec(predictor, residual, horz, max_sample, index) == source[index] as int,
    decreases index,
{
    let lx = index % 4;
    let ly = index / 4;
    assert(residual[index] as int == dpcm_exact_residual_spec(source, predictor, horz, index));
    assert(source[index] <= max_sample);
    if horz && lx != 0 {
        lemma_dpcm_round_trip(source, predictor, residual, horz, max_sample, index - 1);
    } else if !horz && ly != 0 {
        lemma_dpcm_round_trip(source, predictor, residual, horz, max_sample, index - 4);
    }
}

/// The BDPCM reconstruction of an analysed block under `residual`, and its
/// squared error against the source.
pub fn dpcm_recon_samples_and_sse(
    analysis: &Av2LossyTxbAnalysis,
    residual: &[i32; 16],
    horz: bool,
    max_sample: i32,
) -> (r: ([i32; 16], usize))
    requires
        0 <= max_sample <= 65535,
        forall|i: int| 0 <= i < 16 ==> -0x4000_0000 <= #[trigger] residual[i] <= 0x4000_0000,
    ensures
        forall|i: int| 0 <= i < 16 ==> #[trigger] r.0[i] as int == dpcm_recon_spec(analysis.predictor@, residual@, horz, max_sample as int, i),
        r.1 == usize_sat(dpcm_sse_sum(analysis.source@, analysis.predictor@, residual@, horz, max_sample as int, 16)),
{
    let mut recon_samples = [0i32; 16];
    let mut sse: u64 = 0;
    let mut index: usize = 0;
    while index < 16
        invariant
            index <= 16,
            0 <= max_sample <= 65535,
            forall|i: int| 0 <= i < 16 ==> -0x4000_0000 <= #[trigger] residual[i] <= 0x4000_0000,
            forall|k: int| 0 <= k < index ==> #[trigger] recon_samples[k] as int == dpcm_recon_spec(analysis.predictor@, residual@, horz, max_sample as int, k),
            sse == dpcm_sse_sum(analysis.source@, analysis.predictor@, residual@, horz, max_sample as int, index as int),
            sse <= index * 0x1_0000_0000,
        decreases 16 - index,
    {
        let local_x = index % 4;
        let local_y = index / 4;
        proof {
            if index >= 1 {
                lemma_dpcm_recon_range(analysis.predictor@, residual@, horz, max_sample as int, index - 1);
            }
            if index >= 4 {
                lemma_dpcm_recon_range(analysis.predictor@, residual@, horz, max_sample as int, index - 4);
            }
        }
        let predictor = if horz {
            if local_x == 0 {
                analysis.predictor[index] as i32
            } else {
                recon_samples[index - 1]
            }
        } else if local_y == 0 {
            analysis.predictor[index] as i32
        } else {
            recon_samples[index - 4]
        };
        let recon = clamp_i32(predictor + residual[index], 0, max_sample);
        recon_samples[index] = recon;
        let diff = analysis.source[index] as i32 - recon;
        proof {
            assert(0 <= diff * diff <= 0x1_0000_0000) by (nonlinear_arith)
                requires
                    -65535 <= diff <= 65535,
            ;
        }
        sse = sse + (diff as i64 * diff as i64) as u64;
        index = index + 1;
    }
    (recon_samples, u64_to_usize_saturating(sse))
}

/// Which samples lossy intra prediction reads at a block's edges.
#[derive(Clone, Copy, Debug, PartialEq, Eq, Structural)]
pub enum Av2LossyEdgeSource {
    /// The reconstruction.
    Recon,
    /// The source inside the leaf rectangle being scored, the
    /// reconstruction elsewhere.
    ScoreLeaf { leaf_x0: usize, leaf_y0: usize, leaf_width: usize, leaf_height: usize },
}

/// The leaf a lossy block is predicted in, and which mode-info units are
/// coded so far.
#[derive(Clone, Copy)]
pub struct Av2LossyLeafPredictorContext<'c> {
    pub leaf_x0: usize,
    pub leaf_y0: usize,
    pub leaf_width: usize,
    pub leaf_height: usize,
    pub coded_mi_context: &'c Av2CodedMiContext,
}

impl<'c> Av2LossyLeafPredictorContext<'c> {
    /// Edge source that scores inside this leaf.
    pub open spec fn score_source(self) -> Av2LossyEdgeSource {
        Av2LossyEdgeSource::ScoreLeaf {
            leaf_x0: self.leaf_x0,
            leaf_y0: self.leaf_y0,
            leaf_width: self.leaf_width,
            leaf_height: self.leaf_height,
        }
    }

    /// The leaf's extent is addressable and its coded context consistent.
    pub open spec fn ok(self) -> bool {
        &&& self.leaf_x0 + self.leaf_width <= usize::MAX
        &&& self.leaf_y0 + self.leaf_height <= usize::MAX
        &&& self.coded_mi_context.wf()
    }
}

/// `bytes` with sample `index` (of `bps` little-endian bytes) set to `value`.
pub open spec fn write_sample_spec(bytes: Seq<u8>, index: int, bps: int, value: int) -> Seq<u8> {
    if bps == 1 {
        bytes.update(index, value as u8)
    } else {
        bytes.update(2 * index, (value % 256) as u8).update(2 * index + 1, (value / 256) as u8)
    }
}

/// Reading back a written sample gives its value; other samples and the
/// length are unchanged.
pub proof fn lemma_write_sample(bytes: Seq<u8>, index: int, bps: int, value: int, other: int)
    requires
        bps == 1 || bps == 2,
        0 <= index,
        (index + 1) * bps <= bytes.len(),
        0 <= value < (if bps == 1 { 256int } else { 65536int }),
    ensures
        write_sample_spec(bytes, index, bps, value).len() == bytes.len(),
        read_sample_spec(write_sample_spec(bytes, index, bps, value), index, bps) == value,
        other != index && 0 <= other && (other + 1) * bps <= bytes.len() ==> read_sample_spec(
            write_sample_spec(bytes, index, bps, value),
            other,
            bps,
        ) == read_sample_spec(bytes, other, bps),
        forall|b: int| 0 <= b < bytes.len() && !(index * bps <= b < index * bps + bps) ==> #[trigger] write_sample_spec(bytes, index, bps, value)[b] == bytes[b],
{
    if bps == 2 {
        let lo = value % 256;
        let hi = value / 256;
        assert(lo + 256 * hi == value);
        assert((lo as u8) as int == lo);
        assert((hi as u8) as int == hi);
    }
}

/// The lossy coding state of a planar tile: base quantizer, source picture,
/// reconstruction, and where each plane lies in them.
pub struct Av2LossySubsampledTileState<'a> {
    chroma_format: Av2ChromaFormat,
    bit_depth: SampleBitDepth,
    base_qindex: u16,
    source: &'a [u8],
    recon: Vec<u8>,
    layout: Av2PlanarTileLayout,
}

impl<'a> Av2LossySubsampledTileState<'a> {
    #[verifier::type_invariant]
    spec fn inv(self) -> bool {
        &&& self.layout.wf()
        &&& self.layout.bytes_per_sample == bytes_per_sample_spec(self.bit_depth@)
        &&& self.source@.len() == self.layout.frame_len_spec()
        &&& self.recon@.len() == self.source@.len()
        &&& quant_bits_supported(self.bit_depth@)
        &&& self.base_qindex <= max_qindex_spec(self.bit_depth@)
    }

    pub closed spec fn layout_view(&self) -> Av2PlanarTileLayout {
        self.layout
    }

    pub closed spec fn bit_depth_view(&self) -> SampleBitDepth {
        self.bit_depth
    }

    pub closed spec fn chroma_format_view(&self) -> Av2ChromaFormat {
        self.chroma_format
    }

    pub closed spec fn base_qindex_view(&self) -> u16 {
        self.base_qindex
    }

    pub closed spec fn source_view(&self) -> Seq<u8> {
        self.source@
    }

    pub closed spec fn recon_view(&self) -> Seq<u8> {
        self.recon@
    }

    /// Quantizer step: the base index scaled to the bit depth.
    pub open spec fn quant_step_spec(&self) -> int {
        self.base_qindex_view() * pow2((self.bit_depth_view()@ - 8) as nat)
    }

    /// Placement of a plane.
    pub open spec fn plane_spec(&self, plane: Av2LossyPlane) -> Av2PlaneLayout {
        self.layout_view().plane_spec(lossy_planar_spec(plane))
    }

    /// Whether `(x, y)` is a sample of the plane.
    pub open spec fn in_plane(&self, plane: Av2LossyPlane, x: int, y: int) -> bool {
        0 <= x < self.plane_spec(plane).width && 0 <= y < self.plane_spec(plane).height
    }

    /// Whether the 4x4 block at `(x0, y0)` lies in the plane.
    pub open spec fn block_in_plane(&self, plane: Av2LossyPlane, x0: int, y0: int) -> bool {
        0 <= x0 && 0 <= y0 && x0 + TX4X4_SIZE <= self.plane_spec(plane).width && y0 + TX4X4_SIZE
            <= self.plane_spec(plane).height
    }

    /// Source sample at `(x, y)`.
    pub open spec fn source_sample_spec(&self, plane: Av2LossyPlane, x: int, y: int) -> int {
        read_sample_spec(self.source_view(), self.plane_spec(plane).index_spec(x, y), bytes_per_sample_spec(self.bit_depth_view()@))
    }

    /// Reconstructed sample at `(x, y)`.
    pub open spec fn recon_sample_spec(&self, plane: Av2LossyPlane, x: int, y: int) -> int {
        read_sample_spec(self.recon_view(), self.plane_spec(plane).index_spec(x, y), bytes_per_sample_spec(self.bit_depth_view()@))
    }

    /// Edge sample at `(x, y)` from the given edge source.
    pub open spec fn edge_sample_spec(&self, edge: Av2LossyEdgeSource, plane: Av2LossyPlane, x: int, y: int) -> int {
        match edge {
            Av2LossyEdgeSource::Recon => self.recon_sample_spec(plane, x, y),
            Av2LossyEdgeSource::ScoreLeaf { leaf_x0, leaf_y0, leaf_width, leaf_height } => if leaf_x0 <= x < leaf_x0
                + leaf_width && leaf_y0 <= y < leaf_y0 + leaf_height {
                self.source_sample_spec(plane, x, y)
            } else {
                self.recon_sample_spec(plane, x, y)
            },
        }
    }

    /// Sets up the state of a tile with base quantizer index `base_qindex`.
    pub fn new(
        geometry: Av2VideoGeometry,
        region: Av2TileRegion,
        chroma_format: Av2ChromaFormat,
        bit_depth: SampleBitDepth,
        base_qindex: u16,
        source: &'a [u8],
        recon: Vec<u8>,
    ) -> (r: Self)
        requires
            valid_shape_spec(geometry, region, chroma_format, bit_depth),
            source@.len() == layout_spec(geometry, region, chroma_format, bit_depth).frame_len_spec(),
            recon@.len() == source@.len(),
            quant_bits_supported(bit_depth@),
            base_qindex <= max_qindex_spec(bit_depth@),
        ensures
            r.layout_view() == layout_spec(geometry, region, chroma_format, bit_depth),
            r.bit_depth_view() == bit_depth,
            r.chroma_format_view() == chroma_format,
            r.base_qindex_view() == base_qindex,
            r.source_view() == source@,
            r.recon_view() == recon@,
    {
        let layout = Av2PlanarTileLayout::for_validated_shape(geometry, region, chroma_format, bit_depth);
        Av2LossySubsampledTileState { chroma_format, bit_depth, base_qindex, source, recon, layout }
    }

    /// The base quantizer index.
    pub fn base_qindex(&self) -> (r: u16)
        ensures
            r == self.base_qindex_view(),
            r <= max_qindex_spec(self.bit_depth_view()@),
            quant_bits_supported(self.bit_depth_view()@),
    {
        proof {
            use_type_invariant(self);
        }
        self.base_qindex
    }

    /// The sample bit depth.
    pub fn bit_depth(&self) -> (r: SampleBitDepth)
        ensures
            r == self.bit_depth_view(),
            quant_bits_supported(r@),
    {
        proof {
            use_type_invariant(self);
        }
        self.bit_depth
    }

    /// The chroma format.
    pub fn chroma_format(&self) -> (r: Av2ChromaFormat)
        ensures
            r == self.chroma_format_view(),
    {
        self.chroma_format
    }

    /// The quantizer step of the tile: the base index scaled to the bit
    /// depth, `base_qindex * 2^(bits - 8)`.
    pub fn quant_step(&self) -> (r: i32)
        ensures
            r == self.quant_step_spec(),
            0 <= r <= 351 * 16,
    {
        proof {
            use_type_invariant(self);
        }
        let bits = self.bit_depth.bits();
        let shift = (bits - 8) as u32;
        proof {
            lemma2_to64();
            if shift < 8 {
                lemma_pow2_strictly_increases(shift as nat, 8);
            }
            assert(self.base_qindex * pow2(shift as nat) <= 65535 * 256) by (nonlinear_arith)
                requires
                    self.base_qindex <= 65535,
                    pow2(shift as nat) <= 256,
            ;
            lemma_u32_shl_is_mul(self.base_qindex as u32, shift);
            assert(shift == 0 || shift == 2 || shift == 4);
            assert(pow2(shift as nat) <= 16);
            assert(self.base_qindex * pow2(shift as nat) <= 351 * 16) by (nonlinear_arith)
                requires
                    self.base_qindex <= 351,
                    pow2(shift as nat) <= 16,
            ;
        }
        ((self.base_qindex as u32) << shift) as i32
    }

    /// Top-left sample of the 4x4 transform block at (`col`, `row`) of the
    /// tile, counted in the plane's own 4x4 grid.
    pub fn txb_origin(&self, plane: Av2LossyPlane, col: usize, row: usize) -> (r: (usize, usize))
        requires
            self.plane_spec(plane).origin_x + col * TX4X4_SIZE <= usize::MAX,
            self.plane_spec(plane).origin_y + row * TX4X4_SIZE <= usize::MAX,
        ensures
            r.0 == self.plane_spec(plane).origin_x + col * TX4X4_SIZE,
            r.1 == self.plane_spec(plane).origin_y + row * TX4X4_SIZE,
    {
        self.layout.txb_origin(plane.planar(), col, row)
    }

    /// Stores `sample` as the reconstructed sample at `(x, y)`.
    pub fn set_recon_sample(&mut self, plane: Av2LossyPlane, x: usize, y: usize, sample: Av2Sample)
        requires
            old(self).in_plane(plane, x as int, y as int),
            bytes_per_sample_spec(old(self).bit_depth_view()@) == 1 ==> sample <= 255,
        ensures
            final(self).recon_view() == write_sample_spec(
                old(self).recon_view(),
                old(self).plane_spec(plane).index_spec(x as int, y as int),
                bytes_per_sample_spec(old(self).bit_depth_view()@),
                sample as int,
            ),
            final(self).layout_view() == old(self).layout_view(),
            final(self).bit_depth_view() == old(self).bit_depth_view(),
            final(self).chroma_format_view() == old(self).chroma_format_view(),
            final(self).base_qindex_view() == old(self).base_qindex_view(),
            final(self).source_view() == old(self).source_view(),
            final(self).recon_view().len() == old(self).recon_view().len(),
            final(self).recon_sample_spec(plane, x as int, y as int) == sample,
            forall|p2: Av2LossyPlane, x2: int, y2: int|
                old(self).in_plane(p2, x2, y2) && old(self).plane_spec(p2).index_spec(x2, y2) != old(self).plane_spec(
                    plane,
                ).index_spec(x as int, y as int) ==> #[trigger] final(self).recon_sample_spec(p2, x2, y2) == old(
                    self,
                ).recon_sample_spec(p2, x2, y2),
            forall|b: int|
                0 <= b < old(self).recon_view().len() && !(old(self).plane_spec(plane).index_spec(x as int, y as int)
                    * bytes_per_sample_spec(old(self).bit_depth_view()@) <= b < (old(self).plane_spec(plane).index_spec(
                    x as int,
                    y as int,
                ) + 1) * bytes_per_sample_spec(old(self).bit_depth_view()@)) ==> #[trigger] final(self).recon_view()[b]
                    == old(self).recon_view()[b],
    {
        proof {
            use_type_invariant(&*self);
        }
        let ghost pre = self.recon@;
        let ghost bps = bytes_per_sample_spec(self.bit_depth@);
        let ghost i = self.layout.plane_spec(lossy_planar_spec(plane)).index_spec(x as int, y as int);
        proof {
            let pl = self.layout.plane_spec(lossy_planar_spec(plane));
            lemma_index_in_plane(x as int, y as int, pl.width as int, pl.height as int);
            assert((i + 1) * bps <= pre.len()) by (nonlinear_arith)
                requires
                    i + 1 <= self.layout.total_samples,
                    pre.len() == self.layout.total_samples * bps,
                    bps == 1 || bps == 2,
            ;
            lemma_write_sample(pre, i, bps, sample as int, i);
            assert forall|p2: Av2LossyPlane, x2: int, y2: int|
                self.in_plane(p2, x2, y2) && self.plane_spec(p2).index_spec(x2, y2) != i implies read_sample_spec(
                write_sample_spec(pre, i, bps, sample as int),
                self.plane_spec(p2).index_spec(x2, y2),
                bps,
            ) == read_sample_spec(pre, self.plane_spec(p2).index_spec(x2, y2), bps) by {
                let q = self.layout.plane_spec(lossy_planar_spec(p2));
                lemma_index_in_plane(x2, y2, q.width as int, q.height as int);
                let j = q.index_spec(x2, y2);
                assert((j + 1) * bps <= pre.len()) by (nonlinear_arith)
                    requires
                        j + 1 <= self.layout.total_samples,
                        pre.len() == self.layout.total_samples * bps,
                        bps == 1 || bps == 2,
                ;
                lemma_write_sample(pre, i, bps, sample as int, j);
            }
        }
        let index = self.layout.offset(plane.planar(), x, y);
        if self.bit_depth.bits() <= 8 {
            self.recon[index] = sample as u8;
        } else {
            let lo = (sample % 256) as u8;
            let hi = (sample / 256) as u8;
            self.recon[2 * index] = lo;
            self.recon[2 * index + 1] = hi;
        }
    }

    /// Plane size in samples.
    pub fn plane_geometry(&self, plane: Av2LossyPlane) -> (r: (usize, usize))
        ensures
            r == (self.plane_spec(plane).width, self.plane_spec(plane).height),
    {
        self.layout.plane_geometry(plane.planar())
    }

    /// The tile's first sample in the plane.
    pub fn plane_origin(&self, plane: Av2LossyPlane) -> (r: (usize, usize))
        ensures
            r == (self.plane_spec(plane).origin_x, self.plane_spec(plane).origin_y),
    {
        self.layout.plane_origin(plane.planar())
    }

    /// One past the tile's last sample in the plane.
    pub fn plane_region_limit(&self, plane: Av2LossyPlane) -> (r: (usize, usize))
        ensures
            r == (self.plane_spec(plane).limit_x, self.plane_spec(plane).limit_y),
    {
        self.layout.plane_region_limit(plane.planar())
    }

    /// Subsampling of the plane relative to luma.
    pub fn plane_subsampling(&self, plane: Av2LossyPlane) -> (r: (usize, usize))
        ensures
            r == (self.plane_spec(plane).sub_x, self.plane_spec(plane).sub_y),
            r.0 == 1 || r.0 == 2,
            r.1 == 1 || r.1 == 2,
    {
        proof {
            use_type_invariant(self);
        }
        self.layout.plane_subsampling(plane.planar())
    }

    /// The mode-info unit covering a plane sample.
    pub fn coded_mi_for_plane_sample(&self, plane: Av2LossyPlane, x: usize, y: usize) -> (r: (usize, usize))
        requires
            self.in_plane(plane, x as int, y as int),
        ensures
            r.0 == y * self.plane_spec(plane).sub_y / 4,
            r.1 == x * self.plane_spec(plane).sub_x / 4,
    {
        proof {
            use_type_invariant(self);
        }
        self.layout.coded_mi_for_plane_sample(plane.planar(), x, y)
    }

    /// Source sample at `(x, y)`.
    pub fn source_sample(&self, plane: Av2LossyPlane, x: usize, y: usize) -> (r: Av2Sample)
        requires
            self.in_plane(plane, x as int, y as int),
        ensures
            r as int == self.source_sample_spec(plane, x as int, y as int),
    {
        proof {
            use_type_invariant(self);
        }
        let index = self.layout.offset(plane.planar(), x, y);
        read_planar_sample(self.source, index, self.bit_depth)
    }

    /// Sample at `(x, y)` of a reference frame laid out like the source.
    pub open spec fn reference_sample_spec(&self, reference: Seq<u8>, plane: Av2LossyPlane, x: int, y: int) -> int {
        read_sample_spec(reference, self.plane_spec(plane).index_spec(x, y), bytes_per_sample_spec(self.bit_depth_view()@))
    }

    /// Sample at `(x, y)` of a reference frame laid out like the source.
    pub fn reference_sample(&self, reference: &[u8], plane: Av2LossyPlane, x: usize, y: usize) -> (r: Av2Sample)
        requires
            self.in_plane(plane, x as int, y as int),
            reference@.len() == self.source_view().len(),
        ensures
            r as int == self.reference_sample_spec(reference@, plane, x as int, y as int),
    {
        proof {
            use_type_invariant(self);
        }
        let index = self.layout.offset(plane.planar(), x, y);
        read_planar_sample(reference, index, self.bit_depth)
    }

    /// Reconstructed sample at `(x, y)`.
    pub fn recon_sample(&self, plane: Av2LossyPlane, x: usize, y: usize) -> (r: Av2Sample)
        requires
            self.in_plane(plane, x as int, y as int),
        ensures
            r as int == self.recon_sample_spec(plane, x as int, y as int),
    {
        proof {
            use_type_invariant(self);
        }
        let index = self.layout.offset(plane.planar(), x, y);
        read_planar_sample(self.recon.as_slice(), index, self.bit_depth)
    }

    /// Neighbour sample while scoring a leaf: the source inside the leaf
    /// rectangle, the reconstruction outside it.
    pub fn neighbor_sample_for_score(
        &self,
        plane: Av2LossyPlane,
        x: usize,
        y: usize,
        context: Av2LossyLeafPredictorContext,
    ) -> (r: Av2Sample)
        requires
            self.in_plane(plane, x as int, y as int),
            context.ok(),
        ensures
            r as int == self.edge_sample_spec(context.score_source(), plane, x as int, y as int),
    {
        if x >= context.leaf_x0 && x < context.leaf_x0 + context.leaf_width && y >= context.leaf_y0 && y
            < context.leaf_y0 + context.leaf_height {
            self.source_sample(plane, x, y)
        } else {
            self.recon_sample(plane, x, y)
        }
    }

    /// Edge sample at `(x, y)` from the given edge source.
    pub fn edge_sample(&self, edge: Av2LossyEdgeSource, plane: Av2LossyPlane, x: usize, y: usize) -> (r: Av2Sample)
        requires
            self.in_plane(plane, x as int, y as int),
            edge matches Av2LossyEdgeSource::ScoreLeaf { leaf_x0, leaf_y0, leaf_width, leaf_height } ==> leaf_x0
                + leaf_width <= usize::MAX && leaf_y0 + leaf_height <= usize::MAX,
        ensures
            r as int == self.edge_sample_spec(edge, plane, x as int, y as int),
    {
        match edge {
            Av2LossyEdgeSource::Recon => self.recon_sample(plane, x, y),
            Av2LossyEdgeSource::ScoreLeaf { leaf_x0, leaf_y0, leaf_width, leaf_height } => {
                if x >= leaf_x0 && x < leaf_x0 + leaf_width && y >= leaf_y0 && y < leaf_y0 + leaf_height {
                    self.source_sample(plane, x, y)
                } else {
                    self.recon_sample(plane, x, y)
                }
            },
        }
    }
}

/// Whether an edge source's leaf extent is addressable.
pub open spec fn lossy_edge_ok(edge: Av2LossyEdgeSource) -> bool {
    edge matches Av2LossyEdgeSource::ScoreLeaf { leaf_x0, leaf_y0, leaf_width, leaf_height } ==> leaf_x0
        + leaf_width <= usize::MAX && leaf_y0 + leaf_height <= usize::MAX
}

/// Edge samples of one plane of a lossy tile from the chosen source, with
/// coded flags from a mode-info context where one is given.
pub struct Av2LossyEdges<'s, 'a> {
    pub state: &'s Av2LossySubsampledTileState<'a>,
    pub plane: Av2LossyPlane,
    pub edge: Av2LossyEdgeSource,
    pub coded: Option<&'s Av2CodedMiContext>,
}

impl<'s, 'a> Av2EdgeSampler for Av2LossyEdges<'s, 'a> {
    open spec fn readable(&self, x: int, y: int) -> bool {
        &&& self.state.in_plane(self.plane, x, y)
        &&& lossy_edge_ok(self.edge)
        &&& match self.coded {
            Some(c) => c.wf(),
            None => true,
        }
    }

    open spec fn sample_spec(&self, x: int, y: int) -> int {
        self.state.edge_sample_spec(self.edge, self.plane, x, y)
    }

    open spec fn coded_spec(&self, x: int, y: int) -> bool {
        match self.coded {
            Some(c) => c.is_coded_spec(
                y * self.state.plane_spec(self.plane).sub_y / 4,
                x * self.state.plane_spec(self.plane).sub_x / 4,
            ),
            None => false,
        }
    }

    fn sample(&self, x: usize, y: usize) -> (r: Av2Sample) {
        self.state.edge_sample(self.edge, self.plane, x, y)
    }

    fn is_coded(&self, x: usize, y: usize) -> (r: bool) {
        match self.coded {
            Some(c) => {
                let (row_mi, col_mi) = self.state.coded_mi_for_plane_sample(self.plane, x, y);
                c.is_coded(row_mi, col_mi)
            },
            None => false,
        }
    }
}

impl<'a> Av2LossySubsampledTileState<'a> {
    /// Edge samples of a plane from an edge source, with optional coded flags.
    pub open spec fn edges_view<'s>(
        &'s self,
        plane: Av2LossyPlane,
        edge: Av2LossyEdgeSource,
        coded: Option<&'s Av2CodedMiContext>,
    ) -> Av2LossyEdges<'s, 'a> {
        Av2LossyEdges { state: self, plane, edge, coded }
    }

    /// The edge context of a block of a plane in a leaf, limited to the
    /// tile region.
    pub open spec fn edge_context_spec(&self, plane: Av2LossyPlane, context: Av2LossyLeafPredictorContext) -> Av2IntraEdgeContext {
        Av2IntraEdgeContext {
            bit_depth: self.bit_depth_view(),
            tile_origin: (self.plane_spec(plane).origin_x, self.plane_spec(plane).origin_y),
            plane_size: (self.plane_spec(plane).width, self.plane_spec(plane).height),
            edge_limit: (self.plane_spec(plane).limit_x, self.plane_spec(plane).limit_y),
            subsampling: (self.plane_spec(plane).sub_x, self.plane_spec(plane).sub_y),
            leaf_origin: (context.leaf_x0, context.leaf_y0),
            leaf_size: (context.leaf_width, context.leaf_height),
        }
    }

    /// A block in its plane keeps its neighbourhood addressable.
    proof fn lemma_block_limits(&self, plane: Av2LossyPlane, x0: int, y0: int)
        requires
            self.inv(),
            self.block_in_plane(plane, x0, y0),
        ensures
            x0 + 256 <= usize::MAX,
            y0 + 256 <= usize::MAX,
            self.plane_spec(plane).sub_x == 1 || self.plane_spec(plane).sub_x == 2,
            self.plane_spec(plane).sub_y == 1 || self.plane_spec(plane).sub_y == 2,
            self.plane_spec(plane).limit_x <= self.plane_spec(plane).width,
            self.plane_spec(plane).limit_y <= self.plane_spec(plane).height,
    {
        let p = self.plane_spec(plane);
        let total = self.layout.total_samples as int;
        crate::planar_layout::lemma_mul_le(4, p.width as int, p.height as int, p.width as int);
        crate::planar_layout::lemma_mul_le(p.height as int, 4, p.height as int, p.width as int);
        assert(p.height * p.width == p.width * p.height) by (nonlinear_arith);
        assert(total <= usize::MAX) by (nonlinear_arith)
            requires
                total * self.layout.bytes_per_sample <= usize::MAX,
                self.layout.bytes_per_sample >= 1,
                total >= 0,
        ;
    }

    /// DC predictor while scoring the leaf of `context`.
    pub fn dc_predictor_for_score(&self, plane: Av2LossyPlane, x0: usize, y0: usize, context: Av2LossyLeafPredictorContext) -> (r: Av2Sample)
        requires
            self.block_in_plane(plane, x0 as int, y0 as int),
            context.ok(),
        ensures
            r as int == dc_from_edges_spec(
                self.bit_depth_view(),
                self.plane_spec(plane).origin_x as int,
                self.plane_spec(plane).origin_y as int,
                x0 as int,
                y0 as int,
                &self.edges_view(plane, context.score_source(), None),
            ),
    {
        proof {
            use_type_invariant(self);
            self.lemma_block_limits(plane, x0 as int, y0 as int);
        }
        let (ox, oy) = self.plane_origin(plane);
        let edge = Av2LossyEdgeSource::ScoreLeaf {
            leaf_x0: context.leaf_x0,
            leaf_y0: context.leaf_y0,
            leaf_width: context.leaf_width,
            leaf_height: context.leaf_height,
        };
        let edges = Av2LossyEdges { state: self, plane, edge, coded: None };
        av2_dc_predictor_from_edges(self.bit_depth, ox, oy, x0, y0, &edges)
    }

    /// Horizontal prediction of row `local_y` of the 4x4 block at
    /// `(x0, y0)` from the reconstruction.
    pub fn h_predictor(&self, plane: Av2LossyPlane, x0: usize, y0: usize, local_y: usize) -> (r: Av2Sample)
        requires
            self.block_in_plane(plane, x0 as int, y0 as int),
            local_y < TX4X4_SIZE,
        ensures
            r as int == h_from_edges_spec(
                self.bit_depth_view(),
                self.plane_spec(plane).origin_x as int,
                self.plane_spec(plane).origin_y as int,
                x0 as int,
                y0 as int,
                local_y as int,
                &self.edges_view(plane, Av2LossyEdgeSource::Recon, None),
            ),
    {
        proof {
            use_type_invariant(self);
            self.lemma_block_limits(plane, x0 as int, y0 as int);
        }
        let (ox, oy) = self.plane_origin(plane);
        let edges = Av2LossyEdges { state: self, plane, edge: Av2LossyEdgeSource::Recon, coded: None };
        av2_h_predictor_from_edges(self.bit_depth, ox, oy, x0, y0, local_y, &edges)
    }

    /// Vertical prediction of column `local_x` of the 4x4 block at
    /// `(x0, y0)` from the reconstruction.
    pub fn v_predictor(&self, plane: Av2LossyPlane, x0: usize, y0: usize, local_x: usize) -> (r: Av2Sample)
        requires
            self.block_in_plane(plane, x0 as int, y0 as int),
            local_x < TX4X4_SIZE,
        ensures
            r as int == v_from_edges_spec(
                self.bit_depth_view(),
                self.plane_spec(plane).origin_x as int,
                self.plane_spec(plane).origin_y as int,
                x0 as int,
                y0 as int,
                local_x as int,
                &self.edges_view(plane, Av2LossyEdgeSource::Recon, None),
            ),
    {
        proof {
            use_type_invariant(self);
            self.lemma_block_limits(plane, x0 as int, y0 as int);
        }
        let (ox, oy) = self.plane_origin(plane);
        let edges = Av2LossyEdges { state: self, plane, edge: Av2LossyEdgeSource::Recon, coded: None };
        av2_v_predictor_from_edges(self.bit_depth, ox, oy, x0, y0, local_x, &edges)
    }

    /// Horizontal predictor of row `local_y` while scoring.
    pub fn h_predictor_for_score(
        &self,
        plane: Av2LossyPlane,
        x0: usize,
        y0: usize,
        local_y: usize,
        context: Av2LossyLeafPredictorContext,
    ) -> (r: Av2Sample)
        requires
            self.block_in_plane(plane, x0 as int, y0 as int),
            local_y < TX4X4_SIZE,
            context.ok(),
        ensures
            r as int == h_from_edges_spec(
                self.bit_depth_view(),
                self.plane_spec(plane).origin_x as int,
                self.plane_spec(plane).origin_y as int,
                x0 as int,
                y0 as int,
                local_y as int,
                &self.edges_view(plane, context.score_source(), None),
            ),
    {
        proof {
            use_type_invariant(self);
            self.lemma_block_limits(plane, x0 as int, y0 as int);
        }
        let (ox, oy) = self.plane_origin(plane);
        let edge = Av2LossyEdgeSource::ScoreLeaf {
            leaf_x0: context.leaf_x0,
            leaf_y0: context.leaf_y0,
            leaf_width: context.leaf_width,
            leaf_height: context.leaf_height,
        };
        let edges = Av2LossyEdges { state: self, plane, edge, coded: None };
        av2_h_predictor_from_edges(self.bit_depth, ox, oy, x0, y0, local_y, &edges)
    }

    /// Vertical predictor of column `local_x` while scoring.
    pub fn v_predictor_for_score(
        &self,
        plane: Av2LossyPlane,
        x0: usize,
        y0: usize,
        local_x: usize,
        context: Av2LossyLeafPredictorContext,
    ) -> (r: Av2Sample)
        requires
            self.block_in_plane(plane, x0 as int, y0 as int),
            local_x < TX4X4_SIZE,
            context.ok(),
        ensures
            r as int == v_from_edges_spec(
                self.bit_depth_view(),
                self.plane_spec(plane).origin_x as int,
                self.plane_spec(plane).origin_y as int,
                x0 as int,
                y0 as int,
                local_x as int,
                &self.edges_view(plane, context.score_source(), None),
            ),
    {
        proof {
            use_type_invariant(self);
            self.lemma_block_limits(plane, x0 as int, y0 as int);
        }
        let (ox, oy) = self.plane_origin(plane);
        let edge = Av2LossyEdgeSource::ScoreLeaf {
            leaf_x0: context.leaf_x0,
            leaf_y0: context.leaf_y0,
            leaf_width: context.leaf_width,
            leaf_height: context.leaf_height,
        };
        let edges = Av2LossyEdges { state: self, plane, edge, coded: None };
        av2_v_predictor_from_edges(self.bit_depth, ox, oy, x0, y0, local_x, &edges)
    }

    /// Above-left corner predictor from the given edges.
    pub fn above_left_predictor_with(&self, plane: Av2LossyPlane, x0: usize, y0: usize, edge: Av2LossyEdgeSource) -> (r: Av2Sample)
        requires
            self.block_in_plane(plane, x0 as int, y0 as int),
            lossy_edge_ok(edge),
        ensures
            r as int == above_left_from_edges_spec(
                self.bit_depth_view(),
                self.plane_spec(plane).origin_x as int,
                self.plane_spec(plane).origin_y as int,
                x0 as int,
                y0 as int,
                &self.edges_view(plane, edge, None),
            ),
    {
        let (ox, oy) = self.plane_origin(plane);
        let edges = Av2LossyEdges { state: self, plane, edge, coded: None };
        av2_above_left_predictor_from_edges(self.bit_depth, ox, oy, x0, y0, &edges)
    }

    /// Above-left corner predictor while scoring.
    pub fn above_left_predictor_for_score(
        &self,
        plane: Av2LossyPlane,
        x0: usize,
        y0: usize,
        context: Av2LossyLeafPredictorContext,
    ) -> (r: Av2Sample)
        requires
            self.block_in_plane(plane, x0 as int, y0 as int),
            context.ok(),
        ensures
            r as int == above_left_from_edges_spec(
                self.bit_depth_view(),
                self.plane_spec(plane).origin_x as int,
                self.plane_spec(plane).origin_y as int,
                x0 as int,
                y0 as int,
                &self.edges_view(plane, context.score_source(), None),
            ),
    {
        let edge = Av2LossyEdgeSource::ScoreLeaf {
            leaf_x0: context.leaf_x0,
            leaf_y0: context.leaf_y0,
            leaf_width: context.leaf_width,
            leaf_height: context.leaf_height,
        };
        self.above_left_predictor_with(plane, x0, y0, edge)
    }

    /// Directional above edge of a block from the given edges, limited to the
    /// tile region.
    pub fn directional_above_edge_with(
        &self,
        plane: Av2LossyPlane,
        x0: usize,
        y0: usize,
        context: Av2LossyLeafPredictorContext,
        edge: Av2LossyEdgeSource,
    ) -> (r: [Av2Sample; 8])
        requires
            self.block_in_plane(plane, x0 as int, y0 as int),
            context.ok(),
            lossy_edge_ok(edge),
        ensures
            forall|i: int| 0 <= i < 8 ==> #[trigger] r[i] as int == directional_above_spec(
                self.edge_context_spec(plane, context),
                x0 as int,
                y0 as int,
                &self.edges_view(plane, edge, Some(context.coded_mi_context)),
                i,
            ),
    {
        proof {
            use_type_invariant(self);
            self.lemma_block_limits(plane, x0 as int, y0 as int);
        }
        let ctx = Av2IntraEdgeContext {
            bit_depth: self.bit_depth,
            tile_origin: self.plane_origin(plane),
            plane_size: self.plane_geometry(plane),
            edge_limit: self.plane_region_limit(plane),
            subsampling: self.plane_subsampling(plane),
            leaf_origin: (context.leaf_x0, context.leaf_y0),
            leaf_size: (context.leaf_width, context.leaf_height),
        };
        let edges = Av2LossyEdges { state: self, plane, edge, coded: Some(context.coded_mi_context) };
        av2_directional_above_edge(ctx, x0, y0, &edges)
    }

    /// Directional left edge of a block from the given edges, limited to the
    /// tile region.
    pub fn directional_left_edge_with(
        &self,
        plane: Av2LossyPlane,
        x0: usize,
        y0: usize,
        context: Av2LossyLeafPredictorContext,
        edge: Av2LossyEdgeSource,
    ) -> (r: [Av2Sample; 8])
        requires
            self.block_in_plane(plane, x0 as int, y0 as int),
            context.ok(),
            lossy_edge_ok(edge),
        ensures
            forall|i: int| 0 <= i < 8 ==> #[trigger] r[i] as int == directional_left_spec(
                self.edge_context_spec(plane, context),
                x0 as int,
                y0 as int,
                &self.edges_view(plane, edge, Some(context.coded_mi_context)),
                i,
            ),
    {
        proof {
            use_type_invariant(self);
            self.lemma_block_limits(plane, x0 as int, y0 as int);
        }
        let ctx = Av2IntraEdgeContext {
            bit_depth: self.bit_depth,
            tile_origin: self.plane_origin(plane),
            plane_size: self.plane_geometry(plane),
            edge_limit: self.plane_region_limit(plane),
            subsampling: self.plane_subsampling(plane),
            leaf_origin: (context.leaf_x0, context.leaf_y0),
            leaf_size: (context.leaf_width, context.leaf_height),
        };
        let edges = Av2LossyEdges { state: self, plane, edge, coded: Some(context.coded_mi_context) };
        av2_directional_left_edge(ctx, x0, y0, &edges)
    }

    /// Whether `r` holds the smooth-predictor edges of a block from the given
    /// edges.
    pub open spec fn smooth_edges_are(
        &self,
        r: ([Av2Sample; 5], [Av2Sample; 5]),
        plane: Av2LossyPlane,
        x0: usize,
        y0: usize,
        context: Av2LossyLeafPredictorContext,
        edge: Av2LossyEdgeSource,
    ) -> bool {
        let ctx = self.edge_context_spec(plane, context);
        let edges = self.edges_view(plane, edge, Some(context.coded_mi_context));
        &&& forall|i: int| 0 <= i < 5 ==> #[trigger] r.0[i] as int == smooth_above_spec(ctx, x0 as int, y0 as int, &edges, i)
        &&& forall|i: int| 0 <= i < 5 ==> #[trigger] r.1[i] as int == smooth_left_spec(ctx, x0 as int, y0 as int, &edges, i)
    }

    /// Smooth-predictor edges of a block from the given edges.
    pub fn smooth_edges_with(
        &self,
        plane: Av2LossyPlane,
        x0: usize,
        y0: usize,
        context: Av2LossyLeafPredictorContext,
        edge: Av2LossyEdgeSource,
    ) -> (r: ([Av2Sample; 5], [Av2Sample; 5]))
        requires
            self.block_in_plane(plane, x0 as int, y0 as int),
            context.ok(),
            lossy_edge_ok(edge),
        ensures
            self.smooth_edges_are(r, plane, x0, y0, context, edge),
    {
        proof {
            use_type_invariant(self);
            self.lemma_block_limits(plane, x0 as int, y0 as int);
        }
        let ctx = Av2IntraEdgeContext {
            bit_depth: self.bit_depth,
            tile_origin: self.plane_origin(plane),
            plane_size: self.plane_geometry(plane),
            edge_limit: self.plane_region_limit(plane),
            subsampling: self.plane_subsampling(plane),
            leaf_origin: (context.leaf_x0, context.leaf_y0),
            leaf_size: (context.leaf_width, context.leaf_height),
        };
        let edges = Av2LossyEdges { state: self, plane, edge, coded: Some(context.coded_mi_context) };
        av2_smooth_intra_edges(ctx, x0, y0, &edges)
    }

    /// Smooth-predictor edges from the reconstruction.
    pub fn smooth_edges(
        &self,
        plane: Av2LossyPlane,
        x0: usize,
        y0: usize,
        context: Av2LossyLeafPredictorContext,
    ) -> (r: ([Av2Sample; 5], [Av2Sample; 5]))
        requires
            self.block_in_plane(plane, x0 as int, y0 as int),
            context.ok(),
        ensures
            self.smooth_edges_are(r, plane, x0, y0, context, Av2LossyEdgeSource::Recon),
    {
        self.smooth_edges_with(plane, x0, y0, context, Av2LossyEdgeSource::Recon)
    }

    /// Smooth-predictor edges while scoring the leaf of `context`.
    pub fn smooth_edges_for_score(
        &self,
        plane: Av2LossyPlane,
        x0: usize,
        y0: usize,
        context: Av2LossyLeafPredictorContext,
    ) -> (r: ([Av2Sample; 5], [Av2Sample; 5]))
        requires
            self.block_in_plane(plane, x0 as int, y0 as int),
            context.ok(),
        ensures
            self.smooth_edges_are(r, plane, x0, y0, context, context.score_source()),
    {
        let edge = Av2LossyEdgeSource::ScoreLeaf {
            leaf_x0: context.leaf_x0,
            leaf_y0: context.leaf_y0,
            leaf_width: context.leaf_width,
            leaf_height: context.leaf_height,
        };
        self.smooth_edges_with(plane, x0, y0, context, edge)
    }
}

/// How a 4:4:4 chroma leaf is intra predicted from its reconstructed edges.
#[derive(Clone, Copy)]
pub struct Av2Chroma444IntraPredictorPlan {
    pub leaf_x0: usize,
    pub leaf_y0: usize,
    pub visible_width: usize,
    pub visible_height: usize,
    pub have_left: bool,
    pub have_top: bool,
    pub dc_pred: Av2Sample,
    pub above_left: Av2Sample,
    pub mode: Av2ChromaIntraMode,
    pub bit_depth: SampleBitDepth,
}

impl Av2Chroma444IntraPredictorPlan {
    /// The left and above neighbours of leaf sample `(local_x, local_y)`.
    pub open spec fn left_spec(self, lossy: &Av2LossySubsampledTileState, plane: Av2LossyPlane, local_y: int) -> int {
        if self.have_left {
            lossy.recon_sample_spec(plane, self.leaf_x0 - 1, self.leaf_y0 + local_y)
        } else if self.have_top {
            lossy.recon_sample_spec(plane, self.leaf_x0 as int, self.leaf_y0 - 1)
        } else {
            mid_sample_spec(self.bit_depth@) + 1
        }
    }

    pub open spec fn above_spec(self, lossy: &Av2LossySubsampledTileState, plane: Av2LossyPlane, local_x: int) -> int {
        if self.have_top {
            lossy.recon_sample_spec(plane, self.leaf_x0 + local_x, self.leaf_y0 - 1)
        } else if self.have_left {
            lossy.recon_sample_spec(plane, self.leaf_x0 - 1, self.leaf_y0 as int)
        } else {
            mid_sample_spec(self.bit_depth@) - 1
        }
    }

    /// The predicted sample at `(local_x, local_y)` of the leaf: DC, left,
    /// above, Paeth of those, or the range midpoint for other modes.
    pub open spec fn sample_spec(self, lossy: &Av2LossySubsampledTileState, plane: Av2LossyPlane, local_x: int, local_y: int) -> int {
        match self.mode {
            Av2ChromaIntraMode::Dc => self.dc_pred as int,
            Av2ChromaIntraMode::Horizontal => self.left_spec(lossy, plane, local_y),
            Av2ChromaIntraMode::Vertical => self.above_spec(lossy, plane, local_x),
            Av2ChromaIntraMode::Paeth => paeth_spec(
                self.left_spec(lossy, plane, local_y),
                self.above_spec(lossy, plane, local_x),
                self.above_left as int,
            ),
            _ => mid_sample_spec(self.bit_depth@),
        }
    }

    /// Predicted sample at `(local_x, local_y)` of the leaf.
    pub fn sample(self, lossy: &Av2LossySubsampledTileState, plane: Av2LossyPlane, local_x: usize, local_y: usize) -> (r: Av2Sample)
        requires
            self.have_left ==> self.leaf_x0 >= 1 && lossy.in_plane(plane, self.leaf_x0 - 1, self.leaf_y0 + local_y)
                && lossy.in_plane(plane, self.leaf_x0 - 1, self.leaf_y0 as int),
            self.have_top ==> self.leaf_y0 >= 1 && lossy.in_plane(plane, self.leaf_x0 + local_x, self.leaf_y0 - 1)
                && lossy.in_plane(plane, self.leaf_x0 as int, self.leaf_y0 - 1),
        ensures
            r as int == self.sample_spec(lossy, plane, local_x as int, local_y as int),
    {
        let left = if self.have_left {
            lossy.recon_sample(plane, self.leaf_x0 - 1, self.leaf_y0 + local_y)
        } else if self.have_top {
            lossy.recon_sample(plane, self.leaf_x0, self.leaf_y0 - 1)
        } else {
            av2_lossless_h_pred_left_edge(self.bit_depth)
        };
        let above = if self.have_top {
            lossy.recon_sample(plane, self.leaf_x0 + local_x, self.leaf_y0 - 1)
        } else if self.have_left {
            lossy.recon_sample(plane, self.leaf_x0 - 1, self.leaf_y0)
        } else {
            av2_lossless_v_pred_above_edge(self.bit_depth)
        };
        match self.mode {
            Av2ChromaIntraMode::Dc => self.dc_pred,
            Av2ChromaIntraMode::Horizontal => left,
            Av2ChromaIntraMode::Vertical => above,
            Av2ChromaIntraMode::Paeth => paeth_predictor(left, above, self.above_left),
            _ => av2_lossless_dc_predictor(self.bit_depth),
        }
    }
}

} // verus!
