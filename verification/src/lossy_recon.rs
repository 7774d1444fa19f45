use vstd::prelude::*;
use crate::geometry::TX4X4_SIZE;
use crate::lossless_state::byte_in_rect;
use crate::lossless_state::sample_byte;
use crate::lossy_state::Av2LossyPlane;
use crate::lossy_state::Av2LossySubsampledTileState;
use crate::lossy_state::Av2LossyTxbAnalysis;
use crate::lossy_state::dpcm_recon_samples_and_sse;
use crate::lossy_state::dpcm_recon_spec;
use crate::lossy_state::lemma_dpcm_recon_range;
use crate::planar_layout::Av2PlaneLayout;
use crate::sample::Av2Sample;
use crate::sample::bytes_per_sample_spec;
use crate::sample::max_sample_spec;

verus! {

/// Samples that fit the stored width: one byte per sample at 8 bits.
pub open spec fn block_samples_fit(bps: int, samples: Seq<Av2Sample>) -> bool {
    bps == 1 ==> forall|p: int| 0 <= p < samples.len() ==> #[trigger] samples[p] <= 255
}

/// `after` is `before` with the 4x4 block at `(x0, y0)` of `plane` holding
/// `samples` (raster order) and every byte outside the block unchanged.
pub open spec fn block_written(
    before: &Av2LossySubsampledTileState,
    after: &Av2LossySubsampledTileState,
    plane: Av2LossyPlane,
    x0: int,
    y0: int,
    samples: Seq<Av2Sample>,
) -> bool {
    &&& after.layout_view() == before.layout_view()
    &&& after.bit_depth_view() == before.bit_depth_view()
    &&& after.chroma_format_view() == before.chroma_format_view()
    &&& after.base_qindex_view() == before.base_qindex_view()
    &&& after.source_view() == before.source_view()
    &&& after.recon_view().len() == before.recon_view().len()
    &&& forall|x: int, y: int|
        x0 <= x < x0 + 4 && y0 <= y < y0 + 4 ==> #[trigger] after.recon_sample_spec(plane, x, y) == samples[(y - y0)
            * 4 + (x - x0)]
    &&& forall|b: int|
        0 <= b < before.recon_view().len() && !byte_in_rect(
            before.plane_spec(plane),
            bytes_per_sample_spec(before.bit_depth_view()@),
            x0,
            x0 + 4,
            y0,
            y0 + 4,
            b,
        ) ==> #[trigger] after.recon_view()[b] == before.recon_view()[b]
}

/// Distinct samples of a plane have distinct buffer indices.
pub proof fn lemma_distinct_plane_index(p: Av2PlaneLayout, x: int, y: int, x2: int, y2: int)
    requires
        0 <= x < p.width,
        0 <= x2 < p.width,
        0 <= y,
        0 <= y2,
        x != x2 || y != y2,
    ensures
        p.index_spec(x, y) != p.index_spec(x2, y2),
{
    if y < y2 {
        assert(y * p.width + x < y2 * p.width + x2) by (nonlinear_arith)
            requires
                0 <= x < p.width,
                0 <= x2,
                y < y2,
        ;
    } else if y2 < y {
        assert(y2 * p.width + x2 < y * p.width + x) by (nonlinear_arith)
            requires
                0 <= x2 < p.width,
                0 <= x,
                y2 < y,
        ;
    }
}

/// The bytes of a sample of a rectangle lie in the rectangle's bytes.
pub proof fn lemma_sample_in_rect_bytes(p: Av2PlaneLayout, bps: int, x0: int, x_end: int, y0: int, y_end: int, x: int, y: int)
    requires
        bps == 1 || bps == 2,
        x0 <= x < x_end,
        y0 <= y < y_end,
    ensures
        forall|b: int|
            p.index_spec(x, y) * bps <= b < (p.index_spec(x, y) + 1) * bps ==> #[trigger] byte_in_rect(
                p,
                bps,
                x0,
                x_end,
                y0,
                y_end,
                b,
            ),
{
    assert forall|b: int| p.index_spec(x, y) * bps <= b < (p.index_spec(x, y) + 1) * bps implies #[trigger] byte_in_rect(
        p,
        bps,
        x0,
        x_end,
        y0,
        y_end,
        b,
    ) by {
        assert(sample_byte(p, bps, x0, y) <= b < sample_byte(p, bps, x_end, y)) by (nonlinear_arith)
            requires
                bps == 1 || bps == 2,
                x0 <= x < x_end,
                p.index_spec(x, y) * bps <= b < (p.index_spec(x, y) + 1) * bps,
                p.index_spec(x, y) == p.base + y * p.width + x,
                sample_byte(p, bps, x0, y) == (p.base + y * p.width + x0) * bps,
                sample_byte(p, bps, x_end, y) == (p.base + y * p.width + x_end) * bps,
        ;
    }
}

impl<'a> Av2LossySubsampledTileState<'a> {
    /// Stores sixteen samples (raster order) as the reconstruction of the
    /// 4x4 block at `(x0, y0)`.
    pub fn write_recon_block4x4(&mut self, plane: Av2LossyPlane, x0: usize, y0: usize, samples: &[Av2Sample; 16])
        requires
            old(self).block_in_plane(plane, x0 as int, y0 as int),
            block_samples_fit(bytes_per_sample_spec(old(self).bit_depth_view()@), samples@),
        ensures
            block_written(old(self), final(self), plane, x0 as int, y0 as int, samples@),
    {
        let ghost p = self.plane_spec(plane);
        let ghost bps = bytes_per_sample_spec(self.bit_depth_view()@);
        let ghost x0i = x0 as int;
        let ghost y0i = y0 as int;
        let mut local_y: usize = 0;
        while local_y < TX4X4_SIZE
            invariant
                local_y <= 4,
                p == old(self).plane_spec(plane),
                bps == bytes_per_sample_spec(old(self).bit_depth_view()@),
                bps == 1 || bps == 2,
                x0i == x0,
                y0i == y0,
                old(self).block_in_plane(plane, x0 as int, y0 as int),
                block_samples_fit(bps, samples@),
                self.layout_view() == old(self).layout_view(),
                self.bit_depth_view() == old(self).bit_depth_view(),
                self.chroma_format_view() == old(self).chroma_format_view(),
                self.base_qindex_view() == old(self).base_qindex_view(),
                self.source_view() == old(self).source_view(),
                self.recon_view().len() == old(self).recon_view().len(),
                forall|x: int, y: int|
                    x0i <= x < x0i + 4 && y0i <= y < y0i + local_y ==> #[trigger] self.recon_sample_spec(plane, x, y)
                        == samples[(y - y0i) * 4 + (x - x0i)],
                forall|b: int|
                    0 <= b < old(self).recon_view().len() && !byte_in_rect(p, bps, x0i, x0i + 4, y0i, y0i + 4, b)
                        ==> #[trigger] self.recon_view()[b] == old(self).recon_view()[b],
            decreases 4 - local_y,
        {
            let y = y0 + local_y;
            let mut local_x: usize = 0;
            while local_x < TX4X4_SIZE
                invariant
                    local_y < 4,
                    local_x <= 4,
                    y == y0 + local_y,
                    p == old(self).plane_spec(plane),
                    bps == bytes_per_sample_spec(old(self).bit_depth_view()@),
                    bps == 1 || bps == 2,
                    x0i == x0,
                    y0i == y0,
                    old(self).block_in_plane(plane, x0 as int, y0 as int),
                    block_samples_fit(bps, samples@),
                    self.layout_view() == old(self).layout_view(),
                    self.bit_depth_view() == old(self).bit_depth_view(),
                    self.chroma_format_view() == old(self).chroma_format_view(),
                    self.base_qindex_view() == old(self).base_qindex_view(),
                    self.source_view() == old(self).source_view(),
                    self.recon_view().len() == old(self).recon_view().len(),
                    forall|x: int, yy: int|
                        x0i <= x < x0i + 4 && y0i <= yy < y0i + local_y ==> #[trigger] self.recon_sample_spec(plane, x, yy)
                            == samples[(yy - y0i) * 4 + (x - x0i)],
                    forall|x: int|
                        x0i <= x < x0i + local_x ==> #[trigger] self.recon_sample_spec(plane, x, y as int) == samples[(y
                            - y0i) * 4 + (x - x0i)],
                    forall|b: int|
                        0 <= b < old(self).recon_view().len() && !byte_in_rect(p, bps, x0i, x0i + 4, y0i, y0i + 4, b)
                            ==> #[trigger] self.recon_view()[b] == old(self).recon_view()[b],
                decreases 4 - local_x,
            {
                let x = x0 + local_x;
                let index = local_y * TX4X4_SIZE + local_x;
                let ghost before = *self;
                proof {
                    lemma_sample_in_rect_bytes(p, bps, x0i, x0i + 4, y0i, y0i + 4, x as int, y as int);
                    assert(samples[index as int] == samples[(y - y0i) * 4 + (x - x0i)]);
                }
                self.set_recon_sample(plane, x, y, samples[index]);
                proof {
                    assert forall|xx: int, yy: int|
                        x0i <= xx < x0i + 4 && y0i <= yy < y0i + local_y implies #[trigger] self.recon_sample_spec(
                        plane,
                        xx,
                        yy,
                    ) == samples[(yy - y0i) * 4 + (xx - x0i)] by {
                        lemma_distinct_plane_index(p, xx, yy, x as int, y as int);
                        assert(before.recon_sample_spec(plane, xx, yy) == samples[(yy - y0i) * 4 + (xx - x0i)]);
                    }
                    assert forall|xx: int| x0i <= xx < x0i + local_x + 1 implies #[trigger] self.recon_sample_spec(
                        plane,
                        xx,
                        y as int,
                    ) == samples[(y - y0i) * 4 + (xx - x0i)] by {
                        if xx < x0i + local_x {
                            lemma_distinct_plane_index(p, xx, y as int, x as int, y as int);
                            assert(before.recon_sample_spec(plane, xx, y as int) == samples[(y - y0i) * 4 + (xx - x0i)]);
                        }
                    }
                    assert forall|b: int|
                        0 <= b < old(self).recon_view().len() && !byte_in_rect(p, bps, x0i, x0i + 4, y0i, y0i + 4, b) implies #[trigger] self.recon_view()[b]
                        == old(self).recon_view()[b] by {
                        assert(before.recon_view()[b] == old(self).recon_view()[b]);
                    }
                }
                local_x = local_x + 1;
            }
            local_y = local_y + 1;
        }
    }
}

/// BDPCM reconstruction of an analysed block under `residual`, as stored
/// samples in raster order.
pub open spec fn dpcm_recon_block_spec(analysis: Av2LossyTxbAnalysis, residual: Seq<i32>, horz: bool, max_sample: int) -> Seq<Av2Sample> {
    Seq::new(16, |i: int| dpcm_recon_spec(analysis.predictor@, residual, horz, max_sample, i) as Av2Sample)
}

impl<'a> Av2LossySubsampledTileState<'a> {
    /// Reconstructs the 4x4 block at `(x0, y0)` as its analysed source,
    /// which a lossless choice codes exactly.
    pub fn copy_source_to_recon_txb(&mut self, plane: Av2LossyPlane, x0: usize, y0: usize, analysis: &Av2LossyTxbAnalysis)
        requires
            old(self).block_in_plane(plane, x0 as int, y0 as int),
            block_samples_fit(bytes_per_sample_spec(old(self).bit_depth_view()@), analysis.source@),
        ensures
            block_written(old(self), final(self), plane, x0 as int, y0 as int, analysis.source@),
    {
        self.write_recon_block4x4(plane, x0, y0, &analysis.source);
    }

    /// Reconstructs the 4x4 block at `(x0, y0)` by BDPCM from its analysed
    /// predictor and the coded `residual`: each sample is the residual added
    /// to the reconstructed sample before it along the prediction direction
    /// (the predictor for the first column or row), clamped to the sample
    /// range.
    pub fn fill_dpcm_residual_recon_txb(
        &mut self,
        plane: Av2LossyPlane,
        x0: usize,
        y0: usize,
        analysis: &Av2LossyTxbAnalysis,
        residual: &[i32; 16],
        horz: bool,
    )
        requires
            old(self).block_in_plane(plane, x0 as int, y0 as int),
            forall|i: int| 0 <= i < 16 ==> -0x4000_0000 <= #[trigger] residual[i] <= 0x4000_0000,
        ensures
            block_written(
                old(self),
                final(self),
                plane,
                x0 as int,
                y0 as int,
                dpcm_recon_block_spec(*analysis, residual@, horz, max_sample_spec(old(self).bit_depth_view()@)),
            ),
    {
        let bit_depth = self.bit_depth();
        let max_sample = bit_depth.max_sample() as i32;
        let (recon_samples, _) = dpcm_recon_samples_and_sse(analysis, residual, horz, max_sample);
        let ghost expected = dpcm_recon_block_spec(*analysis, residual@, horz, max_sample as int);
        proof {
            if bytes_per_sample_spec(bit_depth@) == 1 {
                vstd::arithmetic::power2::lemma2_to64();
            }
        }
        let mut samples: [Av2Sample; 16] = [0; 16];
        let mut i: usize = 0;
        while i < 16
            invariant
                i <= 16,
                0 <= max_sample <= 65535,
                bytes_per_sample_spec(bit_depth@) == 1 ==> max_sample <= 255,
                expected == dpcm_recon_block_spec(*analysis, residual@, horz, max_sample as int),
                forall|k: int| 0 <= k < 16 ==> #[trigger] recon_samples[k] as int == dpcm_recon_spec(analysis.predictor@, residual@, horz, max_sample as int, k),
                forall|k: int| 0 <= k < i ==> #[trigger] samples[k] == expected[k],
                forall|k: int| 0 <= k < i ==> #[trigger] samples[k] <= max_sample,
            decreases 16 - i,
        {
            proof {
                lemma_dpcm_recon_range(analysis.predictor@, residual@, horz, max_sample as int, i as int);
            }
            samples[i] = recon_samples[i] as Av2Sample;
            i = i + 1;
        }
        proof {
            assert(samples@ =~= expected);
        }
        self.write_recon_block4x4(plane, x0, y0, &samples);
    }
}

} // verus!
