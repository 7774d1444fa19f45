use vstd::prelude::*;
use crate::geometry::MI_SIZE;
use crate::geometry::TX4X4_SIZE;
use crate::sample::Av2ChromaFormat;
use crate::sample::SampleBitDepth;
use crate::sample::bytes_per_sample_spec;

verus! {

/// Luma dimensions of a frame.
#[derive(Clone, Copy, Debug, PartialEq, Eq, Structural)]
pub struct Av2VideoGeometry {
    pub width: usize,
    pub height: usize,
}

/// A tile: a rectangle of the frame in luma samples.
#[derive(Clone, Copy, Debug, PartialEq, Eq, Structural)]
pub struct Av2TileRegion {
    pub origin_x: usize,
    pub origin_y: usize,
    pub width: usize,
    pub height: usize,
}

impl Av2TileRegion {
    /// The region that covers the whole frame.
    pub fn root(geometry: Av2VideoGeometry) -> (r: Self)
        ensures
            r.origin_x == 0,
            r.origin_y == 0,
            r.width == geometry.width,
            r.height == geometry.height,
    {
        Av2TileRegion { origin_x: 0, origin_y: 0, width: geometry.width, height: geometry.height }
    }
}

/// The three planes of a planar picture.
#[derive(Clone, Copy, Debug, PartialEq, Eq, Structural)]
pub enum Av2PlanarPlane {
    Y,
    U,
    V,
}

/// Horizontal and vertical subsampling of a plane.
pub open spec fn subsampling_spec(format: Av2ChromaFormat, plane: Av2PlanarPlane) -> (int, int) {
    match plane {
        Av2PlanarPlane::Y => (1, 1),
        _ => match format {
            Av2ChromaFormat::Yuv420 => (2, 2),
            Av2ChromaFormat::Yuv422 => (2, 1),
            Av2ChromaFormat::Yuv444 => (1, 1),
        },
    }
}

/// `a / b` rounded up.
pub open spec fn div_ceil_spec(a: int, b: int) -> int {
    (a + b - 1) / b
}

/// Number of samples in the three planes of a frame together.
pub open spec fn frame_samples_spec(geometry: Av2VideoGeometry, format: Av2ChromaFormat) -> int {
    let (sx, sy) = subsampling_spec(format, Av2PlanarPlane::U);
    geometry.width * geometry.height + 2 * (div_ceil_spec(geometry.width as int, sx) * div_ceil_spec(
        geometry.height as int,
        sy,
    ))
}

/// Whether a region lies inside the frame and the frame's bytes fit in memory.
pub open spec fn valid_shape_spec(
    geometry: Av2VideoGeometry,
    region: Av2TileRegion,
    format: Av2ChromaFormat,
    bit_depth: SampleBitDepth,
) -> bool {
    &&& region.origin_x + region.width <= geometry.width
    &&& region.origin_y + region.height <= geometry.height
    &&& frame_samples_spec(geometry, format) * bytes_per_sample_spec(bit_depth@) <= usize::MAX
}

/// Where one plane of a tile lies in the planar sample buffer.
#[derive(Clone, Copy, Debug, PartialEq, Eq, Structural)]
pub struct Av2PlaneLayout {
    /// Plane size in samples.
    pub width: usize,
    pub height: usize,
    /// First sample of the tile in the plane.
    pub origin_x: usize,
    pub origin_y: usize,
    /// One past the last sample of the tile in the plane.
    pub limit_x: usize,
    pub limit_y: usize,
    /// Subsampling relative to luma.
    pub sub_x: usize,
    pub sub_y: usize,
    /// Index of the plane's first sample in the buffer (rows are `width` apart).
    pub base: usize,
}

impl Av2PlaneLayout {
    /// Consistency of one plane's placement within `total` samples.
    pub open spec fn wf(self, total: int) -> bool {
        &&& self.sub_x == 1 || self.sub_x == 2
        &&& self.sub_y == 1 || self.sub_y == 2
        &&& self.origin_x <= self.limit_x <= self.width
        &&& self.origin_y <= self.limit_y <= self.height
        &&& self.base + self.width * self.height <= total
    }

    /// Sample index of `(x, y)` in the buffer.
    pub open spec fn index_spec(self, x: int, y: int) -> int {
        self.base + y * self.width + x
    }
}

/// Placement of a tile's three planes in a planar frame buffer: Y, then U,
/// then V, each plane stored row by row with its own width as stride.
#[derive(Clone, Copy, Debug, PartialEq, Eq, Structural)]
pub struct Av2PlanarTileLayout {
    pub y: Av2PlaneLayout,
    pub u: Av2PlaneLayout,
    pub v: Av2PlaneLayout,
    /// Number of samples in the frame.
    pub total_samples: usize,
    pub bytes_per_sample: usize,
}

/// The layout built for a frame shape.
pub open spec fn layout_spec(
    geometry: Av2VideoGeometry,
    region: Av2TileRegion,
    format: Av2ChromaFormat,
    bit_depth: SampleBitDepth,
) -> Av2PlanarTileLayout {
    let (sx, sy) = subsampling_spec(format, Av2PlanarPlane::U);
    let cw = div_ceil_spec(geometry.width as int, sx);
    let ch = div_ceil_spec(geometry.height as int, sy);
    let luma = geometry.width * geometry.height;
    Av2PlanarTileLayout {
        y: Av2PlaneLayout {
            width: geometry.width,
            height: geometry.height,
            origin_x: region.origin_x,
            origin_y: region.origin_y,
            limit_x: (region.origin_x + region.width) as usize,
            limit_y: (region.origin_y + region.height) as usize,
            sub_x: 1,
            sub_y: 1,
            base: 0,
        },
        u: Av2PlaneLayout {
            width: cw as usize,
            height: ch as usize,
            origin_x: (region.origin_x as int / sx) as usize,
            origin_y: (region.origin_y as int / sy) as usize,
            limit_x: div_ceil_spec(region.origin_x + region.width, sx) as usize,
            limit_y: div_ceil_spec(region.origin_y + region.height, sy) as usize,
            sub_x: sx as usize,
            sub_y: sy as usize,
            base: luma as usize,
        },
        v: Av2PlaneLayout {
            width: cw as usize,
            height: ch as usize,
            origin_x: (region.origin_x as int / sx) as usize,
            origin_y: (region.origin_y as int / sy) as usize,
            limit_x: div_ceil_spec(region.origin_x + region.width, sx) as usize,
            limit_y: div_ceil_spec(region.origin_y + region.height, sy) as usize,
            sub_x: sx as usize,
            sub_y: sy as usize,
            base: (luma + cw * ch) as usize,
        },
        total_samples: frame_samples_spec(geometry, format) as usize,
        bytes_per_sample: bytes_per_sample_spec(bit_depth@) as usize,
    }
}

proof fn lemma_div_ceil_bounds(a: int, b: int)
    requires
        0 <= a,
        b == 1 || b == 2,
    ensures
        0 <= div_ceil_spec(a, b) <= a,
        a / b <= div_ceil_spec(a, b),
{
}

proof fn lemma_div_ceil_monotone(a: int, c: int, b: int)
    requires
        0 <= a <= c,
        b == 1 || b == 2,
    ensures
        div_ceil_spec(a, b) <= div_ceil_spec(c, b),
        a / b <= c / b,
{
}

/// `a * b <= c * d` when `a <= c` and `b <= d`, all nonnegative.
pub proof fn lemma_mul_le(a: int, b: int, c: int, d: int)
    requires
        0 <= a <= c,
        0 <= b <= d,
    ensures
        a * b <= c * d,
{
    assert(a * b <= c * d) by (nonlinear_arith)
        requires
            0 <= a <= c,
            0 <= b <= d,
    ;
}

/// A sample inside a `width` by `height` plane has an index below the
/// plane's size.
pub proof fn lemma_index_in_plane(x: int, y: int, width: int, height: int)
    requires
        0 <= x < width,
        0 <= y < height,
    ensures
        0 <= y * width + x < width * height,
        y * width + width <= width * height,
        width * height == height * width,
        0 <= y * width,
{
    lemma_mul_le(y + 1, width, height, width);
    assert((y + 1) * width == y * width + width) by (nonlinear_arith);
    assert(width * height == height * width) by (nonlinear_arith);
    assert(0 <= y * width) by (nonlinear_arith)
        requires
            0 <= y,
            0 <= width,
    ;
}

impl Av2PlanarTileLayout {
    /// Consistency of the three planes: contiguous, inside the buffer, and
    /// small enough to address in bytes.
    pub open spec fn wf(self) -> bool {
        &&& self.y.wf(self.total_samples as int)
        &&& self.u.wf(self.total_samples as int)
        &&& self.v.wf(self.total_samples as int)
        &&& self.bytes_per_sample == 1 || self.bytes_per_sample == 2
        &&& self.total_samples * self.bytes_per_sample <= usize::MAX
    }

    /// The placement of one plane.
    pub open spec fn plane_spec(self, plane: Av2PlanarPlane) -> Av2PlaneLayout {
        match plane {
            Av2PlanarPlane::Y => self.y,
            Av2PlanarPlane::U => self.u,
            Av2PlanarPlane::V => self.v,
        }
    }

    /// Number of bytes of a frame in this layout.
    pub open spec fn frame_len_spec(self) -> int {
        self.total_samples * self.bytes_per_sample
    }

    /// Builds the layout of a frame shape whose region lies in the frame.
    #[verifier::rlimit(50)]
    #[verifier::spinoff_prover]
    pub fn for_validated_shape(
        geometry: Av2VideoGeometry,
        region: Av2TileRegion,
        chroma_format: Av2ChromaFormat,
        bit_depth: SampleBitDepth,
    ) -> (r: Self)
        requires
            valid_shape_spec(geometry, region, chroma_format, bit_depth),
        ensures
            r == layout_spec(geometry, region, chroma_format, bit_depth),
            r.wf(),
    {
        let (sx, sy): (usize, usize) = match chroma_format {
            Av2ChromaFormat::Yuv420 => (2, 2),
            Av2ChromaFormat::Yuv422 => (2, 1),
            Av2ChromaFormat::Yuv444 => (1, 1),
        };
        let w = geometry.width;
        let h = geometry.height;
        let bytes = bit_depth.bytes_per_sample();
        proof {
            lemma_div_ceil_bounds(w as int, sx as int);
            lemma_div_ceil_bounds(h as int, sy as int);
            lemma_mul_le(div_ceil_spec(w as int, sx as int), div_ceil_spec(h as int, sy as int), w as int, h as int);
            assert(0 <= div_ceil_spec(w as int, sx as int) * div_ceil_spec(h as int, sy as int)) by (nonlinear_arith)
                requires
                    0 <= div_ceil_spec(w as int, sx as int),
                    0 <= div_ceil_spec(h as int, sy as int),
            ;
            assert(0 <= w * h) by (nonlinear_arith);
            lemma_div_ceil_monotone(region.origin_x as int, (region.origin_x + region.width) as int, sx as int);
            lemma_div_ceil_monotone(region.origin_y as int, (region.origin_y + region.height) as int, sy as int);
            lemma_div_ceil_monotone((region.origin_x + region.width) as int, w as int, sx as int);
            lemma_div_ceil_monotone((region.origin_y + region.height) as int, h as int, sy as int);
            lemma_div_ceil_bounds(region.origin_x as int, sx as int);
            lemma_div_ceil_bounds(region.origin_y as int, sy as int);
            assert(frame_samples_spec(geometry, chroma_format) <= frame_samples_spec(geometry, chroma_format) * bytes);
        }
        let cw = if w % sx == 0 { w / sx } else { w / sx + 1 };
        let ch = if h % sy == 0 { h / sy } else { h / sy + 1 };
        let luma = w * h;
        let chroma = cw * ch;
        let total = luma + 2 * chroma;
        let limit_x = region.origin_x + region.width;
        let limit_y = region.origin_y + region.height;
        let c_origin_x = region.origin_x / sx;
        let c_origin_y = region.origin_y / sy;
        let c_limit_x = if limit_x % sx == 0 { limit_x / sx } else { limit_x / sx + 1 };
        let c_limit_y = if limit_y % sy == 0 { limit_y / sy } else { limit_y / sy + 1 };
        Av2PlanarTileLayout {
            y: Av2PlaneLayout {
                width: w,
                height: h,
                origin_x: region.origin_x,
                origin_y: region.origin_y,
                limit_x,
                limit_y,
                sub_x: 1,
                sub_y: 1,
                base: 0,
            },
            u: Av2PlaneLayout {
                width: cw,
                height: ch,
                origin_x: c_origin_x,
                origin_y: c_origin_y,
                limit_x: c_limit_x,
                limit_y: c_limit_y,
                sub_x: sx,
                sub_y: sy,
                base: luma,
            },
            v: Av2PlaneLayout {
                width: cw,
                height: ch,
                origin_x: c_origin_x,
                origin_y: c_origin_y,
                limit_x: c_limit_x,
                limit_y: c_limit_y,
                sub_x: sx,
                sub_y: sy,
                base: luma + chroma,
            },
            total_samples: total,
            bytes_per_sample: bytes,
        }
    }

    /// Number of bytes of a frame in this layout.
    pub fn frame_len(&self) -> (r: usize)
        requires
            self.wf(),
        ensures
            r == self.frame_len_spec(),
    {
        self.total_samples * self.bytes_per_sample
    }

    /// The placement of one plane.
    pub fn plane(&self, plane: Av2PlanarPlane) -> (r: Av2PlaneLayout)
        ensures
            r == self.plane_spec(plane),
    {
        match plane {
            Av2PlanarPlane::Y => self.y,
            Av2PlanarPlane::U => self.u,
            Av2PlanarPlane::V => self.v,
        }
    }

    /// Plane size in samples.
    pub fn plane_geometry(&self, plane: Av2PlanarPlane) -> (r: (usize, usize))
        ensures
            r == (self.plane_spec(plane).width, self.plane_spec(plane).height),
    {
        let p = self.plane(plane);
        (p.width, p.height)
    }

    /// The tile's first sample in the plane.
    pub fn plane_origin(&self, plane: Av2PlanarPlane) -> (r: (usize, usize))
        ensures
            r == (self.plane_spec(plane).origin_x, self.plane_spec(plane).origin_y),
    {
        let p = self.plane(plane);
        (p.origin_x, p.origin_y)
    }

    /// One past the tile's last sample in the plane.
    pub fn plane_region_limit(&self, plane: Av2PlanarPlane) -> (r: (usize, usize))
        ensures
            r == (self.plane_spec(plane).limit_x, self.plane_spec(plane).limit_y),
    {
        let p = self.plane(plane);
        (p.limit_x, p.limit_y)
    }

    /// The region limit clipped to the plane.
    pub fn clipped_plane_region_limit(&self, plane: Av2PlanarPlane) -> (r: (usize, usize))
        ensures
            r.0 == (if self.plane_spec(plane).limit_x <= self.plane_spec(plane).width {
                self.plane_spec(plane).limit_x
            } else {
                self.plane_spec(plane).width
            }),
            r.1 == (if self.plane_spec(plane).limit_y <= self.plane_spec(plane).height {
                self.plane_spec(plane).limit_y
            } else {
                self.plane_spec(plane).height
            }),
    {
        let p = self.plane(plane);
        let x = if p.limit_x <= p.width { p.limit_x } else { p.width };
        let y = if p.limit_y <= p.height { p.limit_y } else { p.height };
        (x, y)
    }

    /// Subsampling of the plane relative to luma.
    pub fn plane_subsampling(&self, plane: Av2PlanarPlane) -> (r: (usize, usize))
        ensures
            r == (self.plane_spec(plane).sub_x, self.plane_spec(plane).sub_y),
    {
        let p = self.plane(plane);
        (p.sub_x, p.sub_y)
    }

    /// Distance in samples between vertically adjacent samples of the plane.
    pub fn plane_stride(&self, plane: Av2PlanarPlane) -> (r: usize)
        ensures
            r == self.plane_spec(plane).width,
    {
        self.plane(plane).width
    }

    /// The mode-info unit (row, column) that covers a plane sample.
    pub fn coded_mi_for_plane_sample(&self, plane: Av2PlanarPlane, x: usize, y: usize) -> (r: (usize, usize))
        requires
            self.wf(),
            x < self.plane_spec(plane).width,
            y < self.plane_spec(plane).height,
        ensures
            r.0 == y * self.plane_spec(plane).sub_y / (MI_SIZE as int),
            r.1 == x * self.plane_spec(plane).sub_x / (MI_SIZE as int),
    {
        let p = self.plane(plane);
        proof {
            if p.sub_y == 1 {
                assert(y * 1 == y);
            } else {
                assert(y * 2 / 4 == y / 2) by (nonlinear_arith);
            }
            if p.sub_x == 1 {
                assert(x * 1 == x);
            } else {
                assert(x * 2 / 4 == x / 2) by (nonlinear_arith);
            }
        }
        (y / (MI_SIZE / p.sub_y), x / (MI_SIZE / p.sub_x))
    }

    /// Top-left sample of the 4x4 transform block at (`col`, `row`) of the
    /// tile, counted in the plane's own 4x4 grid.
    pub fn txb_origin(&self, plane: Av2PlanarPlane, col: usize, row: usize) -> (r: (usize, usize))
        requires
            self.plane_spec(plane).origin_x + col * TX4X4_SIZE <= usize::MAX,
            self.plane_spec(plane).origin_y + row * TX4X4_SIZE <= usize::MAX,
        ensures
            r.0 == self.plane_spec(plane).origin_x + col * TX4X4_SIZE,
            r.1 == self.plane_spec(plane).origin_y + row * TX4X4_SIZE,
    {
        let p = self.plane(plane);
        (p.origin_x + col * TX4X4_SIZE, p.origin_y + row * TX4X4_SIZE)
    }

    /// Sample index of plane sample `(x, y)` in the buffer.
    pub fn offset(&self, plane: Av2PlanarPlane, x: usize, y: usize) -> (r: usize)
        requires
            self.wf(),
            x < self.plane_spec(plane).width,
            y < self.plane_spec(plane).height,
        ensures
            r == self.plane_spec(plane).index_spec(x as int, y as int),
            r < self.total_samples,
    {
        let p = self.plane(plane);
        proof {
            lemma_index_in_plane(x as int, y as int, p.width as int, p.height as int);
        }
        p.base + y * p.width + x
    }
}

/// Which mode-info units of a frame are already coded.
pub struct Av2CodedMiContext {
    rows: usize,
    cols: usize,
    coded: Vec<bool>,
}

impl Av2CodedMiContext {
    /// Row-major flags, `rows` by `cols`.
    pub closed spec fn flags(self) -> Seq<bool> {
        self.coded@
    }

    pub closed spec fn rows_spec(self) -> nat {
        self.rows as nat
    }

    pub closed spec fn cols_spec(self) -> nat {
        self.cols as nat
    }

    pub closed spec fn wf(self) -> bool {
        self.coded@.len() == self.rows * self.cols
    }

    /// Whether unit (`row`, `col`) is coded; units outside the frame are not.
    pub open spec fn is_coded_spec(self, row: int, col: int) -> bool {
        0 <= row < self.rows_spec() && 0 <= col < self.cols_spec() && self.flags()[row * self.cols_spec() + col]
    }

    /// A context in which nothing is coded yet.
    pub fn new(rows: usize, cols: usize) -> (r: Self)
        requires
            rows * cols <= usize::MAX,
        ensures
            r.wf(),
            r.rows_spec() == rows,
            r.cols_spec() == cols,
            forall|row: int, col: int| !#[trigger] r.is_coded_spec(row, col),
    {
        let n = rows * cols;
        let mut coded: Vec<bool> = Vec::new();
        let mut i: usize = 0;
        while i < n
            invariant
                i <= n,
                coded@.len() == i,
                forall|k: int| 0 <= k < i ==> !#[trigger] coded@[k],
            decreases n - i,
        {
            coded.push(false);
            i = i + 1;
        }
        let r = Av2CodedMiContext { rows, cols, coded };
        proof {
            assert forall|row: int, col: int| !#[trigger] r.is_coded_spec(row, col) by {
                if 0 <= row < rows && 0 <= col < cols {
                    lemma_index_in_plane(col, row, cols as int, rows as int);
                }
            }
        }
        r
    }

    /// Whether unit (`row`, `col`) is coded.
    pub fn is_coded(&self, row: usize, col: usize) -> (r: bool)
        requires
            self.wf(),
        ensures
            r == self.is_coded_spec(row as int, col as int),
    {
        let n = self.coded.len();
        if row < self.rows && col < self.cols {
            proof {
                lemma_index_in_plane(col as int, row as int, self.cols as int, self.rows as int);
            }
            self.coded[row * self.cols + col]
        } else {
            false
        }
    }

    /// Marks the units of a leaf, clipped to the frame, as coded.
    pub fn update_leaf(&mut self, row: usize, col: usize, height: usize, width: usize)
        requires
            old(self).wf(),
        ensures
            final(self).wf(),
            final(self).rows_spec() == old(self).rows_spec(),
            final(self).cols_spec() == old(self).cols_spec(),
            forall|r: int, c: int| #[trigger] final(self).is_coded_spec(r, c) == (old(self).is_coded_spec(r, c) || (
                row <= r < row + height && col <= c < col + width && 0 <= r < old(self).rows_spec() && 0 <= c < old(self).cols_spec())),
    {
        let end_row = if row >= self.rows {
            self.rows
        } else if height < self.rows - row {
            row + height
        } else {
            self.rows
        };
        let end_col = if col >= self.cols {
            self.cols
        } else if width < self.cols - col {
            col + width
        } else {
            self.cols
        };
        let ghost in_rows = |rr: int| row <= rr < row + height && 0 <= rr < old(self).rows_spec();
        let ghost in_cols = |cc: int| col <= cc < col + width && 0 <= cc < old(self).cols_spec();
        assert(forall|rr: int| #[trigger] in_rows(rr) <==> (row <= rr < end_row));
        assert(forall|cc: int| #[trigger] in_cols(cc) <==> (col <= cc < end_col));
        let mut r = row;
        while r < end_row
            invariant
                self.wf(),
                self.rows == old(self).rows,
                self.cols == old(self).cols,
                row <= r,
                end_row <= self.rows,
                end_col <= self.cols,
                forall|rr: int, cc: int| #[trigger] self.is_coded_spec(rr, cc) == (old(self).is_coded_spec(rr, cc) || (
                    row <= rr < r && rr < end_row && col <= cc < end_col)),
            decreases end_row - r,
        {
            let mut c = col;
            while c < end_col
                invariant
                    self.wf(),
                    self.rows == old(self).rows,
                    self.cols == old(self).cols,
                    row <= r < end_row,
                    col <= c,
                    end_row <= self.rows,
                    end_col <= self.cols,
                    forall|rr: int, cc: int| #[trigger] self.is_coded_spec(rr, cc) == (old(self).is_coded_spec(rr, cc) || (
                        row <= rr < r && col <= cc < end_col) || (rr == r && col <= cc < c && cc < end_col)),
                decreases end_col - c,
            {
                proof {
                    lemma_index_in_plane(c as int, r as int, self.cols as int, self.rows as int);
                }
                let n = self.coded.len();
                let idx = r * self.cols + c;
                let ghost before = *self;
                self.coded.set(idx, true);
                proof {
                    assert(self.coded@ == before.coded@.update(idx as int, true));
                    assert forall|rr: int, cc: int| #[trigger] self.is_coded_spec(rr, cc) == (old(self).is_coded_spec(rr, cc) || (
                        row <= rr < r && col <= cc < end_col) || (rr == r && col <= cc < c + 1 && cc < end_col)) by {
                        assert(before.is_coded_spec(rr, cc) == (old(self).is_coded_spec(rr, cc) || (
                            row <= rr < r && col <= cc < end_col) || (rr == r && col <= cc < c && cc < end_col)));
                        if 0 <= rr < self.rows && 0 <= cc < self.cols {
                            lemma_index_in_plane(cc, rr, self.cols as int, self.rows as int);
                            lemma_cell_distinct(rr, cc, r as int, c as int, self.cols as int);
                            if rr == r && cc == c {
                                assert(self.is_coded_spec(rr, cc));
                            } else {
                                assert(self.coded@[rr * self.cols + cc] == before.coded@[rr * self.cols + cc]);
                                assert(self.is_coded_spec(rr, cc) == before.is_coded_spec(rr, cc));
                            }
                        }
                    }
                }
                c = c + 1;
            }
            r = r + 1;
        }
    }
}

/// Distinct cells of a row-major grid have distinct indices.
proof fn lemma_cell_distinct(r1: int, c1: int, r2: int, c2: int, cols: int)
    requires
        0 <= c1 < cols,
        0 <= c2 < cols,
        0 <= r1,
        0 <= r2,
    ensures
        (r1 * cols + c1 == r2 * cols + c2) <==> (r1 == r2 && c1 == c2),
{
    if r1 < r2 {
        assert(r1 * cols + c1 < r2 * cols + c2) by (nonlinear_arith)
            requires
                r1 < r2,
                0 <= c1 < cols,
                0 <= c2,
        ;
    } else if r2 < r1 {
        assert(r2 * cols + c2 < r1 * cols + c1) by (nonlinear_arith)
            requires
                r2 < r1,
                0 <= c2 < cols,
                0 <= c1,
        ;
    }
}

} // verus!
