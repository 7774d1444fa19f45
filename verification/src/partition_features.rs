use vstd::prelude::*;
use crate::inter_block_modes::MVP_LEAF_BLOCK_SIZE;
use crate::lossless_state::read_planar_sample;
use crate::lossless_state::read_sample_spec;
use crate::planar_layout::Av2TileRegion;
use crate::planar_layout::Av2VideoGeometry;
use crate::sample::SampleBitDepth;
use crate::sample::bytes_per_sample_spec;
use crate::sample::max_sample_spec;
use vstd::arithmetic::power2::pow2;
use vstd::arithmetic::power2::lemma2_to64;
use vstd::arithmetic::power2::lemma_pow2_adds;
use vstd::arithmetic::power2::lemma_pow2_pos;
use vstd::bits::lemma_u16_shr_is_div;
use vstd::arithmetic::div_mod::lemma_fundamental_div_mod_converse;

verus! {

/// Tiles of at least this many luma samples take the fast lossless search.
pub const AV2_FAST_LOSSLESS_SUBSAMPLED_MIN_PIXELS: usize = 16384;
/// Most palette colours a luma block may have.
pub const AV2_LUMA_PALETTE_MAX_COLORS: usize = 8;
/// Most distinct values of an 8x8 luma block that is split down for palette
/// coding.
pub const AV2_LOSSLESS_PALETTE_PARTITION_UNIQUE_LIMIT: usize = 4;

/// Whether a lossless tile is large enough for the fast mode search.
pub fn use_fast_lossless_subsampled_path(region: Av2TileRegion) -> (r: bool)
    requires
        region.width * region.height <= usize::MAX,
    ensures
        r == (region.width * region.height >= AV2_FAST_LOSSLESS_SUBSAMPLED_MIN_PIXELS),
{
    region.width * region.height >= AV2_FAST_LOSSLESS_SUBSAMPLED_MIN_PIXELS
}

/// Luma sample `(x, y)` of a frame `width` samples wide.
pub open spec fn frame_luma(source: Seq<u8>, width: int, bps: int, x: int, y: int) -> int {
    read_sample_spec(source, y * width + x, bps)
}

/// The samples of the 8x8 luma block at `(x0, y0)` in raster order.
pub open spec fn block8_samples(source: Seq<u8>, width: int, bps: int, x0: int, y0: int) -> Seq<int> {
    Seq::new(64, |k: int| frame_luma(source, width, bps, x0 + k % 8, y0 + k / 8))
}

/// Number of distinct values in `s`.
pub open spec fn distinct_count(s: Seq<int>) -> nat
    decreases s.len(),
{
    if s.len() == 0 {
        0
    } else {
        distinct_count(s.drop_last()) + if s.drop_last().contains(s.last()) {
            0nat
        } else {
            1nat
        }
    }
}

/// A longer prefix has at least as many distinct values.
proof fn lemma_distinct_count_prefix(s: Seq<int>, i: int, j: int)
    requires
        0 <= i <= j <= s.len(),
    ensures
        distinct_count(s.take(i)) <= distinct_count(s.take(j)),
    decreases j - i,
{
    if i < j {
        lemma_distinct_count_prefix(s, i, j - 1);
        assert(s.take(j).drop_last() =~= s.take(j - 1));
    }
}

/// Whether the frame holds every sample of the 8x8 luma block at
/// `(x0, y0)`.
pub open spec fn block8_readable(source: Seq<u8>, width: int, bps: int, x0: int, y0: int) -> bool {
    ((y0 + 7) * width + x0 + 8) * bps <= source.len()
}

/// Whether the 8x8 luma block at `(x0, y0)` has between two and four
/// distinct sample values, which makes it worth splitting down for palette
/// coding.
pub fn lossless_luma_8x8_is_palette_worthy(
    geometry: Av2VideoGeometry,
    bit_depth: SampleBitDepth,
    source: &[u8],
    x0: usize,
    y0: usize,
) -> (r: bool)
    requires
        block8_readable(source@, geometry.width as int, bytes_per_sample_spec(bit_depth@), x0 as int, y0 as int),
        x0 + MVP_LEAF_BLOCK_SIZE <= usize::MAX,
        y0 + MVP_LEAF_BLOCK_SIZE <= usize::MAX,
    ensures
        r == (2 <= distinct_count(
            block8_samples(source@, geometry.width as int, bytes_per_sample_spec(bit_depth@), x0 as int, y0 as int),
        ) <= AV2_LOSSLESS_PALETTE_PARTITION_UNIQUE_LIMIT),
{
    let ghost bps = bytes_per_sample_spec(bit_depth@);
    let ghost w = geometry.width as int;
    let ghost block = block8_samples(source@, w, bps, x0 as int, y0 as int);
    let len = source.len();
    let mut values: [u16; 9] = [0; 9];
    let mut unique: usize = 0;
    let ghost mut prefix: Seq<int> = block.take(0);
    let mut y = y0;
    while y < y0 + MVP_LEAF_BLOCK_SIZE
        invariant
            y0 <= y <= y0 + 8,
            y0 + 8 <= usize::MAX,
            x0 + 8 <= usize::MAX,
            len == source@.len(),
            bps == 1 || bps == 2,
            bps == bytes_per_sample_spec(bit_depth@),
            w == geometry.width,
            block == block8_samples(source@, w, bps, x0 as int, y0 as int),
            block8_readable(source@, w, bps, x0 as int, y0 as int),
            unique <= 9,
            prefix == block.take((y - y0) * 8),
            unique == distinct_count(prefix),
            forall|v: int| #[trigger] prefix.contains(v) <==> exists|j: int| 0 <= j < unique && values[j] == v,
        decreases y0 + 8 - y,
    {
        let mut x = x0;
        while x < x0 + MVP_LEAF_BLOCK_SIZE
            invariant
                y0 <= y < y0 + 8,
                x0 <= x <= x0 + 8,
                x0 + 8 <= usize::MAX,
                len == source@.len(),
                bps == 1 || bps == 2,
                bps == bytes_per_sample_spec(bit_depth@),
                w == geometry.width,
                block == block8_samples(source@, w, bps, x0 as int, y0 as int),
                block8_readable(source@, w, bps, x0 as int, y0 as int),
                unique <= 9,
                prefix == block.take((y - y0) * 8 + (x - x0)),
                unique == distinct_count(prefix),
                forall|v: int| #[trigger] prefix.contains(v) <==> exists|j: int| 0 <= j < unique && values[j] == v,
            decreases x0 + 8 - x,
        {
            let ghost k = (y - y0) * 8 + (x - x0);
            proof {
                assert(y * w + x + 1 <= (y0 + 7) * w + x0 + 8) by (nonlinear_arith)
                    requires
                        y <= y0 + 7,
                        x < x0 + 8,
                        0 <= w,
                ;
                assert((y * w + x + 1) * bps <= ((y0 + 7) * w + x0 + 8) * bps) by (nonlinear_arith)
                    requires
                        y * w + x + 1 <= (y0 + 7) * w + x0 + 8,
                        bps == 1 || bps == 2,
                ;
                assert(0 <= y * w) by (nonlinear_arith)
                    requires
                        0 <= y,
                        0 <= w,
                ;
                assert(0 <= k < 64);
                assert(k % 8 == x - x0 && k / 8 == y - y0);
            }
            let index = y * geometry.width + x;
            let sample = read_planar_sample(source, index, bit_depth);
            proof {
                assert(block[k] == sample as int);
            }
            let mut found = false;
            let mut j: usize = 0;
            while j < unique
                invariant
                    j <= unique <= 9,
                    found <==> exists|i: int| 0 <= i < j && values[i] == sample,
                decreases unique - j,
            {
                if values[j] == sample {
                    found = true;
                }
                j = j + 1;
            }
            let ghost old_values = values;
            let ghost old_unique = unique;
            proof {
                assert(block.take(k + 1).drop_last() =~= prefix);
                assert(block.take(k + 1).last() == sample as int);
                assert(found == prefix.contains(sample as int));
            }
            if !found {
                if unique == values.len() {
                    proof {
                        lemma_distinct_count_prefix(block, k + 1, 64);
                        assert(block.take(64) =~= block);
                    }
                    return false;
                }
                values[unique] = sample;
                unique = unique + 1;
            }
            proof {
                let longer = block.take(k + 1);
                assert forall|v: int|
                    #[trigger] longer.contains(v) <==> exists|i: int| 0 <= i < unique && values[i] == v by {
                    if longer.contains(v) {
                        let at = choose|at: int| 0 <= at < longer.len() && longer[at] == v;
                        if at < k {
                            assert(prefix[at] == v);
                            assert(prefix.contains(v));
                            let i = choose|i: int| 0 <= i < old_unique && old_values[i] == v;
                            assert(values[i] == v);
                        } else {
                            assert(v == sample as int);
                            if found {
                                let i = choose|i: int| 0 <= i < old_unique && old_values[i] == v;
                                assert(values[i] == v);
                            } else {
                                assert(values[old_unique as int] == v);
                            }
                        }
                    }
                    if exists|i: int| 0 <= i < unique && values[i] == v {
                        let i = choose|i: int| 0 <= i < unique && values[i] == v;
                        if i < old_unique {
                            assert(old_values[i] == v);
                            assert(prefix.contains(v));
                            let at = choose|at: int| 0 <= at < prefix.len() && prefix[at] == v;
                            assert(longer[at] == v);
                        } else {
                            assert(longer[k] == v);
                        }
                    }
                }
                prefix = longer;
            }
            x = x + 1;
        }
        y = y + 1;
    }
    proof {
        assert(block.take(64) =~= block);
    }
    2 <= unique && unique <= AV2_LOSSLESS_PALETTE_PARTITION_UNIQUE_LIMIT
}

/// Side of the largest leaf the screen-content partition keeps whole.
pub const AV2_SCREEN_ADAPTIVE_LEAF_SIZE: usize = 64;
/// Distance between the luma samples that judge a leaf.
pub const AV2_SCREEN_ADAPTIVE_SAMPLE_STEP: usize = 4;
/// A leaf with at most this many distinct sampled values is simple.
pub const AV2_SCREEN_ADAPTIVE_UNIQUE_LIMIT: usize = 8;
/// A leaf with at most this many distinct sampled values and a gentle
/// gradient is simple.
pub const AV2_SCREEN_ADAPTIVE_GRADIENT_UNIQUE_LIMIT: usize = 16;
/// Mean neighbour difference (in 1/256 units) of a gentle gradient.
pub const AV2_SCREEN_ADAPTIVE_GRADIENT_Q8_LIMIT: u64 = 192;
/// A leaf whose sampled values span at most this range is simple.
pub const AV2_SCREEN_ADAPTIVE_RANGE_LIMIT: u16 = 8;

/// Number of positions taken every four samples along an extent.
pub open spec fn sampled_count(extent: int) -> int {
    (extent + 3) / 4
}

/// Luma sample in row `r`, column `c` of the grid sampled every four
/// samples from `(x0, y0)`.
pub open spec fn grid_sample(source: Seq<u8>, width: int, bps: int, x0: int, y0: int, r: int, c: int) -> int {
    frame_luma(source, width, bps, x0 + 4 * c, y0 + 4 * r)
}

/// A grid sample scaled to eight bits.
pub open spec fn grid_value(source: Seq<u8>, width: int, bits: nat, x0: int, y0: int, r: int, c: int) -> int {
    grid_sample(source, width, bytes_per_sample_spec(bits), x0, y0, r, c) / pow2((bits - 8) as nat) as int
}

/// The scaled grid values of a leaf in raster order, `nx` per row.
pub open spec fn grid_values(source: Seq<u8>, width: int, bits: nat, x0: int, y0: int, nx: int, ny: int) -> Seq<int> {
    Seq::new((nx * ny) as nat, |k: int| grid_value(source, width, bits, x0, y0, k / nx, k % nx))
}

/// Smallest of `init` and the values of `s`.
pub open spec fn seq_min_from(s: Seq<int>, init: int) -> int
    decreases s.len(),
{
    if s.len() == 0 {
        init
    } else {
        let m = seq_min_from(s.drop_last(), init);
        if s.last() < m {
            s.last()
        } else {
            m
        }
    }
}

/// Largest of `init` and the values of `s`.
pub open spec fn seq_max_from(s: Seq<int>, init: int) -> int
    decreases s.len(),
{
    if s.len() == 0 {
        init
    } else {
        let m = seq_max_from(s.drop_last(), init);
        if s.last() > m {
            s.last()
        } else {
            m
        }
    }
}

/// `|a - b|`.
pub open spec fn abs_diff_spec(a: int, b: int) -> int {
    if a >= b {
        a - b
    } else {
        b - a
    }
}

/// Sum of the differences between each of the first `n` grid values (rows
/// `nx` wide) and its left and upper neighbours, where those exist.
pub open spec fn gradient_sum_spec(g: Seq<int>, nx: int, n: nat) -> int
    decreases n,
{
    if n == 0 {
        0
    } else {
        let k = n - 1;
        gradient_sum_spec(g, nx, (n - 1) as nat) + (if k % nx != 0 {
            abs_diff_spec(g[k], g[k - 1])
        } else {
            0
        }) + (if k >= nx {
            abs_diff_spec(g[k], g[k - nx])
        } else {
            0
        })
    }
}

/// Number of left and upper neighbour pairs among the first `n` grid
/// values.
pub open spec fn gradient_edges_spec(nx: int, n: nat) -> int
    decreases n,
{
    if n == 0 {
        0
    } else {
        let k = n - 1;
        gradient_edges_spec(nx, (n - 1) as nat) + (if k % nx != 0 {
            1int
        } else {
            0
        }) + (if k >= nx {
            1int
        } else {
            0
        })
    }
}

/// Whether sampled grid values `g` (rows `nx` wide) describe simple screen
/// content: few distinct values, a narrow range, or a moderate number of
/// values with a gentle mean neighbour difference.
pub open spec fn region_is_simple_spec(g: Seq<int>, nx: int) -> bool {
    let unique = distinct_count(g);
    let range = seq_max_from(g, 0) - seq_min_from(g, 65535);
    let edges = gradient_edges_spec(nx, g.len());
    let q8 = if edges == 0 {
        0
    } else {
        gradient_sum_spec(g, nx, g.len()) * 256 / edges
    };
    unique <= AV2_SCREEN_ADAPTIVE_UNIQUE_LIMIT || range <= AV2_SCREEN_ADAPTIVE_RANGE_LIMIT || (unique
        <= AV2_SCREEN_ADAPTIVE_GRADIENT_UNIQUE_LIMIT && q8 <= AV2_SCREEN_ADAPTIVE_GRADIENT_Q8_LIMIT)
}

/// Each value of a sequence lies between its running minimum and maximum.
proof fn lemma_seq_min_max(s: Seq<int>, i: int)
    requires
        0 <= i < s.len(),
    ensures
        seq_min_from(s, 65535) <= s[i] <= seq_max_from(s, 0),
    decreases s.len(),
{
    if i < s.len() - 1 {
        lemma_seq_min_max(s.drop_last(), i);
    }
}

/// A sample of at most `2^bits - 1` scaled to eight bits is below 256.
proof fn lemma_scaled_sample(x: int, bits: nat)
    requires
        8 <= bits <= 16,
        0 <= x <= pow2(bits) - 1,
    ensures
        0 <= x / pow2((bits - 8) as nat) as int <= 255,
{
    let p = pow2((bits - 8) as nat) as int;
    lemma_pow2_adds(8, (bits - 8) as nat);
    lemma_pow2_pos((bits - 8) as nat);
    lemma2_to64();
    assert(x < 256 * p);
    assert(0 <= x / p < 256) by (nonlinear_arith)
        requires
            0 <= x < 256 * p,
            p > 0,
    ;
}

/// Whether a luma leaf of at most 64x64 samples looks like simple screen
/// content, judged on its samples every four rows and columns scaled to
/// eight bits.
#[verifier::rlimit(80)]
#[verifier::spinoff_prover]
pub fn luma_region_is_simple_for_adaptive_leaf(
    geometry: Av2VideoGeometry,
    bit_depth: SampleBitDepth,
    source: &[u8],
    x0: usize,
    y0: usize,
    width: usize,
    height: usize,
) -> (r: bool)
    requires
        1 <= width <= AV2_SCREEN_ADAPTIVE_LEAF_SIZE,
        1 <= height <= AV2_SCREEN_ADAPTIVE_LEAF_SIZE,
        x0 + width + 3 <= usize::MAX,
        y0 + height + 3 <= usize::MAX,
        ((y0 + height - 1) * geometry.width + x0 + width) * bytes_per_sample_spec(bit_depth@) <= source@.len(),
        forall|r: int, c: int|
            0 <= r < sampled_count(height as int) && 0 <= c < sampled_count(width as int) ==> #[trigger] grid_sample(
                source@,
                geometry.width as int,
                bytes_per_sample_spec(bit_depth@),
                x0 as int,
                y0 as int,
                r,
                c,
            ) <= max_sample_spec(bit_depth@),
    ensures
        r == region_is_simple_spec(
            grid_values(
                source@,
                geometry.width as int,
                bit_depth@,
                x0 as int,
                y0 as int,
                sampled_count(width as int),
                sampled_count(height as int),
            ),
            sampled_count(width as int),
        ),
{
    let ghost bits = bit_depth@;
    let ghost bps = bytes_per_sample_spec(bits);
    let ghost w = geometry.width as int;
    let ghost nx = sampled_count(width as int);
    let ghost ny = sampled_count(height as int);
    let ghost g = grid_values(source@, w, bits, x0 as int, y0 as int, nx, ny);
    let len = source.len();
    let normalize_shift: u16 = (bit_depth.bits() - 8) as u16;
    let mut seen: [bool; 256] = [false; 256];
    let mut unique: usize = 0;
    let mut min_sample: u16 = 65535;
    let mut max_sample: u16 = 0;
    let mut gradient_sum: u64 = 0;
    let mut gradient_edges: u64 = 0;
    let mut above: [u16; 16] = [0; 16];
    let ghost mut k: int = 0;
    proof {
        assert(1 <= nx <= 16);
        assert(1 <= ny <= 16);
        assert(g.len() == nx * ny) by (nonlinear_arith)
            requires
                g.len() == (nx * ny) as nat,
                1 <= nx,
                1 <= ny,
        ;
    }
    let mut y = y0;
    let mut sample_row: usize = 0;
    while y < y0 + height
        invariant
            1 <= width <= 64,
            1 <= height <= 64,
            x0 + width + 3 <= usize::MAX,
            y0 + height + 3 <= usize::MAX,
            len == source@.len(),
            bps == bytes_per_sample_spec(bits),
            bps == 1 || bps == 2,
            bits == bit_depth@,
            8 <= bits <= 16,
            normalize_shift == bits - 8,
            w == geometry.width,
            nx == sampled_count(width as int),
            ny == sampled_count(height as int),
            1 <= nx <= 16,
            1 <= ny <= 16,
            g == grid_values(source@, w, bits, x0 as int, y0 as int, nx, ny),
            g.len() == nx * ny,
            ((y0 + height - 1) * w + x0 + width) * bps <= len,
            forall|r: int, c: int|
                0 <= r < ny && 0 <= c < nx ==> #[trigger] grid_sample(source@, w, bps, x0 as int, y0 as int, r, c)
                    <= max_sample_spec(bits),
            y == y0 + 4 * sample_row,
            sample_row <= ny,
            (y < y0 + height) == (sample_row < ny),
            k == sample_row * nx,
            unique <= k,
            unique == distinct_count(g.take(k)),
            forall|t: int| 0 <= t < 256 ==> (#[trigger] seen[t] <==> g.take(k).contains(t)),
            forall|i: int| 0 <= i < k ==> 0 <= #[trigger] g[i] < 256,
            min_sample == seq_min_from(g.take(k), 65535),
            max_sample == seq_max_from(g.take(k), 0),
            gradient_sum == gradient_sum_spec(g, nx, k as nat),
            gradient_edges == gradient_edges_spec(nx, k as nat),
            gradient_sum <= 510 * k,
            gradient_edges <= 2 * k,
            forall|c: int| 0 <= c < nx && sample_row > 0 ==> #[trigger] above[c] == g[k - nx + c],
        decreases ny - sample_row,
    {
        let mut prev: Option<u16> = None;
        let mut x = x0;
        let mut sample_col: usize = 0;
        while x < x0 + width
            invariant
                1 <= width <= 64,
                1 <= height <= 64,
                x0 + width + 3 <= usize::MAX,
                y0 + height + 3 <= usize::MAX,
                len == source@.len(),
                bps == bytes_per_sample_spec(bits),
                bps == 1 || bps == 2,
                bits == bit_depth@,
                8 <= bits <= 16,
                normalize_shift == bits - 8,
                w == geometry.width,
                nx == sampled_count(width as int),
                ny == sampled_count(height as int),
                1 <= nx <= 16,
                1 <= ny <= 16,
                g == grid_values(source@, w, bits, x0 as int, y0 as int, nx, ny),
                g.len() == nx * ny,
                ((y0 + height - 1) * w + x0 + width) * bps <= len,
                forall|r: int, c: int|
                    0 <= r < ny && 0 <= c < nx ==> #[trigger] grid_sample(source@, w, bps, x0 as int, y0 as int, r, c)
                        <= max_sample_spec(bits),
                y == y0 + 4 * sample_row,
                sample_row < ny,
                y < y0 + height,
                x == x0 + 4 * sample_col,
                sample_col <= nx,
                (x < x0 + width) == (sample_col < nx),
                k == sample_row * nx + sample_col,
                unique <= k,
                unique == distinct_count(g.take(k)),
                forall|t: int| 0 <= t < 256 ==> (#[trigger] seen[t] <==> g.take(k).contains(t)),
                forall|i: int| 0 <= i < k ==> 0 <= #[trigger] g[i] < 256,
                min_sample == seq_min_from(g.take(k), 65535),
                max_sample == seq_max_from(g.take(k), 0),
                gradient_sum == gradient_sum_spec(g, nx, k as nat),
                gradient_edges == gradient_edges_spec(nx, k as nat),
                gradient_sum <= 510 * k,
                gradient_edges <= 2 * k,
                sample_col > 0 ==> prev == Some(g[k - 1] as u16),
                sample_col == 0 ==> prev is None,
                forall|c: int| 0 <= c < sample_col ==> #[trigger] above[c] == g[k - sample_col + c],
                forall|c: int| sample_col <= c < nx && sample_row > 0 ==> #[trigger] above[c] == g[k - sample_col - nx + c],
            decreases nx - sample_col,
        {
            proof {
                assert(k < nx * ny) by (nonlinear_arith)
                    requires
                        k == sample_row * nx + sample_col,
                        sample_row < ny,
                        sample_col < nx,
                ;
                assert(nx * ny <= 256) by (nonlinear_arith)
                    requires
                        1 <= nx <= 16,
                        1 <= ny <= 16,
                ;
                assert((sample_row > 0) == (k >= nx)) by (nonlinear_arith)
                    requires
                        k == sample_row * nx + sample_col,
                        0 <= sample_col < nx,
                        0 <= sample_row,
                ;
                if sample_col > 0 {
                    assert(0 <= g[k - 1] < 256);
                }
                if sample_row > 0 {
                    assert(above[sample_col as int] == g[k - nx]);
                    assert(0 <= g[k - nx] < 256);
                }
                lemma_fundamental_div_mod_converse(k, nx, sample_row as int, sample_col as int);
                assert(y * w + x + 1 <= (y0 + height - 1) * w + x0 + width) by (nonlinear_arith)
                    requires
                        y <= y0 + height - 1,
                        x <= x0 + width - 1,
                        0 <= w,
                ;
                assert((y * w + x + 1) * bps <= ((y0 + height - 1) * w + x0 + width) * bps) by (nonlinear_arith)
                    requires
                        y * w + x + 1 <= (y0 + height - 1) * w + x0 + width,
                        bps == 1 || bps == 2,
                ;
                assert(0 <= y * w) by (nonlinear_arith)
                    requires
                        0 <= y,
                        0 <= w,
                ;
            }
            let raw = read_planar_sample(source, y * geometry.width + x, bit_depth);
            let sample = raw >> normalize_shift;
            proof {
                lemma_u16_shr_is_div(raw, normalize_shift);
                assert(grid_sample(source@, w, bps, x0 as int, y0 as int, sample_row as int, sample_col as int) == raw);
                lemma_scaled_sample(raw as int, bits);
                assert(g[k] == sample as int);
            }
            let ghost prefix = g.take(k);
            let ghost longer = g.take(k + 1);
            proof {
                assert(longer.drop_last() =~= prefix);
                assert(longer.last() == sample as int);
            }
            let sample_index = sample as usize;
            if !seen[sample_index] {
                seen[sample_index] = true;
                unique = unique + 1;
            }
            if sample < min_sample {
                min_sample = sample;
            }
            if sample > max_sample {
                max_sample = sample;
            }
            match prev {
                Some(left) => {
                    gradient_sum = gradient_sum + abs_diff_u16(sample, left) as u64;
                    gradient_edges = gradient_edges + 1;
                },
                None => {},
            }
            if sample_row > 0 {
                gradient_sum = gradient_sum + abs_diff_u16(sample, above[sample_col]) as u64;
                gradient_edges = gradient_edges + 1;
            }
            above[sample_col] = sample;
            prev = Some(sample);
            proof {
                assert forall|t: int| 0 <= t < 256 implies (#[trigger] seen[t] <==> longer.contains(t)) by {
                    if longer.contains(t) {
                        let at = choose|at: int| 0 <= at < longer.len() && longer[at] == t;
                        if at < k {
                            assert(prefix[at] == t);
                        }
                    }
                    if prefix.contains(t) {
                        let at = choose|at: int| 0 <= at < prefix.len() && prefix[at] == t;
                        assert(longer[at] == t);
                    }
                    if t == sample as int {
                        assert(longer[k] == t);
                    }
                }
                k = k + 1;
            }
            x = x + 4;
            sample_col = sample_col + 1;
        }
        proof {
            assert(k == (sample_row + 1) * nx) by (nonlinear_arith)
                requires
                    k == sample_row * nx + sample_col,
                    sample_col == nx,
            ;
        }
        y = y + 4;
        sample_row = sample_row + 1;
    }
    proof {
        assert(k == nx * ny) by (nonlinear_arith)
            requires
                k == sample_row * nx,
                sample_row == ny,
        ;
        assert(g.take(k) =~= g);
        assert(nx * ny <= 256) by (nonlinear_arith)
            requires
                1 <= nx <= 16,
                1 <= ny <= 16,
        ;
        assert(nx * ny >= 1) by (nonlinear_arith)
            requires
                1 <= nx,
                1 <= ny,
        ;
        lemma_seq_min_max(g, 0);
    }
    let range = max_sample - min_sample;
    let gradient_q8 = if gradient_edges == 0 {
        0
    } else {
        (gradient_sum * 256) / gradient_edges
    };
    unique <= AV2_SCREEN_ADAPTIVE_UNIQUE_LIMIT || range <= AV2_SCREEN_ADAPTIVE_RANGE_LIMIT || (unique
        <= AV2_SCREEN_ADAPTIVE_GRADIENT_UNIQUE_LIMIT && gradient_q8 <= AV2_SCREEN_ADAPTIVE_GRADIENT_Q8_LIMIT)
}

/// `|a - b|` of two samples.
fn abs_diff_u16(a: u16, b: u16) -> (r: u16)
    ensures
        r == abs_diff_spec(a as int, b as int),
{
    if a >= b {
        a - b
    } else {
        b - a
    }
}

} // verus!
