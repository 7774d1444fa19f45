use vstd::prelude::*;
use crate::block_size::Av2MvpBlockSize;

verus! {

/// Side of the square blocks that an inter mode map assigns modes to.
pub const MVP_LEAF_BLOCK_SIZE: usize = 8;

/// How one 8x8 block of a lossless inter tile is coded.
#[derive(Clone, Copy, Debug, PartialEq, Eq, Structural)]
pub enum Av2LosslessInterBlockMode {
    Intra,
    ZeroMv,
    ZeroMvResidual,
    NewMv { row_px: i16, col_px: i16 },
    NewMvResidual { row_px: i16, col_px: i16 },
}

/// A row-major map from each 8x8 block of a tile to its inter mode.
pub struct Av2LosslessInterTileBlockModes {
    blocks_wide: usize,
    blocks_high: usize,
    blocks: Vec<Av2LosslessInterBlockMode>,
}

/// A mode that codes the block without a residual.
pub open spec fn is_skip_mode(mode: Av2LosslessInterBlockMode) -> bool {
    mode is ZeroMv || mode is NewMv
}

impl Av2LosslessInterTileBlockModes {
    #[verifier::type_invariant]
    closed spec fn covers_every_block(self) -> bool {
        self.blocks@.len() == self.blocks_wide * self.blocks_high
    }

    /// Number of block columns.
    pub closed spec fn wide(self) -> nat {
        self.blocks_wide as nat
    }

    /// Number of block rows.
    pub closed spec fn high(self) -> nat {
        self.blocks_high as nat
    }

    /// Mode of the block in column `x` and row `y`.
    pub closed spec fn mode_at(self, x: int, y: int) -> Av2LosslessInterBlockMode {
        self.blocks@[y * self.blocks_wide + x]
    }

    /// Every block of the `rows` by `cols` region whose top-left block is in
    /// row `row0` and column `col0` has that block's mode.
    pub open spec fn region_uniform(self, row0: int, col0: int, rows: int, cols: int) -> bool {
        forall|r: int, c: int|
            row0 <= r < row0 + rows && col0 <= c < col0 + cols ==> #[trigger] self.mode_at(c, r) == self.mode_at(col0, row0)
    }

    /// The one mode shared by every 8x8 block under the leaf at mode-info
    /// position (`row_mi`, `col_mi`), or `None` when the leaf reaches past the
    /// map or its blocks differ.
    pub open spec fn homogeneous_spec(self, row_mi: usize, col_mi: usize, block_size: Av2MvpBlockSize) -> Option<Av2LosslessInterBlockMode> {
        let row0 = row_mi / 2;
        let col0 = col_mi / 2;
        let rows = block_size.height / MVP_LEAF_BLOCK_SIZE;
        let cols = block_size.width / MVP_LEAF_BLOCK_SIZE;
        if row0 + rows > self.high() || col0 + cols > self.wide() {
            None
        } else if self.region_uniform(row0 as int, col0 as int, rows as int, cols as int) {
            Some(self.mode_at(col0 as int, row0 as int))
        } else {
            None
        }
    }

    /// Builds the map of a tile `blocks_wide` by `blocks_high` blocks from its
    /// modes in row-major order.
    pub fn new(blocks_wide: usize, blocks_high: usize, blocks: Vec<Av2LosslessInterBlockMode>) -> (r: Self)
        requires
            blocks@.len() == blocks_wide * blocks_high,
        ensures
            r.wide() == blocks_wide,
            r.high() == blocks_high,
            forall|x: int, y: int|
                0 <= x < blocks_wide && 0 <= y < blocks_high ==> #[trigger] r.mode_at(x, y) == blocks@[y * blocks_wide + x],
    {
        Av2LosslessInterTileBlockModes { blocks_wide, blocks_high, blocks }
    }

    /// Mode of the block in column `block_x` and row `block_y`, if the map
    /// has that block.
    pub fn block_mode_at(&self, block_x: usize, block_y: usize) -> (r: Option<Av2LosslessInterBlockMode>)
        ensures
            r == (if block_x < self.wide() && block_y < self.high() {
                Some(self.mode_at(block_x as int, block_y as int))
            } else {
                None
            }),
    {
        proof {
            use_type_invariant(self);
        }
        let n = self.blocks.len();
        if block_x < self.blocks_wide && block_y < self.blocks_high {
            proof {
                lemma_cell_index(block_x as int, block_y as int, self.blocks_wide as int, self.blocks_high as int);
            }
            Some(self.blocks[block_y * self.blocks_wide + block_x])
        } else {
            None
        }
    }

    /// The mode shared by every 8x8 block under a leaf whose corner and sides
    /// lie on the 8x8 grid, or `None` when the leaf reaches past the map or
    /// its blocks differ.
    pub fn homogeneous_mode_for_leaf(&self, row_mi: usize, col_mi: usize, block_size: Av2MvpBlockSize) -> (r: Option<Av2LosslessInterBlockMode>)
        requires
            row_mi % 2 == 0,
            col_mi % 2 == 0,
            block_size.width % MVP_LEAF_BLOCK_SIZE == 0,
            block_size.height % MVP_LEAF_BLOCK_SIZE == 0,
            block_size.width >= MVP_LEAF_BLOCK_SIZE,
            block_size.height >= MVP_LEAF_BLOCK_SIZE,
        ensures
            r == self.homogeneous_spec(row_mi, col_mi, block_size),
    {
        proof {
            use_type_invariant(self);
        }
        let row0 = row_mi / 2;
        let col0 = col_mi / 2;
        let rows = block_size.height / MVP_LEAF_BLOCK_SIZE;
        let cols = block_size.width / MVP_LEAF_BLOCK_SIZE;
        if row0 + rows > self.blocks_high || col0 + cols > self.blocks_wide {
            return None;
        }
        let w = self.blocks_wide;
        let h = self.blocks_high;
        let n = self.blocks.len();
        proof {
            lemma_cell_index(col0 as int, row0 as int, w as int, h as int);
        }
        let first = self.blocks[row0 * w + col0];
        let mut row = row0;
        while row < row0 + rows
            invariant
                row0 <= row <= row0 + rows,
                row0 == row_mi / 2,
                col0 == col_mi / 2,
                rows == block_size.height / MVP_LEAF_BLOCK_SIZE,
                cols == block_size.width / MVP_LEAF_BLOCK_SIZE,
                row0 + rows <= h,
                col0 + cols <= w,
                w == self.blocks_wide,
                h == self.blocks_high,
                self.blocks@.len() == w * h,
                n == self.blocks@.len(),
                first == self.mode_at(col0 as int, row0 as int),
                forall|r: int, c: int|
                    row0 <= r < row && col0 <= c < col0 + cols ==> #[trigger] self.mode_at(c, r) == first,
            decreases row0 + rows - row,
        {
            let mut col = col0;
            while col < col0 + cols
                invariant
                    row0 <= row < row0 + rows,
                    row0 == row_mi / 2,
                    col0 == col_mi / 2,
                    rows == block_size.height / MVP_LEAF_BLOCK_SIZE,
                    cols == block_size.width / MVP_LEAF_BLOCK_SIZE,
                    col0 <= col <= col0 + cols,
                    row0 + rows <= h,
                    col0 + cols <= w,
                    w == self.blocks_wide,
                    h == self.blocks_high,
                    self.blocks@.len() == w * h,
                    n == self.blocks@.len(),
                    first == self.mode_at(col0 as int, row0 as int),
                    forall|r: int, c: int|
                        row0 <= r < row && col0 <= c < col0 + cols ==> #[trigger] self.mode_at(c, r) == first,
                    forall|c: int| col0 <= c < col ==> #[trigger] self.mode_at(c, row as int) == first,
                decreases col0 + cols - col,
            {
                proof {
                    lemma_cell_index(col as int, row as int, w as int, h as int);
                }
                if self.blocks[row * w + col] != first {
                    proof {
                        assert(self.mode_at(col as int, row as int) != self.mode_at(col0 as int, row0 as int));
                        assert(!self.region_uniform(row0 as int, col0 as int, rows as int, cols as int));
                    }
                    return None;
                }
                col = col + 1;
            }
            row = row + 1;
        }
        Some(first)
    }

    /// The leaf's shared mode when it is one that codes no residual
    /// (`ZeroMv` or `NewMv`), else `None`.
    pub fn homogeneous_skip_mode_for_leaf(&self, row_mi: usize, col_mi: usize, block_size: Av2MvpBlockSize) -> (r: Option<Av2LosslessInterBlockMode>)
        requires
            row_mi % 2 == 0,
            col_mi % 2 == 0,
            block_size.width % MVP_LEAF_BLOCK_SIZE == 0,
            block_size.height % MVP_LEAF_BLOCK_SIZE == 0,
            block_size.width >= MVP_LEAF_BLOCK_SIZE,
            block_size.height >= MVP_LEAF_BLOCK_SIZE,
        ensures
            r == (match self.homogeneous_spec(row_mi, col_mi, block_size) {
                Some(m) => if is_skip_mode(m) { Some(m) } else { None },
                None => None,
            }),
    {
        let mode = self.homogeneous_mode_for_leaf(row_mi, col_mi, block_size);
        match mode {
            Some(m) => match m {
                Av2LosslessInterBlockMode::ZeroMv | Av2LosslessInterBlockMode::NewMv { .. } => Some(m),
                _ => None,
            },
            None => None,
        }
    }

    /// The mode of a partition leaf, which must cover one homogeneous region
    /// of the map.
    pub fn mode_for_decision(&self, row_mi: usize, col_mi: usize, block_size: Av2MvpBlockSize) -> (r: Av2LosslessInterBlockMode)
        requires
            row_mi % 2 == 0,
            col_mi % 2 == 0,
            block_size.width % MVP_LEAF_BLOCK_SIZE == 0,
            block_size.height % MVP_LEAF_BLOCK_SIZE == 0,
            block_size.width >= MVP_LEAF_BLOCK_SIZE,
            block_size.height >= MVP_LEAF_BLOCK_SIZE,
            self.homogeneous_spec(row_mi, col_mi, block_size) is Some,
        ensures
            self.homogeneous_spec(row_mi, col_mi, block_size) == Some(r),
    {
        match self.homogeneous_mode_for_leaf(row_mi, col_mi, block_size) {
            Some(m) => m,
            None => Av2LosslessInterBlockMode::Intra,
        }
    }
}

/// The row-major index of a cell inside a `w` by `h` grid lies inside it.
proof fn lemma_cell_index(x: int, y: int, w: int, h: int)
    requires
        0 <= x < w,
        0 <= y < h,
    ensures
        0 <= y * w + x < w * h,
        y * w + x < h * w,
{
    assert(y * w + x < (y + 1) * w) by (nonlinear_arith)
        requires
            0 <= x < w,
    ;
    assert((y + 1) * w <= h * w) by (nonlinear_arith)
        requires
            y + 1 <= h,
            0 < w,
    ;
    assert(0 <= y * w) by (nonlinear_arith)
        requires
            0 <= y,
            0 < w,
    ;
    assert(h * w == w * h) by (nonlinear_arith);
}

} // verus!
