use vstd::prelude::*;
use crate::block_size::Av2MvpBlockSize;

verus! {

/// Side of a 64x64 superblock in mode-info units.
pub const PARTITION_CONTEXT_DIM: usize = 16;

/// What the intra-block-copy contexts read of a coded neighbour.
#[derive(Clone, Copy, Debug, PartialEq, Eq, Structural)]
pub struct Av2IntrabcNeighborState {
    pub ibc: bool,
    pub skip: bool,
}

/// The flag of a neighbour that a context counts.
#[derive(Clone, Copy, Debug, PartialEq, Eq, Structural)]
pub enum Av2IntrabcNeighborField {
    Ibc,
    Skip,
}

/// The counted flag of a neighbour.
pub open spec fn field_value(state: Av2IntrabcNeighborState, field: Av2IntrabcNeighborField) -> bool {
    match field {
        Av2IntrabcNeighborField::Ibc => state.ibc,
        Av2IntrabcNeighborField::Skip => state.skip,
    }
}

/// Sum of the counted flag over the first two available neighbours of `s`,
/// `count` of them having been taken already.
pub open spec fn first_two_sum(s: Seq<Option<Av2IntrabcNeighborState>>, field: Av2IntrabcNeighborField, count: int) -> int
    decreases s.len(),
{
    if s.len() == 0 || count >= 2 {
        0
    } else {
        match s[0] {
            Some(state) => (if field_value(state, field) { 1int } else { 0int }) + first_two_sum(s.drop_first(), field, count + 1),
            None => first_two_sum(s.drop_first(), field, count),
        }
    }
}

/// `a - b`, or 0 when `b` exceeds `a`.
pub open spec fn sat_sub_usize(a: usize, b: usize) -> int {
    if a >= b { a - b } else { 0 }
}

/// Whether unit `(r, c)` lies in the leaf of `block_size` at `(row, col)`.
pub open spec fn in_leaf(row: usize, col: usize, block_size: Av2MvpBlockSize, r: int, c: int) -> bool {
    row <= r < row + block_size.height / 4 && col <= c < col + block_size.width / 4
}

/// Coded, intra-block-copy and skip flags of every mode-info unit of a tile,
/// row by row.
pub struct Av2IntrabcContext {
    coded: Vec<bool>,
    ibc: Vec<bool>,
    skip: Vec<bool>,
    rows: usize,
    cols: usize,
}

/// A vector of `n` copies of `value`.
fn filled_bools(n: usize, value: bool) -> (r: Vec<bool>)
    ensures
        r@.len() == n,
        forall|i: int| 0 <= i < n ==> #[trigger] r@[i] == value,
{
    let mut v: Vec<bool> = Vec::new();
    let mut i: usize = 0;
    while i < n
        invariant
            i <= n,
            v@.len() == i,
            forall|k: int| 0 <= k < i ==> #[trigger] v@[k] == value,
        decreases n - i,
    {
        v.push(value);
        i = i + 1;
    }
    v
}

/// `row * cols + col` lies below `rows * cols` for a unit inside the grid.
proof fn lemma_grid_index(row: int, col: int, rows: int, cols: int)
    requires
        0 <= row < rows,
        0 <= col < cols,
    ensures
        0 <= row * cols + col < rows * cols,
{
    assert(row * cols + col < rows * cols) by (nonlinear_arith)
        requires
            0 <= row < rows,
            0 <= col < cols,
    ;
    assert(0 <= row * cols) by (nonlinear_arith)
        requires
            0 <= row,
            0 <= col < cols,
    ;
}

/// Distinct units of the grid have distinct indices.
proof fn lemma_grid_index_injective(r1: int, c1: int, r2: int, c2: int, cols: int)
    requires
        0 <= c1 < cols,
        0 <= c2 < cols,
        0 <= r1,
        0 <= r2,
        r1 * cols + c1 == r2 * cols + c2,
    ensures
        r1 == r2 && c1 == c2,
{
    assert(r1 == r2) by (nonlinear_arith)
        requires
            0 <= c1 < cols,
            0 <= c2 < cols,
            0 <= r1,
            0 <= r2,
            r1 * cols + c1 == r2 * cols + c2,
    ;
}

impl Av2IntrabcContext {
    /// The three flag vectors cover the grid.
    pub closed spec fn wf(&self) -> bool {
        &&& self.rows * self.cols <= usize::MAX
        &&& self.coded@.len() == self.rows * self.cols
        &&& self.ibc@.len() == self.rows * self.cols
        &&& self.skip@.len() == self.rows * self.cols
    }

    /// Rows of the grid.
    pub closed spec fn rows_view(&self) -> usize {
        self.rows
    }

    /// Columns of the grid.
    pub closed spec fn cols_view(&self) -> usize {
        self.cols
    }

    /// The state of unit `(row, col)`: none outside the grid or while the
    /// unit is not coded.
    pub closed spec fn state_spec(&self, row: int, col: int) -> Option<Av2IntrabcNeighborState> {
        if 0 <= row < self.rows && 0 <= col < self.cols && self.coded@[row * self.cols + col] {
            Some(Av2IntrabcNeighborState { ibc: self.ibc@[row * self.cols + col], skip: self.skip@[row * self.cols + col] })
        } else {
            None
        }
    }

    /// A grid of `visible_rows_mi` by `visible_cols_mi` uncoded units.
    pub fn new(visible_rows_mi: usize, visible_cols_mi: usize) -> (r: Self)
        requires
            visible_rows_mi * visible_cols_mi <= usize::MAX,
        ensures
            r.wf(),
            r.rows_view() == visible_rows_mi,
            r.cols_view() == visible_cols_mi,
            forall|row: int, col: int| #[trigger] r.state_spec(row, col) is None,
    {
        let n = visible_rows_mi * visible_cols_mi;
        let r = Av2IntrabcContext {
            coded: filled_bools(n, false),
            ibc: filled_bools(n, false),
            skip: filled_bools(n, false),
            rows: visible_rows_mi,
            cols: visible_cols_mi,
        };
        proof {
            assert forall|row: int, col: int| #[trigger] r.state_spec(row, col) is None by {
                if 0 <= row < visible_rows_mi && 0 <= col < visible_cols_mi {
                    lemma_grid_index(row, col, visible_rows_mi as int, visible_cols_mi as int);
                }
            }
        }
        r
    }

    /// The state of unit `(row_mi, col_mi)`.
    pub fn state_at(&self, row_mi: usize, col_mi: usize) -> (r: Option<Av2IntrabcNeighborState>)
        requires
            self.wf(),
        ensures
            r == self.state_spec(row_mi as int, col_mi as int),
    {
        if row_mi >= self.rows || col_mi >= self.cols {
            return None;
        }
        proof {
            lemma_grid_index(row_mi as int, col_mi as int, self.rows as int, self.cols as int);
        }
        let index = row_mi * self.cols + col_mi;
        if self.coded[index] {
            Some(Av2IntrabcNeighborState { ibc: self.ibc[index], skip: self.skip[index] })
        } else {
            None
        }
    }

    /// The unit left of the leaf's bottom row.
    pub open spec fn bottom_left_spec(&self, row_mi: usize, col_mi: usize, block_size: Av2MvpBlockSize) -> Option<Av2IntrabcNeighborState> {
        if col_mi == 0 {
            None
        } else {
            self.state_spec(row_mi + sat_sub_usize(block_size.height / 4, 1), col_mi - 1)
        }
    }

    /// The unit above the leaf's right column.
    pub open spec fn above_right_spec(&self, row_mi: usize, col_mi: usize, block_size: Av2MvpBlockSize) -> Option<Av2IntrabcNeighborState> {
        if row_mi == 0 {
            None
        } else {
            self.state_spec(row_mi - 1, col_mi + sat_sub_usize(block_size.width / 4, 1))
        }
    }

    /// The unit left of `(row_mi, col_mi)`.
    pub open spec fn left_spec(&self, row_mi: usize, col_mi: usize) -> Option<Av2IntrabcNeighborState> {
        if col_mi == 0 { None } else { self.state_spec(row_mi as int, col_mi - 1) }
    }

    /// The unit above `(row_mi, col_mi)`.
    pub open spec fn above_spec(&self, row_mi: usize, col_mi: usize) -> Option<Av2IntrabcNeighborState> {
        if row_mi == 0 { None } else { self.state_spec(row_mi - 1, col_mi as int) }
    }

    /// The state left of the leaf's bottom row.
    pub fn bottom_left_state(&self, row_mi: usize, col_mi: usize, block_size: Av2MvpBlockSize) -> (r: Option<Av2IntrabcNeighborState>)
        requires
            self.wf(),
            row_mi + block_size.height / 4 <= usize::MAX,
        ensures
            r == self.bottom_left_spec(row_mi, col_mi, block_size),
    {
        if col_mi == 0 {
            return None;
        }
        let h = block_size.mi_height();
        let down = if h >= 1 { h - 1 } else { 0 };
        self.state_at(row_mi + down, col_mi - 1)
    }

    /// The state above the leaf's right column.
    pub fn above_right_state(&self, row_mi: usize, col_mi: usize, block_size: Av2MvpBlockSize) -> (r: Option<Av2IntrabcNeighborState>)
        requires
            self.wf(),
            col_mi + block_size.width / 4 <= usize::MAX,
        ensures
            r == self.above_right_spec(row_mi, col_mi, block_size),
    {
        if row_mi == 0 {
            return None;
        }
        let w = block_size.mi_width();
        let right = if w >= 1 { w - 1 } else { 0 };
        self.state_at(row_mi - 1, col_mi + right)
    }

    /// The state left of `(row_mi, col_mi)`.
    pub fn left_state(&self, row_mi: usize, col_mi: usize) -> (r: Option<Av2IntrabcNeighborState>)
        requires
            self.wf(),
        ensures
            r == self.left_spec(row_mi, col_mi),
    {
        if col_mi == 0 {
            return None;
        }
        self.state_at(row_mi, col_mi - 1)
    }

    /// The state above `(row_mi, col_mi)`.
    pub fn above_state(&self, row_mi: usize, col_mi: usize) -> (r: Option<Av2IntrabcNeighborState>)
        requires
            self.wf(),
        ensures
            r == self.above_spec(row_mi, col_mi),
    {
        if row_mi == 0 {
            return None;
        }
        self.state_at(row_mi - 1, col_mi)
    }

    /// The neighbours a context scans, in order: bottom-left, above-right,
    /// left, above, without the two above ones when they are excluded.
    pub open spec fn scanned_neighbors(
        &self,
        row_mi: usize,
        col_mi: usize,
        block_size: Av2MvpBlockSize,
        include_above: bool,
    ) -> Seq<Option<Av2IntrabcNeighborState>> {
        if include_above {
            seq![
                self.bottom_left_spec(row_mi, col_mi, block_size),
                self.above_right_spec(row_mi, col_mi, block_size),
                self.left_spec(row_mi, col_mi),
                self.above_spec(row_mi, col_mi),
            ]
        } else {
            seq![self.bottom_left_spec(row_mi, col_mi, block_size), self.left_spec(row_mi, col_mi)]
        }
    }

    /// Count of the flag over the first two available scanned neighbours;
    /// the above ones are skipped at a superblock's top row when
    /// `suppress_above_at_sb_top` is set.
    pub open spec fn neighbor_sum_spec(
        &self,
        row_mi: usize,
        col_mi: usize,
        block_size: Av2MvpBlockSize,
        suppress_above_at_sb_top: bool,
        field: Av2IntrabcNeighborField,
    ) -> int {
        let include_above = !suppress_above_at_sb_top || row_mi % PARTITION_CONTEXT_DIM != 0;
        first_two_sum(self.scanned_neighbors(row_mi, col_mi, block_size, include_above), field, 0)
    }

    /// Count of the flag over the first two available neighbours.
    pub fn neighbor_sum(
        &self,
        row_mi: usize,
        col_mi: usize,
        block_size: Av2MvpBlockSize,
        suppress_above_at_sb_top: bool,
        field: Av2IntrabcNeighborField,
    ) -> (r: usize)
        requires
            self.wf(),
            row_mi + block_size.height / 4 <= usize::MAX,
            col_mi + block_size.width / 4 <= usize::MAX,
        ensures
            r == self.neighbor_sum_spec(row_mi, col_mi, block_size, suppress_above_at_sb_top, field),
            r <= 2,
    {
        let not_at_sb_top_boundary = row_mi % PARTITION_CONTEXT_DIM != 0;
        let include_above = !suppress_above_at_sb_top || not_at_sb_top_boundary;
        let ghost all = self.scanned_neighbors(row_mi, col_mi, block_size, include_above);
        let mut count: usize = 0;
        let mut sum: usize = 0;
        let mut states: Vec<Option<Av2IntrabcNeighborState>> = Vec::new();
        states.push(self.bottom_left_state(row_mi, col_mi, block_size));
        if include_above {
            states.push(self.above_right_state(row_mi, col_mi, block_size));
        }
        states.push(self.left_state(row_mi, col_mi));
        if include_above {
            states.push(self.above_state(row_mi, col_mi));
        }
        assert(states@ =~= all);
        assert(all.subrange(0, all.len() as int) =~= all);
        let mut i: usize = 0;
        while i < states.len()
            invariant
                i <= states@.len(),
                states@ == all,
                count <= 2,
                sum <= count,
                sum + first_two_sum(all.subrange(i as int, all.len() as int), field, count as int) == first_two_sum(all, field, 0),
            decreases states@.len() - i,
        {
            let ghost rest = all.subrange(i as int, all.len() as int);
            assert(rest.drop_first() =~= all.subrange(i + 1, all.len() as int));
            if count < 2 {
                if let Some(state) = states[i] {
                    let flag = match field {
                        Av2IntrabcNeighborField::Ibc => state.ibc,
                        Av2IntrabcNeighborField::Skip => state.skip,
                    };
                    if flag {
                        sum = sum + 1;
                    }
                    count = count + 1;
                }
            }
            i = i + 1;
        }
        proof {
            assert(all.subrange(states@.len() as int, all.len() as int).len() == 0);
        }
        sum
    }

    /// Context of the intra-block-copy flag: the neighbours' flags, without
    /// the above ones at a superblock's top row.
    pub fn intrabc_ctx(&self, row_mi: usize, col_mi: usize, block_size: Av2MvpBlockSize) -> (r: usize)
        requires
            self.wf(),
            row_mi + block_size.height / 4 <= usize::MAX,
            col_mi + block_size.width / 4 <= usize::MAX,
        ensures
            r == self.neighbor_sum_spec(row_mi, col_mi, block_size, true, Av2IntrabcNeighborField::Ibc),
            r <= 2,
    {
        self.neighbor_sum(row_mi, col_mi, block_size, true, Av2IntrabcNeighborField::Ibc)
    }

    /// Context of the skip flag: the neighbours' skip flags.
    pub fn skip_txfm_ctx(&self, row_mi: usize, col_mi: usize, block_size: Av2MvpBlockSize) -> (r: usize)
        requires
            self.wf(),
            row_mi + block_size.height / 4 <= usize::MAX,
            col_mi + block_size.width / 4 <= usize::MAX,
        ensures
            r == self.neighbor_sum_spec(row_mi, col_mi, block_size, false, Av2IntrabcNeighborField::Skip),
            r <= 2,
    {
        self.neighbor_sum(row_mi, col_mi, block_size, false, Av2IntrabcNeighborField::Skip)
    }

    /// `new` is `old` with every unit of the leaf of `block_size` at
    /// `(row_mi, col_mi)` inside the grid coded with the given flags.
    pub open spec fn leaf_recorded(
        old: &Self,
        new: &Self,
        row_mi: usize,
        col_mi: usize,
        block_size: Av2MvpBlockSize,
        use_intrabc: bool,
        skip_txfm: bool,
    ) -> bool {
        &&& new.rows_view() == old.rows_view()
        &&& new.cols_view() == old.cols_view()
        &&& forall|r: int, c: int| #[trigger] new.state_spec(r, c) == (if in_leaf(row_mi, col_mi, block_size, r, c) && 0 <= r
            < old.rows_view() && 0 <= c < old.cols_view() {
            Some(Av2IntrabcNeighborState { ibc: use_intrabc, skip: skip_txfm })
        } else {
            old.state_spec(r, c)
        })
    }

    /// Records a coded leaf.
    pub fn update_leaf(&mut self, row_mi: usize, col_mi: usize, block_size: Av2MvpBlockSize, use_intrabc: bool, skip_txfm: bool)
        requires
            old(self).wf(),
            row_mi + block_size.height / 4 <= usize::MAX,
            col_mi + block_size.width / 4 <= usize::MAX,
        ensures
            final(self).wf(),
            Self::leaf_recorded(old(self), final(self), row_mi, col_mi, block_size, use_intrabc, skip_txfm),
    {
        let ghost pre = *self;
        let row_end = if row_mi + block_size.mi_height() < self.rows { row_mi + block_size.mi_height() } else { self.rows };
        let col_end = if col_mi + block_size.mi_width() < self.cols { col_mi + block_size.mi_width() } else { self.cols };
        let cols = self.cols;
        let mut row = row_mi;
        while row < row_end
            invariant
                row_mi <= row,
                row_mi < row_end ==> row <= row_end,
                row_end <= row_mi ==> row == row_mi,
                row_end <= self.rows,
                col_end <= self.cols,
                cols == self.cols,
                self.rows == pre.rows,
                self.cols == pre.cols,
                self.wf(),
                row_end == (if row_mi + block_size.height / 4 < pre.rows { row_mi + block_size.height / 4 } else { pre.rows as int }),
                col_end == (if col_mi + block_size.width / 4 < pre.cols { col_mi + block_size.width / 4 } else { pre.cols as int }),
                forall|r: int, c: int| #[trigger] self.state_spec(r, c) == (if row_mi <= r < row && col_mi <= c < col_end && 0 <= r < pre.rows
                    && 0 <= c < pre.cols {
                    Some(Av2IntrabcNeighborState { ibc: use_intrabc, skip: skip_txfm })
                } else {
                    pre.state_spec(r, c)
                }),
            decreases row_end - row,
        {
            let mut col = col_mi;
            while col < col_end
                invariant
                    row_mi <= row < row_end,
                    row_end <= self.rows,
                    col_mi <= col,
                    col_mi < col_end ==> col <= col_end,
                    col_end <= col_mi ==> col == col_mi,
                    col_end <= self.cols,
                    cols == self.cols,
                    self.rows == pre.rows,
                    self.cols == pre.cols,
                    self.wf(),
                    forall|r: int, c: int| #[trigger] self.state_spec(r, c) == (if ((row_mi <= r < row && col_mi <= c < col_end) || (r == row
                        && col_mi <= c < col)) && 0 <= r < pre.rows && 0 <= c < pre.cols {
                        Some(Av2IntrabcNeighborState { ibc: use_intrabc, skip: skip_txfm })
                    } else {
                        pre.state_spec(r, c)
                    }),
                decreases col_end - col,
            {
                proof {
                    lemma_grid_index(row as int, col as int, self.rows as int, self.cols as int);
                }
                let index = row * cols + col;
                let ghost before = *self;
                self.coded.set(index, true);
                self.ibc.set(index, use_intrabc);
                self.skip.set(index, skip_txfm);
                proof {
                    assert forall|r: int, c: int| #[trigger] self.state_spec(r, c) == (if r == row && c == col {
                        Some(Av2IntrabcNeighborState { ibc: use_intrabc, skip: skip_txfm })
                    } else {
                        before.state_spec(r, c)
                    }) by {
                        if 0 <= r < self.rows && 0 <= c < self.cols && !(r == row && c == col) {
                            lemma_grid_index(r, c, self.rows as int, self.cols as int);
                            if r * cols + c == index {
                                lemma_grid_index_injective(r, c, row as int, col as int, cols as int);
                            }
                        }
                    }
                }
                col = col + 1;
            }
            proof {
                assert(col_mi < col_end ==> col == col_end);
                assert forall|r: int, c: int| #[trigger] self.state_spec(r, c) == (if row_mi <= r < row + 1 && col_mi <= c < col_end && 0 <= r
                    < pre.rows && 0 <= c < pre.cols {
                    Some(Av2IntrabcNeighborState { ibc: use_intrabc, skip: skip_txfm })
                } else {
                    pre.state_spec(r, c)
                }) by {
                    assert(self.state_spec(r, c) == (if ((row_mi <= r < row && col_mi <= c < col_end) || (r == row && col_mi <= c < col)) && 0
                        <= r < pre.rows && 0 <= c < pre.cols {
                        Some(Av2IntrabcNeighborState { ibc: use_intrabc, skip: skip_txfm })
                    } else {
                        pre.state_spec(r, c)
                    }));
                }
            }
            row = row + 1;
        }
        proof {
            assert(row_mi < row_end ==> row == row_end);
            assert forall|r: int, c: int| #[trigger] self.state_spec(r, c) == (if in_leaf(row_mi, col_mi, block_size, r, c) && 0 <= r
                < pre.rows && 0 <= c < pre.cols {
                Some(Av2IntrabcNeighborState { ibc: use_intrabc, skip: skip_txfm })
            } else {
                pre.state_spec(r, c)
            }) by {
                assert(self.state_spec(r, c) == (if row_mi <= r < row && col_mi <= c < col_end && 0 <= r < pre.rows && 0 <= c < pre.cols {
                    Some(Av2IntrabcNeighborState { ibc: use_intrabc, skip: skip_txfm })
                } else {
                    pre.state_spec(r, c)
                }));
            }
        }
    }
}

/// What the inter contexts read of a coded neighbour.
#[derive(Clone, Copy, Debug, PartialEq, Eq, Structural)]
pub struct Av2InterNeighborState {
    pub inter: bool,
    pub ref_frame: u8,
    pub newmv: bool,
    pub mv_row_px: i16,
    pub mv_col_px: i16,
}

/// A vector of `n` copies of `value`.
fn filled_u8(n: usize, value: u8) -> (r: Vec<u8>)
    ensures
        r@.len() == n,
        forall|i: int| 0 <= i < n ==> #[trigger] r@[i] == value,
{
    let mut v: Vec<u8> = Vec::new();
    let mut i: usize = 0;
    while i < n
        invariant
            i <= n,
            v@.len() == i,
            forall|k: int| 0 <= k < i ==> #[trigger] v@[k] == value,
        decreases n - i,
    {
        v.push(value);
        i = i + 1;
    }
    v
}

/// A vector of `n` copies of `value`.
fn filled_i16(n: usize, value: i16) -> (r: Vec<i16>)
    ensures
        r@.len() == n,
        forall|i: int| 0 <= i < n ==> #[trigger] r@[i] == value,
{
    let mut v: Vec<i16> = Vec::new();
    let mut i: usize = 0;
    while i < n
        invariant
            i <= n,
            v@.len() == i,
            forall|k: int| 0 <= k < i ==> #[trigger] v@[k] == value,
        decreases n - i,
    {
        v.push(value);
        i = i + 1;
    }
    v
}

/// Inter flag, reference frame, new-motion-vector flag and motion vector of
/// every mode-info unit of a tile, row by row.
pub struct Av2InterModeContext {
    coded: Vec<bool>,
    inter: Vec<bool>,
    ref_frame: Vec<u8>,
    newmv: Vec<bool>,
    mv_row_px: Vec<i16>,
    mv_col_px: Vec<i16>,
    rows: usize,
    cols: usize,
}

/// Whether a neighbour is an inter unit predicting from `ref_frame`.
pub open spec fn same_ref(state: Option<Av2InterNeighborState>, ref_frame: u8) -> bool {
    match state {
        Some(s) => s.inter && s.ref_frame == ref_frame,
        None => false,
    }
}

/// Whether a neighbour is an inter unit predicting from `ref_frame` with a
/// new motion vector.
pub open spec fn same_ref_newmv(state: Option<Av2InterNeighborState>, ref_frame: u8) -> bool {
    same_ref(state, ref_frame) && state->0.newmv
}

/// The first neighbour of `s` that is present, or none.
pub open spec fn first_present(a: Option<Av2InterNeighborState>, b: Option<Av2InterNeighborState>) -> Option<Av2InterNeighborState> {
    if a is Some { a } else { b }
}

/// Votes of one neighbour for the single-reference context: whether it is
/// an inter unit on `ref_frame`, and whether it is one on a later reference
/// below `total_refs`.
pub open spec fn ref_votes(state: Option<Av2InterNeighborState>, ref_frame: u8, total_refs: usize) -> (int, int) {
    match state {
        Some(s) => if !s.inter {
            (0, 0)
        } else if s.ref_frame == ref_frame {
            (1, 0)
        } else if s.ref_frame > ref_frame && (s.ref_frame as int) < total_refs {
            (0, 1)
        } else {
            (0, 0)
        },
        None => (0, 0),
    }
}

impl Av2InterModeContext {
    /// The six vectors cover the grid.
    pub closed spec fn wf(&self) -> bool {
        &&& self.rows * self.cols <= usize::MAX
        &&& self.coded@.len() == self.rows * self.cols
        &&& self.inter@.len() == self.rows * self.cols
        &&& self.ref_frame@.len() == self.rows * self.cols
        &&& self.newmv@.len() == self.rows * self.cols
        &&& self.mv_row_px@.len() == self.rows * self.cols
        &&& self.mv_col_px@.len() == self.rows * self.cols
    }

    /// Rows of the grid.
    pub closed spec fn rows_view(&self) -> usize {
        self.rows
    }

    /// Columns of the grid.
    pub closed spec fn cols_view(&self) -> usize {
        self.cols
    }

    /// The state of unit `(row, col)`: none outside the grid or while the
    /// unit is not coded.
    pub closed spec fn state_spec(&self, row: int, col: int) -> Option<Av2InterNeighborState> {
        let i = row * self.cols + col;
        if 0 <= row < self.rows && 0 <= col < self.cols && self.coded@[i] {
            Some(
                Av2InterNeighborState {
                    inter: self.inter@[i],
                    ref_frame: self.ref_frame@[i],
                    newmv: self.newmv@[i],
                    mv_row_px: self.mv_row_px@[i],
                    mv_col_px: self.mv_col_px@[i],
                },
            )
        } else {
            None
        }
    }

    /// A grid of `visible_rows_mi` by `visible_cols_mi` uncoded units.
    pub fn new(visible_rows_mi: usize, visible_cols_mi: usize) -> (r: Self)
        requires
            visible_rows_mi * visible_cols_mi <= usize::MAX,
        ensures
            r.wf(),
            r.rows_view() == visible_rows_mi,
            r.cols_view() == visible_cols_mi,
            forall|row: int, col: int| #[trigger] r.state_spec(row, col) is None,
    {
        let n = visible_rows_mi * visible_cols_mi;
        let r = Av2InterModeContext {
            coded: filled_bools(n, false),
            inter: filled_bools(n, false),
            ref_frame: filled_u8(n, 0),
            newmv: filled_bools(n, false),
            mv_row_px: filled_i16(n, 0),
            mv_col_px: filled_i16(n, 0),
            rows: visible_rows_mi,
            cols: visible_cols_mi,
        };
        proof {
            assert forall|row: int, col: int| #[trigger] r.state_spec(row, col) is None by {
                if 0 <= row < visible_rows_mi && 0 <= col < visible_cols_mi {
                    lemma_grid_index(row, col, visible_rows_mi as int, visible_cols_mi as int);
                }
            }
        }
        r
    }

    /// The state of unit `(row_mi, col_mi)`.
    pub fn state_at(&self, row_mi: usize, col_mi: usize) -> (r: Option<Av2InterNeighborState>)
        requires
            self.wf(),
        ensures
            r == self.state_spec(row_mi as int, col_mi as int),
    {
        if row_mi >= self.rows || col_mi >= self.cols {
            return None;
        }
        proof {
            lemma_grid_index(row_mi as int, col_mi as int, self.rows as int, self.cols as int);
        }
        let index = row_mi * self.cols + col_mi;
        if self.coded[index] {
            Some(
                Av2InterNeighborState {
                    inter: self.inter[index],
                    ref_frame: self.ref_frame[index],
                    newmv: self.newmv[index],
                    mv_row_px: self.mv_row_px[index],
                    mv_col_px: self.mv_col_px[index],
                },
            )
        } else {
            None
        }
    }

    /// The unit left of the leaf's bottom row.
    pub open spec fn bottom_left_spec(&self, row_mi: usize, col_mi: usize, block_size: Av2MvpBlockSize) -> Option<Av2InterNeighborState> {
        if col_mi == 0 {
            None
        } else {
            self.state_spec(row_mi + sat_sub_usize(block_size.height / 4, 1), col_mi - 1)
        }
    }

    /// The unit above the leaf's right column.
    pub open spec fn above_right_spec(&self, row_mi: usize, col_mi: usize, block_size: Av2MvpBlockSize) -> Option<Av2InterNeighborState> {
        if row_mi == 0 {
            None
        } else {
            self.state_spec(row_mi - 1, col_mi + sat_sub_usize(block_size.width / 4, 1))
        }
    }

    /// The unit left of `(row_mi, col_mi)`.
    pub open spec fn left_spec(&self, row_mi: usize, col_mi: usize) -> Option<Av2InterNeighborState> {
        if col_mi == 0 { None } else { self.state_spec(row_mi as int, col_mi - 1) }
    }

    /// The unit above `(row_mi, col_mi)`.
    pub open spec fn above_spec(&self, row_mi: usize, col_mi: usize) -> Option<Av2InterNeighborState> {
        if row_mi == 0 { None } else { self.state_spec(row_mi - 1, col_mi as int) }
    }

    /// The state left of the leaf's bottom row.
    pub fn bottom_left_state(&self, row_mi: usize, col_mi: usize, block_size: Av2MvpBlockSize) -> (r: Option<Av2InterNeighborState>)
        requires
            self.wf(),
            row_mi + block_size.height / 4 <= usize::MAX,
        ensures
            r == self.bottom_left_spec(row_mi, col_mi, block_size),
    {
        if col_mi == 0 {
            return None;
        }
        let h = block_size.mi_height();
        let down = if h >= 1 { h - 1 } else { 0 };
        self.state_at(row_mi + down, col_mi - 1)
    }

    /// The state above the leaf's right column.
    pub fn above_right_state(&self, row_mi: usize, col_mi: usize, block_size: Av2MvpBlockSize) -> (r: Option<Av2InterNeighborState>)
        requires
            self.wf(),
            col_mi + block_size.width / 4 <= usize::MAX,
        ensures
            r == self.above_right_spec(row_mi, col_mi, block_size),
    {
        if row_mi == 0 {
            return None;
        }
        let w = block_size.mi_width();
        let right = if w >= 1 { w - 1 } else { 0 };
        self.state_at(row_mi - 1, col_mi + right)
    }

    /// The state left of `(row_mi, col_mi)`.
    pub fn left_state(&self, row_mi: usize, col_mi: usize) -> (r: Option<Av2InterNeighborState>)
        requires
            self.wf(),
        ensures
            r == self.left_spec(row_mi, col_mi),
    {
        if col_mi == 0 {
            return None;
        }
        self.state_at(row_mi, col_mi - 1)
    }

    /// The state above `(row_mi, col_mi)`.
    pub fn above_state(&self, row_mi: usize, col_mi: usize) -> (r: Option<Av2InterNeighborState>)
        requires
            self.wf(),
        ensures
            r == self.above_spec(row_mi, col_mi),
    {
        if row_mi == 0 {
            return None;
        }
        self.state_at(row_mi - 1, col_mi)
    }

    /// Intra/inter context: 3 when every available neighbour of the left and
    /// above is intra, 1 when exactly one of two is, 0 otherwise.
    pub open spec fn intra_inter_ctx_spec(&self, row_mi: usize, col_mi: usize) -> int {
        let left = self.left_spec(row_mi, col_mi);
        let above = self.above_spec(row_mi, col_mi);
        match (left, above) {
            (Some(l), Some(a)) => if !l.inter && !a.inter {
                3
            } else if !l.inter || !a.inter {
                1
            } else {
                0
            },
            (Some(n), None) => if n.inter { 0 } else { 3 },
            (None, Some(n)) => if n.inter { 0 } else { 3 },
            (None, None) => 0,
        }
    }

    /// Context of the intra/inter flag.
    pub fn intra_inter_ctx(&self, row_mi: usize, col_mi: usize) -> (r: usize)
        requires
            self.wf(),
        ensures
            r == self.intra_inter_ctx_spec(row_mi, col_mi),
    {
        let left = self.left_state(row_mi, col_mi);
        let above = self.above_state(row_mi, col_mi);
        match (left, above) {
            (Some(left), Some(above)) => {
                if !left.inter && !above.inter {
                    3
                } else if !left.inter || !above.inter {
                    1
                } else {
                    0
                }
            },
            (Some(neighbor), None) => if neighbor.inter { 0 } else { 3 },
            (None, Some(neighbor)) => if neighbor.inter { 0 } else { 3 },
            (None, None) => 0,
        }
    }

    /// Single-mode context: one for each of the above-row and left-column
    /// neighbours on `ref_frame`, plus two when either carries a new motion
    /// vector.
    pub open spec fn inter_single_mode_ctx_spec(&self, row_mi: usize, col_mi: usize, block_size: Av2MvpBlockSize, ref_frame: u8) -> int {
        let row_state = first_present(self.above_right_spec(row_mi, col_mi, block_size), self.above_spec(row_mi, col_mi));
        let col_state = first_present(self.bottom_left_spec(row_mi, col_mi, block_size), self.left_spec(row_mi, col_mi));
        (if same_ref(row_state, ref_frame) { 1int } else { 0 }) + (if same_ref(col_state, ref_frame) { 1int } else { 0 }) + (if same_ref_newmv(
            row_state,
            ref_frame,
        ) || same_ref_newmv(col_state, ref_frame) {
            2int
        } else {
            0
        })
    }

    /// Context of the single-reference inter mode.
    pub fn inter_single_mode_ctx(&self, row_mi: usize, col_mi: usize, block_size: Av2MvpBlockSize, ref_frame: u8) -> (r: usize)
        requires
            self.wf(),
            row_mi + block_size.height / 4 <= usize::MAX,
            col_mi + block_size.width / 4 <= usize::MAX,
        ensures
            r == self.inter_single_mode_ctx_spec(row_mi, col_mi, block_size, ref_frame),
            r <= 4,
    {
        let above_right = self.above_right_state(row_mi, col_mi, block_size);
        let row_state = if above_right.is_some() { above_right } else { self.above_state(row_mi, col_mi) };
        let bottom_left = self.bottom_left_state(row_mi, col_mi, block_size);
        let col_state = if bottom_left.is_some() { bottom_left } else { self.left_state(row_mi, col_mi) };
        let (row_match, row_newmv) = match row_state {
            Some(state) => (state.inter && state.ref_frame == ref_frame, state.inter && state.ref_frame == ref_frame && state.newmv),
            None => (false, false),
        };
        let (col_match, col_newmv) = match col_state {
            Some(state) => (state.inter && state.ref_frame == ref_frame, state.inter && state.ref_frame == ref_frame && state.newmv),
            None => (false, false),
        };
        let mut ctx: usize = 0;
        if row_match {
            ctx = ctx + 1;
        }
        if col_match {
            ctx = ctx + 1;
        }
        if row_newmv || col_newmv {
            ctx = ctx + 2;
        }
        ctx
    }

    /// Single-reference context: 0, 1 or 2 as the left and above inter
    /// neighbours on `ref_frame` are fewer than, as many as, or more than
    /// those on a later reference below `total_refs`.
    pub open spec fn single_ref_ctx_spec(&self, row_mi: usize, col_mi: usize, ref_frame: u8, total_refs: usize) -> int {
        let l = ref_votes(self.left_spec(row_mi, col_mi), ref_frame, total_refs);
        let a = ref_votes(self.above_spec(row_mi, col_mi), ref_frame, total_refs);
        let this_ref = l.0 + a.0;
        let next_refs = l.1 + a.1;
        if this_ref < next_refs { 0 } else if this_ref == next_refs { 1 } else { 2 }
    }

    /// Context of the single-reference flag.
    pub fn single_ref_ctx(&self, row_mi: usize, col_mi: usize, ref_frame: u8, total_refs: usize) -> (r: usize)
        requires
            self.wf(),
        ensures
            r == self.single_ref_ctx_spec(row_mi, col_mi, ref_frame, total_refs),
    {
        let mut this_ref_count: usize = 0;
        let mut next_refs_count: usize = 0;
        let left = self.left_state(row_mi, col_mi);
        let above = self.above_state(row_mi, col_mi);
        if let Some(state) = left {
            if state.inter {
                if state.ref_frame == ref_frame {
                    this_ref_count = this_ref_count + 1;
                } else if (state.ref_frame as usize) > (ref_frame as usize) && (state.ref_frame as usize) < total_refs {
                    next_refs_count = next_refs_count + 1;
                }
            }
        }
        if let Some(state) = above {
            if state.inter {
                if state.ref_frame == ref_frame {
                    this_ref_count = this_ref_count + 1;
                } else if (state.ref_frame as usize) > (ref_frame as usize) && (state.ref_frame as usize) < total_refs {
                    next_refs_count = next_refs_count + 1;
                }
            }
        }
        if this_ref_count < next_refs_count {
            0
        } else if this_ref_count == next_refs_count {
            1
        } else {
            2
        }
    }

    /// The motion vector of the first of the left, above, above-right and
    /// bottom-left neighbours that is an inter unit on `ref_frame`, or zero.
    pub open spec fn nearest_ref_mv_spec(&self, row_mi: usize, col_mi: usize, block_size: Av2MvpBlockSize, ref_frame: u8) -> (i16, i16) {
        let l = self.left_spec(row_mi, col_mi);
        let a = self.above_spec(row_mi, col_mi);
        let ar = self.above_right_spec(row_mi, col_mi, block_size);
        let bl = self.bottom_left_spec(row_mi, col_mi, block_size);
        if same_ref(l, ref_frame) {
            (l->0.mv_row_px, l->0.mv_col_px)
        } else if same_ref(a, ref_frame) {
            (a->0.mv_row_px, a->0.mv_col_px)
        } else if same_ref(ar, ref_frame) {
            (ar->0.mv_row_px, ar->0.mv_col_px)
        } else if same_ref(bl, ref_frame) {
            (bl->0.mv_row_px, bl->0.mv_col_px)
        } else {
            (0, 0)
        }
    }

    /// The nearest neighbouring motion vector on `ref_frame`.
    pub fn nearest_ref_mv(&self, row_mi: usize, col_mi: usize, block_size: Av2MvpBlockSize, ref_frame: u8) -> (r: (i16, i16))
        requires
            self.wf(),
            row_mi + block_size.height / 4 <= usize::MAX,
            col_mi + block_size.width / 4 <= usize::MAX,
        ensures
            r == self.nearest_ref_mv_spec(row_mi, col_mi, block_size, ref_frame),
    {
        let candidates = [
            self.left_state(row_mi, col_mi),
            self.above_state(row_mi, col_mi),
            self.above_right_state(row_mi, col_mi, block_size),
            self.bottom_left_state(row_mi, col_mi, block_size),
        ];
        let mut i: usize = 0;
        while i < 4
            invariant
                i <= 4,
                candidates@ == seq![
                    self.left_spec(row_mi, col_mi),
                    self.above_spec(row_mi, col_mi),
                    self.above_right_spec(row_mi, col_mi, block_size),
                    self.bottom_left_spec(row_mi, col_mi, block_size),
                ],
                forall|k: int| 0 <= k < i ==> !same_ref(#[trigger] candidates@[k], ref_frame),
            decreases 4 - i,
        {
            if let Some(state) = candidates[i] {
                if state.inter && state.ref_frame == ref_frame {
                    return (state.mv_row_px, state.mv_col_px);
                }
            }
            i = i + 1;
        }
        (0, 0)
    }

    /// `new` is `old` with every unit of the leaf of `block_size` at
    /// `(row_mi, col_mi)` inside the grid coded with `state`.
    pub open spec fn leaf_recorded(
        old: &Self,
        new: &Self,
        row_mi: usize,
        col_mi: usize,
        block_size: Av2MvpBlockSize,
        state: Av2InterNeighborState,
    ) -> bool {
        &&& new.rows_view() == old.rows_view()
        &&& new.cols_view() == old.cols_view()
        &&& forall|r: int, c: int| #[trigger] new.state_spec(r, c) == (if in_leaf(row_mi, col_mi, block_size, r, c) && 0 <= r
            < old.rows_view() && 0 <= c < old.cols_view() {
            Some(state)
        } else {
            old.state_spec(r, c)
        })
    }

    /// Records a coded leaf.
    pub fn update_leaf(
        &mut self,
        row_mi: usize,
        col_mi: usize,
        block_size: Av2MvpBlockSize,
        inter: bool,
        ref_frame: u8,
        newmv: bool,
        mv_row_px: i16,
        mv_col_px: i16,
    )
        requires
            old(self).wf(),
            row_mi + block_size.height / 4 <= usize::MAX,
            col_mi + block_size.width / 4 <= usize::MAX,
        ensures
            final(self).wf(),
            Self::leaf_recorded(
                old(self),
                final(self),
                row_mi,
                col_mi,
                block_size,
                Av2InterNeighborState { inter, ref_frame, newmv, mv_row_px, mv_col_px },
            ),
    {
        let ghost pre = *self;
        let ghost st = Av2InterNeighborState { inter, ref_frame, newmv, mv_row_px, mv_col_px };
        let row_end = if row_mi + block_size.mi_height() < self.rows { row_mi + block_size.mi_height() } else { self.rows };
        let col_end = if col_mi + block_size.mi_width() < self.cols { col_mi + block_size.mi_width() } else { self.cols };
        let cols = self.cols;
        let mut row = row_mi;
        while row < row_end
            invariant
                row_mi <= row,
                row_mi < row_end ==> row <= row_end,
                row_end <= row_mi ==> row == row_mi,
                row_end <= self.rows,
                col_end <= self.cols,
                cols == self.cols,
                self.rows == pre.rows,
                self.cols == pre.cols,
                self.wf(),
                st == (Av2InterNeighborState { inter, ref_frame, newmv, mv_row_px, mv_col_px }),
                row_end == (if row_mi + block_size.height / 4 < pre.rows { row_mi + block_size.height / 4 } else { pre.rows as int }),
                col_end == (if col_mi + block_size.width / 4 < pre.cols { col_mi + block_size.width / 4 } else { pre.cols as int }),
                forall|r: int, c: int| #[trigger] self.state_spec(r, c) == (if row_mi <= r < row && col_mi <= c < col_end && 0 <= r < pre.rows
                    && 0 <= c < pre.cols {
                    Some(st)
                } else {
                    pre.state_spec(r, c)
                }),
            decreases row_end - row,
        {
            let mut col = col_mi;
            while col < col_end
                invariant
                    row_mi <= row < row_end,
                    row_end <= self.rows,
                    col_mi <= col,
                    col_mi < col_end ==> col <= col_end,
                    col_end <= col_mi ==> col == col_mi,
                    col_end <= self.cols,
                    cols == self.cols,
                    self.rows == pre.rows,
                    self.cols == pre.cols,
                    self.wf(),
                    st == (Av2InterNeighborState { inter, ref_frame, newmv, mv_row_px, mv_col_px }),
                    forall|r: int, c: int| #[trigger] self.state_spec(r, c) == (if ((row_mi <= r < row && col_mi <= c < col_end) || (r == row
                        && col_mi <= c < col)) && 0 <= r < pre.rows && 0 <= c < pre.cols {
                        Some(st)
                    } else {
                        pre.state_spec(r, c)
                    }),
                decreases col_end - col,
            {
                proof {
                    lemma_grid_index(row as int, col as int, self.rows as int, self.cols as int);
                }
                let index = row * cols + col;
                let ghost before = *self;
                self.coded.set(index, true);
                self.inter.set(index, inter);
                self.ref_frame.set(index, ref_frame);
                self.newmv.set(index, newmv);
                self.mv_row_px.set(index, mv_row_px);
                self.mv_col_px.set(index, mv_col_px);
                proof {
                    assert forall|r: int, c: int| #[trigger] self.state_spec(r, c) == (if r == row && c == col {
                        Some(st)
                    } else {
                        before.state_spec(r, c)
                    }) by {
                        if 0 <= r < self.rows && 0 <= c < self.cols && !(r == row && c == col) {
                            lemma_grid_index(r, c, self.rows as int, self.cols as int);
                            if r * cols + c == index {
                                lemma_grid_index_injective(r, c, row as int, col as int, cols as int);
                            }
                        }
                    }
                }
                col = col + 1;
            }
            proof {
                assert(col_mi < col_end ==> col == col_end);
                assert forall|r: int, c: int| #[trigger] self.state_spec(r, c) == (if row_mi <= r < row + 1 && col_mi <= c < col_end && 0 <= r
                    < pre.rows && 0 <= c < pre.cols {
                    Some(st)
                } else {
                    pre.state_spec(r, c)
                }) by {
                    assert(self.state_spec(r, c) == (if ((row_mi <= r < row && col_mi <= c < col_end) || (r == row && col_mi <= c < col)) && 0
                        <= r < pre.rows && 0 <= c < pre.cols {
                        Some(st)
                    } else {
                        pre.state_spec(r, c)
                    }));
                }
            }
            row = row + 1;
        }
        proof {
            assert(row_mi < row_end ==> row == row_end);
            assert forall|r: int, c: int| #[trigger] self.state_spec(r, c) == (if in_leaf(row_mi, col_mi, block_size, r, c) && 0 <= r
                < pre.rows && 0 <= c < pre.cols {
                Some(st)
            } else {
                pre.state_spec(r, c)
            }) by {
                assert(self.state_spec(r, c) == (if row_mi <= r < row && col_mi <= c < col_end && 0 <= r < pre.rows && 0 <= c < pre.cols {
                    Some(st)
                } else {
                    pre.state_spec(r, c)
                }));
            }
        }
    }
}

/// A leaf whose inter coding is in progress: a skipped one, or one with a
/// residual and its motion vector.
#[derive(Clone, Copy, Debug, PartialEq, Eq, Structural)]
pub enum Av2ActiveInterLeaf {
    Skip { row: usize, col: usize },
    Residual { row: usize, col: usize, mv_row_px: i16, mv_col_px: i16 },
}

/// Origin of an active leaf.
pub open spec fn active_origin_spec(leaf: Av2ActiveInterLeaf) -> (usize, usize) {
    match leaf {
        Av2ActiveInterLeaf::Skip { row, col } => (row, col),
        Av2ActiveInterLeaf::Residual { row, col, .. } => (row, col),
    }
}

impl Av2ActiveInterLeaf {
    /// Mode-info row and column of the leaf.
    pub fn origin(self) -> (r: (usize, usize))
        ensures
            r == active_origin_spec(self),
    {
        match self {
            Av2ActiveInterLeaf::Skip { row, col } => (row, col),
            Av2ActiveInterLeaf::Residual { row, col, .. } => (row, col),
        }
    }
}

/// The active leaf when it starts at the decision's `(row, col)`.
pub fn active_inter_leaf_matches(
    active_inter_leaf: Option<Av2ActiveInterLeaf>,
    decision_row: usize,
    decision_col: usize,
) -> (r: Option<Av2ActiveInterLeaf>)
    ensures
        r == (match active_inter_leaf {
            Some(leaf) => if active_origin_spec(leaf) == (decision_row, decision_col) { Some(leaf) } else { None },
            None => None,
        }),
{
    let active_inter_leaf = match active_inter_leaf {
        Some(leaf) => leaf,
        None => return None,
    };
    let (row, col) = active_inter_leaf.origin();
    if row == decision_row && col == decision_col {
        Some(active_inter_leaf)
    } else {
        None
    }
}

/// After a leaf is recorded, each of its units inside the grid reads back
/// the recorded flags, and every other unit reads as before.
pub proof fn lemma_intrabc_leaf_read_back(
    old: &Av2IntrabcContext,
    new: &Av2IntrabcContext,
    row_mi: usize,
    col_mi: usize,
    block_size: Av2MvpBlockSize,
    use_intrabc: bool,
    skip_txfm: bool,
    r: int,
    c: int,
)
    requires
        Av2IntrabcContext::leaf_recorded(old, new, row_mi, col_mi, block_size, use_intrabc, skip_txfm),
    ensures
        in_leaf(row_mi, col_mi, block_size, r, c) && 0 <= r < old.rows_view() && 0 <= c < old.cols_view() ==> new.state_spec(r, c)
            == Some(Av2IntrabcNeighborState { ibc: use_intrabc, skip: skip_txfm }),
        !in_leaf(row_mi, col_mi, block_size, r, c) ==> new.state_spec(r, c) == old.state_spec(r, c),
{
    assert(new.state_spec(r, c) == new.state_spec(r, c));
}

/// Where no unit is coded yet, every intra-block-copy and skip context is 0.
pub proof fn lemma_intrabc_uncoded_contexts_zero(
    ctx: &Av2IntrabcContext,
    row_mi: usize,
    col_mi: usize,
    block_size: Av2MvpBlockSize,
    suppress_above_at_sb_top: bool,
    field: Av2IntrabcNeighborField,
)
    requires
        forall|r: int, c: int| #[trigger] ctx.state_spec(r, c) is None,
    ensures
        ctx.neighbor_sum_spec(row_mi, col_mi, block_size, suppress_above_at_sb_top, field) == 0,
{
    reveal_with_fuel(first_two_sum, 5);
    let include_above = !suppress_above_at_sb_top || row_mi % PARTITION_CONTEXT_DIM != 0;
    let s = ctx.scanned_neighbors(row_mi, col_mi, block_size, include_above);
    assert(ctx.state_spec(row_mi + sat_sub_usize(block_size.height / 4, 1), col_mi - 1) is None);
    assert(ctx.state_spec(row_mi - 1, col_mi + sat_sub_usize(block_size.width / 4, 1)) is None);
    assert(ctx.state_spec(row_mi as int, col_mi - 1) is None);
    assert(ctx.state_spec(row_mi - 1, col_mi as int) is None);
    assert(forall|i: int| 0 <= i < s.len() ==> s[i] is None);
    assert(s.drop_first().drop_first().len() == 0 || s.drop_first().drop_first().drop_first().drop_first().len() == 0);
}

/// After a leaf is recorded, each of its units inside the grid reads back
/// the recorded state, and every other unit reads as before.
pub proof fn lemma_inter_leaf_read_back(
    old: &Av2InterModeContext,
    new: &Av2InterModeContext,
    row_mi: usize,
    col_mi: usize,
    block_size: Av2MvpBlockSize,
    state: Av2InterNeighborState,
    r: int,
    c: int,
)
    requires
        Av2InterModeContext::leaf_recorded(old, new, row_mi, col_mi, block_size, state),
    ensures
        in_leaf(row_mi, col_mi, block_size, r, c) && 0 <= r < old.rows_view() && 0 <= c < old.cols_view() ==> new.state_spec(r, c)
            == Some(state),
        !in_leaf(row_mi, col_mi, block_size, r, c) ==> new.state_spec(r, c) == old.state_spec(r, c),
{
    assert(new.state_spec(r, c) == new.state_spec(r, c));
}

/// Where no unit is coded yet, the intra/inter and single-mode contexts are
/// 0, the single-reference context is 1 and the nearest motion vector is
/// zero.
pub proof fn lemma_inter_uncoded_contexts(
    ctx: &Av2InterModeContext,
    row_mi: usize,
    col_mi: usize,
    block_size: Av2MvpBlockSize,
    ref_frame: u8,
    total_refs: usize,
)
    requires
        forall|r: int, c: int| #[trigger] ctx.state_spec(r, c) is None,
    ensures
        ctx.intra_inter_ctx_spec(row_mi, col_mi) == 0,
        ctx.inter_single_mode_ctx_spec(row_mi, col_mi, block_size, ref_frame) == 0,
        ctx.single_ref_ctx_spec(row_mi, col_mi, ref_frame, total_refs) == 1,
        ctx.nearest_ref_mv_spec(row_mi, col_mi, block_size, ref_frame) == (0i16, 0i16),
{
    assert(ctx.state_spec(row_mi + sat_sub_usize(block_size.height / 4, 1), col_mi - 1) is None);
    assert(ctx.state_spec(row_mi - 1, col_mi + sat_sub_usize(block_size.width / 4, 1)) is None);
    assert(ctx.state_spec(row_mi as int, col_mi - 1) is None);
    assert(ctx.state_spec(row_mi - 1, col_mi as int) is None);
}

/// Transform-block entropy contexts of a tile, per 4x4 column (above) and
/// row (left) of each plane: what the last coded block there left behind.
pub struct Av2TxbEntropyContexts {
    pub y_above: Vec<u8>,
    pub y_left: Vec<u8>,
    pub u_above: Vec<u8>,
    pub u_left: Vec<u8>,
    pub v_above: Vec<u8>,
    pub v_left: Vec<u8>,
}

/// `n` zero contexts.
fn zero_contexts(n: usize) -> (r: Vec<u8>)
    ensures
        r@ == Seq::new(n as nat, |i: int| 0u8),
{
    let mut v: Vec<u8> = Vec::new();
    let mut i: usize = 0;
    while i < n
        invariant
            i <= n,
            v@ == Seq::new(i as nat, |k: int| 0u8),
        decreases n - i,
    {
        v.push(0);
        i = i + 1;
        proof {
            assert(v@ =~= Seq::new(i as nat, |k: int| 0u8));
        }
    }
    v
}

impl Av2TxbEntropyContexts {
    /// Cleared contexts of a tile `visible_rows_mi` by `visible_cols_mi`
    /// 4x4 blocks: one zero per column above and per row to the left, for
    /// each plane.
    pub fn new(visible_rows_mi: usize, visible_cols_mi: usize) -> (r: Self)
        ensures
            r.y_above@ == Seq::new(visible_cols_mi as nat, |i: int| 0u8),
            r.y_left@ == Seq::new(visible_rows_mi as nat, |i: int| 0u8),
            r.u_above@ == Seq::new(visible_cols_mi as nat, |i: int| 0u8),
            r.u_left@ == Seq::new(visible_rows_mi as nat, |i: int| 0u8),
            r.v_above@ == Seq::new(visible_cols_mi as nat, |i: int| 0u8),
            r.v_left@ == Seq::new(visible_rows_mi as nat, |i: int| 0u8),
    {
        Av2TxbEntropyContexts {
            y_above: zero_contexts(visible_cols_mi),
            y_left: zero_contexts(visible_rows_mi),
            u_above: zero_contexts(visible_cols_mi),
            u_left: zero_contexts(visible_rows_mi),
            v_above: zero_contexts(visible_cols_mi),
            v_left: zero_contexts(visible_rows_mi),
        }
    }
}

} // verus!
