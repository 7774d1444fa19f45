use vstd::prelude::*;

verus! {

/// A coding block's size in luma samples.
#[derive(Clone, Copy, Debug, PartialEq, Eq, Structural)]
pub struct Av2MvpBlockSize {
    pub width: usize,
    pub height: usize,
}

impl Av2MvpBlockSize {
    /// The block size `width` by `height`.
    pub fn new(width: usize, height: usize) -> (r: Self)
        ensures
            r.width == width,
            r.height == height,
    {
        Av2MvpBlockSize { width, height }
    }

    /// Width in 4x4 transform blocks.
    pub fn tx4x4_width(self) -> (r: usize)
        ensures
            r == self.width / 4,
    {
        self.width / 4
    }

    /// Height in 4x4 transform blocks.
    pub fn tx4x4_height(self) -> (r: usize)
        ensures
            r == self.height / 4,
    {
        self.height / 4
    }

    /// Width in mode-info units.
    pub fn mi_width(self) -> (r: usize)
        ensures
            r == self.width / 4,
    {
        self.width / 4
    }

    /// Height in mode-info units.
    pub fn mi_height(self) -> (r: usize)
        ensures
            r == self.height / 4,
    {
        self.height / 4
    }
}

/// Partition-context code of a block side of 8, 16, 32 or 64 samples.
pub open spec fn partition_side_code(side: usize) -> int {
    if side == 8 {
        30
    } else if side == 16 {
        28
    } else if side == 32 {
        24
    } else {
        16
    }
}

/// A supported block side: 8, 16, 32 or 64 samples.
pub open spec fn supported_side(s: usize) -> bool {
    s == 8 || s == 16 || s == 32 || s == 64
}

/// The block sizes that carry a partition context: both sides supported.
pub open spec fn supported_block_size(width: usize, height: usize) -> bool {
    supported_side(width) && supported_side(height)
}

/// Above and left partition contexts that a coded block leaves behind:
/// `32` plus a code of its width and of its height (8: 30, 16: 28, 32: 24,
/// 64: 16).
pub fn partition_context_lookup(block_size: Av2MvpBlockSize) -> (r: (u8, u8))
    requires
        supported_block_size(block_size.width, block_size.height),
    ensures
        r.0 == 32 + partition_side_code(block_size.width),
        r.1 == 32 + partition_side_code(block_size.height),
{
    let above: u8 = match block_size.width {
        8 => 32 + 30,
        16 => 32 + 28,
        32 => 32 + 24,
        _ => 32 + 16,
    };
    let left: u8 = match block_size.height {
        8 => 32 + 30,
        16 => 32 + 28,
        32 => 32 + 24,
        _ => 32 + 16,
    };
    (above, left)
}

} // verus!
