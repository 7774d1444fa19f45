use vstd::prelude::*;

verus! {

/// Width and height of a 4x4 transform block.
pub const TX4X4_SIZE: usize = 4;
/// Number of samples in a 4x4 transform block.
pub const TX4X4_SAMPLES: usize = 16;
/// Width and height of an 8x8 transform block.
pub const TX8X8_SIZE: usize = 8;
/// Number of samples in an 8x8 transform block.
pub const TX8X8_SAMPLES: usize = 64;
/// Width of a 4x8 (4 wide, 8 tall) transform block.
pub const TX4X8_WIDTH: usize = 4;
/// Height of a 4x8 transform block.
pub const TX4X8_HEIGHT: usize = 8;
/// Number of samples in a 4x8 transform block.
pub const TX4X8_SAMPLES: usize = 32;
/// Size of a mode-info unit in luma samples.
pub const MI_SIZE: usize = 4;
/// Superblock size in luma samples.
pub const MVP_SUPERBLOCK_SIZE: usize = 64;

/// Coefficient scan order of a 4x4 transform block (raster positions).
pub const TX4X4_SCAN: [usize; 16] = [0, 1, 4, 8, 5, 2, 3, 6, 9, 12, 13, 10, 7, 11, 14, 15];

/// Coefficient scan order of an 8x8 transform block (raster positions).
pub const TX8X8_SCAN: [usize; 64] = [
    0, 1, 8, 16, 9, 2, 3, 10, 17, 24, 32, 25, 18, 11, 4, 5, 12, 19, 26, 33, 40, 48, 41, 34, 27,
    20, 13, 6, 7, 14, 21, 28, 35, 42, 49, 56, 57, 50, 43, 36, 29, 22, 15, 23, 30, 37, 44, 51, 58,
    59, 52, 45, 38, 31, 39, 46, 53, 60, 61, 54, 47, 55, 62, 63,
];

/// Coefficient scan order of a 4x8 transform block (raster positions).
pub const TX4X8_SCAN: [usize; 32] = [
    0, 1, 4, 8, 5, 2, 3, 6, 9, 12, 16, 13, 10, 7, 11, 14, 17, 20, 24, 21, 18, 15, 19, 22, 25, 28,
    29, 26, 23, 27, 30, 31,
];

} // verus!
