//! The ordered-dither threshold map.
use vstd::prelude::*;

verus! {

/// Rank of cell (`row`, `col`) in the 4x4 Bayer matrix; the cell's dither offset is
/// `rank / 16 - 1/2`, divided by the palette size.
pub open spec fn bayer_rank_of(row: int, col: int) -> int {
    seq![
        seq![0int, 12, 3, 15],
        seq![8int, 4, 11, 7],
        seq![2int, 14, 1, 13],
        seq![10int, 6, 9, 5],
    ][row][col]
}

/// The Bayer rank that dithers the pixel in column `x` of row `y`.
pub fn bayer_rank(x: u32, y: u32) -> (r: u8)
    ensures
        r == bayer_rank_of(y as int % 4, x as int % 4),
        r < 16,
{
    let table: [[u8; 4]; 4] = [[0, 12, 3, 15], [8, 4, 11, 7], [2, 14, 1, 13], [10, 6, 9, 5]];
    let row = table[(y % 4) as usize];
    row[(x % 4) as usize]
}

/// Every rank from 0 to 15 stands in exactly one cell: the matrix orders all sixteen cells.
pub proof fn lemma_bayer_ranks_distinct(r1: int, c1: int, r2: int, c2: int)
    requires
        0 <= r1 < 4,
        0 <= c1 < 4,
        0 <= r2 < 4,
        0 <= c2 < 4,
        (r1, c1) != (r2, c2),
    ensures
        0 <= bayer_rank_of(r1, c1) < 16,
        bayer_rank_of(r1, c1) != bayer_rank_of(r2, c2),
{
}

} // verus!
