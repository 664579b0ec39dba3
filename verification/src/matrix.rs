//! Where the values of a matrix that is written column by column are found.

use vstd::prelude::*;

verus! {

/// Whether a code asks for the transposed matrix: a letter T of either case.
pub fn is_transposed(code: u8) -> (r: bool)
    ensures
        r == (code == 84 || code == 116),
{
    code == 84 || code == 116
}

/// The place of a value.
pub open spec fn place(transposed: bool, row: int, col: int, leading: int) -> int {
    if transposed {
        col + row * leading
    } else {
        row + col * leading
    }
}

/// The place of a value of a matrix whose columns are `leading` values apart, or of its
/// transposed form.
pub fn matrix_index(transposed: bool, row: usize, col: usize, leading: usize) -> (r: usize)
    requires
        place(transposed, row as int, col as int, leading as int) <= usize::MAX,
    ensures
        r == place(transposed, row as int, col as int, leading as int),
{
    proof {
        assert(0 <= row * leading && 0 <= col * leading) by (nonlinear_arith)
            requires
                0 <= row,
                0 <= col,
                0 <= leading,
        ;
    }
    if transposed {
        col + row * leading
    } else {
        row + col * leading
    }
}

/// Transposing changes rows and columns.
pub proof fn transposing_swaps(row: int, col: int, leading: int)
    ensures
        place(true, row, col, leading) == place(false, col, row, leading),
{
}

} // verus!
