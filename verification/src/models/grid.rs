//! Values in rows and columns, written row by row.

use vstd::arithmetic::div_mod::lemma_fundamental_div_mod_converse;
use vstd::prelude::*;

verus! {

/// The first `len` values of a grid, written row by row.
pub open spec fn grid_prefix<T>(len: nat, columns: nat, f: spec_fn(int, int) -> T) -> Seq<T> {
    Seq::new(len, |k: int| f(k / columns as int, k % columns as int))
}

/// The values of a grid, written row by row.
pub open spec fn grid<T>(rows: nat, columns: nat, f: spec_fn(int, int) -> T) -> Seq<T> {
    grid_prefix(rows * columns, columns, f)
}

/// A value of a grid stands at its row times the columns, and its column.
pub proof fn grid_value<T>(rows: nat, columns: nat, f: spec_fn(int, int) -> T, row: int, column: int)
    requires
        0 <= row < rows,
        0 <= column < columns,
    ensures
        0 <= row * columns + column < rows * columns,
        grid(rows, columns, f)[row * columns + column] == f(row, column),
{
    assert(0 <= row * columns + column < rows * columns) by (nonlinear_arith)
        requires
            0 <= row < rows,
            0 <= column < columns,
    ;
    lemma_fundamental_div_mod_converse(
        row * columns + column,
        columns as int,
        row,
        column,
    );
}

/// Adding the next value of a grid.
pub proof fn lemma_push<T>(
    before: Seq<T>,
    columns: nat,
    row: nat,
    column: nat,
    f: spec_fn(int, int) -> T,
)
    requires
        column < columns,
        before == grid_prefix(row * columns + column, columns, f),
    ensures
        before.push(f(row as int, column as int)) == grid_prefix(
            row * columns + column + 1,
            columns,
            f,
        ),
{
    lemma_fundamental_div_mod_converse(
        (row * columns + column) as int,
        columns as int,
        row as int,
        column as int,
    );
    assert(before.push(f(row as int, column as int)) =~= grid_prefix(
        row * columns + column + 1,
        columns,
        f,
    ));
}

/// A row ends where the next one begins.
pub proof fn lemma_row_end(columns: nat, row: nat)
    ensures
        row * columns + columns == (row + 1) * columns,
        0 * columns == 0,
{
    assert(row * columns + columns == (row + 1) * columns) by (nonlinear_arith);
    assert(0 * columns == 0) by (nonlinear_arith);
}

} // verus!
