//! Tables stored row by row.
use vstd::prelude::*;

verus! {

/// Where cell `(row, column)` of a table with `columns` columns stands when the table is
/// stored row by row.
pub open spec fn cell(row: int, column: int, columns: int) -> int {
    row * columns + column
}

/// Cell `(row, column)` of a table of `rows` rows and `columns` columns comes before the
/// end of the table and behind the cells of the rows above it.
pub proof fn lemma_row_major(row: int, column: int, rows: int, columns: int)
    requires
        0 <= row < rows,
        0 <= column < columns,
    ensures
        0 <= row * columns <= cell(row, column, columns) < rows * columns,
        (row + 1) * columns <= rows * columns,
        (row + 1) * columns == row * columns + columns,
{
    assert(row * columns >= 0) by (nonlinear_arith)
        requires
            row >= 0,
            columns >= 0,
    ;
    assert((row + 1) * columns <= rows * columns) by (nonlinear_arith)
        requires
            row + 1 <= rows,
            columns >= 0,
    ;
    assert((row + 1) * columns == row * columns + columns) by (nonlinear_arith);
}

/// A position of a table stored row by row belongs to exactly one cell.
pub proof fn lemma_cell_unique(row: int, column: int, columns: int)
    requires
        0 <= column < columns,
    ensures
        cell(row, column, columns) / columns == row,
        cell(row, column, columns) % columns == column,
{
    vstd::arithmetic::div_mod::lemma_fundamental_div_mod_converse(
        cell(row, column, columns),
        columns,
        row,
        column,
    );
}

} // verus!
