use vstd::arithmetic::div_mod::{
    lemma_div_is_ordered, lemma_fundamental_div_mod, lemma_fundamental_div_mod_converse,
    lemma_mod_pos_bound,
};
use vstd::prelude::*;

verus! {

/// `x - 1`, floored at zero.
pub open spec fn dec_sat(x: int) -> int {
    if x > 0 {
        x - 1
    } else {
        0
    }
}

/// Number of rows that `n` cells take in a grid of `cols` columns.
pub open spec fn grid_rows(n: int, cols: int) -> int {
    if n % cols == 0 {
        n / cols
    } else {
        n / cols + 1
    }
}

/// Row-major position of a cell.
pub open spec fn cell_index(cols: int, row: int, col: int) -> int {
    row * cols + col
}

/// A cell that holds a candidate, in a grid of `n` candidates over `cols` columns.
pub open spec fn occupied(n: int, cols: int, row: int, col: int) -> bool {
    &&& 0 <= row
    &&& 0 <= col < cols
    &&& cell_index(cols, row, col) < n
}

/// The cell after `(row, col)` in reading order; an empty trailing cell or
/// the end of the grid wraps to the first cell.
pub open spec fn next_cell(n: int, cols: int, row: int, col: int) -> (int, int) {
    let (r1, c1) = if col + 1 >= cols {
        (row + 1, 0int)
    } else {
        (row, col + 1)
    };
    let (r2, c2) = if r1 >= grid_rows(n, cols) {
        (0int, 0int)
    } else {
        (r1, c1)
    };
    if cell_index(cols, r2, c2) >= n {
        (0, 0)
    } else {
        (r2, c2)
    }
}

/// The cell before `(row, col)` in reading order; the first cell wraps to the
/// last occupied one.
pub open spec fn previous_cell(n: int, cols: int, row: int, col: int) -> (int, int) {
    let (r1, c1) = if col > 0 {
        (row, col - 1)
    } else if row > 0 {
        (row - 1, cols - 1)
    } else {
        (dec_sat(grid_rows(n, cols)), cols - 1)
    };
    if cell_index(cols, r1, c1) >= n {
        (dec_sat(grid_rows(n, cols)), dec_sat(n % cols))
    } else {
        (r1, c1)
    }
}

/// Row after moving up from `(row, col)`: the top row wraps to the last row,
/// or to the one above it when the last row has no cell in this column.
pub open spec fn up_row(n: int, cols: int, row: int, col: int) -> int {
    if row > 0 {
        row - 1
    } else {
        let last = dec_sat(grid_rows(n, cols));
        if cell_index(cols, last, col) >= n {
            dec_sat(last)
        } else {
            last
        }
    }
}

/// Row after moving down from `(row, col)`: past the last row, or onto an
/// empty cell, wraps to the top row.
pub open spec fn down_row(n: int, cols: int, row: int, col: int) -> int {
    if row + 1 >= grid_rows(n, cols) {
        0
    } else if cell_index(cols, row + 1, col) >= n {
        0
    } else {
        row + 1
    }
}

/// Column after moving left from `(row, col)`; the row never changes. On the
/// last candidate (on the first cell when there is none) the column goes to 0.
pub open spec fn left_col(n: int, cols: int, row: int, col: int) -> int {
    if col > 0 {
        col - 1
    } else if cell_index(cols, row, col) == dec_sat(n) {
        0
    } else {
        cols - 1
    }
}

/// Column after moving right from `(row, col)`; the row never changes.
pub open spec fn right_col(n: int, cols: int, row: int, col: int) -> int {
    if col + 1 >= cols || cell_index(cols, row, col) + 1 > n - 1 {
        0
    } else {
        col + 1
    }
}

/// The cell reached from the first one by `k` steps in reading order.
pub open spec fn after_next_steps(n: int, cols: int, k: nat) -> (int, int)
    decreases k,
{
    if k == 0 {
        (0, 0)
    } else {
        let p = after_next_steps(n, cols, (k - 1) as nat);
        next_cell(n, cols, p.0, p.1)
    }
}

/// The last row of a non-empty grid starts before its last candidate, and
/// the rows hold all candidates.
proof fn lemma_last_row(n: int, cols: int)
    requires
        n > 0,
        cols >= 1,
    ensures
        grid_rows(n, cols) >= 1,
        (grid_rows(n, cols) - 1) * cols < n,
        n <= grid_rows(n, cols) * cols,
        n % cols == 0 ==> (grid_rows(n, cols) - 1) * cols + cols - 1 == n - 1,
        n % cols != 0 ==> (grid_rows(n, cols) - 1) * cols + n % cols - 1 == n - 1,
{
    lemma_fundamental_div_mod(n, cols);
    lemma_mod_pos_bound(n, cols);
    let q = n / cols;
    let m = n % cols;
    assert(q >= 0) by {
        lemma_div_is_ordered(0, n, cols);
    }
    if m == 0 {
        assert(q >= 1) by (nonlinear_arith)
            requires
                n == cols * q + m,
                m == 0,
                n > 0,
                q >= 0,
        ;
        assert((q - 1) * cols + cols - 1 == n - 1 && n == q * cols) by (nonlinear_arith)
            requires
                n == cols * q + m,
                m == 0,
        ;
    } else {
        assert(q * cols + m - 1 == n - 1) by (nonlinear_arith)
            requires
                n == cols * q + m,
        ;
        assert(n <= (q + 1) * cols) by (nonlinear_arith)
            requires
                n == cols * q + m,
                m < cols,
        ;
    }
}

/// A row starts at a non-negative position, no later than any of its cells.
proof fn lemma_row_start(cols: int, row: int, col: int)
    requires
        cols >= 1,
        row >= 0,
        col >= 0,
    ensures
        row * cols >= 0,
        row * cols <= cell_index(cols, row, col),
        col <= cell_index(cols, row, col),
{
    assert(row * cols >= 0) by (nonlinear_arith)
        requires
            row >= 0,
            cols >= 1,
    ;
}

/// Every navigation step from a cell that holds a candidate lands on a cell
/// that holds one, but for a step left from the first column of a short last
/// row, where the wrap goes past the row's end.
pub proof fn lemma_navigation_stays_on_candidates(n: int, cols: int, row: int, col: int)
    requires
        cols >= 1,
        occupied(n, cols, row, col),
    ensures
        occupied(n, cols, 0, 0),
        ({
            let c = next_cell(n, cols, row, col);
            occupied(n, cols, c.0, c.1)
        }),
        ({
            let c = previous_cell(n, cols, row, col);
            occupied(n, cols, c.0, c.1)
        }),
        occupied(n, cols, up_row(n, cols, row, col), col),
        occupied(n, cols, down_row(n, cols, row, col), col),
        occupied(n, cols, row, right_col(n, cols, row, col)),
        col > 0 || cell_index(cols, row, col) == n - 1 || cell_index(cols, row, cols - 1) < n
            ==> occupied(n, cols, row, left_col(n, cols, row, col)),
{
    let rows = grid_rows(n, cols);
    lemma_last_row(n, cols);
    lemma_row_start(cols, row, col);
    lemma_mod_pos_bound(n, cols);
    assert(cell_index(cols, row - 1, col) == cell_index(cols, row, col) - cols) by (nonlinear_arith);
    assert(cell_index(cols, row + 1, col) == cell_index(cols, row, col) + cols) by (nonlinear_arith);
    if rows >= 2 {
        assert(cell_index(cols, rows - 2, col) == (rows - 1) * cols + col - cols) by (nonlinear_arith);
    }
    assert(cell_index(cols, dec_sat(rows), cols - 1) == (rows - 1) * cols + cols - 1);
    assert(cell_index(cols, dec_sat(rows), dec_sat(n % cols)) == (rows - 1) * cols + dec_sat(
        n % cols,
    ));
}

/// Stepping to the next element from the first cell visits the candidates
/// in order, and after `n` steps is back on the first cell.
pub proof fn lemma_next_wraps_after_n_steps(n: int, cols: int, k: nat)
    requires
        cols >= 1,
        n >= 0,
        k <= n,
    ensures
        k < n ==> after_next_steps(n, cols, k) == (k as int / cols, k as int % cols),
        k == n ==> after_next_steps(n, cols, k) == (0int, 0int),
    decreases k,
{
    if k == 0 {
        lemma_fundamental_div_mod_converse(0, cols, 0, 0);
    } else {
        let j = (k - 1) as int;
        lemma_next_wraps_after_n_steps(n, cols, (k - 1) as nat);
        lemma_fundamental_div_mod(j, cols);
        lemma_mod_pos_bound(j, cols);
        lemma_last_row(n, cols);
        let (q, m) = (j / cols, j % cols);
        assert(q >= 0) by {
            lemma_div_is_ordered(0, j, cols);
        }
        let rows = grid_rows(n, cols);
        assert(q < rows) by (nonlinear_arith)
            requires
                j == cols * q + m,
                0 <= m,
                j < n,
                n <= rows * cols,
                cols >= 1,
        ;
        if m + 1 < cols {
            assert(k == q * cols + (m + 1)) by (nonlinear_arith)
                requires
                    j == cols * q + m,
                    k == j + 1,
            ;
            lemma_fundamental_div_mod_converse(k as int, cols, q, m + 1);
            assert(cell_index(cols, q, m + 1) == k) by (nonlinear_arith)
                requires
                    j == cols * q + m,
                    k == j + 1,
            ;
        } else {
            assert(k == (q + 1) * cols + 0) by (nonlinear_arith)
                requires
                    j == cols * q + m,
                    k == j + 1,
                    m + 1 == cols,
            ;
            lemma_fundamental_div_mod_converse(k as int, cols, q + 1, 0);
            assert(cell_index(cols, q + 1, 0) == k) by (nonlinear_arith)
                requires
                    j == cols * q + m,
                    k == j + 1,
                    m + 1 == cols,
            ;
        }
    }
}

/// Moving left and then right from a cell past the first column returns to
/// it; moving right from the last candidate goes to the first column of its
/// row.
pub proof fn lemma_left_right(n: int, cols: int, row: int, col: int)
    requires
        cols >= 1,
        occupied(n, cols, row, col),
    ensures
        col > 0 ==> right_col(n, cols, row, left_col(n, cols, row, col)) == col,
        cell_index(cols, row, col) == n - 1 ==> right_col(n, cols, row, col) == 0,
{
}

} // verus!
