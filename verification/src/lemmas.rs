//! Facts about cell indices and cell counts that the proofs of the board
//! operations share.

use crate::rules::{counts_as, neighbors, tally, BoardModel, CellState, Tally};
use vstd::prelude::*;

verus! {

/// A cell on the board has its place inside `cells`.
pub proof fn lemma_index_bounds(rows: int, cols: int, y: int, x: int)
    requires
        0 <= y < rows,
        0 <= x < cols,
    ensures
        0 <= y * cols + x < rows * cols,
        (y * cols + x) / cols == y,
        (y * cols + x) % cols == x,
{
    assert(0 <= y * cols) by (nonlinear_arith)
        requires
            0 <= y,
            0 <= cols,
    ;
    assert(y * cols + cols <= rows * cols) by (nonlinear_arith)
        requires
            y + 1 <= rows,
            0 <= cols,
    ;
    vstd::arithmetic::div_mod::lemma_fundamental_div_mod_converse(y * cols + x, cols, y, x);
}

/// Every place inside `cells` is that of one cell on the board.
pub proof fn lemma_index_split(rows: int, cols: int, i: int)
    requires
        0 < cols,
        0 <= i < rows * cols,
    ensures
        0 <= i / cols < rows,
        0 <= i % cols < cols,
        (i / cols) * cols + i % cols == i,
{
    vstd::arithmetic::div_mod::lemma_fundamental_div_mod(i, cols);
    let q = i / cols;
    let r = i % cols;
    assert(cols * q == q * cols) by (nonlinear_arith);
    assert(0 <= r < cols);
    if q >= rows {
        assert(q * cols >= rows * cols) by (nonlinear_arith)
            requires
                q >= rows,
                cols > 0,
        ;
    }
    if q < 0 {
        assert(q * cols <= -cols) by (nonlinear_arith)
            requires
                q <= -1,
                cols > 0,
        ;
    }
}

/// Two cells with the same place in `cells` are the same cell.
pub proof fn lemma_index_injective(cols: int, y1: int, x1: int, y2: int, x2: int)
    requires
        0 <= x1 < cols,
        0 <= x2 < cols,
        y1 * cols + x1 == y2 * cols + x2,
    ensures
        y1 == y2,
        x1 == x2,
{
    if y1 < y2 {
        assert(y1 * cols + cols <= y2 * cols) by (nonlinear_arith)
            requires
                y1 + 1 <= y2,
                0 <= cols,
        ;
    }
    if y2 < y1 {
        assert(y2 * cols + cols <= y1 * cols) by (nonlinear_arith)
            requires
                y2 + 1 <= y1,
                0 <= cols,
        ;
    }
}

/// With both dimensions at least 1, leaving a row and a column free leaves
/// at least one cell free.
pub proof fn lemma_goal_leaves_room(rows: int, cols: int)
    requires
        1 <= rows,
        1 <= cols,
    ensures
        0 <= (rows - 1) * (cols - 1) <= rows * cols - 1,
{
    assert((rows - 1) * (cols - 1) == rows * cols - rows - cols + 1) by (nonlinear_arith);
    assert(0 <= (rows - 1) * (cols - 1)) by (nonlinear_arith)
        requires
            1 <= rows,
            1 <= cols,
    ;
}

/// Two boards of one size with mines on the same cells.
pub open spec fn same_mines(a: BoardModel, b: BoardModel) -> bool {
    &&& a.rows == b.rows
    &&& a.cols == b.cols
    &&& a.cells.len() == b.cells.len()
    &&& forall|i: int| 0 <= i < a.cells.len() ==> (#[trigger] a.cells[i]).has_mine == b.cells[i].has_mine
}

pub proof fn lemma_mines_among_same(a: BoardModel, b: BoardModel, y: int, x: int, k: int)
    requires
        same_mines(a, b),
        a.cells.len() == a.rows * a.cols,
        0 <= k <= 12,
    ensures
        a.mines_among(y, x, k) == b.mines_among(y, x, k),
    decreases k,
{
    if k > 0 {
        lemma_mines_among_same(a, b, y, x, k - 1);
        let n = neighbors(y, x)[k - 1];
        if a.in_range(n.0, n.1) {
            lemma_index_bounds(a.rows as int, a.cols as int, n.0, n.1);
        }
    }
}

/// The number a cell shows depends on where the mines are and on nothing
/// else.
pub proof fn lemma_numbers_same(a: BoardModel, b: BoardModel)
    requires
        same_mines(a, b),
        a.cells.len() == a.rows * a.cols,
    ensures
        forall|y: int, x: int| #[trigger] a.adjacent_mines(y, x) == b.adjacent_mines(y, x),
{
    assert forall|y: int, x: int| #[trigger] a.adjacent_mines(y, x) == b.adjacent_mines(y, x) by {
        lemma_mines_among_same(a, b, y, x, 12);
    }
}

/// A list that names every index below `n` has at least `n` entries.
pub proof fn lemma_covering_is_long(s: Seq<usize>, n: nat)
    requires
        n <= usize::MAX,
        forall|v: usize| v < n ==> #[trigger] s.contains(v),
    ensures
        s.len() >= n,
    decreases n,
{
    if n > 0 {
        let top = (n - 1) as usize;
        assert(s.contains(top));
        let i = choose|i: int| 0 <= i < s.len() && s[i] == top;
        let t = s.remove(i);
        assert forall|v: usize| v < n - 1 implies #[trigger] t.contains(v) by {
            assert(s.contains(v));
            let k = choose|k: int| 0 <= k < s.len() && s[k] == v;
            if k < i {
                assert(t[k] == v);
            } else {
                assert(t[k - 1] == v);
            }
        }
        lemma_covering_is_long(t, (n - 1) as nat);
    }
}

pub proof fn lemma_tally_bound(cells: Seq<CellState>, t: Tally)
    ensures
        tally(cells, t) <= cells.len(),
    decreases cells.len(),
{
    if cells.len() > 0 {
        lemma_tally_bound(cells.drop_last(), t);
    }
}

/// Replacing one cell moves a count by what the old and the new cell
/// contribute.
pub proof fn lemma_tally_update(cells: Seq<CellState>, i: int, c: CellState, t: Tally)
    requires
        0 <= i < cells.len(),
    ensures
        tally(cells.update(i, c), t) + (if counts_as(t, cells[i]) {
            1int
        } else {
            0int
        }) == tally(cells, t) + (if counts_as(t, c) {
            1int
        } else {
            0int
        }),
    decreases cells.len(),
{
    let after = cells.update(i, c);
    if i == cells.len() - 1 {
        assert(after.drop_last() =~= cells.drop_last());
    } else {
        assert(after.drop_last() =~= cells.drop_last().update(i, c));
        lemma_tally_update(cells.drop_last(), i, c, t);
    }
}

/// Two rows of cells that agree cell by cell on two properties have the
/// same two counts.
pub proof fn lemma_tally_agree(a: Seq<CellState>, ta: Tally, b: Seq<CellState>, tb: Tally)
    requires
        a.len() == b.len(),
        forall|i: int| 0 <= i < a.len() ==> counts_as(ta, #[trigger] a[i]) == counts_as(tb, b[i]),
    ensures
        tally(a, ta) == tally(b, tb),
    decreases a.len(),
{
    if a.len() > 0 {
        lemma_tally_agree(a.drop_last(), ta, b.drop_last(), tb);
    }
}

/// No cell counted, count zero; every cell counted, count equal to the
/// number of cells.
pub proof fn lemma_tally_uniform(cells: Seq<CellState>, t: Tally)
    ensures
        (forall|i: int| 0 <= i < cells.len() ==> !counts_as(t, #[trigger] cells[i])) ==> tally(
            cells,
            t,
        ) == 0,
        (forall|i: int| 0 <= i < cells.len() ==> counts_as(t, #[trigger] cells[i])) ==> tally(
            cells,
            t,
        ) == cells.len(),
    decreases cells.len(),
{
    if cells.len() > 0 {
        lemma_tally_uniform(cells.drop_last(), t);
        assert(forall|i: int|
            0 <= i < cells.drop_last().len() ==> cells.drop_last()[i] == cells[i]);
    }
}

/// Every cell is either closed or open.
pub proof fn lemma_closed_and_open(cells: Seq<CellState>)
    ensures
        tally(cells, Tally::Closed) + tally(cells, Tally::Opened) == cells.len(),
    decreases cells.len(),
{
    if cells.len() > 0 {
        lemma_closed_and_open(cells.drop_last());
    }
}

/// The count over the first `k + 1` cells, from the count over the first `k`.
pub proof fn lemma_tally_step(cells: Seq<CellState>, k: int, t: Tally)
    requires
        0 <= k < cells.len(),
    ensures
        tally(cells.take(k + 1), t) == tally(cells.take(k), t) + (if counts_as(t, cells[k]) {
            1nat
        } else {
            0nat
        }),
{
    assert(cells.take(k + 1).drop_last() =~= cells.take(k));
}

} // verus!
