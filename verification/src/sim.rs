//! The generation-transition function: Conway's rule applied to every
//! cell of a grid, producing a fresh grid and leaving the input alone.

use vstd::prelude::*;

use crate::grid::{CellState, Grid};

verus! {

/// 1 for a live cell, 0 for a dead or out-of-bounds one.
pub open spec fn indicator(b: bool) -> int {
    if b {
        1
    } else {
        0
    }
}

/// How many of the 8 coordinates surrounding (row, col) hold a live
/// cell. Coordinates outside the grid count as dead, and the cell at
/// (row, col) itself is never included.
pub open spec fn neighbor_count(g: &Grid, row: int, col: int) -> int {
    indicator(g.live(row - 1, col - 1)) + indicator(g.live(row - 1, col)) + indicator(
        g.live(row - 1, col + 1),
    ) + indicator(g.live(row, col - 1)) + indicator(g.live(row, col + 1)) + indicator(
        g.live(row + 1, col - 1),
    ) + indicator(g.live(row + 1, col)) + indicator(g.live(row + 1, col + 1))
}

/// Conway's rule: a live cell with 2 or 3 live neighbors survives, a
/// dead cell with exactly 3 live neighbors is born, every other cell is
/// dead in the next generation.
pub open spec fn rule(cur: CellState, n: int) -> CellState {
    if cur == CellState::Alive && (n == 2 || n == 3) {
        CellState::Alive
    } else if cur == CellState::Dead && n == 3 {
        CellState::Alive
    } else {
        CellState::Dead
    }
}

/// `next` is the generation that follows `g`: same dimensions, and every
/// cell the outcome of Conway's rule at its coordinate.
pub open spec fn stepped(g: Grid, next: Grid) -> bool {
    &&& next.spec_rows() == g.spec_rows()
    &&& next.spec_cols() == g.spec_cols()
    &&& forall|r: int, c: int|
        g.in_bounds(r, c) ==> #[trigger] next@[r][c] == rule(g@[r][c], neighbor_count(&g, r, c))
}

/// Counts the live cells among the 8 coordinates surrounding the given
/// position (x, y) — column x, row y. Never reads outside the grid and
/// never counts the cell itself.
pub fn neighbors(frame: &Grid, pos: (usize, usize)) -> (n: u8)
    requires
        frame.wf(),
        frame.in_bounds(pos.1 as int, pos.0 as int),
    ensures
        n as int == neighbor_count(frame, pos.1 as int, pos.0 as int),
        n <= 8,
{
    let (col, row) = pos;
    let rows = frame.rows();
    let cols = frame.cols();
    let ghost r = row as int;
    let ghost c = col as int;
    let mut n: u8 = 0;
    if row > 0 && col > 0 && matches!(frame.get(row - 1, col - 1), CellState::Alive) {
        n = n + 1;
    }
    assert(n as int == indicator(frame.live(r - 1, c - 1)));
    if row > 0 && matches!(frame.get(row - 1, col), CellState::Alive) {
        n = n + 1;
    }
    assert(n as int == indicator(frame.live(r - 1, c - 1)) + indicator(frame.live(r - 1, c)));
    if row > 0 && col + 1 < cols && matches!(frame.get(row - 1, col + 1), CellState::Alive) {
        n = n + 1;
    }
    assert(n as int == indicator(frame.live(r - 1, c - 1)) + indicator(frame.live(r - 1, c))
        + indicator(frame.live(r - 1, c + 1)));
    if col > 0 && matches!(frame.get(row, col - 1), CellState::Alive) {
        n = n + 1;
    }
    assert(n as int == indicator(frame.live(r - 1, c - 1)) + indicator(frame.live(r - 1, c))
        + indicator(frame.live(r - 1, c + 1)) + indicator(frame.live(r, c - 1)));
    if col + 1 < cols && matches!(frame.get(row, col + 1), CellState::Alive) {
        n = n + 1;
    }
    assert(n as int == indicator(frame.live(r - 1, c - 1)) + indicator(frame.live(r - 1, c))
        + indicator(frame.live(r - 1, c + 1)) + indicator(frame.live(r, c - 1)) + indicator(
        frame.live(r, c + 1),
    ));
    if row + 1 < rows && col > 0 && matches!(frame.get(row + 1, col - 1), CellState::Alive) {
        n = n + 1;
    }
    assert(n as int == indicator(frame.live(r - 1, c - 1)) + indicator(frame.live(r - 1, c))
        + indicator(frame.live(r - 1, c + 1)) + indicator(frame.live(r, c - 1)) + indicator(
        frame.live(r, c + 1),
    ) + indicator(frame.live(r + 1, c - 1)));
    if row + 1 < rows && matches!(frame.get(row + 1, col), CellState::Alive) {
        n = n + 1;
    }
    assert(n as int == indicator(frame.live(r - 1, c - 1)) + indicator(frame.live(r - 1, c))
        + indicator(frame.live(r - 1, c + 1)) + indicator(frame.live(r, c - 1)) + indicator(
        frame.live(r, c + 1),
    ) + indicator(frame.live(r + 1, c - 1)) + indicator(frame.live(r + 1, c)));
    if row + 1 < rows && col + 1 < cols && matches!(frame.get(row + 1, col + 1), CellState::Alive) {
        n = n + 1;
    }
    assert(n as int == neighbor_count(frame, r, c));
    n
}

/// Computes the next generation of `frame` as a fresh grid of the same
/// dimensions, applying Conway's rule at every coordinate. The input
/// grid is only read, never changed.
pub fn step(frame: &Grid) -> (next: Grid)
    requires
        frame.wf(),
    ensures
        next.wf(),
        stepped(*frame, next),
{
    let rows = frame.rows();
    let cols = frame.cols();
    let mut next = Grid::new_dead(rows, cols);
    let mut r: usize = 0;
    while r < rows
        invariant
            frame.wf(),
            rows == frame.spec_rows(),
            cols == frame.spec_cols(),
            r <= rows,
            next.wf(),
            next.spec_rows() == rows,
            next.spec_cols() == cols,
            forall|i: int, j: int|
                0 <= i < r && 0 <= j < cols ==> #[trigger] next@[i][j] == rule(
                    frame@[i][j],
                    neighbor_count(frame, i, j),
                ),
            forall|i: int, j: int|
                r <= i < rows && 0 <= j < cols ==> #[trigger] next@[i][j] == CellState::Dead,
        decreases rows - r,
    {
        let mut c: usize = 0;
        while c < cols
            invariant
                frame.wf(),
                rows == frame.spec_rows(),
                cols == frame.spec_cols(),
                r < rows,
                c <= cols,
                next.wf(),
                next.spec_rows() == rows,
                next.spec_cols() == cols,
                forall|i: int, j: int|
                    0 <= i < r && 0 <= j < cols ==> #[trigger] next@[i][j] == rule(
                        frame@[i][j],
                        neighbor_count(frame, i, j),
                    ),
                forall|j: int|
                    0 <= j < c ==> #[trigger] next@[r as int][j] == rule(
                        frame@[r as int][j],
                        neighbor_count(frame, r as int, j),
                    ),
                forall|j: int|
                    c <= j < cols ==> #[trigger] next@[r as int][j] == CellState::Dead,
                forall|i: int, j: int|
                    r < i < rows && 0 <= j < cols ==> #[trigger] next@[i][j] == CellState::Dead,
            decreases cols - c,
        {
            let n = neighbors(frame, (c, r));
            let cur = frame.get(r, c);
            let born = match cur {
                CellState::Alive => n == 2 || n == 3,
                CellState::Dead => n == 3,
            };
            if born {
                let ghost prev = next@;
                next.set_alive(r, c);
                proof {
                    assert forall|i: int, j: int|
                        0 <= i < rows && 0 <= j < cols && !(i == r as int && j == c as int)
                            implies #[trigger] next@[i][j] == prev[i][j] by {
                        if i == r as int {
                            assert(next@[i] == prev[i].update(c as int, CellState::Alive));
                        }
                    }
                }
            }
            assert(next@[r as int][c as int] == rule(
                frame@[r as int][c as int],
                neighbor_count(frame, r as int, c as int),
            ));
            c = c + 1;
        }
        r = r + 1;
    }
    next
}

/// A fully dead grid maps to a fully dead grid under `step`: with no
/// live cell anywhere, no cell has the 3 live neighbors a birth needs.
pub proof fn lemma_dead_grid_stays_dead(g: Grid, next: Grid)
    requires
        g.wf(),
        g.all_dead(),
        stepped(g, next),
    ensures
        next.all_dead(),
{
    assert forall|r: int, c: int| next.in_bounds(r, c) implies #[trigger] next@[r][c]
        == CellState::Dead by {
        assert(g.in_bounds(r, c));
        assert(neighbor_count(&g, r, c) == 0);
        assert(g@[r][c] == CellState::Dead);
    }
}

/// A single isolated live cell dies: if exactly one cell of the grid is
/// alive, the next generation is fully dead — the live cell has no live
/// neighbor, and no dead cell has more than one.
pub proof fn lemma_isolated_cell_dies(g: Grid, next: Grid, r0: int, c0: int)
    requires
        g.wf(),
        stepped(g, next),
        g.in_bounds(r0, c0),
        g@[r0][c0] == CellState::Alive,
        forall|r: int, c: int|
            g.in_bounds(r, c) && !(r == r0 && c == c0) ==> #[trigger] g@[r][c] == CellState::Dead,
    ensures
        next.all_dead(),
{
    assert forall|r: int, c: int| next.in_bounds(r, c) implies #[trigger] next@[r][c]
        == CellState::Dead by {
        assert(g.in_bounds(r, c));
        assert(neighbor_count(&g, r, c) <= 1) by {
            assert(g.live(r - 1, c - 1) ==> r - 1 == r0 && c - 1 == c0);
            assert(g.live(r - 1, c) ==> r - 1 == r0 && c == c0);
            assert(g.live(r - 1, c + 1) ==> r - 1 == r0 && c + 1 == c0);
            assert(g.live(r, c - 1) ==> r == r0 && c - 1 == c0);
            assert(g.live(r, c + 1) ==> r == r0 && c + 1 == c0);
            assert(g.live(r + 1, c - 1) ==> r + 1 == r0 && c - 1 == c0);
            assert(g.live(r + 1, c) ==> r + 1 == r0 && c == c0);
            assert(g.live(r + 1, c + 1) ==> r + 1 == r0 && c + 1 == c0);
        }
    }
}

/// The neighbor count never exceeds the number of in-bounds neighbors:
/// 8 anywhere, 5 on an edge, 3 in a corner.
pub proof fn lemma_neighbor_count_bounds(g: Grid, row: int, col: int)
    requires
        g.wf(),
        g.in_bounds(row, col),
    ensures
        0 <= neighbor_count(&g, row, col) <= 8,
        row == 0 || row == g.spec_rows() - 1 || col == 0 || col == g.spec_cols() - 1
            ==> neighbor_count(&g, row, col) <= 5,
        (row == 0 || row == g.spec_rows() - 1) && (col == 0 || col == g.spec_cols() - 1)
            ==> neighbor_count(&g, row, col) <= 3,
{
}

} // verus!

