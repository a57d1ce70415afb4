//! The cell matrix: a fixed-dimension rectangular array of cells,
//! addressed by (row, col).

use vstd::prelude::*;

verus! {

/// The state of one cell: alive or dead. A cell has no identity beyond
/// its position in a grid.
#[derive(Clone, Copy, Debug, PartialEq, Eq, Structural)]
pub enum CellState {
    Alive,
    Dead,
}

/// The failures the engine can signal: a grid created with zero rows or
/// columns, or a coordinate outside the grid.
#[derive(Clone, Copy, Debug, PartialEq, Eq, Structural)]
pub enum ErrorKind {
    InvalidDimensions,
    BoundsError,
}

/// A rectangular matrix of cells. The dimensions are fixed at creation:
/// every coordinate (row, col) with row < rows and col < cols holds
/// exactly one cell.
pub struct Grid {
    cells: Vec<Vec<CellState>>,
}

impl View for Grid {
    type V = Seq<Seq<CellState>>;

    closed spec fn view(&self) -> Seq<Seq<CellState>> {
        Seq::new(self.cells@.len(), |i: int| self.cells@[i]@)
    }
}

impl Grid {
    /// Well-formedness: at least one row, at least one column, and every
    /// row of the same length.
    pub open spec fn wf(&self) -> bool {
        &&& self@.len() > 0
        &&& self@[0].len() > 0
        &&& forall|i: int| 0 <= i < self@.len() ==> (#[trigger] self@[i]).len() == self@[0].len()
    }

    /// The number of rows, as a mathematical integer.
    pub open spec fn spec_rows(&self) -> int {
        self@.len() as int
    }

    /// The number of columns, as a mathematical integer.
    pub open spec fn spec_cols(&self) -> int {
        if self@.len() > 0 {
            self@[0].len() as int
        } else {
            0
        }
    }

    /// Whether (row, col) lies inside the grid.
    pub open spec fn in_bounds(&self, row: int, col: int) -> bool {
        0 <= row < self.spec_rows() && 0 <= col < self.spec_cols()
    }

    /// Whether the cell at (row, col) is alive. A coordinate outside the
    /// grid is never live: edges are hard boundaries, the grid does not
    /// wrap.
    pub open spec fn live(&self, row: int, col: int) -> bool {
        self.in_bounds(row, col) && self@[row][col] == CellState::Alive
    }

    /// Whether every cell of the grid is dead.
    pub open spec fn all_dead(&self) -> bool {
        forall|r: int, c: int|
            self.in_bounds(r, c) ==> #[trigger] self@[r][c] == CellState::Dead
    }

    /// A grid of the given dimensions with every cell dead. Zero
    /// dimensions are ruled out by the caller; `new` offers the checked
    /// form.
    pub fn new_dead(rows: usize, cols: usize) -> (g: Grid)
        requires
            rows > 0,
            cols > 0,
        ensures
            g.wf(),
            g.spec_rows() == rows,
            g.spec_cols() == cols,
            g.all_dead(),
    {
        let mut cells: Vec<Vec<CellState>> = Vec::new();
        let mut r: usize = 0;
        while r < rows
            invariant
                r <= rows,
                cells@.len() == r,
                forall|i: int| 0 <= i < r ==> (#[trigger] cells@[i])@.len() == cols,
                forall|i: int, j: int|
                    0 <= i < r && 0 <= j < cols ==> (#[trigger] cells@[i]@[j]) == CellState::Dead,
            decreases rows - r,
        {
            let mut row: Vec<CellState> = Vec::new();
            let mut c: usize = 0;
            while c < cols
                invariant
                    c <= cols,
                    row@.len() == c,
                    forall|j: int| 0 <= j < c ==> #[trigger] row@[j] == CellState::Dead,
                decreases cols - c,
            {
                row.push(CellState::Dead);
                c = c + 1;
            }
            cells.push(row);
            r = r + 1;
        }
        let g = Grid { cells };
        assert forall|i: int| 0 <= i < g@.len() implies (#[trigger] g@[i]).len() == g@[0].len() by {
            assert(g@[i] == g.cells@[i]@);
        }
        g
    }

    /// A grid with every cell dead, or `InvalidDimensions` exactly when
    /// rows or cols is zero.
    pub fn new(rows: usize, cols: usize) -> (r: Result<Grid, ErrorKind>)
        ensures
            (rows > 0 && cols > 0) <==> r is Ok,
            r is Ok ==> {
                let g = r->Ok_0;
                &&& g.wf()
                &&& g.spec_rows() == rows
                &&& g.spec_cols() == cols
                &&& g.all_dead()
            },
            r is Err ==> r->Err_0 == ErrorKind::InvalidDimensions,
    {
        if rows == 0 || cols == 0 {
            Err(ErrorKind::InvalidDimensions)
        } else {
            Ok(Grid::new_dead(rows, cols))
        }
    }

    /// The number of rows.
    pub fn rows(&self) -> (n: usize)
        ensures
            n == self.spec_rows(),
    {
        self.cells.len()
    }

    /// The number of columns.
    pub fn cols(&self) -> (n: usize)
        requires
            self.wf(),
        ensures
            n == self.spec_cols(),
    {
        assert(self@[0] == self.cells@[0]@);
        self.cells[0].len()
    }

    /// The cell at (row, col). The coordinate must be in bounds.
    pub fn get(&self, row: usize, col: usize) -> (c: CellState)
        requires
            self.wf(),
            self.in_bounds(row as int, col as int),
        ensures
            c == self@[row as int][col as int],
    {
        assert(self@[row as int] == self.cells@[row as int]@);
        self.cells[row][col]
    }

    /// Sets the cell at (row, col) to `Alive`, leaving every other cell
    /// as it was. The coordinate must be in bounds.
    pub fn set_alive(&mut self, row: usize, col: usize)
        requires
            old(self).wf(),
            old(self).in_bounds(row as int, col as int),
        ensures
            final(self).wf(),
            final(self)@ == old(self)@.update(
                row as int,
                old(self)@[row as int].update(col as int, CellState::Alive),
            ),
    {
        proof {
            assert(self@[row as int] == self.cells@[row as int]@);
        }
        let row_vec = &mut self.cells[row];
        row_vec.set(col, CellState::Alive);
        proof {
            let updated = old(self)@.update(
                row as int,
                old(self)@[row as int].update(col as int, CellState::Alive),
            );
            assert forall|i: int| 0 <= i < updated.len() implies final(self)@[i] == updated[i] by {
                assert(final(self)@[i] == self.cells@[i]@);
                if i != row as int {
                    assert(self.cells@[i] == old(self).cells@[i]);
                    assert(old(self)@[i] == old(self).cells@[i]@);
                }
            }
            assert(final(self)@ =~= updated);
        }
    }

    /// Sets the cell at (row, col) to `Alive`, or reports `BoundsError`
    /// exactly when the coordinate lies outside the grid, in which case
    /// the grid is unchanged.
    pub fn try_set_alive(&mut self, row: usize, col: usize) -> (r: Result<(), ErrorKind>)
        requires
            old(self).wf(),
        ensures
            final(self).wf(),
            old(self).in_bounds(row as int, col as int) <==> r is Ok,
            r is Ok ==> final(self)@ == old(self)@.update(
                row as int,
                old(self)@[row as int].update(col as int, CellState::Alive),
            ),
            r is Err ==> final(self)@ == old(self)@ && r->Err_0 == ErrorKind::BoundsError,
    {
        if row < self.rows() && col < self.cols() {
            self.set_alive(row, col);
            Ok(())
        } else {
            Err(ErrorKind::BoundsError)
        }
    }
}

/// Brings the cell at position (x, y) — column x, row y — to life.
/// The position must lie inside the grid.
pub fn create_life(pos: (usize, usize), frame: &mut Grid)
    requires
        old(frame).wf(),
        old(frame).in_bounds(pos.1 as int, pos.0 as int),
    ensures
        final(frame).wf(),
        final(frame)@ == old(frame)@.update(
            pos.1 as int,
            old(frame)@[pos.1 as int].update(pos.0 as int, CellState::Alive),
        ),
{
    let (x, y) = pos;
    frame.set_alive(y, x);
}

} // verus!
