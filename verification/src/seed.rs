//! Randomized seeding: populating a grid with a caller-specified number
//! of live cells at uniformly random coordinates. Duplicate picks
//! silently collapse to a single live cell. This is the only place
//! randomness enters the engine; stepping is fully deterministic.

use vstd::prelude::*;

use crate::grid::{create_life, CellState, Grid};
use crate::sim::indicator;

verus! {

/// `out` is `base` with exactly the cells named by `coords` brought to
/// life: a cell is alive in `out` iff it was alive in `base` or some
/// pair (x, y) of `coords` names its column and row.
pub open spec fn seeded(base: Grid, coords: Seq<(usize, usize)>, out: Grid) -> bool {
    &&& out.spec_rows() == base.spec_rows()
    &&& out.spec_cols() == base.spec_cols()
    &&& forall|r: int, c: int|
        base.in_bounds(r, c) ==> ((#[trigger] out@[r][c]) == CellState::Alive <==> (base@[r][c]
            == CellState::Alive || exists|i: int|
            0 <= i < coords.len() && (#[trigger] coords[i]).1 == r && coords[i].0 == c))
}

/// The number of live cells in one row.
pub open spec fn row_live_count(row: Seq<CellState>) -> int
    decreases row.len(),
{
    if row.len() == 0 {
        0
    } else {
        row_live_count(row.drop_last()) + indicator(row.last() == CellState::Alive)
    }
}

/// The number of live cells in a whole grid.
pub open spec fn live_count(g: Seq<Seq<CellState>>) -> int
    decreases g.len(),
{
    if g.len() == 0 {
        0
    } else {
        live_count(g.drop_last()) + row_live_count(g.last())
    }
}

/// Brings every cell named by `coords` — pairs (x, y) of column and
/// row, each inside the grid — to life, leaving all other cells as they
/// were. Duplicate pairs collapse to a single live cell.
pub fn place_cells(frame: &mut Grid, coords: &Vec<(usize, usize)>)
    requires
        old(frame).wf(),
        forall|i: int|
            0 <= i < coords@.len() ==> (#[trigger] coords@[i]).0 < old(frame).spec_cols()
                && coords@[i].1 < old(frame).spec_rows(),
    ensures
        final(frame).wf(),
        seeded(*old(frame), coords@, *final(frame)),
{
    let ghost base = *frame;
    let mut k: usize = 0;
    while k < coords.len()
        invariant
            base.wf(),
            frame.wf(),
            k <= coords@.len(),
            forall|i: int|
                0 <= i < coords@.len() ==> (#[trigger] coords@[i]).0 < base.spec_cols()
                    && coords@[i].1 < base.spec_rows(),
            seeded(base, coords@.subrange(0, k as int), *frame),
        decreases coords@.len() - k,
    {
        let (x, y) = coords[k];
        let ghost prev = *frame;
        create_life((x, y), frame);
        proof {
            assert forall|r: int, c: int|
                base.in_bounds(r, c) implies ((#[trigger] frame@[r][c]) == CellState::Alive <==> (
            prev@[r][c] == CellState::Alive || (r == y as int && c == x as int))) by {
                if r == y as int {
                    assert(frame@[r] == prev@[r].update(x as int, CellState::Alive));
                }
            }
            let sub1 = coords@.subrange(0, (k + 1) as int);
            assert forall|r: int, c: int|
                base.in_bounds(r, c) implies ((#[trigger] frame@[r][c]) == CellState::Alive <==> (
            base@[r][c] == CellState::Alive || exists|i: int|
                0 <= i < sub1.len() && (#[trigger] sub1[i]).1 == r && sub1[i].0 == c)) by {
                let sub0 = coords@.subrange(0, k as int);
                if frame@[r][c] == CellState::Alive {
                    if prev@[r][c] == CellState::Alive {
                        if base@[r][c] != CellState::Alive {
                            let i = choose|i: int|
                                0 <= i < sub0.len() && (#[trigger] sub0[i]).1 == r && sub0[i].0
                                    == c;
                            assert(sub1[i] == sub0[i]);
                        }
                    } else {
                        assert(sub1[k as int] == coords@[k as int]);
                    }
                } else {
                    assert(base@[r][c] != CellState::Alive);
                    assert forall|i: int| 0 <= i < sub1.len() implies !((#[trigger] sub1[i]).1
                        == r && sub1[i].0 == c) by {
                        if i < k as int {
                            assert(sub1[i] == sub0[i]);
                        } else {
                            assert(sub1[i] == coords@[k as int]);
                        }
                    }
                }
            }
        }
        k = k + 1;
    }
    proof {
        assert(coords@.subrange(0, coords@.len() as int) =~= coords@);
    }
}

/// Relies on rand::random_range: a value drawn uniformly at random from
/// the integers below `bound`; the call panics only on an empty range,
/// which the precondition rules out.
#[verifier::external_body]
fn random_below(bound: usize) -> (r: usize)
    requires
        bound > 0,
    ensures
        r < bound,
{
    rand::random_range(0..bound)
}

/// Populates `frame` with `live_count` live cells at independently and
/// uniformly random coordinates, with replacement: duplicate picks
/// silently collapse to a single live cell. No live cell of `frame` is
/// lost, at least one cell is alive afterwards when `live_count > 0`,
/// and with `live_count == 0` the grid comes back unchanged.
pub fn seed(frame: Grid, live_count: usize) -> (out: Grid)
    requires
        frame.wf(),
    ensures
        out.wf(),
        out.spec_rows() == frame.spec_rows(),
        out.spec_cols() == frame.spec_cols(),
        exists|coords: Seq<(usize, usize)>|
            coords.len() == live_count && #[trigger] seeded(frame, coords, out),
        forall|r: int, c: int| frame.live(r, c) ==> out.live(r, c),
        live_count == 0 ==> out@ == frame@,
        live_count > 0 ==> exists|r: int, c: int| out.live(r, c),
{
    let rows = frame.rows();
    let cols = frame.cols();
    let mut coords: Vec<(usize, usize)> = Vec::new();
    let mut n: usize = 0;
    while n < live_count
        invariant
            frame.wf(),
            rows == frame.spec_rows(),
            cols == frame.spec_cols(),
            n <= live_count,
            coords@.len() == n,
            forall|i: int|
                0 <= i < coords@.len() ==> (#[trigger] coords@[i]).0 < cols && coords@[i].1 < rows,
        decreases live_count - n,
    {
        let x = random_below(cols);
        let y = random_below(rows);
        coords.push((x, y));
        n = n + 1;
    }
    let mut out = frame;
    place_cells(&mut out, &coords);
    proof {
        assert(seeded(frame, coords@, out));
        if live_count == 0 {
            assert forall|i: int| 0 <= i < frame@.len() implies out@[i] == frame@[i] by {
                assert forall|j: int| 0 <= j < frame@[0].len() implies out@[i][j] == frame@[i][j]
                    by {
                    if frame@[i][j] == CellState::Alive {
                        assert(out@[i][j] == CellState::Alive);
                    } else {
                        assert(out@[i][j] != CellState::Alive);
                        match out@[i][j] {
                            CellState::Alive => {},
                            CellState::Dead => {
                                match frame@[i][j] {
                                    CellState::Alive => {},
                                    CellState::Dead => {},
                                }
                            },
                        }
                    }
                }
                assert(out@[i] =~= frame@[i]);
            }
            assert(out@ =~= frame@);
        }
        if live_count > 0 {
            let p = coords@[0];
            assert(out.live(p.1 as int, p.0 as int));
        }
    }
    out
}

/// Seeding is monotone in the coordinates drawn, allowing for
/// collisions: if every pair of `coords1` also occurs in `coords2`,
/// then seeding a grid with `coords2` leaves at least as many live
/// cells as seeding the same grid with `coords1`.
pub proof fn lemma_seed_monotone(
    base: Grid,
    coords1: Seq<(usize, usize)>,
    coords2: Seq<(usize, usize)>,
    g1: Grid,
    g2: Grid,
)
    requires
        base.wf(),
        g1.wf(),
        g2.wf(),
        seeded(base, coords1, g1),
        seeded(base, coords2, g2),
        forall|i: int|
            0 <= i < coords1.len() ==> exists|j: int|
                0 <= j < coords2.len() && coords2[j] == #[trigger] coords1[i],
    ensures
        live_count(g1@) <= live_count(g2@),
{
    assert forall|r: int, c: int|
        0 <= r < g1@.len() && 0 <= c < g1@[r].len() && #[trigger] g1@[r][c] == CellState::Alive
        implies g2@[r][c] == CellState::Alive by {
        assert(base.in_bounds(r, c));
        if base@[r][c] != CellState::Alive {
            let i = choose|i: int|
                0 <= i < coords1.len() && (#[trigger] coords1[i]).1 == r && coords1[i].0 == c;
            let j = choose|j: int| 0 <= j < coords2.len() && coords2[j] == coords1[i];
            assert(coords2[j].1 == r && coords2[j].0 == c);
        }
    }
    lemma_live_count_monotone(g1@, g2@);
}

/// Cell-wise monotonicity lifts to the live-cell count: if grid `a` has
/// a live cell only where equally-shaped grid `b` has one, `a` has no
/// more live cells than `b`.
pub proof fn lemma_live_count_monotone(a: Seq<Seq<CellState>>, b: Seq<Seq<CellState>>)
    requires
        a.len() == b.len(),
        forall|r: int| 0 <= r < a.len() ==> (#[trigger] a[r]).len() == b[r].len(),
        forall|r: int, c: int|
            0 <= r < a.len() && 0 <= c < a[r].len() && #[trigger] a[r][c] == CellState::Alive
                ==> b[r][c] == CellState::Alive,
    ensures
        live_count(a) <= live_count(b),
    decreases a.len(),
{
    if a.len() > 0 {
        let ap = a.drop_last();
        let bp = b.drop_last();
        assert forall|r: int, c: int|
            0 <= r < ap.len() && 0 <= c < ap[r].len() && #[trigger] ap[r][c] == CellState::Alive
            implies bp[r][c] == CellState::Alive by {
            assert(ap[r] == a[r]);
            assert(bp[r] == b[r]);
        }
        assert forall|r: int| 0 <= r < ap.len() implies (#[trigger] ap[r]).len() == bp[r].len() by {
            assert(ap[r] == a[r]);
            assert(bp[r] == b[r]);
        }
        lemma_live_count_monotone(ap, bp);
        let la = a.last();
        let lb = b.last();
        assert forall|c: int|
            0 <= c < la.len() && #[trigger] la[c] == CellState::Alive implies lb[c]
            == CellState::Alive by {
            assert(a[a.len() - 1][c] == la[c]);
        }
        lemma_row_live_count_monotone(la, lb);
    }
}

/// Cell-wise monotonicity within one row lifts to that row's live-cell
/// count.
pub proof fn lemma_row_live_count_monotone(a: Seq<CellState>, b: Seq<CellState>)
    requires
        a.len() == b.len(),
        forall|c: int| 0 <= c < a.len() && #[trigger] a[c] == CellState::Alive ==> b[c]
            == CellState::Alive,
    ensures
        row_live_count(a) <= row_live_count(b),
    decreases a.len(),
{
    if a.len() > 0 {
        let ap = a.drop_last();
        let bp = b.drop_last();
        assert forall|c: int|
            0 <= c < ap.len() && #[trigger] ap[c] == CellState::Alive implies bp[c]
            == CellState::Alive by {
            assert(ap[c] == a[c]);
        }
        lemma_row_live_count_monotone(ap, bp);
        if a.last() == CellState::Alive {
            assert(b.last() == CellState::Alive);
        }
    }
}

} // verus!
