use life_grid::grid::{create_life, CellState, ErrorKind, Grid};
use life_grid::seed::{place_cells, seed};
use life_grid::sim::{neighbors, step};

fn count_alive(g: &Grid) -> usize {
    let mut n = 0;
    for r in 0..g.rows() {
        for c in 0..g.cols() {
            if g.get(r, c) == CellState::Alive {
                n += 1;
            }
        }
    }
    n
}

fn snapshot(g: &Grid) -> Vec<Vec<CellState>> {
    let mut rows = Vec::new();
    for r in 0..g.rows() {
        let mut row = Vec::new();
        for c in 0..g.cols() {
            row.push(g.get(r, c));
        }
        rows.push(row);
    }
    rows
}

/// Builds a grid from a picture: '#' for a live cell, '.' for a dead one.
fn grid_of(rows: &[&str]) -> Grid {
    let mut g = Grid::new(rows.len(), rows[0].len()).unwrap();
    for (r, line) in rows.iter().enumerate() {
        for (c, ch) in line.chars().enumerate() {
            if ch == '#' {
                g.set_alive(r, c);
            }
        }
    }
    g
}

fn assert_matches_picture(g: &Grid, rows: &[&str]) {
    assert_eq!(g.rows(), rows.len());
    assert_eq!(g.cols(), rows[0].len());
    for (r, line) in rows.iter().enumerate() {
        for (c, ch) in line.chars().enumerate() {
            let expected = if ch == '#' { CellState::Alive } else { CellState::Dead };
            assert_eq!(g.get(r, c), expected, "cell ({}, {})", r, c);
        }
    }
}

#[test]
fn new_rejects_zero_rows() {
    assert!(matches!(Grid::new(0, 5), Err(ErrorKind::InvalidDimensions)));
}

#[test]
fn new_rejects_zero_cols() {
    assert!(matches!(Grid::new(5, 0), Err(ErrorKind::InvalidDimensions)));
    assert!(matches!(Grid::new(0, 0), Err(ErrorKind::InvalidDimensions)));
}

#[test]
fn new_grid_is_all_dead() {
    let g = Grid::new(3, 4).unwrap();
    assert_eq!(g.rows(), 3);
    assert_eq!(g.cols(), 4);
    for r in 0..3 {
        for c in 0..4 {
            assert_eq!(g.get(r, c), CellState::Dead);
        }
    }
}

#[test]
fn set_alive_changes_only_one_cell() {
    let mut g = Grid::new(3, 3).unwrap();
    g.set_alive(1, 2);
    for r in 0..3 {
        for c in 0..3 {
            let expected = if (r, c) == (1, 2) { CellState::Alive } else { CellState::Dead };
            assert_eq!(g.get(r, c), expected);
        }
    }
}

#[test]
fn create_life_uses_column_row_order() {
    let mut g = Grid::new(4, 6).unwrap();
    create_life((5, 1), &mut g);
    assert_eq!(g.get(1, 5), CellState::Alive);
    assert_eq!(count_alive(&g), 1);
}

#[test]
fn try_set_alive_out_of_bounds() {
    let mut g = Grid::new(2, 2).unwrap();
    assert_eq!(g.try_set_alive(2, 0), Err(ErrorKind::BoundsError));
    assert_eq!(g.try_set_alive(0, 2), Err(ErrorKind::BoundsError));
    assert_eq!(count_alive(&g), 0);
    assert_eq!(g.try_set_alive(1, 1), Ok(()));
    assert_eq!(g.get(1, 1), CellState::Alive);
}

#[test]
fn step_preserves_dimensions() {
    let g = Grid::new(7, 11).unwrap();
    let next = step(&g);
    assert_eq!(next.rows(), 7);
    assert_eq!(next.cols(), 11);
}

#[test]
fn dead_grid_stays_dead() {
    let g = Grid::new(5, 5).unwrap();
    let next = step(&g);
    assert_eq!(count_alive(&next), 0);
}

#[test]
fn isolated_cell_dies() {
    let mut g = Grid::new(5, 5).unwrap();
    g.set_alive(2, 2);
    let next = step(&g);
    assert_eq!(count_alive(&next), 0);
}

#[test]
fn corner_cell_dies_too() {
    let mut g = Grid::new(3, 3).unwrap();
    g.set_alive(0, 0);
    let next = step(&g);
    assert_eq!(count_alive(&next), 0);
}

#[test]
fn blinker_oscillates() {
    let g = grid_of(&[
        ".....",
        ".....",
        ".###.",
        ".....",
        ".....",
    ]);
    let g1 = step(&g);
    assert_matches_picture(&g1, &[
        ".....",
        "..#..",
        "..#..",
        "..#..",
        ".....",
    ]);
    let g2 = step(&g1);
    assert_matches_picture(&g2, &[
        ".....",
        ".....",
        ".###.",
        ".....",
        ".....",
    ]);
}

#[test]
fn block_is_still_life() {
    let g = grid_of(&[
        "....",
        ".##.",
        ".##.",
        "....",
    ]);
    let next = step(&g);
    assert_matches_picture(&next, &[
        "....",
        ".##.",
        ".##.",
        "....",
    ]);
}

#[test]
fn neighbor_counts_at_corner_edge_interior() {
    // A fully alive 3x3 grid: every in-bounds neighbor is live, so the
    // count equals the number of valid neighbors at each position.
    let g = grid_of(&[
        "###",
        "###",
        "###",
    ]);
    assert_eq!(neighbors(&g, (0, 0)), 3); // corner
    assert_eq!(neighbors(&g, (2, 0)), 3); // corner
    assert_eq!(neighbors(&g, (0, 2)), 3); // corner
    assert_eq!(neighbors(&g, (2, 2)), 3); // corner
    assert_eq!(neighbors(&g, (1, 0)), 5); // edge
    assert_eq!(neighbors(&g, (0, 1)), 5); // edge
    assert_eq!(neighbors(&g, (1, 1)), 8); // interior
}

#[test]
fn neighbors_excludes_the_cell_itself() {
    let mut g = Grid::new(3, 3).unwrap();
    g.set_alive(1, 1);
    assert_eq!(neighbors(&g, (1, 1)), 0);
    assert_eq!(neighbors(&g, (0, 0)), 1);
}

#[test]
fn single_cell_grid_neighbor_count_is_zero() {
    let mut g = Grid::new(1, 1).unwrap();
    g.set_alive(0, 0);
    assert_eq!(neighbors(&g, (0, 0)), 0);
}

#[test]
fn seed_zero_leaves_grid_all_dead() {
    let g = Grid::new(4, 4).unwrap();
    let seeded = seed(g, 0);
    assert_eq!(count_alive(&seeded), 0);
}

#[test]
fn seed_places_at_least_one_cell() {
    let g = Grid::new(1, 1).unwrap();
    let seeded = seed(g, 1);
    assert_eq!(seeded.get(0, 0), CellState::Alive);
}

#[test]
fn seed_count_bounded_by_draws() {
    let g = Grid::new(5, 5).unwrap();
    let seeded = seed(g, 10);
    let n = count_alive(&seeded);
    assert!(n >= 1);
    assert!(n <= 10);
    assert_eq!(seeded.rows(), 5);
    assert_eq!(seeded.cols(), 5);
}

#[test]
fn seed_saturates_toward_alive() {
    // Seeding with at least rows*cols draws never yields fewer live
    // cells than a prefix of the same draws: checked here on explicit
    // coordinates, where the shorter list is a prefix of the longer.
    let shorter: Vec<(usize, usize)> = vec![(0, 0), (1, 1), (0, 0)];
    let longer: Vec<(usize, usize)> = vec![(0, 0), (1, 1), (0, 0), (1, 0), (0, 1), (1, 1)];
    let mut g1 = Grid::new(2, 2).unwrap();
    place_cells(&mut g1, &shorter);
    let mut g2 = Grid::new(2, 2).unwrap();
    place_cells(&mut g2, &longer);
    assert!(count_alive(&g1) <= count_alive(&g2));
    assert_eq!(count_alive(&g1), 2); // duplicates collapse
    assert_eq!(count_alive(&g2), 4); // saturated: every cell alive
}

#[test]
fn place_cells_keeps_existing_life() {
    let mut g = Grid::new(3, 3).unwrap();
    g.set_alive(0, 0);
    place_cells(&mut g, &vec![(2, 2)]);
    assert_eq!(g.get(0, 0), CellState::Alive);
    assert_eq!(g.get(2, 2), CellState::Alive);
    assert_eq!(count_alive(&g), 2);
}

#[test]
fn step_does_not_mutate_its_input() {
    let g = grid_of(&[
        ".....",
        ".###.",
        ".#.#.",
        ".###.",
        ".....",
    ]);
    let before = snapshot(&g);
    let _next = step(&g);
    let after = snapshot(&g);
    assert_eq!(before, after);
}
