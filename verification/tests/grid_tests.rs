use conway::grid::Grid;

#[test]
fn test_cell_collection() {
    let mut grid = Grid::new();
    grid.set_cells(vec![
        vec![false, true, true],
        vec![false, true, true],
        vec![false, true, true],
    ]);
    assert_eq!(grid.get_sur_cells(1, 1).len(), 8);
    assert_eq!(grid.get_sur_cells(0, 0).len(), 3);
    assert_eq!(grid.get_sur_cells(0, 1).len(), 5);
    assert_eq!(grid.get_sur_cells(0, 2).len(), 3);
    assert_eq!(grid.get_sur_cells(1, 0).len(), 5);
    assert_eq!(grid.get_sur_cells(1, 0).len(), 5);
}

#[test]
fn neighbor_values_in_fixed_order() {
    // 3x3 grid, columns x rows: col0 all dead, col1 and col2 all alive.
    let mut grid = Grid::new();
    grid.set_cells(vec![
        vec![false, false, false],
        vec![true, true, true],
        vec![true, true, true],
    ]);
    // Order: left, right, top, bottom, top-left, top-right,
    // bottom-left, bottom-right.
    assert_eq!(
        grid.get_sur_cells(1, 1),
        vec![false, true, true, true, false, true, false, true]
    );
    assert_eq!(grid.get_sur_cells(0, 0).len(), 3);
    assert_eq!(grid.get_sur_cells(0, 1).len(), 5);
    assert_eq!(grid.get_sur_cells(0, 2).len(), 3);
    assert_eq!(grid.get_sur_cells(1, 0).len(), 5);
    // Center cell: alive with 5 live neighbors, so it dies.
    let sur = grid.get_sur_cells(1, 1);
    assert_eq!(sur.iter().filter(|&&b| b).count(), 5);
    assert!(!conway::rule::Cell::new_state(true, sur));
}

#[test]
fn new_grid_is_empty() {
    let grid = Grid::new();
    assert_eq!(grid.get_cells().len(), 0);
}

#[test]
fn random_pop_gives_exact_dimensions() {
    let mut grid = Grid::new();
    grid.random_pop(5, 7);
    let cells = grid.get_cells();
    assert_eq!(cells.len(), 5);
    for col in &cells {
        assert_eq!(col.len(), 7);
    }
    // Reseeding replaces the old matrix, dimensions included.
    grid.random_pop(2, 3);
    let cells = grid.get_cells();
    assert_eq!(cells.len(), 2);
    for col in &cells {
        assert_eq!(col.len(), 3);
    }
}

#[test]
fn random_pop_of_zero_yields_empty() {
    let mut grid = Grid::new();
    grid.random_pop(0, 0);
    assert_eq!(grid.get_cells().len(), 0);
    grid.random_pop(4, 0);
    let cells = grid.get_cells();
    assert_eq!(cells.len(), 4);
    for col in &cells {
        assert_eq!(col.len(), 0);
    }
}

#[test]
fn get_cells_is_a_deep_copy() {
    let mut grid = Grid::new();
    grid.set_cells(vec![vec![true, false], vec![false, true]]);
    let mut copy = grid.get_cells();
    copy[0][0] = false;
    copy[1].clear();
    // The grid's own state is untouched.
    assert!(grid.get_cell_value(0, 0));
    assert_eq!(grid.get_cells(), vec![vec![true, false], vec![false, true]]);
}

#[test]
fn get_cell_value_reads_column_then_row() {
    let mut grid = Grid::new();
    grid.set_cells(vec![vec![true, false], vec![false, true], vec![true, true]]);
    assert!(grid.get_cell_value(0, 0));
    assert!(!grid.get_cell_value(0, 1));
    assert!(!grid.get_cell_value(1, 0));
    assert!(grid.get_cell_value(1, 1));
    assert!(grid.get_cell_value(2, 0));
}

#[test]
fn dead_grid_stays_dead() {
    let mut grid = Grid::new();
    grid.set_cells(vec![vec![false; 4]; 4]);
    grid.step();
    let cells = grid.get_cells();
    assert_eq!(cells.len(), 4);
    for col in &cells {
        assert_eq!(col.len(), 4);
        for &cell in col {
            assert!(!cell);
        }
    }
}

#[test]
fn block_is_a_still_life() {
    // A 2x2 block in a 4x4 grid: every live cell has exactly 3 live
    // neighbors, every dead cell at most 2, so nothing changes.
    let mut grid = Grid::new();
    let mut cells = vec![vec![false; 4]; 4];
    cells[1][1] = true;
    cells[1][2] = true;
    cells[2][1] = true;
    cells[2][2] = true;
    grid.set_cells(cells.clone());
    grid.step();
    assert_eq!(grid.get_cells(), cells);
}

#[test]
fn glider_survives_four_generations() {
    // A standard glider placed centrally on a bordered 10x10 grid:
    // it keeps 5 live cells through at least 4 generations.
    let mut cells = vec![vec![false; 10]; 10];
    for &(x, y) in &[(4, 3), (5, 4), (3, 5), (4, 5), (5, 5)] {
        cells[x][y] = true;
    }
    let mut grid = Grid::new();
    grid.set_cells(cells);
    for _ in 0..4 {
        grid.step();
        let live: usize = grid
            .get_cells()
            .iter()
            .map(|col| col.iter().filter(|&&b| b).count())
            .sum();
        assert_eq!(live, 5);
    }
}
