use zombie_life::grid::{states_equal, Grid, GridError};
use zombie_life::state::State;

fn board(rows: &[&str]) -> Vec<Vec<u8>> {
    let mut m: Vec<Vec<u8>> = Vec::new();
    for r in rows {
        m.push(r.as_bytes().to_vec());
    }
    m
}

#[test]
fn builds_three_by_three_dead_board() {
    let g = Grid::new(board(&["###", "###", "###"])).unwrap();
    assert_eq!(g.x, 3);
    assert_eq!(g.y, 3);
    assert_eq!(g.cells.len(), 9);
    for c in &g.cells {
        assert_eq!(c.state, State::Dead);
        assert_eq!(c.pending_state, None);
    }
}

#[test]
fn states_read_from_symbols() {
    let g = Grid::new(board(&["#O%"])).unwrap();
    assert_eq!(g.cells[0].state, State::Dead);
    assert_eq!(g.cells[1].state, State::Alive);
    assert_eq!(g.cells[2].state, State::Zombie);
}

#[test]
fn corner_edge_interior_neighbor_counts() {
    let g = Grid::new(board(&["###", "###", "###"])).unwrap();
    // corners
    assert_eq!(g.cells[0].neighbors.len(), 3);
    assert_eq!(g.cells[2].neighbors.len(), 3);
    assert_eq!(g.cells[6].neighbors.len(), 3);
    assert_eq!(g.cells[8].neighbors.len(), 3);
    // edges
    assert_eq!(g.cells[1].neighbors.len(), 5);
    assert_eq!(g.cells[3].neighbors.len(), 5);
    assert_eq!(g.cells[5].neighbors.len(), 5);
    assert_eq!(g.cells[7].neighbors.len(), 5);
    // interior
    assert_eq!(g.cells[4].neighbors.len(), 8);
}

#[test]
fn neighbor_order_is_fixed() {
    let g = Grid::new(board(&["###", "###", "###"])).unwrap();
    // center cell: top row, right, left, bottom row
    assert_eq!(g.cells[4].neighbors, vec![0, 1, 2, 5, 3, 6, 7, 8]);
    // top-left corner: right, below-center, below-right
    assert_eq!(g.cells[0].neighbors, vec![1, 3, 4]);
    // left edge: above, above-right, right, below, below-right
    assert_eq!(g.cells[3].neighbors, vec![0, 1, 4, 6, 7]);
}

#[test]
fn renders_row_major_with_line_breaks() {
    let g = Grid::new(board(&["#O%", "O#%"])).unwrap();
    assert_eq!(g.render(), "#O%\nO#%\n");
}

#[test]
fn cell_to_char_maps_each_state() {
    let g = Grid::new(board(&["#O%"])).unwrap();
    assert_eq!(g.cells[0].to_char(&g.cells), "#");
    assert_eq!(g.cells[1].to_char(&g.cells), "O");
    assert_eq!(g.cells[2].to_char(&g.cells), "%");
}

#[test]
fn invalid_symbol_is_rejected() {
    let r = Grid::new(board(&["#O#", "#Z#", "###"]));
    assert_eq!(r.unwrap_err(), GridError::InvalidSymbol);
}

#[test]
fn empty_board_is_rejected() {
    assert_eq!(Grid::new(Vec::new()).unwrap_err(), GridError::EmptyBoard);
    assert_eq!(Grid::new(board(&[""])).unwrap_err(), GridError::EmptyBoard);
}

#[test]
fn ragged_rows_are_rejected() {
    let r = Grid::new(board(&["###", "##", "###"]));
    assert_eq!(r.unwrap_err(), GridError::RaggedRows);
}

#[test]
fn state_equality_ignores_pending_and_topology() {
    let a = Grid::new(board(&["#O#"])).unwrap();
    let b = Grid::new(board(&["#O#"])).unwrap();
    let c = Grid::new(board(&["#OO"])).unwrap();
    assert!(states_equal(&a, &b));
    assert!(!states_equal(&a, &c));
    // a stepped grid carries pending records, yet only states compare
    let mut blinker = Grid::new(board(&["###", "OOO", "###"])).unwrap();
    let stepped = blinker.next().unwrap();
    let fresh = Grid::new(board(&["#O#", "#O#", "#O#"])).unwrap();
    assert!(states_equal(&stepped, &fresh));
}
