use zombie_life::cell::Cell;
use zombie_life::grid::Grid;
use zombie_life::state::State;

fn board(rows: &[&str]) -> Vec<Vec<u8>> {
    let mut m: Vec<Vec<u8>> = Vec::new();
    for r in rows {
        m.push(r.as_bytes().to_vec());
    }
    m
}

#[test]
fn dead_cell_with_three_alive_neighbors_is_born() {
    // the dead corner of a 2x2 block with three alive cells comes alive,
    // and every alive cell has two alive neighbors and survives
    let mut g = Grid::new(board(&["#O", "OO"])).unwrap();
    let next = g.next().unwrap();
    assert_eq!(next.render(), "OO\nOO\n");
    // a full block is stable: every cell has exactly three alive neighbors
    assert!(g.next().is_none());
}

#[test]
fn dead_cell_with_other_counts_stays_dead() {
    // two alive neighbors are not enough for a birth
    let mut g = Grid::new(board(&["O#O"])).unwrap();
    let next = g.next().unwrap();
    assert_eq!(next.render(), "###\n");
}

#[test]
fn infection_dominates_starvation() {
    // the alive cell has zero alive neighbors and one zombie neighbor:
    // it must become a zombie, not die of underpopulation
    let mut g = Grid::new(board(&["O%"])).unwrap();
    let gen1 = g.next().unwrap();
    assert_eq!(gen1.render(), "%%\n");
    // both zombies now lack alive neighbors and starve
    let gen2 = g.next().unwrap();
    assert_eq!(gen2.render(), "##\n");
    assert!(g.next().is_none());
}

#[test]
fn overpopulated_and_underpopulated_cells_die() {
    let mut g = Grid::new(board(&["OOO", "OOO", "OOO"])).unwrap();
    // corners keep three alive neighbors; edges see five, the center eight
    let gen1 = g.next().unwrap();
    assert_eq!(gen1.render(), "O#O\n###\nO#O\n");
    // the surviving corners are now isolated and die
    let gen2 = g.next().unwrap();
    assert_eq!(gen2.render(), "###\n###\n###\n");
    assert!(g.next().is_none());
}

#[test]
fn zombie_with_alive_neighbor_persists() {
    let mut g = Grid::new(board(&["%OO"])).unwrap();
    // the zombie feeds on its alive neighbor; the middle cell is infected;
    // the right cell has no zombie neighbor and one alive neighbor: it dies
    let gen1 = g.next().unwrap();
    assert_eq!(gen1.render(), "%%#\n");
}

#[test]
fn blinker_advances_and_differs() {
    let mut g = Grid::new(board(&["###", "OOO", "###"])).unwrap();
    assert_eq!(g.render(), "###\nOOO\n###\n");
    let gen1 = g.next().unwrap();
    assert_eq!(gen1.render(), "#O#\n#O#\n#O#\n");
    assert_ne!(gen1.render(), "###\nOOO\n###\n");
    let gen2 = g.next().unwrap();
    assert_eq!(gen2.render(), "###\nOOO\n###\n");
}

#[test]
fn all_dead_board_is_a_fixed_point() {
    let mut g = Grid::new(board(&["###", "###", "###"])).unwrap();
    assert_eq!(g.render(), "###\n###\n###\n");
    assert!(g.next().is_none());
    // the grid is untouched by the failed advance
    assert_eq!(g.render(), "###\n###\n###\n");
}

#[test]
fn lone_zombie_starves_to_all_dead() {
    let mut g = Grid::new(board(&["###", "#%#", "###"])).unwrap();
    let gen1 = g.next().unwrap();
    assert_eq!(gen1.render(), "###\n###\n###\n");
    assert!(g.next().is_none());
}

#[test]
fn advance_is_deterministic() {
    let g = Grid::new(board(&["#O#", "OO%", "#O#"])).unwrap();
    let a = g.next_matrix();
    let b = g.next_matrix();
    assert_eq!(a.render(), b.render());
}

#[test]
fn pending_state_present_only_on_change() {
    let mut g = Grid::new(board(&["###", "OOO", "###"])).unwrap();
    for c in &g.cells {
        assert_eq!(c.pending_state, None);
    }
    let gen1 = g.next().unwrap();
    // the top-middle cell was born
    assert_eq!(gen1.cells[1].pending_state, Some(State::Alive));
    // the center cell kept its state
    assert_eq!(gen1.cells[4].pending_state, None);
    // the middle-left cell died of underpopulation
    assert_eq!(gen1.cells[3].pending_state, Some(State::Dead));
}

#[test]
fn single_cell_board_has_no_neighbors() {
    let mut g = Grid::new(vec![vec![b'O']]).unwrap();
    assert_eq!(g.cells[0].neighbors.len(), 0);
    // an alive cell with zero alive neighbors dies of underpopulation
    let gen1 = g.next().unwrap();
    assert_eq!(gen1.render(), "#\n");
    assert!(g.next().is_none());
}

#[test]
fn cell_tallies_its_neighborhood() {
    let snapshot = vec![
        Cell::new(State::Dead, Vec::new()),
        Cell::new(State::Alive, Vec::new()),
        Cell::new(State::Alive, Vec::new()),
        Cell::new(State::Zombie, Vec::new()),
    ];
    let c = Cell::new(State::Dead, vec![0, 1, 2, 3]);
    let t = c.nearby_states(&snapshot);
    assert_eq!(t.dead, 1);
    assert_eq!(t.alive, 2);
    assert_eq!(t.zombie, 1);
}

#[test]
fn cell_update_commits_and_reports_change() {
    let snapshot = vec![
        Cell::new(State::Alive, Vec::new()),
        Cell::new(State::Alive, Vec::new()),
        Cell::new(State::Alive, Vec::new()),
    ];
    let mut born = Cell::new(State::Dead, vec![0, 1, 2]);
    assert!(born.update(&snapshot));
    assert_eq!(born.state, State::Alive);
    assert_eq!(born.pending_state, Some(State::Alive));

    let mut lonely = Cell::new(State::Dead, vec![0]);
    assert!(!lonely.update(&snapshot));
    assert_eq!(lonely.state, State::Dead);
    assert_eq!(lonely.pending_state, None);
}
