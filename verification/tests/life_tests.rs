use script_host::life::{Cell, Grid};

#[test]
fn cell_rules() {
    // A live cell survives only with two or three live neighbours.
    assert!(!Cell(true).next(0).alive());
    assert!(!Cell(true).next(1).alive());
    assert!(Cell(true).next(2).alive());
    assert!(Cell(true).next(3).alive());
    assert!(!Cell(true).next(4).alive());
    // A dead cell is born only with exactly three.
    assert!(!Cell(false).next(2).alive());
    assert!(Cell(false).next(3).alive());
    assert!(!Cell(false).next(4).alive());
}

#[test]
fn cell_kill_and_dead() {
    let mut c = Cell(true);
    assert!(c.alive());
    assert!(!c.dead(0));
    c.kill();
    assert!(!c.alive());
    assert!(c.dead(5));
}

#[test]
fn new_grid_is_dead() {
    let g = Grid::new(4, 3);
    assert_eq!(g.width, 4);
    assert_eq!(g.height, 3);
    assert_eq!(g.size, 12);
    for i in 0..12 {
        assert!(!g.cell_at(i).alive());
    }
}

#[test]
fn fill_and_invert() {
    let mut g = Grid::new(3, 3);
    g.fill(Cell(true));
    for i in 0..9 {
        assert!(g.cell_at(i).alive());
    }
    g.invert();
    for i in 0..9 {
        assert!(!g.cell_at(i).alive());
    }
}

#[test]
fn fill_random_keeps_the_shape() {
    let mut g = Grid::new(5, 2);
    g.fill_random();
    assert_eq!(g.width, 5);
    assert_eq!(g.height, 2);
    assert_eq!(g.size, 10);
}

#[test]
fn tick_counts_the_three_visited_neighbours() {
    // 2x2 grid, all alive. Each cell sees only its left, upper and
    // upper-left neighbours:
    //   (0,0) sees none        -> 0 live -> dies
    //   (1,0) sees (0,0)       -> 1 live -> dies
    //   (0,1) sees (0,0)       -> 1 live -> dies
    //   (1,1) sees all three   -> 3 live -> survives
    let mut g = Grid::new(2, 2);
    g.fill(Cell(true));
    g.tick();
    assert!(!g.cell_at(0).alive());
    assert!(!g.cell_at(1).alive());
    assert!(!g.cell_at(2).alive());
    assert!(g.cell_at(3).alive());
}

#[test]
fn tick_births_with_three_live_neighbours() {
    // 2x2 grid: everything alive but the bottom-right corner, which then
    // has exactly three live visited neighbours and is born.
    let mut g = Grid::new(2, 2);
    g.fill(Cell(true));
    g.set_cell(3, Cell(false));
    g.tick();
    assert!(g.cell_at(3).alive());
}

#[test]
fn resize_rounds_up_and_rereads_rows() {
    let mut g = Grid::new(2, 2);
    g.fill(Cell(true));
    // Growing rounds both dimensions up to the scale.
    g.resize(3, 2);
    assert_eq!(g.width, 14);
    assert_eq!(g.height, 14);
    assert_eq!(g.size, 14 * 14);
    // Each kept cell of the old layout was re-read from the new layout's
    // position: old (x, y) takes the padded buffer at y * 14 + x. Old row 0
    // held cells 0 and 1 (both alive): position (0,0) re-reads index 0
    // (alive), position (1,0) re-reads index 1 (alive); row 1 re-reads
    // indices 14 and 15, which are padding (dead).
    assert!(g.cell_at(0).alive());
    assert!(g.cell_at(1).alive());
    assert!(!g.cell_at(2).alive());
    assert!(!g.cell_at(3).alive());
}

#[test]
fn resize_to_a_covered_shape_changes_nothing() {
    let mut g = Grid::new(4, 4);
    g.fill(Cell(true));
    g.resize(3, 4);
    assert_eq!(g.width, 4);
    assert_eq!(g.height, 4);
    for i in 0..16 {
        assert!(g.cell_at(i).alive());
    }
}
