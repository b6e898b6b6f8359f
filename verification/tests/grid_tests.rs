use pong_wars_core::grid::{Reflection, Sample, CELL_COUNT};
use pong_wars_core::{Grid, Team, GRID_SIZE};

#[test]
fn initial_split_is_half_and_half() {
    let game = Grid::new();
    let (day, night) = game.score();
    assert_eq!(day, night, "initial board should be balanced");
    assert_eq!(day + night, (GRID_SIZE * GRID_SIZE) as u32);
}

#[test]
fn cell_out_of_bounds_returns_none() {
    let game = Grid::new();
    assert!(game.cell(GRID_SIZE, 0).is_none());
    assert!(game.cell(0, GRID_SIZE).is_none());
    assert!(game.cell(GRID_SIZE * 2, GRID_SIZE * 2).is_none());
    assert!(game.cell(0, 0).is_some());
}

#[test]
fn initial_grid_is_split_down_the_middle() {
    let game = Grid::new();
    for y in 0..GRID_SIZE {
        for x in 0..GRID_SIZE {
            let expected = if x < GRID_SIZE / 2 { Team::Day } else { Team::Night };
            assert_eq!(game.cell(x, y), Some(expected));
            assert_eq!(game.cells()[y * GRID_SIZE + x], expected);
        }
    }
    assert_eq!(game.cells().len(), CELL_COUNT);
}

#[test]
fn claim_flips_only_enemy_cells_on_the_grid() {
    let mut game = Grid::new();
    // An enemy cell flips and moves one point over.
    assert!(game.claim(20, 3, Team::Day));
    assert_eq!(game.cell(20, 3), Some(Team::Day));
    assert_eq!(game.score(), (513, 511));
    // An own cell does not flip.
    assert!(!game.claim(20, 3, Team::Day));
    assert!(!game.claim(0, 0, Team::Day));
    // Off-grid points never flip.
    assert!(!game.claim(-1, 5, Team::Night));
    assert!(!game.claim(5, 32, Team::Night));
    assert!(!game.claim(32, 0, Team::Night));
    assert_eq!(game.score(), (513, 511));
    // Neighbours keep their owners.
    assert_eq!(game.cell(21, 3), Some(Team::Night));
    assert_eq!(game.cell(20, 4), Some(Team::Night));
}

#[test]
fn collide_reflects_once_per_flipped_sample() {
    let mut game = Grid::new();
    let samples = [
        Sample { i: 16, j: 0, reflect_x: true },
        Sample { i: 16, j: 0, reflect_x: false },
        Sample { i: 17, j: 0, reflect_x: true },
        Sample { i: 15, j: 0, reflect_x: false },
        Sample { i: -3, j: 0, reflect_x: false },
    ];
    let r = game.collide(Team::Day, &samples);
    // Two x-reflections cancel; the y-samples hit an own cell, a cell
    // already flipped and an off-grid point.
    assert_eq!(r, Reflection { flip_x: false, flip_y: false });
    assert_eq!(game.cell(16, 0), Some(Team::Day));
    assert_eq!(game.cell(17, 0), Some(Team::Day));
    assert_eq!(game.score(), (514, 510));

    let r = game.collide(Team::Night, &[Sample { i: 0, j: 31, reflect_x: false }]);
    assert_eq!(r, Reflection { flip_x: false, flip_y: true });
    assert_eq!(game.cell(0, 31), Some(Team::Night));
    let (d, n) = game.score();
    assert_eq!(d + n, CELL_COUNT as u32);
}

#[test]
fn many_claims_keep_total_cell_count() {
    let mut game = Grid::new();
    let mut team = Team::Day;
    for k in 0..2000isize {
        game.claim(k % 37 - 2, (k * 7) % 35 - 1, team);
        team = team.opposite();
        let (d, n) = game.score();
        assert_eq!(d + n, (GRID_SIZE * GRID_SIZE) as u32);
    }
}
